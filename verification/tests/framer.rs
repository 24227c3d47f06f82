use ubc125::framer::{frame_command, ResponseFramer};

#[test]
fn test_frame_command_appends_carriage_return() {
    assert_eq!(frame_command("GLG"), "GLG\r");
    assert_eq!(frame_command(""), "\r");
}

#[test]
fn test_framer_accumulates_until_carriage_return() {
    let mut f = ResponseFramer::new();
    for b in b"MDL,UBC125XLT\r" {
        f.push_byte(*b);
    }
    assert!(f.is_complete());
    assert_eq!(f.line(), "MDL,UBC125XLT");
}

#[test]
fn test_framer_drops_line_feeds() {
    let mut f = ResponseFramer::new();
    for b in b"\nGLG,0088\n1000\r" {
        f.push_byte(*b);
    }
    assert_eq!(f.line(), "GLG,00881000");
}

#[test]
fn test_framer_ignores_bytes_after_terminator() {
    let mut f = ResponseFramer::new();
    for b in b"OK\rXYZ" {
        f.push_byte(*b);
    }
    assert!(f.is_complete());
    assert_eq!(f.line(), "OK");
}

#[test]
fn test_framer_timeout_returns_partial_line() {
    // A device that never answers the terminator: the accumulated text
    // is returned as-is, trimmed — an empty answer is not an error.
    let mut f = ResponseFramer::new();
    for b in b"  GL" {
        f.push_byte(*b);
    }
    assert!(!f.is_complete());
    assert_eq!(f.line(), "GL");

    let empty = ResponseFramer::new();
    assert_eq!(empty.line(), "");
}
