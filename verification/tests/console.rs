use ubc125::console::{App, EditField, InputMode, Key};

fn fresh_app() -> App {
    App::new(
        "".to_string(),
        "".to_string(),
        "".to_string(),
        "".to_string(),
        "",
    )
}

#[test]
fn test_parse_glg_response() {
    let mut app = fresh_app();

    app.update_scan_status("GLG,01239750,AM,,0,,,BHX RADAR,1,0,,52,".to_string());

    assert_eq!(app.scan_status.frequency, "123.9750");
    assert_eq!(app.scan_status.bank, "2");
    assert_eq!(app.scan_status.channel_name, "BHX RADAR");
}

#[test]
fn test_parse_glg_low_frequency() {
    let mut app = fresh_app();

    app.update_scan_status("GLG,00881000,FM,,0,,,BBC R2,1,0,,1,".to_string());

    assert_eq!(app.scan_status.frequency, "88.1000");
    assert_eq!(app.scan_status.bank, "1");
    assert_eq!(app.scan_status.channel_name, "BBC R2");
}

#[test]
fn test_parse_glg_signal_detected() {
    let mut app = fresh_app();

    app.update_scan_status("GLG,01239750,AM,,0,,,BHX RADAR,1,0,,52,".to_string());
    assert!(app.scan_status.signal_detected);
    assert_eq!(app.scan_status.channel_name, "BHX RADAR");

    app.update_scan_status("GLG,01239750,AM,,0,,,QUIET,0,0,,52,".to_string());
    assert!(!app.scan_status.signal_detected);
}

#[test]
fn test_glg_signal_flip_changes_nothing_else() {
    let mut app = fresh_app();
    app.update_scan_status("GLG,01239750,AM,,0,,,BHX RADAR,1,0,,52,".to_string());
    app.update_scan_status("GLG,01239750,AM,,0,,,BHX RADAR,0,0,,52,".to_string());
    assert!(!app.scan_status.signal_detected);
    assert_eq!(app.scan_status.frequency, "123.9750");
    assert_eq!(app.scan_status.bank, "2");
    assert_eq!(app.scan_status.channel_name, "BHX RADAR");
}

#[test]
fn test_glg_malformed_keeps_previous_status() {
    let mut app = fresh_app();
    app.update_scan_status("GLG,01239750,AM,,0,,,BHX RADAR,1,0,,52,".to_string());
    app.update_scan_status("garbage".to_string());
    assert_eq!(app.scan_status.frequency, "123.9750");
    assert_eq!(app.scan_status.bank, "2");
    assert_eq!(app.scan_status.channel_name, "BHX RADAR");
    assert_eq!(app.scan_status.raw, "garbage");
}

#[test]
fn test_new_app_parses_bank_mask() {
    let app = App::new(
        "UBC125XLT".to_string(),
        "1.0".to_string(),
        "10".to_string(),
        "5".to_string(),
        "SCG,0111111111",
    );
    assert_eq!(app.banks[0], true);
    for i in 1..10 {
        assert_eq!(app.banks[i], false);
    }
    assert_eq!(app.scan_status.frequency, "---");
    assert_eq!(app.scan_status.bank, "-");
    assert!(!app.in_prg_mode);
    assert_eq!(app.fetch_queue.len(), 0);
    assert_eq!(app.channels.len(), 501);
    assert!(app.channels.iter().all(|c| c.is_none()));
}

#[test]
fn test_new_app_bad_mask_defaults_all_enabled() {
    let app = fresh_app();
    assert_eq!(app.banks, vec![true; 10]);
}

#[test]
fn test_apply_bank_mask_retains_previous_on_failure() {
    let mut app = App::new(
        "".to_string(),
        "".to_string(),
        "".to_string(),
        "".to_string(),
        "SCG,0101010101",
    );
    let before = app.banks.clone();
    app.apply_bank_mask("SCG,01");
    assert_eq!(app.banks, before);
    app.apply_bank_mask("SCG,1111111110");
    let mut expected = vec![false; 10];
    expected[9] = true;
    assert_eq!(app.banks, expected);
}

#[test]
fn test_tab_navigation_queues_bank() {
    let mut app = fresh_app();
    app.next_tab();
    assert_eq!(app.selected_tab, 1);
    // All fifty channels of bank 1 are absent, so all are queued.
    let queued: Vec<u32> = app.fetch_queue.iter().copied().collect();
    assert_eq!(queued, (1u32..=50).collect::<Vec<u32>>());

    app.previous_tab();
    assert_eq!(app.selected_tab, 0);

    app.previous_tab();
    assert_eq!(app.selected_tab, 10);
    let queued: Vec<u32> = app.fetch_queue.iter().copied().collect();
    let expected: Vec<u32> = (1u32..=50).chain(451u32..=500).collect();
    assert_eq!(queued, expected);
}

#[test]
fn test_enqueue_is_idempotent() {
    let mut app = fresh_app();
    app.selected_tab = 1;
    app.queue_channels_for_tab();
    app.queue_channels_for_tab();
    assert_eq!(app.fetch_queue.len(), 50);
}

#[test]
fn test_row_navigation_wraps() {
    let mut app = fresh_app();
    app.selected_tab = 2;
    assert_eq!(app.selected_channel_index(), 51);
    app.next_channel();
    assert_eq!(app.selected_channel_index(), 52);
    app.previous_channel();
    app.previous_channel();
    assert_eq!(app.selected_row, 49);
    assert_eq!(app.selected_channel_index(), 100);
    app.next_channel();
    assert_eq!(app.selected_channel_index(), 51);
}

#[test]
fn test_sync_mode_round_trip() {
    let mut app = fresh_app();
    // Nothing to do while monitoring on the monitor tab.
    assert!(app.sync_mode().is_empty());

    app.next_tab();
    let cmds = app.sync_mode();
    assert_eq!(cmds, vec!["PRG".to_string()]);
    assert!(app.in_prg_mode);
    // Already synchronized: nothing more is sent.
    assert!(app.sync_mode().is_empty());

    app.previous_tab();
    let cmds = app.sync_mode();
    assert_eq!(cmds, vec!["EPG".to_string(), "KEY,S,P".to_string()]);
    assert!(!app.in_prg_mode);
    // Leaving configuration discards every pending fetch.
    assert_eq!(app.fetch_queue.len(), 0);
}

#[test]
fn test_fetch_success_applies_channel() {
    let mut app = fresh_app();
    app.next_tab();
    app.sync_mode();
    let idx = app.begin_fetch().unwrap();
    assert_eq!(idx, 1);
    let ok = app.finish_fetch(idx, "CIN,1,BHX RADAR,01239750,AM,0,0,0,0".to_string());
    assert!(ok);
    let ch = app.channels[1].as_ref().unwrap();
    assert_eq!(ch.name, "BHX RADAR");
    assert_eq!(ch.frequency, "123.975");
    assert!(!app.fetch_queue.contains(&1));
}

#[test]
fn test_fetch_failure_requeues_at_tail() {
    let mut app = fresh_app();
    app.next_tab();
    app.sync_mode();
    let idx = app.begin_fetch().unwrap();
    assert_eq!(idx, 1);
    // A malformed response (fewer than five fields) leaves the table
    // unchanged and requeues the index at the tail.
    let ok = app.finish_fetch(idx, "CIN,1".to_string());
    assert!(!ok);
    assert!(app.channels[1].is_none());
    assert_eq!(app.fetch_queue.back(), Some(&1));
    assert_eq!(app.fetch_queue.len(), 50);
}

#[test]
fn test_begin_fetch_needs_configuration_mode() {
    let mut app = fresh_app();
    app.selected_tab = 1;
    app.queue_channels_for_tab();
    // Still monitoring: the scheduler does not drain.
    assert!(app.begin_fetch().is_none());
    assert_eq!(app.fetch_queue.len(), 50);
}

#[test]
fn test_glg_short_response_only_records_raw() {
    let mut app = fresh_app();
    app.update_scan_status("GLG,01239750,AM,,0,,,BHX RADAR,1,0,,52,".to_string());
    // Seven fields: below the minimum, so only the raw line changes.
    app.update_scan_status("GLG,00881000,FM,,0,,".to_string());
    assert_eq!(app.scan_status.frequency, "123.9750");
    assert_eq!(app.scan_status.raw, "GLG,00881000,FM,,0,,");
}

#[test]
fn test_glg_trims_channel_name() {
    let mut app = fresh_app();
    app.update_scan_status("GLG,01239750,AM,,0,,, BHX RADAR ,1,0,,52,".to_string());
    assert_eq!(app.scan_status.channel_name, "BHX RADAR");
}

#[test]
fn test_monitor_tab_ignores_bank_keys() {
    let mut app = fresh_app();
    // Row navigation and editing keys act only on a bank tab.
    let out = app.handle_key(Key::Down);
    assert!(out.commands.is_empty());
    assert_eq!(app.selected_row, 0);
    app.handle_key(Key::Char('d'));
    assert!(matches!(app.input_mode, InputMode::Normal));
    app.handle_key(Key::Char('e'));
    assert!(matches!(app.input_mode, InputMode::Normal));
}

#[test]
fn test_quit_key() {
    let mut app = fresh_app();
    let out = app.handle_key(Key::Char('q'));
    assert!(out.quit);
    assert!(out.commands.is_empty());
}

#[test]
fn test_scan_and_hold_keys() {
    let mut app = fresh_app();
    let out = app.handle_key(Key::Char('s'));
    assert_eq!(out.commands, vec!["KEY,S,P".to_string()]);
    let out = app.handle_key(Key::Char('h'));
    assert_eq!(out.commands, vec!["KEY,H,P".to_string()]);
}

#[test]
fn test_toggle_bank_sends_full_round_trip() {
    let mut app = fresh_app();
    let out = app.handle_key(Key::Char('1'));
    assert!(!out.quit);
    assert_eq!(
        out.commands,
        vec![
            "PRG".to_string(),
            "SCG,1000000000".to_string(),
            "EPG".to_string(),
            "KEY,S,P".to_string(),
        ]
    );
    assert_eq!(app.banks[0], false);
    // The mode field still says monitoring: the round trip bypasses it.
    assert!(!app.in_prg_mode);

    // Key '0' toggles bank 10.
    let out = app.handle_key(Key::Char('0'));
    assert_eq!(out.commands[1], "SCG,1000000001");
    assert_eq!(app.banks[9], false);
}

#[test]
fn test_digit_keys_ignored_on_bank_tab() {
    let mut app = fresh_app();
    app.next_tab();
    let out = app.handle_key(Key::Char('1'));
    assert!(out.commands.is_empty());
    assert_eq!(app.banks, vec![true; 10]);
}

#[test]
fn test_delete_flow() {
    let mut app = fresh_app();
    app.next_tab();
    app.sync_mode();
    // Fetch channel 1 so the slot is present, then delete it.
    let idx = app.begin_fetch().unwrap();
    app.finish_fetch(idx, "CIN,1,BHX RADAR,01239750,AM".to_string());
    assert!(app.channels[1].is_some());
    assert!(!app.fetch_queue.contains(&1));

    let out = app.handle_key(Key::Char('d'));
    assert!(out.commands.is_empty());
    assert!(matches!(app.input_mode, InputMode::ConfirmDelete));

    let out = app.handle_key(Key::Char('y'));
    assert_eq!(out.commands, vec!["DCH,1".to_string()]);
    assert!(app.channels[1].is_none());
    // The deleted slot is re-enqueued for refetch.
    assert_eq!(app.fetch_queue.back(), Some(&1));
    assert!(matches!(app.input_mode, InputMode::Normal));
}

#[test]
fn test_delete_cancel() {
    let mut app = fresh_app();
    app.next_tab();
    app.handle_key(Key::Char('d'));
    let out = app.handle_key(Key::Char('n'));
    assert!(out.commands.is_empty());
    assert!(matches!(app.input_mode, InputMode::Normal));
}

#[test]
fn test_edit_commit_sends_channel_write() {
    let mut app = fresh_app();
    app.next_tab();
    // Open the editor on the absent channel 1: buffers start empty.
    app.handle_key(Key::Char('e'));
    match &app.input_mode {
        InputMode::Editing(es) => {
            assert_eq!(es.frequency, "");
            assert_eq!(es.name, "");
            assert!(matches!(es.active_field, EditField::Frequency));
        }
        _ => panic!("expected editing state"),
    }
    // Type a frequency, switch fields, type a name.
    app.handle_key(Key::Char('1'));
    app.handle_key(Key::Char('2'));
    app.handle_key(Key::Char('3'));
    app.handle_key(Key::Char('.'));
    app.handle_key(Key::Char('4'));
    app.handle_key(Key::Char('5'));
    app.handle_key(Key::Tab);
    app.handle_key(Key::Char('A'));
    app.handle_key(Key::Char('B'));
    let out = app.handle_key(Key::Enter);
    assert_eq!(out.commands, vec!["CIN,1,AB,01234500,AM,0,0,0,0".to_string()]);
    // The edit is applied optimistically, display frequency as typed.
    let ch = app.channels[1].as_ref().unwrap();
    assert_eq!(ch.name, "AB");
    assert_eq!(ch.frequency, "123.45");
    assert_eq!(ch.modulation, "AM");
    assert!(matches!(app.input_mode, InputMode::Normal));
}

#[test]
fn test_edit_backspace_and_cancel() {
    let mut app = fresh_app();
    app.next_tab();
    app.handle_key(Key::Char('e'));
    app.handle_key(Key::Char('1'));
    app.handle_key(Key::Char('2'));
    app.handle_key(Key::Backspace);
    match &app.input_mode {
        InputMode::Editing(es) => assert_eq!(es.frequency, "1"),
        _ => panic!("expected editing state"),
    }
    let out = app.handle_key(Key::Esc);
    assert!(out.commands.is_empty());
    assert!(matches!(app.input_mode, InputMode::Normal));
    // Nothing was committed.
    assert!(app.channels[1].is_none());
}

#[test]
fn test_edit_prepopulates_from_existing_channel() {
    let mut app = fresh_app();
    app.next_tab();
    app.sync_mode();
    let idx = app.begin_fetch().unwrap();
    app.finish_fetch(idx, "CIN,1,BHX RADAR,01239750,AM".to_string());
    app.handle_key(Key::Enter);
    match &app.input_mode {
        InputMode::Editing(es) => {
            assert_eq!(es.frequency, "123.975");
            assert_eq!(es.name, "BHX RADAR");
        }
        _ => panic!("expected editing state"),
    }
}
