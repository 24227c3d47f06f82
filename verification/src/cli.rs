//! The command-line surface: two subcommands, one launching the
//! interactive console against a device path, one launching the
//! network-facing service on an address and device path. The argument
//! parser itself lives outside the crate and hands these plain values in.

use vstd::prelude::*;
use vstd::string::*;

verus! {

/// Arguments of the console subcommand.
pub struct ConsoleArgs {
    pub console_device: String,
}

impl Default for ConsoleArgs {
    /// The default serial device path.
    fn default() -> (r: Self)
        ensures
            r.console_device@ == "/dev/ttyACM0"@,
    {
        ConsoleArgs { console_device: String::from_str("/dev/ttyACM0") }
    }
}

/// Arguments of the serve subcommand.
pub struct ServeArgs {
    pub server_addr: String,
    pub device: String,
}

impl Default for ServeArgs {
    /// The default listen address and serial device path.
    fn default() -> (r: Self)
        ensures
            r.server_addr@ == "127.0.0.1:50051"@,
            r.device@ == "/dev/ttyACM0"@,
    {
        ServeArgs {
            server_addr: String::from_str("127.0.0.1:50051"),
            device: String::from_str("/dev/ttyACM0"),
        }
    }
}

/// The selected subcommand.
pub enum Commands {
    Serve(ServeArgs),
    Console(ConsoleArgs),
}

/// The parsed command line: the debug verbosity count and the selected
/// subcommand.
pub struct Cli {
    pub debug: u8,
    pub command: Commands,
}

} // verus!
