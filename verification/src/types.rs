//! The data the client keeps about the scanner: channel records, the
//! live-scan status, and the validation errors for caller-supplied
//! values, each with a ghost model that the contracts speak of.

use vstd::prelude::*;
use vstd::string::*;

verus! {

/// One channel slot as known to the client: its 1-based index, free-text
/// name, display frequency (`MHz.kHz`), and modulation code.
pub struct Channel {
    pub index: u32,
    pub name: String,
    pub frequency: String,
    pub modulation: String,
}

/// Ghost model of a [`Channel`].
pub struct ChannelModel {
    pub index: int,
    pub name: Seq<char>,
    pub frequency: Seq<char>,
    pub modulation: Seq<char>,
}

impl View for Channel {
    type V = ChannelModel;

    open spec fn view(&self) -> ChannelModel {
        ChannelModel {
            index: self.index as int,
            name: self.name@,
            frequency: self.frequency@,
            modulation: self.modulation@,
        }
    }
}

impl DeepView for Channel {
    type V = ChannelModel;

    open spec fn deep_view(&self) -> ChannelModel {
        self.view()
    }
}

impl Clone for Channel {
    fn clone(&self) -> (r: Self)
        ensures
            r@ == self@,
    {
        Channel {
            index: self.index,
            name: self.name.clone(),
            frequency: self.frequency.clone(),
            modulation: self.modulation.clone(),
        }
    }
}

/// The most recent live-scan status: display frequency, 1-based bank
/// number (as text, `"-"` until known), trimmed channel name, whether a
/// signal is currently detected, and the last raw response line for
/// diagnostics.
pub struct ScanStatus {
    pub frequency: String,
    pub bank: String,
    pub channel_name: String,
    pub raw: String,
    pub signal_detected: bool,
}

/// Ghost model of a [`ScanStatus`].
pub struct ScanStatusModel {
    pub frequency: Seq<char>,
    pub bank: Seq<char>,
    pub channel_name: Seq<char>,
    pub raw: Seq<char>,
    pub signal_detected: bool,
}

impl View for ScanStatus {
    type V = ScanStatusModel;

    open spec fn view(&self) -> ScanStatusModel {
        ScanStatusModel {
            frequency: self.frequency@,
            bank: self.bank@,
            channel_name: self.channel_name@,
            raw: self.raw@,
            signal_detected: self.signal_detected,
        }
    }
}

/// The placeholder status shown before any live-scan response has been
/// decoded.
pub open spec fn initial_scan_status() -> ScanStatusModel {
    ScanStatusModel {
        frequency: "---"@,
        bank: "-"@,
        channel_name: Seq::<char>::empty(),
        raw: Seq::<char>::empty(),
        signal_detected: false,
    }
}

impl Default for ScanStatus {
    fn default() -> (r: Self)
        ensures
            r@ == initial_scan_status(),
    {
        ScanStatus {
            frequency: String::from_str("---"),
            bank: String::from_str("-"),
            channel_name: String::new(),
            raw: String::new(),
            signal_detected: false,
        }
    }
}

/// A caller-supplied value was outside its protocol range; rejected
/// before any command is sent.
#[derive(Clone, Copy, Debug, PartialEq, Eq, Structural)]
pub enum ValidationError {
    VolumeOutOfRange,
    SquelchOutOfRange,
}

impl ValidationError {
    /// A human-readable description of the rejected value.
    pub fn message(&self) -> (r: String)
        ensures
            self is VolumeOutOfRange ==> r@ == "Volume level must be between 0 and 15"@,
            self is SquelchOutOfRange ==> r@ == "Squelch level must be between 0 and 15"@,
    {
        match self {
            ValidationError::VolumeOutOfRange => {
                String::from_str("Volume level must be between 0 and 15")
            },
            ValidationError::SquelchOutOfRange => {
                String::from_str("Squelch level must be between 0 and 15")
            },
        }
    }
}

} // verus!
