//! The interactive client state and its mode/edit state machine.
//!
//! [`App`] is the in-memory model of what is known about the scanner —
//! identification strings, audio levels, the 500-slot channel table, the
//! bank-enable mask, the most recent live-scan status — together with
//! the fetch scheduler's queue and the interaction state: the selected
//! tab (tab 0 monitors, tabs 1 to 10 configure one bank each), the
//! selected row inside a bank, and the input sub-state (idle navigation,
//! delete confirmation, field editing).
//!
//! Every transition is a total function of the current state and the
//! event; the device commands a transition must send are returned to the
//! caller, which owns the transport.

use std::collections::VecDeque;

use vstd::prelude::*;
use vstd::string::*;

use crate::codec::{
    apply_scan_line, bank_mask_decode_spec, bank_mask_encode_spec, channel_decode_spec,
    channel_delete_spec, channel_write_spec, decode_channel, encode_bank_mask,
    encode_channel_delete, encode_channel_write, normalize_freq_input,
    normalize_frequency_input, scan_status_update_spec,
};
use crate::strutil::{digit_val, is_digit_char, pop_char, push_char};
use crate::types::{
    initial_scan_status, Channel, ChannelModel, ScanStatus, ScanStatusModel,
};

verus! {

/// Which buffer of the channel editor receives typed characters.
#[derive(Clone, Copy, PartialEq, Eq, Structural)]
pub enum EditField {
    Frequency,
    Name,
}

/// The channel editor's buffers: free-text frequency input, free-text
/// name, and the field that currently receives characters.
pub struct EditState {
    pub frequency: String,
    pub name: String,
    pub active_field: EditField,
}

/// Ghost model of an [`EditState`].
pub struct EditStateModel {
    pub frequency: Seq<char>,
    pub name: Seq<char>,
    pub active_field: EditField,
}

impl View for EditState {
    type V = EditStateModel;

    open spec fn view(&self) -> EditStateModel {
        EditStateModel {
            frequency: self.frequency@,
            name: self.name@,
            active_field: self.active_field,
        }
    }
}

/// The input sub-state: idle navigation, a pending delete confirmation,
/// or field editing. Exactly one is active at a time.
pub enum InputMode {
    Normal,
    Editing(EditState),
    ConfirmDelete,
}

/// Ghost model of an [`InputMode`].
pub enum InputModeModel {
    Normal,
    Editing(EditStateModel),
    ConfirmDelete,
}

impl View for InputMode {
    type V = InputModeModel;

    open spec fn view(&self) -> InputModeModel {
        match self {
            InputMode::Normal => InputModeModel::Normal,
            InputMode::Editing(e) => InputModeModel::Editing(e@),
            InputMode::ConfirmDelete => InputModeModel::ConfirmDelete,
        }
    }
}

/// A user key event, as the terminal layer reports it.
#[derive(Clone, Copy, PartialEq, Eq, Structural)]
pub enum Key {
    Char(char),
    Left,
    Right,
    Up,
    Down,
    Enter,
    Esc,
    Tab,
    Backspace,
}

/// The interactive client state.
pub struct App {
    pub model: String,
    pub version: String,
    pub volume: String,
    pub squelch: String,
    pub scan_status: ScanStatus,
    pub selected_tab: usize,
    pub channels: Vec<Option<Channel>>,
    pub fetch_queue: VecDeque<u32>,
    pub in_prg_mode: bool,
    pub banks: Vec<bool>,
    pub input_mode: InputMode,
    pub selected_row: usize,
}

/// Ghost model of an [`App`].
pub struct AppModel {
    pub model: Seq<char>,
    pub version: Seq<char>,
    pub volume: Seq<char>,
    pub squelch: Seq<char>,
    pub scan_status: ScanStatusModel,
    pub selected_tab: int,
    pub channels: Seq<Option<ChannelModel>>,
    pub fetch_queue: Seq<u32>,
    pub in_prg_mode: bool,
    pub banks: Seq<bool>,
    pub input_mode: InputModeModel,
    pub selected_row: int,
}

impl View for App {
    type V = AppModel;

    open spec fn view(&self) -> AppModel {
        AppModel {
            model: self.model@,
            version: self.version@,
            volume: self.volume@,
            squelch: self.squelch@,
            scan_status: self.scan_status@,
            selected_tab: self.selected_tab as int,
            channels: self.channels.deep_view(),
            fetch_queue: self.fetch_queue@,
            in_prg_mode: self.in_prg_mode,
            banks: self.banks@,
            input_mode: self.input_mode@,
            selected_row: self.selected_row as int,
        }
    }
}

/// The well-formedness every [`App`] keeps: a 1-based channel table of
/// 500 slots (slot 0 unused), ten banks, tab and row selections in
/// range, each stored channel recording its own slot index, and a fetch
/// queue of in-range indices without duplicates.
pub open spec fn app_wf(m: AppModel) -> bool {
    &&& m.channels.len() == 501
    &&& m.banks.len() == 10
    &&& 0 <= m.selected_tab < 11
    &&& 0 <= m.selected_row < 50
    &&& forall|i: int|
        0 <= i < 501 && m.channels[i] is Some ==> (#[trigger] m.channels[i]).unwrap().index == i
    &&& forall|i: int|
        0 <= i < m.fetch_queue.len() ==> 1 <= #[trigger] m.fetch_queue[i] <= 500
    &&& m.fetch_queue.no_duplicates()
}

impl App {
    /// Well-formedness of the concrete state; see [`app_wf`].
    pub open spec fn wf(&self) -> bool {
        app_wf(self@)
    }

    /// A fresh client state from the identification and audio responses
    /// and the bank-enable response gathered at startup. The channel
    /// table starts empty, monitoring is selected, and an unparseable
    /// bank response leaves every bank enabled.
    pub fn new(
        model: String,
        version: String,
        volume: String,
        squelch: String,
        bank_response: &str,
    ) -> (r: App)
        ensures
            r.wf(),
            r@.model == model@,
            r@.version == version@,
            r@.volume == volume@,
            r@.squelch == squelch@,
            r@.scan_status == initial_scan_status(),
            r@.selected_tab == 0,
            r@.selected_row == 0,
            r@.in_prg_mode == false,
            r@.fetch_queue == Seq::<u32>::empty(),
            forall|i: int| 0 <= i < 501 ==> r@.channels[i] is None,
            r@.banks == match bank_mask_decode_spec(bank_response@) {
                Some(m) => m,
                None => Seq::new(10, |i: int| true),
            },
            r@.input_mode == InputModeModel::Normal,
    {
        let mut channels: Vec<Option<Channel>> = Vec::new();
        let mut i: usize = 0;
        while i < 501
            invariant
                0 <= i <= 501,
                channels.deep_view() =~= Seq::new(i as nat, |k: int| None::<ChannelModel>),
            decreases 501 - i,
        {
            let ghost old_dv = channels.deep_view();
            channels.push(None);
            proof {
                assert(channels.deep_view() =~= old_dv.push(None::<ChannelModel>));
            }
            i = i + 1;
        }
        let banks = decode_bank_mask_or_default(bank_response);
        App {
            model,
            version,
            volume,
            squelch,
            scan_status: ScanStatus::default(),
            selected_tab: 0,
            channels,
            fetch_queue: VecDeque::new(),
            in_prg_mode: false,
            banks,
            input_mode: InputMode::Normal,
            selected_row: 0,
        }
    }

    /// Moves the selection to the next tab, wrapping after the last
    /// bank, and queues the newly selected bank's absent channels.
    pub fn next_tab(&mut self)
        requires
            old(self).wf(),
        ensures
            final(self).wf(),
            final(self)@ == (AppModel {
                selected_tab: (old(self)@.selected_tab + 1) % 11,
                fetch_queue: enqueue_bank_spec(
                    AppModel { selected_tab: (old(self)@.selected_tab + 1) % 11, ..old(self)@ },
                ),
                ..old(self)@
            }),
    {
        self.selected_tab = (self.selected_tab + 1) % 11;
        self.queue_channels_for_tab();
    }

    /// Moves the selection to the previous tab, wrapping to the last
    /// bank from the monitor tab, and queues the newly selected bank's
    /// absent channels.
    pub fn previous_tab(&mut self)
        requires
            old(self).wf(),
        ensures
            final(self).wf(),
            final(self)@ == (AppModel {
                selected_tab: if old(self)@.selected_tab > 0 {
                    old(self)@.selected_tab - 1
                } else {
                    10int
                },
                fetch_queue: enqueue_bank_spec(
                    AppModel {
                        selected_tab: if old(self)@.selected_tab > 0 {
                            old(self)@.selected_tab - 1
                        } else {
                            10int
                        },
                        ..old(self)@
                    },
                ),
                ..old(self)@
            }),
    {
        if self.selected_tab > 0 {
            self.selected_tab = self.selected_tab - 1;
        } else {
            self.selected_tab = 10;
        }
        self.queue_channels_for_tab();
    }

    /// Moves the row selection down one row, wrapping to the top.
    pub fn next_channel(&mut self)
        requires
            old(self).wf(),
        ensures
            final(self).wf(),
            final(self)@ == (AppModel {
                selected_row: if old(self)@.selected_row >= 49 {
                    0int
                } else {
                    old(self)@.selected_row + 1
                },
                ..old(self)@
            }),
    {
        if self.selected_row >= 49 {
            self.selected_row = 0;
        } else {
            self.selected_row = self.selected_row + 1;
        }
    }

    /// Moves the row selection up one row, wrapping to the bottom.
    pub fn previous_channel(&mut self)
        requires
            old(self).wf(),
        ensures
            final(self).wf(),
            final(self)@ == (AppModel {
                selected_row: if old(self)@.selected_row == 0 {
                    49int
                } else {
                    old(self)@.selected_row - 1
                },
                ..old(self)@
            }),
    {
        if self.selected_row == 0 {
            self.selected_row = 49;
        } else {
            self.selected_row = self.selected_row - 1;
        }
    }

    /// The 1-based channel index the current tab and row select, or 0 on
    /// the monitor tab, where no channel is selected.
    pub fn selected_channel_index(&self) -> (r: u32)
        requires
            self.wf(),
        ensures
            r == spec_selected_index(self@),
            self@.selected_tab > 0 ==> 1 <= r <= 500,
            self@.selected_tab == 0 ==> r == 0,
    {
        if self.selected_tab == 0 {
            return 0;
        }
        let bank = self.selected_tab as u32;
        let row = self.selected_row as u32;
        (bank - 1) * 50 + row + 1
    }

    /// Queues, for the selected bank tab, every index of the bank whose
    /// slot is still absent and which is not already queued, in
    /// increasing order at the tail; on the monitor tab nothing is
    /// queued.
    pub fn queue_channels_for_tab(&mut self)
        requires
            old(self).wf(),
        ensures
            final(self).wf(),
            final(self)@ == (AppModel {
                fetch_queue: enqueue_bank_spec(old(self)@),
                ..old(self)@
            }),
    {
        let ghost m0 = self@;
        let ghost q0 = self@.fetch_queue;
        if self.selected_tab == 0 {
            return ;
        }
        let bank = self.selected_tab as u32;
        let start: u32 = (bank - 1) * 50 + 1;
        let end: u32 = bank * 50;
        let ghost lo = start as int;
        let mut idx: u32 = start;
        proof {
            assert(missing_indices(m0.channels, q0, lo, lo - 1) =~= Seq::<u32>::empty());
            assert(q0 + Seq::<u32>::empty() =~= q0);
        }
        while idx <= end
            invariant
                self.wf(),
                m0.channels.len() == 501,
                1 <= lo <= idx <= end + 1,
                end == bank_hi(m0.selected_tab),
                lo == bank_lo(m0.selected_tab),
                end <= 500,
                self@ == (AppModel {
                    fetch_queue: q0 + missing_indices(m0.channels, q0, lo, idx - 1),
                    ..m0
                }),
            decreases end + 1 - idx,
        {
            proof {
                lemma_missing_indices(m0.channels, q0, lo, idx - 1);
            }
            let absent = match &self.channels[idx as usize] {
                None => true,
                Some(_) => false,
            };
            if absent {
                if !queue_contains(&self.fetch_queue, idx) {
                    proof {
                        // The tested queue extends the original only by
                        // indices below `idx`, so the test against the
                        // original queue agrees.
                        let m = missing_indices(m0.channels, q0, lo, idx - 1);
                        assert(!q0.contains(idx)) by {
                            if q0.contains(idx) {
                                let k = choose|k: int| 0 <= k < q0.len() && q0[k] == idx;
                                assert((q0 + m)[k] == idx);
                            }
                        }
                    }
                    let ghost cur = self.fetch_queue@;
                    self.fetch_queue.push_back(idx);
                    proof {
                        lemma_missing_indices_snoc(m0.channels, q0, lo, idx as int);
                        assert(cur.push(idx) =~= q0 + missing_indices(
                            m0.channels,
                            q0,
                            lo,
                            idx as int,
                        ));
                        assert(self@.fetch_queue.no_duplicates()) by {
                            assert(!cur.contains(idx));
                            assert(forall|k: int|
                                0 <= k < cur.len() ==> #[trigger] cur.push(idx)[k] == cur[k]);
                            assert(cur.push(idx).last() == idx);
                        }
                    }
                } else {
                    proof {
                        let m = missing_indices(m0.channels, q0, lo, idx - 1);
                        assert(q0.contains(idx)) by {
                            let k = choose|k: int|
                                0 <= k < (q0 + m).len() && (q0 + m)[k] == idx;
                            if k >= q0.len() {
                                assert(m[k - q0.len()] == idx);
                                assert(lo <= m[k - q0.len()] <= idx - 1);
                            }
                        }
                        lemma_missing_indices_snoc(m0.channels, q0, lo, idx as int);
                        assert(q0 + missing_indices(m0.channels, q0, lo, idx as int) =~= q0
                            + missing_indices(m0.channels, q0, lo, idx - 1));
                    }
                }
            } else {
                proof {
                    assert(m0.channels[idx as int] is Some);
                    lemma_missing_indices_snoc(m0.channels, q0, lo, idx as int);
                    assert(q0 + missing_indices(m0.channels, q0, lo, idx as int) =~= q0
                        + missing_indices(m0.channels, q0, lo, idx - 1));
                }
            }
            idx = idx + 1;
        }
    }
}

/// What one mode-synchronization step does: moving onto a bank tab
/// while still monitoring enters configuration mode (`PRG`), sent before
/// any fetch; returning to the monitor tab while configuring exits
/// configuration mode and resumes scanning, in that fixed order, and
/// discards every pending fetch. Otherwise nothing changes and nothing
/// is sent.
pub open spec fn sync_mode_spec(m: AppModel) -> (AppModel, Seq<Seq<char>>) {
    if m.selected_tab > 0 && !m.in_prg_mode {
        (AppModel { in_prg_mode: true, ..m }, seq!["PRG"@])
    } else if m.selected_tab == 0 && m.in_prg_mode {
        (
            AppModel { in_prg_mode: false, fetch_queue: Seq::<u32>::empty(), ..m },
            seq!["EPG"@, "KEY,S,P"@],
        )
    } else {
        (m, Seq::<Seq<char>>::empty())
    }
}

impl App {
    /// Synchronizes configuration mode with the selected tab, exactly as
    /// [`sync_mode_spec`] describes, and returns the device commands to
    /// send, in order.
    pub fn sync_mode(&mut self) -> (r: Vec<String>)
        requires
            old(self).wf(),
        ensures
            final(self).wf(),
            (final(self)@, r.deep_view()) == sync_mode_spec(old(self)@),
    {
        let mut commands: Vec<String> = Vec::new();
        if self.selected_tab > 0 && !self.in_prg_mode {
            commands.push(String::from_str("PRG"));
            self.in_prg_mode = true;
            proof {
                assert(commands.deep_view() =~= seq!["PRG"@]);
            }
        } else if self.selected_tab == 0 && self.in_prg_mode {
            commands.push(String::from_str("EPG"));
            commands.push(String::from_str("KEY,S,P"));
            self.in_prg_mode = false;
            self.fetch_queue.clear();
            proof {
                assert(commands.deep_view() =~= seq!["EPG"@, "KEY,S,P"@]);
            }
        } else {
            proof {
                assert(commands.deep_view() =~= Seq::<Seq<char>>::empty());
            }
        }
        commands
    }

    /// Applies a channel-fetch response: a well-formed channel record
    /// overwrites its slot and yields `true`; anything else changes
    /// nothing and yields `false`, so the caller can requeue.
    pub fn update_channel(&mut self, response: String) -> (r: bool)
        requires
            old(self).wf(),
        ensures
            final(self).wf(),
            match channel_decode_spec(response@) {
                Some(ch) => r == true && final(self)@ == (AppModel {
                    channels: old(self)@.channels.update(ch.index, Some(ch)),
                    ..old(self)@
                }),
                None => r == false && final(self)@ == old(self)@,
            },
    {
        match decode_channel(response.as_str()) {
            Some(ch) => {
                let ghost chv = ch@;
                let ghost old_dv = self.channels.deep_view();
                let idx = ch.index as usize;
                self.channels[idx] = Some(ch);
                proof {
                    assert(self.channels.deep_view() =~= old_dv.update(
                        chv.index,
                        Some(chv),
                    ));
                }
                true
            },
            None => false,
        }
    }

    /// Applies a live-scan response to the scan status, exactly as
    /// [`scan_status_update_spec`] describes; nothing else changes.
    pub fn update_scan_status(&mut self, response: String)
        requires
            old(self).wf(),
        ensures
            final(self).wf(),
            final(self)@ == (AppModel {
                scan_status: scan_status_update_spec(old(self)@.scan_status, response@),
                ..old(self)@
            }),
    {
        apply_scan_line(&mut self.scan_status, response.as_str());
    }

    /// The bank-enable write command for the current mask.
    pub fn get_scg_string(&self) -> (r: String)
        ensures
            r@ == bank_mask_encode_spec(self@.banks),
    {
        encode_bank_mask(&self.banks)
    }

    /// Applies a bank-enable response: a well-formed mask replaces the
    /// current one; an unparseable response leaves the mask at its
    /// previous value rather than corrupting it.
    pub fn apply_bank_mask(&mut self, response: &str)
        requires
            old(self).wf(),
        ensures
            final(self).wf(),
            final(self)@ == (AppModel {
                banks: match bank_mask_decode_spec(response@) {
                    Some(m) => m,
                    None => old(self)@.banks,
                },
                ..old(self)@
            }),
    {
        if let Some(banks) = crate::codec::decode_bank_mask(response) {
            self.banks = banks;
        }
    }

    /// Takes the next queued channel index for fetching: the queue's
    /// front, removed, when configuration mode is active and the queue
    /// is non-empty; `None`, with nothing changed, otherwise. The
    /// scheduler drains at most one index per tick.
    pub fn begin_fetch(&mut self) -> (r: Option<u32>)
        requires
            old(self).wf(),
        ensures
            final(self).wf(),
            match r {
                Some(idx) => {
                    &&& old(self)@.in_prg_mode
                    &&& old(self)@.fetch_queue.len() > 0
                    &&& idx == old(self)@.fetch_queue[0]
                    &&& 1 <= idx <= 500
                    &&& !final(self)@.fetch_queue.contains(idx)
                    &&& final(self)@ == (AppModel {
                        fetch_queue: old(self)@.fetch_queue.drop_first(),
                        ..old(self)@
                    })
                },
                None => {
                    &&& (!old(self)@.in_prg_mode || old(self)@.fetch_queue.len() == 0)
                    &&& final(self)@ == old(self)@
                },
            },
    {
        if !self.in_prg_mode {
            return None;
        }
        let ghost q0 = self.fetch_queue@;
        match self.fetch_queue.pop_front() {
            Some(idx) => {
                proof {
                    assert(!q0.drop_first().contains(idx)) by {
                        if q0.drop_first().contains(idx) {
                            let k = choose|k: int|
                                0 <= k < q0.drop_first().len() && q0.drop_first()[k] == idx;
                            assert(q0[k + 1] == q0[0]);
                        }
                    }
                }
                Some(idx)
            },
            None => None,
        }
    }

    /// Completes one fetch: a well-formed response overwrites its slot;
    /// a malformed one changes no slot and requeues the index at the
    /// tail, so the fetch is retried.
    pub fn finish_fetch(&mut self, idx: u32, response: String) -> (r: bool)
        requires
            old(self).wf(),
            1 <= idx <= 500,
            !old(self)@.fetch_queue.contains(idx),
        ensures
            final(self).wf(),
            match channel_decode_spec(response@) {
                Some(ch) => r == true && final(self)@ == (AppModel {
                    channels: old(self)@.channels.update(ch.index, Some(ch)),
                    ..old(self)@
                }),
                None => r == false && final(self)@ == (AppModel {
                    fetch_queue: old(self)@.fetch_queue.push(idx),
                    ..old(self)@
                }),
            },
    {
        if self.update_channel(response) {
            true
        } else {
            let ghost q0 = self.fetch_queue@;
            self.fetch_queue.push_back(idx);
            proof {
                assert(self.fetch_queue@.no_duplicates()) by {
                    assert(forall|k: int|
                        0 <= k < q0.len() ==> #[trigger] q0.push(idx)[k] == q0[k]);
                    assert(q0.push(idx).last() == idx);
                }
            }
            false
        }
    }
}

/// Whether the fetch queue already holds an index.
fn queue_contains(q: &VecDeque<u32>, x: u32) -> (r: bool)
    ensures
        r == q@.contains(x),
{
    let n = q.len();
    let mut i: usize = 0;
    while i < n
        invariant
            0 <= i <= n,
            n == q@.len(),
            forall|k: int| 0 <= k < i ==> q@[k] != x,
        decreases n - i,
    {
        if q[i] == x {
            return true;
        }
        i = i + 1;
    }
    false
}

/// The channel index the current tab and row select: 0 on the monitor
/// tab, else 1-based within the selected bank's 50-slot range.
pub open spec fn spec_selected_index(m: AppModel) -> int {
    if m.selected_tab == 0 {
        0
    } else {
        (m.selected_tab - 1) * 50 + m.selected_row + 1
    }
}

/// What a key event does to the state, which device commands it sends,
/// and whether it quits.
pub struct KeyOutcome {
    pub quit: bool,
    pub commands: Vec<String>,
}

/// The row below `r`, wrapping to the top.
pub open spec fn next_row(r: int) -> int {
    if r >= 49 {
        0
    } else {
        r + 1
    }
}

/// The row above `r`, wrapping to the bottom.
pub open spec fn prev_row(r: int) -> int {
    if r == 0 {
        49
    } else {
        r - 1
    }
}

/// A buffer after one backspace: the last character removed, an empty
/// buffer left alone.
pub open spec fn pop_buffer(s: Seq<char>) -> Seq<char> {
    if s.len() > 0 {
        s.drop_last()
    } else {
        s
    }
}

/// The editor state entered for the selected channel: buffers
/// pre-populated from the slot, or empty when the slot is absent, with
/// the frequency field active.
pub open spec fn spec_enter_edit(m: AppModel) -> AppModel {
    let idx = spec_selected_index(m);
    let freq = match m.channels[idx] {
        Some(ch) => ch.frequency,
        None => Seq::<char>::empty(),
    };
    let name = match m.channels[idx] {
        Some(ch) => ch.name,
        None => Seq::<char>::empty(),
    };
    AppModel {
        input_mode: InputModeModel::Editing(
            EditStateModel { frequency: freq, name: name, active_field: EditField::Frequency },
        ),
        ..m
    }
}

/// Toggling one bank while monitoring: the mask bit flips locally, then
/// the full round trip is sent — enter configuration, write the mask,
/// exit configuration, resume scan — without going through the mode
/// field, which still says monitoring.
pub open spec fn spec_toggle_bank(m: AppModel, c: char) -> (AppModel, Seq<Seq<char>>, bool) {
    let bank_idx: int = if digit_val(c) == 0 {
        9
    } else {
        digit_val(c) - 1
    };
    let banks1 = m.banks.update(bank_idx, !m.banks[bank_idx]);
    (
        AppModel { banks: banks1, ..m },
        seq!["PRG"@, bank_mask_encode_spec(banks1), "EPG"@, "KEY,S,P"@],
        false,
    )
}

/// A key while idle: left/right switch tabs (queueing the newly
/// selected bank), up/down and `j`/`k` move the row inside a bank,
/// `d` asks to confirm a delete, `e` or enter opens the editor,
/// `s`/`h` resume/hold the scan from the monitor tab, a digit on the
/// monitor tab toggles that bank, and `q` quits.
pub open spec fn spec_normal_key(m: AppModel, key: Key) -> (AppModel, Seq<Seq<char>>, bool) {
    let none = Seq::<Seq<char>>::empty();
    match key {
        Key::Right => {
            let m1 = AppModel { selected_tab: (m.selected_tab + 1) % 11, ..m };
            (AppModel { fetch_queue: enqueue_bank_spec(m1), ..m1 }, none, false)
        },
        Key::Left => {
            let t = if m.selected_tab > 0 {
                m.selected_tab - 1
            } else {
                10int
            };
            let m1 = AppModel { selected_tab: t, ..m };
            (AppModel { fetch_queue: enqueue_bank_spec(m1), ..m1 }, none, false)
        },
        Key::Down => if m.selected_tab > 0 {
            (AppModel { selected_row: next_row(m.selected_row), ..m }, none, false)
        } else {
            (m, none, false)
        },
        Key::Up => if m.selected_tab > 0 {
            (AppModel { selected_row: prev_row(m.selected_row), ..m }, none, false)
        } else {
            (m, none, false)
        },
        Key::Enter => if m.selected_tab > 0 {
            (spec_enter_edit(m), none, false)
        } else {
            (m, none, false)
        },
        Key::Char(c) => if c == 'q' {
            (m, none, true)
        } else if c == 'j' && m.selected_tab > 0 {
            (AppModel { selected_row: next_row(m.selected_row), ..m }, none, false)
        } else if c == 'k' && m.selected_tab > 0 {
            (AppModel { selected_row: prev_row(m.selected_row), ..m }, none, false)
        } else if c == 'd' && m.selected_tab > 0 {
            (AppModel { input_mode: InputModeModel::ConfirmDelete, ..m }, none, false)
        } else if c == 'e' && m.selected_tab > 0 {
            (spec_enter_edit(m), none, false)
        } else if c == 's' && m.selected_tab == 0 {
            (m, seq!["KEY,S,P"@], false)
        } else if c == 'h' && m.selected_tab == 0 {
            (m, seq!["KEY,H,P"@], false)
        } else if m.selected_tab == 0 && is_digit_char(c) {
            spec_toggle_bank(m, c)
        } else {
            (m, none, false)
        },
        _ => (m, none, false),
    }
}

/// A key while a delete awaits confirmation: `y` issues the delete,
/// clears the slot and re-enqueues it for refetch (the device's default
/// must be re-observed, not assumed empty); `n` or escape cancels.
/// With no channel selected, confirming only returns to navigation.
pub open spec fn spec_confirm_delete_key(m: AppModel, key: Key) -> (AppModel, Seq<Seq<char>>, bool) {
    let none = Seq::<Seq<char>>::empty();
    match key {
        Key::Char(c) => if c == 'y' {
            if m.selected_tab > 0 {
                let idx = spec_selected_index(m);
                let q1 = if m.fetch_queue.contains(idx as u32) {
                    m.fetch_queue
                } else {
                    m.fetch_queue.push(idx as u32)
                };
                (
                    AppModel {
                        channels: m.channels.update(idx, None),
                        fetch_queue: q1,
                        input_mode: InputModeModel::Normal,
                        ..m
                    },
                    seq![channel_delete_spec(idx as nat)],
                    false,
                )
            } else {
                (AppModel { input_mode: InputModeModel::Normal, ..m }, none, false)
            }
        } else if c == 'n' {
            (AppModel { input_mode: InputModeModel::Normal, ..m }, none, false)
        } else {
            (m, none, false)
        },
        Key::Esc => (AppModel { input_mode: InputModeModel::Normal, ..m }, none, false),
        _ => (m, none, false),
    }
}

/// Committing the editor: the frequency buffer runs through the
/// write-path normalizer, the channel write command is issued, and the
/// edited values are applied optimistically before the next fetch could
/// overwrite them. The modulation written is `AM`.
pub open spec fn spec_commit_edit(m: AppModel, e: EditStateModel) -> (AppModel, Seq<Seq<char>>, bool) {
    let idx = spec_selected_index(m);
    let raw = normalize_freq_input(e.frequency);
    let ch = ChannelModel { index: idx, name: e.name, frequency: e.frequency, modulation: "AM"@ };
    (
        AppModel {
            channels: m.channels.update(idx, Some(ch)),
            input_mode: InputModeModel::Normal,
            ..m
        },
        seq![channel_write_spec(idx as nat, e.name, raw, "AM"@)],
        false,
    )
}

/// A key while editing: escape discards the buffers, tab switches the
/// active field, a character is appended to the active buffer,
/// backspace removes its last character, and enter commits.
pub open spec fn spec_editing_key(m: AppModel, e: EditStateModel, key: Key) -> (
    AppModel,
    Seq<Seq<char>>,
    bool,
) {
    let none = Seq::<Seq<char>>::empty();
    match key {
        Key::Esc => (AppModel { input_mode: InputModeModel::Normal, ..m }, none, false),
        Key::Tab => (
            AppModel {
                input_mode: InputModeModel::Editing(
                    EditStateModel {
                        active_field: if e.active_field == EditField::Frequency {
                            EditField::Name
                        } else {
                            EditField::Frequency
                        },
                        ..e
                    },
                ),
                ..m
            },
            none,
            false,
        ),
        Key::Char(c) => (
            AppModel {
                input_mode: InputModeModel::Editing(
                    if e.active_field == EditField::Frequency {
                        EditStateModel { frequency: e.frequency.push(c), ..e }
                    } else {
                        EditStateModel { name: e.name.push(c), ..e }
                    },
                ),
                ..m
            },
            none,
            false,
        ),
        Key::Backspace => (
            AppModel {
                input_mode: InputModeModel::Editing(
                    if e.active_field == EditField::Frequency {
                        EditStateModel { frequency: pop_buffer(e.frequency), ..e }
                    } else {
                        EditStateModel { name: pop_buffer(e.name), ..e }
                    },
                ),
                ..m
            },
            none,
            false,
        ),
        Key::Enter => spec_commit_edit(m, e),
        _ => (m, none, false),
    }
}

/// The complete key transition: dispatched on the input sub-state.
pub open spec fn spec_handle_key(m: AppModel, key: Key) -> (AppModel, Seq<Seq<char>>, bool) {
    match m.input_mode {
        InputModeModel::Normal => spec_normal_key(m, key),
        InputModeModel::ConfirmDelete => spec_confirm_delete_key(m, key),
        InputModeModel::Editing(e) => spec_editing_key(m, e, key),
    }
}

/// An outcome that sends nothing and keeps the session running.
fn key_outcome_none() -> (r: KeyOutcome)
    ensures
        !r.quit,
        r.commands.deep_view() == Seq::<Seq<char>>::empty(),
{
    let r = KeyOutcome { quit: false, commands: Vec::new() };
    proof {
        assert(r.commands.deep_view() =~= Seq::<Seq<char>>::empty());
    }
    r
}

impl App {
    /// Applies one key event, exactly as [`spec_handle_key`] describes:
    /// the new state, the device commands to send in order, and whether
    /// the session ends.
    pub fn handle_key(&mut self, key: Key) -> (r: KeyOutcome)
        requires
            old(self).wf(),
        ensures
            final(self).wf(),
            (final(self)@, r.commands.deep_view(), r.quit) == spec_handle_key(old(self)@, key),
    {
        let tag: u8 = match &self.input_mode {
            InputMode::Normal => 0,
            InputMode::ConfirmDelete => 1,
            InputMode::Editing(_) => 2,
        };
        if tag == 0 {
            self.handle_key_normal(key)
        } else if tag == 1 {
            self.handle_key_confirm_delete(key)
        } else {
            self.handle_key_editing(key)
        }
    }

    /// Opens the editor for the selected channel.
    fn enter_edit(&mut self)
        requires
            old(self).wf(),
            old(self)@.selected_tab > 0,
        ensures
            final(self).wf(),
            final(self)@ == spec_enter_edit(old(self)@),
    {
        let idx = self.selected_channel_index();
        let freq: String;
        let name: String;
        match &self.channels[idx as usize] {
            Some(chan) => {
                freq = chan.frequency.clone();
                name = chan.name.clone();
            },
            None => {
                freq = String::new();
                name = String::new();
            },
        }
        self.input_mode = InputMode::Editing(
            EditState { frequency: freq, name: name, active_field: EditField::Frequency },
        );
    }

    /// Flips one bank's mask bit and returns the four-command round
    /// trip, exactly as [`spec_toggle_bank`] describes.
    fn toggle_bank(&mut self, c: char) -> (r: KeyOutcome)
        requires
            old(self).wf(),
            is_digit_char(c),
        ensures
            final(self).wf(),
            (final(self)@, r.commands.deep_view(), r.quit) == spec_toggle_bank(old(self)@, c),
    {
        let u = c as u32;
        let d = u - 48;
        let bank_idx: usize = if d == 0 {
            9
        } else {
            (d - 1) as usize
        };
        proof {
            assert(d == digit_val(c));
            assert(bank_idx as int == if digit_val(c) == 0 {
                9int
            } else {
                digit_val(c) - 1
            });
        }
        let cur = self.banks[bank_idx];
        self.banks[bank_idx] = !cur;
        let scg = self.get_scg_string();
        let mut commands: Vec<String> = Vec::new();
        commands.push(String::from_str("PRG"));
        commands.push(scg);
        commands.push(String::from_str("EPG"));
        commands.push(String::from_str("KEY,S,P"));
        proof {
            let banks1 = old(self)@.banks.update(
                bank_idx as int,
                !old(self)@.banks[bank_idx as int],
            );
            assert(commands.deep_view() =~= seq![
                "PRG"@,
                bank_mask_encode_spec(banks1),
                "EPG"@,
                "KEY,S,P"@,
            ]);
        }
        KeyOutcome { quit: false, commands }
    }

    /// A key while idle; see [`spec_normal_key`].
    fn handle_key_normal(&mut self, key: Key) -> (r: KeyOutcome)
        requires
            old(self).wf(),
            old(self)@.input_mode is Normal,
        ensures
            final(self).wf(),
            (final(self)@, r.commands.deep_view(), r.quit) == spec_handle_key(old(self)@, key),
    {
        match key {
            Key::Right => {
                self.next_tab();
                key_outcome_none()
            },
            Key::Left => {
                self.previous_tab();
                key_outcome_none()
            },
            Key::Down => {
                if self.selected_tab > 0 {
                    self.next_channel();
                }
                key_outcome_none()
            },
            Key::Up => {
                if self.selected_tab > 0 {
                    self.previous_channel();
                }
                key_outcome_none()
            },
            Key::Enter => {
                if self.selected_tab > 0 {
                    self.enter_edit();
                }
                key_outcome_none()
            },
            Key::Char(c) => {
                if c == 'q' {
                    let r = KeyOutcome { quit: true, commands: Vec::new() };
                    proof {
                        assert(r.commands.deep_view() =~= Seq::<Seq<char>>::empty());
                    }
                    r
                } else if c == 'j' && self.selected_tab > 0 {
                    self.next_channel();
                    key_outcome_none()
                } else if c == 'k' && self.selected_tab > 0 {
                    self.previous_channel();
                    key_outcome_none()
                } else if c == 'd' && self.selected_tab > 0 {
                    self.input_mode = InputMode::ConfirmDelete;
                    key_outcome_none()
                } else if c == 'e' && self.selected_tab > 0 {
                    self.enter_edit();
                    key_outcome_none()
                } else if c == 's' && self.selected_tab == 0 {
                    let mut commands: Vec<String> = Vec::new();
                    commands.push(String::from_str("KEY,S,P"));
                    proof {
                        assert(commands.deep_view() =~= seq!["KEY,S,P"@]);
                    }
                    KeyOutcome { quit: false, commands }
                } else if c == 'h' && self.selected_tab == 0 {
                    let mut commands: Vec<String> = Vec::new();
                    commands.push(String::from_str("KEY,H,P"));
                    proof {
                        assert(commands.deep_view() =~= seq!["KEY,H,P"@]);
                    }
                    KeyOutcome { quit: false, commands }
                } else {
                    let u = c as u32;
                    if self.selected_tab == 0 && 48 <= u && u <= 57 {
                        self.toggle_bank(c)
                    } else {
                        proof {
                            assert(is_digit_char(c) == (48 <= u && u <= 57));
                        }
                        key_outcome_none()
                    }
                }
            },
            _ => key_outcome_none(),
        }
    }

    /// A key while a delete awaits confirmation; see
    /// [`spec_confirm_delete_key`].
    fn handle_key_confirm_delete(&mut self, key: Key) -> (r: KeyOutcome)
        requires
            old(self).wf(),
            old(self)@.input_mode is ConfirmDelete,
        ensures
            final(self).wf(),
            (final(self)@, r.commands.deep_view(), r.quit) == spec_handle_key(old(self)@, key),
    {
        match key {
            Key::Char(c) => {
                if c == 'y' {
                    if self.selected_tab > 0 {
                        let idx = self.selected_channel_index();
                        let cmd = encode_channel_delete(idx);
                        let ghost old_dv = self.channels.deep_view();
                        self.channels[idx as usize] = None;
                        proof {
                            assert(self.channels.deep_view() =~= old_dv.update(
                                idx as int,
                                None::<ChannelModel>,
                            ));
                        }
                        if !queue_contains(&self.fetch_queue, idx) {
                            let ghost q0 = self.fetch_queue@;
                            self.fetch_queue.push_back(idx);
                            proof {
                                assert(self.fetch_queue@.no_duplicates()) by {
                                    assert(forall|k: int|
                                        0 <= k < q0.len() ==> #[trigger] q0.push(idx)[k] == q0[k]);
                                    assert(q0.push(idx).last() == idx);
                                }
                            }
                        }
                        self.input_mode = InputMode::Normal;
                        let mut commands: Vec<String> = Vec::new();
                        commands.push(cmd);
                        proof {
                            assert(commands.deep_view() =~= seq![
                                channel_delete_spec(idx as nat),
                            ]);
                        }
                        KeyOutcome { quit: false, commands }
                    } else {
                        self.input_mode = InputMode::Normal;
                        key_outcome_none()
                    }
                } else if c == 'n' {
                    self.input_mode = InputMode::Normal;
                    key_outcome_none()
                } else {
                    key_outcome_none()
                }
            },
            Key::Esc => {
                self.input_mode = InputMode::Normal;
                key_outcome_none()
            },
            _ => key_outcome_none(),
        }
    }

    /// Commits the editor's buffers; see [`spec_commit_edit`].
    fn commit_edit(&mut self) -> (r: KeyOutcome)
        requires
            old(self).wf(),
            old(self)@.input_mode is Editing,
        ensures
            final(self).wf(),
            match old(self)@.input_mode {
                InputModeModel::Editing(e) => (final(self)@, r.commands.deep_view(), r.quit)
                    == spec_commit_edit(old(self)@, e),
                _ => true,
            },
    {
        let idx = self.selected_channel_index();
        let freq: String;
        let name: String;
        match &self.input_mode {
            InputMode::Editing(es) => {
                freq = es.frequency.clone();
                name = es.name.clone();
            },
            _ => {
                freq = String::new();
                name = String::new();
                proof {
                    assert(false);
                }
            },
        }
        let raw = normalize_frequency_input(freq.as_str());
        let cmd = encode_channel_write(idx, name.as_str(), raw.as_str(), "AM");
        let ghost old_dv = self.channels.deep_view();
        let ghost chv = ChannelModel {
            index: idx as int,
            name: name@,
            frequency: freq@,
            modulation: "AM"@,
        };
        self.channels[idx as usize] = Some(
            Channel {
                index: idx,
                name: name,
                frequency: freq,
                modulation: String::from_str("AM"),
            },
        );
        proof {
            assert(self.channels.deep_view() =~= old_dv.update(idx as int, Some(chv)));
        }
        self.input_mode = InputMode::Normal;
        let mut commands: Vec<String> = Vec::new();
        commands.push(cmd);
        proof {
            assert(commands.deep_view() =~= seq![cmd@]);
        }
        KeyOutcome { quit: false, commands }
    }

    /// A key while editing; see [`spec_editing_key`].
    fn handle_key_editing(&mut self, key: Key) -> (r: KeyOutcome)
        requires
            old(self).wf(),
            old(self)@.input_mode is Editing,
        ensures
            final(self).wf(),
            (final(self)@, r.commands.deep_view(), r.quit) == spec_handle_key(old(self)@, key),
    {
        match key {
            Key::Esc => {
                self.input_mode = InputMode::Normal;
                key_outcome_none()
            },
            Key::Tab => {
                match &mut self.input_mode {
                    InputMode::Editing(es) => {
                        es.active_field = if es.active_field == EditField::Frequency {
                            EditField::Name
                        } else {
                            EditField::Frequency
                        };
                    },
                    _ => {
                        proof {
                            assert(false);
                        }
                    },
                }
                key_outcome_none()
            },
            Key::Char(c) => {
                match &mut self.input_mode {
                    InputMode::Editing(es) => {
                        if es.active_field == EditField::Frequency {
                            push_char(&mut es.frequency, c);
                        } else {
                            push_char(&mut es.name, c);
                        }
                    },
                    _ => {
                        proof {
                            assert(false);
                        }
                    },
                }
                key_outcome_none()
            },
            Key::Backspace => {
                match &mut self.input_mode {
                    InputMode::Editing(es) => {
                        if es.active_field == EditField::Frequency {
                            let _ = pop_char(&mut es.frequency);
                        } else {
                            let _ = pop_char(&mut es.name);
                        }
                    },
                    _ => {
                        proof {
                            assert(false);
                        }
                    },
                }
                key_outcome_none()
            },
            Key::Enter => self.commit_edit(),
            _ => key_outcome_none(),
        }
    }
}

/// The first index of a bank's 50-slot range.
pub open spec fn bank_lo(bank: int) -> int {
    (bank - 1) * 50 + 1
}

/// The last index of a bank's 50-slot range.
pub open spec fn bank_hi(bank: int) -> int {
    bank * 50
}

/// The channel indices of `lo..=hi` whose slot is still absent and which
/// are not yet queued, in increasing order.
pub open spec fn missing_indices(
    channels: Seq<Option<ChannelModel>>,
    queue: Seq<u32>,
    lo: int,
    hi: int,
) -> Seq<u32>
    decreases hi + 1 - lo,
{
    if lo > hi {
        Seq::<u32>::empty()
    } else {
        let rest = missing_indices(channels, queue, lo + 1, hi);
        if 0 <= lo < channels.len() && channels[lo] is None && !queue.contains(lo as u32) {
            seq![lo as u32] + rest
        } else {
            rest
        }
    }
}

/// `missing_indices` over `lo..=hi` is `missing_indices` over
/// `lo..=hi-1` with `hi` appended when `hi` qualifies.
pub proof fn lemma_missing_indices_snoc(
    channels: Seq<Option<ChannelModel>>,
    queue: Seq<u32>,
    lo: int,
    hi: int,
)
    requires
        lo <= hi,
    ensures
        missing_indices(channels, queue, lo, hi) == missing_indices(channels, queue, lo, hi - 1)
            + (if 0 <= hi < channels.len() && channels[hi] is None && !queue.contains(hi as u32) {
            seq![hi as u32]
        } else {
            Seq::<u32>::empty()
        }),
    decreases hi - lo,
{
    let tail = if 0 <= hi < channels.len() && channels[hi] is None && !queue.contains(hi as u32) {
        seq![hi as u32]
    } else {
        Seq::<u32>::empty()
    };
    if lo == hi {
        assert(missing_indices(channels, queue, lo + 1, hi) =~= Seq::<u32>::empty());
        assert(missing_indices(channels, queue, lo, hi - 1) =~= Seq::<u32>::empty());
        assert(missing_indices(channels, queue, lo, hi) =~= missing_indices(
            channels,
            queue,
            lo,
            hi - 1,
        ) + tail);
    } else {
        lemma_missing_indices_snoc(channels, queue, lo + 1, hi);
        assert(missing_indices(channels, queue, lo, hi) =~= missing_indices(
            channels,
            queue,
            lo,
            hi - 1,
        ) + tail);
    }
}

/// Every index that `missing_indices` yields lies in `lo..=hi`, is
/// absent from the channel table, is not in the queue, and appears only
/// once; and every such index is yielded.
pub proof fn lemma_missing_indices(
    channels: Seq<Option<ChannelModel>>,
    queue: Seq<u32>,
    lo: int,
    hi: int,
)
    requires
        1 <= lo,
        hi <= u32::MAX,
        hi < channels.len(),
    ensures
        forall|k: int|
            0 <= k < missing_indices(channels, queue, lo, hi).len() ==> {
                let v = #[trigger] missing_indices(channels, queue, lo, hi)[k];
                &&& lo <= v <= hi
                &&& channels[v as int] is None
                &&& !queue.contains(v)
            },
        forall|x: int|
            lo <= x <= hi && channels[x] is None && !queue.contains(x as u32) ==> missing_indices(
                channels,
                queue,
                lo,
                hi,
            ).contains(x as u32),
        missing_indices(channels, queue, lo, hi).no_duplicates(),
    decreases hi + 1 - lo,
{
    let cur = missing_indices(channels, queue, lo, hi);
    if lo > hi {
        assert(cur =~= Seq::<u32>::empty());
    } else {
        lemma_missing_indices(channels, queue, lo + 1, hi);
        let rest = missing_indices(channels, queue, lo + 1, hi);
        if channels[lo] is None && !queue.contains(lo as u32) {
            assert(cur == seq![lo as u32] + rest);
            assert(cur[0] == lo as u32);
            assert(forall|k: int| 1 <= k < cur.len() ==> cur[k] == rest[k - 1]);
            assert forall|k: int| 0 <= k < cur.len() implies lo <= #[trigger] cur[k] <= hi
                && channels[cur[k] as int] is None && !queue.contains(cur[k]) by {
                if k >= 1 {
                    assert(cur[k] == rest[k - 1]);
                }
            }
            assert forall|x: int|
                lo <= x <= hi && channels[x] is None && !queue.contains(
                    x as u32,
                ) implies cur.contains(x as u32) by {
                if x == lo {
                    assert(cur[0] == x as u32);
                } else {
                    assert(rest.contains(x as u32));
                    let k = choose|k: int| 0 <= k < rest.len() && rest[k] == x as u32;
                    assert(cur[k + 1] == x as u32);
                }
            }
            assert(cur.no_duplicates()) by {
                assert forall|i: int, j: int|
                    0 <= i < cur.len() && 0 <= j < cur.len() && i != j implies cur[i] != cur[j] by {
                    if i == 0 && j >= 1 {
                        assert(cur[j] == rest[j - 1] && rest[j - 1] > lo);
                    } else if j == 0 && i >= 1 {
                        assert(cur[i] == rest[i - 1] && rest[i - 1] > lo);
                    } else if i >= 1 && j >= 1 {
                        assert(cur[i] == rest[i - 1] && cur[j] == rest[j - 1]);
                    }
                }
            }
        } else {
            assert(cur == rest);
            assert forall|x: int|
                lo <= x <= hi && channels[x] is None && !queue.contains(
                    x as u32,
                ) implies cur.contains(x as u32) by {
                if x > lo {
                    assert(rest.contains(x as u32));
                }
            }
        }
    }
}

/// The fetch queue after queueing the selected bank: unchanged on the
/// monitor tab; otherwise the bank's absent, not-yet-queued indices are
/// appended in increasing order.
pub open spec fn enqueue_bank_spec(m: AppModel) -> Seq<u32> {
    if m.selected_tab == 0 {
        m.fetch_queue
    } else {
        m.fetch_queue + missing_indices(
            m.channels,
            m.fetch_queue,
            bank_lo(m.selected_tab),
            bank_hi(m.selected_tab),
        )
    }
}

/// The decoded bank-enable mask, or the all-enabled default when the
/// response does not decode.
pub fn decode_bank_mask_or_default(bank_response: &str) -> (r: Vec<bool>)
    ensures
        r@ == match bank_mask_decode_spec(bank_response@) {
            Some(m) => m,
            None => Seq::new(10, |i: int| true),
        },
        r@.len() == 10,
{
    match crate::codec::decode_bank_mask(bank_response) {
        Some(v) => v,
        None => {
            let mut banks: Vec<bool> = Vec::new();
            let mut i: usize = 0;
            while i < 10
                invariant
                    0 <= i <= 10,
                    banks@ =~= Seq::new(i as nat, |k: int| true),
                decreases 10 - i,
            {
                banks.push(true);
                i = i + 1;
            }
            proof {
                assert(banks@ =~= Seq::new(10, |k: int| true));
            }
            banks
        },
    }
}

} // verus!
