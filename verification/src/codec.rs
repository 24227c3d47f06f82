//! The message codec: parsing and formatting of the scanner's positional
//! comma-delimited messages, and of its fixed-width frequency codes.
//!
//! A raw frequency code is an 8-digit decimal string in units of 100 Hz:
//! the first four digits are the MHz part, the last four the sub-MHz part.
//! Channel records and live-scan records display it differently (channel
//! records strip trailing zeros of the sub-MHz part, live-scan records do
//! not), and that asymmetry is part of the protocol as observed.

use vstd::prelude::*;
use vstd::string::*;
use crate::strutil::{
    all_digits, append_u32, dec_rep, dec_val, is_digit_char, lemma_split_on_free,
    lemma_split_on_len, parse_u32, parses_as_u32, push_char, split_on, split_str, trim, trim_spec,
    u32_to_string,
};
use crate::types::{Channel, ChannelModel, ScanStatus, ScanStatusModel, ValidationError};

verus! {

/// `n` copies of the character `c`.
pub open spec fn char_repeat(c: char, n: nat) -> Seq<char> {
    Seq::new(n, |i: int| c)
}

/// `s` without its leading zero digits.
pub open spec fn strip_leading_zeros(s: Seq<char>) -> Seq<char>
    decreases s.len(),
{
    if s.len() > 0 && s[0] == '0' {
        strip_leading_zeros(s.drop_first())
    } else {
        s
    }
}

/// `s` without its trailing zero digits.
pub open spec fn strip_trailing_zeros(s: Seq<char>) -> Seq<char>
    decreases s.len(),
{
    if s.len() > 0 && s.last() == '0' {
        strip_trailing_zeros(s.drop_last())
    } else {
        s
    }
}

/// Stripping leading zeros keeps exactly the suffix that starts at the
/// first non-zero character.
pub proof fn lemma_strip_leading_zeros_skip(s: Seq<char>, i: int)
    requires
        0 <= i <= s.len(),
        forall|k: int| 0 <= k < i ==> #[trigger] s[k] == '0',
        i == s.len() || s[i] != '0',
    ensures
        strip_leading_zeros(s) == s.skip(i),
    decreases i,
{
    if i == 0 {
        assert(s.skip(0) =~= s);
    } else {
        lemma_strip_leading_zeros_skip(s.drop_first(), i - 1);
        assert(s.drop_first().skip(i - 1) =~= s.skip(i));
    }
}

/// Stripping trailing zeros keeps exactly the prefix that ends at the
/// last non-zero character.
pub proof fn lemma_strip_trailing_zeros_take(s: Seq<char>, j: int)
    requires
        0 <= j <= s.len(),
        forall|k: int| j <= k < s.len() ==> #[trigger] s[k] == '0',
        j == 0 || s[j - 1] != '0',
    ensures
        strip_trailing_zeros(s) == s.take(j),
    decreases s.len() - j,
{
    if j == s.len() {
        assert(s.take(j) =~= s);
    } else {
        assert(s.last() == '0');
        lemma_strip_trailing_zeros_take(s.drop_last(), j);
        assert(s.drop_last().take(j) =~= s.take(j));
    }
}

/// The MHz digits as displayed: leading zeros stripped, but an all-zero
/// part renders as a single `'0'`.
pub open spec fn mhz_display(m: Seq<char>) -> Seq<char> {
    let t = strip_leading_zeros(m);
    if t.len() == 0 {
        seq!['0']
    } else {
        t
    }
}

/// How a channel record displays a raw frequency code: `MHz.kHz` with
/// leading zeros of the MHz part and trailing zeros of the kHz part
/// stripped, an empty kHz part rendered as `"0"`, the all-zero sentinel
/// (no frequency assigned) rendered as the empty string, and anything
/// that is not an 8-digit code passed through unchanged.
pub open spec fn channel_freq_display(f: Seq<char>) -> Seq<char> {
    if f.len() == 8 && all_digits(f) {
        if f == char_repeat('0', 8) {
            Seq::<char>::empty()
        } else {
            let mhz = mhz_display(f.take(4));
            let khz = strip_trailing_zeros(f.skip(4));
            if khz.len() == 0 {
                mhz + seq!['.', '0']
            } else {
                mhz + seq!['.'] + khz
            }
        }
    } else {
        f
    }
}

/// How a live-scan record displays a raw frequency code: `MHz` with
/// leading zeros stripped, then the four sub-MHz digits verbatim.
/// A field shorter than 8 characters is passed through unchanged.
pub open spec fn scan_freq_display(f: Seq<char>) -> Seq<char> {
    if f.len() >= 8 {
        mhz_display(f.take(4)) + seq!['.'] + f.subrange(4, 8)
    } else {
        f
    }
}

/// Left-pads with zeros to `n` characters, or keeps the first `n` when
/// the input is longer.
pub open spec fn fit_left(s: Seq<char>, n: nat) -> Seq<char> {
    if s.len() >= n {
        s.take(n as int)
    } else {
        char_repeat('0', (n - s.len()) as nat) + s
    }
}

/// Right-pads with zeros to `n` characters, or keeps the first `n` when
/// the input is longer.
pub open spec fn fit_right(s: Seq<char>, n: nat) -> Seq<char> {
    if s.len() >= n {
        s.take(n as int)
    } else {
        s + char_repeat('0', (n - s.len()) as nat)
    }
}

/// Left-pads with zeros to `n` characters; longer input is kept whole.
pub open spec fn pad_left(s: Seq<char>, n: nat) -> Seq<char> {
    if s.len() >= n {
        s
    } else {
        char_repeat('0', (n - s.len()) as nat) + s
    }
}

/// The write-path frequency normalizer, turning free user text into a
/// raw frequency code:
/// with a `.`, the part before it is fitted to 4 MHz digits and the part
/// after it (up to a second `.`) to 4 kHz digits; without one, text of
/// 7 or more characters is fitted to 8 digits as an already-raw code;
/// shorter non-empty text is taken as MHz only, left-padded to 4 digits
/// with `"0000"` appended; empty text maps to the empty string, meaning
/// "do not set".
pub open spec fn normalize_freq_input(s: Seq<char>) -> Seq<char> {
    if s.contains('.') {
        let f = split_on(s, '.');
        let khz = if f.len() > 1 {
            f[1]
        } else {
            Seq::<char>::empty()
        };
        fit_left(f[0], 4) + fit_right(khz, 4)
    } else if s.len() >= 7 {
        fit_left(s, 8)
    } else if s.len() > 0 {
        pad_left(s, 4) + char_repeat('0', 4)
    } else {
        Seq::<char>::empty()
    }
}

/// A string of zeros.
pub fn repeat_zeros(n: usize) -> (r: String)
    ensures
        r@ == char_repeat('0', n as nat),
{
    let mut out = String::new();
    let mut i: usize = 0;
    while i < n
        invariant
            0 <= i <= n,
            out@ == char_repeat('0', i as nat),
        decreases n - i,
    {
        push_char(&mut out, '0');
        proof {
            assert(char_repeat('0', (i + 1) as nat) =~= char_repeat('0', i as nat).push('0'));
        }
        i = i + 1;
    }
    out
}

/// Left-pads with zeros to `n` characters, truncating longer input.
pub fn fit_left_str(s: &str, n: usize) -> (r: String)
    ensures
        r@ == fit_left(s@, n as nat),
{
    let len = s.unicode_len();
    if len >= n {
        let piece = s.substring_char(0, n);
        String::from_str(piece)
    } else {
        let mut out = repeat_zeros(n - len);
        out.append(s);
        out
    }
}

/// Right-pads with zeros to `n` characters, truncating longer input.
pub fn fit_right_str(s: &str, n: usize) -> (r: String)
    ensures
        r@ == fit_right(s@, n as nat),
{
    let len = s.unicode_len();
    if len >= n {
        let piece = s.substring_char(0, n);
        String::from_str(piece)
    } else {
        let mut out = String::from_str(s);
        let zeros = repeat_zeros(n - len);
        out.append(zeros.as_str());
        out
    }
}

/// Left-pads with zeros to `n` characters; longer input is kept whole.
pub fn pad_left_str(s: &str, n: usize) -> (r: String)
    ensures
        r@ == pad_left(s@, n as nat),
{
    let len = s.unicode_len();
    if len >= n {
        String::from_str(s)
    } else {
        let mut out = repeat_zeros(n - len);
        out.append(s);
        out
    }
}

/// Whether every character of `s` is a decimal digit.
pub fn check_all_digits(s: &str) -> (r: bool)
    ensures
        r == all_digits(s@),
{
    let len = s.unicode_len();
    let mut i: usize = 0;
    while i < len
        invariant
            0 <= i <= len,
            len == s@.len(),
            forall|k: int| 0 <= k < i ==> is_digit_char(#[trigger] s@[k]),
        decreases len - i,
    {
        let u = s.get_char(i) as u32;
        if u < 48 || u > 57 {
            assert(!is_digit_char(s@[i as int]));
            return false;
        }
        i = i + 1;
    }
    true
}

/// Formats a channel record's raw frequency code for display, exactly as
/// [`channel_freq_display`] describes.
pub fn format_channel_freq(f: &str) -> (r: String)
    ensures
        r@ == channel_freq_display(f@),
{
    let len = f.unicode_len();
    if len != 8 || !check_all_digits(f) {
        return String::from_str(f);
    }
    // Find the first non-zero digit; the all-zero code is the
    // "no frequency assigned" sentinel.
    let mut nz: usize = 0;
    while nz < 8 && f.get_char(nz) == '0'
        invariant
            0 <= nz <= 8,
            len == 8,
            len == f@.len(),
            forall|k: int| 0 <= k < nz ==> #[trigger] f@[k] == '0',
        decreases 8 - nz,
    {
        nz = nz + 1;
    }
    if nz == 8 {
        proof {
            assert(f@ =~= char_repeat('0', 8));
        }
        return String::new();
    }
    proof {
        assert(f@[nz as int] != '0');
        assert(f@ != char_repeat('0', 8));
    }
    // MHz part: digits 0..4 with leading zeros stripped, or "0".
    let mut m: usize = 0;
    while m < 4 && f.get_char(m) == '0'
        invariant
            0 <= m <= 4,
            len == 8,
            len == f@.len(),
            forall|k: int| 0 <= k < m ==> #[trigger] f@[k] == '0',
        decreases 4 - m,
    {
        m = m + 1;
    }
    proof {
        let four = f@.take(4);
        assert(forall|k: int| 0 <= k < m ==> #[trigger] four[k] == '0');
        if m < 4 {
            assert(four[m as int] != '0');
        }
        lemma_strip_leading_zeros_skip(four, m as int);
        assert(four.skip(m as int) =~= f@.subrange(m as int, 4));
    }
    let mut out = if m == 4 {
        proof {
            assert(strip_leading_zeros(f@.take(4)) =~= Seq::<char>::empty());
        }
        let mut z = String::new();
        push_char(&mut z, '0');
        proof {
            assert(z@ =~= seq!['0']);
        }
        z
    } else {
        String::from_str(f.substring_char(m, 4))
    };
    assert(out@ == mhz_display(f@.take(4)));
    // Sub-MHz part: digits 4..8 with trailing zeros stripped, or "0".
    let mut j: usize = 8;
    while j > 4 && f.get_char(j - 1) == '0'
        invariant
            4 <= j <= 8,
            len == 8,
            len == f@.len(),
            forall|k: int| j <= k < 8 ==> #[trigger] f@[k] == '0',
        decreases j,
    {
        j = j - 1;
    }
    proof {
        let four = f@.skip(4);
        assert(forall|k: int| j - 4 <= k < 4 ==> #[trigger] four[k] == '0');
        if j > 4 {
            assert(four[j - 4 - 1] == f@[j - 1]);
        }
        lemma_strip_trailing_zeros_take(four, j - 4);
        assert(four.take(j - 4) =~= f@.subrange(4, j as int));
    }
    push_char(&mut out, '.');
    if j == 4 {
        push_char(&mut out, '0');
        proof {
            let mhz = mhz_display(f@.take(4));
            assert(mhz.push('.').push('0') =~= mhz + seq!['.', '0']);
        }
    } else {
        let piece = f.substring_char(4, j);
        out.append(piece);
        proof {
            let mhz = mhz_display(f@.take(4));
            let khz = strip_trailing_zeros(f@.skip(4));
            assert(mhz.push('.') + khz =~= mhz + seq!['.'] + khz);
        }
    }
    out
}

/// Formats a live-scan record's raw frequency code for display, exactly
/// as [`scan_freq_display`] describes.
pub fn format_scan_freq(f: &str) -> (r: String)
    ensures
        r@ == scan_freq_display(f@),
{
    let len = f.unicode_len();
    if len < 8 {
        return String::from_str(f);
    }
    let mut m: usize = 0;
    while m < 4 && f.get_char(m) == '0'
        invariant
            0 <= m <= 4,
            len >= 8,
            len == f@.len(),
            forall|k: int| 0 <= k < m ==> #[trigger] f@[k] == '0',
        decreases 4 - m,
    {
        m = m + 1;
    }
    proof {
        let four = f@.take(4);
        assert(forall|k: int| 0 <= k < m ==> #[trigger] four[k] == '0');
        if m < 4 {
            assert(four[m as int] != '0');
        }
        lemma_strip_leading_zeros_skip(four, m as int);
        assert(four.skip(m as int) =~= f@.subrange(m as int, 4));
    }
    let mut out = if m == 4 {
        proof {
            assert(strip_leading_zeros(f@.take(4)) =~= Seq::<char>::empty());
        }
        let mut z = String::new();
        push_char(&mut z, '0');
        proof {
            assert(z@ =~= seq!['0']);
        }
        z
    } else {
        String::from_str(f.substring_char(m, 4))
    };
    assert(out@ == mhz_display(f@.take(4)));
    push_char(&mut out, '.');
    let piece = f.substring_char(4, 8);
    out.append(piece);
    proof {
        let mhz = mhz_display(f@.take(4));
        assert(mhz.push('.') + f@.subrange(4, 8) =~= mhz + seq!['.'] + f@.subrange(4, 8));
    }
    out
}

/// A string that contains a separator splits into at least two fields.
pub proof fn lemma_split_on_contains(s: Seq<char>, sep: char)
    requires
        s.contains(sep),
    ensures
        split_on(s, sep).len() >= 2,
    decreases s.len(),
{
    if s[0] == sep {
        lemma_split_on_len(s.drop_first(), sep);
    } else {
        let i = choose|i: int| 0 <= i < s.len() && s[i] == sep;
        assert(s.drop_first()[i - 1] == sep);
        assert(s.drop_first().contains(sep));
        lemma_split_on_contains(s.drop_first(), sep);
    }
}

/// Normalizes free-text frequency input into a raw frequency code,
/// exactly as [`normalize_freq_input`] describes.
pub fn normalize_frequency_input(s: &str) -> (r: String)
    ensures
        r@ == normalize_freq_input(s@),
{
    let fields = split_str(s, '.');
    if fields.len() >= 2 {
        proof {
            if !s@.contains('.') {
                lemma_split_on_free(s@, '.');
            }
        }
        let mut out = fit_left_str(fields[0].as_str(), 4);
        let khz = fit_right_str(fields[1].as_str(), 4);
        out.append(khz.as_str());
        proof {
            assert(fields.deep_view()[0] == fields[0]@);
            assert(fields.deep_view()[1] == fields[1]@);
        }
        out
    } else {
        proof {
            lemma_split_on_len(s@, '.');
            if s@.contains('.') {
                lemma_split_on_contains(s@, '.');
            }
        }
        let len = s.unicode_len();
        if len >= 7 {
            fit_left_str(s, 8)
        } else if len > 0 {
            let mut out = pad_left_str(s, 4);
            let zeros = repeat_zeros(4);
            out.append(zeros.as_str());
            out
        } else {
            String::new()
        }
    }
}

/// The bank a channel index belongs to: banks are 50 contiguous slots,
/// 1-based on both sides.
pub open spec fn spec_bank_of_channel(i: int) -> int {
    (i - 1) / 50 + 1
}

/// The 1-based bank of a 1-based channel index.
pub fn bank_of_channel(i: u32) -> (b: u32)
    requires
        i >= 1,
    ensures
        b == spec_bank_of_channel(i as int),
{
    (i - 1) / 50 + 1
}

/// What decoding a channel record (`CIN,<index>,<name>,<freq8>,<mod>,...`)
/// yields: the mnemonic must match, at least five fields must be present,
/// and the index must parse to a value in `1..=500`; fields beyond the
/// fifth are ignored. The frequency is stored in display form.
pub open spec fn channel_decode_spec(line: Seq<char>) -> Option<ChannelModel> {
    let f = split_on(line, ',');
    if f.len() >= 5 && f[0] == "CIN"@ && parses_as_u32(f[1]) && 1 <= dec_val(f[1]) <= 500 {
        Some(
            ChannelModel {
                index: dec_val(f[1]) as int,
                name: f[2],
                frequency: channel_freq_display(f[3]),
                modulation: f[4],
            },
        )
    } else {
        None
    }
}

/// Decodes a channel record, exactly as [`channel_decode_spec`]
/// describes; any violation is a decode failure, never a panic.
pub fn decode_channel(line: &str) -> (r: Option<Channel>)
    ensures
        match r {
            Some(ch) => channel_decode_spec(line@) == Some(ch@) && 1 <= ch.index <= 500,
            None => channel_decode_spec(line@) is None,
        },
{
    let fields = split_str(line, ',');
    proof {
        assert(forall|i: int|
            0 <= i < fields.len() ==> #[trigger] fields@[i]@ == split_on(line@, ',')[i]);
    }
    if fields.len() < 5 {
        return None;
    }
    if !(fields[0] == String::from_str("CIN")) {
        return None;
    }
    let idx = match parse_u32(fields[1].as_str()) {
        Some(v) => v,
        None => {
            return None;
        },
    };
    if idx < 1 || idx > 500 {
        return None;
    }
    Some(
        Channel {
            index: idx,
            name: fields[2].clone(),
            frequency: format_channel_freq(fields[3].as_str()),
            modulation: fields[4].clone(),
        },
    )
}

/// What applying a live-scan response
/// (`GLG,<freq8>,<mod>,,<?>,,,<name>,<signal>,<?>,,<index>,`) to a
/// previous status yields. The raw line is always recorded. With at
/// least eight fields and the right mnemonic: the frequency is shown in
/// live-scan form, the channel name is the trimmed eighth field, the
/// signal flag is whether the trimmed ninth field equals `"1"` (kept
/// when absent), and the bank is derived from the twelfth field when it
/// parses to a positive integer (kept otherwise). Anything else leaves
/// all but the raw line untouched.
pub open spec fn scan_status_update_spec(prev: ScanStatusModel, line: Seq<char>) -> ScanStatusModel {
    let f = split_on(line, ',');
    if f.len() >= 8 && f[0] == "GLG"@ {
        ScanStatusModel {
            frequency: scan_freq_display(f[1]),
            channel_name: trim_spec(f[7]),
            signal_detected: if f.len() > 8 {
                trim_spec(f[8]) == "1"@
            } else {
                prev.signal_detected
            },
            bank: if f.len() > 11 && parses_as_u32(trim_spec(f[11])) && dec_val(trim_spec(f[11]))
                > 0 {
                dec_rep(spec_bank_of_channel(dec_val(trim_spec(f[11])) as int) as nat)
            } else {
                prev.bank
            },
            raw: line,
        }
    } else {
        ScanStatusModel {
            frequency: prev.frequency,
            channel_name: prev.channel_name,
            signal_detected: prev.signal_detected,
            bank: prev.bank,
            raw: line,
        }
    }
}

/// Applies a live-scan response line to a status, exactly as
/// [`scan_status_update_spec`] describes. A malformed line only records
/// the raw text; it never corrupts the previous status.
pub fn apply_scan_line(status: &mut ScanStatus, line: &str)
    ensures
        final(status)@ == scan_status_update_spec(old(status)@, line@),
{
    let fields = split_str(line, ',');
    proof {
        assert(forall|i: int|
            0 <= i < fields.len() ==> #[trigger] fields@[i]@ == split_on(line@, ',')[i]);
    }
    status.raw = String::from_str(line);
    if fields.len() >= 8 && fields[0] == String::from_str("GLG") {
        status.frequency = format_scan_freq(fields[1].as_str());
        status.channel_name = trim(fields[7].as_str());
        if fields.len() > 8 {
            let sig = trim(fields[8].as_str());
            status.signal_detected = sig == String::from_str("1");
        }
        if fields.len() > 11 {
            let t = trim(fields[11].as_str());
            if let Some(idx) = parse_u32(t.as_str()) {
                if idx > 0 {
                    status.bank = u32_to_string(bank_of_channel(idx));
                }
            }
        }
    }
}

/// What decoding a bank-enable response (`SCG,<mask10>`) yields: the
/// mnemonic must match and the second field must hold at least ten
/// characters; bank `i+1` is enabled exactly when character `i` is `'0'`
/// (the protocol encodes "disabled" as `'1'`). Anything else is a decode
/// failure, and the caller keeps its previous mask.
pub open spec fn bank_mask_decode_spec(line: Seq<char>) -> Option<Seq<bool>> {
    let f = split_on(line, ',');
    if f.len() >= 2 && f[0] == "SCG"@ && f[1].len() >= 10 {
        Some(Seq::new(10, |i: int| f[1][i] == '0'))
    } else {
        None
    }
}

/// Decodes a bank-enable response, exactly as [`bank_mask_decode_spec`]
/// describes.
pub fn decode_bank_mask(line: &str) -> (r: Option<Vec<bool>>)
    ensures
        match r {
            Some(v) => bank_mask_decode_spec(line@) == Some(v@) && v.len() == 10,
            None => bank_mask_decode_spec(line@) is None,
        },
{
    let fields = split_str(line, ',');
    proof {
        assert(forall|i: int|
            0 <= i < fields.len() ==> #[trigger] fields@[i]@ == split_on(line@, ',')[i]);
    }
    if fields.len() < 2 {
        return None;
    }
    if !(fields[0] == String::from_str("SCG")) {
        return None;
    }
    let mask = fields[1].as_str();
    if mask.unicode_len() < 10 {
        return None;
    }
    let mut banks: Vec<bool> = Vec::new();
    let mut i: usize = 0;
    while i < 10
        invariant
            0 <= i <= 10,
            mask@.len() >= 10,
            mask@ == split_on(line@, ',')[1],
            banks@ =~= Seq::new(i as nat, |k: int| mask@[k] == '0'),
        decreases 10 - i,
    {
        let c = mask.get_char(i);
        banks.push(c == '0');
        i = i + 1;
    }
    proof {
        assert(banks@ =~= Seq::new(10, |k: int| split_on(line@, ',')[1][k] == '0'));
    }
    Some(banks)
}

/// The bank-enable write command for a mask: the literal `"SCG,"`, then
/// one character per bank in order, `'0'` for enabled and `'1'` for
/// disabled — the exact inverse of [`bank_mask_decode_spec`].
pub open spec fn bank_mask_encode_spec(banks: Seq<bool>) -> Seq<char> {
    "SCG,"@ + banks.map_values(|b: bool| if b { '0' } else { '1' })
}

/// Encodes the bank-enable write command, exactly as
/// [`bank_mask_encode_spec`] describes.
pub fn encode_bank_mask(banks: &Vec<bool>) -> (r: String)
    ensures
        r@ == bank_mask_encode_spec(banks@),
{
    let mut out = String::from_str("SCG,");
    let mut i: usize = 0;
    while i < banks.len()
        invariant
            0 <= i <= banks@.len(),
            out@ =~= "SCG,"@ + banks@.take(i as int).map_values(
                |b: bool| if b { '0' } else { '1' },
            ),
        decreases banks@.len() - i,
    {
        push_char(&mut out, if banks[i] { '0' } else { '1' });
        proof {
            let conv = |b: bool| if b { '0' } else { '1' };
            assert(banks@.take(i + 1).map_values(conv) =~= banks@.take(i as int).map_values(
                conv,
            ).push(conv(banks@[i as int])));
        }
        i = i + 1;
    }
    proof {
        assert(banks@.take(banks@.len() as int) =~= banks@);
    }
    out
}

/// The channel write command:
/// `CIN,<index>,<name>,<freq8>,<modulation>,0,0,0,0`, the trailing
/// fields being fixed protocol padding.
pub open spec fn channel_write_spec(
    index: nat,
    name: Seq<char>,
    raw_freq: Seq<char>,
    modulation: Seq<char>,
) -> Seq<char> {
    "CIN,"@ + dec_rep(index) + ","@ + name + ","@ + raw_freq + ","@ + modulation + ",0,0,0,0"@
}

/// Encodes the channel write command, exactly as [`channel_write_spec`]
/// describes.
pub fn encode_channel_write(index: u32, name: &str, raw_freq: &str, modulation: &str) -> (r:
    String)
    ensures
        r@ == channel_write_spec(index as nat, name@, raw_freq@, modulation@),
{
    let mut out = String::from_str("CIN,");
    append_u32(&mut out, index);
    out.append(",");
    out.append(name);
    out.append(",");
    out.append(raw_freq);
    out.append(",");
    out.append(modulation);
    out.append(",0,0,0,0");
    out
}

/// The channel fetch command for one index: `CIN,<index>`.
pub open spec fn channel_query_spec(index: nat) -> Seq<char> {
    "CIN,"@ + dec_rep(index)
}

/// Encodes the channel fetch command for one index.
pub fn encode_channel_query(index: u32) -> (r: String)
    ensures
        r@ == channel_query_spec(index as nat),
{
    let mut out = String::from_str("CIN,");
    append_u32(&mut out, index);
    out
}

/// The channel delete command for one index: `DCH,<index>`.
pub open spec fn channel_delete_spec(index: nat) -> Seq<char> {
    "DCH,"@ + dec_rep(index)
}

/// Encodes the channel delete command for one index.
pub fn encode_channel_delete(index: u32) -> (r: String)
    ensures
        r@ == channel_delete_spec(index as nat),
{
    let mut out = String::from_str("DCH,");
    append_u32(&mut out, index);
    out
}

/// The volume write command for a level: `VOL,<level>`.
pub open spec fn volume_write_spec(level: nat) -> Seq<char> {
    "VOL,"@ + dec_rep(level)
}

/// Encodes the volume write command. Levels above 15 are outside the
/// protocol range and are rejected before any command is sent.
pub fn encode_set_volume(level: u8) -> (r: Result<String, ValidationError>)
    ensures
        match r {
            Ok(cmd) => level <= 15 && cmd@ == volume_write_spec(level as nat),
            Err(e) => level > 15 && e == ValidationError::VolumeOutOfRange,
        },
{
    if level > 15 {
        return Err(ValidationError::VolumeOutOfRange);
    }
    let mut out = String::from_str("VOL,");
    append_u32(&mut out, level as u32);
    Ok(out)
}

/// The squelch write command for a level: `SQL,<level>`.
pub open spec fn squelch_write_spec(level: nat) -> Seq<char> {
    "SQL,"@ + dec_rep(level)
}

/// Encodes the squelch write command. Levels above 15 are outside the
/// protocol range and are rejected before any command is sent.
pub fn encode_set_squelch(level: u8) -> (r: Result<String, ValidationError>)
    ensures
        match r {
            Ok(cmd) => level <= 15 && cmd@ == squelch_write_spec(level as nat),
            Err(e) => level > 15 && e == ValidationError::SquelchOutOfRange,
        },
{
    if level > 15 {
        return Err(ValidationError::SquelchOutOfRange);
    }
    let mut out = String::from_str("SQL,");
    append_u32(&mut out, level as u32);
    Ok(out)
}

} // verus!
