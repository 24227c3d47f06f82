//! The codec's round-trip laws: the write-path normalizer inverts the
//! channel display formatting, the bank-mask encoder and decoder are
//! mutually inverse, and the live-scan bank derivation agrees with the
//! fetch scheduler's bank ranges.

use vstd::prelude::*;

use crate::codec::{
    bank_mask_decode_spec, bank_mask_encode_spec, channel_freq_display, char_repeat, fit_left,
    fit_right, mhz_display, normalize_freq_input, spec_bank_of_channel, strip_leading_zeros,
    strip_trailing_zeros,
};
use crate::console::{bank_hi, bank_lo};
use crate::strutil::{all_digits, is_digit_char, lemma_split_on_concat, lemma_split_on_free, split_on};

verus! {

/// Stripping leading zeros splits `s` into the stripped zeros and a
/// remainder that keeps everything else, led by a non-zero character
/// when it is non-empty.
proof fn lemma_strip_leading_zeros_structure(s: Seq<char>)
    ensures
        strip_leading_zeros(s).len() <= s.len(),
        s =~= char_repeat('0', (s.len() - strip_leading_zeros(s).len()) as nat)
            + strip_leading_zeros(s),
        strip_leading_zeros(s).len() > 0 ==> strip_leading_zeros(s)[0] != '0',
    decreases s.len(),
{
    if s.len() > 0 && s[0] == '0' {
        lemma_strip_leading_zeros_structure(s.drop_first());
        let t = strip_leading_zeros(s);
        let k = s.len() - t.len();
        assert(strip_leading_zeros(s.drop_first()) == t);
        assert(s.drop_first() =~= char_repeat('0', (k - 1) as nat) + t);
        assert(s =~= seq!['0'] + s.drop_first());
        assert(seq!['0'] + (char_repeat('0', (k - 1) as nat) + t) =~= char_repeat('0', k as nat)
            + t);
    }
}

/// Stripping trailing zeros splits `s` into a remainder that keeps
/// everything else — ending in a non-zero character when it is
/// non-empty — and the stripped zeros.
proof fn lemma_strip_trailing_zeros_structure(s: Seq<char>)
    ensures
        strip_trailing_zeros(s).len() <= s.len(),
        s =~= strip_trailing_zeros(s) + char_repeat(
            '0',
            (s.len() - strip_trailing_zeros(s).len()) as nat,
        ),
        strip_trailing_zeros(s).len() > 0 ==> strip_trailing_zeros(s).last() != '0',
    decreases s.len(),
{
    if s.len() > 0 && s.last() == '0' {
        lemma_strip_trailing_zeros_structure(s.drop_last());
        let t = strip_trailing_zeros(s);
        let k = s.len() - t.len();
        assert(strip_trailing_zeros(s.drop_last()) == t);
        assert(s.drop_last() =~= t + char_repeat('0', (k - 1) as nat));
        assert(s =~= s.drop_last() + seq![s.last()]);
        assert((t + char_repeat('0', (k - 1) as nat)) + seq!['0'] =~= t + char_repeat(
            '0',
            k as nat,
        ));
    }
}

/// For every 8-digit frequency code other than the all-zero sentinel,
/// the write-path normalizer applied to the channel display string
/// reproduces the code exactly.
pub proof fn lemma_frequency_round_trip(f: Seq<char>)
    requires
        f.len() == 8,
        all_digits(f),
        f != char_repeat('0', 8),
    ensures
        normalize_freq_input(channel_freq_display(f)) == f,
{
    let mfour = f.take(4);
    let kfour = f.skip(4);
    let mhz = mhz_display(mfour);
    let khz = strip_trailing_zeros(kfour);
    lemma_strip_leading_zeros_structure(mfour);
    lemma_strip_trailing_zeros_structure(kfour);
    let t = strip_leading_zeros(mfour);
    // Every character of the display parts is a digit, hence not a dot.
    assert(forall|k: int| 0 <= k < mfour.len() ==> is_digit_char(#[trigger] mfour[k]));
    assert(forall|k: int| 0 <= k < kfour.len() ==> is_digit_char(#[trigger] kfour[k]));
    let zeros = mfour.len() - t.len();
    assert forall|k: int| 0 <= k < t.len() implies #[trigger] t[k] != '.' by {
        assert(t[k] == (char_repeat('0', zeros as nat) + t)[k + zeros]);
        assert(is_digit_char(mfour[k + zeros]));
    }
    assert forall|k: int| 0 <= k < khz.len() implies #[trigger] khz[k] != '.' by {
        assert(khz[k] == (khz + char_repeat('0', (kfour.len() - khz.len()) as nat))[k]);
        assert(is_digit_char(kfour[k]));
    }
    assert(forall|k: int| 0 <= k < mhz.len() ==> #[trigger] mhz[k] != '.');
    let disp = channel_freq_display(f);
    if khz.len() == 0 {
        // Display is `MHz.0`; the normalizer pads the single zero back
        // out to the four stripped zeros.
        assert(disp == mhz + seq!['.', '0']);
        assert(disp =~= mhz + seq!['.'] + seq!['0']);
        lemma_split_on_concat(mhz, seq!['0'], '.');
        lemma_split_on_free(seq!['0'], '.');
        assert(split_on(disp, '.') == seq![mhz] + seq![seq!['0']]);
        assert(split_on(disp, '.').len() == 2);
        assert(split_on(disp, '.')[0] == mhz);
        assert(split_on(disp, '.')[1] == seq!['0']);
        assert(disp[mhz.len() as int] == '.');
        assert(disp.contains('.'));
        assert(fit_right(seq!['0'], 4) =~= char_repeat('0', 4));
        assert(kfour =~= char_repeat('0', 4));
        lemma_fit_left_mhz(mfour);
        assert(normalize_freq_input(disp) =~= mfour + kfour);
        assert(mfour + kfour =~= f);
    } else {
        assert(disp == mhz + seq!['.'] + khz);
        lemma_split_on_concat(mhz, khz, '.');
        lemma_split_on_free(khz, '.');
        assert(split_on(disp, '.') == seq![mhz] + seq![khz]);
        assert(split_on(disp, '.').len() == 2);
        assert(split_on(disp, '.')[0] == mhz);
        assert(split_on(disp, '.')[1] == khz);
        assert(disp[mhz.len() as int] == '.');
        assert(disp.contains('.'));
        lemma_fit_left_mhz(mfour);
        assert(fit_right(khz, 4) =~= kfour) by {
            if khz.len() >= 4 {
                assert(khz =~= kfour);
                assert(khz.take(4) =~= kfour);
            }
        }
        assert(normalize_freq_input(disp) =~= mfour + kfour);
        assert(mfour + kfour =~= f);
    }
}

/// Fitting the displayed MHz part back to four characters restores the
/// original four digits.
proof fn lemma_fit_left_mhz(mfour: Seq<char>)
    requires
        mfour.len() == 4,
    ensures
        fit_left(mhz_display(mfour), 4) =~= mfour,
{
    lemma_strip_leading_zeros_structure(mfour);
    let t = strip_leading_zeros(mfour);
    if t.len() == 0 {
        assert(mhz_display(mfour) == seq!['0']);
        assert(fit_left(seq!['0'], 4) =~= char_repeat('0', 3) + seq!['0']);
        assert(char_repeat('0', 3) + seq!['0'] =~= char_repeat('0', 4));
        assert(mfour =~= char_repeat('0', 4));
    } else {
        assert(mhz_display(mfour) == t);
        if t.len() >= 4 {
            assert(t =~= mfour);
            assert(t.take(4) =~= mfour);
        }
    }
}

/// The all-zero sentinel means "no frequency assigned": it displays as
/// the empty string, and the normalizer maps that to the empty string —
/// "do not set" — rather than back to the sentinel.
pub proof fn lemma_sentinel_clears(f: Seq<char>)
    requires
        f =~= char_repeat('0', 8),
    ensures
        channel_freq_display(f) == Seq::<char>::empty(),
        normalize_freq_input(channel_freq_display(f)) == Seq::<char>::empty(),
{
    assert(all_digits(f));
    assert(channel_freq_display(f) == Seq::<char>::empty());
    let empty = Seq::<char>::empty();
    assert(!empty.contains('.'));
}

/// For every ten-bank mask, decoding the encoded bank-enable command
/// yields the mask back: the pair is a bijection onto its range.
pub proof fn lemma_bank_mask_round_trip(banks: Seq<bool>)
    requires
        banks.len() == 10,
    ensures
        bank_mask_decode_spec(bank_mask_encode_spec(banks)) == Some(banks),
{
    reveal_strlit("SCG,");
    reveal_strlit("SCG");
    let conv = |b: bool| if b { '0' } else { '1' };
    let mapped = banks.map_values(conv);
    assert("SCG,"@ =~= "SCG"@ + seq![',']);
    assert(bank_mask_encode_spec(banks) =~= "SCG"@ + seq![','] + mapped);
    assert(forall|k: int| 0 <= k < "SCG"@.len() ==> #[trigger] "SCG"@[k] != ',');
    assert(forall|k: int| 0 <= k < mapped.len() ==> #[trigger] mapped[k] != ',');
    lemma_split_on_concat("SCG"@, mapped, ',');
    lemma_split_on_free(mapped, ',');
    let fields = split_on(bank_mask_encode_spec(banks), ',');
    assert(fields == seq!["SCG"@] + seq![mapped]);
    assert(fields.len() == 2);
    assert(fields[0] == "SCG"@);
    assert(fields[1] == mapped);
    assert(Seq::new(10, |i: int| mapped[i] == '0') =~= banks);
}

/// The bank that the live-scan decoder derives for a channel index is
/// exactly the bank whose 50-slot range the fetch scheduler places that
/// index into.
pub proof fn lemma_scan_bank_matches_enqueue(i: int, b: int)
    requires
        1 <= i <= 500,
        1 <= b <= 10,
    ensures
        spec_bank_of_channel(i) == b <==> bank_lo(b) <= i <= bank_hi(b),
{
    assert((i - 1) / 50 + 1 == b <==> (b - 1) * 50 + 1 <= i <= b * 50) by (nonlinear_arith)
        requires
            1 <= i <= 500,
            1 <= b <= 10,
    ;
}

} // verus!
