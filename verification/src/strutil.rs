//! Verified utilities over ASCII-oriented strings: character predicates,
//! decimal parsing and formatting, comma splitting, trimming and padding.
//!
//! Every executable function here is specified against a spec-level
//! function on `Seq<char>`, so the message codec can state its contracts
//! purely over sequence models.

use vstd::prelude::*;
use vstd::string::*;

verus! {

/// A decimal digit character.
pub open spec fn is_digit_char(c: char) -> bool {
    '0' <= c && c <= '9'
}

/// Every character of `s` is a decimal digit.
pub open spec fn all_digits(s: Seq<char>) -> bool {
    forall|i: int| 0 <= i < s.len() ==> is_digit_char(#[trigger] s[i])
}

/// The numeric value of a digit character.
pub open spec fn digit_val(c: char) -> nat {
    (c as nat - '0' as nat) as nat
}

/// The digit character for a value below ten.
pub open spec fn digit_char(d: nat) -> char {
    (d + '0' as nat) as char
}

/// The value of a decimal digit string, most significant digit first.
pub open spec fn dec_val(s: Seq<char>) -> nat
    decreases s.len(),
{
    if s.len() == 0 {
        0
    } else {
        dec_val(s.drop_last()) * 10 + digit_val(s.last())
    }
}

/// The canonical decimal representation of `n`: no leading zeros,
/// except that zero itself is written `"0"`.
pub open spec fn dec_rep(n: nat) -> Seq<char>
    decreases n,
{
    if n < 10 {
        seq![digit_char(n)]
    } else {
        dec_rep(n / 10).push(digit_char(n % 10))
    }
}

/// Relies on `String::push`: appends one character to the string.
#[verifier::external_body]
pub fn push_char(s: &mut String, c: char)
    ensures
        final(s)@ == old(s)@.push(c),
{
    s.push(c);
}

/// Relies on `String::pop`: removes and returns the last character, or
/// returns `None` on an empty string.
#[verifier::external_body]
pub fn pop_char(s: &mut String) -> (r: Option<char>)
    ensures
        match r {
            Some(c) => old(s)@.len() > 0 && c == old(s)@.last() && final(s)@ == old(s)@.drop_last(),
            None => old(s)@.len() == 0 && final(s)@ == old(s)@,
        },
{
    s.pop()
}

/// Appends the canonical decimal form of `n` to `out`.
pub fn append_u32(out: &mut String, n: u32)
    ensures
        final(out)@ == old(out)@ + dec_rep(n as nat),
    decreases n,
{
    if n < 10 {
        push_char(out, (n as u8 + 48) as char);
        assert(digit_char(n as nat) == ((n as u8 + 48) as char));
    } else {
        append_u32(out, n / 10);
        push_char(out, ((n % 10) as u8 + 48) as char);
        assert(digit_char((n % 10) as nat) == (((n % 10) as u8 + 48) as char));
    }
}

/// The canonical decimal form of `n` as a fresh string.
pub fn u32_to_string(n: u32) -> (r: String)
    ensures
        r@ == dec_rep(n as nat),
{
    let mut s = String::new();
    append_u32(&mut s, n);
    proof {
        assert(Seq::<char>::empty() + dec_rep(n as nat) =~= dec_rep(n as nat));
    }
    s
}

/// The value of a digit prefix never exceeds the value of the whole
/// digit string.
pub proof fn lemma_dec_val_take_le(s: Seq<char>, i: int)
    requires
        0 <= i <= s.len(),
        all_digits(s),
    ensures
        dec_val(s.take(i)) <= dec_val(s),
    decreases s.len() - i,
{
    if i < s.len() {
        assert(s.take(i + 1).drop_last() =~= s.take(i));
        assert(dec_val(s.take(i + 1)) == dec_val(s.take(i)) * 10 + digit_val(s.take(i + 1).last()));
        lemma_dec_val_take_le(s, i + 1);
    } else {
        assert(s.take(i) =~= s);
    }
}

/// The string parses as a `u32`: non-empty, all decimal digits, and the
/// value fits the type.
pub open spec fn parses_as_u32(s: Seq<char>) -> bool {
    s.len() > 0 && all_digits(s) && dec_val(s) <= u32::MAX
}

/// Parses a non-empty all-digit string into its `u32` value; anything
/// else, including an overflowing value, is rejected.
pub fn parse_u32(s: &str) -> (r: Option<u32>)
    ensures
        match r {
            Some(v) => parses_as_u32(s@) && v as nat == dec_val(s@),
            None => !parses_as_u32(s@),
        },
{
    let len = s.unicode_len();
    if len == 0 {
        return None;
    }
    let mut acc: u64 = 0;
    let mut i: usize = 0;
    while i < len
        invariant
            0 <= i <= len,
            len == s@.len(),
            all_digits(s@.take(i as int)),
            acc as nat == dec_val(s@.take(i as int)),
            acc <= u32::MAX,
        decreases len - i,
    {
        let c = s.get_char(i);
        let u = c as u32;
        if u < 48 || u > 57 {
            assert(!is_digit_char(s@[i as int]));
            return None;
        }
        let d = (u - 48) as u64;
        proof {
            assert(s@.take(i + 1).drop_last() =~= s@.take(i as int));
            assert(s@.take(i + 1).last() == s@[i as int]);
        }
        acc = acc * 10 + d;
        if acc > u32::MAX as u64 {
            proof {
                if all_digits(s@) && dec_val(s@) <= u32::MAX {
                    lemma_dec_val_take_le(s@, i + 1);
                }
            }
            return None;
        }
        i = i + 1;
    }
    proof {
        assert(s@.take(len as int) =~= s@);
    }
    Some(acc as u32)
}

/// An ASCII whitespace character as the transport sees them.
pub open spec fn is_space_char(c: char) -> bool {
    c == ' ' || c == '\t' || c == '\r' || c == '\n'
}

/// `s` without its leading whitespace.
pub open spec fn strip_leading_spaces(s: Seq<char>) -> Seq<char>
    decreases s.len(),
{
    if s.len() > 0 && is_space_char(s[0]) {
        strip_leading_spaces(s.drop_first())
    } else {
        s
    }
}

/// `s` without its trailing whitespace.
pub open spec fn strip_trailing_spaces(s: Seq<char>) -> Seq<char>
    decreases s.len(),
{
    if s.len() > 0 && is_space_char(s.last()) {
        strip_trailing_spaces(s.drop_last())
    } else {
        s
    }
}

/// `s` without leading and trailing whitespace.
pub open spec fn trim_spec(s: Seq<char>) -> Seq<char> {
    strip_trailing_spaces(strip_leading_spaces(s))
}

/// Stripping leading whitespace keeps exactly the suffix that starts at
/// the first non-whitespace character.
pub proof fn lemma_strip_leading_spaces_skip(s: Seq<char>, i: int)
    requires
        0 <= i <= s.len(),
        forall|k: int| 0 <= k < i ==> is_space_char(#[trigger] s[k]),
        i == s.len() || !is_space_char(s[i]),
    ensures
        strip_leading_spaces(s) == s.skip(i),
    decreases i,
{
    if i == 0 {
        assert(s.skip(0) =~= s);
    } else {
        assert(is_space_char(s[0]));
        lemma_strip_leading_spaces_skip(s.drop_first(), i - 1);
        assert(s.drop_first().skip(i - 1) =~= s.skip(i));
    }
}

/// Stripping trailing whitespace keeps exactly the prefix that ends at
/// the last non-whitespace character.
pub proof fn lemma_strip_trailing_spaces_take(s: Seq<char>, j: int)
    requires
        0 <= j <= s.len(),
        forall|k: int| j <= k < s.len() ==> is_space_char(#[trigger] s[k]),
        j == 0 || !is_space_char(s[j - 1]),
    ensures
        strip_trailing_spaces(s) == s.take(j),
    decreases s.len() - j,
{
    if j == s.len() {
        assert(s.take(j) =~= s);
        if s.len() > 0 && is_space_char(s.last()) {
            assert(!is_space_char(s[j - 1]));
        }
    } else {
        assert(is_space_char(s.last()));
        lemma_strip_trailing_spaces_take(s.drop_last(), j);
        assert(s.drop_last().take(j) =~= s.take(j));
    }
}

/// Whether `c` is whitespace in the sense of [`is_space_char`].
pub fn is_space(c: char) -> (r: bool)
    ensures
        r == is_space_char(c),
{
    c == ' ' || c == '\t' || c == '\r' || c == '\n'
}

/// Removes leading and trailing whitespace, exactly as [`trim_spec`]
/// describes.
pub fn trim(s: &str) -> (r: String)
    ensures
        r@ == trim_spec(s@),
{
    let len = s.unicode_len();
    let mut i: usize = 0;
    while i < len && is_space(s.get_char(i))
        invariant
            0 <= i <= len,
            len == s@.len(),
            forall|k: int| 0 <= k < i ==> is_space_char(#[trigger] s@[k]),
        decreases len - i,
    {
        i = i + 1;
    }
    proof {
        lemma_strip_leading_spaces_skip(s@, i as int);
    }
    let mut j: usize = len;
    while j > i && is_space(s.get_char(j - 1))
        invariant
            i <= j <= len,
            len == s@.len(),
            i < len ==> !is_space_char(s@[i as int]),
            forall|k: int| j <= k < len ==> is_space_char(#[trigger] s@[k]),
        decreases j,
    {
        j = j - 1;
    }
    proof {
        let t = s@.skip(i as int);
        assert(forall|k: int| j - i <= k < t.len() ==> is_space_char(#[trigger] t[k]));
        if j > i {
            assert(t[j - i - 1] == s@[j as int - 1]);
        }
        lemma_strip_trailing_spaces_take(t, j - i);
        assert(t.take(j - i) =~= s@.subrange(i as int, j as int));
    }
    let piece = s.substring_char(i, j);
    String::from_str(piece)
}

/// Splitting a string at a separator character: the fields between the
/// separators, in order. A string without the separator is one field;
/// each separator adds a field after it.
pub open spec fn split_on(s: Seq<char>, sep: char) -> Seq<Seq<char>>
    decreases s.len(),
{
    if s.len() == 0 {
        seq![Seq::<char>::empty()]
    } else if s[0] == sep {
        seq![Seq::<char>::empty()] + split_on(s.drop_first(), sep)
    } else {
        let rest = split_on(s.drop_first(), sep);
        seq![seq![s[0]] + rest[0]] + rest.drop_first()
    }
}

/// A split always has at least one field.
pub proof fn lemma_split_on_len(s: Seq<char>, sep: char)
    ensures
        split_on(s, sep).len() >= 1,
    decreases s.len(),
{
    if s.len() > 0 {
        lemma_split_on_len(s.drop_first(), sep);
    }
}

/// A separator-free string splits into exactly itself.
pub proof fn lemma_split_on_free(s: Seq<char>, sep: char)
    requires
        forall|k: int| 0 <= k < s.len() ==> s[k] != sep,
    ensures
        split_on(s, sep) == seq![s],
    decreases s.len(),
{
    if s.len() > 0 {
        lemma_split_on_free(s.drop_first(), sep);
        assert(seq![s[0]] + s.drop_first() =~= s);
        assert(split_on(s, sep) =~~= seq![s]);
    } else {
        assert(split_on(s, sep) =~~= seq![s]);
    }
}

/// Splitting a string whose first field is separator-free peels that
/// field off the front.
pub proof fn lemma_split_on_concat(a: Seq<char>, b: Seq<char>, sep: char)
    requires
        forall|k: int| 0 <= k < a.len() ==> a[k] != sep,
    ensures
        split_on(a + seq![sep] + b, sep) == seq![a] + split_on(b, sep),
    decreases a.len(),
{
    let s = a + seq![sep] + b;
    if a.len() == 0 {
        assert(s =~= seq![sep] + b);
        assert(s[0] == sep);
        assert(s.drop_first() =~= b);
        assert(split_on(s, sep) =~~= seq![a] + split_on(b, sep));
    } else {
        assert(s[0] == a[0]);
        assert(s[0] != sep);
        lemma_split_on_concat(a.drop_first(), b, sep);
        assert(s.drop_first() =~= a.drop_first() + seq![sep] + b);
        let rest = split_on(s.drop_first(), sep);
        assert(rest =~= seq![a.drop_first()] + split_on(b, sep));
        assert(rest[0] == a.drop_first());
        assert(seq![s[0]] + rest[0] =~= a);
        lemma_split_on_len(b, sep);
        assert(rest.drop_first() =~= split_on(b, sep));
        assert(split_on(s, sep) =~~= seq![a] + split_on(b, sep));
    }
}

/// Splits a string on a separator character, field for field as
/// [`split_on`] describes.
pub fn split_str(s: &str, sep: char) -> (r: Vec<String>)
    ensures
        r.deep_view() == split_on(s@, sep),
{
    let len = s.unicode_len();
    let mut r: Vec<String> = Vec::new();
    let mut start: usize = 0;
    let mut i: usize = 0;
    proof {
        assert(s@.skip(0) =~= s@);
        assert(r.deep_view() =~~= Seq::<Seq<char>>::empty());
        assert(r.deep_view() + split_on(s@, sep) =~~= split_on(s@, sep));
    }
    while i < len
        invariant
            0 <= start <= i <= len,
            len == s@.len(),
            forall|k: int| start <= k < i ==> s@[k] != sep,
            split_on(s@, sep) =~~= r.deep_view() + split_on(s@.skip(start as int), sep),
        decreases len - i,
    {
        let c = s.get_char(i);
        if c == sep {
            let piece = s.substring_char(start, i);
            proof {
                let tail = s@.skip(start as int);
                let a = s@.subrange(start as int, i as int);
                let b = s@.skip(i + 1);
                assert(tail =~= a + seq![sep] + b);
                lemma_split_on_concat(a, b, sep);
            }
            let ghost old_r = r.deep_view();
            r.push(String::from_str(piece));
            proof {
                assert(r.deep_view() =~= old_r + seq![s@.subrange(start as int, i as int)]);
                assert(r.deep_view() + split_on(s@.skip(i + 1), sep) =~= (old_r + seq![
                    s@.subrange(start as int, i as int),
                ]) + split_on(s@.skip(i + 1), sep));
            }
            start = i + 1;
        }
        i = i + 1;
    }
    let piece = s.substring_char(start, len);
    proof {
        let tail = s@.skip(start as int);
        lemma_split_on_free(tail, sep);
        assert(tail =~= s@.subrange(start as int, len as int));
    }
    let ghost old_r = r.deep_view();
    r.push(String::from_str(piece));
    proof {
        assert(r.deep_view() =~= old_r + seq![s@.subrange(start as int, len as int)]);
    }
    r
}

} // verus!
