//! Characters, decimal numbers and dotted paths.

use vstd::prelude::*;
use vstd::std_specs::iter::IteratorSpec;
use vstd::string::StringExecFns;

verus! {

/// The characters of each string of `v`.
pub open spec fn texts(v: Seq<String>) -> Seq<Seq<char>> {
    Seq::new(v.len(), |i: int| v[i]@)
}

/// The characters of `s`.
pub fn chars_of(s: &str) -> (r: Vec<char>)
    ensures
        r@ == s@,
{
    let mut out: Vec<char> = Vec::new();
    for c in it: s.chars()
        invariant
            it.seq() == s@,
            out@ == s@.take(it.index()),
    {
        out.push(c);
    }
    assert(out@ =~= s@);
    out
}

/// `String::from_iter` over a slice of characters: the string made of them,
/// in their order.
#[verifier::external_body]
pub(crate) fn string_from_chars(chars: &[char]) -> (r: String)
    ensures
        r@ == chars@,
{
    String::from_iter(chars.iter())
}

/// The characters of `chars` from `from` up to `to`.
pub fn chars_of_range(chars: &Vec<char>, from: usize, to: usize) -> (r: Vec<char>)
    requires
        from <= to <= chars@.len(),
    ensures
        r@ == chars@.subrange(from as int, to as int),
{
    let mut piece: Vec<char> = Vec::new();
    let mut i: usize = from;
    assert(piece@ =~= chars@.subrange(from as int, i as int));
    while i < to
        invariant
            from <= i <= to <= chars@.len(),
            piece@ == chars@.subrange(from as int, i as int),
        decreases to - i,
    {
        piece.push(chars[i]);
        i += 1;
        assert(piece@ =~= chars@.subrange(from as int, i as int));
    }
    piece
}

/// The string made of the characters of `chars` from `from` up to `to`.
pub fn string_of_range(chars: &Vec<char>, from: usize, to: usize) -> (r: String)
    requires
        from <= to <= chars@.len(),
    ensures
        r@ == chars@.subrange(from as int, to as int),
{
    let piece = chars_of_range(chars, from, to);
    string_from_chars(piece.as_slice())
}

/// The value of a decimal digit.
pub open spec fn digit_value(c: char) -> Option<int> {
    if '0' <= c && c <= '9' {
        Some(c as u32 - '0' as u32)
    } else {
        None
    }
}

/// The digit that stands for `d`, where `d` is less than ten.
pub open spec fn digit_char(d: int) -> char {
    (('0' as u8 + d) as u8) as char
}

/// The decimal numeral of `n`, without leading zeros.
pub open spec fn decimal(n: nat) -> Seq<char>
    decreases n,
{
    if n < 10 {
        seq![digit_char(n as int)]
    } else {
        decimal(n / 10).push(digit_char((n % 10) as int))
    }
}

/// The number that a sequence of digits stands for; a character that is no
/// digit counts as zero.
pub open spec fn digits_value(s: Seq<char>) -> nat
    decreases s.len(),
{
    if s.len() == 0 {
        0
    } else {
        let d = match digit_value(s.last()) {
            Some(d) => d as nat,
            None => 0,
        };
        digits_value(s.drop_last()) * 10 + d
    }
}

/// Every character of `s` is a decimal digit.
pub open spec fn all_digits(s: Seq<char>) -> bool {
    forall|i: int| 0 <= i < s.len() ==> digit_value(#[trigger] s[i]) is Some
}

/// The number that `s` stands for, where `s` is a non-empty sequence of
/// decimal digits.
pub open spec fn parse_decimal(s: Seq<char>) -> Option<nat> {
    if s.len() > 0 && all_digits(s) {
        Some(digits_value(s))
    } else {
        None
    }
}

/// Appends the decimal numeral of `n` to `out`.
pub fn push_decimal(out: &mut Vec<char>, n: u64)
    ensures
        final(out)@ == old(out)@ + decimal(n as nat),
    decreases n,
{
    if n >= 10 {
        push_decimal(out, n / 10);
    }
    let d: u8 = (n % 10) as u8;
    out.push((48u8 + d) as char);
    assert(out@ =~= old(out)@ + decimal(n as nat));
}

/// The decimal numeral of `n`.
pub fn decimal_string(n: u64) -> (r: String)
    ensures
        r@ == decimal(n as nat),
{
    let mut out: Vec<char> = Vec::new();
    push_decimal(&mut out, n);
    assert(out@ =~= decimal(n as nat));
    string_from_chars(out.as_slice())
}

/// A longer sequence of digits stands for no smaller number than its
/// beginning.
pub proof fn lemma_digits_value_prefix(s: Seq<char>, k: int)
    requires
        0 <= k <= s.len(),
    ensures
        digits_value(s.take(k)) <= digits_value(s),
    decreases s.len(),
{
    if k < s.len() {
        lemma_digits_value_prefix(s.drop_last(), k);
        assert(s.drop_last().take(k) =~= s.take(k));
    } else {
        assert(s.take(k) =~= s);
    }
}

/// The number that the characters of `chars` from `from` up to `to` stand
/// for: `None` where they are no decimal numeral, or one too large for
/// `usize`.
pub fn parse_range(chars: &Vec<char>, from: usize, to: usize) -> (r: Option<usize>)
    requires
        from <= to <= chars@.len(),
    ensures
        r == match parse_decimal(chars@.subrange(from as int, to as int)) {
            Some(n) => if n <= usize::MAX {
                Some(n as usize)
            } else {
                None
            },
            None => None,
        },
{
    let ghost s = chars@.subrange(from as int, to as int);
    if from == to {
        return None;
    }
    let mut value: usize = 0;
    let mut i: usize = from;
    while i < to
        invariant
            from <= i <= to <= chars@.len(),
            s == chars@.subrange(from as int, to as int),
            all_digits(s.take(i - from)),
            value == digits_value(s.take(i - from)),
        decreases to - i,
    {
        let ghost before = s.take(i - from);
        let ghost after = s.take(i - from + 1);
        proof {
            assert(after.drop_last() =~= before);
            assert(after.last() == chars@[i as int]);
            lemma_digits_value_prefix(s, i - from + 1);
        }
        let d = match digit_of(chars[i]) {
            Some(d) => d,
            None => {
                assert(digit_value(s[i - from]) is None);
                return None;
            },
        };
        let scaled = match value.checked_mul(10) {
            Some(v) => v,
            None => {
                proof {
                    if all_digits(s) {
                        assert(digits_value(s) > usize::MAX);
                    }
                }
                return None;
            },
        };
        value = match scaled.checked_add(d as usize) {
            Some(v) => v,
            None => {
                proof {
                    if all_digits(s) {
                        assert(digits_value(s) > usize::MAX);
                    }
                }
                return None;
            },
        };
        i += 1;
        proof {
            assert forall|j: int| 0 <= j < after.len() implies digit_value(
                #[trigger] after[j],
            ) is Some by {
                if j < before.len() {
                    assert(before[j] == after[j]);
                }
            }
        }
    }
    assert(s.take(i - from) =~= s);
    Some(value)
}

/// The value of a decimal digit.
pub fn digit_of(c: char) -> (r: Option<u8>)
    ensures
        match r {
            Some(d) => digit_value(c) == Some(d as int) && d < 10,
            None => digit_value(c) is None,
        },
{
    if '0' <= c && c <= '9' {
        Some((c as u32 - '0' as u32) as u8)
    } else {
        None
    }
}

/// The parts of `parts` from `from` on, with `sep` before each of them.
pub open spec fn joined_tail(parts: Seq<Seq<char>>, sep: Seq<char>, from: int) -> Seq<char>
    decreases parts.len() - from,
{
    if from < 0 || from >= parts.len() {
        Seq::<char>::empty()
    } else {
        sep + parts[from] + joined_tail(parts, sep, from + 1)
    }
}

/// The parts of `parts`, with `sep` between them.
pub open spec fn joined(parts: Seq<Seq<char>>, sep: Seq<char>) -> Seq<char> {
    if parts.len() == 0 {
        Seq::<char>::empty()
    } else {
        parts[0] + joined_tail(parts, sep, 1)
    }
}

/// The strings of `parts` from `from` up to `to`, with `sep` between them.
pub fn join_range(parts: &Vec<String>, sep: &str, from: usize, to: usize) -> (r: String)
    requires
        from <= to <= parts@.len(),
    ensures
        r@ == joined(texts(parts@).subrange(from as int, to as int), sep@),
{
    let ghost all = texts(parts@).subrange(from as int, to as int);
    let mut out = String::new();
    if from == to {
        return out;
    }
    out.append(parts[from].as_str());
    let mut i: usize = from + 1;
    proof {
        lemma_joined_tail_end(all, sep@, all.len() as int);
    }
    while i < to
        invariant
            from < i <= to <= parts@.len(),
            all == texts(parts@).subrange(from as int, to as int),
            out@ + joined_tail(all, sep@, i - from) == joined(all, sep@),
        decreases to - i,
    {
        let ghost before = out@;
        out.append(sep);
        out.append(parts[i].as_str());
        proof {
            assert(all[i - from] == parts@[i as int]@);
            assert(out@ + joined_tail(all, sep@, i - from + 1) =~= before + joined_tail(
                all,
                sep@,
                i - from,
            ));
        }
        i += 1;
    }
    assert(out@ + joined_tail(all, sep@, all.len() as int) =~= out@);
    out
}

/// Nothing is left to join from the end on.
pub proof fn lemma_joined_tail_end(parts: Seq<Seq<char>>, sep: Seq<char>, from: int)
    requires
        from >= parts.len(),
    ensures
        joined_tail(parts, sep, from) == Seq::<char>::empty(),
{
}

} // verus!
