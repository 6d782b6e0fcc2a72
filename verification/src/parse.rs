//! The grammar of symbol expressions: a dotted path with array indices,
//! and behind it the groups in braces that say which variable is meant.

use crate::text::{chars_of, chars_of_range, string_from_chars, string_of_range, texts};
use vstd::prelude::*;

verus! {

/// The characters of each vector of `v`.
pub open spec fn pieces_view(v: Seq<Vec<char>>) -> Seq<Seq<char>> {
    Seq::new(v.len(), |i: int| v[i]@)
}

/// The position of the first `c` in `s` at or after `from`; the length of
/// `s` where there is none.
pub open spec fn first_index(s: Seq<char>, c: char, from: int) -> int
    decreases s.len() - from,
{
    if from < 0 || from >= s.len() {
        s.len() as int
    } else if s[from] == c {
        from
    } else {
        first_index(s, c, from + 1)
    }
}

/// The pieces between the separators `sep` of `s` from `from` on, the first
/// piece beginning at `start`.
pub open spec fn split_from(s: Seq<char>, sep: char, from: int, start: int) -> Seq<Seq<char>>
    decreases s.len() - from,
{
    if from < 0 || from >= s.len() {
        seq![s.subrange(start, s.len() as int)]
    } else if s[from] == sep {
        seq![s.subrange(start, from)] + split_from(s, sep, from + 1, from + 1)
    } else {
        split_from(s, sep, from + 1, start)
    }
}

/// The pieces of `s` between the separators `sep`: one more than there are
/// separators.
pub open spec fn split_on(s: Seq<char>, sep: char) -> Seq<Seq<char>> {
    split_from(s, sep, 0, 0)
}

/// The pieces of `s` from `from` on, each ending behind a `sep`, the first
/// piece beginning at `start`; what follows the last `sep` is a piece too,
/// unless it is empty.
pub open spec fn split_after_from(s: Seq<char>, sep: char, from: int, start: int) -> Seq<Seq<char>>
    decreases s.len() - from,
{
    if from < 0 || from >= s.len() {
        if start < s.len() {
            seq![s.subrange(start, s.len() as int)]
        } else {
            Seq::<Seq<char>>::empty()
        }
    } else if s[from] == sep {
        seq![s.subrange(start, from + 1)] + split_after_from(s, sep, from + 1, from + 1)
    } else {
        split_after_from(s, sep, from + 1, start)
    }
}

/// The components of one piece of a path: the piece itself where it holds
/// no `[`; else what stands before the first `[`, and then each index
/// group up to and with its `]`.
pub open spec fn bracket_parts(piece: Seq<char>) -> Seq<Seq<char>> {
    let at = first_index(piece, '[', 0);
    if at >= piece.len() {
        seq![piece]
    } else {
        seq![piece.subrange(0, at)] + split_after_from(piece, ']', at, at)
    }
}

/// The components of the pieces from `from` on.
pub open spec fn expand_from(pieces: Seq<Seq<char>>, from: int) -> Seq<Seq<char>>
    decreases pieces.len() - from,
{
    if from < 0 || from >= pieces.len() {
        Seq::<Seq<char>>::empty()
    } else {
        bracket_parts(pieces[from]) + expand_from(pieces, from + 1)
    }
}

/// The components of a path: its pieces between the dots, each piece with
/// indices in brackets taken apart into its name and its indices.
pub open spec fn spec_split_symbol_components(s: Seq<char>) -> Seq<Seq<char>> {
    expand_from(split_on(s, '.'), 0)
}

/// The pieces of `chars` between the separators `sep`.
pub fn split_chars(chars: &Vec<char>, sep: char) -> (r: Vec<Vec<char>>)
    ensures
        pieces_view(r@) == split_on(chars@, sep),
        r@.len() > 0,
{
    let ghost s = chars@;
    let mut out: Vec<Vec<char>> = Vec::new();
    let mut current: Vec<char> = Vec::new();
    let ghost mut start: int = 0;
    let mut i: usize = 0;
    assert(pieces_view(out@) + split_from(s, sep, 0, 0) =~= split_on(s, sep));
    while i < chars.len()
        invariant
            0 <= start <= i <= s.len(),
            s == chars@,
            current@ == s.subrange(start, i as int),
            pieces_view(out@) + split_from(s, sep, i as int, start) == split_on(s, sep),
        decreases s.len() - i,
    {
        let ghost before = pieces_view(out@);
        if chars[i] == sep {
            out.push(current);
            current = Vec::new();
            proof {
                assert(pieces_view(out@) =~= before.push(s.subrange(start, i as int)));
                assert(pieces_view(out@) + split_from(s, sep, i + 1, i + 1) =~= before
                    + split_from(s, sep, i as int, start));
                start = i + 1;
                assert(current@ =~= s.subrange(start, i + 1));
            }
        } else {
            current.push(chars[i]);
            assert(current@ =~= s.subrange(start, i + 1));
        }
        i += 1;
    }
    let ghost before = pieces_view(out@);
    out.push(current);
    assert(pieces_view(out@) =~= before.push(s.subrange(start, s.len() as int)));
    assert(pieces_view(out@) =~= before + split_from(s, sep, s.len() as int, start));
    out
}

/// Appends the components of one piece of a path to `out`.
pub fn push_bracket_parts(piece: &Vec<char>, out: &mut Vec<String>)
    ensures
        texts(final(out)@) == texts(old(out)@) + bracket_parts(piece@),
        final(out)@.len() > old(out)@.len(),
{
    let ghost p = piece@;
    let ghost out0 = texts(out@);
    let n = piece.len();
    let mut at: usize = 0;
    while at < n && piece[at] != '['
        invariant
            at <= n == p.len(),
            p == piece@,
            first_index(p, '[', at as int) == first_index(p, '[', 0),
        decreases n - at,
    {
        at += 1;
    }
    if at >= n {
        out.push(string_from_chars(piece.as_slice()));
        assert(texts(out@) =~= out0 + bracket_parts(p));
        return ;
    }
    out.push(string_of_range(piece, 0, at));
    let mut start: usize = at;
    let mut i: usize = at;
    assert(texts(out@) + split_after_from(p, ']', at as int, at as int) =~= out0 + bracket_parts(
        p,
    ));
    while i < n
        invariant
            start <= i <= n == p.len(),
            p == piece@,
            out@.len() > old(out)@.len(),
            texts(out@) + split_after_from(p, ']', i as int, start as int) == out0
                + bracket_parts(p),
        decreases n - i,
    {
        if piece[i] == ']' {
            let ghost before = texts(out@);
            out.push(string_of_range(piece, start, i + 1));
            proof {
                assert(texts(out@) =~= before.push(p.subrange(start as int, i + 1)));
                assert(texts(out@) + split_after_from(p, ']', i + 1, i + 1) =~= before
                    + split_after_from(p, ']', i as int, start as int));
            }
            start = i + 1;
        }
        i += 1;
    }
    if start < n {
        let ghost before = texts(out@);
        out.push(string_of_range(piece, start, n));
        assert(texts(out@) =~= before + split_after_from(p, ']', n as int, start as int));
    } else {
        assert(texts(out@) =~= texts(out@) + split_after_from(p, ']', n as int, start as int));
    }
}

/// The components of a path: `my_struct.array_field[5][6]` has the
/// components `my_struct`, `array_field`, `[5]` and `[6]`.
pub fn split_symbol_components(varname: &str) -> (r: Vec<String>)
    ensures
        texts(r@) == spec_split_symbol_components(varname@),
        r@.len() > 0,
{
    let chars = chars_of(varname);
    let pieces = split_chars(&chars, '.');
    let ghost all = pieces_view(pieces@);
    let mut components: Vec<String> = Vec::new();
    let mut i: usize = 0;
    assert(texts(components@) + expand_from(all, 0) =~= expand_from(all, 0));
    while i < pieces.len()
        invariant
            i <= pieces@.len(),
            all == pieces_view(pieces@),
            i > 0 ==> components@.len() > 0,
            texts(components@) + expand_from(all, i as int) == expand_from(all, 0),
        decreases pieces@.len() - i,
    {
        let ghost before = texts(components@);
        push_bracket_parts(&pieces[i], &mut components);
        proof {
            assert(all[i as int] == pieces@[i as int]@);
            assert(texts(components@) + expand_from(all, i + 1) =~= before + expand_from(
                all,
                i as int,
            ));
        }
        i += 1;
    }
    assert(texts(components@) =~= texts(components@) + expand_from(all, i as int));
    components
}

/// What the groups in braces behind a path say of the variable that is
/// meant.
#[derive(Debug)]
pub struct AdditionalSpec {
    /// The function that holds the variable.
    pub function_name: Option<String>,
    /// The compile unit that holds it.
    pub simple_unit_name: Option<String>,
    /// The namespaces around it, outermost first.
    pub namespaces: Vec<String>,
}

/// The mathematical value of an [`AdditionalSpec`].
pub struct AdditionalSpecView {
    pub function_name: Option<Seq<char>>,
    pub simple_unit_name: Option<Seq<char>>,
    pub namespaces: Seq<Seq<char>>,
}

impl View for AdditionalSpec {
    type V = AdditionalSpecView;

    open spec fn view(&self) -> AdditionalSpecView {
        AdditionalSpecView {
            function_name: match self.function_name {
                Some(f) => Some(f@),
                None => None,
            },
            simple_unit_name: match self.simple_unit_name {
                Some(u) => Some(u@),
                None => None,
            },
            namespaces: texts(self.namespaces@),
        }
    }
}

/// Whether `s` begins with `p`.
pub open spec fn has_prefix(s: Seq<char>, p: Seq<char>) -> bool {
    p.len() <= s.len() && s.subrange(0, p.len() as int) == p
}

/// What follows the first `n` characters of `s`.
pub open spec fn after(s: Seq<char>, n: nat) -> Seq<char> {
    s.subrange(n as int, s.len() as int)
}

/// The pieces of `s` from `from` on between the separators `}{`, the first
/// piece beginning at `start`.
pub open spec fn groups_from(s: Seq<char>, from: int, start: int) -> Seq<Seq<char>>
    decreases s.len() - from,
{
    if from < 0 || from >= s.len() {
        seq![s.subrange(start, s.len() as int)]
    } else if s[from] == '}' && from + 1 < s.len() && s[from + 1] == '{' {
        seq![s.subrange(start, from)] + groups_from(s, from + 2, from + 2)
    } else {
        groups_from(s, from + 1, start)
    }
}

/// What the groups from `i` on add to `acc`, read from left to right: a
/// group `Function:` sets the function, a group `Namespace:` adds a
/// namespace, a group `CompileUnit:` sets the compile unit and ends the
/// reading; any other group says nothing.
pub open spec fn scan_groups(groups: Seq<Seq<char>>, i: int, acc: AdditionalSpecView) -> AdditionalSpecView
    decreases groups.len() - i,
{
    if i < 0 || i >= groups.len() {
        acc
    } else if has_prefix(groups[i], "Function:"@) {
        scan_groups(
            groups,
            i + 1,
            AdditionalSpecView {
                function_name: Some(after(groups[i], "Function:"@.len())),
                ..acc
            },
        )
    } else if has_prefix(groups[i], "Namespace:"@) {
        scan_groups(
            groups,
            i + 1,
            AdditionalSpecView {
                namespaces: acc.namespaces.push(after(groups[i], "Namespace:"@.len())),
                ..acc
            },
        )
    } else if has_prefix(groups[i], "CompileUnit:"@) {
        AdditionalSpecView {
            simple_unit_name: Some(after(groups[i], "CompileUnit:"@.len())),
            ..acc
        }
    } else {
        scan_groups(groups, i + 1, acc)
    }
}

/// A specification that says nothing.
pub open spec fn no_filter() -> AdditionalSpecView {
    AdditionalSpecView {
        function_name: None,
        simple_unit_name: None,
        namespaces: Seq::<Seq<char>>::empty(),
    }
}

/// The path of an expression, and what the groups behind it say. The path
/// is what stands before the first `{`. The groups are read where the
/// expression ends with `}`; an expression without `{` has none, and one
/// that does not end with `}` has none that can be read.
pub open spec fn spec_get_additional_spec(s: Seq<char>) -> (Seq<char>, Option<AdditionalSpecView>) {
    let pos = first_index(s, '{', 0);
    if pos >= s.len() {
        (s, None)
    } else if s.len() - pos < 2 || s.last() != '}' {
        (s.subrange(0, pos), None)
    } else {
        (
            s.subrange(0, pos),
            Some(scan_groups(groups_from(s.subrange(pos + 1, s.len() - 1), 0, 0), 0, no_filter())),
        )
    }
}

/// Whether `chars` begins with the characters of `prefix`.
pub fn starts_with(chars: &Vec<char>, prefix: &Vec<char>) -> (r: bool)
    ensures
        r == has_prefix(chars@, prefix@),
{
    if prefix.len() > chars.len() {
        return false;
    }
    let mut i: usize = 0;
    while i < prefix.len()
        invariant
            i <= prefix@.len() <= chars@.len(),
            forall|j: int| 0 <= j < i ==> chars@[j] == prefix@[j],
        decreases prefix@.len() - i,
    {
        if chars[i] != prefix[i] {
            assert(chars@.subrange(0, prefix@.len() as int)[i as int] != prefix@[i as int]);
            return false;
        }
        i += 1;
    }
    assert(chars@.subrange(0, prefix@.len() as int) =~= prefix@);
    true
}

/// What follows `prefix` in `piece`, where `piece` begins with it.
pub fn strip_prefix(piece: &Vec<char>, prefix: &Vec<char>) -> (r: Option<String>)
    ensures
        match r {
            Some(rest) => has_prefix(piece@, prefix@) && rest@ == after(piece@, prefix@.len()),
            None => !has_prefix(piece@, prefix@),
        },
{
    if starts_with(piece, prefix) {
        Some(string_of_range(piece, prefix.len(), piece.len()))
    } else {
        None
    }
}

/// The pieces of `chars` between the separators `}{`.
pub fn split_groups(chars: &Vec<char>) -> (r: Vec<Vec<char>>)
    ensures
        pieces_view(r@) == groups_from(chars@, 0, 0),
{
    let ghost s = chars@;
    let n = chars.len();
    let mut out: Vec<Vec<char>> = Vec::new();
    let mut current: Vec<char> = Vec::new();
    let ghost mut start: int = 0;
    let mut i: usize = 0;
    assert(pieces_view(out@) + groups_from(s, 0, 0) =~= groups_from(s, 0, 0));
    while i < n
        invariant
            0 <= start <= i <= n == s.len(),
            s == chars@,
            current@ == s.subrange(start, i as int),
            pieces_view(out@) + groups_from(s, i as int, start) == groups_from(s, 0, 0),
        decreases n - i,
    {
        let ghost before = pieces_view(out@);
        if chars[i] == '}' && n - i > 1 && chars[i + 1] == '{' {
            out.push(current);
            current = Vec::new();
            proof {
                assert(pieces_view(out@) =~= before.push(s.subrange(start, i as int)));
                assert(pieces_view(out@) + groups_from(s, i + 2, i + 2) =~= before + groups_from(
                    s,
                    i as int,
                    start,
                ));
                start = i + 2;
                assert(current@ =~= s.subrange(start, i + 2));
            }
            i += 2;
        } else {
            current.push(chars[i]);
            assert(current@ =~= s.subrange(start, i + 1));
            i += 1;
        }
    }
    let ghost before = pieces_view(out@);
    out.push(current);
    assert(pieces_view(out@) =~= before + groups_from(s, n as int, start));
    out
}

/// What the groups say, read from left to right.
pub fn scan_spec(groups: &Vec<Vec<char>>) -> (r: AdditionalSpec)
    ensures
        r@ == scan_groups(pieces_view(groups@), 0, no_filter()),
{
    let ghost all = pieces_view(groups@);
    let function = chars_of("Function:");
    let namespace = chars_of("Namespace:");
    let unit = chars_of("CompileUnit:");
    let mut add_spec = AdditionalSpec {
        function_name: None,
        simple_unit_name: None,
        namespaces: Vec::new(),
    };
    assert(add_spec@.namespaces =~= no_filter().namespaces);
    let mut i: usize = 0;
    while i < groups.len()
        invariant
            i <= groups@.len(),
            all == pieces_view(groups@),
            function@ == "Function:"@,
            namespace@ == "Namespace:"@,
            unit@ == "CompileUnit:"@,
            scan_groups(all, i as int, add_spec@) == scan_groups(all, 0, no_filter()),
        decreases groups@.len() - i,
    {
        assert(all[i as int] == groups@[i as int]@);
        if let Some(name) = strip_prefix(&groups[i], &function) {
            add_spec.function_name = Some(name);
        } else if let Some(name) = strip_prefix(&groups[i], &namespace) {
            let ghost before = texts(add_spec.namespaces@);
            add_spec.namespaces.push(name);
            assert(texts(add_spec.namespaces@) =~= before.push(name@));
        } else if let Some(name) = strip_prefix(&groups[i], &unit) {
            add_spec.simple_unit_name = Some(name);
            return add_spec;
        }
        i += 1;
    }
    add_spec
}

/// Takes an expression apart into its path and what the groups behind it
/// say: `var{Function:f}{CompileUnit:unit_c}{Namespace:Global}` has the
/// path `var`, the function `f` and the compile unit `unit_c`.
pub fn get_additional_spec(varname_ext: &str) -> (r: (String, Option<AdditionalSpec>))
    ensures
        r.0@ == spec_get_additional_spec(varname_ext@).0,
        match (r.1, spec_get_additional_spec(varname_ext@).1) {
            (Some(found), Some(expected)) => found@ == expected,
            (None, None) => true,
            _ => false,
        },
{
    let chars = chars_of(varname_ext);
    let ghost s = chars@;
    let n = chars.len();
    let mut pos: usize = 0;
    while pos < n && chars[pos] != '{'
        invariant
            pos <= n == s.len(),
            s == chars@,
            first_index(s, '{', pos as int) == first_index(s, '{', 0),
        decreases n - pos,
    {
        pos += 1;
    }
    if pos >= n {
        assert(s.subrange(0, n as int) =~= s);
        return (string_of_range(&chars, 0, n), None);
    }
    let base = string_of_range(&chars, 0, pos);
    if n - pos < 2 || chars[n - 1] != '}' {
        return (base, None);
    }
    let inner = chars_of_range(&chars, pos + 1, n - 1);
    let groups = split_groups(&inner);
    (base, Some(scan_spec(&groups)))
}

} // verus!
