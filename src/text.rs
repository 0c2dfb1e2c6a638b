//! Pure text transforms used while decoding registry rows.
use vstd::prelude::*;

verus! {

/// The zero-width space that the registry places between the words of a keyword.
pub const SEPARATOR: char = '\u{200b}';

/// True when `a` and `b` hold the same characters.
pub fn str_eq(a: &str, b: &str) -> (r: bool)
    ensures
        r == (a@ == b@),
{
    let n = a.unicode_len();
    if n != b.unicode_len() {
        return false;
    }
    let mut i: usize = 0;
    while i < n
        invariant
            n == a@.len(),
            n == b@.len(),
            i <= n,
            forall|j: int| 0 <= j < i ==> a@[j] == b@[j],
        decreases n - i,
    {
        if a.get_char(i) != b.get_char(i) {
            return false;
        }
        i += 1;
    }
    assert(a@ =~= b@);
    true
}

/// True when `s` begins with `prefix`.
pub open spec fn has_prefix(s: Seq<char>, prefix: Seq<char>) -> bool {
    prefix.len() <= s.len() && s.subrange(0, prefix.len() as int) == prefix
}

/// True when `s` begins with `prefix`.
pub fn starts_with(s: &str, prefix: &str) -> (r: bool)
    ensures
        r == has_prefix(s@, prefix@),
{
    let n = prefix.unicode_len();
    if n > s.unicode_len() {
        return false;
    }
    let mut i: usize = 0;
    while i < n
        invariant
            n == prefix@.len(),
            n <= s@.len(),
            i <= n,
            forall|j: int| 0 <= j < i ==> s@[j] == prefix@[j],
        decreases n - i,
    {
        if s.get_char(i) != prefix.get_char(i) {
            assert(s@.subrange(0, n as int)[i as int] != prefix@[i as int]);
            return false;
        }
        i += 1;
    }
    assert(s@.subrange(0, n as int) =~= prefix@);
    true
}

/// `s` with every occurrence of `c` removed.
pub open spec fn without_char(s: Seq<char>, c: char) -> Seq<char>
    decreases s.len(),
{
    if s.len() == 0 {
        s
    } else if s.last() == c {
        without_char(s.drop_last(), c)
    } else {
        without_char(s.drop_last(), c).push(s.last())
    }
}

/// Removes every separator marker from `s`.
pub fn strip_separators(s: &str) -> (r: String)
    ensures
        r@ == without_char(s@, SEPARATOR),
{
    let n = s.unicode_len();
    let mut out = String::new();
    let mut i: usize = 0;
    while i < n
        invariant
            n == s@.len(),
            i <= n,
            out@ == without_char(s@.subrange(0, i as int), SEPARATOR),
        decreases n - i,
    {
        let c = s.get_char(i);
        assert(s@.subrange(0, i + 1).drop_last() =~= s@.subrange(0, i as int));
        if c != SEPARATOR {
            out.append(s.substring_char(i, i + 1));
            assert(out@ =~= without_char(s@.subrange(0, i + 1), SEPARATOR));
        }
        i += 1;
    }
    assert(s@.subrange(0, n as int) =~= s@);
    out
}

/// `s` with each run of consecutive `c` shortened to a single `c`.
pub open spec fn collapse_runs(s: Seq<char>, c: char) -> Seq<char>
    decreases s.len(),
{
    if s.len() == 0 {
        s
    } else if s.last() == c && s.len() >= 2 && s[s.len() - 2] == c {
        collapse_runs(s.drop_last(), c)
    } else {
        collapse_runs(s.drop_last(), c).push(s.last())
    }
}

/// Folds a keyword: each run of doubled separator markers becomes one marker.
pub fn fold_keyword(keyword: &str) -> (r: String)
    ensures
        r@ == collapse_runs(keyword@, SEPARATOR),
{
    let n = keyword.unicode_len();
    let mut out = String::new();
    let mut previous_was_separator = false;
    let mut i: usize = 0;
    while i < n
        invariant
            n == keyword@.len(),
            i <= n,
            out@ == collapse_runs(keyword@.subrange(0, i as int), SEPARATOR),
            previous_was_separator == (i > 0 && keyword@[i - 1] == SEPARATOR),
        decreases n - i,
    {
        let c = keyword.get_char(i);
        let prefix = Ghost(keyword@.subrange(0, i + 1));
        assert(prefix@.drop_last() =~= keyword@.subrange(0, i as int));
        if !(c == SEPARATOR && previous_was_separator) {
            out.append(keyword.substring_char(i, i + 1));
            assert(out@ =~= collapse_runs(prefix@, SEPARATOR));
        }
        previous_was_separator = c == SEPARATOR;
        i += 1;
    }
    assert(keyword@.subrange(0, n as int) =~= keyword@);
    out
}

/// Index of the first `c` in `s` at or after `i`, or `s.len()` when there is none.
pub open spec fn first_index_of(s: Seq<char>, c: char, i: int) -> int
    decreases s.len() - i,
{
    if i >= s.len() {
        s.len() as int
    } else if s[i] == c {
        i
    } else {
        first_index_of(s, c, i + 1)
    }
}

/// `s` up to, and without, its first `c`; all of `s` when it holds no `c`.
pub open spec fn before_first(s: Seq<char>, c: char) -> Seq<char> {
    s.subrange(0, first_index_of(s, c, 0))
}

/// `s` with the occurrences of `p` removed, scanning from the left as `str::replace` does.
pub open spec fn remove_all(s: Seq<char>, p: Seq<char>) -> Seq<char>
    decreases s.len(),
{
    if s.len() == 0 || p.len() == 0 {
        s
    } else if has_prefix(s, p) {
        remove_all(s.subrange(p.len() as int, s.len() as int), p)
    } else {
        seq![s[0]] + remove_all(s.drop_first(), p)
    }
}

/// The suffix that marks a retired identifier in the registry.
pub open spec fn retired_marker() -> Seq<char> {
    seq![' ', '(', 'R', 'e', 't', 'i', 'r', 'e', 'd', ')']
}

/// The normalized form of an identifier's full name: cut at the first colon,
/// then with the retirement marker removed.
pub open spec fn normalized_name(full: Seq<char>) -> Seq<char> {
    remove_all(before_first(full, ':'), retired_marker())
}

/// The position of the first `c` in `s`, or its length when it holds none.
pub fn find_char(s: &str, c: char) -> (r: usize)
    ensures
        r == first_index_of(s@, c, 0),
        r <= s@.len(),
{
    let n = s.unicode_len();
    let mut i: usize = 0;
    while i < n
        invariant
            n == s@.len(),
            i <= n,
            first_index_of(s@, c, 0) == first_index_of(s@, c, i as int),
        decreases n - i,
    {
        if s.get_char(i) == c {
            return i;
        }
        i += 1;
    }
    i
}

/// Removes every occurrence of `p` from `s`, scanning from the left.
pub fn remove_occurrences(s: &str, p: &str) -> (r: String)
    ensures
        r@ == remove_all(s@, p@),
{
    let n = s.unicode_len();
    let m = p.unicode_len();
    let mut out = String::new();
    if m == 0 {
        out.append(s);
        return out;
    }
    assert(out@ + remove_all(s@.subrange(0, n as int), p@) =~= remove_all(s@, p@)) by {
        assert(s@.subrange(0, n as int) =~= s@);
    }
    let mut i: usize = 0;
    while i < n
        invariant
            n == s@.len(),
            m == p@.len(),
            m > 0,
            i <= n,
            out@ + remove_all(s@.subrange(i as int, n as int), p@) == remove_all(s@, p@),
        decreases n - i,
    {
        let rest = s.substring_char(i, n);
        if starts_with(rest, p) {
            assert(rest@.subrange(m as int, rest@.len() as int) =~= s@.subrange(i + m, n as int));
            i += m;
        } else {
            assert(rest@.drop_first() =~= s@.subrange(i + 1, n as int));
            let ghost before = out@;
            out.append(s.substring_char(i, i + 1));
            assert(out@ =~= before + seq![rest@[0]]);
            assert(before + (seq![rest@[0]] + remove_all(rest@.drop_first(), p@)) =~= out@
                + remove_all(s@.subrange(i + 1, n as int), p@));
            i += 1;
        }
    }
    assert(out@ + remove_all(s@.subrange(n as int, n as int), p@) =~= out@);
    out
}

/// True when the group half or the element half of `tag`, as written in
/// `"(gggg,eeee)"`, holds the wildcard `x`.
pub open spec fn is_range_tag_text(tag: Seq<char>) -> bool {
    exists|i: int| (1 <= i < 5 || 6 <= i < 10) && i < tag.len() && tag[i] == 'x'
}

/// True when `c` may stand in a half of a tag: a hexadecimal digit or the wildcard `x`.
pub open spec fn is_tag_digit(c: char) -> bool {
    ('0' <= c <= '9') || ('a' <= c <= 'f') || ('A' <= c <= 'F') || c == 'x'
}

/// True when `tag` reads `"(gggg,eeee)"` with four tag digits in each half.
pub open spec fn is_tag_text(tag: Seq<char>) -> bool {
    &&& tag.len() == 11
    &&& tag[0] == '('
    &&& tag[5] == ','
    &&& tag[10] == ')'
    &&& forall|i: int| (1 <= i < 5 || 6 <= i < 10) ==> is_tag_digit(#[trigger] tag[i])
}

/// True when `tag` denotes a range of tags rather than a single one.
pub fn is_range_tag(tag: &str) -> (r: bool)
    ensures
        r == is_range_tag_text(tag@),
{
    let n = tag.unicode_len();
    let mut i: usize = 1;
    while i < 10 && i < n
        invariant
            n == tag@.len(),
            1 <= i <= 10,
            forall|j: int| (1 <= j < 5 || 6 <= j < 10) && j < i && j < n ==> tag@[j] != 'x',
        decreases 10 - i,
    {
        if i != 5 && tag.get_char(i) == 'x' {
            return true;
        }
        i += 1;
    }
    false
}

/// Normalizes the full name of a unique identifier: everything from the first
/// colon on is cut off, then every " (Retired)" is removed.
pub fn normalize_name(full: &str) -> (r: String)
    ensures
        r@ == normalized_name(full@),
{
    let k = find_char(full, ':');
    let head = full.substring_char(0, k);
    proof {
        reveal_strlit(" (Retired)");
    }
    assert(" (Retired)"@ =~= retired_marker());
    remove_occurrences(head, " (Retired)")
}

} // verus!
