//! Character-level helpers on which the line protocol is built.
//!
//! Every function here is stated over the view of a string, a `Seq<char>`.
use vstd::prelude::*;
use vstd::string::*;

verus! {

/// The characters that trimming removes: the code points that Unicode marks
/// as `White_Space`.
pub open spec fn is_space(c: char) -> bool {
    ||| c == ' '
    ||| '\u{9}' <= c <= '\u{d}'
    ||| c == '\u{85}'
    ||| c == '\u{a0}'
    ||| c == '\u{1680}'
    ||| '\u{2000}' <= c <= '\u{200a}'
    ||| c == '\u{2028}'
    ||| c == '\u{2029}'
    ||| c == '\u{202f}'
    ||| c == '\u{205f}'
    ||| c == '\u{3000}'
}

/// `s` without its leading white space.
pub open spec fn trim_front(s: Seq<char>) -> Seq<char>
    decreases s.len(),
{
    if s.len() > 0 && is_space(s.first()) {
        trim_front(s.drop_first())
    } else {
        s
    }
}

/// `s` without its trailing white space.
pub open spec fn trim_back(s: Seq<char>) -> Seq<char>
    decreases s.len(),
{
    if s.len() > 0 && is_space(s.last()) {
        trim_back(s.drop_last())
    } else {
        s
    }
}

/// `s` without leading and trailing white space.
pub open spec fn trimmed(s: Seq<char>) -> Seq<char> {
    trim_back(trim_front(s))
}

/// Whether `c` is white space.
pub fn is_whitespace(c: char) -> (r: bool)
    ensures
        r == is_space(c),
{
    c == ' ' || ('\u{9}' <= c && c <= '\u{d}') || c == '\u{85}' || c == '\u{a0}' || c == '\u{1680}'
        || ('\u{2000}' <= c && c <= '\u{200a}') || c == '\u{2028}' || c == '\u{2029}' || c
        == '\u{202f}' || c == '\u{205f}' || c == '\u{3000}'
}

/// The characters of `s`, one element each.
pub fn chars_of(s: &str) -> (v: Vec<char>)
    ensures
        v@ == s@,
{
    let mut v: Vec<char> = Vec::new();
    for c in it: s.chars()
        invariant
            v@ == it.seq().take(it.index()),
            it.seq() == s@,
    {
        v.push(c);
    }
    v
}

/// Whether two strings hold the same characters.
pub fn str_eq(a: &str, b: &str) -> (r: bool)
    ensures
        r == (a@ == b@),
{
    let x = chars_of(a);
    let y = chars_of(b);
    if x.len() != y.len() {
        return false;
    }
    let mut i: usize = 0;
    while i < x.len()
        invariant
            i <= x.len(),
            x.len() == y.len(),
            x@ == a@,
            y@ == b@,
            forall|k: int| 0 <= k < i ==> x@[k] == y@[k],
        decreases x.len() - i,
    {
        if x[i] != y[i] {
            return false;
        }
        i += 1;
    }
    assert(a@ =~= b@);
    true
}

/// `s` without leading and trailing white space.
pub fn trim(s: &str) -> (r: &str)
    ensures
        r@ == trimmed(s@),
{
    let v = chars_of(s);
    let n = v.len();
    let mut start: usize = 0;
    assert(s@.subrange(0, n as int) =~= s@);
    while start < n && is_whitespace(v[start])
        invariant
            start <= n,
            n == v.len(),
            v@ == s@,
            trim_front(s@) == trim_front(s@.subrange(start as int, n as int)),
        decreases n - start,
    {
        assert(s@.subrange(start as int, n as int).drop_first() =~= s@.subrange(
            start as int + 1,
            n as int,
        ));
        start += 1;
    }
    assert(trim_front(s@) == s@.subrange(start as int, n as int));
    let mut end: usize = n;
    while end > start && is_whitespace(v[end - 1])
        invariant
            start <= end <= n,
            n == v.len(),
            v@ == s@,
            trimmed(s@) == trim_back(s@.subrange(start as int, end as int)),
        decreases end,
    {
        assert(s@.subrange(start as int, end as int).drop_last() =~= s@.subrange(
            start as int,
            end as int - 1,
        ));
        end -= 1;
    }
    s.substring_char(start, end)
}

/// `s` without one trailing line feed, if it ends in one.
pub open spec fn without_final_newline(s: Seq<char>) -> Seq<char> {
    if s.len() > 0 && s.last() == '\n' {
        s.drop_last()
    } else {
        s
    }
}

/// `s` without one trailing line feed, if it ends in one.
pub fn strip_final_newline(s: &str) -> (r: &str)
    ensures
        r@ == without_final_newline(s@),
{
    let v = chars_of(s);
    let n = v.len();
    if n > 0 && v[n - 1] == '\n' {
        s.substring_char(0, n - 1)
    } else {
        assert(s@.subrange(0, n as int) =~= s@);
        s.substring_char(0, n)
    }
}

/// Position of the first occurrence of `c` in `s`, or the length of `s` where
/// `c` does not occur.
pub open spec fn first_index_of<A>(s: Seq<A>, c: A) -> int
    decreases s.len(),
{
    if s.len() == 0 || s.first() == c {
        0
    } else {
        1 + first_index_of(s.drop_first(), c)
    }
}

/// `first_index_of` is the least position that holds `c`.
pub proof fn lemma_first_index_of<A>(s: Seq<A>, c: A)
    ensures
        0 <= first_index_of(s, c) <= s.len(),
        forall|i: int| 0 <= i < first_index_of(s, c) ==> s[i] != c,
        first_index_of(s, c) < s.len() ==> s[first_index_of(s, c)] == c,
    decreases s.len(),
{
    if s.len() == 0 || s.first() == c {
    } else {
        let rest = s.drop_first();
        lemma_first_index_of(rest, c);
        assert forall|i: int| 0 <= i < first_index_of(s, c) implies s[i] != c by {
            if i > 0 {
                assert(s[i] == rest[i - 1]);
            }
        }
    }
}

/// A position that holds `c` and has no `c` before it is the first index.
pub proof fn lemma_first_index_of_unique<A>(s: Seq<A>, c: A, k: int)
    requires
        0 <= k <= s.len(),
        forall|i: int| 0 <= i < k ==> s[i] != c,
        k < s.len() ==> s[k] == c,
    ensures
        first_index_of(s, c) == k,
{
    lemma_first_index_of(s, c);
    let f = first_index_of(s, c);
    if f < k {
        assert(s[f] != c);
    } else if k < f {
        assert(s[k] != c);
    }
}

/// The part of `s` before the first `c`.
pub open spec fn before_first(s: Seq<char>, c: char) -> Seq<char> {
    s.subrange(0, first_index_of(s, c))
}

/// The part of `s` after the first `c`; empty where `c` does not occur.
pub open spec fn after_first(s: Seq<char>, c: char) -> Seq<char> {
    if first_index_of(s, c) < s.len() {
        s.subrange(first_index_of(s, c) + 1, s.len() as int)
    } else {
        Seq::empty()
    }
}

/// Splits `s` at the first `c`: what stands before it, and what stands after.
pub fn split_at_first<'a>(s: &'a str, c: char) -> (r: (&'a str, &'a str))
    ensures
        r.0@ == before_first(s@, c),
        r.1@ == after_first(s@, c),
{
    let v = chars_of(s);
    let n = v.len();
    let mut k: usize = 0;
    while k < n && v[k] != c
        invariant
            k <= n,
            n == v.len(),
            v@ == s@,
            forall|i: int| 0 <= i < k ==> s@[i] != c,
        decreases n - k,
    {
        k += 1;
    }
    proof {
        lemma_first_index_of_unique(s@, c, k as int);
    }
    let head = s.substring_char(0, k);
    if k < n {
        (head, s.substring_char(k + 1, n))
    } else {
        let tail = s.substring_char(n, n);
        assert(tail@ =~= Seq::<char>::empty());
        (head, tail)
    }
}

/// Whether `s` ends in `suffix`.
pub open spec fn has_suffix(s: Seq<char>, suffix: Seq<char>) -> bool {
    suffix.len() <= s.len() && s.subrange(s.len() - suffix.len(), s.len() as int) == suffix
}

/// Whether `s` ends in `suffix`.
pub fn ends_with(s: &str, suffix: &str) -> (r: bool)
    ensures
        r == has_suffix(s@, suffix@),
{
    let v = chars_of(s);
    let w = chars_of(suffix);
    if w.len() > v.len() {
        return false;
    }
    let d = v.len() - w.len();
    let mut i: usize = 0;
    while i < w.len()
        invariant
            i <= w.len(),
            d + w.len() == v.len(),
            v@ == s@,
            w@ == suffix@,
            forall|k: int| 0 <= k < i ==> v@[d + k] == w@[k],
        decreases w.len() - i,
    {
        if v[d + i] != w[i] {
            assert(s@.subrange(s@.len() - suffix@.len(), s@.len() as int)[i as int] != suffix@[i as int]);
            return false;
        }
        i += 1;
    }
    assert(s@.subrange(s@.len() - suffix@.len(), s@.len() as int) =~= suffix@);
    true
}

/// The strings of `parts` in a row, with `sep` between each two.
pub open spec fn joined(parts: Seq<Seq<char>>, sep: Seq<char>) -> Seq<char>
    decreases parts.len(),
{
    if parts.len() == 0 {
        Seq::empty()
    } else if parts.len() == 1 {
        parts[0]
    } else {
        joined(parts.drop_last(), sep) + sep + parts.last()
    }
}

/// The strings of `parts` in a row, with `sep` between each two.
pub fn join(parts: &Vec<String>, sep: &str) -> (r: String)
    ensures
        r@ == joined(parts.deep_view(), sep@),
{
    let mut r = String::new();
    let mut i: usize = 0;
    while i < parts.len()
        invariant
            i <= parts.len(),
            r@ == joined(parts.deep_view().take(i as int), sep@),
        decreases parts.len() - i,
    {
        if i > 0 {
            r.append(sep);
        }
        r.append(parts[i].as_str());
        proof {
            let now = parts.deep_view().take(i as int + 1);
            assert(now.drop_last() =~= parts.deep_view().take(i as int));
            assert(now.last() == parts[i as int]@);
            if i == 0 {
                assert(r@ =~= now[0]);
            }
        }
        i += 1;
    }
    assert(parts.deep_view().take(parts.len() as int) =~= parts.deep_view());
    r
}

/// Position of the first `c` in `v` at or after `start`, or the length of
/// `v` where there is none.
pub(crate) fn find_from(v: &Vec<char>, start: usize, c: char) -> (k: usize)
    requires
        start <= v.len(),
    ensures
        start <= k <= v.len(),
        forall|i: int| start <= i < k ==> v@[i] != c,
        k < v.len() ==> v@[k as int] == c,
        k - start == first_index_of(v@.subrange(start as int, v.len() as int), c),
{
    let mut k: usize = start;
    while k < v.len() && v[k] != c
        invariant
            start <= k <= v.len(),
            forall|i: int| start <= i < k ==> v@[i] != c,
        decreases v.len() - k,
    {
        k += 1;
    }
    proof {
        lemma_first_index_of_unique(v@.subrange(start as int, v.len() as int), c, k - start);
    }
    k
}

/// The pieces of `s` between the occurrences of `sep`: one more piece than
/// there are occurrences.
pub open spec fn split_by(s: Seq<char>, sep: char) -> Seq<Seq<char>>
    decreases s.len(),
{
    let k = first_index_of(s, sep);
    if 0 <= k < s.len() {
        seq![s.subrange(0, k)] + split_by(s.subrange(k + 1, s.len() as int), sep)
    } else {
        seq![s]
    }
}

/// The pieces of `s` between the occurrences of `sep`.
pub fn split(s: &str, sep: char) -> (parts: Vec<String>)
    ensures
        parts.deep_view() == split_by(s@, sep),
{
    let v = chars_of(s);
    let n = v.len();
    let mut parts: Vec<String> = Vec::new();
    let mut start: usize = 0;
    assert(s@.subrange(0, n as int) =~= s@);
    assert(parts.deep_view() =~= Seq::<Seq<char>>::empty());
    loop
        invariant_except_break
            split_by(s@, sep) == parts.deep_view() + split_by(
                s@.subrange(start as int, n as int),
                sep,
            ),
        invariant
            start <= n,
            n == v.len(),
            v@ == s@,
        ensures
            parts.deep_view() == split_by(s@, sep),
        decreases n - start,
    {
        let ghost rest = s@.subrange(start as int, n as int);
        let ghost before = parts.deep_view();
        let k = find_from(&v, start, sep);
        let piece = String::from_str(s.substring_char(start, k));
        parts.push(piece);
        assert(parts.deep_view() =~= before.push(piece@));
        assert(piece@ =~= rest.subrange(0, k - start));
        if k < n {
            assert(rest.subrange(k - start + 1, rest.len() as int) =~= s@.subrange(
                k as int + 1,
                n as int,
            ));
            assert(before + (seq![piece@] + split_by(s@.subrange(k as int + 1, n as int), sep))
                =~= before.push(piece@) + split_by(s@.subrange(k as int + 1, n as int), sep));
            start = k + 1;
        } else {
            assert(rest.subrange(0, k - start) =~= rest);
            assert(before + seq![rest] =~= before.push(piece@));
            break;
        }
    }
    parts
}

/// `s` without one trailing carriage return, if it ends in one.
pub open spec fn without_final_return(s: Seq<char>) -> Seq<char> {
    if s.len() > 0 && s.last() == '\r' {
        s.drop_last()
    } else {
        s
    }
}

/// The lines of `s`. A line ends at a line feed; the line feed, and a
/// carriage return just before it, are not part of the line. What follows
/// the last line feed is a line too, unless it is empty.
pub open spec fn lines_of(s: Seq<char>) -> Seq<Seq<char>>
    decreases s.len(),
{
    let k = first_index_of(s, '\n');
    if s.len() == 0 {
        Seq::empty()
    } else if 0 <= k < s.len() {
        seq![without_final_return(s.subrange(0, k))] + lines_of(s.subrange(k + 1, s.len() as int))
    } else {
        seq![s]
    }
}

/// The lines of `s`, without their line endings.
pub fn lines(s: &str) -> (parts: Vec<String>)
    ensures
        parts.deep_view() == lines_of(s@),
{
    let v = chars_of(s);
    let n = v.len();
    let mut parts: Vec<String> = Vec::new();
    let mut start: usize = 0;
    assert(s@.subrange(0, n as int) =~= s@);
    assert(parts.deep_view() =~= Seq::<Seq<char>>::empty());
    while start < n
        invariant
            start <= n,
            n == v.len(),
            v@ == s@,
            lines_of(s@) == parts.deep_view() + lines_of(s@.subrange(start as int, n as int)),
        decreases n - start,
    {
        let ghost rest = s@.subrange(start as int, n as int);
        let ghost before = parts.deep_view();
        let k = find_from(&v, start, '\n');
        if k < n {
            let end = if k > start && v[k - 1] == '\r' {
                k - 1
            } else {
                k
            };
            let piece = String::from_str(s.substring_char(start, end));
            parts.push(piece);
            assert(parts.deep_view() =~= before.push(piece@));
            assert(rest.subrange(0, k - start) =~= s@.subrange(start as int, k as int));
            assert(piece@ =~= without_final_return(rest.subrange(0, k - start)));
            assert(rest.subrange(k - start + 1, rest.len() as int) =~= s@.subrange(
                k as int + 1,
                n as int,
            ));
            assert(before + (seq![piece@] + lines_of(s@.subrange(k as int + 1, n as int)))
                =~= before.push(piece@) + lines_of(s@.subrange(k as int + 1, n as int)));
            start = k + 1;
        } else {
            let piece = String::from_str(s.substring_char(start, n));
            parts.push(piece);
            assert(parts.deep_view() =~= before.push(piece@));
            assert(before + seq![rest] =~= before.push(piece@));
            start = n;
            assert(s@.subrange(n as int, n as int) =~= Seq::<char>::empty());
            assert(before.push(piece@) + Seq::<Seq<char>>::empty() =~= before.push(piece@));
        }
    }
    assert(s@.subrange(n as int, n as int) =~= Seq::<char>::empty());
    assert(parts.deep_view() + Seq::<Seq<char>>::empty() =~= parts.deep_view());
    parts
}

/// Whether `pattern` stands somewhere in `s`.
pub open spec fn has_substring(s: Seq<char>, pattern: Seq<char>) -> bool {
    exists|i: int| occurs_at(s, pattern, i)
}

/// Whether `pattern` stands in `s` at position `i`.
pub open spec fn occurs_at(s: Seq<char>, pattern: Seq<char>, i: int) -> bool {
    0 <= i && i + pattern.len() <= s.len() && s.subrange(i, i + pattern.len()) == pattern
}

fn matches_at(v: &Vec<char>, w: &Vec<char>, i: usize) -> (r: bool)
    requires
        i + w.len() <= v.len(),
    ensures
        r == occurs_at(v@, w@, i as int),
{
    let mut j: usize = 0;
    while j < w.len()
        invariant
            j <= w.len(),
            i + w.len() <= v.len(),
            forall|k: int| 0 <= k < j ==> v@[i + k] == w@[k],
        decreases w.len() - j,
    {
        if v[i + j] != w[j] {
            assert(v@.subrange(i as int, i + w.len())[j as int] != w@[j as int]);
            return false;
        }
        j += 1;
    }
    assert(v@.subrange(i as int, i + w.len()) =~= w@);
    true
}

/// Whether `pattern` stands somewhere in `s`.
pub fn contains(s: &str, pattern: &str) -> (r: bool)
    ensures
        r == has_substring(s@, pattern@),
{
    let v = chars_of(s);
    let w = chars_of(pattern);
    if w.len() > v.len() {
        return false;
    }
    let last = v.len() - w.len();
    let mut i: usize = 0;
    loop
        invariant
            i <= last,
            last + w.len() == v.len(),
            v@ == s@,
            w@ == pattern@,
            forall|k: int| 0 <= k < i ==> !occurs_at(s@, pattern@, k),
        decreases last - i,
    {
        if matches_at(&v, &w, i) {
            return true;
        }
        if i == last {
            return false;
        }
        i += 1;
    }
}

/// Whether `list` holds a string equal to `s`.
pub fn list_contains(list: &Vec<String>, s: &str) -> (r: bool)
    ensures
        r == list.deep_view().contains(s@),
{
    let mut i: usize = 0;
    while i < list.len()
        invariant
            i <= list.len(),
            forall|k: int| 0 <= k < i ==> list.deep_view()[k] != s@,
        decreases list.len() - i,
    {
        if str_eq(list[i].as_str(), s) {
            assert(list.deep_view()[i as int] == s@);
            return true;
        }
        i += 1;
    }
    false
}

/// `list` without the strings equal to `s`.
pub open spec fn without(list: Seq<Seq<char>>, s: Seq<char>) -> Seq<Seq<char>> {
    list.filter(|x: Seq<char>| x != s)
}

/// Takes the strings equal to `s` out of `list`.
pub fn remove_all(list: Vec<String>, s: &str) -> (kept: Vec<String>)
    ensures
        kept.deep_view() == without(list.deep_view(), s@),
{
    let ghost all = list.deep_view();
    let ghost keep = |x: Seq<char>| x != s@;
    let mut kept: Vec<String> = Vec::new();
    let mut list = list;
    let mut i: usize = 0;
    proof {
        reveal(Seq::filter);
        assert(all.take(0) =~= Seq::<Seq<char>>::empty());
        assert(kept.deep_view() =~= Seq::<Seq<char>>::empty());
    }
    while i < list.len()
        invariant
            i <= list.len(),
            all.len() == list.len(),
            forall|k: int| i <= k < list.len() ==> list.deep_view()[k] == all[k],
            keep == |x: Seq<char>| x != s@,
            kept.deep_view() == all.take(i as int).filter(keep),
        decreases list.len() - i,
    {
        proof {
            reveal(Seq::filter);
            assert(all.take(i as int + 1).drop_last() =~= all.take(i as int));
            assert(list.deep_view()[i as int] == all[i as int]);
        }
        let ghost before = kept.deep_view();
        let ghost old_list = list.deep_view();
        if !str_eq(list[i].as_str(), s) {
            let mut item = String::new();
            core::mem::swap(&mut item, &mut list[i]);
            assert(forall|k: int| i < k < list.len() ==> list.deep_view()[k] == old_list[k]);
            kept.push(item);
            assert(kept.deep_view() =~= before.push(all[i as int]));
        }
        i += 1;
    }
    assert(all.take(all.len() as int) =~= all);
    kept
}

} // verus!
