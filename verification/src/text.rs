//! Character-level helpers on strings: comparison, Unicode whitespace, trimming and
//! splitting into path components.

use vstd::prelude::*;

verus! {

/// Whether `c` has the Unicode `White_Space` property.
pub open spec fn spec_is_whitespace(c: char) -> bool {
    ||| ('\u{9}' <= c && c <= '\u{d}')
    ||| c == ' '
    ||| c == '\u{85}'
    ||| c == '\u{a0}'
    ||| c == '\u{1680}'
    ||| ('\u{2000}' <= c && c <= '\u{200a}')
    ||| c == '\u{2028}'
    ||| c == '\u{2029}'
    ||| c == '\u{202f}'
    ||| c == '\u{205f}'
    ||| c == '\u{3000}'
}

/// Whether the code point `u` has the Unicode `White_Space` property, as listed in
/// the Unicode Character Database (`PropList.txt`): the ASCII tab, line feed, line
/// tabulation, form feed, carriage return and space; next line; no-break space; Ogham
/// space mark; en quad to hair space; line separator; paragraph separator; narrow
/// no-break space; medium mathematical space; ideographic space.
pub open spec fn white_space_code_point(u: u32) -> bool {
    u == 0x09 || u == 0x0a || u == 0x0b || u == 0x0c || u == 0x0d || u == 0x20 || u == 0x85 || u == 0xa0
        || u == 0x1680 || (0x2000 <= u && u <= 0x200a) || u == 0x2028 || u == 0x2029 || u == 0x202f
        || u == 0x205f || u == 0x3000
}

/// Whitespace is exactly what has the Unicode `White_Space` property; in particular
/// tab, line feed, carriage return and space are whitespace, and a letter is not.
pub proof fn lemma_whitespace_is_white_space_property(c: char)
    ensures
        spec_is_whitespace(c) <==> white_space_code_point(c as u32),
        c == '\t' || c == '\n' || c == '\r' || c == ' ' ==> spec_is_whitespace(c),
        'a' <= c && c <= 'z' ==> !spec_is_whitespace(c),
{
}

/// Whether `c` has the Unicode `White_Space` property.
pub fn is_whitespace(c: char) -> (r: bool)
    ensures
        r == spec_is_whitespace(c),
{
    ('\u{9}' <= c && c <= '\u{d}') || c == ' ' || c == '\u{85}' || c == '\u{a0}' || c == '\u{1680}'
        || ('\u{2000}' <= c && c <= '\u{200a}') || c == '\u{2028}' || c == '\u{2029}'
        || c == '\u{202f}' || c == '\u{205f}' || c == '\u{3000}'
}

/// Whether two strings hold the same characters.
pub fn str_eq(a: &str, b: &str) -> (r: bool)
    ensures
        r == (a@ == b@),
{
    let n = a.unicode_len();
    if n != b.unicode_len() {
        return false;
    }
    let mut i: usize = 0;
    while i < n
        invariant
            n == a@.len(),
            n == b@.len(),
            i <= n,
            forall|j: int| 0 <= j < i ==> a@[j] == b@[j],
        decreases n - i,
    {
        if a.get_char(i) != b.get_char(i) {
            return false;
        }
        i = i + 1;
    }
    assert(a@ =~= b@);
    true
}

/// Whether `c` is stripped from both ends of a destination: whitespace or `/`.
pub open spec fn is_trimmed(c: char) -> bool {
    spec_is_whitespace(c) || c == '/'
}

/// `s` without its leading whitespace and `/`.
pub open spec fn trim_front(s: Seq<char>) -> Seq<char>
    decreases s.len(),
{
    if s.len() > 0 && is_trimmed(s[0]) {
        trim_front(s.drop_first())
    } else {
        s
    }
}

/// `s` without its trailing whitespace and `/`.
pub open spec fn trim_back(s: Seq<char>) -> Seq<char>
    decreases s.len(),
{
    if s.len() > 0 && is_trimmed(s.last()) {
        trim_back(s.drop_last())
    } else {
        s
    }
}

/// `s` without whitespace and `/` at either end.
pub open spec fn spec_trim(s: Seq<char>) -> Seq<char> {
    trim_back(trim_front(s))
}

/// Whether `c` is stripped from both ends of a destination.
pub fn is_trimmed_char(c: char) -> (r: bool)
    ensures
        r == is_trimmed(c),
{
    is_whitespace(c) || c == '/'
}

proof fn lemma_trim_front_step(s: Seq<char>, i: int)
    requires
        0 <= i < s.len(),
        is_trimmed(s[i]),
    ensures
        trim_front(s.subrange(i, s.len() as int)) == trim_front(s.subrange(i + 1, s.len() as int)),
{
    assert(s.subrange(i, s.len() as int).drop_first() =~= s.subrange(i + 1, s.len() as int));
}

proof fn lemma_trim_back_step(s: Seq<char>, i: int, j: int)
    requires
        0 <= i < j <= s.len(),
        is_trimmed(s[j - 1]),
    ensures
        trim_back(s.subrange(i, j)) == trim_back(s.subrange(i, j - 1)),
{
    assert(s.subrange(i, j).drop_last() =~= s.subrange(i, j - 1));
}

/// `s` without whitespace and `/` at either end.
pub fn trim_destination(s: &str) -> (r: String)
    ensures
        r@ == spec_trim(s@),
{
    let n = s.unicode_len();
    let mut start: usize = 0;
    proof {
        assert(s@.subrange(0, n as int) =~= s@);
    }
    while start < n && is_trimmed_char(s.get_char(start))
        invariant
            n == s@.len(),
            start <= n,
            trim_front(s@) == trim_front(s@.subrange(start as int, n as int)),
        decreases n - start,
    {
        proof {
            lemma_trim_front_step(s@, start as int);
        }
        start = start + 1;
    }
    proof {
        assert(s@.subrange(0, n as int) =~= s@);
        let rest = s@.subrange(start as int, n as int);
        if start < n {
            assert(rest[0] == s@[start as int]);
        } else {
            assert(rest.len() == 0);
        }
        assert(trim_front(s@) == rest);
    }
    let mut end: usize = n;
    while end > start && is_trimmed_char(s.get_char(end - 1))
        invariant
            n == s@.len(),
            start <= end <= n,
            trim_back(s@.subrange(start as int, n as int)) == trim_back(s@.subrange(start as int, end as int)),
        decreases end - start,
    {
        proof {
            lemma_trim_back_step(s@, start as int, end as int);
        }
        end = end - 1;
    }
    proof {
        let kept = s@.subrange(start as int, end as int);
        if end > start {
            assert(kept.last() == s@[end - 1]);
        } else {
            assert(kept.len() == 0);
        }
        assert(trim_back(kept) == kept);
    }
    s.substring_char(start, end).to_owned()
}

/// Whether `c` separates path components: `/` or `\\`.
pub open spec fn is_separator(c: char) -> bool {
    c == '/' || c == '\\'
}

/// The components of `s` between separators, from left to right; a string without a
/// separator is a single component, and two adjacent separators enclose an empty one.
pub open spec fn spec_components(s: Seq<char>) -> Seq<Seq<char>>
    decreases s.len(),
{
    if s.len() == 0 {
        seq![Seq::<char>::empty()]
    } else {
        let before = spec_components(s.drop_last());
        if is_separator(s.last()) {
            before.push(Seq::<char>::empty())
        } else {
            before.update(before.len() - 1, before.last().push(s.last()))
        }
    }
}

proof fn lemma_components_nonempty(s: Seq<char>)
    ensures
        spec_components(s).len() >= 1,
    decreases s.len(),
{
    if s.len() > 0 {
        lemma_components_nonempty(s.drop_last());
    }
}

/// `s` without its `/` and `\\` characters.
pub open spec fn without_slashes(s: Seq<char>) -> Seq<char>
    decreases s.len(),
{
    if s.len() == 0 {
        s
    } else if s.last() == '/' || s.last() == '\\' {
        without_slashes(s.drop_last())
    } else {
        without_slashes(s.drop_last()).push(s.last())
    }
}

/// The number of `/` and `\\` characters in `s`.
pub open spec fn slash_count(s: Seq<char>) -> nat
    decreases s.len(),
{
    if s.len() == 0 {
        0
    } else if s.last() == '/' || s.last() == '\\' {
        slash_count(s.drop_last()) + 1
    } else {
        slash_count(s.drop_last())
    }
}

/// Splitting a path at its separators loses only the separators: no component holds a
/// `/` or a `\\`, the components put together in order are the path without its `/`
/// and `\\`, and there is one component more than there are separators.
pub proof fn lemma_components_split(s: Seq<char>)
    ensures
        forall|i: int, j: int| 0 <= i < spec_components(s).len() && 0 <= j < spec_components(s)[i].len()
            ==> #[trigger] spec_components(s)[i][j] != '/' && spec_components(s)[i][j] != '\\',
        spec_components(s).flatten_alt() == without_slashes(s),
        spec_components(s).len() == slash_count(s) + 1,
    decreases s.len(),
{
    if s.len() == 0 {
        let cs = spec_components(s);
        assert(cs =~= seq![Seq::<char>::empty()]);
        assert(cs.drop_last() =~= Seq::<Seq<char>>::empty());
        assert(cs.drop_last().flatten_alt() =~= Seq::<char>::empty());
        assert(cs.last() =~= Seq::<char>::empty());
        assert(cs.flatten_alt() == cs.drop_last().flatten_alt().add(cs.last()));
        assert(cs.flatten_alt() =~= Seq::<char>::empty());
    } else {
        let t = s.drop_last();
        let c = s.last();
        let before = spec_components(t);
        lemma_components_split(t);
        lemma_components_nonempty(t);
        let cs = spec_components(s);
        if is_separator(c) {
            assert(cs.drop_last() =~= before);
            assert(cs.flatten_alt() =~= before.flatten_alt());
        } else {
            let n = before.len() - 1;
            assert(cs.drop_last() =~= before.drop_last());
            assert(before.flatten_alt() == before.drop_last().flatten_alt() + before.last());
            assert(cs.flatten_alt() =~= before.flatten_alt().push(c));
            assert forall|i: int, j: int| 0 <= i < cs.len() && 0 <= j < cs[i].len()
                implies #[trigger] cs[i][j] != '/' && cs[i][j] != '\\' by {
                if i == n {
                    if j < before[n].len() {
                        assert(cs[i][j] == before[n][j]);
                    }
                } else {
                    assert(cs[i] == before[i]);
                }
            }
        }
    }
}

/// The components of `s` between separators, with their positions in `s`: each entry
/// is the start and the end of one component.
pub fn component_bounds(s: &str) -> (b: Vec<(usize, usize)>)
    ensures
        b@.len() == spec_components(s@).len(),
        forall|k: int| 0 <= k < b@.len() ==> {
            &&& #[trigger] b@[k].0 <= b@[k].1 <= s@.len()
            &&& s@.subrange(b@[k].0 as int, b@[k].1 as int) == spec_components(s@)[k]
        },
{
    let n = s.unicode_len();
    let mut bounds: Vec<(usize, usize)> = Vec::new();
    let mut start: usize = 0;
    let mut i: usize = 0;
    proof {
        assert(s@.subrange(0, 0) =~= Seq::<char>::empty());
    }
    while i < n
        invariant
            n == s@.len(),
            start <= i <= n,
            bounds@.len() + 1 == spec_components(s@.subrange(0, i as int)).len(),
            forall|k: int| 0 <= k < bounds@.len() ==> {
                &&& #[trigger] bounds@[k].0 <= bounds@[k].1 <= s@.len()
                &&& s@.subrange(bounds@[k].0 as int, bounds@[k].1 as int)
                    == spec_components(s@.subrange(0, i as int))[k]
            },
            spec_components(s@.subrange(0, i as int)).last() == s@.subrange(start as int, i as int),
        decreases n - i,
    {
        let c = s.get_char(i);
        let ghost prefix = s@.subrange(0, i as int);
        let ghost next = s@.subrange(0, i + 1);
        proof {
            assert(next.drop_last() =~= prefix);
            assert(next.last() == c);
            lemma_components_nonempty(prefix);
        }
        if c == '/' || c == '\\' {
            bounds.push((start, i));
            start = i + 1;
            proof {
                assert(s@.subrange(start as int, i + 1) =~= Seq::<char>::empty());
            }
        } else {
            proof {
                assert(s@.subrange(start as int, i + 1) =~= s@.subrange(start as int, i as int).push(c));
            }
        }
        i = i + 1;
    }
    bounds.push((start, n));
    proof {
        assert(s@.subrange(0, n as int) =~= s@);
        lemma_components_nonempty(s@);
    }
    bounds
}

} // verus!
