//! Splitting and trimming of header texts, and sorted sets of strings.

use vstd::prelude::*;
use crate::text::{chars_of, string_from_range};
use crate::params::{seq_lt, chars_lt, lemma_seq_lt_transitive};

verus! {

broadcast use vstd::seq::group_seq_axioms;

/// Whether a character has the Unicode `White_Space` property, as `char::is_whitespace` reads it.
pub open spec fn is_white_space(c: char) -> bool {
    let u = c as u32;
    (0x09 <= u <= 0x0d) || u == 0x20 || u == 0x85 || u == 0xa0 || u == 0x1680 || (0x2000 <= u
        <= 0x200a) || u == 0x2028 || u == 0x2029 || u == 0x202f || u == 0x205f || u == 0x3000
}

/// Whether a character is white space.
pub fn white_space(c: char) -> (res: bool)
    ensures
        res == is_white_space(c),
{
    let u = c as u32;
    (0x09 <= u && u <= 0x0d) || u == 0x20 || u == 0x85 || u == 0xa0 || u == 0x1680 || (0x2000 <= u
        && u <= 0x200a) || u == 0x2028 || u == 0x2029 || u == 0x202f || u == 0x205f || u == 0x3000
}

/// The number of leading white-space characters.
pub open spec fn leading_ws(s: Seq<char>) -> nat
    decreases s.len(),
{
    if s.len() > 0 && is_white_space(s[0]) {
        1 + leading_ws(s.skip(1))
    } else {
        0
    }
}

/// The number of trailing white-space characters.
pub open spec fn trailing_ws(s: Seq<char>) -> nat
    decreases s.len(),
{
    if s.len() > 0 && is_white_space(s.last()) {
        1 + trailing_ws(s.drop_last())
    } else {
        0
    }
}

/// A text without its leading and trailing white space, as `str::trim` gives it.
pub open spec fn trim(s: Seq<char>) -> Seq<char> {
    let t = s.skip(leading_ws(s) as int);
    t.take(t.len() - trailing_ws(t))
}

/// The pieces of a text between commas, as `str::split(',')` gives them: a text without commas
/// is one piece, the empty text included.
pub open spec fn split_commas(s: Seq<char>) -> Seq<Seq<char>>
    decreases s.len(),
{
    if s.len() == 0 {
        seq![Seq::empty()]
    } else {
        let rest = split_commas(s.drop_last());
        if s.last() == ',' {
            rest.push(Seq::empty())
        } else {
            rest.update(rest.len() - 1, rest.last().push(s.last()))
        }
    }
}

proof fn lemma_leading_ws_bound(s: Seq<char>)
    ensures
        leading_ws(s) <= s.len(),
        forall|k: int| 0 <= k < leading_ws(s) ==> is_white_space(#[trigger] s[k]),
        leading_ws(s) < s.len() ==> !is_white_space(s[leading_ws(s) as int]),
    decreases s.len(),
{
    if s.len() > 0 && is_white_space(s[0]) {
        lemma_leading_ws_bound(s.skip(1));
        assert forall|k: int| 0 <= k < leading_ws(s) implies is_white_space(#[trigger] s[k]) by {
            if k > 0 {
                assert(s[k] == s.skip(1)[k - 1]);
            }
        }
    }
}

proof fn lemma_trailing_ws_bound(s: Seq<char>)
    ensures
        trailing_ws(s) <= s.len(),
    decreases s.len(),
{
    if s.len() > 0 && is_white_space(s.last()) {
        lemma_trailing_ws_bound(s.drop_last());
    }
}

proof fn lemma_leading_ws_step(s: Seq<char>, i: int)
    requires
        0 <= i < s.len(),
        forall|k: int| 0 <= k < i ==> is_white_space(#[trigger] s[k]),
        is_white_space(s[i]),
    ensures
        leading_ws(s) >= i + 1,
    decreases i,
{
    if i > 0 {
        assert forall|k: int| 0 <= k < i - 1 implies is_white_space(#[trigger] s.skip(1)[k]) by {
            assert(s.skip(1)[k] == s[k + 1]);
        }
        lemma_leading_ws_step(s.skip(1), i - 1);
    }
}

proof fn lemma_leading_ws_exact(s: Seq<char>, i: int)
    requires
        0 <= i <= s.len(),
        forall|k: int| 0 <= k < i ==> is_white_space(#[trigger] s[k]),
        i == s.len() || !is_white_space(s[i]),
    ensures
        leading_ws(s) == i,
    decreases i,
{
    if i > 0 {
        assert forall|k: int| 0 <= k < i - 1 implies is_white_space(#[trigger] s.skip(1)[k]) by {
            assert(s.skip(1)[k] == s[k + 1]);
        }
        if i < s.len() {
            assert(s.skip(1)[i - 1] == s[i]);
        }
        lemma_leading_ws_exact(s.skip(1), i - 1);
    }
}

proof fn lemma_trailing_ws_exact(s: Seq<char>, j: int)
    requires
        0 <= j <= s.len(),
        forall|k: int| j <= k < s.len() ==> is_white_space(#[trigger] s[k]),
        j == 0 || !is_white_space(s[j - 1]),
    ensures
        trailing_ws(s) == s.len() - j,
    decreases s.len() - j,
{
    if j < s.len() {
        let t = s.drop_last();
        assert forall|k: int| j <= k < t.len() implies is_white_space(#[trigger] t[k]) by {
            assert(t[k] == s[k]);
        }
        if j > 0 {
            assert(t[j - 1] == s[j - 1]);
        }
        lemma_trailing_ws_exact(t, j);
    }
}

/// Trims the characters `cs[start..end]`, giving the bounds of the trimmed text.
fn trim_bounds(cs: &[char], start: usize, end: usize) -> (res: (usize, usize))
    requires
        start <= end <= cs@.len(),
    ensures
        start <= res.0 <= res.1 <= end,
        cs@.subrange(res.0 as int, res.1 as int) == trim(cs@.subrange(start as int, end as int)),
{
    let ghost s = cs@.subrange(start as int, end as int);
    let mut a = start;
    while a < end && white_space(cs[a])
        invariant
            start <= a <= end <= cs@.len(),
            s == cs@.subrange(start as int, end as int),
            forall|k: int| 0 <= k < a - start ==> is_white_space(#[trigger] s[k]),
        decreases end - a,
    {
        assert(s[a - start] == cs@[a as int]);
        a += 1;
    }
    proof {
        if a < end {
            assert(s[a - start] == cs@[a as int]);
        }
        lemma_leading_ws_exact(s, a - start);
    }
    let ghost t = s.skip(a - start);
    assert(t =~= cs@.subrange(a as int, end as int));
    let mut b = end;
    while b > a && white_space(cs[b - 1])
        invariant
            start <= a <= b <= end <= cs@.len(),
            t == cs@.subrange(a as int, end as int),
            forall|k: int| b - a <= k < t.len() ==> is_white_space(#[trigger] t[k]),
        decreases b - a,
    {
        assert(t[b - 1 - a] == cs@[b - 1]);
        b -= 1;
    }
    proof {
        if b > a {
            assert(t[b - 1 - a] == cs@[b - 1]);
        }
        lemma_trailing_ws_exact(t, b - a);
        assert(cs@.subrange(a as int, b as int) =~= t.take(t.len() - trailing_ws(t)));
    }
    (a, b)
}

/// Trims a string, as `str::trim` does.
pub fn trim_str(s: &str) -> (res: String)
    ensures
        res@ == trim(s@),
{
    let cs = chars_of(s);
    assert(cs@.subrange(0, cs@.len() as int) =~= cs@);
    let (a, b) = trim_bounds(cs.as_slice(), 0, cs.len());
    string_from_range(cs.as_slice(), a, b)
}

/// The models of a list of strings.
pub open spec fn strings_view(v: Seq<String>) -> Seq<Seq<char>> {
    v.map_values(|x: String| x@)
}

/// Each text of a list, trimmed.
pub open spec fn trimmed(v: Seq<Seq<char>>) -> Seq<Seq<char>> {
    v.map_values(|p: Seq<char>| trim(p))
}

/// Splits a text at its commas and trims each piece.
pub fn split_and_trim(s: &str) -> (res: Vec<String>)
    ensures
        strings_view(res@) == trimmed(split_commas(s@)),
{
    let cs = chars_of(s);
    let mut res: Vec<String> = Vec::new();
    let mut piece_start: usize = 0;
    let mut i: usize = 0;
    assert(cs@.take(0) =~= Seq::<char>::empty());
    assert(cs@.subrange(0, 0) =~= Seq::<char>::empty());
    while i < cs.len()
        invariant
            cs@ == s@,
            piece_start <= i <= cs@.len(),
            split_commas(cs@.take(i as int)).len() == res@.len() + 1,
            forall|k: int|
                0 <= k < res@.len() ==> #[trigger] res@[k]@ == trim(split_commas(cs@.take(i as int))[k]),
            split_commas(cs@.take(i as int)).last() == cs@.subrange(piece_start as int, i as int),
        decreases cs@.len() - i,
    {
        let ghost prev = split_commas(cs@.take(i as int));
        assert(cs@.take(i + 1).drop_last() =~= cs@.take(i as int));
        if cs[i] == ',' {
            let (a, b) = trim_bounds(cs.as_slice(), piece_start, i);
            let piece = string_from_range(cs.as_slice(), a, b);
            res.push(piece);
            piece_start = i + 1;
        }
        i += 1;
        proof {
            let cur = split_commas(cs@.take(i as int));
            if cs@[i - 1] == ',' {
                assert(cur == prev.push(Seq::<char>::empty()));
                assert(cs@.subrange(piece_start as int, i as int) =~= Seq::<char>::empty());
            } else {
                assert(cur == prev.update(prev.len() - 1, prev.last().push(cs@[i - 1])));
                assert(cs@.subrange(piece_start as int, i as int) =~= cs@.subrange(
                    piece_start as int,
                    i - 1,
                ).push(cs@[i - 1]));
            }
        }
    }
    let (a, b) = trim_bounds(cs.as_slice(), piece_start, cs.len());
    let piece = string_from_range(cs.as_slice(), a, b);
    res.push(piece);
    assert(cs@.take(cs@.len() as int) =~= cs@);
    assert(strings_view(res@) =~= trimmed(split_commas(s@)));
    res
}

/// Whether a list of strings is sorted in strictly increasing order, so that no string occurs
/// twice.
pub open spec fn strictly_sorted(v: Seq<String>) -> bool {
    forall|i: int, j: int| 0 <= i < j < v.len() ==> seq_lt(#[trigger] v[i]@, #[trigger] v[j]@)
}

/// The strings of a list, as a set of character sequences.
pub open spec fn string_set(v: Seq<String>) -> Set<Seq<char>> {
    Set::new(|x: Seq<char>| exists|i: int| 0 <= i < v.len() && #[trigger] v[i]@ == x)
}

/// Inserts a string into a strictly sorted list, unless it is already there.
pub fn insert_sorted(v: &mut Vec<String>, s: String)
    requires
        strictly_sorted(old(v)@),
    ensures
        strictly_sorted(final(v)@),
        string_set(final(v)@) == string_set(old(v)@).insert(s@),
{
    let key = chars_of(s.as_str());
    let mut i: usize = 0;
    while i < v.len()
        invariant
            i <= v@.len(),
            key@ == s@,
            strictly_sorted(v@),
            forall|j: int| 0 <= j < i ==> seq_lt(#[trigger] v@[j]@, s@),
        ensures
            i <= v@.len(),
            key@ == s@,
            strictly_sorted(v@),
            forall|j: int| 0 <= j < i ==> seq_lt(#[trigger] v@[j]@, s@),
            i == v@.len() || seq_lt(s@, v@[i as int]@),
        decreases v@.len() - i,
    {
        let cur = chars_of(v[i].as_str());
        if chars_lt(cur.as_slice(), key.as_slice()) {
            i += 1;
        } else {
            if !chars_lt(key.as_slice(), cur.as_slice()) {
                proof {
                    lemma_seq_lt_total(v@[i as int]@, s@);
                    assert(string_set(v@) =~= string_set(v@).insert(s@)) by {
                        assert(v@[i as int]@ == s@);
                    }
                }
                return;
            }
            break;
        }
    }
    let ghost before = v@;
    v.insert(i, s);
    proof {
        assert forall|a: int, b: int| 0 <= a < b < v@.len() implies seq_lt(
            #[trigger] v@[a]@,
            #[trigger] v@[b]@,
        ) by {
            if b < i {
                assert(v@[a] == before[a] && v@[b] == before[b]);
            } else if b == i {
                assert(v@[a] == before[a]);
            } else if a == i {
                assert(v@[b] == before[b - 1]);
                if b - 1 > i {
                    assert(seq_lt(before[i as int]@, before[b - 1]@));
                    lemma_seq_lt_transitive(s@, before[i as int]@, before[b - 1]@);
                }
            } else if a < i {
                assert(v@[a] == before[a] && v@[b] == before[b - 1]);
                if b - 1 >= i {
                    assert(seq_lt(before[a]@, s@));
                }
            } else {
                assert(v@[a] == before[a - 1] && v@[b] == before[b - 1]);
            }
        }
        assert forall|x: Seq<char>| string_set(v@).contains(x) <==> string_set(before).insert(s@).contains(
            x,
        ) by {
            if string_set(v@).contains(x) {
                let j = choose|j: int| 0 <= j < v@.len() && #[trigger] v@[j]@ == x;
                if j < i {
                    assert(v@[j] == before[j]);
                } else if j > i {
                    assert(v@[j] == before[j - 1]);
                }
            }
            if string_set(before).contains(x) {
                let j = choose|j: int| 0 <= j < before.len() && #[trigger] before[j]@ == x;
                if j < i {
                    assert(v@[j] == before[j]);
                } else {
                    assert(v@[j + 1] == before[j]);
                }
            }
            if x == s@ {
                assert(v@[i as int]@ == x);
            }
        }
        assert(string_set(v@) =~= string_set(before).insert(s@));
    }
}

pub proof fn lemma_seq_lt_total(a: Seq<char>, b: Seq<char>)
    requires
        !seq_lt(a, b),
        !seq_lt(b, a),
    ensures
        a == b,
    decreases a.len(),
{
    if a.len() > 0 && b.len() > 0 {
        if a[0] == b[0] {
            lemma_seq_lt_total(a.skip(1), b.skip(1));
            assert forall|k: int| 0 <= k < a.len() implies a[k] == b[k] by {
                if k > 0 {
                    assert(a[k] == a.skip(1)[k - 1]);
                    assert(b[k] == b.skip(1)[k - 1]);
                }
            }
            assert(a =~= b);
        }
    } else if a.len() == 0 && b.len() == 0 {
        assert(a =~= b);
    }
}

} // verus!
