//! White space at the two ends of a text, and its removal.

use vstd::prelude::*;

verus! {

/// Whether `c` is white space as Unicode defines it (`White_Space`): what
/// `char::is_whitespace` tells.
pub open spec fn is_white_space(c: char) -> bool {
    let u = c as u32;
    ||| 0x09 <= u <= 0x0d
    ||| u == 0x20
    ||| u == 0x85
    ||| u == 0xa0
    ||| u == 0x1680
    ||| 0x2000 <= u <= 0x200a
    ||| u == 0x2028
    ||| u == 0x2029
    ||| u == 0x202f
    ||| u == 0x205f
    ||| u == 0x3000
}

/// `s` without the white space it begins with.
pub open spec fn trimmed_start(s: Seq<char>) -> Seq<char>
    decreases s.len(),
{
    if s.len() > 0 && is_white_space(s[0]) {
        trimmed_start(s.drop_first())
    } else {
        s
    }
}

/// `s` without the white space it ends with.
pub open spec fn trimmed_end(s: Seq<char>) -> Seq<char>
    decreases s.len(),
{
    if s.len() > 0 && is_white_space(s.last()) {
        trimmed_end(s.drop_last())
    } else {
        s
    }
}

/// `s` without the white space at either end.
pub open spec fn trimmed(s: Seq<char>) -> Seq<char> {
    trimmed_end(trimmed_start(s))
}

/// Whether every character of `s` is white space.
pub open spec fn all_white_space(s: Seq<char>) -> bool {
    forall|i: int| 0 <= i < s.len() ==> is_white_space(#[trigger] s[i])
}

/// Decides `is_white_space`.
pub fn char_is_white_space(c: char) -> (r: bool)
    ensures
        r == is_white_space(c),
{
    let u: u32 = c as u32;
    (0x09 <= u && u <= 0x0d) || u == 0x20 || u == 0x85 || u == 0xa0 || u == 0x1680 || (0x2000 <= u
        && u <= 0x200a) || u == 0x2028 || u == 0x2029 || u == 0x202f || u == 0x205f || u == 0x3000
}

/// Where white space stops at the front: `trimmed_start(s)` is `s` from `a` on
/// when all before `a` is white space and the character at `a`, if any, is not.
proof fn lemma_trimmed_start_from(s: Seq<char>, a: int)
    requires
        0 <= a <= s.len(),
        all_white_space(s.subrange(0, a)),
        a < s.len() ==> !is_white_space(s[a]),
    ensures
        trimmed_start(s) == s.subrange(a, s.len() as int),
    decreases a,
{
    if a == 0 {
        assert(s.subrange(0, s.len() as int) =~= s);
    } else {
        assert(s.subrange(0, a)[0] == s[0]);
        let t = s.drop_first();
        assert forall|i: int| 0 <= i < a - 1 implies is_white_space(
            #[trigger] t.subrange(0, a - 1)[i],
        ) by {
            assert(t.subrange(0, a - 1)[i] == s.subrange(0, a)[i + 1]);
        }
        lemma_trimmed_start_from(t, a - 1);
        assert(t.subrange(a - 1, t.len() as int) =~= s.subrange(a, s.len() as int));
    }
}

/// Where white space starts at the back: `trimmed_end(s)` is `s` up to `b`
/// when all from `b` on is white space and the character before `b`, if any,
/// is not.
proof fn lemma_trimmed_end_to(s: Seq<char>, b: int)
    requires
        0 <= b <= s.len(),
        all_white_space(s.subrange(b, s.len() as int)),
        0 < b ==> !is_white_space(s[b - 1]),
    ensures
        trimmed_end(s) == s.subrange(0, b),
    decreases s.len() - b,
{
    if b == s.len() {
        assert(s.subrange(0, s.len() as int) =~= s);
    } else {
        assert(s.subrange(b, s.len() as int)[s.len() - b - 1] == s.last());
        let t = s.drop_last();
        assert forall|i: int| 0 <= i < t.len() - b implies is_white_space(
            #[trigger] t.subrange(b, t.len() as int)[i],
        ) by {
            assert(t.subrange(b, t.len() as int)[i] == s.subrange(b, s.len() as int)[i]);
        }
        lemma_trimmed_end_to(t, b);
        assert(t.subrange(0, b) =~= s.subrange(0, b));
    }
}

/// `trimmed(s)` is the stretch of `s` between `a` and `b` when that stretch
/// neither begins nor ends with white space and all outside it is white space.
pub proof fn lemma_trimmed_between(s: Seq<char>, a: int, b: int)
    requires
        0 <= a <= b <= s.len(),
        all_white_space(s.subrange(0, a)),
        all_white_space(s.subrange(b, s.len() as int)),
        a < b ==> !is_white_space(s[a]) && !is_white_space(s[b - 1]),
    ensures
        trimmed(s) == s.subrange(a, b),
{
    if a < b {
        lemma_trimmed_start_from(s, a);
        let t = s.subrange(a, s.len() as int);
        assert(t.subrange(b - a, t.len() as int) =~= s.subrange(b, s.len() as int));
        assert(t[b - a - 1] == s[b - 1]);
        lemma_trimmed_end_to(t, b - a);
        assert(t.subrange(0, b - a) =~= s.subrange(a, b));
    } else {
        assert forall|i: int| 0 <= i < s.len() implies is_white_space(
            #[trigger] s.subrange(0, s.len() as int)[i],
        ) by {
            if i < a {
                assert(s.subrange(0, a)[i] == s[i]);
            } else {
                assert(s.subrange(b, s.len() as int)[i - b] == s[i]);
            }
        }
        lemma_trimmed_start_from(s, s.len() as int);
        assert(trimmed_start(s) =~= Seq::<char>::empty());
        assert(s.subrange(a, b) =~= Seq::<char>::empty());
    }
}

/// The stretch of `s` that `trimmed(s)` is: its two ends.
pub proof fn lemma_trimmed_bounds(s: Seq<char>) -> (bounds: (int, int))
    ensures
        0 <= bounds.0 <= bounds.1 <= s.len(),
        all_white_space(s.subrange(0, bounds.0)),
        all_white_space(s.subrange(bounds.1, s.len() as int)),
        bounds.0 < bounds.1 ==> !is_white_space(s[bounds.0]) && !is_white_space(s[bounds.1 - 1]),
        trimmed(s) == s.subrange(bounds.0, bounds.1),
{
    let a = lemma_trimmed_start_bound(s);
    let t = s.subrange(a, s.len() as int);
    let b = a + lemma_trimmed_end_bound(t);
    assert(t.subrange(b - a, t.len() as int) =~= s.subrange(b, s.len() as int));
    assert(t.subrange(0, b - a) =~= s.subrange(a, b));
    if a < s.len() {
        assert(t[0] == s[a]);
        if b == a {
            assert(t.subrange(0, t.len() as int)[0] == t[0]);
        }
        assert(t[b - a - 1] == s[b - 1]);
    }
    (a, b)
}

/// How much white space `s` begins with.
proof fn lemma_trimmed_start_bound(s: Seq<char>) -> (a: int)
    ensures
        0 <= a <= s.len(),
        all_white_space(s.subrange(0, a)),
        a < s.len() ==> !is_white_space(s[a]),
        trimmed_start(s) == s.subrange(a, s.len() as int),
    decreases s.len(),
{
    if s.len() > 0 && is_white_space(s[0]) {
        let t = s.drop_first();
        let a = lemma_trimmed_start_bound(t) + 1;
        assert forall|i: int| 0 <= i < a implies is_white_space(#[trigger] s.subrange(0, a)[i]) by {
            if i > 0 {
                assert(s.subrange(0, a)[i] == t.subrange(0, a - 1)[i - 1]);
            }
        }
        assert(t.subrange(a - 1, t.len() as int) =~= s.subrange(a, s.len() as int));
        a
    } else {
        assert(s.subrange(0, s.len() as int) =~= s);
        0
    }
}

/// Where the white space that `s` ends with begins.
proof fn lemma_trimmed_end_bound(s: Seq<char>) -> (b: int)
    ensures
        0 <= b <= s.len(),
        all_white_space(s.subrange(b, s.len() as int)),
        0 < b ==> !is_white_space(s[b - 1]),
        trimmed_end(s) == s.subrange(0, b),
    decreases s.len(),
{
    if s.len() > 0 && is_white_space(s.last()) {
        let t = s.drop_last();
        let b = lemma_trimmed_end_bound(t);
        assert forall|i: int| 0 <= i < s.len() - b implies is_white_space(
            #[trigger] s.subrange(b, s.len() as int)[i],
        ) by {
            if i < t.len() - b {
                assert(s.subrange(b, s.len() as int)[i] == t.subrange(b, t.len() as int)[i]);
            }
        }
        assert(t.subrange(0, b) =~= s.subrange(0, b));
        b
    } else {
        assert(s.subrange(0, s.len() as int) =~= s);
        s.len() as int
    }
}

/// White space added at the end is trimmed away again.
pub proof fn lemma_trimmed_ignores_trailing(s: Seq<char>, tail: Seq<char>)
    requires
        all_white_space(tail),
    ensures
        trimmed(s + tail) == trimmed(s),
{
    let (a, b) = lemma_trimmed_bounds(s);
    let t = s + tail;
    assert(t.subrange(0, a) =~= s.subrange(0, a));
    assert(t.subrange(a, b) =~= s.subrange(a, b));
    assert forall|i: int| 0 <= i < t.len() - b implies is_white_space(
        #[trigger] t.subrange(b, t.len() as int)[i],
    ) by {
        if b + i < s.len() {
            assert(t.subrange(b, t.len() as int)[i] == s.subrange(b, s.len() as int)[i]);
        } else {
            assert(t.subrange(b, t.len() as int)[i] == tail[b + i - s.len()]);
        }
    }
    lemma_trimmed_between(t, a, b);
}

/// Trimming what is trimmed changes nothing.
pub proof fn lemma_trimmed_twice(s: Seq<char>)
    ensures
        trimmed(trimmed(s)) == trimmed(s),
{
    let (a, b) = lemma_trimmed_bounds(s);
    let t = s.subrange(a, b);
    assert(t.subrange(0, 0) =~= Seq::<char>::empty());
    assert(t.subrange(t.len() as int, t.len() as int) =~= Seq::<char>::empty());
    assert(t.subrange(0, t.len() as int) =~= t);
    lemma_trimmed_between(t, 0, t.len() as int);
}

/// The text between the first and the last character of `s` that is not white
/// space, both included; the empty text where `s` has no such character.
pub fn trim(s: &str) -> (r: &str)
    ensures
        r@ == trimmed(s@),
{
    let mut start: usize = 0;
    let mut end: usize = 0;
    let mut i: usize = 0;
    let n: usize = s.unicode_len();
    for c in it: s.chars()
        invariant
            it.seq() == s@,
            n == s@.len(),
            i == it.index(),
            0 <= start <= end <= i,
            all_white_space(s@.subrange(0, start as int)),
            all_white_space(s@.subrange(end as int, i as int)),
            start < end ==> !is_white_space(s@[start as int]) && !is_white_space(s@[end - 1]),
            start == end ==> start == 0,
    {
        if !char_is_white_space(c) {
            if start == end {
                start = i;
            }
            end = i + 1;
        }
        i = i + 1;
    }
    proof {
        lemma_trimmed_between(s@, start as int, end as int);
    }
    s.substring_char(start, end)
}

} // verus!
