//! Searching and replacing in texts.

use vstd::prelude::*;
use vstd::string::*;
use crate::text;
use crate::text::{chars_of, find_from, is_whitespace, stands_at, text_of};

verus! {

/// Where `p` first stands in `s` from the given position on.
pub open spec fn index_from(s: Seq<char>, p: Seq<char>, from: int) -> Option<int>
    decreases s.len() + 1 - from,
{
    if from < 0 || from + p.len() > s.len() {
        None
    } else if text::occurs_at(s, p, from) {
        Some(from)
    } else {
        index_from(s, p, from + 1)
    }
}

/// Where `p` last stands in the first `to` characters of `s`.
pub open spec fn index_before(s: Seq<char>, p: Seq<char>, to: int) -> Option<int>
    decreases to,
{
    if to < p.len() || to < 0 {
        None
    } else if text::occurs_at(s, p, to - p.len()) {
        Some(to - p.len())
    } else if to == 0 {
        None
    } else {
        index_before(s, p, to - 1)
    }
}

proof fn lemma_index_from(s: Seq<char>, p: Seq<char>, from: int, found: Option<int>)
    requires
        0 <= from <= s.len(),
        match found {
            Some(i) => from <= i && text::occurs_at(s, p, i) && forall|j: int|
                from <= j < i ==> !text::occurs_at(s, p, j),
            None => forall|j: int| from <= j ==> !text::occurs_at(s, p, j),
        },
    ensures
        index_from(s, p, from) == found,
    decreases s.len() + 1 - from,
{
    if from + p.len() > s.len() {
        match found {
            Some(i) => {
                assert(text::occurs_at(s, p, i));
            },
            None => {},
        }
    } else if !text::occurs_at(s, p, from) {
        if from < s.len() {
            lemma_index_from(s, p, from + 1, found);
        } else {
            assert(index_from(s, p, from + 1) is None);
            match found {
                Some(i) => {
                    assert(text::occurs_at(s, p, i));
                },
                None => {},
            }
        }
    }
}

/// Where `p` first stands in `s` from the given position on.
pub fn first_at(s: &Vec<char>, p: &Vec<char>, from: usize) -> (r: Option<usize>)
    requires
        from <= s@.len(),
    ensures
        match r {
            Some(i) => from <= i && i + p@.len() <= s@.len() && index_from(s@, p@, from as int)
                == Some(i as int),
            None => index_from(s@, p@, from as int) is None,
        },
{
    let found = find_from(s, p, from);
    proof {
        let g: Option<int> = match found {
            Some(i) => Some(i as int),
            None => None,
        };
        lemma_index_from(s@, p@, from as int, g);
    }
    found
}

/// Where `p` first stands in a string.
pub fn first_in(s: &Vec<char>, p: &str) -> (r: Option<usize>)
    ensures
        match r {
            Some(i) => i + p@.len() <= s@.len() && index_from(s@, p@, 0) == Some(i as int),
            None => index_from(s@, p@, 0) is None,
        },
{
    let q = chars_of(p);
    first_at(s, &q, 0)
}

/// Where `p` last stands in the first `to` characters of `s`.
pub fn last_before(s: &Vec<char>, p: &Vec<char>, to: usize) -> (r: Option<usize>)
    requires
        to <= s@.len(),
    ensures
        match r {
            Some(i) => i + p@.len() <= to && index_before(s@, p@, to as int) == Some(i as int),
            None => index_before(s@, p@, to as int) is None,
        },
{
    let n: usize = p.len();
    let mut end: usize = to;
    while end >= n
        invariant
            end <= to <= s@.len(),
            n == p@.len(),
            index_before(s@, p@, to as int) == index_before(s@, p@, end as int),
        decreases end,
    {
        if stands_at(s, p, end - n) {
            return Some(end - n);
        }
        if end == 0 {
            return None;
        }
        end = end - 1;
    }
    None
}

/// The text with each of one character replaced by another text.
pub open spec fn with_replaced(s: Seq<char>, c: char, by: Seq<char>) -> Seq<char>
    decreases s.len(),
{
    if s.len() == 0 {
        Seq::empty()
    } else if s.last() == c {
        with_replaced(s.drop_last(), c, by) + by
    } else {
        with_replaced(s.drop_last(), c, by).push(s.last())
    }
}

/// Replaces each of one character by another text.
pub fn replace_char(s: &str, c: char, by: &str) -> (r: String)
    ensures
        r@ == with_replaced(s@, c, by@),
{
    let a = chars_of(s);
    let mut r = String::new();
    let mut i: usize = 0;
    assert(s@.take(0) =~= Seq::<char>::empty());
    assert(r@ =~= Seq::<char>::empty());
    while i < a.len()
        invariant
            i <= a@.len(),
            a@ == s@,
            r@ == with_replaced(s@.take(i as int), c, by@),
        decreases a@.len() - i,
    {
        assert(s@.take(i as int + 1).drop_last() =~= s@.take(i as int));
        assert(s@.take(i as int + 1).last() == a@[i as int]);
        if a[i] == c {
            r.append(by);
        } else {
            r.push(a[i]);
        }
        i = i + 1;
    }
    assert(s@.take(s@.len() as int) =~= s@);
    r
}

/// The text with each occurrence of one text replaced by another, from the left.
pub open spec fn with_text_replaced(s: Seq<char>, p: Seq<char>, by: Seq<char>) -> Seq<char>
    decreases s.len(),
{
    match index_from(s, p, 0) {
        Some(i) => if p.len() > 0 && 0 <= i && i + p.len() <= s.len() {
            s.take(i) + by + with_text_replaced(s.skip(i + p.len()), p, by)
        } else {
            s
        },
        None => s,
    }
}

/// Replaces each occurrence of one text, which is not empty, by another, from the left.
pub fn replace_text(s: &str, p: &str, by: &str) -> (r: String)
    requires
        p@.len() > 0,
    ensures
        r@ == with_text_replaced(s@, p@, by@),
{
    let a = chars_of(s);
    let q = chars_of(p);
    let n: usize = a.len();
    let m: usize = q.len();
    let mut r = String::new();
    let mut from: usize = 0;
    assert(a@.skip(0) =~= a@);
    assert(r@ =~= Seq::<char>::empty());
    assert(r@ + with_text_replaced(a@.skip(0), p@, by@) =~= with_text_replaced(s@, p@, by@));
    loop
        invariant_except_break
            r@ + with_text_replaced(a@.skip(from as int), p@, by@) == with_text_replaced(
                s@,
                p@,
                by@,
            ),
        invariant
            from <= n,
            n == a@.len(),
            m == q@.len(),
            m > 0,
            a@ == s@,
            q@ == p@,
        ensures
            r@ == with_text_replaced(s@, p@, by@),
        decreases n - from,
    {
        let ghost rest = a@.skip(from as int);
        match first_at(&a, &q, from) {
            Some(i) => {
                proof {
                    lemma_index_shift(a@, p@, from as int, from as int);
                }
                let piece = text_of(&a, from, i);
                let ghost before = r@;
                r.append(piece.as_str());
                r.append(by);
                assert(rest.take(i - from) =~= piece@);
                assert(rest.skip(i - from + m) =~= a@.skip(i + m));
                assert(before + (rest.take(i - from) + by@ + with_text_replaced(
                    a@.skip(i + m),
                    p@,
                    by@,
                )) =~= r@ + with_text_replaced(a@.skip(i + m), p@, by@));
                from = i + m;
            },
            None => {
                proof {
                    lemma_index_shift(a@, p@, from as int, from as int);
                }
                let piece = text_of(&a, from, n);
                assert(piece@ =~= rest);
                r.append(piece.as_str());
                break;
            },
        }
    }
    r
}

/// Searching behind a position is searching in what stands behind it.
proof fn lemma_index_shift(s: Seq<char>, p: Seq<char>, base: int, from: int)
    requires
        0 <= base <= from <= s.len(),
    ensures
        match index_from(s, p, from) {
            Some(i) => index_from(s.skip(base), p, from - base) == Some(i - base),
            None => index_from(s.skip(base), p, from - base) is None,
        },
    decreases s.len() + 1 - from,
{
    if from + p.len() <= s.len() {
        assert(s.skip(base).subrange(from - base, from - base + p.len()) =~= s.subrange(
            from,
            from + p.len(),
        ));
        if !text::occurs_at(s, p, from) {
            if from < s.len() {
                lemma_index_shift(s, p, base, from + 1);
            } else {
                assert(p.len() == 0);
                assert(s.subrange(from, from + p.len()) =~= p);
            }
        }
    }
}

/// The pieces of a text between white space.
pub open spec fn spaced(s: Seq<char>) -> Seq<Seq<char>>
    decreases s.len(),
{
    if s.len() == 0 {
        seq![Seq::<char>::empty()]
    } else {
        let before = spaced(s.drop_last());
        if text::is_space(s.last()) {
            before.push(Seq::<char>::empty())
        } else {
            before.drop_last().push(before.last().push(s.last()))
        }
    }
}

/// The words of a text: the pieces between white space that are not empty.
pub open spec fn words_of(s: Seq<char>) -> Seq<Seq<char>> {
    spaced(s).filter(|w: Seq<char>| w.len() > 0)
}

/// Splits a text into its words.
pub fn words(s: &str) -> (r: Vec<String>)
    ensures
        text::views(r@) == words_of(s@),
{
    broadcast use text::group_views;

    let a = chars_of(s);
    let ghost keep = |w: Seq<char>| w.len() > 0;
    let ghost mut done: Seq<Seq<char>> = Seq::empty();
    let mut parts: Vec<String> = Vec::new();
    let mut cur = String::new();
    let mut blank: bool = true;
    let mut i: usize = 0;
    proof {
        reveal(Seq::filter);
    }
    assert(s@.take(0) =~= Seq::<char>::empty());
    assert(done.push(cur@) =~= seq![Seq::<char>::empty()]);
    assert(text::views(parts@) =~= done.filter(keep));
    while i < a.len()
        invariant
            i <= a@.len(),
            a@ == s@,
            keep == |w: Seq<char>| w.len() > 0,
            spaced(s@.take(i as int)) == done.push(cur@),
            text::views(parts@) == done.filter(keep),
            blank == (cur@.len() == 0),
        decreases a@.len() - i,
    {
        broadcast use text::group_views;

        let c = a[i];
        assert(s@.take(i as int + 1).drop_last() =~= s@.take(i as int));
        assert(s@.take(i as int + 1).last() == c);
        assert(done.push(cur@).drop_last() =~= done);
        if is_whitespace(c) {
            let word = cur;
            cur = String::new();
            proof {
                reveal(Seq::filter);
                assert(done.push(word@).drop_last() =~= done);
                done = done.push(word@);
            }
            if !blank {
                parts.push(word);
            }
            blank = true;
            assert(cur@ =~= Seq::<char>::empty());
        } else {
            cur.push(c);
            blank = false;
        }
        i = i + 1;
    }
    assert(s@.take(s@.len() as int) =~= s@);
    proof {
        reveal(Seq::filter);
        assert(done.push(cur@).drop_last() =~= done);
    }
    if !blank {
        parts.push(cur);
    }
    assert(keep == (|w: Seq<char>| w.len() > 0));
    parts
}

/// Whether a text holds white space.
pub open spec fn has_space(s: Seq<char>) -> bool {
    exists|i: int| 0 <= i < s.len() && text::is_space(#[trigger] s[i])
}

/// Whether a text holds white space.
pub fn holds_space(s: &str) -> (r: bool)
    ensures
        r == has_space(s@),
{
    let a = chars_of(s);
    let mut i: usize = 0;
    while i < a.len()
        invariant
            i <= a@.len(),
            a@ == s@,
            forall|j: int| 0 <= j < i ==> !text::is_space(#[trigger] a@[j]),
        decreases a@.len() - i,
    {
        if is_whitespace(a[i]) {
            assert(text::is_space(s@[i as int]));
            return true;
        }
        i = i + 1;
    }
    false
}

/// The text without the dots at its end.
pub open spec fn without_dots(s: Seq<char>) -> Seq<char>
    decreases s.len(),
{
    if s.len() > 0 && s.last() == '.' {
        without_dots(s.drop_last())
    } else {
        s
    }
}

/// Removes the dots at the end of a text.
pub fn strip_dots(s: &str) -> (r: String)
    ensures
        r@ == without_dots(s@),
{
    let a = chars_of(s);
    let mut n: usize = a.len();
    assert(a@.take(n as int) =~= a@);
    while n > 0 && a[n - 1] == '.'
        invariant
            n <= a@.len(),
            without_dots(a@) == without_dots(a@.take(n as int)),
        decreases n,
    {
        assert(a@.take(n as int).drop_last() =~= a@.take(n as int - 1));
        n = n - 1;
    }
    assert(a@.subrange(0, n as int) =~= a@.take(n as int));
    text_of(&a, 0, n)
}

/// What stands after the first occurrence of a text.
pub open spec fn after_first(s: Seq<char>, p: Seq<char>) -> Option<Seq<char>> {
    match index_from(s, p, 0) {
        Some(i) => Some(s.skip(i + p.len())),
        None => None,
    }
}

/// What stands after the first occurrence of a text.
pub fn rest_after(s: &str, p: &str) -> (r: Option<String>)
    ensures
        text::opt_view(r) == after_first(s@, p@),
{
    let a = chars_of(s);
    let q = chars_of(p);
    let n: usize = a.len();
    match first_at(&a, &q, 0) {
        Some(i) => {
            let from: usize = i + q.len();
            assert(a@.subrange(from as int, n as int) =~= a@.skip(from as int));
            Some(text_of(&a, from, n))
        },
        None => None,
    }
}

/// What stands before the first occurrence of a text.
pub open spec fn before_first(s: Seq<char>, p: Seq<char>) -> Option<Seq<char>> {
    match index_from(s, p, 0) {
        Some(i) => Some(s.take(i)),
        None => None,
    }
}

/// What stands before the first occurrence of a text.
pub fn head_before(s: &str, p: &str) -> (r: Option<String>)
    ensures
        text::opt_view(r) == before_first(s@, p@),
{
    let a = chars_of(s);
    let q = chars_of(p);
    match first_at(&a, &q, 0) {
        Some(i) => {
            assert(a@.subrange(0, i as int) =~= a@.take(i as int));
            Some(text_of(&a, 0, i))
        },
        None => None,
    }
}

/// What is found first in a text stands there, and nowhere before.
pub proof fn law_first_is_found(s: Seq<char>, p: Seq<char>, from: int)
    requires
        from >= 0,
    ensures
        match index_from(s, p, from) {
            Some(i) => from <= i && text::occurs_at(s, p, i) && forall|j: int|
                from <= j < i ==> !#[trigger] text::occurs_at(s, p, j),
            None => forall|j: int| from <= j ==> !#[trigger] text::occurs_at(s, p, j),
        },
    decreases s.len() + 1 - from,
{
    if from + p.len() <= s.len() && !text::occurs_at(s, p, from) {
        law_first_is_found(s, p, from + 1);
    }
}

/// What is found last before a place ends there or before, and nothing later does.
pub proof fn law_last_is_found(s: Seq<char>, p: Seq<char>, to: int)
    requires
        0 <= to <= s.len(),
    ensures
        match index_before(s, p, to) {
            Some(i) => text::occurs_at(s, p, i) && i + p.len() <= to && forall|j: int|
                i < j && j + p.len() <= to ==> !#[trigger] text::occurs_at(s, p, j),
            None => forall|j: int| j + p.len() <= to ==> !#[trigger] text::occurs_at(s, p, j),
        },
    decreases to,
{
    if to >= p.len() && !text::occurs_at(s, p, to - p.len()) && to > 0 {
        law_last_is_found(s, p, to - 1);
    }
}

/// A text without the character stays as it is; otherwise each occurrence is replaced and
/// what is around it is kept.
pub proof fn law_every_occurrence_is_replaced(s: Seq<char>, t: Seq<char>, c: char, by: Seq<char>)
    ensures
        !s.contains(c) ==> with_replaced(s, c, by) == s,
        with_replaced(s.push(c) + t, c, by) == with_replaced(s, c, by) + by + with_replaced(
            t,
            c,
            by,
        ),
        !by.contains(c) ==> !with_replaced(s, c, by).contains(c),
    decreases s.len() + t.len(),
{
    if s.len() > 0 {
        law_every_occurrence_is_replaced(s.drop_last(), Seq::empty(), c, by);
        if !s.contains(c) {
            assert(s.contains(s[s.len() - 1]));
            assert forall|i: int| 0 <= i < s.drop_last().len() implies s.drop_last()[i] != c by {
                assert(s.contains(s[i]));
            }
            assert(s.drop_last().push(s.last()) =~= s);
        }
        let before = with_replaced(s.drop_last(), c, by);
        let now = with_replaced(s, c, by);
        if !by.contains(c) && now.contains(c) {
            let k = choose|k: int| 0 <= k < now.len() && now[k] == c;
            if k < before.len() {
                assert(before.contains(before[k]));
            } else if s.last() == c {
                assert(by.contains(by[k - before.len()]));
            }
        }
    }
    if t.len() == 0 {
        assert(s.push(c) + t =~= s.push(c));
        assert(s.push(c).drop_last() =~= s);
        assert(with_replaced(s, c, by) + by + with_replaced(t, c, by) =~= with_replaced(s, c, by)
            + by);
    } else {
        let u = t.drop_last();
        law_every_occurrence_is_replaced(s, u, c, by);
        assert((s.push(c) + t).drop_last() =~= s.push(c) + u);
        assert((s.push(c) + t).last() == t.last());
        if t.last() == c {
            assert(with_replaced(s, c, by) + by + (with_replaced(u, c, by) + by) =~= with_replaced(
                s,
                c,
                by,
            ) + by + with_replaced(u, c, by) + by);
        } else {
            assert(with_replaced(s, c, by) + by + with_replaced(u, c, by).push(t.last()) =~= (
            with_replaced(s, c, by) + by + with_replaced(u, c, by)).push(t.last()));
        }
    }
}

/// The dots at the end of a text are dropped, and nothing else.
pub proof fn law_dots_at_the_end_are_dropped(s: Seq<char>, dots: Seq<char>)
    requires
        s.len() == 0 || s.last() != '.',
        forall|i: int| 0 <= i < dots.len() ==> #[trigger] dots[i] == '.',
    ensures
        without_dots(s + dots) == s,
    decreases dots.len(),
{
    if dots.len() == 0 {
        assert(s + dots =~= s);
    } else {
        assert((s + dots).last() == dots[dots.len() - 1]);
        assert((s + dots).drop_last() =~= s + dots.drop_last());
        law_dots_at_the_end_are_dropped(s, dots.drop_last());
    }
}

/// What stands before and after the first occurrence of a text make up the whole with it.
pub proof fn law_texts_are_told_apart_at_the_first(s: Seq<char>, p: Seq<char>)
    ensures
        before_first(s, p) is Some <==> text::occurs(s, p),
        after_first(s, p) is Some <==> text::occurs(s, p),
        text::occurs(s, p) ==> before_first(s, p)->Some_0 + p + after_first(s, p)->Some_0 == s,
        text::occurs(s, p) ==> forall|j: int|
            0 <= j < before_first(s, p)->Some_0.len() ==> !#[trigger] text::occurs_at(s, p, j),
{
    law_first_is_found(s, p, 0);
    if text::occurs(s, p) {
        let j = choose|j: int| text::occurs_at(s, p, j);
        assert(text::occurs_at(s, p, j));
        let i = index_from(s, p, 0)->Some_0;
        assert(s.subrange(i, i + p.len()) == p);
        assert(s.take(i) + p + s.skip(i + p.len()) =~= s);
    }
}

} // verus!
