//! Text operations on character sequences.
//!
//! A string is specified by its sequence of characters; every operation states
//! its result over that sequence.

use vstd::prelude::*;
use vstd::string::*;

verus! {

/// The standard library's `String::push`: appends one character at the end.
pub assume_specification[ String::push ](s: &mut String, c: char)
    ensures
        final(s)@ == old(s)@.push(c),
;

/// The views of a sequence's elements.
pub open spec fn views<T: View>(s: Seq<T>) -> Seq<T::V> {
    s.map_values(|t: T| t@)
}

pub broadcast proof fn lemma_views_push<T: View>(s: Seq<T>, t: T)
    ensures
        #[trigger] views(s.push(t)) == views(s).push(t@),
{
    assert(views(s.push(t)) =~= views(s).push(t@));
}

pub broadcast proof fn lemma_views_empty<T: View>(s: Seq<T>)
    requires
        s.len() == 0,
    ensures
        #[trigger] views(s) == Seq::<T::V>::empty(),
{
    assert(views(s) =~= Seq::<T::V>::empty());
}

pub broadcast proof fn lemma_views_take<T: View>(s: Seq<T>, n: int)
    requires
        0 <= n <= s.len(),
    ensures
        #[trigger] views(s.take(n)) == views(s).take(n),
{
    assert(views(s.take(n)) =~= views(s).take(n));
}

pub broadcast group group_views {
    lemma_views_push,
    lemma_views_empty,
    lemma_views_take,
}

/// The view of an optional value.
pub open spec fn opt_view<T: View>(o: Option<T>) -> Option<T::V> {
    match o {
        Some(t) => Some(t@),
        None => None,
    }
}

/// The characters of an optional borrowed string.
pub open spec fn opt_str(o: Option<&str>) -> Option<Seq<char>> {
    match o {
        Some(t) => Some(t@),
        None => None,
    }
}

/// An optional string as an optional borrowed string.
pub fn as_deref(o: &Option<String>) -> (r: Option<&str>)
    ensures
        opt_str(r) == opt_view(*o),
{
    match o {
        Some(s) => Some(s.as_str()),
        None => None,
    }
}

/// A copy of an optional string.
pub fn clone_opt(o: &Option<String>) -> (r: Option<String>)
    ensures
        opt_view(r) == opt_view(*o),
{
    match o {
        Some(s) => Some(s.clone()),
        None => None,
    }
}

/// The characters of a string, in order.
pub fn chars_of(s: &str) -> (v: Vec<char>)
    ensures
        v@ == s@,
{
    let mut v: Vec<char> = Vec::new();
    for c in it: s.chars()
        invariant
            v@ == s@.take(it.index() as int),
            it.seq() == s@,
    {
        v.push(c);
        assert(s@.take(it.index() as int + 1) == s@.take(it.index() as int).push(
            s@[it.index() as int],
        ));
    }
    assert(s@.take(s@.len() as int) == s@);
    v
}

/// The string that holds the characters from `from` up to `to`.
pub fn text_of(v: &Vec<char>, from: usize, to: usize) -> (s: String)
    requires
        from <= to <= v@.len(),
    ensures
        s@ == v@.subrange(from as int, to as int),
{
    let mut s = String::new();
    let mut i: usize = from;
    while i < to
        invariant
            from <= i <= to <= v@.len(),
            s@ == v@.subrange(from as int, i as int),
        decreases to - i,
    {
        s.push(v[i]);
        assert(v@.subrange(from as int, i as int + 1) == v@.subrange(from as int, i as int).push(
            v@[i as int],
        ));
        i = i + 1;
    }
    s
}

/// Whether two strings hold the same characters.
pub fn str_eq(a: &str, b: &str) -> (r: bool)
    ensures
        r == (a@ == b@),
{
    let x = chars_of(a);
    let y = chars_of(b);
    if x.len() != y.len() {
        return false;
    }
    let mut i: usize = 0;
    while i < x.len()
        invariant
            i <= x@.len(),
            x@.len() == y@.len(),
            x@ == a@,
            y@ == b@,
            forall|j: int| 0 <= j < i ==> x@[j] == y@[j],
        decreases x@.len() - i,
    {
        if x[i] != y[i] {
            return false;
        }
        i = i + 1;
    }
    assert(a@ =~= b@);
    true
}

/// Whether two optional strings are equal.
pub fn opt_eq(a: Option<&str>, b: Option<&str>) -> (r: bool)
    ensures
        r == (opt_str(a) == opt_str(b)),
{
    match (a, b) {
        (Some(x), Some(y)) => str_eq(x, y),
        (None, None) => true,
        _ => false,
    }
}

/// Whether a list of strings holds the given one.
pub open spec fn holds(list: Seq<Seq<char>>, s: Seq<char>) -> bool {
    list.contains(s)
}

/// Whether a list of strings holds the given one.
pub fn list_holds(list: &Vec<String>, s: &str) -> (r: bool)
    ensures
        r == holds(views(list@), s@),
{
    let mut i: usize = 0;
    while i < list.len()
        invariant
            i <= list@.len(),
            forall|j: int| 0 <= j < i ==> views(list@)[j] != s@,
        decreases list@.len() - i,
    {
        if str_eq(list[i].as_str(), s) {
            assert(views(list@)[i as int] == s@);
            return true;
        }
        i = i + 1;
    }
    false
}

/// Adds a string to a list that holds each string once.
pub fn insert_once(list: &mut Vec<String>, s: &str)
    ensures
        views(final(list)@) == inserted(views(old(list)@), s@),
{
    broadcast use group_views;

    if !list_holds(list, s) {
        list.push(s.to_owned());
    }
}

/// A list after a string has been added to it once.
pub open spec fn inserted(list: Seq<Seq<char>>, s: Seq<char>) -> Seq<Seq<char>> {
    if holds(list, s) {
        list
    } else {
        list.push(s)
    }
}

/// A copy of a list of strings.
pub fn copy_list(list: &Vec<String>) -> (r: Vec<String>)
    ensures
        views(r@) == views(list@),
        r@.len() == list@.len(),
{
    broadcast use group_views;

    let mut r: Vec<String> = Vec::new();
    let mut i: usize = 0;
    while i < list.len()
        invariant
            i <= list@.len(),
            r@.len() == i,
            forall|j: int| 0 <= j < i ==> (#[trigger] r@[j])@ == list@[j]@,
        decreases list@.len() - i,
    {
        r.push(list[i].clone());
        i = i + 1;
    }
    assert(views(r@) =~= views(list@));
    r
}

/// Whether `s` begins with `p`.
pub open spec fn begins(s: Seq<char>, p: Seq<char>) -> bool {
    p.len() <= s.len() && s.take(p.len() as int) == p
}

/// Whether `s` ends with `p`.
pub open spec fn finishes(s: Seq<char>, p: Seq<char>) -> bool {
    p.len() <= s.len() && s.skip(s.len() - p.len()) == p
}

/// Whether `p` stands in `s` at position `i`.
pub open spec fn occurs_at(s: Seq<char>, p: Seq<char>, i: int) -> bool {
    0 <= i && i + p.len() <= s.len() && s.subrange(i, i + p.len()) == p
}

/// Whether `p` stands in `s` somewhere.
pub open spec fn occurs(s: Seq<char>, p: Seq<char>) -> bool {
    exists|i: int| occurs_at(s, p, i)
}

/// Whether `p` stands in `s` at position `i`.
pub fn stands_at(s: &Vec<char>, p: &Vec<char>, i: usize) -> (r: bool)
    ensures
        r == occurs_at(s@, p@, i as int),
{
    if i > s.len() || p.len() > s.len() - i {
        return false;
    }
    let mut j: usize = 0;
    while j < p.len()
        invariant
            j <= p@.len(),
            i + p@.len() <= s.len(),
            forall|k: int| 0 <= k < j ==> s@[i + k] == p@[k],
        decreases p@.len() - j,
    {
        if s[i + j] != p[j] {
            assert(s@.subrange(i as int, i + p@.len())[j as int] != p@[j as int]);
            return false;
        }
        j = j + 1;
    }
    assert(s@.subrange(i as int, i + p@.len()) =~= p@);
    true
}

/// Where `p` first stands in `s` from position `from` on.
pub fn find_from(s: &Vec<char>, p: &Vec<char>, from: usize) -> (r: Option<usize>)
    requires
        from <= s@.len(),
    ensures
        match r {
            Some(i) => from <= i && occurs_at(s@, p@, i as int) && forall|j: int|
                from <= j < i ==> !occurs_at(s@, p@, j),
            None => forall|j: int| from <= j ==> !occurs_at(s@, p@, j),
        },
{
    let mut i: usize = from;
    while i < s.len()
        invariant
            from <= i <= s@.len(),
            forall|j: int| from <= j < i ==> !occurs_at(s@, p@, j),
        decreases s@.len() - i,
    {
        if stands_at(s, p, i) {
            return Some(i);
        }
        i = i + 1;
    }
    if stands_at(s, p, i) {
        Some(i)
    } else {
        None
    }
}

/// Whether `p` stands in `s` somewhere.
pub fn contains_str(s: &str, p: &str) -> (r: bool)
    ensures
        r == occurs(s@, p@),
{
    let a = chars_of(s);
    let b = chars_of(p);
    match find_from(&a, &b, 0) {
        Some(i) => {
            assert(occurs_at(s@, p@, i as int));
            true
        },
        None => false,
    }
}

/// Whether the character stands in `s`.
pub fn contains_char(s: &str, c: char) -> (r: bool)
    ensures
        r == s@.contains(c),
{
    let a = chars_of(s);
    let mut i: usize = 0;
    while i < a.len()
        invariant
            i <= a@.len(),
            a@ == s@,
            forall|j: int| 0 <= j < i ==> a@[j] != c,
        decreases a@.len() - i,
    {
        if a[i] == c {
            assert(s@[i as int] == c);
            return true;
        }
        i = i + 1;
    }
    false
}

/// Whether `s` begins with `p`.
pub fn starts_with(s: &str, p: &str) -> (r: bool)
    ensures
        r == begins(s@, p@),
{
    let a = chars_of(s);
    let b = chars_of(p);
    let r = stands_at(&a, &b, 0);
    assert(p@.len() <= s@.len() ==> s@.subrange(0, p@.len() as int) == s@.take(p@.len() as int));
    r
}

/// Whether `s` ends with `p`.
pub fn ends_with(s: &str, p: &str) -> (r: bool)
    ensures
        r == finishes(s@, p@),
{
    let a = chars_of(s);
    let b = chars_of(p);
    if b.len() > a.len() {
        return false;
    }
    let r = stands_at(&a, &b, a.len() - b.len());
    assert(s@.subrange(s@.len() - p@.len(), s@.len() as int) == s@.skip(s@.len() - p@.len()));
    r
}

/// The pieces of `s` between occurrences of the separator.
pub open spec fn split(s: Seq<char>, sep: char) -> Seq<Seq<char>>
    decreases s.len(),
{
    if s.len() == 0 {
        seq![Seq::<char>::empty()]
    } else {
        let before = split(s.drop_last(), sep);
        if s.last() == sep {
            before.push(Seq::<char>::empty())
        } else {
            before.drop_last().push(before.last().push(s.last()))
        }
    }
}

/// The pieces hold no separator, and only characters of the string.
pub proof fn lemma_split_pieces(s: Seq<char>, sep: char)
    ensures
        forall|i: int, j: int|
            0 <= i < split(s, sep).len() && 0 <= j < split(s, sep)[i].len() ==> (
            #[trigger] split(s, sep)[i][j]) != sep && s.contains(split(s, sep)[i][j]),
    decreases s.len(),
{
    lemma_split_nonempty(s, sep);
    if s.len() > 0 {
        let t = s.drop_last();
        lemma_split_nonempty(t, sep);
        lemma_split_pieces(t, sep);
        let before = split(t, sep);
        let all = split(s, sep);
        assert forall|i: int, j: int|
            0 <= i < all.len() && 0 <= j < all[i].len() implies (#[trigger] all[i][j]) != sep
            && s.contains(all[i][j]) by {
            if s.last() == sep {
                assert(i < before.len());
            }
            if i < before.len() && j < before[i].len() {
                assert(all[i][j] == before[i][j]);
                let k = choose|k: int| 0 <= k < t.len() && t[k] == before[i][j];
                assert(s[k] == all[i][j]);
            } else {
                assert(all[i][j] == s[s.len() - 1]);
            }
        }
    }
}

/// A string without separators after another one lengthens the last piece.
pub proof fn lemma_split_extends(s: Seq<char>, t: Seq<char>, sep: char)
    requires
        !t.contains(sep),
    ensures
        split(s + t, sep) == split(s, sep).drop_last().push(split(s, sep).last() + t),
    decreases t.len(),
{
    lemma_split_nonempty(s, sep);
    if t.len() == 0 {
        assert(s + t =~= s);
        assert(split(s, sep).last() + t =~= split(s, sep).last());
        assert(split(s, sep).drop_last().push(split(s, sep).last()) =~= split(s, sep));
    } else {
        let u = t.drop_last();
        assert(t[t.len() - 1] == t.last());
        assert forall|i: int| 0 <= i < u.len() implies u[i] != sep by {
            assert(u[i] == t[i]);
        }
        lemma_split_extends(s, u, sep);
        assert((s + t).drop_last() =~= s + u);
        assert((s + t).last() == t.last());
        assert((split(s, sep).last() + u).push(t.last()) =~= split(s, sep).last() + t);
        assert(split(s + t, sep) =~= split(s, sep).drop_last().push(split(s, sep).last() + t));
    }
}

pub proof fn lemma_split_nonempty(s: Seq<char>, sep: char)
    ensures
        split(s, sep).len() > 0,
    decreases s.len(),
{
    if s.len() > 0 {
        lemma_split_nonempty(s.drop_last(), sep);
    }
}

/// Splits a string at every occurrence of the separator.
pub fn split_at_char(s: &str, sep: char) -> (r: Vec<String>)
    ensures
        views(r@) == split(s@, sep),
        r@.len() > 0,
{
    broadcast use group_views;

    let a = chars_of(s);
    let mut parts: Vec<String> = Vec::new();
    let mut cur = String::new();
    let mut i: usize = 0;
    assert(s@.take(0) =~= Seq::<char>::empty());
    assert(views(parts@).push(cur@) =~= seq![Seq::<char>::empty()]);
    while i < a.len()
        invariant
            i <= a@.len(),
            a@ == s@,
            split(s@.take(i as int), sep) == views(parts@).push(cur@),
        decreases a@.len() - i,
    {
        broadcast use group_views;

        let c = a[i];
        let ghost before = split(s@.take(i as int), sep);
        let ghost cur_view = cur@;
        let ghost parts_view = views(parts@);
        assert(s@.take(i as int + 1).drop_last() =~= s@.take(i as int));
        assert(s@.take(i as int + 1).last() == c);
        assert(before.drop_last() =~= parts_view);
        assert(before.last() == cur_view);
        if c == sep {
            let done = cur;
            cur = String::new();
            parts.push(done);
        } else {
            cur.push(c);
        }
        i = i + 1;
    }
    assert(s@.take(s@.len() as int) =~= s@);
    parts.push(cur);
    parts
}

/// The pieces joined with the separator between them.
pub open spec fn joined(parts: Seq<Seq<char>>, sep: Seq<char>) -> Seq<char>
    decreases parts.len(),
{
    if parts.len() == 0 {
        Seq::empty()
    } else if parts.len() == 1 {
        parts[0]
    } else {
        joined(parts.drop_last(), sep) + sep + parts.last()
    }
}

/// Joins strings with a separator between them.
pub fn join(parts: &Vec<String>, sep: &str) -> (r: String)
    ensures
        r@ == joined(views(parts@), sep@),
{
    let mut r = String::new();
    let mut i: usize = 0;
    assert(views(parts@).take(0) =~= Seq::<Seq<char>>::empty());
    while i < parts.len()
        invariant
            i <= parts@.len(),
            r@ == joined(views(parts@).take(i as int), sep@),
        decreases parts@.len() - i,
    {
        if i > 0 {
            r.append(sep);
        }
        r.append(parts[i].as_str());
        let ghost next = views(parts@).take(i as int + 1);
        assert(next.drop_last() =~= views(parts@).take(i as int));
        assert(next.last() == parts@[i as int]@);
        proof {
            if i == 0 {
                assert(r@ =~= next[0]);
            }
        }
        i = i + 1;
    }
    assert(views(parts@).take(parts@.len() as int) =~= views(parts@));
    r
}

/// Whether the character has Unicode's `White_Space` property.
pub open spec fn is_space(c: char) -> bool {
    let u = c as u32;
    ||| 0x9 <= u <= 0xd
    ||| u == 0x20
    ||| u == 0x85
    ||| u == 0xa0
    ||| u == 0x1680
    ||| 0x2000 <= u <= 0x200a
    ||| u == 0x2028
    ||| u == 0x2029
    ||| u == 0x202f
    ||| u == 0x205f
    ||| u == 0x3000
}

/// Whether the character has Unicode's `White_Space` property.
pub fn is_whitespace(c: char) -> (r: bool)
    ensures
        r == is_space(c),
{
    let u: u32 = c as u32;
    (0x9 <= u && u <= 0xd) || u == 0x20 || u == 0x85 || u == 0xa0 || u == 0x1680 || (0x2000 <= u
        && u <= 0x200a) || u == 0x2028 || u == 0x2029 || u == 0x202f || u == 0x205f || u == 0x3000
}

/// The text without the white space at its end.
pub open spec fn trim_end(s: Seq<char>) -> Seq<char>
    decreases s.len(),
{
    if s.len() > 0 && is_space(s.last()) {
        trim_end(s.drop_last())
    } else {
        s
    }
}

/// The text without the white space at its beginning.
pub open spec fn trim_start(s: Seq<char>) -> Seq<char>
    decreases s.len(),
{
    if s.len() > 0 && is_space(s[0]) {
        trim_start(s.skip(1))
    } else {
        s
    }
}

/// The text without the white space at either end.
pub open spec fn trimmed(s: Seq<char>) -> Seq<char> {
    trim_start(trim_end(s))
}

/// Removes the white space at either end of a string.
pub fn trim(s: &str) -> (r: String)
    ensures
        r@ == trimmed(s@),
{
    let a = chars_of(s);
    let mut to: usize = a.len();
    assert(a@.take(to as int) =~= s@);
    while to > 0 && is_whitespace(a[to - 1])
        invariant
            to <= a@.len(),
            trim_end(a@.take(to as int)) == trim_end(s@),
        decreases to,
    {
        assert(a@.take(to as int).drop_last() =~= a@.take(to as int - 1));
        to = to - 1;
    }
    assert(trim_end(s@) == a@.take(to as int));
    let mut from: usize = 0;
    assert(a@.subrange(0, to as int) =~= a@.take(to as int));
    while from < to && is_whitespace(a[from])
        invariant
            from <= to <= a@.len(),
            trim_start(a@.subrange(from as int, to as int)) == trim_start(a@.take(to as int)),
        decreases to - from,
    {
        assert(a@.subrange(from as int, to as int).skip(1) =~= a@.subrange(
            from as int + 1,
            to as int,
        ));
        from = from + 1;
    }
    text_of(&a, from, to)
}

/// Whether the text holds nothing but white space.
pub open spec fn is_blank(s: Seq<char>) -> bool {
    forall|i: int| 0 <= i < s.len() ==> is_space(#[trigger] s[i])
}

/// Whether the string holds nothing but white space.
pub fn blank(s: &str) -> (r: bool)
    ensures
        r == is_blank(s@),
{
    let a = chars_of(s);
    let mut i: usize = 0;
    while i < a.len()
        invariant
            i <= a@.len(),
            a@ == s@,
            forall|j: int| 0 <= j < i ==> is_space(#[trigger] s@[j]),
        decreases a@.len() - i,
    {
        if !is_whitespace(a[i]) {
            assert(!is_space(s@[i as int]));
            return false;
        }
        i = i + 1;
    }
    true
}

/// Whether the character is an ASCII digit.
pub open spec fn is_digit(c: char) -> bool {
    '0' <= c && c <= '9'
}

/// Whether the character is an ASCII letter or digit.
pub open spec fn is_alphanumeric(c: char) -> bool {
    is_digit(c) || ('a' <= c && c <= 'z') || ('A' <= c && c <= 'Z')
}

/// Whether the character is a hexadecimal digit.
pub open spec fn is_hex_digit(c: char) -> bool {
    is_digit(c) || ('a' <= c && c <= 'f') || ('A' <= c && c <= 'F')
}

/// The character with an ASCII capital made small.
pub open spec fn lower_char(c: char) -> char {
    if 'A' <= c && c <= 'Z' {
        ((c as u8) + 32) as char
    } else {
        c
    }
}

/// The text with every ASCII capital made small.
pub open spec fn lower(s: Seq<char>) -> Seq<char> {
    s.map_values(|c: char| lower_char(c))
}

/// The character with an ASCII capital made small.
pub fn to_lower_char(c: char) -> (r: char)
    ensures
        r == lower_char(c),
{
    if 'A' <= c && c <= 'Z' {
        let b: u8 = c as u8;
        (b + 32) as char
    } else {
        c
    }
}

/// The string with every ASCII capital made small.
pub fn to_ascii_lowercase(s: &str) -> (r: String)
    ensures
        r@ == lower(s@),
{
    let a = chars_of(s);
    let mut r = String::new();
    let mut i: usize = 0;
    while i < a.len()
        invariant
            i <= a@.len(),
            a@ == s@,
            r@ == lower(s@).take(i as int),
        decreases a@.len() - i,
    {
        r.push(to_lower_char(a[i]));
        assert(lower(s@).take(i as int + 1) =~= lower(s@).take(i as int).push(
            lower_char(s@[i as int]),
        ));
        i = i + 1;
    }
    assert(lower(s@).take(s@.len() as int) =~= lower(s@));
    r
}

/// Whether two strings are equal but for the case of ASCII letters.
pub fn eq_ignore_ascii_case(a: &str, b: &str) -> (r: bool)
    ensures
        r == (lower(a@) == lower(b@)),
{
    let x = to_ascii_lowercase(a);
    let y = to_ascii_lowercase(b);
    str_eq(x.as_str(), y.as_str())
}

/// The number of bytes that UTF-8 takes for the character.
pub open spec fn char_bytes(c: char) -> nat {
    let u = c as u32;
    if u < 0x80 {
        1
    } else if u < 0x800 {
        2
    } else if u < 0x10000 {
        3
    } else {
        4
    }
}

/// The number of bytes that UTF-8 takes for the text.
pub open spec fn byte_len(s: Seq<char>) -> nat
    decreases s.len(),
{
    if s.len() == 0 {
        0
    } else {
        byte_len(s.drop_last()) + char_bytes(s.last())
    }
}

/// The beginning of the text that takes exactly `n` bytes in UTF-8; the whole
/// text where no such beginning exists.
pub open spec fn byte_prefix(s: Seq<char>, n: nat) -> Seq<char> {
    if exists|k: int| 0 <= k <= s.len() && byte_len(#[trigger] s.take(k)) == n {
        s.take(choose|k: int| 0 <= k <= s.len() && byte_len(#[trigger] s.take(k)) == n)
    } else {
        s
    }
}

proof fn lemma_byte_len_grows(s: Seq<char>, i: int, j: int)
    requires
        0 <= i < j <= s.len(),
    ensures
        byte_len(s.take(i)) < byte_len(s.take(j)),
    decreases j - i,
{
    assert(s.take(j).drop_last() =~= s.take(j - 1));
    if i < j - 1 {
        lemma_byte_len_grows(s, i, j - 1);
    }
}

/// The beginning of the string that takes exactly `n` bytes; the whole string
/// where no such beginning exists.
pub fn take_bytes(s: &str, n: usize) -> (r: String)
    requires
        n <= usize::MAX - 4,
    ensures
        r@ == byte_prefix(s@, n as nat),
{
    let a = chars_of(s);
    let mut i: usize = 0;
    let mut bytes: usize = 0;
    assert(s@.take(0) =~= Seq::<char>::empty());
    while i < a.len() && bytes < n
        invariant
            i <= a@.len(),
            a@ == s@,
            bytes == byte_len(s@.take(i as int)),
            forall|k: int| 0 <= k < i ==> byte_len(#[trigger] s@.take(k)) < n,
            bytes <= n + 3,
            n <= usize::MAX - 4,
        decreases a@.len() - i,
    {
        let u: u32 = a[i] as u32;
        let width: usize = if u < 0x80 {
            1
        } else if u < 0x800 {
            2
        } else if u < 0x10000 {
            3
        } else {
            4
        };
        assert(s@.take(i as int + 1).drop_last() =~= s@.take(i as int));
        bytes = bytes + width;
        i = i + 1;
    }
    if bytes == n {
        assert(byte_len(s@.take(i as int)) == n);
        let ghost k = choose|k: int| 0 <= k <= s@.len() && byte_len(#[trigger] s@.take(k)) == n;
        proof {
            if k < i {
                lemma_byte_len_grows(s@, k, i as int);
            } else if k > i {
                lemma_byte_len_grows(s@, i as int, k);
            }
        }
        assert(a@.subrange(0, i as int) =~= s@.take(i as int));
        text_of(&a, 0, i)
    } else {
        proof {
            if bytes > n {
                assert forall|k: int| 0 <= k <= s@.len() implies byte_len(#[trigger] s@.take(k))
                    != n by {
                    if k > i {
                        lemma_byte_len_grows(s@, i as int, k);
                    }
                }
            }
        }
        s.to_owned()
    }
}

/// Two strings, one after the other.
pub fn concat(a: &str, b: &str) -> (r: String)
    ensures
        r@ == a@ + b@,
{
    let mut r = a.to_owned();
    r.append(b);
    r
}

/// Whether one text comes before another in the order of their characters.
pub open spec fn precedes(a: Seq<char>, b: Seq<char>) -> bool
    decreases a.len(),
{
    if b.len() == 0 {
        false
    } else if a.len() == 0 {
        true
    } else if a[0] != b[0] {
        a[0] < b[0]
    } else {
        precedes(a.skip(1), b.skip(1))
    }
}

/// Whether one string comes before another in the order of their characters.
pub fn comes_before(a: &str, b: &str) -> (r: bool)
    ensures
        r == precedes(a@, b@),
{
    let x = chars_of(a);
    let y = chars_of(b);
    let mut i: usize = 0;
    assert(x@.skip(0) =~= x@);
    assert(y@.skip(0) =~= y@);
    while i < x.len() && i < y.len()
        invariant
            i <= x@.len(),
            i <= y@.len(),
            x@ == a@,
            y@ == b@,
            precedes(x@, y@) == precedes(x@.skip(i as int), y@.skip(i as int)),
        decreases x@.len() - i,
    {
        let p = x[i];
        let q = y[i];
        if p != q {
            return p < q;
        }
        assert(x@.skip(i as int).skip(1) =~= x@.skip(i as int + 1));
        assert(y@.skip(i as int).skip(1) =~= y@.skip(i as int + 1));
        i = i + 1;
    }
    i < y.len()
}

/// The order of texts is total.
pub proof fn lemma_precedes_total(a: Seq<char>, b: Seq<char>)
    ensures
        precedes(a, b) || precedes(b, a) || a == b,
        !(precedes(a, b) && precedes(b, a)),
        a == b ==> !precedes(a, b),
    decreases a.len(),
{
    if a.len() > 0 && b.len() > 0 && a[0] == b[0] {
        lemma_precedes_total(a.skip(1), b.skip(1));
        if a.skip(1) == b.skip(1) {
            assert(a =~= b) by {
                assert(a =~= seq![a[0]] + a.skip(1));
                assert(b =~= seq![b[0]] + b.skip(1));
            }
        }
    } else if a.len() == 0 && b.len() == 0 {
        assert(a =~= b);
    }
}

/// The order of texts is transitive.
pub proof fn lemma_precedes_transitive(a: Seq<char>, b: Seq<char>, c: Seq<char>)
    requires
        precedes(a, b),
        precedes(b, c),
    ensures
        precedes(a, c),
    decreases a.len(),
{
    if a.len() > 0 && b.len() > 0 && c.len() > 0 && a[0] == b[0] && b[0] == c[0] {
        lemma_precedes_transitive(a.skip(1), b.skip(1), c.skip(1));
    }
}

/// Whether every text of the list comes before those that follow it.
pub open spec fn ascending(list: Seq<Seq<char>>) -> bool {
    forall|i: int, j: int| 0 <= i < j < list.len() ==> precedes(#[trigger] list[i], #[trigger] list[j])
}

/// The ascending list with one more text in its place, unless it is there.
pub open spec fn placed(list: Seq<Seq<char>>, s: Seq<char>) -> Seq<Seq<char>>
    decreases list.len(),
{
    if list.len() == 0 {
        seq![s]
    } else if list.last() == s {
        list
    } else if precedes(list.last(), s) {
        list.push(s)
    } else {
        placed(list.drop_last(), s).push(list.last())
    }
}

/// Placing a text keeps an ascending list ascending and adds that text alone.
pub proof fn lemma_placed(list: Seq<Seq<char>>, s: Seq<char>)
    requires
        ascending(list),
    ensures
        ascending(placed(list, s)),
        forall|t: Seq<char>| #[trigger] placed(list, s).contains(t) <==> list.contains(t) || t == s,
    decreases list.len(),
{
    let r = placed(list, s);
    if list.len() == 0 {
        assert(r[0] == s);
    } else if list.last() == s {
        assert(list.contains(s));
    } else if precedes(list.last(), s) {
        assert forall|i: int, j: int| 0 <= i < j < r.len() implies precedes(
            #[trigger] r[i],
            #[trigger] r[j],
        ) by {
            if j == list.len() && i < list.len() - 1 {
                lemma_precedes_transitive(list[i], list.last(), s);
            }
        }
        assert forall|t: Seq<char>| #[trigger] r.contains(t) <==> list.contains(t) || t == s by {
            if list.contains(t) {
                let k = list.index_of(t);
                assert(r[k] == t);
            }
            assert(r[list.len() as int] == s);
        }
    } else {
        lemma_precedes_total(list.last(), s);
        let rest = list.drop_last();
        assert(ascending(rest));
        lemma_placed(rest, s);
        let inner = placed(rest, s);
        assert forall|i: int, j: int| 0 <= i < j < r.len() implies precedes(
            #[trigger] r[i],
            #[trigger] r[j],
        ) by {
            if j == r.len() - 1 {
                let t = inner[i];
                assert(inner.contains(t));
                if t != s {
                    let k = rest.index_of(t);
                    assert(precedes(list[k], list[list.len() - 1]));
                }
            } else {
                assert(r[i] == inner[i] && r[j] == inner[j]);
            }
        }
        assert forall|t: Seq<char>| #[trigger] r.contains(t) <==> list.contains(t) || t == s by {
            if r.contains(t) {
                let k = r.index_of(t);
                if k < inner.len() {
                    assert(inner.contains(inner[k]));
                    if rest.contains(t) {
                        assert(list[rest.index_of(t)] == t);
                    }
                } else {
                    assert(list[list.len() - 1] == t);
                }
            }
            if list.contains(t) {
                let k = list.index_of(t);
                if k < rest.len() {
                    assert(rest[k] == t);
                    assert(rest.contains(t));
                    assert(inner.contains(t));
                    assert(r[inner.index_of(t)] == t);
                } else {
                    assert(r[r.len() - 1] == t);
                }
            }
            if t == s {
                assert(inner.contains(s));
                assert(r[inner.index_of(s)] == s);
            }
        }
    }
}

/// Puts a text into its place in an ascending list, unless it is there.
pub fn place(list: &mut Vec<String>, s: &str)
    ensures
        views(final(list)@) == placed(views(old(list)@), s@),
{
    broadcast use group_views;

    let ghost all = views(list@);
    let mut n: usize = list.len();
    assert(all.take(n as int) =~= all);
    assert(placed(all, s@) =~= placed(all.take(n as int), s@) + all.skip(n as int));
    while n > 0
        invariant
            n <= list@.len(),
            all == views(list@),
            list@ == old(list)@,
            placed(all, s@) == placed(all.take(n as int), s@) + all.skip(n as int),
        decreases n,
    {
        assert(all.take(n as int).last() == list@[n - 1]@);
        if str_eq(list[n - 1].as_str(), s) {
            assert(all.take(n as int) + all.skip(n as int) =~= all);
            return ;
        }
        if comes_before(list[n - 1].as_str(), s) {
            let ghost before = list@;
            let text = s.to_owned();
            list.insert(n, text);
            assert(views(list@) =~= all.take(n as int).push(s@) + all.skip(n as int));
            return ;
        }
        assert(all.take(n as int).drop_last() =~= all.take(n as int - 1));
        assert(placed(all.take(n as int - 1), s@).push(all[n - 1]) + all.skip(n as int) =~= placed(
            all.take(n as int - 1),
            s@,
        ) + all.skip(n as int - 1));
        n = n - 1;
    }
    let text = s.to_owned();
    list.insert(0, text);
    assert(views(list@) =~= seq![s@] + all.skip(0));
}

proof fn lemma_trim_end(s: Seq<char>, j: int)
    requires
        0 <= j <= s.len(),
        forall|x: int| j <= x < s.len() ==> is_space(#[trigger] s[x]),
        j == 0 || !is_space(s[j - 1]),
    ensures
        trim_end(s) == s.take(j),
    decreases s.len(),
{
    if j < s.len() {
        let t = s.drop_last();
        assert(is_space(s[s.len() - 1]));
        assert forall|x: int| j <= x < t.len() implies is_space(#[trigger] t[x]) by {
            assert(t[x] == s[x]);
        }
        lemma_trim_end(t, j);
        assert(t.take(j) =~= s.take(j));
    } else {
        assert(s.take(j) =~= s);
    }
}

proof fn lemma_trim_start(s: Seq<char>, i: int)
    requires
        0 <= i <= s.len(),
        forall|x: int| 0 <= x < i ==> is_space(#[trigger] s[x]),
        i == s.len() || !is_space(s[i]),
    ensures
        trim_start(s) == s.skip(i),
    decreases s.len(),
{
    if i > 0 {
        let t = s.skip(1);
        assert(is_space(s[0]));
        assert forall|x: int| 0 <= x < i - 1 implies is_space(#[trigger] t[x]) by {
            assert(t[x] == s[x + 1]);
        }
        lemma_trim_start(t, i - 1);
        assert(t.skip(i - 1) =~= s.skip(i));
    } else {
        assert(s.skip(0) =~= s);
    }
}

/// Trimming takes off the white space on both ends and nothing else: what stands between
/// the first and the last character that is none comes out unchanged, and of a string of
/// white space nothing is left.
pub proof fn law_trimming_keeps_what_is_between(s: Seq<char>, i: int, j: int)
    requires
        0 <= i <= j <= s.len(),
        forall|x: int| 0 <= x < i ==> is_space(#[trigger] s[x]),
        forall|x: int| j <= x < s.len() ==> is_space(#[trigger] s[x]),
        i < j ==> !is_space(s[i]) && !is_space(s[j - 1]),
    ensures
        trimmed(s) == s.subrange(i, j),
{
    if i < j {
        lemma_trim_end(s, j);
        let t = s.take(j);
        assert forall|x: int| 0 <= x < i implies is_space(#[trigger] t[x]) by {
            assert(t[x] == s[x]);
        }
        assert(t[i] == s[i]);
        lemma_trim_start(t, i);
        assert(t.skip(i) =~= s.subrange(i, j));
    } else {
        assert forall|x: int| 0 <= x < s.len() implies is_space(#[trigger] s[x]) by {}
        lemma_trim_end(s, 0);
        assert(s.take(0) =~= Seq::<char>::empty());
        assert(s.subrange(i, j) =~= Seq::<char>::empty());
    }
}

/// What follows a separator is split on its own.
pub proof fn lemma_split_at_separator(s: Seq<char>, t: Seq<char>, sep: char)
    ensures
        split(s.push(sep) + t, sep) == split(s, sep) + split(t, sep),
    decreases t.len(),
{
    lemma_split_nonempty(s, sep);
    lemma_split_nonempty(t, sep);
    if t.len() == 0 {
        assert(s.push(sep) + t =~= s.push(sep));
        assert(s.push(sep).drop_last() =~= s);
        assert(split(s.push(sep), sep) =~= split(s, sep) + split(t, sep));
    } else {
        let u = t.drop_last();
        lemma_split_at_separator(s, u, sep);
        lemma_split_nonempty(u, sep);
        let all = s.push(sep) + t;
        assert(all.drop_last() =~= s.push(sep) + u);
        assert(all.last() == t.last());
        assert(split(all, sep) =~= split(s, sep) + split(t, sep));
    }
}

/// The first piece reaches to the first separator, and the others are the pieces of what
/// follows it.
pub proof fn law_pieces_reach_to_the_separators(s: Seq<char>, sep: char, k: int)
    requires
        0 <= k <= s.len(),
        forall|x: int| 0 <= x < k ==> (#[trigger] s[x]) != sep,
        k < s.len() ==> s[k] == sep,
    ensures
        split(s, sep)[0] == s.take(k),
        k == s.len() ==> split(s, sep).len() == 1,
        k < s.len() ==> split(s, sep).skip(1) == split(s.skip(k + 1), sep),
{
    let head = s.take(k);
    assert(!head.contains(sep));
    lemma_split_extends(Seq::empty(), head, sep);
    assert(Seq::<char>::empty() + head =~= head);
    assert(split(head, sep) =~= seq![head]);
    if k < s.len() {
        let rest = s.skip(k + 1);
        lemma_split_at_separator(head, rest, sep);
        assert(head.push(sep) + rest =~= s);
        assert((seq![head] + split(rest, sep)).skip(1) =~= split(rest, sep));
    } else {
        assert(head =~= s);
    }
}

/// Joining the pieces with the separator gives the string back.
pub proof fn law_pieces_join_to_the_string(s: Seq<char>, sep: char)
    ensures
        joined(split(s, sep), seq![sep]) == s,
    decreases s.len(),
{
    if s.len() > 0 {
        let t = s.drop_last();
        law_pieces_join_to_the_string(t, sep);
        lemma_split_nonempty(t, sep);
        let before = split(t, sep);
        let all = split(s, sep);
        if s.last() == sep {
            assert(all.drop_last() =~= before);
            assert(joined(all, seq![sep]) =~= t + seq![sep]);
        } else {
            assert(all.drop_last() =~= before.drop_last());
            assert(joined(all, seq![sep]) =~= joined(before, seq![sep]).push(s.last()));
        }
    }
}

/// Lower case changes the twenty-six capital letters of ASCII and nothing else, each to
/// the small letter thirty-two places on.
pub proof fn law_lower_case_changes_capitals_only(s: Seq<char>, i: int)
    requires
        0 <= i < s.len(),
    ensures
        lower(s).len() == s.len(),
        'A' <= s[i] <= 'Z' ==> lower(s)[i] as int == s[i] as int + 32,
        !('A' <= s[i] <= 'Z') ==> lower(s)[i] == s[i],
{
}

/// The prefix of so many bytes is a prefix, and it has so many bytes, where the string
/// can be cut there; otherwise it is the whole string.
pub proof fn law_byte_prefixes_have_their_length(s: Seq<char>, n: nat, k: int)
    requires
        0 <= k <= s.len(),
    ensures
        begins(s, byte_prefix(s, n)),
        byte_len(s.take(k)) == n ==> byte_len(byte_prefix(s, n)) == n,
        byte_prefix(s, n) == s || byte_len(byte_prefix(s, n)) == n,
{
    let p = byte_prefix(s, n);
    if exists|k: int| 0 <= k <= s.len() && byte_len(#[trigger] s.take(k)) == n {
        let m = choose|k: int| 0 <= k <= s.len() && byte_len(#[trigger] s.take(k)) == n;
        assert(p == s.take(m));
        assert(s.take(p.len() as int) =~= p);
    } else {
        assert(s.take(s.len() as int) =~= s);
    }
}

/// White space is what is blank in ASCII and, beyond it, the next line, the spaces of any
/// width, and the separators of lines and paragraphs; no letter, digit or mark of ASCII is.
pub proof fn law_white_space_is_blank(c: char)
    ensures
        is_space(' ') && is_space('\t') && is_space('\n') && is_space('\r'),
        is_space('\u{b}') && is_space('\u{c}') && is_space('\u{85}') && is_space('\u{a0}'),
        is_space('\u{1680}') && is_space('\u{2000}') && is_space('\u{200a}'),
        is_space('\u{2028}') && is_space('\u{2029}') && is_space('\u{202f}'),
        is_space('\u{205f}') && is_space('\u{3000}'),
        '!' <= c <= '~' ==> !is_space(c),
        !is_space('\u{200b}') && !is_space('\u{feff}') && !is_space('\u{8}'),
        is_alphanumeric(c) || is_hex_digit(c) ==> '0' <= c <= 'z',
        is_hex_digit(c) <==> '0' <= c <= '9' || 'a' <= c <= 'f' || 'A' <= c <= 'F',
{
}

/// Texts are ordered by the first place where they differ, and one that only goes on comes
/// after.
pub proof fn law_texts_are_ordered_by_their_first_difference(a: Seq<char>, b: Seq<char>, k: int)
    requires
        0 <= k <= a.len(),
        k <= b.len(),
        a.take(k) == b.take(k),
    ensures
        k < a.len() && k < b.len() && a[k] != b[k] ==> (precedes(a, b) <==> a[k] < b[k]),
        k == a.len() ==> (precedes(a, b) <==> a.len() < b.len()),
        k == b.len() ==> !precedes(a, b),
    decreases k,
{
    if k > 0 {
        assert(a.take(k)[0] == a[0] && b.take(k)[0] == b[0]);
        let x = a.skip(1);
        let y = b.skip(1);
        assert forall|i: int| 0 <= i < k - 1 implies x[i] == y[i] by {
            assert(a.take(k)[i + 1] == a[i + 1] && b.take(k)[i + 1] == b[i + 1]);
            assert(x[i] == a[i + 1] && y[i] == b[i + 1]);
        }
        assert(x.take(k - 1) =~= y.take(k - 1));
        law_texts_are_ordered_by_their_first_difference(x, y, k - 1);
    }
}

/// A list that is added to holds what was added and what it held, and nothing twice that it
/// did not hold twice.
pub proof fn law_lists_hold_what_is_added(list: Seq<Seq<char>>, s: Seq<char>, t: Seq<char>)
    ensures
        inserted(list, s).contains(t) <==> list.contains(t) || t == s,
        list.contains(s) ==> inserted(list, s) == list,
        !list.contains(s) ==> inserted(list, s).len() == list.len() + 1,
{
    let r = inserted(list, s);
    if !list.contains(s) {
        assert(r.last() == s);
    }
    if list.contains(t) {
        let k = choose|k: int| 0 <= k < list.len() && list[k] == t;
        assert(r[k] == t);
    }
    if r.contains(t) && t != s {
        let k = choose|k: int| 0 <= k < r.len() && r[k] == t;
        assert(list[k] == t);
    }
}

} // verus!
