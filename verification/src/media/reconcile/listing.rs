//! The order in which the entries of a directory are walked.

use vstd::prelude::*;
use crate::digest;
use crate::text;
use super::inventory;
use super::inventory::{visit_entry, DirectoryEntry, DirectoryEntryView, Location, Visit};

verus! {

/// Whether one name comes before another in the order of their bytes.
pub open spec fn bytes_precede(a: Seq<u8>, b: Seq<u8>) -> bool
    decreases a.len(),
{
    if b.len() == 0 {
        false
    } else if a.len() == 0 {
        true
    } else if a[0] != b[0] {
        a[0] < b[0]
    } else {
        bytes_precede(a.skip(1), b.skip(1))
    }
}

/// Whether one name comes before another in the order of their bytes.
fn comes_first(a: &Vec<u8>, b: &Vec<u8>) -> (r: bool)
    ensures
        r == bytes_precede(a@, b@),
{
    let mut i: usize = 0;
    assert(a@.skip(0) =~= a@);
    assert(b@.skip(0) =~= b@);
    while i < a.len() && i < b.len()
        invariant
            i <= a@.len(),
            i <= b@.len(),
            bytes_precede(a@, b@) == bytes_precede(a@.skip(i as int), b@.skip(i as int)),
        decreases a@.len() - i,
    {
        if a[i] != b[i] {
            return a[i] < b[i];
        }
        assert(a@.skip(i as int).skip(1) =~= a@.skip(i as int + 1));
        assert(b@.skip(i as int).skip(1) =~= b@.skip(i as int + 1));
        i = i + 1;
    }
    i < b.len()
}

/// The bytes by which an entry is put in order: those of its name, and a slash where
/// it is a directory that is walked, since the paths of what it holds go on so.
pub open spec fn walk_name(
    entry: DirectoryEntryView,
    location: Location,
    boards: Seq<Seq<char>>,
) -> Seq<u8> {
    if inventory::decision(location, None, entry, boards) is Descend {
        entry.raw_name.push(47u8)
    } else {
        entry.raw_name
    }
}

fn name_in_walk(entry: &DirectoryEntry, location: Location, boards: &Vec<String>) -> (r: Vec<u8>)
    ensures
        r@ == walk_name(entry@, location, text::views(boards@)),
{
    let mut name = entry.raw_name.clone();
    assert(name@ =~= entry.raw_name@);
    match visit_entry(location, &None, entry, boards) {
        Visit::Descend { .. } => {
            name.push(47u8);
        },
        _ => {},
    }
    name
}

/// The ordered entries with one more in its place.
pub open spec fn with_name(
    list: Seq<DirectoryEntryView>,
    entry: DirectoryEntryView,
    location: Location,
    boards: Seq<Seq<char>>,
) -> Seq<DirectoryEntryView>
    decreases list.len(),
{
    if list.len() == 0 || !bytes_precede(
        walk_name(list[0], location, boards),
        walk_name(entry, location, boards),
    ) {
        seq![entry] + list
    } else {
        seq![list[0]] + with_name(list.skip(1), entry, location, boards)
    }
}

/// The entries of a directory in the order in which they are walked.
pub open spec fn in_walk_order(
    list: Seq<DirectoryEntryView>,
    location: Location,
    boards: Seq<Seq<char>>,
) -> Seq<DirectoryEntryView>
    decreases list.len(),
{
    if list.len() == 0 {
        list
    } else {
        with_name(in_walk_order(list.skip(1), location, boards), list[0], location, boards)
    }
}

/// Whether the bytes are those by which the entries are put in order.
spec fn are_names(
    names: Seq<Vec<u8>>,
    list: Seq<DirectoryEntryView>,
    location: Location,
    boards: Seq<Seq<char>>,
) -> bool {
    names.len() == list.len() && forall|i: int|
        0 <= i < list.len() ==> (#[trigger] names[i])@ == walk_name(list[i], location, boards)
}

/// Puts an entry into its place among others.
fn put_entry(
    list: &mut Vec<DirectoryEntry>,
    names: &mut Vec<Vec<u8>>,
    entry: DirectoryEntry,
    location: Location,
    boards: &Vec<String>,
)
    requires
        are_names(old(names)@, text::views(old(list)@), location, text::views(boards@)),
    ensures
        text::views(final(list)@) == with_name(
            text::views(old(list)@),
            entry@,
            location,
            text::views(boards@),
        ),
        are_names(final(names)@, text::views(final(list)@), location, text::views(boards@)),
{
    broadcast use text::group_views;

    let ghost known = text::views(boards@);
    let ghost all = text::views(list@);
    let ghost added = entry@;
    let ghost before = names@;
    let name = name_in_walk(&entry, location, boards);
    let mut n: usize = 0;
    assert(all.skip(0) =~= all);
    assert(with_name(all, added, location, known) =~= all.take(0) + with_name(
        all.skip(0),
        added,
        location,
        known,
    ));
    while n < list.len() && comes_first(&names[n], &name)
        invariant
            n <= list@.len(),
            all == text::views(list@),
            before == names@,
            are_names(before, all, location, known),
            name@ == walk_name(added, location, known),
            with_name(all, added, location, known) == all.take(n as int) + with_name(
                all.skip(n as int),
                added,
                location,
                known,
            ),
        decreases list@.len() - n,
    {
        assert(all.skip(n as int)[0] == all[n as int]);
        assert(all.skip(n as int).skip(1) =~= all.skip(n as int + 1));
        assert(all.take(n as int) + (seq![all[n as int]] + with_name(
            all.skip(n as int + 1),
            added,
            location,
            known,
        )) =~= all.take(n as int + 1) + with_name(all.skip(n as int + 1), added, location, known));
        n = n + 1;
    }
    assert(n < all.len() ==> all.skip(n as int)[0] == all[n as int]);
    assert(with_name(all.skip(n as int), added, location, known) == seq![added] + all.skip(
        n as int,
    ));
    list.insert(n, entry);
    names.insert(n, name);
    assert(text::views(list@) =~= all.take(n as int) + (seq![added] + all.skip(n as int)));
    let ghost listed = text::views(list@);
    assert forall|i: int| 0 <= i < listed.len() implies (#[trigger] names@[i])@ == walk_name(
        listed[i],
        location,
        known,
    ) by {
        if i < n {
            assert(names@[i] == before[i] && listed[i] == all[i]);
        } else if i > n {
            assert(names@[i] == before[i - 1] && listed[i] == all[i - 1]);
        }
    }
}

/// Puts the entries of a directory into the order in which they are walked.
pub fn sorted_directory_entries(
    entries: Vec<DirectoryEntry>,
    location: Location,
    boards: &Vec<String>,
) -> (r: Vec<DirectoryEntry>)
    ensures
        text::views(r@) == in_walk_order(text::views(entries@), location, text::views(boards@)),
{
    broadcast use text::group_views;

    let ghost known = text::views(boards@);
    let ghost all = text::views(entries@);
    let mut rest = entries;
    let mut sorted: Vec<DirectoryEntry> = Vec::new();
    let mut names: Vec<Vec<u8>> = Vec::new();
    assert(all.skip(all.len() as int) =~= Seq::<DirectoryEntryView>::empty());
    assert(text::views(sorted@) =~= Seq::<DirectoryEntryView>::empty());
    assert(text::views(rest@) =~= all.take(all.len() as int));
    while rest.len() > 0
        invariant
            rest@.len() <= all.len(),
            known == text::views(boards@),
            text::views(rest@) == all.take(rest@.len() as int),
            text::views(sorted@) == in_walk_order(all.skip(rest@.len() as int), location, known),
            are_names(names@, text::views(sorted@), location, known),
        decreases rest@.len(),
    {
        broadcast use text::group_views;

        let ghost n = rest@.len() as int;
        let ghost before = text::views(rest@);
        match rest.pop() {
            Some(entry) => {
                assert(before[n - 1] == entry@);
                assert(all.skip(n - 1)[0] == entry@);
                assert(all.skip(n - 1).skip(1) =~= all.skip(n));
                put_entry(&mut sorted, &mut names, entry, location, boards);
                assert(text::views(rest@) =~= all.take(n - 1));
            },
            None => {},
        }
    }
    assert(all.skip(0) =~= all);
    sorted
}

/// Whether no entry comes before one that stands earlier.
pub open spec fn ordered(
    list: Seq<DirectoryEntryView>,
    location: Location,
    boards: Seq<Seq<char>>,
) -> bool {
    forall|i: int, j: int|
        0 <= i < j < list.len() ==> !bytes_precede(
            walk_name(#[trigger] list[j], location, boards),
            walk_name(#[trigger] list[i], location, boards),
        )
}

pub(crate) proof fn lemma_bytes_order(a: Seq<u8>, b: Seq<u8>, c: Seq<u8>)
    ensures
        bytes_precede(a, b) ==> !bytes_precede(b, a),
        !bytes_precede(b, a) && !bytes_precede(c, b) ==> !bytes_precede(c, a),
    decreases a.len() + b.len() + c.len(),
{
    if a.len() > 0 && b.len() > 0 {
        if c.len() > 0 {
            lemma_bytes_order(a.skip(1), b.skip(1), c.skip(1));
        } else {
            lemma_bytes_order(a.skip(1), b.skip(1), c);
        }
    }
}

proof fn lemma_front(list: Seq<DirectoryEntryView>, entry: DirectoryEntryView)
    ensures
        (seq![entry] + list).to_multiset() =~= list.to_multiset().insert(entry),
{
    broadcast use vstd::seq_lib::group_to_multiset_ensures;

    let r = seq![entry] + list;
    assert(r.remove(0) =~= list);
    assert(r[0] == entry);
    assert(r.contains(entry));
    assert(r.to_multiset().count(entry) > 0);
}

proof fn lemma_with_name(
    list: Seq<DirectoryEntryView>,
    entry: DirectoryEntryView,
    location: Location,
    boards: Seq<Seq<char>>,
)
    requires
        ordered(list, location, boards),
    ensures
        ordered(with_name(list, entry, location, boards), location, boards),
        with_name(list, entry, location, boards).to_multiset() =~= list.to_multiset().insert(entry),
        forall|k: int|
            0 <= k < with_name(list, entry, location, boards).len() ==> (#[trigger] with_name(
                list,
                entry,
                location,
                boards,
            )[k]) == entry || list.contains(with_name(list, entry, location, boards)[k]),
    decreases list.len(),
{
    let r = with_name(list, entry, location, boards);
    let name = walk_name(entry, location, boards);
    if list.len() == 0 || !bytes_precede(walk_name(list[0], location, boards), name) {
        assert forall|i: int, j: int| 0 <= i < j < r.len() implies !bytes_precede(
            walk_name(#[trigger] r[j], location, boards),
            walk_name(#[trigger] r[i], location, boards),
        ) by {
            assert(r[j] == list[j - 1]);
            if i > 0 {
                assert(r[i] == list[i - 1]);
            } else if j > 1 {
                lemma_bytes_order(
                    name,
                    walk_name(list[0], location, boards),
                    walk_name(list[j - 1], location, boards),
                );
            }
        }
        assert forall|k: int| 0 <= k < r.len() implies (#[trigger] r[k]) == entry || list.contains(
            r[k],
        ) by {
            if k > 0 {
                assert(r[k] == list[k - 1]);
            }
        }
        lemma_front(list, entry);
    } else {
        let first = list[0];
        let rest = list.skip(1);
        assert forall|i: int, j: int| 0 <= i < j < rest.len() implies !bytes_precede(
            walk_name(#[trigger] rest[j], location, boards),
            walk_name(#[trigger] rest[i], location, boards),
        ) by {
            assert(rest[j] == list[j + 1] && rest[i] == list[i + 1]);
        }
        lemma_with_name(rest, entry, location, boards);
        let inner = with_name(rest, entry, location, boards);
        assert forall|i: int, j: int| 0 <= i < j < r.len() implies !bytes_precede(
            walk_name(#[trigger] r[j], location, boards),
            walk_name(#[trigger] r[i], location, boards),
        ) by {
            assert(r[j] == inner[j - 1]);
            if i > 0 {
                assert(r[i] == inner[i - 1]);
            } else if inner[j - 1] == entry {
                lemma_bytes_order(walk_name(first, location, boards), name, name);
            } else {
                let k = rest.index_of(inner[j - 1]);
                assert(list[k + 1] == rest[k]);
            }
        }
        assert forall|k: int| 0 <= k < r.len() implies (#[trigger] r[k]) == entry || list.contains(
            r[k],
        ) by {
            if k == 0 {
                assert(list[0] == first);
            } else {
                assert(r[k] == inner[k - 1]);
                if inner[k - 1] != entry {
                    let x = rest.index_of(inner[k - 1]);
                    assert(list[x + 1] == rest[x]);
                }
            }
        }
        assert(list =~= seq![first] + rest);
        lemma_front(inner, first);
        lemma_front(rest, first);
    }
}

/// Ordering the entries of a directory loses and adds none.
pub proof fn law_listings_are_ordered(
    list: Seq<DirectoryEntryView>,
    location: Location,
    boards: Seq<Seq<char>>,
)
    ensures
        ordered(in_walk_order(list, location, boards), location, boards),
        in_walk_order(list, location, boards).to_multiset() =~= list.to_multiset(),
    decreases list.len(),
{
    if list.len() > 0 {
        let rest = list.skip(1);
        law_listings_are_ordered(rest, location, boards);
        lemma_with_name(in_walk_order(rest, location, boards), list[0], location, boards);
        assert(list =~= seq![list[0]] + rest);
        lemma_front(rest, list[0]);
    }
}

pub(crate) proof fn lemma_common_head(head: Seq<u8>, a: Seq<u8>, b: Seq<u8>)
    ensures
        bytes_precede(head + a, head + b) == bytes_precede(a, b),
    decreases head.len(),
{
    if head.len() == 0 {
        assert(head + a =~= a);
        assert(head + b =~= b);
    } else {
        assert((head + a).skip(1) =~= head.skip(1) + a);
        assert((head + b).skip(1) =~= head.skip(1) + b);
        lemma_common_head(head.skip(1), a, b);
    }
}

/// Hexadecimal keys are in the order of the bytes that they stand for.
pub(crate) proof fn lemma_hex_keeps_order(a: Seq<u8>, b: Seq<u8>)
    ensures
        text::precedes(digest::hex_text(a), digest::hex_text(b)) == bytes_precede(a, b),
    decreases a.len(),
{
    let x = digest::hex_text(a);
    let y = digest::hex_text(b);
    reveal_with_fuel(text::precedes, 3);
    if a.len() > 0 && b.len() > 0 {
        let x2 = digest::hex_text(a.skip(1));
        let y2 = digest::hex_text(b.skip(1));
        assert(x.skip(1).skip(1) =~= x2) by {
            assert forall|i: int| 0 <= i < x2.len() implies x2[i] == x.skip(1).skip(1)[i] by {
                assert((i + 2) / 2 == i / 2 + 1);
                assert((i + 2) % 2 == i % 2);
            }
        }
        assert(y.skip(1).skip(1) =~= y2) by {
            assert forall|i: int| 0 <= i < y2.len() implies y2[i] == y.skip(1).skip(1)[i] by {
                assert((i + 2) / 2 == i / 2 + 1);
                assert((i + 2) % 2 == i % 2);
            }
        }
        lemma_hex_keeps_order(a.skip(1), b.skip(1));
        assert(x[0] == digest::hex_digit(a[0] as int / 16));
        assert(x[1] == digest::hex_digit(a[0] as int % 16));
        assert(y[0] == digest::hex_digit(b[0] as int / 16));
        assert(y[1] == digest::hex_digit(b[0] as int % 16));
        assert(x.skip(1)[0] == x[1]);
        assert(y.skip(1)[0] == y[1]);
    }
}

/// Bytes come before others exactly where they are a shorter beginning of them, or have the
/// lesser byte at the first place where they differ.
pub proof fn law_bytes_are_ordered_by_their_first_difference(a: Seq<u8>, b: Seq<u8>, k: int)
    requires
        0 <= k <= a.len(),
        k <= b.len(),
        a.take(k) == b.take(k),
    ensures
        k < a.len() && k < b.len() && a[k] != b[k] ==> (bytes_precede(a, b) <==> a[k] < b[k]),
        k == a.len() ==> (bytes_precede(a, b) <==> a.len() < b.len()),
        k == b.len() ==> !bytes_precede(a, b),
    decreases k,
{
    if k > 0 {
        assert(a.take(k)[0] == a[0] && b.take(k)[0] == b[0]);
        let x = a.skip(1);
        let y = b.skip(1);
        assert forall|i: int| 0 <= i < k - 1 implies x[i] == y[i] by {
            assert(a.take(k)[i + 1] == a[i + 1] && b.take(k)[i + 1] == b[i + 1]);
            assert(x[i] == a[i + 1] && y[i] == b[i + 1]);
        }
        assert(x.take(k - 1) =~= y.take(k - 1));
        law_bytes_are_ordered_by_their_first_difference(x, y, k - 1);
    }
}

} // verus!
