//! What a whole walk puts on its pages, and how pages follow one another.

use vstd::prelude::*;
use crate::digest;
use crate::text;
use super::inventory;
use super::inventory::{
    Decision, DirectoryEntryView, EntryView, FrameView, ListingView, Location, PageView,
    RelativePathView, RequestView, WalkerView,
};
use super::listing;

verus! {

/// How far a directory is from the deepest ones.
pub open spec fn height(location: Location) -> nat {
    match location {
        Location::Root => 4,
        Location::PendingRoot => 3,
        Location::Stage => 2,
        Location::StageBoard => 1,
        Location::StageThumbnails => 0,
        Location::Board => 1,
        Location::Thumbnails => 0,
    }
}

/// The entries that the walk finds in a directory among those still to come, and in
/// the directories below it. `listings` says what listing a directory gives, by the
/// bytes of its path.
pub open spec fn found(
    boards: Seq<Seq<char>>,
    listings: spec_fn(Seq<u8>) -> ListingView,
    location: Location,
    board: Option<Seq<char>>,
    path: RelativePathView,
    rest: Seq<DirectoryEntryView>,
) -> Seq<EntryView>
    decreases height(location), rest.len(),
{
    if rest.len() == 0 {
        Seq::empty()
    } else {
        let child = inventory::child_path(path, rest[0]);
        let first = match inventory::decision(location, board, rest[0], boards) {
            Decision::Record { board: owner, category, kind } => seq![
                inventory::listed_entry(child, owner, category, kind),
            ],
            Decision::Descend { location: below, board: owner } => match listings(child.raw) {
                ListingView::Entries(entries) => found(
                    boards,
                    listings,
                    below,
                    owner,
                    child,
                    listing::in_walk_order(entries, below, boards),
                ),
                ListingView::Failed(_) => seq![
                    inventory::unlisted_entry(
                        RequestView { location: below, board: owner, path: child },
                    ),
                ],
            },
            Decision::Skip => Seq::empty(),
        };
        first + found(boards, listings, location, board, path, rest.skip(1))
    }
}

/// All entries that the walk finds below the upload root.
pub open spec fn all_found(boards: Seq<Seq<char>>, listings: spec_fn(Seq<u8>) -> ListingView) -> Seq<
    EntryView,
> {
    match listings(Seq::empty()) {
        ListingView::Entries(entries) => found(
            boards,
            listings,
            Location::Root,
            None,
            inventory::root_path(),
            listing::in_walk_order(entries, Location::Root, boards),
        ),
        ListingView::Failed(_) => Seq::empty(),
    }
}

/// Whether the names of a directory's entries are such as filesystems give: not empty,
/// without slashes, and each once.
pub open spec fn names_fit(entries: Seq<DirectoryEntryView>) -> bool {
    &&& forall|i: int|
        0 <= i < entries.len() ==> (#[trigger] entries[i]).raw_name.len() > 0
            && !entries[i].raw_name.contains(47u8)
    &&& forall|i: int, j: int|
        0 <= i < j < entries.len() ==> (#[trigger] entries[i]).raw_name != (
        #[trigger] entries[j]).raw_name
}

/// Whether every directory holds names such as filesystems give.
pub open spec fn is_tree(listings: spec_fn(Seq<u8>) -> ListingView) -> bool {
    forall|path: Seq<u8>|
        (#[trigger] listings(path)) is Entries ==> names_fit(listings(path)->Entries_0)
}

/// Whether the keys of entries ascend, so that no key occurs twice.
pub open spec fn keys_ascend(entries: Seq<EntryView>) -> bool {
    forall|i: int, j: int|
        0 <= i < j < entries.len() ==> text::precedes(
            (#[trigger] entries[i]).sort_key,
            (#[trigger] entries[j]).sort_key,
        )
}

/// Whether the key of an entry stands for the given bytes, in two parts.
pub open spec fn key_of(entry: EntryView, head: Seq<u8>, tail: Seq<u8>) -> bool {
    entry.sort_key == digest::hex_text(head + tail)
}

/// Whether the key of an entry stands for bytes that begin with the given ones.
pub open spec fn key_begins(entry: EntryView, head: Seq<u8>) -> bool {
    exists|tail: Seq<u8>| key_of(entry, head, tail)
}

/// Whether the keys of entries stand for bytes that begin with the given ones.
pub open spec fn keys_begin(entries: Seq<EntryView>, head: Seq<u8>) -> bool {
    forall|i: int|
        0 <= i < entries.len() ==> key_begins(#[trigger] entries[i], head)
}

/// What the paths of a directory's entries begin with.
pub open spec fn head_of(path: RelativePathView) -> Seq<u8> {
    if path.raw.len() == 0 {
        Seq::empty()
    } else {
        path.raw.push(47u8)
    }
}

proof fn lemma_total(a: Seq<u8>, b: Seq<u8>)
    ensures
        a == b || listing::bytes_precede(a, b) || listing::bytes_precede(b, a),
    decreases a.len(),
{
    if a.len() == 0 || b.len() == 0 {
        if a.len() == 0 && b.len() == 0 {
            assert(a =~= b);
        }
    } else {
        lemma_total(a.skip(1), b.skip(1));
        if a[0] == b[0] && a.skip(1) == b.skip(1) {
            assert(a =~= seq![a[0]] + a.skip(1));
            assert(b =~= seq![b[0]] + b.skip(1));
        }
    }
}

/// Names in order stay so whatever follows the later one, and whatever follows both
/// where the earlier is no beginning of the later.
proof fn lemma_tails(a: Seq<u8>, x: Seq<u8>, b: Seq<u8>, y: Seq<u8>)
    requires
        listing::bytes_precede(a, b),
    ensures
        x.len() == 0 || !(a.len() <= b.len() && b.take(a.len() as int) == a)
            ==> listing::bytes_precede(a + x, b + y),
    decreases a.len(),
{
    assert((b + y)[0] == b[0]);
    assert((b + y).skip(1) =~= b.skip(1) + y);
    if a.len() == 0 {
        assert(b.take(0) =~= a);
        assert(a + x =~= x);
    } else {
        assert((a + x).skip(1) =~= a.skip(1) + x);
        assert((a + x)[0] == a[0]);
        if a[0] == b[0] {
            lemma_tails(a.skip(1), x, b.skip(1), y);
            if x.len() > 0 && a.len() <= b.len() && b.skip(1).take(a.len() - 1) == a.skip(1) {
                assert(b.take(a.len() as int) =~= seq![b[0]] + b.skip(1).take(a.len() - 1));
                assert(a =~= seq![a[0]] + a.skip(1));
            }
        }
    }
}

/// What is found below one entry has keys that begin with the path of the entry; they
/// go on with a slash where the entry is a directory that is walked, and end there
/// where it is not.
proof fn lemma_keys_begin(
    boards: Seq<Seq<char>>,
    listings: spec_fn(Seq<u8>) -> ListingView,
    location: Location,
    board: Option<Seq<char>>,
    path: RelativePathView,
    rest: Seq<DirectoryEntryView>,
)
    requires
        forall|i: int| 0 <= i < rest.len() ==> (#[trigger] rest[i]).raw_name.len() > 0,
        is_tree(listings),
    ensures
        keys_begin(found(boards, listings, location, board, path, rest), head_of(path)),
        rest.len() > 0 ==> keys_begin(
            first_found(boards, listings, location, board, path, rest),
            head_of(path) + listing::walk_name(rest[0], location, boards),
        ),
        rest.len() > 0 && !(inventory::decision(location, board, rest[0], boards) is Descend)
            ==> forall|i: int|
            0 <= i < first_found(boards, listings, location, board, path, rest).len()
                ==> (#[trigger] first_found(boards, listings, location, board, path, rest)[i]).sort_key
                == digest::hex_text(
                head_of(path) + listing::walk_name(rest[0], location, boards),
            ),
    decreases height(location), rest.len(),
{
    if rest.len() > 0 {
        let child = inventory::child_path(path, rest[0]);
        let name = listing::walk_name(rest[0], location, boards);
        let first = first_found(boards, listings, location, board, path, rest);
        let later = found(boards, listings, location, board, path, rest.skip(1));
        lemma_keys_begin(boards, listings, location, board, path, rest.skip(1));
        assert(child.raw =~= head_of(path) + rest[0].raw_name);
        match inventory::decision(location, board, rest[0], boards) {
            Decision::Record { board: owner, category, kind } => {
                assert(head_of(path) + name + Seq::<u8>::empty() =~= child.raw);
                assert(key_of(first[0], head_of(path) + name, Seq::<u8>::empty()));
            },
            Decision::Descend { location: below, board: owner } => {
                assert(head_of(child) =~= head_of(path) + name);
                match listings(child.raw) {
                    ListingView::Entries(entries) => {
                        let sorted = listing::in_walk_order(entries, below, boards);
                        lemma_names_stay(entries, below, boards);
                        lemma_keys_begin(boards, listings, below, owner, child, sorted);
                    },
                    ListingView::Failed(_) => {
                        assert(head_of(child) + Seq::<u8>::empty() =~= child.raw.push(47u8));
                        assert(key_of(first[0], head_of(path) + name, Seq::<u8>::empty()));
                    },
                }
            },
            Decision::Skip => {},
        }
        let both = found(boards, listings, location, board, path, rest);
        assert(both == first + later);
        assert forall|i: int| 0 <= i < both.len() implies key_begins(
            #[trigger] both[i],
            head_of(path),
        ) by {
            if i < first.len() {
                assert(both[i] == first[i]);
                assert(key_begins(first[i], head_of(path) + name));
                let tail = choose|tail: Seq<u8>| key_of(first[i], head_of(path) + name, tail);
                assert(head_of(path) + name + tail =~= head_of(path) + (name + tail));
                assert(key_of(both[i], head_of(path), name + tail));
            } else {
                assert(both[i] == later[i - first.len()]);
            }
        }
    }
}

/// What is found at the first of a directory's entries.
pub open spec fn first_found(
    boards: Seq<Seq<char>>,
    listings: spec_fn(Seq<u8>) -> ListingView,
    location: Location,
    board: Option<Seq<char>>,
    path: RelativePathView,
    rest: Seq<DirectoryEntryView>,
) -> Seq<EntryView> {
    let child = inventory::child_path(path, rest[0]);
    match inventory::decision(location, board, rest[0], boards) {
        Decision::Record { board: owner, category, kind } => seq![
            inventory::listed_entry(child, owner, category, kind),
        ],
        Decision::Descend { location: below, board: owner } => match listings(child.raw) {
            ListingView::Entries(entries) => found(
                boards,
                listings,
                below,
                owner,
                child,
                listing::in_walk_order(entries, below, boards),
            ),
            ListingView::Failed(_) => seq![
                inventory::unlisted_entry(
                    RequestView { location: below, board: owner, path: child },
                ),
            ],
        },
        Decision::Skip => Seq::empty(),
    }
}

/// Whether the entries of a directory stand in the order in which they are walked, no
/// two at the same place.
pub open spec fn strictly_ordered(
    rest: Seq<DirectoryEntryView>,
    location: Location,
    boards: Seq<Seq<char>>,
) -> bool {
    &&& forall|i: int|
        0 <= i < rest.len() ==> (#[trigger] rest[i]).raw_name.len() > 0
            && !rest[i].raw_name.contains(47u8)
    &&& forall|i: int, j: int|
        0 <= i < j < rest.len() ==> listing::bytes_precede(
            listing::walk_name(#[trigger] rest[i], location, boards),
            listing::walk_name(#[trigger] rest[j], location, boards),
        )
}

/// Ordered entries keep fitting names, and no two stand at the same place.
proof fn lemma_names_stay(
    entries: Seq<DirectoryEntryView>,
    location: Location,
    boards: Seq<Seq<char>>,
)
    requires
        names_fit(entries),
    ensures
        strictly_ordered(listing::in_walk_order(entries, location, boards), location, boards),
{
    let sorted = listing::in_walk_order(entries, location, boards);
    listing::law_listings_are_ordered(entries, location, boards);
    lemma_same_members(entries, sorted);
    assert forall|i: int, j: int| 0 <= i < j < sorted.len() implies listing::bytes_precede(
        listing::walk_name(#[trigger] sorted[i], location, boards),
        listing::walk_name(#[trigger] sorted[j], location, boards),
    ) by {
        let a = listing::walk_name(sorted[i], location, boards);
        let b = listing::walk_name(sorted[j], location, boards);
        lemma_total(a, b);
        if a == b {
            lemma_walk_names(sorted[i], sorted[j], location, boards);
        }
    }
}

/// Two entries at the same place have the same name.
proof fn lemma_walk_names(
    a: DirectoryEntryView,
    b: DirectoryEntryView,
    location: Location,
    boards: Seq<Seq<char>>,
)
    requires
        !a.raw_name.contains(47u8),
        !b.raw_name.contains(47u8),
        listing::walk_name(a, location, boards) == listing::walk_name(b, location, boards),
    ensures
        a.raw_name == b.raw_name,
{
    let x = listing::walk_name(a, location, boards);
    if x == a.raw_name.push(47u8) {
        assert(x.last() == 47u8);
        if x == b.raw_name {
            assert(b.raw_name[b.raw_name.len() - 1] == 47u8);
        } else {
            assert(a.raw_name =~= x.drop_last());
            assert(b.raw_name =~= x.drop_last());
        }
    } else if x == b.raw_name.push(47u8) {
        assert(a.raw_name[a.raw_name.len() - 1] == 47u8);
    }
}

/// A reordering of entries with fitting names has fitting names.
proof fn lemma_same_members(a: Seq<DirectoryEntryView>, b: Seq<DirectoryEntryView>)
    requires
        names_fit(a),
        a.to_multiset() =~= b.to_multiset(),
    ensures
        names_fit(b),
{
    broadcast use vstd::seq_lib::group_to_multiset_ensures;

    assert forall|i: int| 0 <= i < b.len() implies (#[trigger] b[i]).raw_name.len() > 0
        && !b[i].raw_name.contains(47u8) by {
        assert(b.contains(b[i]));
        assert(b.to_multiset().count(b[i]) > 0);
        assert(a.contains(b[i]));
    }
    assert(a.no_duplicates());
    a.lemma_multiset_has_no_duplicates();
    b.lemma_multiset_has_no_duplicates_conv();
    assert forall|i: int, j: int| 0 <= i < j < b.len() implies (#[trigger] b[i]).raw_name != (
    #[trigger] b[j]).raw_name by {
        assert(b.contains(b[i]) && b.contains(b[j]));
        assert(b.to_multiset().count(b[i]) > 0);
        assert(b.to_multiset().count(b[j]) > 0);
        assert(a.contains(b[i]) && a.contains(b[j]));
        let x = a.index_of(b[i]);
        let y = a.index_of(b[j]);
        assert(a[x] == b[i] && a[y] == b[j]);
        if x == y {
            assert(b[i] == b[j]);
        } else if x < y {
            assert(a[x].raw_name != a[y].raw_name);
        } else {
            assert(a[y].raw_name != a[x].raw_name);
        }
    }
}

/// What is found at an entry comes before what is found at a later one.
proof fn lemma_keys_ascend(
    boards: Seq<Seq<char>>,
    listings: spec_fn(Seq<u8>) -> ListingView,
    location: Location,
    board: Option<Seq<char>>,
    path: RelativePathView,
    rest: Seq<DirectoryEntryView>,
)
    requires
        strictly_ordered(rest, location, boards),
        is_tree(listings),
    ensures
        keys_ascend(found(boards, listings, location, board, path, rest)),
    decreases height(location), rest.len(),
{
    if rest.len() > 0 {
        let child = inventory::child_path(path, rest[0]);
        let first = first_found(boards, listings, location, board, path, rest);
        let after = rest.skip(1);
        let later = found(boards, listings, location, board, path, after);
        assert forall|i: int, j: int| 0 <= i < j < after.len() implies listing::bytes_precede(
            listing::walk_name(#[trigger] after[i], location, boards),
            listing::walk_name(#[trigger] after[j], location, boards),
        ) by {
            assert(after[i] == rest[i + 1] && after[j] == rest[j + 1]);
        }
        lemma_keys_ascend(boards, listings, location, board, path, after);
        match inventory::decision(location, board, rest[0], boards) {
            Decision::Descend { location: below, board: owner } => {
                if let ListingView::Entries(entries) = listings(child.raw) {
                    let sorted = listing::in_walk_order(entries, below, boards);
                    lemma_names_stay(entries, below, boards);
                    lemma_keys_ascend(boards, listings, below, owner, child, sorted);
                }
            },
            _ => {},
        }
        let both = found(boards, listings, location, board, path, rest);
        assert(both == first + later);
        assert forall|i: int, j: int| 0 <= i < j < both.len() implies text::precedes(
            (#[trigger] both[i]).sort_key,
            (#[trigger] both[j]).sort_key,
        ) by {
            if j < first.len() {
                assert(both[i] == first[i] && both[j] == first[j]);
            } else if i >= first.len() {
                assert(both[i] == later[i - first.len()] && both[j] == later[j - first.len()]);
            } else {
                assert(both[i] == first[i] && both[j] == later[j - first.len()]);
                lemma_first_precedes(
                    boards,
                    listings,
                    location,
                    board,
                    path,
                    rest,
                    1,
                    i,
                    j - first.len(),
                );
            }
        }
    }
}

/// What is found at the first entry comes before what is found from a later one on.
proof fn lemma_first_precedes(
    boards: Seq<Seq<char>>,
    listings: spec_fn(Seq<u8>) -> ListingView,
    location: Location,
    board: Option<Seq<char>>,
    path: RelativePathView,
    rest: Seq<DirectoryEntryView>,
    from: int,
    i: int,
    j: int,
)
    requires
        strictly_ordered(rest, location, boards),
        is_tree(listings),
        1 <= from <= rest.len(),
        0 <= i < first_found(boards, listings, location, board, path, rest).len(),
        0 <= j < found(boards, listings, location, board, path, rest.skip(from)).len(),
    ensures
        text::precedes(
            first_found(boards, listings, location, board, path, rest)[i].sort_key,
            found(boards, listings, location, board, path, rest.skip(from))[j].sort_key,
        ),
    decreases rest.len() - from,
{
    let head = head_of(path);
    let first = first_found(boards, listings, location, board, path, rest);
    let tail = rest.skip(from);
    if from == rest.len() {
        assert(tail.len() == 0);
    } else {
        let next = first_found(boards, listings, location, board, path, tail);
        assert(tail.skip(1) =~= rest.skip(from + 1));
        assert(tail[0] == rest[from]);
        if j < next.len() {
            let a = listing::walk_name(rest[0], location, boards);
            let b = listing::walk_name(rest[from], location, boards);
            assert(listing::bytes_precede(a, b));
            lemma_keys_begin(boards, listings, location, board, path, rest);
            lemma_keys_begin(boards, listings, location, board, path, tail);
            assert(key_begins(first[i], head + a) && key_begins(next[j], head + b));
            let y = choose|y: Seq<u8>| key_of(next[j], head + b, y);
            let x = if inventory::decision(location, board, rest[0], boards) is Descend {
                choose|x: Seq<u8>| key_of(first[i], head + a, x)
            } else {
                Seq::<u8>::empty()
            };
            if !(inventory::decision(location, board, rest[0], boards) is Descend) {
                assert(head + a + x =~= head + a);
            } else {
                assert(a == rest[0].raw_name.push(47u8));
                if a.len() <= b.len() && b.take(a.len() as int) == a {
                    let k = a.len() - 1;
                    assert(b.take(a.len() as int)[k] == 47u8);
                    assert(b[k] == 47u8);
                    if k < rest[from].raw_name.len() {
                        assert(rest[from].raw_name[k] == 47u8);
                    } else {
                        assert(b.len() == a.len());
                        assert(b =~= b.take(a.len() as int));
                        listing::lemma_bytes_order(a, b, b);
                    }
                }
            }
            lemma_tails(a, x, b, y);
            listing::lemma_common_head(head, a + x, b + y);
            assert(head + a + x =~= head + (a + x));
            assert(head + b + y =~= head + (b + y));
            listing::lemma_hex_keeps_order(head + (a + x), head + (b + y));
        } else {
            lemma_first_precedes(
                boards,
                listings,
                location,
                board,
                path,
                rest,
                from + 1,
                i,
                j - next.len(),
            );
        }
    }
}

/// Every entry that the walk finds has a key of its own, and the walk finds them in
/// the order of their keys, over all directories.
pub proof fn law_keys_ascend(
    boards: Seq<Seq<char>>,
    listings: spec_fn(Seq<u8>) -> ListingView,
)
    requires
        is_tree(listings),
    ensures
        keys_ascend(all_found(boards, listings)),
{
    if let ListingView::Entries(entries) = listings(Seq::empty()) {
        let sorted = listing::in_walk_order(entries, Location::Root, boards);
        lemma_names_stay(entries, Location::Root, boards);
        lemma_keys_ascend(
            boards,
            listings,
            Location::Root,
            None,
            inventory::root_path(),
            sorted,
        );
    }
}

/// What is still to be found in the directories that a walk has not finished.
pub open spec fn ahead(
    boards: Seq<Seq<char>>,
    listings: spec_fn(Seq<u8>) -> ListingView,
    stack: Seq<FrameView>,
) -> Seq<EntryView>
    decreases stack.len(),
{
    if stack.len() == 0 {
        Seq::empty()
    } else {
        let top = stack.last();
        found(boards, listings, top.location, top.board, top.path, top.rest) + ahead(
            boards,
            listings,
            stack.drop_last(),
        )
    }
}

/// The page after entries have been reached one after another.
pub open spec fn filled(
    page: PageView,
    after: Option<Seq<char>>,
    limit: usize,
    entries: Seq<EntryView>,
) -> PageView
    decreases entries.len(),
{
    if entries.len() == 0 {
        page
    } else {
        filled(
            inventory::with_entry(page, after, limit, entries[0]),
            after,
            limit,
            entries.skip(1),
        )
    }
}

/// The page without its count of boards and its errors.
pub open spec fn bare(page: PageView) -> PageView {
    PageView { boards_examined: 0, errors: Seq::empty(), ..page }
}

/// The walk after its next step, where the directory that it asks for has been listed.
pub open spec fn advanced(walk: WalkerView, listings: spec_fn(Seq<u8>) -> ListingView) -> WalkerView {
    match walk.requested() {
        Some(request) => walk.stepped().entered(request, listings(request.path.raw)),
        None => walk.stepped(),
    }
}

/// How many steps what is still to come of a directory takes at most.
pub open spec fn work_in(
    boards: Seq<Seq<char>>,
    listings: spec_fn(Seq<u8>) -> ListingView,
    location: Location,
    path: RelativePathView,
    rest: Seq<DirectoryEntryView>,
) -> nat
    decreases height(location), rest.len(),
{
    if rest.len() == 0 {
        0
    } else {
        let child = inventory::child_path(path, rest[0]);
        let first: nat = match inventory::decision(location, None, rest[0], boards) {
            Decision::Descend { location: below, board: _ } => match listings(child.raw) {
                ListingView::Entries(entries) => 2 + work_in(
                    boards,
                    listings,
                    below,
                    child,
                    listing::in_walk_order(entries, below, boards),
                ),
                ListingView::Failed(_) => 1,
            },
            _ => 1,
        };
        first + work_in(boards, listings, location, path, rest.skip(1))
    }
}

/// How many steps a walk takes at most.
pub open spec fn work(
    boards: Seq<Seq<char>>,
    listings: spec_fn(Seq<u8>) -> ListingView,
    stack: Seq<FrameView>,
) -> nat
    decreases stack.len(),
{
    if stack.len() == 0 {
        0
    } else {
        let top = stack.last();
        1 + work_in(boards, listings, top.location, top.path, top.rest) + work(
            boards,
            listings,
            stack.drop_last(),
        )
    }
}

/// Every step leaves less to do, so that a walk comes to an end.
pub proof fn law_walks_end(walk: WalkerView, listings: spec_fn(Seq<u8>) -> ListingView)
    requires
        walk.stack.len() > 0,
    ensures
        advanced(walk, listings).boards == walk.boards,
        work(walk.boards, listings, advanced(walk, listings).stack) < work(
            walk.boards,
            listings,
            walk.stack,
        ),
{
    let top = walk.stack.last();
    let below = walk.stack.drop_last();
    if !walk.page.has_more && top.rest.len() > 0 {
        let entry = top.rest[0];
        let child = inventory::child_path(top.path, entry);
        let frame = FrameView { rest: top.rest.skip(1), ..top };
        let left = below.push(frame);
        assert(left.drop_last() =~= below && left.last() == frame);
        assert(walk.stepped().stack =~= left);
        assert(work(walk.boards, listings, left) == 1 + work_in(
            walk.boards,
            listings,
            top.location,
            top.path,
            top.rest.skip(1),
        ) + work(walk.boards, listings, below));
        match inventory::decision(top.location, top.board, entry, walk.boards) {
            Decision::Descend { location, board } => {
                match listings(child.raw) {
                    ListingView::Entries(entries) => {
                        let next = FrameView {
                            location,
                            board,
                            path: child,
                            rest: listing::in_walk_order(entries, location, walk.boards),
                        };
                        assert(advanced(walk, listings).stack =~= left.push(next));
                        assert(left.push(next).drop_last() =~= left);
                        assert(left.push(next).last() == next);
                    },
                    ListingView::Failed(_) => {
                        assert(advanced(walk, listings).stack =~= left);
                    },
                }
            },
            _ => {
                assert(advanced(walk, listings).stack =~= left);
            },
        }
    }
}

/// The walk when it has come to its end.
pub open spec fn finished(walk: WalkerView, listings: spec_fn(Seq<u8>) -> ListingView) -> WalkerView
    decreases work(walk.boards, listings, walk.stack),
{
    if walk.stack.len() == 0 {
        walk
    } else {
        proof {
            law_walks_end(walk, listings);
        }
        finished(advanced(walk, listings), listings)
    }
}

proof fn lemma_filled_parts(
    page: PageView,
    after: Option<Seq<char>>,
    limit: usize,
    a: Seq<EntryView>,
    b: Seq<EntryView>,
)
    ensures
        filled(page, after, limit, a + b) == filled(
            filled(page, after, limit, a),
            after,
            limit,
            b,
        ),
    decreases a.len(),
{
    if a.len() == 0 {
        assert(a + b =~= b);
    } else {
        assert((a + b).skip(1) =~= a.skip(1) + b);
        assert((a + b)[0] == a[0]);
        lemma_filled_parts(
            inventory::with_entry(page, after, limit, a[0]),
            after,
            limit,
            a.skip(1),
            b,
        );
    }
}

proof fn lemma_full(
    page: PageView,
    after: Option<Seq<char>>,
    limit: usize,
    entries: Seq<EntryView>,
)
    requires
        page.has_more,
        page.entries.len() >= limit,
    ensures
        filled(page, after, limit, entries) == page,
    decreases entries.len(),
{
    if entries.len() > 0 {
        assert(inventory::with_entry(page, after, limit, entries[0]) =~= page);
        lemma_full(page, after, limit, entries.skip(1));
    }
}

proof fn lemma_one(
    page: PageView,
    after: Option<Seq<char>>,
    limit: usize,
    entry: EntryView,
)
    ensures
        filled(page, after, limit, seq![entry]) == inventory::with_entry(page, after, limit, entry),
{
    assert(seq![entry].skip(1) =~= Seq::<EntryView>::empty());
    reveal_with_fuel(filled, 2);
}

/// The page that a walk will have filled is settled by the directories: every step
/// leaves it the same.
pub proof fn law_steps_lead_to_one_page(
    walk: WalkerView,
    listings: spec_fn(Seq<u8>) -> ListingView,
)
    requires
        walk.stack.len() > 0,
        walk.in_bounds(),
    ensures
        ({
            let next = advanced(walk, listings);
            &&& next.after == walk.after && next.limit == walk.limit
            &&& next.in_bounds()
            &&& filled(
                bare(next.page),
                walk.after,
                walk.limit,
                ahead(walk.boards, listings, next.stack),
            ) == filled(
                bare(walk.page),
                walk.after,
                walk.limit,
                ahead(walk.boards, listings, walk.stack),
            )
        }),
{
    let next = advanced(walk, listings);
    let top = walk.stack.last();
    let below = walk.stack.drop_last();
    let here = found(walk.boards, listings, top.location, top.board, top.path, top.rest);
    let there = ahead(walk.boards, listings, below);
    let page = bare(walk.page);
    assert(ahead(walk.boards, listings, walk.stack) == here + there);
    if walk.page.has_more {
        lemma_full(page, walk.after, walk.limit, here + there);
        lemma_full(page, walk.after, walk.limit, there);
    } else if top.rest.len() == 0 {
        assert(here + there =~= there);
    } else {
        let entry = top.rest[0];
        let child = inventory::child_path(top.path, entry);
        let frame = FrameView { rest: top.rest.skip(1), ..top };
        let left = below.push(frame);
        let first = first_found(
            walk.boards,
            listings,
            top.location,
            top.board,
            top.path,
            top.rest,
        );
        let later = found(
            walk.boards,
            listings,
            top.location,
            top.board,
            top.path,
            top.rest.skip(1),
        );
        assert(left.drop_last() =~= below);
        assert(left.last() == frame);
        assert(ahead(walk.boards, listings, left) == later + there);
        assert(here == first + later);
        assert(first + later + there =~= first + (later + there));
        lemma_filled_parts(page, walk.after, walk.limit, first, later + there);
        inventory::law_walk_keeps_bounds(
            walk,
            RequestView { location: top.location, board: top.board, path: child },
            listings(child.raw),
        );
        match inventory::decision(top.location, top.board, entry, walk.boards) {
            Decision::Record { board, category, kind } => {
                let shown = inventory::listed_entry(child, board, category, kind);
                lemma_one(page, walk.after, walk.limit, shown);
                assert(bare(next.page) =~= inventory::with_entry(
                    page,
                    walk.after,
                    walk.limit,
                    shown,
                ));
            },
            Decision::Descend { location, board } => {
                let request = RequestView { location, board, path: child };
                match listings(child.raw) {
                    ListingView::Entries(entries) => {
                        let deeper = FrameView {
                            location,
                            board,
                            path: child,
                            rest: listing::in_walk_order(entries, location, walk.boards),
                        };
                        assert(next.stack =~= left.push(deeper));
                        assert(left.push(deeper).drop_last() =~= left);
                        assert(bare(next.page) =~= page);
                    },
                    ListingView::Failed(_) => {
                        let shown = inventory::unlisted_entry(request);
                        lemma_one(page, walk.after, walk.limit, shown);
                        assert(bare(next.page) =~= inventory::with_entry(
                            page,
                            walk.after,
                            walk.limit,
                            shown,
                        ));
                    },
                }
            },
            Decision::Skip => {
                assert(first + (later + there) =~= later + there);
            },
        }
    }
}

proof fn lemma_finished(walk: WalkerView, listings: spec_fn(Seq<u8>) -> ListingView)
    requires
        walk.in_bounds(),
    ensures
        bare(finished(walk, listings).page) == filled(
            bare(walk.page),
            walk.after,
            walk.limit,
            ahead(walk.boards, listings, walk.stack),
        ),
    decreases work(walk.boards, listings, walk.stack),
{
    if walk.stack.len() > 0 {
        law_walks_end(walk, listings);
        law_steps_lead_to_one_page(walk, listings);
        lemma_finished(advanced(walk, listings), listings);
    }
}

/// The page of a whole scan after the given key.
pub open spec fn scanned(
    boards: Seq<Seq<char>>,
    listings: spec_fn(Seq<u8>) -> ListingView,
    after: Option<Seq<char>>,
    limit: usize,
) -> PageView {
    let start = WalkerView {
        boards,
        after,
        limit,
        stack: Seq::empty(),
        page: inventory::empty_page(),
    };
    let root = RequestView { location: Location::Root, board: None, path: inventory::root_path() };
    finished(start.entered(root, listings(root.path.raw)), listings).page
}

/// The key after which a page begins that comes after so many entries.
pub open spec fn key_before(entries: Seq<EntryView>, n: int) -> Option<Seq<char>> {
    if n == 0 {
        None
    } else {
        Some(entries[n - 1].sort_key)
    }
}

/// Where a page ends that begins after so many entries.
pub open spec fn page_end(entries: Seq<EntryView>, n: int, limit: usize) -> int {
    if n + limit < entries.len() {
        n + limit
    } else {
        entries.len() as int
    }
}

proof fn lemma_precedes_order(a: Seq<char>, b: Seq<char>)
    ensures
        text::precedes(a, b) ==> !text::precedes(b, a),
        !text::precedes(a, a),
    decreases a.len(),
{
    if a.len() > 0 {
        lemma_precedes_order(a.skip(1), a.skip(1));
        if b.len() > 0 {
            lemma_precedes_order(a.skip(1), b.skip(1));
        }
    }
}

/// What is put on a page from the entry with the given number on.
proof fn lemma_filled(
    entries: Seq<EntryView>,
    n: int,
    limit: usize,
    page: PageView,
    k: int,
)
    requires
        keys_ascend(entries),
        0 <= n <= entries.len(),
        0 <= k <= entries.len(),
        k <= n ==> page.entries.len() == 0 && page.last_key is None && !page.has_more,
        k > n ==> {
            &&& page.entries == entries.subrange(
                n,
                if k < page_end(entries, n, limit) {
                    k
                } else {
                    page_end(entries, n, limit)
                },
            )
            &&& page.has_more == (k > page_end(entries, n, limit))
            &&& page.last_key == if page.entries.len() > 0 {
                Some(page.entries.last().sort_key)
            } else {
                None
            }
        },
    ensures
        ({
            let r = filled(page, key_before(entries, n), limit, entries.skip(k));
            &&& r.entries == entries.subrange(n, page_end(entries, n, limit))
            &&& r.has_more == (page_end(entries, n, limit) < entries.len())
            &&& r.last_key == if r.entries.len() > 0 {
                Some(r.entries.last().sort_key)
            } else {
                None
            }
        }),
    decreases entries.len() - k,
{
    let after = key_before(entries, n);
    let end = page_end(entries, n, limit);
    let left = entries.skip(k);
    if k == entries.len() {
        if k <= n {
            assert(entries.subrange(n, end) =~= page.entries);
        }
    } else {
        assert(left[0] == entries[k]);
        assert(left.skip(1) =~= entries.skip(k + 1));
        let next = inventory::with_entry(page, after, limit, entries[k]);
        if n > 0 {
            lemma_precedes_order(entries[n - 1].sort_key, entries[k].sort_key);
            if k < n - 1 {
                lemma_precedes_order(entries[k].sort_key, entries[n - 1].sort_key);
            }
        }
        if k >= n {
            assert(after is Some ==> text::precedes(after->Some_0, entries[k].sort_key));
            if k < end {
                assert(entries.subrange(n, k) =~= page.entries);
                assert(entries.subrange(n, k + 1) =~= page.entries.push(entries[k]));
                assert(next.entries =~= entries.subrange(n, k + 1));
            } else {
                assert(page.entries =~= entries.subrange(n, end));
                assert(next.entries =~= entries.subrange(n, end));
            }
        } else {
            assert(next == page);
            if k + 1 > n {
                assert(false);
            }
        }
        lemma_filled(entries, n, limit, next, k + 1);
    }
}

/// A scan after the key of an entry puts the next entries on its page, as many as the
/// limit allows; it says whether more are left, and the key of its last entry.
pub proof fn law_pages_resume(
    boards: Seq<Seq<char>>,
    listings: spec_fn(Seq<u8>) -> ListingView,
    limit: usize,
    n: int,
)
    requires
        is_tree(listings),
        0 <= n <= all_found(boards, listings).len(),
    ensures
        ({
            let all = all_found(boards, listings);
            let page = scanned(boards, listings, key_before(all, n), limit);
            &&& page.entries == all.subrange(n, page_end(all, n, limit))
            &&& page.entries.len() <= limit
            &&& keys_ascend(page.entries)
            &&& page.has_more == (page_end(all, n, limit) < all.len())
            &&& page.last_key == if page.entries.len() > 0 {
                Some(page.entries.last().sort_key)
            } else {
                None
            }
        }),
{
    let all = all_found(boards, listings);
    let after = key_before(all, n);
    let start = WalkerView {
        boards,
        after,
        limit,
        stack: Seq::empty(),
        page: inventory::empty_page(),
    };
    let root = RequestView { location: Location::Root, board: None, path: inventory::root_path() };
    let entered = start.entered(root, listings(root.path.raw));
    law_keys_ascend(boards, listings);
    assert(root.path.raw =~= Seq::<u8>::empty());
    lemma_finished(entered, listings);
    match listings(root.path.raw) {
        ListingView::Entries(entries) => {
            assert(entered.stack.drop_last() =~= Seq::<FrameView>::empty());
            assert(ahead(boards, listings, Seq::<FrameView>::empty()) =~= Seq::<EntryView>::empty());
            assert(entered.stack.len() == 1);
            assert(entered.stack.last().rest == listing::in_walk_order(
                entries,
                Location::Root,
                boards,
            ));
            assert(ahead(boards, listings, entered.stack) =~= all);
        },
        ListingView::Failed(_) => {
            assert(ahead(boards, listings, entered.stack) =~= all);
        },
    }
    assert(bare(entered.page) =~= inventory::empty_page());
    assert(all.skip(0) =~= all);
    if n == 0 {
        assert(all.subrange(0, 0) =~= Seq::<EntryView>::empty());
    }
    lemma_filled(all, n, limit, inventory::empty_page(), 0);
    let page = scanned(boards, listings, after, limit);
    assert forall|i: int, j: int| 0 <= i < j < page.entries.len() implies text::precedes(
        (#[trigger] page.entries[i]).sort_key,
        (#[trigger] page.entries[j]).sort_key,
    ) by {
        assert(page.entries[i] == all[n + i] && page.entries[j] == all[n + j]);
    }
}

/// The entries of so many pages, each begun after the last key of the one before, from
/// the given key on.
pub open spec fn chained(
    boards: Seq<Seq<char>>,
    listings: spec_fn(Seq<u8>) -> ListingView,
    after: Option<Seq<char>>,
    limit: usize,
    pages: nat,
) -> Seq<EntryView>
    decreases pages,
{
    if pages == 0 {
        Seq::empty()
    } else {
        let page = scanned(boards, listings, after, limit);
        if page.has_more {
            page.entries + chained(boards, listings, page.last_key, limit, (pages - 1) as nat)
        } else {
            page.entries
        }
    }
}

proof fn lemma_chained(
    boards: Seq<Seq<char>>,
    listings: spec_fn(Seq<u8>) -> ListingView,
    limit: usize,
    n: int,
    pages: nat,
)
    requires
        is_tree(listings),
        limit > 0,
        0 <= n <= all_found(boards, listings).len(),
        n + pages > all_found(boards, listings).len(),
    ensures
        chained(boards, listings, key_before(all_found(boards, listings), n), limit, pages)
            == all_found(boards, listings).skip(n),
    decreases pages,
{
    let all = all_found(boards, listings);
    law_pages_resume(boards, listings, limit, n);
    let page = scanned(boards, listings, key_before(all, n), limit);
    let end = page_end(all, n, limit);
    if page.has_more {
        assert(page.entries.last() == all[end - 1]);
        lemma_chained(boards, listings, limit, end, (pages - 1) as nat);
        assert(all.skip(n) =~= all.subrange(n, end) + all.skip(end));
    } else {
        assert(all.skip(n) =~= all.subrange(n, end));
    }
}

/// Pages that follow one another from the start to the last, over directories that do
/// not change, show every entry that the walk finds exactly once, in the order of
/// their keys.
pub proof fn law_pages_show_every_entry_once(
    boards: Seq<Seq<char>>,
    listings: spec_fn(Seq<u8>) -> ListingView,
    limit: usize,
    pages: nat,
)
    requires
        is_tree(listings),
        limit > 0,
        pages > all_found(boards, listings).len(),
    ensures
        chained(boards, listings, None, limit, pages) == all_found(boards, listings),
        keys_ascend(all_found(boards, listings)),
{
    let all = all_found(boards, listings);
    law_keys_ascend(boards, listings);
    lemma_chained(boards, listings, limit, 0, pages);
    assert(all.skip(0) =~= all);
}

} // verus!
