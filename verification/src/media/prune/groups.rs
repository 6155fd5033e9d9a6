//! Grouping of posts that share originals.

use vstd::prelude::*;
use vstd::string::*;
use crate::media::prune::{
    candidate_path, copy_path, CandidatePath, CandidatePathLoad, CandidatePathView, FileSize,
    LoadView,
};
use crate::media::prune;
use crate::text;
use crate::text::{comes_before, str_eq};

verus! {

/// One active post and its validated original paths.
#[derive(Debug, Clone)]
pub struct PostCandidate {
    /// Database post identifier.
    pub post_id: i64,
    /// Oldest-first pruning timestamp.
    pub created_at: i64,
    /// Validated original paths referenced by the post.
    pub paths: Vec<CandidatePath>,
}

/// The model of a post.
#[verifier::ext_equal]
pub struct PostCandidateView {
    pub post_id: i64,
    pub created_at: i64,
    pub paths: Seq<CandidatePathView>,
}

impl View for PostCandidate {
    type V = PostCandidateView;

    open spec fn view(&self) -> PostCandidateView {
        PostCandidateView {
            post_id: self.post_id,
            created_at: self.created_at,
            paths: text::views(self.paths@),
        }
    }
}

/// Connected posts that must transition together because they share originals.
#[derive(Debug, Clone)]
pub struct Candidate {
    /// Posts connected by one or more shared original paths.
    pub post_ids: Vec<i64>,
    /// Oldest post timestamp in the component.
    pub created_at: i64,
    /// Unique physical paths in the component.
    pub paths: Vec<CandidatePath>,
    /// Sum of unique physical path sizes.
    pub size: u64,
}

/// The model of a group.
#[verifier::ext_equal]
pub struct CandidateView {
    pub post_ids: Seq<i64>,
    pub created_at: i64,
    pub paths: Seq<CandidatePathView>,
    pub size: u64,
}

impl View for Candidate {
    type V = CandidateView;

    open spec fn view(&self) -> CandidateView {
        CandidateView {
            post_ids: self.post_ids@,
            created_at: self.created_at,
            paths: text::views(self.paths@),
            size: self.size,
        }
    }
}

/// Whether the post refers to the path.
pub open spec fn has_path(post: PostCandidateView, path: Seq<char>) -> bool {
    exists|k: int| 0 <= k < post.paths.len() && (#[trigger] post.paths[k]).path == path
}

/// Whether two posts share a path.
pub open spec fn linked(posts: Seq<PostCandidateView>, i: int, j: int) -> bool {
    exists|path: Seq<char>| has_path(posts[i], path) && #[trigger] has_path(posts[j], path)
}

/// Whether the positions form a chain in which each post shares a path with the
/// next.
pub open spec fn is_chain(posts: Seq<PostCandidateView>, chain: Seq<int>) -> bool {
    &&& chain.len() > 0
    &&& forall|k: int| 0 <= k < chain.len() ==> 0 <= #[trigger] chain[k] < posts.len()
    &&& forall|k: int|
        0 <= k < chain.len() - 1 ==> linked(posts, #[trigger] chain[k], chain[k + 1])
}

/// Whether a chain of shared paths leads from one post to another.
pub open spec fn connected(posts: Seq<PostCandidateView>, i: int, j: int) -> bool {
    exists|chain: Seq<int>| #[trigger]
        is_chain(posts, chain) && chain[0] == i && chain.last() == j
}

/// A search over shared paths: the posts seen, those still to be expanded, and
/// those expanded, in order.
#[verifier::ext_equal]
pub struct Search {
    pub seen: Set<int>,
    pub queue: Seq<int>,
    pub done: Seq<int>,
}

/// The first `n` posts that refer to the path and have not been seen.
pub open spec fn unseen_with(
    posts: Seq<PostCandidateView>,
    seen: Set<int>,
    path: Seq<char>,
    n: nat,
) -> Seq<int>
    decreases n,
{
    if n == 0 {
        Seq::empty()
    } else {
        let before = unseen_with(posts, seen, path, (n - 1) as nat);
        if !seen.contains(n - 1) && has_path(posts[n - 1], path) {
            before.push(n - 1)
        } else {
            before
        }
    }
}

/// The search after the posts with the path have been added to its queue.
pub open spec fn follow_path(posts: Seq<PostCandidateView>, s: Search, path: Seq<char>) -> Search {
    let found = unseen_with(posts, s.seen, path, posts.len());
    Search { seen: s.seen.union(found.to_set()), queue: s.queue + found, done: s.done }
}

/// The search after the first `n` paths of a post have been followed.
pub open spec fn follow_paths(
    posts: Seq<PostCandidateView>,
    s: Search,
    paths: Seq<CandidatePathView>,
    n: nat,
) -> Search
    decreases n,
{
    if n == 0 {
        s
    } else {
        follow_path(posts, follow_paths(posts, s, paths, (n - 1) as nat), paths[n - 1].path)
    }
}

/// The search after the first post of its queue has been expanded.
pub open spec fn expand(posts: Seq<PostCandidateView>, s: Search) -> Search {
    if s.queue.len() == 0 {
        s
    } else {
        let index = s.queue[0];
        let taken = Search {
            seen: s.seen,
            queue: s.queue.skip(1),
            done: s.done.push(index),
        };
        follow_paths(posts, taken, posts[index].paths, posts[index].paths.len())
    }
}

/// The search after `n` expansions.
pub open spec fn expanded(posts: Seq<PostCandidateView>, s: Search, n: nat) -> Search
    decreases n,
{
    if n == 0 {
        s
    } else {
        expand(posts, expanded(posts, s, (n - 1) as nat))
    }
}

/// The search that begins with one post.
pub open spec fn search_from(seen: Set<int>, start: int) -> Search {
    Search { seen: seen.insert(start), queue: seq![start], done: Seq::empty() }
}

/// The posts that a search from one post reaches, nearest first.
pub open spec fn reached(posts: Seq<PostCandidateView>, seen: Set<int>, start: int) -> Seq<int> {
    expanded(posts, search_from(seen, start), posts.len()).done
}

/// Whether the search keeps its bookkeeping: every post it saw is queued or done
/// once, or was seen before it began.
pub open spec fn search_ok(posts: Seq<PostCandidateView>, before: Set<int>, s: Search) -> bool {
    let all = s.done + s.queue;
    &&& all.no_duplicates()
    &&& s.seen == before.union(all.to_set())
    &&& forall|k: int|
        0 <= k < all.len() ==> 0 <= #[trigger] all[k] < posts.len() && !before.contains(all[k])
}

proof fn lemma_unseen_with(posts: Seq<PostCandidateView>, seen: Set<int>, path: Seq<char>, n: nat)
    ensures
        unseen_with(posts, seen, path, n).no_duplicates(),
        forall|j: int| #[trigger]
            unseen_with(posts, seen, path, n).contains(j) <==> 0 <= j < n && !seen.contains(j)
                && has_path(posts[j], path),
    decreases n,
{
    if n > 0 {
        lemma_unseen_with(posts, seen, path, (n - 1) as nat);
        let before = unseen_with(posts, seen, path, (n - 1) as nat);
        let now = unseen_with(posts, seen, path, n);
        assert forall|j: int| #[trigger] now.contains(j) <==> 0 <= j < n && !seen.contains(j)
            && has_path(posts[j], path) by {
            if before.contains(j) {
                assert(now[before.index_of(j)] == j);
            }
            if now.contains(j) {
                let k = now.index_of(j);
                if k < before.len() {
                    assert(before[k] == j);
                    assert(before.contains(j));
                }
            }
            if 0 <= j < n && !seen.contains(j) && has_path(posts[j], path) {
                if j < n - 1 {
                    assert(before.contains(j));
                } else {
                    assert(now[before.len() as int] == j);
                }
            }
        }
        assert forall|a: int, b: int|
            0 <= a < now.len() && 0 <= b < now.len() && a != b implies now[a] != now[b] by {
            if a < before.len() && b < before.len() {
                assert(now[a] == before[a] && now[b] == before[b]);
            } else if a < before.len() {
                assert(before.contains(before[a]));
            } else if b < before.len() {
                assert(before.contains(before[b]));
            }
        }
    }
}

proof fn lemma_follow_path(
    posts: Seq<PostCandidateView>,
    before: Set<int>,
    s: Search,
    path: Seq<char>,
)
    requires
        search_ok(posts, before, s),
    ensures
        search_ok(posts, before, follow_path(posts, s, path)),
        s.seen.subset_of(follow_path(posts, s, path).seen),
        forall|j: int|
            0 <= j < posts.len() && #[trigger] has_path(posts[j], path) ==> follow_path(
                posts,
                s,
                path,
            ).seen.contains(j),
{
    lemma_unseen_with(posts, s.seen, path, posts.len());
    let found = unseen_with(posts, s.seen, path, posts.len());
    let t = follow_path(posts, s, path);
    let old_all = s.done + s.queue;
    let all = t.done + t.queue;
    assert(all =~= old_all + found);
    assert forall|a: int, b: int|
        0 <= a < all.len() && 0 <= b < all.len() && a != b implies all[a] != all[b] by {
        if a >= old_all.len() && b < old_all.len() {
            assert(found.contains(all[a]));
            assert(old_all.to_set().contains(old_all[b]));
        } else if a < old_all.len() && b >= old_all.len() {
            assert(found.contains(all[b]));
            assert(old_all.to_set().contains(old_all[a]));
        } else if a >= old_all.len() {
            assert(found[a - old_all.len()] != found[b - old_all.len()]);
        } else {
            assert(old_all[a] != old_all[b]);
        }
    }
    assert(t.seen =~= before.union(all.to_set())) by {
        assert forall|j: int| #[trigger] t.seen.contains(j) <==> before.union(
            all.to_set(),
        ).contains(j) by {
            if found.contains(j) {
                assert(all[old_all.len() + found.index_of(j)] == j);
            }
            if old_all.contains(j) {
                assert(all[old_all.index_of(j)] == j);
            }
            if all.contains(j) {
                let k = all.index_of(j);
                if k < old_all.len() {
                    assert(old_all[k] == j);
                    assert(old_all.to_set().contains(j));
                } else {
                    assert(found[k - old_all.len()] == j);
                    assert(found.to_set().contains(j));
                }
            }
        }
    }
    assert forall|k: int| 0 <= k < all.len() implies 0 <= #[trigger] all[k] < posts.len()
        && !before.contains(all[k]) by {
        if k < old_all.len() {
            assert(all[k] == old_all[k]);
        } else {
            assert(found.contains(all[k]));
        }
    }
    assert forall|j: int| 0 <= j < posts.len() && #[trigger] has_path(
        posts[j],
        path,
    ) implies t.seen.contains(j) by {
        if !s.seen.contains(j) {
            assert(found.contains(j));
            assert(found.to_set().contains(j));
        }
    }
}

proof fn lemma_follow_paths(
    posts: Seq<PostCandidateView>,
    before: Set<int>,
    s: Search,
    paths: Seq<CandidatePathView>,
    n: nat,
)
    requires
        search_ok(posts, before, s),
        n <= paths.len(),
    ensures
        search_ok(posts, before, follow_paths(posts, s, paths, n)),
        s.seen.subset_of(follow_paths(posts, s, paths, n).seen),
        follow_paths(posts, s, paths, n).done == s.done,
        forall|j: int, k: int|
            0 <= j < posts.len() && 0 <= k < n && #[trigger] has_path(
                posts[j],
                #[trigger] paths[k].path,
            ) ==> follow_paths(posts, s, paths, n).seen.contains(j),
    decreases n,
{
    if n > 0 {
        lemma_follow_paths(posts, before, s, paths, (n - 1) as nat);
        lemma_follow_path(
            posts,
            before,
            follow_paths(posts, s, paths, (n - 1) as nat),
            paths[n - 1].path,
        );
    }
}

/// Whether every post that a done one shares a path with has been seen.
pub open spec fn search_closed(posts: Seq<PostCandidateView>, s: Search) -> bool {
    forall|i: int, j: int|
        s.done.contains(i) && 0 <= j < posts.len() && #[trigger] linked(posts, i, j)
            ==> s.seen.contains(j)
}

proof fn lemma_expand(posts: Seq<PostCandidateView>, before: Set<int>, s: Search)
    requires
        search_ok(posts, before, s),
        search_closed(posts, s),
    ensures
        search_ok(posts, before, expand(posts, s)),
        search_closed(posts, expand(posts, s)),
        s.seen.subset_of(expand(posts, s).seen),
{
    if s.queue.len() > 0 {
        let index = s.queue[0];
        let taken = Search { seen: s.seen, queue: s.queue.skip(1), done: s.done.push(index) };
        let all = s.done + s.queue;
        assert(taken.done + taken.queue =~= all);
        assert(all[s.done.len() as int] == index);
        let paths = posts[index].paths;
        lemma_follow_paths(posts, before, taken, paths, paths.len());
        let t = expand(posts, s);
        assert forall|i: int, j: int|
            t.done.contains(i) && 0 <= j < posts.len() && #[trigger] linked(
                posts,
                i,
                j,
            ) implies t.seen.contains(j) by {
            let k = t.done.index_of(i);
            if k < s.done.len() {
                assert(s.done[k] == i);
                assert(s.done.contains(i));
            } else {
                let path = choose|path: Seq<char>|
                    has_path(posts[i], path) && #[trigger] has_path(posts[j], path);
                let m = choose|m: int|
                    0 <= m < paths.len() && (#[trigger] paths[m]).path == path;
                assert(has_path(posts[j], paths[m].path));
            }
        }
    }
}

proof fn lemma_expanded(posts: Seq<PostCandidateView>, before: Set<int>, s: Search, n: nat)
    requires
        search_ok(posts, before, s),
        search_closed(posts, s),
    ensures
        search_ok(posts, before, expanded(posts, s, n)),
        search_closed(posts, expanded(posts, s, n)),
    decreases n,
{
    if n > 0 {
        lemma_expanded(posts, before, s, (n - 1) as nat);
        lemma_expand(posts, before, expanded(posts, s, (n - 1) as nat));
    }
}

proof fn lemma_done_counts(posts: Seq<PostCandidateView>, s: Search, n: nat)
    ensures
        expanded(posts, s, n).queue.len() > 0 ==> expanded(posts, s, n).done.len() == s.done.len()
            + n,
    decreases n,
{
    if n > 0 {
        lemma_done_counts(posts, s, (n - 1) as nat);
        let t = expanded(posts, s, (n - 1) as nat);
        if t.queue.len() > 0 {
            let index = t.queue[0];
            let taken = Search { seen: t.seen, queue: t.queue.skip(1), done: t.done.push(index) };
            lemma_follow_keeps_done(posts, taken, posts[index].paths, posts[index].paths.len());
        }
    }
}

proof fn lemma_follow_keeps_done(
    posts: Seq<PostCandidateView>,
    s: Search,
    paths: Seq<CandidatePathView>,
    n: nat,
)
    ensures
        follow_paths(posts, s, paths, n).done == s.done,
    decreases n,
{
    if n > 0 {
        lemma_follow_keeps_done(posts, s, paths, (n - 1) as nat);
    }
}

/// A list of distinct positions below `n` is no longer than `n`.
proof fn lemma_distinct_below(list: Seq<int>, n: nat)
    requires
        list.no_duplicates(),
        forall|k: int| 0 <= k < list.len() ==> 0 <= #[trigger] list[k] < n,
    ensures
        list.len() <= n,
{
    list.unique_seq_to_set();
    let range = vstd::set_lib::set_int_range(0, n as int);
    vstd::set_lib::lemma_int_range(0, n as int);
    assert forall|j: int| list.to_set().contains(j) implies range.contains(j) by {
        let k = list.index_of(j);
        assert(list[k] == j);
    }
    vstd::set_lib::lemma_len_subset(list.to_set(), range);
}

proof fn lemma_search_from_ok(posts: Seq<PostCandidateView>, seen: Set<int>, start: int)
    requires
        0 <= start < posts.len(),
        !seen.contains(start),
    ensures
        search_ok(posts, seen, search_from(seen, start)),
        search_closed(posts, search_from(seen, start)),
{
    let s = search_from(seen, start);
    let all = s.done + s.queue;
    assert(all =~= seq![start]);
    assert(all.to_set() =~= set![start]) by {
        assert(all[0] == start);
    }
    assert(s.seen =~= seen.union(all.to_set()));
}

/// A search that has expanded as many posts as there are has nothing left to
/// expand.
proof fn lemma_search_ends(posts: Seq<PostCandidateView>, seen: Set<int>, start: int, n: nat)
    requires
        0 <= start < posts.len(),
        !seen.contains(start),
        n >= posts.len(),
    ensures
        expanded(posts, search_from(seen, start), n).queue.len() == 0,
{
    let s = search_from(seen, start);
    lemma_search_from_ok(posts, seen, start);
    lemma_expanded(posts, seen, s, n);
    lemma_done_counts(posts, s, n);
    let t = expanded(posts, s, n);
    if t.queue.len() > 0 {
        let all = t.done + t.queue;
        lemma_distinct_below(all, posts.len());
    }
}

/// Once nothing is left to expand, further expansions change nothing.
proof fn lemma_ended_search_stays(posts: Seq<PostCandidateView>, s: Search, m: nat, n: nat)
    requires
        m <= n,
        expanded(posts, s, m).queue.len() == 0,
    ensures
        expanded(posts, s, n) == expanded(posts, s, m),
    decreases n - m,
{
    if m < n {
        lemma_ended_search_stays(posts, s, m, (n - 1) as nat);
    }
}

/// The ascending list of identifiers with one more in its place.
pub open spec fn placed_id(ids: Seq<i64>, id: i64) -> Seq<i64>
    decreases ids.len(),
{
    if ids.len() == 0 || ids.last() <= id {
        ids.push(id)
    } else {
        placed_id(ids.drop_last(), id).push(ids.last())
    }
}

/// The list of originals, ascending by path, with one more in its place unless
/// its path is there.
pub open spec fn placed_path(paths: Seq<CandidatePathView>, path: CandidatePathView) -> Seq<
    CandidatePathView,
>
    decreases paths.len(),
{
    if paths.len() == 0 {
        seq![path]
    } else if paths.last().path == path.path {
        paths
    } else if text::precedes(paths.last().path, path.path) {
        paths.push(path)
    } else {
        placed_path(paths.drop_last(), path).push(paths.last())
    }
}

/// The list of originals after the first `n` of some more have been placed.
pub open spec fn placed_paths(
    paths: Seq<CandidatePathView>,
    more: Seq<CandidatePathView>,
    n: nat,
) -> Seq<CandidatePathView>
    decreases n,
{
    if n == 0 {
        paths
    } else {
        placed_path(placed_paths(paths, more, (n - 1) as nat), more[n - 1])
    }
}

/// The identifiers of the posts at the given positions, ascending.
pub open spec fn member_ids(posts: Seq<PostCandidateView>, members: Seq<int>) -> Seq<i64>
    decreases members.len(),
{
    if members.len() == 0 {
        Seq::empty()
    } else {
        placed_id(member_ids(posts, members.drop_last()), posts[members.last()].post_id)
    }
}

/// The oldest time among the posts at the given positions.
pub open spec fn oldest(posts: Seq<PostCandidateView>, members: Seq<int>) -> i64
    decreases members.len(),
{
    if members.len() == 0 {
        i64::MAX
    } else {
        let before = oldest(posts, members.drop_last());
        let time = posts[members.last()].created_at;
        if time < before {
            time
        } else {
            before
        }
    }
}

/// The originals of the posts at the given positions, each path once, ascending.
pub open spec fn member_paths(posts: Seq<PostCandidateView>, members: Seq<int>) -> Seq<
    CandidatePathView,
>
    decreases members.len(),
{
    if members.len() == 0 {
        Seq::empty()
    } else {
        let more = posts[members.last()].paths;
        placed_paths(member_paths(posts, members.drop_last()), more, more.len())
    }
}

/// The size of originals, held at the largest 64-bit value.
pub open spec fn total_size(paths: Seq<CandidatePathView>) -> u64
    decreases paths.len(),
{
    if paths.len() == 0 {
        0
    } else if total_size(paths.drop_last()) + paths.last().size > u64::MAX {
        u64::MAX
    } else {
        (total_size(paths.drop_last()) + paths.last().size) as u64
    }
}

/// The group that the posts at the given positions make up.
pub open spec fn group_of(posts: Seq<PostCandidateView>, members: Seq<int>) -> CandidateView {
    let paths = member_paths(posts, members);
    CandidateView {
        post_ids: member_ids(posts, members),
        created_at: oldest(posts, members),
        paths,
        size: total_size(paths),
    }
}

/// The groups found so far, and the positions of their posts.
#[verifier::ext_equal]
pub struct Grouping {
    pub seen: Set<int>,
    pub members: Seq<Seq<int>>,
}

/// The groups found once the first `n` posts have been looked at.
pub open spec fn grouping(posts: Seq<PostCandidateView>, n: nat) -> Grouping
    decreases n,
{
    if n == 0 {
        Grouping { seen: Set::empty(), members: Seq::empty() }
    } else {
        let before = grouping(posts, (n - 1) as nat);
        if before.seen.contains(n - 1) {
            before
        } else {
            let found = reached(posts, before.seen, n - 1);
            Grouping {
                seen: before.seen.union(found.to_set()),
                members: before.members.push(found),
            }
        }
    }
}

/// The groups of posts that share originals.
pub open spec fn groups(posts: Seq<PostCandidateView>) -> Seq<CandidateView> {
    grouping(posts, posts.len()).members.map_values(|m: Seq<int>| group_of(posts, m))
}

/// The positions whose flag is set.
pub open spec fn flagged(flags: Seq<bool>) -> Set<int> {
    Set::new(|j: int| 0 <= j < flags.len() && flags[j])
}

/// Positions as mathematical integers.
pub open spec fn positions(order: Seq<usize>) -> Seq<int> {
    order.map_values(|u: usize| u as int)
}

fn refers_to(post: &PostCandidate, path: &str) -> (r: bool)
    ensures
        r == has_path(post@, path@),
{
    let mut k: usize = 0;
    while k < post.paths.len()
        invariant
            k <= post.paths@.len(),
            forall|i: int| 0 <= i < k ==> (#[trigger] post@.paths[i]).path != path@,
        decreases post.paths@.len() - k,
    {
        assert(post@.paths[k as int] == post.paths@[k as int]@);
        if str_eq(post.paths[k].path.as_str(), path) {
            return true;
        }
        k = k + 1;
    }
    false
}

fn queue_posts_with(
    posts: &Vec<PostCandidate>,
    seen: &mut Vec<bool>,
    order: &mut Vec<usize>,
    path: &str,
)
    requires
        old(seen)@.len() == posts@.len(),
    ensures
        final(seen)@.len() == posts@.len(),
        positions(final(order)@) == positions(old(order)@) + unseen_with(
            text::views(posts@),
            flagged(old(seen)@),
            path@,
            posts@.len(),
        ),
        flagged(final(seen)@) == flagged(old(seen)@).union(
            unseen_with(
                text::views(posts@),
                flagged(old(seen)@),
                path@,
                posts@.len(),
            ).to_set(),
        ),
{
    let ghost all = text::views(posts@);
    let ghost was = flagged(seen@);
    let ghost first = positions(order@);
    let mut j: usize = 0;
    assert(positions(order@) =~= first + unseen_with(all, was, path@, 0));
    while j < posts.len()
        invariant
            j <= posts@.len(),
            seen@.len() == posts@.len(),
            all == text::views(posts@),
            was == flagged(old(seen)@),
            positions(order@) == first + unseen_with(all, was, path@, j as nat),
            forall|k: int|
                0 <= k < posts@.len() ==> (#[trigger] seen@[k] <==> was.contains(k) || unseen_with(
                    all,
                    was,
                    path@,
                    j as nat,
                ).contains(k)),
        decreases posts@.len() - j,
    {
        proof {
            lemma_unseen_with(all, was, path@, j as nat);
            lemma_unseen_with(all, was, path@, (j + 1) as nat);
            assert(all[j as int] == posts@[j as int]@);
        }
        let ghost found = unseen_with(all, was, path@, j as nat);
        if !seen[j] && refers_to(&posts[j], path) {
            let ghost queued = positions(order@);
            seen.set(j, true);
            order.push(j);
            assert(positions(order@) =~= queued.push(j as int));
            assert(positions(order@) =~= first + found.push(j as int));
        }
        j = j + 1;
    }
    proof {
        lemma_unseen_with(all, was, path@, posts@.len());
        let found = unseen_with(all, was, path@, posts@.len());
        assert(flagged(seen@) =~= was.union(found.to_set())) by {
            assert forall|k: int| #[trigger] flagged(seen@).contains(k) <==> was.union(
                found.to_set(),
            ).contains(k) by {
                if found.contains(k) {
                    assert(0 <= k < posts@.len());
                }
            }
        }
    }
}

/// Finds the posts that a search over shared paths reaches.
fn search(posts: &Vec<PostCandidate>, seen: &mut Vec<bool>, start: usize) -> (r: Vec<usize>)
    requires
        old(seen)@.len() == posts@.len(),
        start < posts@.len(),
        !old(seen)@[start as int],
    ensures
        final(seen)@.len() == posts@.len(),
        positions(r@) == reached(text::views(posts@), flagged(old(seen)@), start as int),
        flagged(final(seen)@) == flagged(old(seen)@).union(positions(r@).to_set()),
        forall|k: int| 0 <= k < r@.len() ==> #[trigger] r@[k] < posts@.len(),
{
    let ghost all = text::views(posts@);
    let ghost was = flagged(seen@);
    let ghost init = search_from(was, start as int);
    let mut order: Vec<usize> = Vec::new();
    order.push(start);
    seen.set(start, true);
    let mut head: usize = 0;
    proof {
        lemma_search_from_ok(all, was, start as int);
        assert(flagged(seen@) =~= was.insert(start as int));
        assert(positions(order@).skip(0) =~= seq![start as int]);
        assert(positions(order@).take(0) =~= Seq::<int>::empty());
        assert(expanded(all, init, 0) == init);
    }
    while head < order.len()
        invariant
            head <= order@.len() <= posts@.len(),
            seen@.len() == posts@.len(),
            all == text::views(posts@),
            init == search_from(was, start as int),
            start < posts@.len(),
            !was.contains(start as int),
            expanded(all, init, head as nat) == (Search {
                seen: flagged(seen@),
                queue: positions(order@).skip(head as int),
                done: positions(order@).take(head as int),
            }),
            search_ok(all, was, expanded(all, init, head as nat)),
            search_closed(all, expanded(all, init, head as nat)),
        decreases posts@.len() - head,
    {
        let ghost s = expanded(all, init, head as nat);
        let ghost here = positions(order@);
        assert(s.done + s.queue =~= here);
        assert(here[head as int] == order@[head as int]);
        let index: usize = order[head];
        assert(0 <= (s.done + s.queue)[head as int] < posts@.len());
        let ghost taken = Search {
            seen: s.seen,
            queue: s.queue.skip(1),
            done: s.done.push(index as int),
        };
        let post = &posts[index];
        let ghost paths = all[index as int].paths;
        assert(all[index as int] == post@);
        let mut k: usize = 0;
        assert(taken.queue =~= here.skip(head as int + 1));
        assert(taken.done =~= here.take(head as int + 1));
        while k < post.paths.len()
            invariant
                k <= post.paths@.len(),
                head < order@.len(),
                seen@.len() == posts@.len(),
                all == text::views(posts@),
                paths == text::views(post.paths@),
                follow_paths(all, taken, paths, k as nat) == (Search {
                    seen: flagged(seen@),
                    queue: positions(order@).skip(head as int + 1),
                    done: positions(order@).take(head as int + 1),
                }),
            decreases post.paths@.len() - k,
        {
            let ghost before = positions(order@);
            let ghost seen_before = flagged(seen@);
            assert(paths[k as int] == post.paths@[k as int]@);
            queue_posts_with(posts, seen, &mut order, post.paths[k].path.as_str());
            let ghost found = unseen_with(all, seen_before, paths[k as int].path, all.len());
            assert(positions(order@) == before + found);
            assert(positions(order@).skip(head as int + 1) =~= before.skip(head as int + 1)
                + found);
            assert(positions(order@).take(head as int + 1) =~= before.take(head as int + 1));
            k = k + 1;
        }
        proof {
            lemma_expand(all, was, s);
            let t = expanded(all, init, (head + 1) as nat);
            assert(t == expand(all, s));
            assert(t.done + t.queue =~= positions(order@));
            lemma_distinct_below(positions(order@), all.len());
        }
        head = head + 1;
    }
    proof {
        let s = expanded(all, init, head as nat);
        assert(s.queue.len() == 0);
        assert(s.done =~= positions(order@));
        assert(s.done + s.queue =~= positions(order@));
        lemma_ended_search_stays(all, init, head as nat, all.len());
        assert forall|k: int| 0 <= k < order@.len() implies #[trigger] order@[k] < posts@.len() by {
            assert(positions(order@)[k] == order@[k]);
            assert(0 <= (s.done + s.queue)[k] < posts@.len());
        }
    }
    order
}

fn place_id(ids: &mut Vec<i64>, id: i64)
    ensures
        final(ids)@ == placed_id(old(ids)@, id),
{
    let ghost all = ids@;
    let mut n: usize = ids.len();
    assert(all.take(n as int) =~= all);
    assert(placed_id(all, id) =~= placed_id(all.take(n as int), id) + all.skip(n as int));
    while n > 0 && ids[n - 1] > id
        invariant
            n <= ids@.len(),
            ids@ == all,
            placed_id(all, id) == placed_id(all.take(n as int), id) + all.skip(n as int),
        decreases n,
    {
        assert(all.take(n as int).drop_last() =~= all.take(n as int - 1));
        assert(placed_id(all.take(n as int - 1), id).push(all[n - 1]) + all.skip(n as int)
            =~= placed_id(all.take(n as int - 1), id) + all.skip(n as int - 1));
        n = n - 1;
    }
    assert(placed_id(all.take(n as int), id) == all.take(n as int).push(id));
    ids.insert(n, id);
    assert(ids@ =~= all.take(n as int).push(id) + all.skip(n as int));
}

fn place_path(paths: &mut Vec<CandidatePath>, path: &CandidatePath)
    ensures
        text::views(final(paths)@) == placed_path(text::views(old(paths)@), path@),
{
    broadcast use text::group_views;

    let ghost all = text::views(paths@);
    let mut n: usize = paths.len();
    assert(all.take(n as int) =~= all);
    assert(placed_path(all, path@) =~= placed_path(all.take(n as int), path@) + all.skip(
        n as int,
    ));
    while n > 0
        invariant
            n <= paths@.len(),
            all == text::views(paths@),
            paths@ == old(paths)@,
            placed_path(all, path@) == placed_path(all.take(n as int), path@) + all.skip(n as int),
        decreases n,
    {
        assert(all.take(n as int).last() == paths@[n - 1]@);
        if str_eq(paths[n - 1].path.as_str(), path.path.as_str()) {
            assert(all.take(n as int) + all.skip(n as int) =~= all);
            return ;
        }
        if comes_before(paths[n - 1].path.as_str(), path.path.as_str()) {
            let copy = copy_path(path);
            paths.insert(n, copy);
            assert(text::views(paths@) =~= all.take(n as int).push(path@) + all.skip(n as int));
            return ;
        }
        assert(all.take(n as int).drop_last() =~= all.take(n as int - 1));
        assert(placed_path(all.take(n as int - 1), path@).push(all[n - 1]) + all.skip(n as int)
            =~= placed_path(all.take(n as int - 1), path@) + all.skip(n as int - 1));
        n = n - 1;
    }
    let copy = copy_path(path);
    paths.insert(0, copy);
    assert(text::views(paths@) =~= seq![path@] + all.skip(0));
}

fn sum_sizes(paths: &Vec<CandidatePath>) -> (r: u64)
    ensures
        r == total_size(text::views(paths@)),
{
    let ghost all = text::views(paths@);
    let mut sum: u64 = 0;
    let mut i: usize = 0;
    assert(all.take(0) =~= Seq::<CandidatePathView>::empty());
    while i < paths.len()
        invariant
            i <= paths@.len(),
            all == text::views(paths@),
            sum == total_size(all.take(i as int)),
        decreases paths@.len() - i,
    {
        assert(all.take(i as int + 1).drop_last() =~= all.take(i as int));
        assert(all.take(i as int + 1).last() == paths@[i as int]@);
        sum = sum.saturating_add(paths[i].size);
        i = i + 1;
    }
    assert(all.take(all.len() as int) =~= all);
    sum
}

fn make_group(posts: &Vec<PostCandidate>, members: &Vec<usize>) -> (r: Candidate)
    requires
        forall|k: int| 0 <= k < members@.len() ==> #[trigger] members@[k] < posts@.len(),
    ensures
        r@ == group_of(text::views(posts@), positions(members@)),
{
    broadcast use text::group_views;

    let ghost all = text::views(posts@);
    let ghost list = positions(members@);
    let mut post_ids: Vec<i64> = Vec::new();
    let mut created_at: i64 = i64::MAX;
    let mut paths: Vec<CandidatePath> = Vec::new();
    let mut i: usize = 0;
    assert(list.take(0) =~= Seq::<int>::empty());
    while i < members.len()
        invariant
            i <= members@.len(),
            all == text::views(posts@),
            list == positions(members@),
            forall|k: int| 0 <= k < members@.len() ==> #[trigger] members@[k] < posts@.len(),
            post_ids@ == member_ids(all, list.take(i as int)),
            created_at == oldest(all, list.take(i as int)),
            text::views(paths@) == member_paths(all, list.take(i as int)),
        decreases members@.len() - i,
    {
        let index: usize = members[i];
        let post = &posts[index];
        let ghost now = list.take(i as int + 1);
        assert(now.drop_last() =~= list.take(i as int));
        assert(now.last() == index);
        assert(all[index as int] == post@);
        place_id(&mut post_ids, post.post_id);
        if post.created_at < created_at {
            created_at = post.created_at;
        }
        let ghost held = text::views(paths@);
        let ghost more = post@.paths;
        let mut k: usize = 0;
        while k < post.paths.len()
            invariant
                k <= post.paths@.len(),
                more == text::views(post.paths@),
                text::views(paths@) == placed_paths(held, more, k as nat),
            decreases post.paths@.len() - k,
        {
            assert(more[k as int] == post.paths@[k as int]@);
            place_path(&mut paths, &post.paths[k]);
            k = k + 1;
        }
        i = i + 1;
    }
    assert(list.take(list.len() as int) =~= list);
    let size: u64 = sum_sizes(&paths);
    Candidate { post_ids, created_at, paths, size }
}

/// Groups posts by connected shared-path components and counts each file once.
pub fn group_shared_candidates(posts: &Vec<PostCandidate>) -> (r: Vec<Candidate>)
    ensures
        text::views(r@) == groups(text::views(posts@)),
{
    broadcast use text::group_views;

    let ghost all = text::views(posts@);
    let mut seen: Vec<bool> = Vec::new();
    let mut i: usize = 0;
    while i < posts.len()
        invariant
            i <= posts@.len(),
            seen@.len() == i,
            forall|k: int| 0 <= k < i ==> !(#[trigger] seen@[k]),
        decreases posts@.len() - i,
    {
        seen.push(false);
        i = i + 1;
    }
    let mut candidates: Vec<Candidate> = Vec::new();
    let mut start: usize = 0;
    assert(flagged(seen@) =~= Set::<int>::empty());
    assert(text::views(candidates@) =~= grouping(all, 0).members.map_values(
        |m: Seq<int>| group_of(all, m),
    ));
    while start < posts.len()
        invariant
            start <= posts@.len(),
            seen@.len() == posts@.len(),
            all == text::views(posts@),
            flagged(seen@) == grouping(all, start as nat).seen,
            text::views(candidates@) == grouping(all, start as nat).members.map_values(
                |m: Seq<int>| group_of(all, m),
            ),
        decreases posts@.len() - start,
    {
        broadcast use text::group_views;

        let ghost before = grouping(all, start as nat);
        assert(before.seen.contains(start as int) == seen@[start as int]) by {
            assert(flagged(seen@).contains(start as int) == seen@[start as int]);
        }
        if !seen[start] {
            let members = search(posts, &mut seen, start);
            let group = make_group(posts, &members);
            candidates.push(group);
            let ghost now = grouping(all, (start + 1) as nat);
            assert(now.members == before.members.push(positions(members@)));
            assert(now.members.map_values(|m: Seq<int>| group_of(all, m))
                =~= before.members.map_values(|m: Seq<int>| group_of(all, m)).push(
                group_of(all, positions(members@)),
            ));
        }
        start = start + 1;
    }
    candidates
}

/// Whether a chain of shared paths leads from the start to everything that the
/// search has found.
spec fn search_connected(posts: Seq<PostCandidateView>, start: int, s: Search) -> bool {
    forall|k: int|
        0 <= k < (s.done + s.queue).len() ==> connected(
            posts,
            start,
            #[trigger] (s.done + s.queue)[k],
        )
}

proof fn lemma_chain_grows(posts: Seq<PostCandidateView>, start: int, i: int, j: int)
    requires
        connected(posts, start, i),
        linked(posts, i, j),
        0 <= j < posts.len(),
    ensures
        connected(posts, start, j),
{
    let chain = choose|chain: Seq<int>| #[trigger]
        is_chain(posts, chain) && chain[0] == start && chain.last() == i;
    let longer = chain.push(j);
    assert forall|k: int| 0 <= k < longer.len() - 1 implies linked(
        posts,
        #[trigger] longer[k],
        longer[k + 1],
    ) by {
        if k < chain.len() - 1 {
            assert(linked(posts, chain[k], chain[k + 1]));
        }
    }
    assert(is_chain(posts, longer));
    assert(longer[0] == start && longer.last() == j);
}

proof fn lemma_follow_connected(
    posts: Seq<PostCandidateView>,
    start: int,
    index: int,
    s: Search,
    n: nat,
)
    requires
        0 <= index < posts.len(),
        n <= posts[index].paths.len(),
        connected(posts, start, index),
        search_connected(posts, start, s),
    ensures
        search_connected(posts, start, follow_paths(posts, s, posts[index].paths, n)),
    decreases n,
{
    if n > 0 {
        let paths = posts[index].paths;
        lemma_follow_connected(posts, start, index, s, (n - 1) as nat);
        let b = follow_paths(posts, s, paths, (n - 1) as nat);
        let path = paths[n - 1].path;
        let found = unseen_with(posts, b.seen, path, posts.len());
        lemma_unseen_with(posts, b.seen, path, posts.len());
        let t = follow_paths(posts, s, paths, n);
        assert(t.done + t.queue =~= (b.done + b.queue) + found);
        assert forall|k: int| 0 <= k < (t.done + t.queue).len() implies connected(
            posts,
            start,
            #[trigger] (t.done + t.queue)[k],
        ) by {
            let j = (t.done + t.queue)[k];
            if k < (b.done + b.queue).len() {
                assert((b.done + b.queue)[k] == j);
            } else {
                assert(found.contains(j)) by {
                    assert(found[k - (b.done + b.queue).len()] == j);
                }
                assert(has_path(posts[index], path)) by {
                    assert(paths[n - 1].path == path);
                }
                assert(linked(posts, index, j));
                lemma_chain_grows(posts, start, index, j);
            }
        }
    }
}

proof fn lemma_expanded_connected(posts: Seq<PostCandidateView>, seen: Set<int>, start: int, n: nat)
    requires
        0 <= start < posts.len(),
        !seen.contains(start),
    ensures
        search_connected(posts, start, expanded(posts, search_from(seen, start), n)),
    decreases n,
{
    let init = search_from(seen, start);
    if n == 0 {
        let chain = seq![start];
        assert(is_chain(posts, chain));
        assert(chain[0] == start && chain.last() == start);
        assert(connected(posts, start, start));
        assert(init.done + init.queue =~= seq![start]);
    } else {
        lemma_expanded_connected(posts, seen, start, (n - 1) as nat);
        lemma_search_from_ok(posts, seen, start);
        lemma_expanded(posts, seen, init, (n - 1) as nat);
        let s = expanded(posts, init, (n - 1) as nat);
        if s.queue.len() > 0 {
            let index = s.queue[0];
            let all = s.done + s.queue;
            assert(all[s.done.len() as int] == index);
            let taken = Search { seen: s.seen, queue: s.queue.skip(1), done: s.done.push(index) };
            assert(taken.done + taken.queue =~= all);
            lemma_follow_connected(posts, start, index, taken, posts[index].paths.len());
        }
    }
}

/// Sharing a path is mutual.
proof fn lemma_linked_symmetric(posts: Seq<PostCandidateView>, i: int, j: int)
    requires
        linked(posts, i, j),
    ensures
        linked(posts, j, i),
{
    let path = choose|path: Seq<char>|
        has_path(posts[i], path) && #[trigger] has_path(posts[j], path);
    assert(has_path(posts[j], path) && has_path(posts[i], path));
}

/// Whether nothing outside the set shares a path with anything in it.
pub open spec fn closed_under_sharing(posts: Seq<PostCandidateView>, set: Set<int>) -> bool {
    forall|i: int, j: int|
        set.contains(i) && 0 <= i < posts.len() && 0 <= j < posts.len() && #[trigger] linked(
            posts,
            i,
            j,
        ) ==> set.contains(j)
}

/// What holds of the posts that a search reaches: each once, none seen before,
/// each connected with the first, and sharing no path with any other post.
proof fn lemma_reached(posts: Seq<PostCandidateView>, seen: Set<int>, start: int)
    requires
        0 <= start < posts.len(),
        !seen.contains(start),
        closed_under_sharing(posts, seen),
    ensures
        ({
            let found = reached(posts, seen, start);
            &&& found.no_duplicates()
            &&& found.contains(start)
            &&& forall|k: int|
                0 <= k < found.len() ==> {
                    &&& 0 <= #[trigger] found[k] < posts.len()
                    &&& !seen.contains(found[k])
                    &&& connected(posts, start, found[k])
                }
            &&& closed_under_sharing(posts, found.to_set())
            &&& closed_under_sharing(posts, seen.union(found.to_set()))
        }),
{
    let init = search_from(seen, start);
    let n = posts.len();
    let s = expanded(posts, init, n);
    let found = reached(posts, seen, start);
    lemma_search_from_ok(posts, seen, start);
    lemma_expanded(posts, seen, init, n);
    lemma_search_ends(posts, seen, start, n);
    lemma_expanded_connected(posts, seen, start, n);
    assert(s.done + s.queue =~= found);
    assert forall|k: int| 0 <= k < found.len() implies {
        &&& 0 <= #[trigger] found[k] < posts.len()
        &&& !seen.contains(found[k])
        &&& connected(posts, start, found[k])
    } by {
        assert((s.done + s.queue)[k] == found[k]);
    }
    lemma_start_is_reached(posts, seen, start, n);
    assert forall|i: int, j: int|
        found.to_set().contains(i) && 0 <= i < posts.len() && 0 <= j < posts.len()
            && #[trigger] linked(posts, i, j) implies found.to_set().contains(j) by {
        assert(s.done.contains(i));
        assert(s.seen.contains(j));
        if seen.contains(j) {
            lemma_linked_symmetric(posts, i, j);
            assert(seen.contains(i));
            let k = found.index_of(i);
            assert(!seen.contains(found[k]));
        } else {
            assert((s.done + s.queue).to_set().contains(j));
        }
    }
    let both = seen.union(found.to_set());
    assert forall|i: int, j: int|
        both.contains(i) && 0 <= i < posts.len() && 0 <= j < posts.len() && #[trigger] linked(
            posts,
            i,
            j,
        ) implies both.contains(j) by {
        if seen.contains(i) {
            assert(seen.contains(j));
        } else {
            assert(found.to_set().contains(j));
        }
    }
}

proof fn lemma_start_is_reached(posts: Seq<PostCandidateView>, seen: Set<int>, start: int, n: nat)
    requires
        0 <= start < posts.len(),
        !seen.contains(start),
        n >= 1,
    ensures
        expanded(posts, search_from(seen, start), n).done.contains(start),
    decreases n,
{
    let init = search_from(seen, start);
    if n == 1 {
        let taken = Search {
            seen: init.seen,
            queue: init.queue.skip(1),
            done: init.done.push(start),
        };
        reveal_with_fuel(expanded, 2);
        lemma_follow_keeps_done(posts, taken, posts[start].paths, posts[start].paths.len());
        assert(taken.done[0] == start);
    } else {
        lemma_start_is_reached(posts, seen, start, (n - 1) as nat);
        let s = expanded(posts, init, (n - 1) as nat);
        if s.queue.len() > 0 {
            let index = s.queue[0];
            let taken = Search { seen: s.seen, queue: s.queue.skip(1), done: s.done.push(index) };
            lemma_follow_keeps_done(posts, taken, posts[index].paths, posts[index].paths.len());
            let k = s.done.index_of(start);
            assert(taken.done[k] == start);
        }
    }
}

/// Whether the groups are as they should be: every post looked at is in one,
/// none is in two, and a group's posts are connected with its first and share
/// no path with a post outside.
pub open spec fn well_grouped(posts: Seq<PostCandidateView>, g: Grouping, n: nat) -> bool {
    &&& forall|j: int| 0 <= j < n ==> #[trigger] g.seen.contains(j)
    &&& forall|j: int| #[trigger]
        g.seen.contains(j) ==> 0 <= j < posts.len() && exists|a: int| in_group(g, a, j)
    &&& forall|a: int, b: int, j: int|
        #[trigger] in_group(g, a, j) && #[trigger] in_group(g, b, j) ==> a == b
    &&& forall|a: int, j: int| #[trigger] in_group(g, a, j) ==> g.seen.contains(j)
    &&& forall|a: int, i: int, j: int|
        #[trigger] in_group(g, a, i) && 0 <= j < posts.len() && #[trigger] linked(posts, i, j)
            ==> in_group(g, a, j)
    &&& forall|a: int, i: int, j: int|
        #[trigger] in_group(g, a, i) && #[trigger] in_group(g, a, j) ==> exists|k: int|
            0 <= k < posts.len() && connected(posts, k, i) && connected(posts, k, j)
    &&& closed_under_sharing(posts, g.seen)
}

/// Whether the post at a position is in a group.
pub open spec fn in_group(g: Grouping, a: int, j: int) -> bool {
    0 <= a < g.members.len() && g.members[a].contains(j)
}

proof fn lemma_grouping(posts: Seq<PostCandidateView>, n: nat)
    requires
        n <= posts.len(),
    ensures
        well_grouped(posts, grouping(posts, n), n),
    decreases n,
{
    if n > 0 {
        lemma_grouping(posts, (n - 1) as nat);
        let b = grouping(posts, (n - 1) as nat);
        let g = grouping(posts, n);
        if !b.seen.contains(n - 1) {
            lemma_reached(posts, b.seen, n - 1);
            let found = reached(posts, b.seen, n - 1);
            let last = b.members.len() as int;
            assert forall|a: int, j: int| #[trigger] in_group(g, a, j) implies (if a < last {
                in_group(b, a, j)
            } else {
                found.contains(j)
            }) by {
                if a < last {
                    assert(g.members[a] == b.members[a]);
                }
            }
            assert forall|j: int| #[trigger] g.seen.contains(j) implies 0 <= j < posts.len()
                && exists|a: int| in_group(g, a, j) by {
                if b.seen.contains(j) {
                    let a = choose|a: int| in_group(b, a, j);
                    assert(in_group(g, a, j));
                } else {
                    assert(found.to_set().contains(j));
                    let k = found.index_of(j);
                    assert(found[k] == j);
                    assert(in_group(g, last, j));
                }
            }
            assert forall|a: int, c: int, j: int|
                #[trigger] in_group(g, a, j) && #[trigger] in_group(g, c, j) implies a == c by {
                if a < last && c < last {
                    assert(in_group(b, a, j) && in_group(b, c, j));
                } else if a < last || c < last {
                    let low = if a < last {
                        a
                    } else {
                        c
                    };
                    assert(in_group(b, low, j));
                    assert(b.seen.contains(j));
                    let k = found.index_of(j);
                    assert(!b.seen.contains(found[k]));
                }
            }
            assert forall|a: int, i: int, j: int|
                #[trigger] in_group(g, a, i) && 0 <= j < posts.len() && #[trigger] linked(
                    posts,
                    i,
                    j,
                ) implies in_group(g, a, j) by {
                if a < last {
                    assert(in_group(b, a, i));
                    assert(in_group(b, a, j));
                } else {
                    let k = found.index_of(i);
                    assert(0 <= found[k] < posts.len());
                    assert(found.to_set().contains(i));
                    assert(found.to_set().contains(j));
                }
            }
            assert forall|a: int, i: int, j: int|
                #[trigger] in_group(g, a, i) && #[trigger] in_group(g, a, j) implies exists|k: int|
                0 <= k < posts.len() && connected(posts, k, i) && connected(posts, k, j) by {
                if a < last {
                    assert(in_group(b, a, i) && in_group(b, a, j));
                } else {
                    let x = found.index_of(i);
                    let y = found.index_of(j);
                    assert(connected(posts, n - 1, found[x]));
                    assert(connected(posts, n - 1, found[y]));
                }
            }
            assert forall|j: int| 0 <= j < n implies #[trigger] g.seen.contains(j) by {
                if j == n - 1 {
                    assert(found.to_set().contains(j));
                }
            }
            assert forall|a: int, j: int| #[trigger] in_group(g, a, j) implies g.seen.contains(
                j,
            ) by {
                if a < last {
                    assert(in_group(b, a, j));
                } else {
                    assert(found.to_set().contains(j));
                }
            }
        }
    }
}

/// Every post is in exactly one group; the posts of a group are connected by
/// shared originals; and no original is shared between groups.
pub proof fn law_groups_partition_posts(posts: Seq<PostCandidateView>)
    ensures
        well_grouped(posts, grouping(posts, posts.len()), posts.len()),
{
    lemma_grouping(posts, posts.len());
}

/// Two posts that share an original are in the same group, so a shared file is
/// removed only together with every post that needs it.
pub proof fn law_sharing_posts_transition_together(posts: Seq<PostCandidateView>, i: int, j: int)
    requires
        0 <= i < posts.len(),
        0 <= j < posts.len(),
        linked(posts, i, j),
    ensures
        exists|a: int|
            in_group(grouping(posts, posts.len()), a, i) && in_group(
                grouping(posts, posts.len()),
                a,
                j,
            ),
{
    lemma_grouping(posts, posts.len());
    let g = grouping(posts, posts.len());
    assert(g.seen.contains(i));
    let a = choose|a: int| in_group(g, a, i);
    assert(in_group(g, a, i) && in_group(g, a, j));
}

/// Whether the originals ascend by path.
pub open spec fn paths_ascend(paths: Seq<CandidatePathView>) -> bool {
    forall|i: int, j: int|
        0 <= i < j < paths.len() ==> text::precedes(
            (#[trigger] paths[i]).path,
            (#[trigger] paths[j]).path,
        )
}

proof fn lemma_placed_path(paths: Seq<CandidatePathView>, path: CandidatePathView)
    requires
        paths_ascend(paths),
    ensures
        paths_ascend(placed_path(paths, path)),
        forall|k: int|
            0 <= k < placed_path(paths, path).len() ==> (#[trigger] placed_path(paths, path)[k])
                == path || paths.contains(placed_path(paths, path)[k]),
    decreases paths.len(),
{
    let r = placed_path(paths, path);
    if paths.len() > 0 {
        let last = paths.last();
        if last.path == path.path {
            assert forall|k: int| 0 <= k < r.len() implies (#[trigger] r[k]) == path
                || paths.contains(r[k]) by {
                assert(paths[k] == r[k]);
            }
        } else if text::precedes(last.path, path.path) {
            assert forall|i: int, j: int| 0 <= i < j < r.len() implies text::precedes(
                (#[trigger] r[i]).path,
                (#[trigger] r[j]).path,
            ) by {
                if j == paths.len() && i < paths.len() - 1 {
                    text::lemma_precedes_transitive(paths[i].path, last.path, path.path);
                }
            }
            assert forall|k: int| 0 <= k < r.len() implies (#[trigger] r[k]) == path
                || paths.contains(r[k]) by {
                if k < paths.len() {
                    assert(paths[k] == r[k]);
                }
            }
        } else {
            text::lemma_precedes_total(last.path, path.path);
            let rest = paths.drop_last();
            lemma_placed_path(rest, path);
            let inner = placed_path(rest, path);
            assert forall|i: int, j: int| 0 <= i < j < r.len() implies text::precedes(
                (#[trigger] r[i]).path,
                (#[trigger] r[j]).path,
            ) by {
                if j == r.len() - 1 {
                    assert(r[i] == inner[i]);
                    if inner[i] != path {
                        let k = rest.index_of(inner[i]);
                        assert(paths[k] == inner[i]);
                        assert(text::precedes(paths[k].path, paths[paths.len() - 1].path));
                    }
                } else {
                    assert(r[i] == inner[i] && r[j] == inner[j]);
                }
            }
            assert forall|k: int| 0 <= k < r.len() implies (#[trigger] r[k]) == path
                || paths.contains(r[k]) by {
                if k < inner.len() {
                    if inner[k] != path {
                        let x = rest.index_of(inner[k]);
                        assert(paths[x] == inner[k]);
                    }
                } else {
                    assert(paths[paths.len() - 1] == r[k]);
                }
            }
        }
    }
}

proof fn lemma_placed_paths(paths: Seq<CandidatePathView>, more: Seq<CandidatePathView>, n: nat)
    requires
        paths_ascend(paths),
    ensures
        paths_ascend(placed_paths(paths, more, n)),
    decreases n,
{
    if n > 0 {
        lemma_placed_paths(paths, more, (n - 1) as nat);
        lemma_placed_path(placed_paths(paths, more, (n - 1) as nat), more[n - 1]);
    }
}

/// A group counts each of its files once: its originals ascend by path, so none
/// occurs twice.
pub proof fn law_groups_count_files_once(posts: Seq<PostCandidateView>, members: Seq<int>)
    ensures
        paths_ascend(group_of(posts, members).paths),
        prune::distinct_paths(group_of(posts, members).paths),
    decreases members.len(),
{
    lemma_member_paths(posts, members);
    let paths = group_of(posts, members).paths;
    assert forall|i: int, j: int| 0 <= i < j < paths.len() implies (#[trigger] paths[i]).path != (
    #[trigger] paths[j]).path by {
        text::lemma_precedes_total(paths[i].path, paths[j].path);
    }
}

proof fn lemma_member_paths(posts: Seq<PostCandidateView>, members: Seq<int>)
    ensures
        paths_ascend(member_paths(posts, members)),
    decreases members.len(),
{
    if members.len() > 0 {
        lemma_member_paths(posts, members.drop_last());
        let more = posts[members.last()].paths;
        lemma_placed_paths(member_paths(posts, members.drop_last()), more, more.len());
    }
}

/// A post row as loaded for pruning.
#[derive(Debug, Clone)]
pub struct PruneRow {
    pub post_id: i64,
    pub created_at: i64,
    pub path: String,
    pub file: FileSize,
    pub db_size: Option<i64>,
    pub board_short: String,
    pub audio_path: Option<String>,
    pub audio_file: FileSize,
    pub audio_db_size: Option<i64>,
}

/// The model of a loaded post row.
pub struct PruneRowView {
    pub post_id: i64,
    pub created_at: i64,
    pub path: Seq<char>,
    pub file: FileSize,
    pub db_size: Option<i64>,
    pub board_short: Seq<char>,
    pub audio_path: Option<Seq<char>>,
    pub audio_file: FileSize,
    pub audio_db_size: Option<i64>,
}

impl View for PruneRow {
    type V = PruneRowView;

    open spec fn view(&self) -> PruneRowView {
        PruneRowView {
            post_id: self.post_id,
            created_at: self.created_at,
            path: self.path@,
            file: self.file,
            db_size: self.db_size,
            board_short: self.board_short@,
            audio_path: text::opt_view(self.audio_path),
            audio_file: self.audio_file,
            audio_db_size: self.audio_db_size,
        }
    }
}

/// The original that a loaded path adds.
pub open spec fn loaded_paths(load: LoadView) -> Seq<CandidatePathView> {
    match load {
        LoadView::Loaded(path) => seq![path],
        _ => Seq::empty(),
    }
}

/// The post that a row stands for: none where one of its paths is unsafe, or
/// where none of them has a known size.
pub open spec fn post_of_row(row: PruneRowView) -> Option<PostCandidateView> {
    let primary = prune::loaded_path(row.path, row.board_short, row.file, row.db_size);
    let audio = match row.audio_path {
        Some(path) => prune::loaded_path(path, row.board_short, row.audio_file, row.audio_db_size),
        None => LoadView::MissingSize,
    };
    let paths = loaded_paths(primary) + loaded_paths(audio);
    if primary is Unsafe || audio is Unsafe || paths.len() == 0 {
        None
    } else {
        Some(PostCandidateView { post_id: row.post_id, created_at: row.created_at, paths })
    }
}

/// The posts that the rows stand for.
pub open spec fn posts_of_rows(rows: Seq<PruneRowView>) -> Seq<PostCandidateView>
    decreases rows.len(),
{
    if rows.len() == 0 {
        Seq::empty()
    } else {
        let before = posts_of_rows(rows.drop_last());
        match post_of_row(rows.last()) {
            Some(post) => before.push(post),
            None => before,
        }
    }
}

fn load_post(row: &PruneRow) -> (r: Option<PostCandidate>)
    ensures
        text::opt_view(r) == post_of_row(row@),
{
    broadcast use text::group_views;

    let mut paths: Vec<CandidatePath> = Vec::new();
    match candidate_path(row.path.as_str(), row.file, row.db_size, row.board_short.as_str()) {
        CandidatePathLoad::Loaded(path) => {
            paths.push(path);
        },
        CandidatePathLoad::MissingSize => {},
        CandidatePathLoad::Unsafe => {
            return None;
        },
    }
    let ghost first = text::views(paths@);
    let ghost primary = prune::loaded_path(
        row@.path,
        row@.board_short,
        row.file,
        row.db_size,
    );
    assert(first =~= loaded_paths(primary));
    if let Some(audio) = &row.audio_path {
        match candidate_path(
            audio.as_str(),
            row.audio_file,
            row.audio_db_size,
            row.board_short.as_str(),
        ) {
            CandidatePathLoad::Loaded(path) => {
                let ghost view = path@;
                paths.push(path);
                assert(text::views(paths@) =~= first + seq![view]);
            },
            CandidatePathLoad::MissingSize => {
                assert(first + Seq::<CandidatePathView>::empty() =~= first);
            },
            CandidatePathLoad::Unsafe => {
                return None;
            },
        }
    } else {
        assert(first + Seq::<CandidatePathView>::empty() =~= first);
    }
    assert(text::views(paths@).len() == paths@.len());
    if paths.len() == 0 {
        return None;
    }
    Some(PostCandidate { post_id: row.post_id, created_at: row.created_at, paths })
}

/// Loads the groups that may be pruned.
pub fn load_candidates(rows: &Vec<PruneRow>) -> (r: Vec<Candidate>)
    ensures
        text::views(r@) == groups(posts_of_rows(text::views(rows@))),
{
    broadcast use text::group_views;

    let ghost all = text::views(rows@);
    let mut posts: Vec<PostCandidate> = Vec::new();
    let mut i: usize = 0;
    assert(all.take(0) =~= Seq::<PruneRowView>::empty());
    while i < rows.len()
        invariant
            i <= rows@.len(),
            all == text::views(rows@),
            text::views(posts@) == posts_of_rows(all.take(i as int)),
        decreases rows@.len() - i,
    {
        broadcast use text::group_views;

        assert(all.take(i as int + 1).drop_last() =~= all.take(i as int));
        assert(all.take(i as int + 1).last() == rows@[i as int]@);
        match load_post(&rows[i]) {
            Some(post) => {
                posts.push(post);
            },
            None => {},
        }
        i = i + 1;
    }
    assert(all.take(all.len() as int) =~= all);
    group_shared_candidates(&posts)
}

proof fn lemma_placed_id(ids: Seq<i64>, id: i64)
    requires
        forall|i: int, j: int| 0 <= i < j < ids.len() ==> #[trigger] ids[i] <= #[trigger] ids[j],
    ensures
        ({
            let r = placed_id(ids, id);
            &&& r.to_multiset() =~= ids.to_multiset().insert(id)
            &&& forall|i: int, j: int|
                0 <= i < j < r.len() ==> #[trigger] r[i] <= #[trigger] r[j]
            &&& r.len() == ids.len() + 1
            &&& forall|i: int|
                0 <= i < r.len() ==> (#[trigger] r[i]) == id || ids.contains(r[i])
        }),
    decreases ids.len(),
{
    broadcast use vstd::seq_lib::group_to_multiset_ensures;

    let r = placed_id(ids, id);
    if ids.len() == 0 || ids.last() <= id {
        assert(r =~= ids.push(id));
        assert forall|i: int| 0 <= i < r.len() implies (#[trigger] r[i]) == id || ids.contains(
            r[i],
        ) by {
            if i < ids.len() {
                assert(ids.contains(ids[i]));
            }
        }
    } else {
        let earlier = ids.drop_last();
        lemma_placed_id(earlier, id);
        let inner = placed_id(earlier, id);
        assert(earlier.push(ids.last()) =~= ids);
        assert(r.to_multiset() =~= inner.to_multiset().insert(ids.last()));
        assert(ids.to_multiset() =~= earlier.to_multiset().insert(ids.last()));
        assert forall|i: int| 0 <= i < r.len() implies (#[trigger] r[i]) == id || ids.contains(
            r[i],
        ) by {
            if i < inner.len() && inner[i] != id {
                let k = choose|k: int| 0 <= k < earlier.len() && earlier[k] == inner[i];
                assert(ids[k] == inner[i]);
            } else if i == inner.len() {
                assert(ids.contains(ids[ids.len() - 1]));
            }
        }
        assert forall|i: int, j: int| 0 <= i < j < r.len() implies #[trigger] r[i]
            <= #[trigger] r[j] by {
            if j == r.len() - 1 {
                if inner[i] != id {
                    let k = choose|k: int| 0 <= k < earlier.len() && earlier[k] == inner[i];
                    assert(ids[k] <= ids[ids.len() - 1]);
                }
            }
        }
    }
}

/// A group lists the identifiers of its posts, each as often as it occurs, in ascending
/// order, and is as old as the oldest of them.
pub proof fn law_groups_list_their_posts(posts: Seq<PostCandidateView>, members: Seq<int>)
    ensures
        ({
            let g = group_of(posts, members);
            &&& g.post_ids.to_multiset() =~= members.map_values(
                |m: int| posts[m].post_id,
            ).to_multiset()
            &&& forall|i: int, j: int|
                0 <= i < j < g.post_ids.len() ==> #[trigger] g.post_ids[i]
                    <= #[trigger] g.post_ids[j]
            &&& forall|k: int|
                0 <= k < members.len() ==> g.created_at <= posts[#[trigger] members[k]].created_at
            &&& members.len() > 0 ==> exists|k: int|
                0 <= k < members.len() && posts[#[trigger] members[k]].created_at == g.created_at
        }),
    decreases members.len(),
{
    broadcast use vstd::seq_lib::group_to_multiset_ensures;

    let g = group_of(posts, members);
    let ids = members.map_values(|m: int| posts[m].post_id);
    if members.len() == 0 {
        assert(ids =~= g.post_ids);
    } else {
        let earlier = members.drop_last();
        law_groups_list_their_posts(posts, earlier);
        let before = group_of(posts, earlier);
        let last = members.last();
        lemma_placed_id(before.post_ids, posts[last].post_id);
        let earlier_ids = earlier.map_values(|m: int| posts[m].post_id);
        assert(ids =~= earlier_ids.push(posts[last].post_id));
        assert forall|k: int| 0 <= k < members.len() implies g.created_at <= posts[
            #[trigger] members[k]].created_at by {
            if k < earlier.len() {
                assert(earlier[k] == members[k]);
            }
        }
        if posts[last].created_at < before.created_at {
            assert(posts[members[members.len() - 1]].created_at == g.created_at);
        } else if earlier.len() > 0 {
            let k = choose|k: int|
                0 <= k < earlier.len() && posts[#[trigger] earlier[k]].created_at
                    == before.created_at;
            assert(posts[members[k]].created_at == g.created_at);
        } else {
            assert(before.created_at == i64::MAX);
            assert(posts[members[members.len() - 1]].created_at == g.created_at);
        }
    }
}

proof fn lemma_lists_placed(paths: Seq<CandidatePathView>, path: CandidatePathView, p: Seq<char>)
    ensures
        lists_path(placed_path(paths, path), p) <==> lists_path(paths, p) || p == path.path,
    decreases paths.len(),
{
    let r = placed_path(paths, path);
    if paths.len() == 0 {
        assert(r[0].path == path.path);
    } else if paths.last().path == path.path {
        assert(paths[paths.len() - 1].path == path.path);
    } else if text::precedes(paths.last().path, path.path) {
        assert(r[paths.len() as int].path == path.path);
        if lists_path(paths, p) {
            let k = choose|k: int| 0 <= k < paths.len() && (#[trigger] paths[k]).path == p;
            assert(r[k].path == p);
        }
        if lists_path(r, p) && p != path.path {
            let k = choose|k: int| 0 <= k < r.len() && (#[trigger] r[k]).path == p;
            assert(paths[k].path == p);
        }
    } else {
        let earlier = paths.drop_last();
        let inner = placed_path(earlier, path);
        lemma_lists_placed(earlier, path, p);
        assert(r[inner.len() as int] == paths.last());
        if lists_path(paths, p) {
            let k = choose|k: int| 0 <= k < paths.len() && (#[trigger] paths[k]).path == p;
            if k < earlier.len() {
                assert(earlier[k].path == p);
            }
        }
        if lists_path(inner, p) {
            let k = choose|k: int| 0 <= k < inner.len() && (#[trigger] inner[k]).path == p;
            assert(r[k].path == p);
        }
        if lists_path(r, p) {
            let k = choose|k: int| 0 <= k < r.len() && (#[trigger] r[k]).path == p;
            if k < inner.len() {
                assert(inner[k].path == p);
                if lists_path(earlier, p) {
                    let i = choose|i: int|
                        0 <= i < earlier.len() && (#[trigger] earlier[i]).path == p;
                    assert(paths[i].path == p);
                }
            } else {
                assert(paths[paths.len() - 1].path == p);
            }
        }
    }
}

/// Whether the path is one of those listed.
pub open spec fn lists_path(paths: Seq<CandidatePathView>, p: Seq<char>) -> bool {
    exists|k: int| 0 <= k < paths.len() && (#[trigger] paths[k]).path == p
}

proof fn lemma_lists_placed_all(
    paths: Seq<CandidatePathView>,
    more: Seq<CandidatePathView>,
    n: nat,
    p: Seq<char>,
)
    requires
        n <= more.len(),
    ensures
        lists_path(placed_paths(paths, more, n), p) <==> lists_path(paths, p) || exists|k: int|
            0 <= k < n && (#[trigger] more[k]).path == p,
    decreases n,
{
    if n > 0 {
        lemma_lists_placed_all(paths, more, (n - 1) as nat, p);
        lemma_lists_placed(placed_paths(paths, more, (n - 1) as nat), more[n - 1], p);
    }
}

/// A group has exactly the originals of its posts.
pub proof fn law_groups_have_the_originals_of_their_posts(
    posts: Seq<PostCandidateView>,
    members: Seq<int>,
    p: Seq<char>,
)
    ensures
        lists_path(group_of(posts, members).paths, p) <==> exists|k: int|
            0 <= k < members.len() && lists_path(posts[#[trigger] members[k]].paths, p),
    decreases members.len(),
{
    if members.len() > 0 {
        let earlier = members.drop_last();
        law_groups_have_the_originals_of_their_posts(posts, earlier, p);
        let more = posts[members.last()].paths;
        lemma_lists_placed_all(member_paths(posts, earlier), more, more.len(), p);
        if lists_path(member_paths(posts, earlier), p) {
            let k = choose|k: int|
                0 <= k < earlier.len() && lists_path(posts[#[trigger] earlier[k]].paths, p);
            assert(members[k] == earlier[k]);
        }
        if lists_path(more, p) {
            assert(lists_path(posts[members[members.len() - 1]].paths, p));
        }
        if exists|k: int|
            0 <= k < members.len() && lists_path(posts[#[trigger] members[k]].paths, p) {
            let k = choose|k: int|
                0 <= k < members.len() && lists_path(posts[#[trigger] members[k]].paths, p);
            if k < earlier.len() {
                assert(earlier[k] == members[k]);
            }
        }
    }
}

/// The sizes of the first originals, added up.
pub open spec fn sum_of_sizes(paths: Seq<CandidatePathView>, n: nat) -> int
    decreases n,
{
    if n == 0 {
        0
    } else {
        sum_of_sizes(paths, (n - 1) as nat) + paths[n - 1].size
    }
}

proof fn lemma_sum_of_part(paths: Seq<CandidatePathView>, n: nat)
    requires
        n < paths.len(),
    ensures
        sum_of_sizes(paths.drop_last(), n) == sum_of_sizes(paths, n),
        0 <= sum_of_sizes(paths, n),
    decreases n,
{
    if n > 0 {
        lemma_sum_of_part(paths, (n - 1) as nat);
    }
}

/// A group is as large as its originals together, as far as that can be counted.
pub proof fn law_groups_are_as_large_as_their_originals(paths: Seq<CandidatePathView>)
    ensures
        total_size(paths) == if sum_of_sizes(paths, paths.len()) > u64::MAX {
            u64::MAX as int
        } else {
            sum_of_sizes(paths, paths.len())
        },
        0 <= sum_of_sizes(paths, paths.len()),
    decreases paths.len(),
{
    if paths.len() > 0 {
        law_groups_are_as_large_as_their_originals(paths.drop_last());
        lemma_sum_of_part(paths, (paths.len() - 1) as nat);
    }
}

/// A row is a candidate exactly where neither of its originals is unsafe and one of them has
/// a size; it then has those that do, the file first.
pub proof fn law_rows_are_candidates_when_safe(row: PruneRowView)
    ensures
        ({
            let file = prune::loaded_path(row.path, row.board_short, row.file, row.db_size);
            let r = post_of_row(row);
            let audio = prune::loaded_path(
                row.audio_path->Some_0,
                row.board_short,
                row.audio_file,
                row.audio_db_size,
            );
            let heard = row.audio_path is Some;
            &&& r is Some <==> !(file is Unsafe) && !(heard && audio is Unsafe) && (file is Loaded
                || (heard && audio is Loaded))
            &&& r is Some ==> r->Some_0.post_id == row.post_id && r->Some_0.created_at
                == row.created_at
            &&& r is Some && file is Loaded && heard && audio is Loaded ==> r->Some_0.paths.len()
                == 2 && r->Some_0.paths[0] == file->Loaded_0 && r->Some_0.paths[1]
                == audio->Loaded_0
            &&& r is Some && file is Loaded && !(heard && audio is Loaded)
                ==> r->Some_0.paths.len() == 1 && r->Some_0.paths[0] == file->Loaded_0
            &&& r is Some && !(file is Loaded) ==> r->Some_0.paths.len() == 1
                && r->Some_0.paths[0] == audio->Loaded_0
        }),
{
}

/// The posts of rows are those of each row, in the order of the rows.
pub proof fn law_rows_become_posts(a: Seq<PruneRowView>, b: Seq<PruneRowView>, row: PruneRowView)
    ensures
        posts_of_rows(a + b) == posts_of_rows(a) + posts_of_rows(b),
        post_of_row(row) is Some ==> posts_of_rows(seq![row]) == seq![post_of_row(row)->Some_0],
        post_of_row(row) is None ==> posts_of_rows(seq![row]).len() == 0,
    decreases b.len(),
{
    let one = seq![row];
    assert(one.drop_last() =~= Seq::<PruneRowView>::empty());
    assert(posts_of_rows(one.drop_last()) =~= Seq::<PostCandidateView>::empty());
    assert(one.last() == row);
    if b.len() == 0 {
        assert(a + b =~= a);
        assert(posts_of_rows(a) + posts_of_rows(b) =~= posts_of_rows(a));
    } else {
        law_rows_become_posts(a, b.drop_last(), row);
        assert((a + b).drop_last() =~= a + b.drop_last());
        assert((a + b).last() == b.last());
        assert(posts_of_rows(a + b) =~= posts_of_rows(a) + posts_of_rows(b));
    }
}

proof fn lemma_group_lists_member(posts: Seq<PostCandidateView>, members: Seq<int>, i: int)
    requires
        members.contains(i),
    ensures
        group_of(posts, members).post_ids.contains(posts[i].post_id),
{
    broadcast use vstd::seq_lib::group_to_multiset_ensures;

    law_groups_list_their_posts(posts, members);
    let g = group_of(posts, members);
    let ids = members.map_values(|m: int| posts[m].post_id);
    let k = choose|k: int| 0 <= k < members.len() && members[k] == i;
    assert(ids[k] == posts[i].post_id);
    assert(ids.contains(posts[i].post_id));
    assert(ids.to_multiset().count(posts[i].post_id) > 0);
    assert(g.post_ids.to_multiset().count(posts[i].post_id) > 0);
}

/// Two posts with an original in common are pruned together: one group lists both, and has
/// that original.
pub proof fn law_posts_that_share_are_in_one_group(
    posts: Seq<PostCandidateView>,
    i: int,
    j: int,
    p: Seq<char>,
)
    requires
        0 <= i < posts.len(),
        0 <= j < posts.len(),
        lists_path(posts[i].paths, p),
        lists_path(posts[j].paths, p),
    ensures
        exists|a: int|
            0 <= a < groups(posts).len() && (#[trigger] groups(posts)[a]).post_ids.contains(
                posts[i].post_id,
            ) && groups(posts)[a].post_ids.contains(posts[j].post_id) && lists_path(
                groups(posts)[a].paths,
                p,
            ),
{
    assert(has_path(posts[i], p) && has_path(posts[j], p));
    assert(linked(posts, i, j));
    law_sharing_posts_transition_together(posts, i, j);
    let g = grouping(posts, posts.len());
    let a = choose|a: int| in_group(g, a, i) && in_group(g, a, j);
    let members = g.members[a];
    lemma_group_lists_member(posts, members, i);
    lemma_group_lists_member(posts, members, j);
    law_groups_have_the_originals_of_their_posts(posts, members, p);
    let k = choose|k: int| 0 <= k < members.len() && members[k] == i;
    assert(lists_path(posts[members[k]].paths, p));
    assert(groups(posts)[a] == group_of(posts, members));
}

} // verus!
