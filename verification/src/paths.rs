//! Slash-separated paths and their components.
//!
//! Repeated and trailing slashes separate nothing, and a `.` counts only at the
//! start of a relative path.

use vstd::prelude::*;
use vstd::string::*;
use crate::text;
use crate::text::{chars_of, join, split_at_char, str_eq, text_of};

verus! {

/// One component of a path.
#[derive(Debug)]
pub enum Part {
    /// The leading slash of an absolute path.
    Root,
    /// A `.` at the start of a relative path.
    Current,
    /// A `..` component.
    Parent,
    /// An ordinary name.
    Normal(String),
}

/// The model of a path component.
pub enum PartView {
    /// The leading slash of an absolute path.
    Root,
    /// A `.` at the start of a relative path.
    Current,
    /// A `..` component.
    Parent,
    /// An ordinary name.
    Normal(Seq<char>),
}

impl View for Part {
    type V = PartView;

    open spec fn view(&self) -> PartView {
        match self {
            Part::Root => PartView::Root,
            Part::Current => PartView::Current,
            Part::Parent => PartView::Parent,
            Part::Normal(name) => PartView::Normal(name@),
        }
    }
}

/// Whether the path begins at the root.
pub open spec fn is_absolute(path: Seq<char>) -> bool {
    path.len() > 0 && path[0] == '/'
}

/// The component that the text between two slashes stands for, if any.
pub open spec fn part_of(segment: Seq<char>, first: bool) -> Option<PartView> {
    if segment.len() == 0 {
        None
    } else if segment == "."@ {
        if first {
            Some(PartView::Current)
        } else {
            None
        }
    } else if segment == ".."@ {
        Some(PartView::Parent)
    } else {
        Some(PartView::Normal(segment))
    }
}

/// The components that the texts between slashes stand for.
pub open spec fn parts_of(segments: Seq<Seq<char>>) -> Seq<PartView>
    decreases segments.len(),
{
    if segments.len() == 0 {
        Seq::empty()
    } else {
        let before = parts_of(segments.drop_last());
        match part_of(segments.last(), segments.len() == 1) {
            Some(part) => before.push(part),
            None => before,
        }
    }
}

/// The components of a path.
pub open spec fn components(path: Seq<char>) -> Seq<PartView> {
    let root = if is_absolute(path) {
        seq![PartView::Root]
    } else {
        Seq::empty()
    };
    root + parts_of(text::split(path, '/'))
}

/// The names of a path's components, where every component is a name.
pub open spec fn plain_names(path: Seq<char>) -> Option<Seq<Seq<char>>> {
    let parts = components(path);
    if forall|i: int| 0 <= i < parts.len() ==> (#[trigger] parts[i]) is Normal {
        Some(parts.map_values(|p: PartView| p->Normal_0))
    } else {
        None
    }
}

/// The last component of a path, where it is a name.
pub open spec fn file_name(path: Seq<char>) -> Option<Seq<char>> {
    let parts = components(path);
    if parts.len() > 0 && parts.last() is Normal {
        Some(parts.last()->Normal_0)
    } else {
        None
    }
}

/// Where the character last stands in the text.
pub open spec fn last_index(s: Seq<char>, c: char) -> Option<int>
    decreases s.len(),
{
    if s.len() == 0 {
        None
    } else if s.last() == c {
        Some(s.len() - 1)
    } else {
        last_index(s.drop_last(), c)
    }
}

/// The part of a file name before its extension.
pub open spec fn name_stem(name: Seq<char>) -> Seq<char> {
    match last_index(name, '.') {
        Some(i) => if i > 0 {
            name.take(i)
        } else {
            name
        },
        None => name,
    }
}

/// The extension of a file name: what follows its last dot, unless the name
/// begins with that dot.
pub open spec fn name_extension(name: Seq<char>) -> Option<Seq<char>> {
    match last_index(name, '.') {
        Some(i) => if i > 0 {
            Some(name.skip(i + 1))
        } else {
            None
        },
        None => None,
    }
}

/// The stem of the file that a path names.
pub open spec fn file_stem(path: Seq<char>) -> Option<Seq<char>> {
    match file_name(path) {
        Some(name) => Some(name_stem(name)),
        None => None,
    }
}

/// The extension of the file that a path names.
pub open spec fn extension(path: Seq<char>) -> Option<Seq<char>> {
    match file_name(path) {
        Some(name) => name_extension(name),
        None => None,
    }
}

/// The index of the last text between slashes that stands for a component.
pub open spec fn last_part_index(segments: Seq<Seq<char>>) -> Option<int>
    decreases segments.len(),
{
    if segments.len() == 0 {
        None
    } else if part_of(segments.last(), segments.len() == 1) is Some {
        Some(segments.len() - 1)
    } else {
        last_part_index(segments.drop_last())
    }
}

/// A path with the extension of the file that it names replaced.
pub open spec fn with_extension(path: Seq<char>, ext: Seq<char>) -> Seq<char> {
    let segments = text::split(path, '/');
    match last_part_index(segments) {
        Some(k) => if part_of(segments[k], k == 0) is Some && part_of(
            segments[k],
            k == 0,
        )->Some_0 is Normal {
            let named = text::joined(
                segments.take(k).push(name_stem(segments[k])),
                "/"@,
            );
            if ext.len() == 0 {
                named
            } else {
                named + "."@ + ext
            }
        } else {
            path
        },
        None => path,
    }
}

/// A path below a directory: an absolute path replaces the directory.
pub open spec fn joined_path(dir: Seq<char>, path: Seq<char>) -> Seq<char> {
    if is_absolute(path) {
        path
    } else if dir.len() == 0 || dir.last() == '/' {
        dir + path
    } else {
        dir + "/"@ + path
    }
}

/// The path without its last component; a path without one has no parent.
pub open spec fn parent(path: Seq<char>) -> Option<Seq<char>> {
    let segments = text::split(path, '/');
    match last_part_index(segments) {
        Some(k) => match last_part_index(segments.take(k)) {
            Some(j) => Some(text::joined(segments.take(j + 1), "/"@)),
            None => if is_absolute(path) {
                Some("/"@)
            } else {
                Some(Seq::empty())
            },
        },
        None => None,
    }
}

/// Splits a path into its components.
pub fn path_components(path: &str) -> (r: Vec<Part>)
    ensures
        text::views(r@) == components(path@),
{
    broadcast use text::group_views;

    let a = chars_of(path);
    let segments = split_at_char(path, '/');
    let mut parts: Vec<Part> = Vec::new();
    if a.len() > 0 && a[0] == '/' {
        parts.push(Part::Root);
    }
    let ghost root = text::views(parts@);
    let ghost all = text::views(segments@);
    let mut i: usize = 0;
    assert(all.take(0) =~= Seq::<Seq<char>>::empty());
    assert(text::views(parts@) =~= root + parts_of(all.take(0)));
    while i < segments.len()
        invariant
            i <= segments@.len(),
            all == text::views(segments@),
            text::views(parts@) == root + parts_of(all.take(i as int)),
        decreases segments@.len() - i,
    {
        broadcast use text::group_views;

        let ghost before = text::views(parts@);
        let ghost next = all.take(i as int + 1);
        assert(next.drop_last() =~= all.take(i as int));
        assert(next.last() == segments@[i as int]@);
        let segment = segments[i].as_str();
        if segment.is_empty() {
        } else if str_eq(segment, ".") {
            if i == 0 {
                parts.push(Part::Current);
            }
        } else if str_eq(segment, "..") {
            parts.push(Part::Parent);
        } else {
            parts.push(Part::Normal(segment.to_owned()));
        }
        assert(text::views(parts@) =~= root + parts_of(next));
        i = i + 1;
    }
    assert(all.take(all.len() as int) =~= all);
    assert(components(path@) =~= root + parts_of(all)) by {
        if is_absolute(path@) {
            assert(root =~= seq![PartView::Root]);
        } else {
            assert(root =~= Seq::<PartView>::empty());
        }
    }
    parts
}

/// The names of a path's components, unless one of them is not a name.
pub fn path_names(path: &str) -> (r: Option<Vec<String>>)
    ensures
        match r {
            Some(names) => plain_names(path@) == Some(text::views(names@)),
            None => plain_names(path@) is None,
        },
{
    let parts = path_components(path);
    let ghost views = text::views(parts@);
    let mut names: Vec<String> = Vec::new();
    let mut i: usize = 0;
    while i < parts.len()
        invariant
            i <= parts@.len(),
            views == text::views(parts@),
            views == components(path@),
            names@.len() == i,
            forall|j: int| 0 <= j < i ==> (#[trigger] views[j]) is Normal,
            forall|j: int| 0 <= j < i ==> views[j]->Normal_0 == (#[trigger] names@[j])@,
        decreases parts@.len() - i,
    {
        match &parts[i] {
            Part::Normal(name) => {
                names.push(name.clone());
            },
            _ => {
                assert(!(views[i as int] is Normal));
                return None;
            },
        }
        i = i + 1;
    }
    assert(views.map_values(|p: PartView| p->Normal_0) =~= text::views(names@));
    Some(names)
}

/// Where the character last stands in the text.
pub fn find_last(s: &Vec<char>, c: char) -> (r: Option<usize>)
    ensures
        match r {
            Some(i) => i < s@.len() && last_index(s@, c) == Some(i as int),
            None => last_index(s@, c) is None,
        },
{
    let mut n: usize = s.len();
    assert(s@.take(n as int) =~= s@);
    while n > 0
        invariant
            n <= s@.len(),
            last_index(s@, c) == last_index(s@.take(n as int), c),
        decreases n,
    {
        if s[n - 1] == c {
            return Some(n - 1);
        }
        assert(s@.take(n as int).drop_last() =~= s@.take(n as int - 1));
        n = n - 1;
    }
    None
}

/// The last component of a path, where it is a name.
pub fn path_file_name(path: &str) -> (r: Option<String>)
    ensures
        text::opt_view(r) == file_name(path@),
{
    let mut parts = path_components(path);
    match parts.pop() {
        Some(Part::Normal(name)) => Some(name),
        _ => None,
    }
}

/// The part of a file name before its extension.
pub fn stem_of(name: &str) -> (r: String)
    ensures
        r@ == name_stem(name@),
{
    let a = chars_of(name);
    match find_last(&a, '.') {
        Some(i) => if i > 0 {
            assert(a@.subrange(0, i as int) =~= a@.take(i as int));
            text_of(&a, 0, i)
        } else {
            name.to_owned()
        },
        None => name.to_owned(),
    }
}

/// The extension of a file name.
pub fn extension_of(name: &str) -> (r: Option<String>)
    ensures
        text::opt_view(r) == name_extension(name@),
{
    let a = chars_of(name);
    let end: usize = a.len();
    match find_last(&a, '.') {
        Some(i) => if i > 0 {
            assert(a@.subrange(i as int + 1, a@.len() as int) =~= a@.skip(i as int + 1));
            Some(text_of(&a, i + 1, end))
        } else {
            None
        },
        None => None,
    }
}

/// The stem of the file that a path names.
pub fn path_file_stem(path: &str) -> (r: Option<String>)
    ensures
        text::opt_view(r) == file_stem(path@),
{
    match path_file_name(path) {
        Some(name) => Some(stem_of(name.as_str())),
        None => None,
    }
}

/// The extension of the file that a path names.
pub fn path_extension(path: &str) -> (r: Option<String>)
    ensures
        text::opt_view(r) == extension(path@),
{
    match path_file_name(path) {
        Some(name) => extension_of(name.as_str()),
        None => None,
    }
}

/// Joins a path to a directory.
pub fn join_path(dir: &str, path: &str) -> (r: String)
    ensures
        r@ == joined_path(dir@, path@),
{
    let below = chars_of(path);
    if below.len() > 0 && below[0] == '/' {
        return path.to_owned();
    }
    let above = chars_of(dir);
    let mut r = dir.to_owned();
    if above.len() > 0 && above[above.len() - 1] != '/' {
        r.append("/");
    }
    r.append(path);
    r
}

/// The index of the last of the first `n` texts that stands for a component.
fn find_last_part(segments: &Vec<String>, n: usize) -> (r: Option<usize>)
    requires
        n <= segments@.len(),
    ensures
        match r {
            Some(k) => k < n && last_part_index(text::views(segments@).take(n as int)) == Some(
                k as int,
            ),
            None => last_part_index(text::views(segments@).take(n as int)) is None,
        },
{
    let ghost all = text::views(segments@);
    let mut m: usize = n;
    while m > 0
        invariant
            m <= n <= segments@.len(),
            all == text::views(segments@),
            last_part_index(all.take(n as int)) == last_part_index(all.take(m as int)),
        decreases m,
    {
        let segment = segments[m - 1].as_str();
        assert(all.take(m as int).last() == segment@);
        assert(all.take(m as int).drop_last() =~= all.take(m as int - 1));
        if segment.is_empty() {
        } else if str_eq(segment, ".") && m != 1 {
        } else {
            return Some(m - 1);
        }
        m = m - 1;
    }
    None
}

/// The path without its last component.
pub fn path_parent(path: &str) -> (r: Option<String>)
    ensures
        text::opt_view(r) == parent(path@),
{
    broadcast use text::group_views;

    let segments = split_at_char(path, '/');
    let n: usize = segments.len();
    let ghost all = text::views(segments@);
    assert(all.take(n as int) =~= all);
    match find_last_part(&segments, n) {
        None => None,
        Some(k) => match find_last_part(&segments, k) {
            None => {
                let a = chars_of(path);
                if a.len() > 0 && a[0] == '/' {
                    Some("/".to_owned())
                } else {
                    let none = String::new();
                    assert(none@ =~= Seq::<char>::empty());
                    Some(none)
                }
            },
            Some(j) => {
                let mut kept: Vec<String> = Vec::new();
                let mut i: usize = 0;
                assert(all.take(0) =~= Seq::<Seq<char>>::empty());
                while i < j + 1
                    invariant
                        i <= j + 1 <= segments@.len(),
                        j < usize::MAX,
                        all == text::views(segments@),
                        text::views(kept@) == all.take(i as int),
                    decreases j + 1 - i,
                {
                    broadcast use text::group_views;

                    kept.push(segments[i].clone());
                    assert(all.take(i as int + 1) =~= all.take(i as int).push(all[i as int]));
                    i = i + 1;
                }
                Some(join(&kept, "/"))
            },
        },
    }
}

/// Replaces the extension of the file that a path names.
pub fn path_with_extension(path: &str, ext: &str) -> (r: String)
    ensures
        r@ == with_extension(path@, ext@),
{
    broadcast use text::group_views;

    let segments = split_at_char(path, '/');
    let ghost all = text::views(segments@);
    let mut n: usize = segments.len();
    assert(all.take(n as int) =~= all);
    while n > 0
        invariant
            n <= segments@.len(),
            all == text::views(segments@),
            all == text::split(path@, '/'),
            last_part_index(all) == last_part_index(all.take(n as int)),
        decreases n,
    {
        broadcast use text::group_views;

        let segment = segments[n - 1].as_str();
        assert(all.take(n as int).last() == segment@);
        assert(all.take(n as int).drop_last() =~= all.take(n as int - 1));
        if segment.is_empty() {
        } else if str_eq(segment, ".") {
            if n == 1 {
                return path.to_owned();
            }
        } else if str_eq(segment, "..") {
            return path.to_owned();
        } else {
            let mut kept: Vec<String> = Vec::new();
            let mut i: usize = 0;
            while i + 1 < n
                invariant
                    i < n <= segments@.len(),
                    all == text::views(segments@),
                    text::views(kept@) == all.take(i as int),
                decreases n - i,
            {
                broadcast use text::group_views;

                kept.push(segments[i].clone());
                assert(all.take(i as int + 1) =~= all.take(i as int).push(all[i as int]));
                i = i + 1;
            }
            kept.push(stem_of(segment));
            let mut named = join(&kept, "/");
            if !ext.is_empty() {
                named.append(".");
                named.append(ext);
            }
            return named;
        }
        n = n - 1;
    }
    path.to_owned()
}

/// A path that ends in a plain character takes the extension that it is given.
pub proof fn lemma_with_extension_ends(path: Seq<char>, ext: Seq<char>)
    requires
        path.len() > 0,
        path.last() != '/',
        path.last() != '.',
        ext.len() > 0,
    ensures
        text::finishes(with_extension(path, ext), "."@ + ext),
{
    let segments = text::split(path, '/');
    text::lemma_split_nonempty(path.drop_last(), '/');
    let last = segments.last();
    assert(last.last() == path.last());
    reveal_strlit(".");
    reveal_strlit("..");
    assert("."@.last() == '.');
    assert(".."@.last() == '.');
    let k = segments.len() - 1;
    assert(last_part_index(segments) == Some(k as int));
    let named = text::joined(segments.take(k).push(name_stem(segments[k])), "/"@);
    let whole = with_extension(path, ext);
    assert(whole =~= named + ("."@ + ext));
    assert(whole.skip(whole.len() - ("."@ + ext).len()) =~= "."@ + ext);
}

/// The names of a path are pieces between its slashes: none is empty, none stands for
/// this directory or the one above, and none holds a slash or a character that the path
/// does not hold.
pub open spec fn is_plain_name(name: Seq<char>, path: Seq<char>) -> bool {
    &&& name.len() > 0
    &&& name != "."@
    &&& name != ".."@
    &&& !name.contains('/')
    &&& forall|c: char| #[trigger] name.contains(c) ==> path.contains(c)
}

proof fn lemma_parts_are_pieces(segments: Seq<Seq<char>>, k: int)
    requires
        0 <= k < parts_of(segments).len(),
        parts_of(segments)[k] is Normal,
    ensures
        ({
            let name = parts_of(segments)[k]->Normal_0;
            segments.contains(name) && name.len() > 0 && name != "."@ && name != ".."@
        }),
    decreases segments.len(),
{
    if segments.len() > 0 {
        let before = parts_of(segments.drop_last());
        if k < before.len() {
            lemma_parts_are_pieces(segments.drop_last(), k);
            let name = before[k]->Normal_0;
            let i = choose|i: int|
                0 <= i < segments.drop_last().len() && segments.drop_last()[i] == name;
            assert(segments[i] == name);
        } else {
            assert(segments[segments.len() - 1] == segments.last());
        }
    }
}

/// Every name of a path is plain.
pub proof fn lemma_names_are_plain(path: Seq<char>, k: int)
    requires
        !is_absolute(path),
        plain_names(path) is Some,
        0 <= k < plain_names(path)->Some_0.len(),
    ensures
        is_plain_name(plain_names(path)->Some_0[k], path),
{
    let segments = text::split(path, '/');
    assert(components(path) =~= parts_of(segments));
    let name = plain_names(path)->Some_0[k];
    assert(components(path)[k] is Normal);
    lemma_parts_are_pieces(segments, k);
    text::lemma_split_pieces(path, '/');
    let i = choose|i: int| 0 <= i < segments.len() && segments[i] == name;
    assert forall|c: char| #[trigger] name.contains(c) implies path.contains(c) && c != '/' by {
        let j = choose|j: int| 0 <= j < name.len() && name[j] == c;
        assert(segments[i][j] == c);
    }
}

/// Plain names that are joined by slashes are the names of the path that they make up.
pub proof fn lemma_joined_names(names: Seq<Seq<char>>, path: Seq<char>)
    requires
        names.len() > 0,
        forall|k: int| 0 <= k < names.len() ==> is_plain_name(#[trigger] names[k], path),
    ensures
        text::split(text::joined(names, "/"@), '/') == names,
        !is_absolute(text::joined(names, "/"@)),
        plain_names(text::joined(names, "/"@)) == Some(names),
        forall|c: char| #[trigger]
            text::joined(names, "/"@).contains(c) ==> c == '/' || path.contains(c),
    decreases names.len(),
{
    reveal_strlit("/");
    let all = text::joined(names, "/"@);
    let name = names.last();
    assert(is_plain_name(names[names.len() - 1], path));
    if names.len() == 1 {
        text::lemma_split_extends(Seq::empty(), name, '/');
        assert(Seq::<char>::empty() + name =~= name);
        assert(text::split(all, '/') =~= names);
        assert(!is_absolute(all)) by {
            assert(all.contains(all[0]));
        }
    } else {
        let before = names.drop_last();
        let head = text::joined(before, "/"@);
        assert forall|k: int| 0 <= k < before.len() implies is_plain_name(
            #[trigger] before[k],
            path,
        ) by {
            assert(before[k] == names[k]);
        }
        lemma_joined_names(before, path);
        text::lemma_split_nonempty(head, '/');
        let cut = head.push('/');
        assert(cut.drop_last() =~= head);
        assert(all =~= cut + name);
        text::lemma_split_extends(cut, name, '/');
        assert(Seq::<char>::empty() + name =~= name);
        assert(text::split(all, '/') =~= names);
        lemma_joined_begins(before);
        assert(all[0] == head[0]);
        assert forall|c: char| #[trigger] all.contains(c) implies c == '/' || path.contains(c) by {
            let j = choose|j: int| 0 <= j < all.len() && all[j] == c;
            if j < head.len() {
                assert(head[j] == c);
                assert(head.contains(c));
            } else if j > head.len() {
                assert(name[j - head.len() - 1] == c);
                assert(name.contains(c));
            }
        }
    }
    lemma_parts_of_names(names);
    assert(components(all) =~= parts_of(names));
    assert(components(all).map_values(|p: PartView| p->Normal_0) =~= names);
}

proof fn lemma_joined_begins(names: Seq<Seq<char>>)
    requires
        names.len() > 0,
        names[0].len() > 0,
    ensures
        text::joined(names, "/"@).len() > 0,
    decreases names.len(),
{
    if names.len() > 1 {
        lemma_joined_begins(names.drop_last());
    }
}

proof fn lemma_parts_of_names(names: Seq<Seq<char>>)
    requires
        forall|k: int|
            0 <= k < names.len() ==> (#[trigger] names[k]).len() > 0 && names[k] != "."@ && names[k]
                != ".."@,
    ensures
        parts_of(names).len() == names.len(),
        forall|k: int|
            0 <= k < names.len() ==> (#[trigger] parts_of(names)[k]) == PartView::Normal(names[k]),
    decreases names.len(),
{
    if names.len() > 0 {
        lemma_parts_of_names(names.drop_last());
        assert(names[names.len() - 1] == names.last());
    }
}

proof fn lemma_last_index(s: Seq<char>, c: char, k: int)
    requires
        0 <= k < s.len(),
        s[k] == c,
        forall|x: int| k < x < s.len() ==> (#[trigger] s[x]) != c,
    ensures
        last_index(s, c) == Some(k),
    decreases s.len(),
{
    if k < s.len() - 1 {
        assert(s[s.len() - 1] != c);
        let t = s.drop_last();
        assert forall|x: int| k < x < t.len() implies (#[trigger] t[x]) != c by {
            assert(t[x] == s[x]);
        }
        assert(t[k] == s[k]);
        lemma_last_index(t, c, k);
    }
}

proof fn lemma_no_index(s: Seq<char>, c: char)
    requires
        !s.contains(c),
    ensures
        last_index(s, c) is None,
    decreases s.len(),
{
    if s.len() > 0 {
        assert(s.contains(s[s.len() - 1]));
        assert forall|x: int| 0 <= x < s.drop_last().len() implies s.drop_last()[x] != c by {
            assert(s.contains(s[x]));
        }
        lemma_no_index(s.drop_last(), c);
    }
}

/// A file name is told apart at its last dot, where that is not its first character: what
/// stands before it is the stem, what follows is the extension.
pub proof fn law_names_are_told_apart_at_their_last_dot(stem: Seq<char>, ext: Seq<char>)
    requires
        stem.len() > 0,
        !ext.contains('.'),
    ensures
        name_stem(stem + "."@ + ext) == stem,
        name_extension(stem + "."@ + ext) == Some(ext),
        !stem.contains('.') ==> name_stem(stem) == stem && name_extension(stem) is None,
        name_stem("."@ + ext) == "."@ + ext,
        name_extension("."@ + ext) is None,
{
    reveal_strlit(".");
    let name = stem + "."@ + ext;
    let k = stem.len() as int;
    assert forall|x: int| k < x < name.len() implies (#[trigger] name[x]) != '.' by {
        assert(ext.contains(ext[x - k - 1]));
    }
    lemma_last_index(name, '.', k);
    assert(name.take(k) =~= stem);
    assert(name.skip(k + 1) =~= ext);
    if !stem.contains('.') {
        lemma_no_index(stem, '.');
    }
    let hidden = "."@ + ext;
    assert forall|x: int| 0 < x < hidden.len() implies (#[trigger] hidden[x]) != '.' by {
        assert(ext.contains(ext[x - 1]));
    }
    lemma_last_index(hidden, '.', 0);
}

/// The segments of a path that ends in a name.
proof fn lemma_segments_of_joined(dir: Seq<char>, name: Seq<char>)
    requires
        name.len() > 0,
        !name.contains('/'),
        name != "."@,
        name != ".."@,
    ensures
        ({
            let path = joined_path(dir, name);
            let segments = text::split(path, '/');
            &&& segments.len() > 0
            &&& segments.last() == name
            &&& last_part_index(segments) == Some(segments.len() - 1)
            &&& forall|other: Seq<char>| #[trigger]
                text::joined(segments.drop_last().push(other), "/"@) == if dir.len() == 0
                    || dir.last() == '/' {
                    dir + other
                } else {
                    dir + "/"@ + other
                }
        }),
{
    reveal_strlit("/");
    assert("/"@ =~= seq!['/']);
    assert(name.contains(name[0]));
    let path = joined_path(dir, name);
    let segments = text::split(path, '/');
    text::lemma_split_extends(Seq::empty(), name, '/');
    assert(Seq::<char>::empty() + name =~= name);
    assert(text::split(name, '/') =~= seq![name]);
    if dir.len() == 0 {
        assert(path =~= name);
        assert forall|other: Seq<char>| #[trigger]
            text::joined(segments.drop_last().push(other), "/"@) == dir + other by {
            assert(segments.drop_last().push(other) =~= seq![other]);
            assert(dir + other =~= other);
        }
    } else {
        let d = if dir.last() == '/' {
            dir.drop_last()
        } else {
            dir
        };
        assert(path =~= d.push('/') + name);
        text::lemma_split_at_separator(d, name, '/');
        text::lemma_split_nonempty(d, '/');
        text::law_pieces_join_to_the_string(d, '/');
        assert(segments =~= text::split(d, '/').push(name));
        assert(segments.drop_last() =~= text::split(d, '/'));
        assert forall|other: Seq<char>| #[trigger]
            text::joined(segments.drop_last().push(other), "/"@) == if dir.len() == 0 || dir.last()
            == '/' {
            dir + other
        } else {
            dir + "/"@ + other
        } by {
            let list = text::split(d, '/').push(other);
            assert(list.drop_last() =~= text::split(d, '/'));
            assert(text::joined(list, "/"@) == d + "/"@ + other);
            if dir.last() == '/' {
                assert(d + "/"@ =~= dir);
            }
        }
    }
}

/// A path made of a directory and a name has that name, and its stem and extension; and
/// with another extension it is the path of the same stem with that one, in the same
/// directory.
pub proof fn law_paths_keep_their_parts(
    dir: Seq<char>,
    stem: Seq<char>,
    ext: Seq<char>,
    other: Seq<char>,
)
    requires
        stem.len() > 0,
        !stem.contains('/'),
        ext.len() > 0,
        !ext.contains('/'),
        !ext.contains('.'),
        other.len() > 0,
    ensures
        file_name(joined_path(dir, stem + "."@ + ext)) == Some(stem + "."@ + ext),
        file_stem(joined_path(dir, stem + "."@ + ext)) == Some(stem),
        extension(joined_path(dir, stem + "."@ + ext)) == Some(ext),
        !other.contains('/') ==> with_extension(joined_path(dir, stem + "."@ + ext), other)
            == joined_path(dir, stem + "."@ + other),
{
    reveal_strlit(".");
    reveal_strlit("..");
    let name = stem + "."@ + ext;
    assert(name.contains(name[0]));
    assert forall|x: int| 0 <= x < name.len() implies name[x] != '/' by {
        if x < stem.len() {
            assert(stem.contains(stem[x]));
        } else if x > stem.len() {
            assert(ext.contains(ext[x - stem.len() - 1]));
        }
    }
    assert(name.len() >= 3);
    assert("."@.len() == 1 && ".."@.len() == 2);
    law_names_are_told_apart_at_their_last_dot(stem, ext);
    lemma_segments_of_joined(dir, name);
    let path = joined_path(dir, name);
    let segments = text::split(path, '/');
    assert(parts_of(segments).last() == PartView::Normal(name));
    assert(components(path).last() == PartView::Normal(name));
    let k = segments.len() - 1;
    assert(segments[k] == name);
    assert(segments.take(k) =~= segments.drop_last());
    if !other.contains('/') {
        let made = stem + "."@ + other;
        assert(stem.contains(stem[0]));
        assert(!is_absolute(made));
        assert(with_extension(path, other) =~= joined_path(dir, made));
    }
}

/// Whether the text can be a path's component: it is not empty, holds no slash and does not
/// start with a dot.
pub open spec fn is_shown_name(name: Seq<char>) -> bool {
    &&& name.len() > 0
    &&& name[0] != '.'
    &&& !name.contains('/')
}

proof fn lemma_names_extend(path: Seq<char>, name: Seq<char>)
    requires
        path.len() > 0,
        plain_names(path) is Some,
        is_shown_name(name),
    ensures
        plain_names(path + "/"@ + name) == Some(plain_names(path)->Some_0.push(name)),
{
    reveal_strlit("/");
    reveal_strlit(".");
    reveal_strlit("..");
    assert("."@[0] == '.' && ".."@[0] == '.');
    let whole = path + "/"@ + name;
    assert(whole =~= path.push('/') + name);
    text::lemma_split_at_separator(path, name, '/');
    text::lemma_split_nonempty(path, '/');
    text::lemma_split_extends(Seq::empty(), name, '/');
    assert(Seq::<char>::empty() + name =~= name);
    assert(text::split(name, '/') =~= seq![name]);
    let segments = text::split(path, '/').push(name);
    assert(text::split(whole, '/') =~= segments);
    assert(segments.drop_last() =~= text::split(path, '/'));
    assert(parts_of(segments) == parts_of(text::split(path, '/')).push(PartView::Normal(name)));
    assert(whole[0] == path[0]);
    assert(components(whole) =~= components(path).push(PartView::Normal(name)));
    let parts = components(whole);
    assert forall|i: int| 0 <= i < parts.len() implies (#[trigger] parts[i]) is Normal by {
        if i < components(path).len() {
            assert(parts[i] == components(path)[i]);
        }
    }
    assert(plain_names(whole)->Some_0 =~= plain_names(path)->Some_0.push(name));
}

/// A path made of names, with a slash between each two, is made of those names.
pub proof fn law_paths_are_made_of_their_names(a: Seq<char>, b: Seq<char>, c: Seq<char>)
    requires
        is_shown_name(a),
        is_shown_name(b),
        is_shown_name(c),
    ensures
        plain_names(a) == Some(seq![a]),
        plain_names(a + "/"@ + b) == Some(seq![a, b]),
        plain_names(a + "/"@ + b + "/"@ + c) == Some(seq![a, b, c]),
        !is_absolute(a + "/"@ + b),
        !is_absolute(a + "/"@ + b + "/"@ + c),
{
    reveal_strlit(".");
    reveal_strlit("..");
    assert("."@[0] == '.' && ".."@[0] == '.');
    text::lemma_split_extends(Seq::empty(), a, '/');
    assert(Seq::<char>::empty() + a =~= a);
    assert(text::split(a, '/') =~= seq![a]);
    assert(a.contains(a[0]));
    let segments = seq![a];
    assert(segments.drop_last().len() == 0);
    assert(parts_of(segments.drop_last()) =~= Seq::empty());
    assert(parts_of(segments) =~= seq![PartView::Normal(a)]);
    assert(components(a) =~= seq![PartView::Normal(a)]);
    assert(plain_names(a)->Some_0 =~= seq![a]);
    lemma_names_extend(a, b);
    assert(seq![a].push(b) =~= seq![a, b]);
    lemma_names_extend(a + "/"@ + b, c);
    assert(seq![a, b].push(c) =~= seq![a, b, c]);
    assert((a + "/"@ + b)[0] == a[0]);
    assert((a + "/"@ + b + "/"@ + c)[0] == a[0]);
}

/// A path without its extension is the path of the same stem, in the same directory.
pub proof fn law_extensions_can_be_dropped(dir: Seq<char>, stem: Seq<char>, ext: Seq<char>)
    requires
        stem.len() > 0,
        !stem.contains('/'),
        ext.len() > 0,
        !ext.contains('/'),
        !ext.contains('.'),
    ensures
        with_extension(joined_path(dir, stem + "."@ + ext), Seq::empty()) == joined_path(dir, stem),
{
    reveal_strlit(".");
    reveal_strlit("..");
    let name = stem + "."@ + ext;
    assert forall|x: int| 0 <= x < name.len() implies name[x] != '/' by {
        if x < stem.len() {
            assert(stem.contains(stem[x]));
        } else if x > stem.len() {
            assert(ext.contains(ext[x - stem.len() - 1]));
        }
    }
    assert(name.len() >= 3);
    assert("."@.len() == 1 && ".."@.len() == 2);
    law_names_are_told_apart_at_their_last_dot(stem, ext);
    lemma_segments_of_joined(dir, name);
    let path = joined_path(dir, name);
    let segments = text::split(path, '/');
    let k = segments.len() - 1;
    assert(segments[k] == name);
    assert(segments.take(k) =~= segments.drop_last());
    assert(stem.contains(stem[0]));
    assert(!is_absolute(stem));
    assert(text::joined(segments.drop_last().push(stem), "/"@) == if dir.len() == 0 || dir.last()
        == '/' {
        dir + stem
    } else {
        dir + "/"@ + stem
    });
}

/// What a directory holds has that directory as its parent; a name alone has the empty path,
/// a name in the root has the root, and the root and the empty path have none.
pub proof fn law_parents_hold_their_files(dir: Seq<char>, inner: Seq<char>, name: Seq<char>)
    requires
        name.len() > 0,
        name != "."@,
        !name.contains('/'),
        inner.len() > 0,
        inner != "."@,
        !inner.contains('/'),
    ensures
        parent(dir + seq!['/'] + inner + seq!['/'] + name) == Some(dir + seq!['/'] + inner),
        parent(inner + seq!['/'] + name) == Some(inner),
        parent(name) == Some(Seq::<char>::empty()),
        parent(seq!['/'] + name) == Some(seq!['/']),
        parent(seq!['/']) is None,
        parent(Seq::empty()) is None,
{
    reveal_strlit("/");
    assert("/"@ =~= seq!['/']);
    let none = Seq::<char>::empty();
    lemma_single(name);
    lemma_single(inner);
    lemma_single(none);
    let holder = dir + seq!['/'] + inner;
    assert(holder =~= dir.push('/') + inner);
    text::lemma_split_at_separator(dir, inner, '/');
    text::lemma_split_nonempty(dir, '/');
    lemma_parent_of(holder, name);
    assert(text::split(inner, '/').last() == inner);
    lemma_parent_of(inner, name);
    let alone = text::split(name, '/');
    assert(alone.last() == name && alone.len() == 1);
    assert(alone.take(0) =~= Seq::<Seq<char>>::empty());
    assert(last_part_index(alone) == Some(0int));
    assert(name[0] != '/') by {
        assert(name.contains(name[0]));
    }
    let root = seq!['/'] + name;
    assert(root =~= none.push('/') + name);
    text::lemma_split_at_separator(none, name, '/');
    let parts = text::split(root, '/');
    assert(parts =~= seq![none, name]);
    assert(parts.last() == name);
    assert(last_part_index(parts) == Some(1int));
    assert(parts.take(1) =~= seq![none]);
    assert(seq![none].drop_last() =~= Seq::<Seq<char>>::empty());
    assert(last_part_index(seq![none].drop_last()) is None);
    assert(last_part_index(seq![none]) is None);
    assert(root[0] == '/');
    assert(seq!['/'] =~= none.push('/') + none);
    text::lemma_split_at_separator(none, none, '/');
    let bare = text::split(seq!['/'], '/');
    assert(bare =~= seq![none, none]);
    assert(bare.drop_last() =~= seq![none]);
    assert(last_part_index(bare) is None);
    assert(text::split(none, '/') =~= seq![none]);
}

proof fn lemma_single(name: Seq<char>)
    requires
        !name.contains('/'),
    ensures
        text::split(name, '/') == seq![name],
{
    text::lemma_split_extends(Seq::empty(), name, '/');
    assert(Seq::<char>::empty() + name =~= name);
    assert(text::split(name, '/') =~= seq![name]);
}

proof fn lemma_parent_of(dir: Seq<char>, name: Seq<char>)
    requires
        name.len() > 0,
        name != "."@,
        !name.contains('/'),
        text::split(dir, '/').last().len() > 0,
        text::split(dir, '/').last() != "."@,
    ensures
        parent(dir + seq!['/'] + name) == Some(dir),
{
    reveal_strlit("/");
    assert("/"@ =~= seq!['/']);
    lemma_single(name);
    text::lemma_split_nonempty(dir, '/');
    let outer = text::split(dir, '/');
    let path = dir + seq!['/'] + name;
    assert(path =~= dir.push('/') + name);
    text::lemma_split_at_separator(dir, name, '/');
    let segments = text::split(path, '/');
    assert(segments =~= outer.push(name));
    assert(segments.last() == name);
    assert(last_part_index(segments) == Some(outer.len() as int));
    assert(segments.take(outer.len() as int) =~= outer);
    assert(last_part_index(outer) == Some(outer.len() - 1));
    assert(segments.take(outer.len() as int) =~= outer.take(outer.len() as int));
    text::law_pieces_join_to_the_string(dir, '/');
}

} // verus!
