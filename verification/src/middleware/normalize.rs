//! Paths of requests without trailing slashes.

use vstd::prelude::*;
use vstd::string::*;
use crate::text;
use crate::text::{chars_of, text_of};

verus! {

/// The path without the slashes at its end.
pub open spec fn stripped(path: Seq<char>) -> Seq<char>
    decreases path.len(),
{
    if path.len() > 0 && path.last() == '/' {
        stripped(path.drop_last())
    } else {
        path
    }
}

/// The path that a request should have had; the root stays as it is.
pub open spec fn canonical(path: Seq<char>) -> Seq<char> {
    if stripped(path).len() == 0 {
        "/"@
    } else {
        stripped(path)
    }
}

/// Whether a request should have had another path.
pub open spec fn has_trailing_slash(path: Seq<char>) -> bool {
    path.len() > 1 && path.last() == '/'
}

/// The address that a request should have had, if its path ends in a slash too many.
pub open spec fn redirect_target(path: Seq<char>, query: Option<Seq<char>>) -> Option<Seq<char>> {
    if !has_trailing_slash(path) {
        None
    } else {
        match query {
            Some(q) => Some(canonical(path) + "?"@ + q),
            None => Some(canonical(path)),
        }
    }
}

/// The address that a request should have had, if its path ends in a slash too many.
pub fn canonical_target(path: &str, query: Option<&str>) -> (r: Option<String>)
    ensures
        text::opt_view(r) == redirect_target(path@, text::opt_str(query)),
{
    let a = chars_of(path);
    if a.len() <= 1 || a[a.len() - 1] != '/' {
        return None;
    }
    let mut n: usize = a.len();
    assert(a@.take(n as int) =~= a@);
    while n > 0 && a[n - 1] == '/'
        invariant
            n <= a@.len(),
            stripped(a@) == stripped(a@.take(n as int)),
        decreases n,
    {
        assert(a@.take(n as int).drop_last() =~= a@.take(n as int - 1));
        n = n - 1;
    }
    assert(stripped(a@) =~= a@.take(n as int));
    assert(a@.subrange(0, n as int) =~= a@.take(n as int));
    let mut target = if n == 0 {
        "/".to_owned()
    } else {
        text_of(&a, 0, n)
    };
    match query {
        Some(q) => {
            target.append("?");
            target.append(q);
        },
        None => {},
    }
    Some(target)
}

/// Whether a text is an address of the web.
pub uninterp spec fn is_uri(address: Seq<char>) -> bool;

/// `axum::http::Uri::from_str`: whether the text is read as an address. A lone slash
/// is.
#[verifier::external_body]
fn parses_as_uri(address: &str) -> (r: bool)
    ensures
        r == is_uri(address@),
        address@ == "/"@ ==> r,
{
    address.parse::<axum::http::Uri>().is_ok()
}

/// Where a request is redirected to: the address that it should have had, where that
/// is an address.
pub open spec fn redirected(target: Option<Seq<char>>) -> Option<Seq<char>> {
    match target {
        Some(address) => if is_uri(address) {
            Some(address)
        } else {
            None
        },
        None => None,
    }
}

/// Decides where a request is redirected to, if its path ends in a slash too many. A
/// path of slashes alone leads to the root.
pub fn normalize_trailing_slash(path: &str, query: Option<&str>) -> (r: Option<String>)
    ensures
        text::opt_view(r) == redirected(redirect_target(path@, text::opt_str(query))),
        has_trailing_slash(path@) && stripped(path@).len() == 0 && query is None ==> text::opt_view(
            r,
        ) == Some("/"@),
{
    match canonical_target(path, query) {
        Some(address) => if parses_as_uri(address.as_str()) {
            Some(address)
        } else {
            None
        },
        None => None,
    }
}

/// A redirect leads to a path that is not redirected again, and never to an empty one.
pub proof fn law_redirects_end(path: Seq<char>)
    ensures
        canonical(path).len() > 0,
        !has_trailing_slash(canonical(path)),
        path.len() > 0 && !has_trailing_slash(path) ==> canonical(path) == path,
{
    lemma_stripped(path);
    reveal_strlit("/");
    if path.len() == 1 && path.last() == '/' {
        assert(stripped(path.drop_last()).len() == 0);
        assert(path =~= "/"@);
    }
}

proof fn lemma_stripped(path: Seq<char>)
    ensures
        stripped(path).len() == 0 || stripped(path).last() != '/',
        stripped(path).len() <= path.len(),
    decreases path.len(),
{
    if path.len() > 0 && path.last() == '/' {
        lemma_stripped(path.drop_last());
    }
}

proof fn lemma_stripped_slashes(path: Seq<char>, slashes: Seq<char>)
    requires
        path.len() == 0 || path.last() != '/',
        forall|i: int| 0 <= i < slashes.len() ==> #[trigger] slashes[i] == '/',
    ensures
        stripped(path + slashes) == path,
    decreases slashes.len(),
{
    if slashes.len() == 0 {
        assert(path + slashes =~= path);
    } else {
        let whole = path + slashes;
        assert(whole.last() == slashes[slashes.len() - 1]);
        assert(whole.drop_last() =~= path + slashes.drop_last());
        lemma_stripped_slashes(path, slashes.drop_last());
    }
}

/// A path with slashes at its end is redirected to the path without any of them, with its
/// query; the root, and a path that ends otherwise, is not.
pub proof fn law_slashes_at_the_end_are_dropped(
    path: Seq<char>,
    slashes: Seq<char>,
    query: Option<Seq<char>>,
)
    requires
        path.len() == 0 || path.last() != '/',
        forall|i: int| 0 <= i < slashes.len() ==> #[trigger] slashes[i] == '/',
    ensures
        ({
            let target = redirect_target(path + slashes, query);
            let bare = if path.len() == 0 {
                "/"@
            } else {
                path
            };
            &&& target is Some <==> slashes.len() > 0 && path.len() + slashes.len() > 1
            &&& target is Some && query is None ==> target == Some(bare)
            &&& target is Some && query is Some ==> target == Some(bare + "?"@ + query->Some_0)
        }),
{
    lemma_stripped_slashes(path, slashes);
    if slashes.len() > 0 {
        assert((path + slashes).last() == slashes[slashes.len() - 1]);
    } else {
        assert(path + slashes =~= path);
    }
}

/// A request is led to the very address that it should have had, and to none exactly when
/// there is no such address or it is no address.
pub proof fn law_requests_are_led_to_their_address(address: Seq<char>)
    ensures
        redirected(None) is None,
        is_uri(address) ==> redirected(Some(address)) == Some(address),
        !is_uri(address) ==> redirected(Some(address)) is None,
{
}

} // verus!
