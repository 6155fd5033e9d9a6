//! The names under which events and their fields are shown.

use vstd::prelude::*;
use vstd::string::*;
use crate::logging::scan;
use crate::logging::scan::{last_before, replace_char};
use crate::text;
use crate::text::{chars_of, contains_str, starts_with, str_eq, text_of};

verus! {

/// The last piece of a path of modules, up to the given position.
pub open spec fn last_piece(target: Seq<char>, to: int) -> Seq<char> {
    match scan::index_before(target, "::"@, to) {
        Some(i) => target.subrange(i + 2, to),
        None => target.take(to),
    }
}

/// The component that a path of modules stands for: its last piece, or the one before
/// where the last is `mod`.
pub open spec fn component_of(target: Seq<char>) -> Seq<char> {
    let last = last_piece(target, target.len() as int);
    match scan::index_before(target, "::"@, target.len() as int) {
        Some(i) => if last == "mod"@ {
            last_piece(target, i)
        } else {
            last
        },
        None => last,
    }
}

/// The component that a path of modules stands for.
pub fn extract_component(target: &str) -> (r: String)
    ensures
        r@ == component_of(target@),
{
    let a = chars_of(target);
    let sep = chars_of("::");
    let n: usize = a.len();
    proof {
        reveal_strlit("::");
    }
    match last_before(&a, &sep, n) {
        Some(i) => {
            let last = text_of(&a, i + 2, n);
            if str_eq(last.as_str(), "mod") {
                match last_before(&a, &sep, i) {
                    Some(j) => text_of(&a, j + 2, i),
                    None => {
                        assert(a@.subrange(0, i as int) =~= a@.take(i as int));
                        text_of(&a, 0, i)
                    },
                }
            } else {
                last
            }
        },
        None => {
            assert(target@.take(n as int) =~= target@);
            target.to_owned()
        },
    }
}

/// Whether an event comes from the Tor client.
pub open spec fn is_tor(target: Seq<char>) -> bool {
    ||| target == "arti_client"@
    ||| text::begins(target, "arti_client::"@)
    ||| text::begins(target, "tor_"@)
    ||| text::begins(target, "tor-"@)
}

/// Whether an event comes from the Tor client.
pub fn is_tor_target(target: &str) -> (r: bool)
    ensures
        r == is_tor(target@),
{
    str_eq(target, "arti_client") || starts_with(target, "arti_client::") || starts_with(
        target,
        "tor_",
    ) || starts_with(target, "tor-")
}

/// Whether a component is one of the Tor client.
pub open spec fn names_tor_component(component: Seq<char>) -> bool {
    ||| component == "bootstrap"@
    ||| component == "chanmgr"@
    ||| component == "circmgr"@
    ||| component == "config"@
    ||| component == "descriptor"@
    ||| component == "dirmgr"@
    ||| component == "guard"@
    ||| component == "guardmgr"@
    ||| component == "hspool"@
    ||| component == "lib"@
    ||| component == "mgr"@
    ||| component == "publish"@
    ||| component == "reactor"@
    ||| component == "sqlite"@
    ||| component == "state"@
}

/// Whether a component is one of the Tor client.
pub fn is_tor_component(component: &str) -> (r: bool)
    ensures
        r == names_tor_component(component@),
{
    str_eq(component, "bootstrap") || str_eq(component, "chanmgr") || str_eq(component, "circmgr") || str_eq(component, "config") || str_eq(component, "descriptor") || str_eq(component, "dirmgr") || str_eq(component, "guard") || str_eq(component, "guardmgr") || str_eq(component, "hspool") || str_eq(component, "lib") || str_eq(component, "mgr") || str_eq(component, "publish") || str_eq(component, "reactor") || str_eq(component, "sqlite") || str_eq(component, "state")
}

/// Whether a source file belongs to an outside crate or the compiler.
pub open spec fn is_external(file: Seq<char>) -> bool {
    text::occurs(file, "/.cargo/registry/src/"@) || text::occurs(file, "/rustc/"@)
}

/// Whether a source file belongs to an outside crate or the compiler.
pub fn is_external_source(file: &str) -> (r: bool)
    ensures
        r == is_external(file@),
{
    contains_str(file, "/.cargo/registry/src/") || contains_str(file, "/rustc/")
}

/// The name under which a component of the Tor client is shown.
pub open spec fn tor_name(component: Seq<char>) -> Seq<char> {
    if component == "bootstrap"@ || component == "dirmgr"@ || component == "state"@ || component == "sqlite"@ {
        "tor-dir"@
    } else if component == "guard"@ || component == "guardmgr"@ {
        "tor-net"@
    } else if component == "chanmgr"@ {
        "tor-chan"@
    } else if component == "circmgr"@ || component == "mgr"@ || component == "reactor"@ {
        "tor-circ"@
    } else if component == "hspool"@ || component == "publish"@ || component == "descriptor"@ {
        "onion"@
    } else if component == "config"@ {
        "tor-cfg"@
    } else {
        component
    }
}

/// The name under which the component of an event is shown.
pub open spec fn shown_component(target: Seq<char>) -> Seq<char> {
    if is_tor(target) {
        tor_name(component_of(target))
    } else {
        component_of(target)
    }
}

/// The name under which the component of an event is shown.
pub fn display_component(target: &str) -> (r: String)
    ensures
        r@ == shown_component(target@),
{
    let component = extract_component(target);
    if !is_tor_target(target) {
        return component;
    }
    let c = component.as_str();
    if str_eq(c, "bootstrap") || str_eq(c, "dirmgr") || str_eq(c, "state") || str_eq(c, "sqlite") {
        "tor-dir".to_owned()
    } else if str_eq(c, "guard") || str_eq(c, "guardmgr") {
        "tor-net".to_owned()
    } else if str_eq(c, "chanmgr") {
        "tor-chan".to_owned()
    } else if str_eq(c, "circmgr") || str_eq(c, "mgr") || str_eq(c, "reactor") {
        "tor-circ".to_owned()
    } else if str_eq(c, "hspool") || str_eq(c, "publish") || str_eq(c, "descriptor") {
        "onion".to_owned()
    } else if str_eq(c, "config") {
        "tor-cfg".to_owned()
    } else {
        component
    }
}

/// The name under which a field is shown.
pub open spec fn shown_field(name: Seq<char>) -> Seq<char> {
    if name == "addr"@ {
        "address"@
    } else if name == "admin_id"@ {
        "admin ID"@
    } else if name == "archived_cap"@ {
        "archive limit"@
    } else if name == "board_id"@ {
        "board ID"@
    } else if name == "bytes"@ {
        "size"@
    } else if name == "error"@ {
        "error"@
    } else if name == "failure_rate"@ {
        "failure rate"@
    } else if name == "files_removed"@ {
        "files removed"@
    } else if name == "freed_kib"@ {
        "freed KiB"@
    } else if name == "has_csrf_cookie"@ {
        "CSRF cookie"@
    } else if name == "has_session_cookie"@ {
        "session cookie"@
    } else if name == "attempts"@ {
        "attempts"@
    } else if name == "reason"@ {
        "reason"@
    } else if name == "uri"@ {
        "URI"@
    } else if name == "id"@ {
        "ID"@
    } else if name == "latency_ms"@ {
        "latency"@
    } else if name == "mime"@ {
        "MIME type"@
    } else if name == "post_id"@ {
        "post ID"@
    } else if name == "remaining_kib"@ {
        "remaining KiB"@
    } else if name == "retry_in"@ {
        "retry in"@
    } else if name == "saved_as"@ {
        "saved as"@
    } else if name == "thread_id"@ {
        "thread ID"@
    } else if name == "thumb"@ {
        "thumbnail"@
    } else if name == "url"@ {
        "URL"@
    } else {
        scan::with_replaced(name, '_', " "@)
    }
}

/// The name under which a field is shown.
pub fn humanize_field_name(name: &str) -> (r: String)
    ensures
        r@ == shown_field(name@),
{
    if str_eq(name, "addr") {
        "address".to_owned()
    } else if str_eq(name, "admin_id") {
        "admin ID".to_owned()
    } else if str_eq(name, "archived_cap") {
        "archive limit".to_owned()
    } else if str_eq(name, "board_id") {
        "board ID".to_owned()
    } else if str_eq(name, "bytes") {
        "size".to_owned()
    } else if str_eq(name, "error") {
        "error".to_owned()
    } else if str_eq(name, "failure_rate") {
        "failure rate".to_owned()
    } else if str_eq(name, "files_removed") {
        "files removed".to_owned()
    } else if str_eq(name, "freed_kib") {
        "freed KiB".to_owned()
    } else if str_eq(name, "has_csrf_cookie") {
        "CSRF cookie".to_owned()
    } else if str_eq(name, "has_session_cookie") {
        "session cookie".to_owned()
    } else if str_eq(name, "attempts") {
        "attempts".to_owned()
    } else if str_eq(name, "reason") {
        "reason".to_owned()
    } else if str_eq(name, "uri") {
        "URI".to_owned()
    } else if str_eq(name, "id") {
        "ID".to_owned()
    } else if str_eq(name, "latency_ms") {
        "latency".to_owned()
    } else if str_eq(name, "mime") {
        "MIME type".to_owned()
    } else if str_eq(name, "post_id") {
        "post ID".to_owned()
    } else if str_eq(name, "remaining_kib") {
        "remaining KiB".to_owned()
    } else if str_eq(name, "retry_in") {
        "retry in".to_owned()
    } else if str_eq(name, "saved_as") {
        "saved as".to_owned()
    } else if str_eq(name, "thread_id") {
        "thread ID".to_owned()
    } else if str_eq(name, "thumb") {
        "thumbnail".to_owned()
    } else if str_eq(name, "url") {
        "URL".to_owned()
    } else {
        replace_char(name, '_', " ")
    }
}

/// A component is the last name of its path, and the one before where the last is `mod`.
pub proof fn law_components_are_last_names(path: Seq<char>, name: Seq<char>)
    requires
        !name.contains(':'),
    ensures
        !text::occurs(name, "::"@),
        component_of(name) == name,
        name != "mod"@ ==> component_of(path + "::"@ + name) == name,
        !path.contains(':') && path.len() > 0 ==> component_of(path + "::"@ + "mod"@) == path,
{
    reveal_strlit("::");
    reveal_strlit("mod");
    let sep = "::"@;
    assert(sep.len() == 2 && sep[0] == ':' && sep[1] == ':');
    lemma_no_separator(name);
    scan::law_last_is_found(name, sep, name.len() as int);
    if scan::index_before(name, sep, name.len() as int) is Some {
        assert(text::occurs(name, sep));
    }
    assert(name.take(name.len() as int) =~= name);
    lemma_last_name(path, name);
    let m = "mod"@;
    assert(m.len() == 3 && m[0] == 'm' && m[1] == 'o' && m[2] == 'd');
    assert(!m.contains(':'));
    lemma_last_name(path, m);
    if !path.contains(':') && path.len() > 0 {
        let whole = path + sep + m;
        let n = path.len() as int;
        lemma_no_separator(path);
        scan::law_last_is_found(whole, sep, n);
        if scan::index_before(whole, sep, n) is Some {
            let i = scan::index_before(whole, sep, n)->Some_0;
            assert(whole.subrange(i, i + 2)[0] == ':');
            assert(path.contains(path[i]));
        }
        assert(whole.take(n) =~= path);
    }
}

proof fn lemma_no_separator(name: Seq<char>)
    requires
        !name.contains(':'),
    ensures
        !text::occurs(name, "::"@),
{
    reveal_strlit("::");
    assert("::"@.len() == 2 && "::"@[0] == ':');
    if text::occurs(name, "::"@) {
        let i = choose|i: int| text::occurs_at(name, "::"@, i);
        assert(name.subrange(i, i + 2)[0] == ':');
        assert(name.contains(name[i]));
    }
}

proof fn lemma_later_names_hold_none(path: Seq<char>, name: Seq<char>, j: int)
    requires
        !name.contains(':'),
        j > path.len(),
    ensures
        !text::occurs_at(path + "::"@ + name, "::"@, j),
{
    reveal_strlit("::");
    let sep = "::"@;
    assert(sep.len() == 2 && sep[1] == ':');
    let whole = path + sep + name;
    if text::occurs_at(whole, sep, j) {
        assert(whole.subrange(j, j + 2)[1] == ':');
        let k = j + 1 - path.len() - 2;
        assert(whole[j + 1] == name[k]);
        assert(name.contains(name[k]));
    }
}

proof fn lemma_last_name(path: Seq<char>, name: Seq<char>)
    requires
        !name.contains(':'),
    ensures
        ({
            let whole = path + "::"@ + name;
            &&& scan::index_before(whole, "::"@, whole.len() as int) == Some(path.len() as int)
            &&& last_piece(whole, whole.len() as int) == name
        }),
{
    let sep = "::"@;
    assert(sep.len() == 2) by {
        reveal_strlit("::");
    }
    let whole = path + sep + name;
    let n = path.len() as int;
    assert(text::occurs_at(whole, sep, n)) by {
        assert(whole.subrange(n, n + 2) =~= sep);
    }
    let found = scan::index_before(whole, sep, whole.len() as int);
    assert(found == Some(n)) by {
        scan::law_last_is_found(whole, sep, whole.len() as int);
        if found is Some {
            if found->Some_0 > n {
                lemma_later_names_hold_none(path, name, found->Some_0);
            }
        }
    }
    assert(whole.subrange(n + 2, whole.len() as int) =~= name);
}

/// What comes from Tor is told by its target: the client's own, anything below it, and every
/// part whose name starts with Tor's.
pub proof fn law_tor_is_told_by_its_target(rest: Seq<char>)
    ensures
        is_tor("arti_client"@),
        is_tor("arti_client::"@ + rest),
        is_tor("tor_"@ + rest),
        is_tor("tor-"@ + rest),
        !is_tor("rustchan"@),
        !is_tor("rustchan::"@ + rest),
        !is_tor(Seq::empty()),
{
    reveal_strlit("arti_client");
    reveal_strlit("arti_client::");
    reveal_strlit("tor_");
    reveal_strlit("tor-");
    reveal_strlit("rustchan");
    reveal_strlit("rustchan::");
    assert(("arti_client::"@ + rest).take(13) =~= "arti_client::"@);
    assert(("tor_"@ + rest).take(4) =~= "tor_"@);
    assert(("tor-"@ + rest).take(4) =~= "tor-"@);
    assert("arti_client"@[0] == 'a' && "arti_client::"@[0] == 'a' && "tor_"@[0] == 't' && "tor-"@[0]
        == 't');
    assert("arti_client"@.len() == 11 && "arti_client::"@.len() == 13);
    assert("tor_"@.len() == 4 && "tor-"@.len() == 4);
    let a = "rustchan"@;
    let b = "rustchan::"@ + rest;
    assert(a[0] == 'r' && b[0] == 'r');
    if text::begins(a, "tor_"@) {
        assert(a.take(4)[0] == 't');
    }
    if text::begins(a, "tor-"@) {
        assert(a.take(4)[0] == 't');
    }
    if text::begins(b, "arti_client::"@) {
        assert(b.take(13)[0] == 'a');
    }
    if text::begins(b, "tor_"@) {
        assert(b.take(4)[0] == 't');
    }
    if text::begins(b, "tor-"@) {
        assert(b.take(4)[0] == 't');
    }
}

/// Code is not the project's own exactly where its path goes through the registry of crates
/// or the compiler's own sources.
pub proof fn law_outside_code_is_told_by_its_path(a: Seq<char>, b: Seq<char>)
    ensures
        is_external(a + "/.cargo/registry/src/"@ + b),
        is_external(a + "/rustc/"@ + b),
        is_external(a) ==> a.contains('/'),
{
    reveal_strlit("/.cargo/registry/src/");
    reveal_strlit("/rustc/");
    let x = "/.cargo/registry/src/"@;
    let y = "/rustc/"@;
    let n = a.len() as int;
    assert((a + x + b).subrange(n, n + x.len()) =~= x);
    assert(text::occurs_at(a + x + b, x, n));
    assert((a + y + b).subrange(n, n + y.len()) =~= y);
    assert(text::occurs_at(a + y + b, y, n));
    assert(x[0] == '/' && y[0] == '/');
    if text::occurs(a, x) {
        let i = choose|i: int| text::occurs_at(a, x, i);
        assert(a.subrange(i, i + x.len())[0] == '/');
        assert(a[i] == '/');
    }
    if text::occurs(a, y) {
        let i = choose|i: int| text::occurs_at(a, y, i);
        assert(a.subrange(i, i + y.len())[0] == '/');
        assert(a[i] == '/');
    }
}

proof fn lemma_spaced(name: Seq<char>)
    ensures
        ({
            let shown = scan::with_replaced(name, '_', " "@);
            &&& shown.len() == name.len()
            &&& forall|i: int|
                0 <= i < name.len() ==> #[trigger] shown[i] == (if name[i] == '_' {
                    ' '
                } else {
                    name[i]
                })
        }),
    decreases name.len(),
{
    reveal_strlit(" ");
    if name.len() > 0 {
        lemma_spaced(name.drop_last());
    }
}

/// Fields with a name of their own are shown by it.
#[verifier::rlimit(60)]
pub proof fn law_known_fields_are_shown_by_their_name()
    ensures
        shown_field("addr"@) == "address"@,
        shown_field("admin_id"@) == "admin ID"@,
        shown_field("archived_cap"@) == "archive limit"@,
        shown_field("board_id"@) == "board ID"@,
        shown_field("bytes"@) == "size"@,
        shown_field("failure_rate"@) == "failure rate"@,
        shown_field("files_removed"@) == "files removed"@,
        shown_field("freed_kib"@) == "freed KiB"@,
        shown_field("has_csrf_cookie"@) == "CSRF cookie"@,
        shown_field("has_session_cookie"@) == "session cookie"@,
        shown_field("uri"@) == "URI"@,
        shown_field("id"@) == "ID"@,
        shown_field("latency_ms"@) == "latency"@,
        shown_field("mime"@) == "MIME type"@,
        shown_field("post_id"@) == "post ID"@,
        shown_field("remaining_kib"@) == "remaining KiB"@,
        shown_field("retry_in"@) == "retry in"@,
        shown_field("saved_as"@) == "saved as"@,
        shown_field("thread_id"@) == "thread ID"@,
        shown_field("thumb"@) == "thumbnail"@,
        shown_field("url"@) == "URL"@,
{
    reveal_strlit("addr");
    reveal_strlit("admin_id");
    reveal_strlit("archived_cap");
    reveal_strlit("board_id");
    reveal_strlit("bytes");
    reveal_strlit("error");
    reveal_strlit("failure_rate");
    reveal_strlit("files_removed");
    reveal_strlit("freed_kib");
    reveal_strlit("has_csrf_cookie");
    reveal_strlit("has_session_cookie");
    reveal_strlit("attempts");
    reveal_strlit("reason");
    reveal_strlit("uri");
    reveal_strlit("id");
    reveal_strlit("latency_ms");
    reveal_strlit("mime");
    reveal_strlit("post_id");
    reveal_strlit("remaining_kib");
    reveal_strlit("retry_in");
    reveal_strlit("saved_as");
    reveal_strlit("thread_id");
    reveal_strlit("thumb");
    reveal_strlit("url");
    assert("addr"@.len() == 4 && "addr"@[0] == 'a' && "addr"@[1] == 'd' && "addr"@[2] == 'd'
        && "addr"@[3] == 'r');
    assert("admin_id"@.len() == 8 && "admin_id"@[0] == 'a' && "admin_id"@[1] == 'd'
        && "admin_id"@[2] == 'm' && "admin_id"@[3] == 'i' && "admin_id"@[4] == 'n'
        && "admin_id"@[5] == '_' && "admin_id"@[6] == 'i' && "admin_id"@[7] == 'd');
    assert("archived_cap"@.len() == 12 && "archived_cap"@[0] == 'a' && "archived_cap"@[1] == 'r'
        && "archived_cap"@[2] == 'c' && "archived_cap"@[3] == 'h' && "archived_cap"@[4] == 'i'
        && "archived_cap"@[5] == 'v' && "archived_cap"@[6] == 'e' && "archived_cap"@[7] == 'd'
        && "archived_cap"@[8] == '_' && "archived_cap"@[9] == 'c' && "archived_cap"@[10] == 'a'
        && "archived_cap"@[11] == 'p');
    assert("board_id"@.len() == 8 && "board_id"@[0] == 'b' && "board_id"@[1] == 'o'
        && "board_id"@[2] == 'a' && "board_id"@[3] == 'r' && "board_id"@[4] == 'd'
        && "board_id"@[5] == '_' && "board_id"@[6] == 'i' && "board_id"@[7] == 'd');
    assert("bytes"@.len() == 5 && "bytes"@[0] == 'b' && "bytes"@[1] == 'y' && "bytes"@[2] == 't'
        && "bytes"@[3] == 'e' && "bytes"@[4] == 's');
    assert("error"@.len() == 5 && "error"@[0] == 'e' && "error"@[1] == 'r' && "error"@[2] == 'r'
        && "error"@[3] == 'o' && "error"@[4] == 'r');
    assert("failure_rate"@.len() == 12 && "failure_rate"@[0] == 'f' && "failure_rate"@[1] == 'a'
        && "failure_rate"@[2] == 'i' && "failure_rate"@[3] == 'l' && "failure_rate"@[4] == 'u'
        && "failure_rate"@[5] == 'r' && "failure_rate"@[6] == 'e' && "failure_rate"@[7] == '_'
        && "failure_rate"@[8] == 'r' && "failure_rate"@[9] == 'a' && "failure_rate"@[10] == 't'
        && "failure_rate"@[11] == 'e');
    assert("files_removed"@.len() == 13 && "files_removed"@[0] == 'f'
        && "files_removed"@[1] == 'i' && "files_removed"@[2] == 'l'
        && "files_removed"@[3] == 'e' && "files_removed"@[4] == 's'
        && "files_removed"@[5] == '_' && "files_removed"@[6] == 'r'
        && "files_removed"@[7] == 'e' && "files_removed"@[8] == 'm'
        && "files_removed"@[9] == 'o' && "files_removed"@[10] == 'v'
        && "files_removed"@[11] == 'e' && "files_removed"@[12] == 'd');
    assert("freed_kib"@.len() == 9 && "freed_kib"@[0] == 'f' && "freed_kib"@[1] == 'r'
        && "freed_kib"@[2] == 'e' && "freed_kib"@[3] == 'e' && "freed_kib"@[4] == 'd'
        && "freed_kib"@[5] == '_' && "freed_kib"@[6] == 'k' && "freed_kib"@[7] == 'i'
        && "freed_kib"@[8] == 'b');
    assert("has_csrf_cookie"@.len() == 15 && "has_csrf_cookie"@[0] == 'h'
        && "has_csrf_cookie"@[1] == 'a' && "has_csrf_cookie"@[2] == 's'
        && "has_csrf_cookie"@[3] == '_' && "has_csrf_cookie"@[4] == 'c'
        && "has_csrf_cookie"@[5] == 's' && "has_csrf_cookie"@[6] == 'r'
        && "has_csrf_cookie"@[7] == 'f' && "has_csrf_cookie"@[8] == '_'
        && "has_csrf_cookie"@[9] == 'c' && "has_csrf_cookie"@[10] == 'o'
        && "has_csrf_cookie"@[11] == 'o' && "has_csrf_cookie"@[12] == 'k'
        && "has_csrf_cookie"@[13] == 'i' && "has_csrf_cookie"@[14] == 'e');
    assert("has_session_cookie"@.len() == 18 && "has_session_cookie"@[0] == 'h'
        && "has_session_cookie"@[1] == 'a' && "has_session_cookie"@[2] == 's'
        && "has_session_cookie"@[3] == '_' && "has_session_cookie"@[4] == 's'
        && "has_session_cookie"@[5] == 'e' && "has_session_cookie"@[6] == 's'
        && "has_session_cookie"@[7] == 's' && "has_session_cookie"@[8] == 'i'
        && "has_session_cookie"@[9] == 'o' && "has_session_cookie"@[10] == 'n'
        && "has_session_cookie"@[11] == '_' && "has_session_cookie"@[12] == 'c'
        && "has_session_cookie"@[13] == 'o' && "has_session_cookie"@[14] == 'o'
        && "has_session_cookie"@[15] == 'k' && "has_session_cookie"@[16] == 'i'
        && "has_session_cookie"@[17] == 'e');
    assert("attempts"@.len() == 8 && "attempts"@[0] == 'a' && "attempts"@[1] == 't'
        && "attempts"@[2] == 't' && "attempts"@[3] == 'e' && "attempts"@[4] == 'm'
        && "attempts"@[5] == 'p' && "attempts"@[6] == 't' && "attempts"@[7] == 's');
    assert("reason"@.len() == 6 && "reason"@[0] == 'r' && "reason"@[1] == 'e'
        && "reason"@[2] == 'a' && "reason"@[3] == 's' && "reason"@[4] == 'o'
        && "reason"@[5] == 'n');
    assert("uri"@.len() == 3 && "uri"@[0] == 'u' && "uri"@[1] == 'r' && "uri"@[2] == 'i');
    assert("id"@.len() == 2 && "id"@[0] == 'i' && "id"@[1] == 'd');
    assert("latency_ms"@.len() == 10 && "latency_ms"@[0] == 'l' && "latency_ms"@[1] == 'a'
        && "latency_ms"@[2] == 't' && "latency_ms"@[3] == 'e' && "latency_ms"@[4] == 'n'
        && "latency_ms"@[5] == 'c' && "latency_ms"@[6] == 'y' && "latency_ms"@[7] == '_'
        && "latency_ms"@[8] == 'm' && "latency_ms"@[9] == 's');
    assert("mime"@.len() == 4 && "mime"@[0] == 'm' && "mime"@[1] == 'i' && "mime"@[2] == 'm'
        && "mime"@[3] == 'e');
    assert("post_id"@.len() == 7 && "post_id"@[0] == 'p' && "post_id"@[1] == 'o'
        && "post_id"@[2] == 's' && "post_id"@[3] == 't' && "post_id"@[4] == '_'
        && "post_id"@[5] == 'i' && "post_id"@[6] == 'd');
    assert("remaining_kib"@.len() == 13 && "remaining_kib"@[0] == 'r'
        && "remaining_kib"@[1] == 'e' && "remaining_kib"@[2] == 'm'
        && "remaining_kib"@[3] == 'a' && "remaining_kib"@[4] == 'i'
        && "remaining_kib"@[5] == 'n' && "remaining_kib"@[6] == 'i'
        && "remaining_kib"@[7] == 'n' && "remaining_kib"@[8] == 'g'
        && "remaining_kib"@[9] == '_' && "remaining_kib"@[10] == 'k'
        && "remaining_kib"@[11] == 'i' && "remaining_kib"@[12] == 'b');
    assert("retry_in"@.len() == 8 && "retry_in"@[0] == 'r' && "retry_in"@[1] == 'e'
        && "retry_in"@[2] == 't' && "retry_in"@[3] == 'r' && "retry_in"@[4] == 'y'
        && "retry_in"@[5] == '_' && "retry_in"@[6] == 'i' && "retry_in"@[7] == 'n');
    assert("saved_as"@.len() == 8 && "saved_as"@[0] == 's' && "saved_as"@[1] == 'a'
        && "saved_as"@[2] == 'v' && "saved_as"@[3] == 'e' && "saved_as"@[4] == 'd'
        && "saved_as"@[5] == '_' && "saved_as"@[6] == 'a' && "saved_as"@[7] == 's');
    assert("thread_id"@.len() == 9 && "thread_id"@[0] == 't' && "thread_id"@[1] == 'h'
        && "thread_id"@[2] == 'r' && "thread_id"@[3] == 'e' && "thread_id"@[4] == 'a'
        && "thread_id"@[5] == 'd' && "thread_id"@[6] == '_' && "thread_id"@[7] == 'i'
        && "thread_id"@[8] == 'd');
    assert("thumb"@.len() == 5 && "thumb"@[0] == 't' && "thumb"@[1] == 'h' && "thumb"@[2] == 'u'
        && "thumb"@[3] == 'm' && "thumb"@[4] == 'b');
    assert("url"@.len() == 3 && "url"@[0] == 'u' && "url"@[1] == 'r' && "url"@[2] == 'l');
}

/// Any other field is shown by its name as it is written, with spaces for the underscores.
pub proof fn law_other_fields_are_shown_as_written(name: Seq<char>, i: int)
    requires
        0 <= i < name.len(),
        name != "addr"@,
        name != "admin_id"@,
        name != "archived_cap"@,
        name != "board_id"@,
        name != "bytes"@,
        name != "error"@,
        name != "failure_rate"@,
        name != "files_removed"@,
        name != "freed_kib"@,
        name != "has_csrf_cookie"@,
        name != "has_session_cookie"@,
        name != "attempts"@,
        name != "reason"@,
        name != "uri"@,
        name != "id"@,
        name != "latency_ms"@,
        name != "mime"@,
        name != "post_id"@,
        name != "remaining_kib"@,
        name != "retry_in"@,
        name != "saved_as"@,
        name != "thread_id"@,
        name != "thumb"@,
        name != "url"@,
    ensures
        shown_field(name).len() == name.len(),
        name[i] == '_' ==> shown_field(name)[i] == ' ',
        name[i] != '_' ==> shown_field(name)[i] == name[i],
{
    lemma_spaced(name);
}

proof fn lemma_tor_component(rest: Seq<char>, name: Seq<char>)
    requires
        !name.contains(':'),
        name != "mod"@,
    ensures
        shown_component("tor_"@ + rest + "::"@ + name) == tor_name(name),
{
    law_components_are_last_names("tor_"@ + rest, name);
    law_tor_is_told_by_its_target(rest + "::"@ + name);
    assert("tor_"@ + (rest + "::"@ + name) =~= "tor_"@ + rest + "::"@ + name);
}

/// The parts of the Tor client are shown by what they are for, whichever crate of it they
/// stand in.
#[verifier::rlimit(60)]
pub proof fn law_tor_parts_are_shown_by_their_use(rest: Seq<char>)
    ensures
        shown_component("tor_"@ + rest + "::bootstrap"@) == "tor-dir"@,
        shown_component("tor_"@ + rest + "::dirmgr"@) == "tor-dir"@,
        shown_component("tor_"@ + rest + "::state"@) == "tor-dir"@,
        shown_component("tor_"@ + rest + "::sqlite"@) == "tor-dir"@,
        shown_component("tor_"@ + rest + "::guard"@) == "tor-net"@,
        shown_component("tor_"@ + rest + "::guardmgr"@) == "tor-net"@,
        shown_component("tor_"@ + rest + "::chanmgr"@) == "tor-chan"@,
        shown_component("tor_"@ + rest + "::circmgr"@) == "tor-circ"@,
        shown_component("tor_"@ + rest + "::mgr"@) == "tor-circ"@,
        shown_component("tor_"@ + rest + "::reactor"@) == "tor-circ"@,
        shown_component("tor_"@ + rest + "::hspool"@) == "onion"@,
        shown_component("tor_"@ + rest + "::publish"@) == "onion"@,
        shown_component("tor_"@ + rest + "::descriptor"@) == "onion"@,
        shown_component("tor_"@ + rest + "::config"@) == "tor-cfg"@,
{
    lemma_tor_names();
    assert("tor_"@ + rest + "::"@ + "bootstrap"@ =~= "tor_"@ + rest + "::bootstrap"@) by {
        reveal_strlit("::");
        reveal_strlit("bootstrap");
        reveal_strlit("::bootstrap");
    }
    lemma_tor_component(rest, "bootstrap"@);
    assert("tor_"@ + rest + "::"@ + "dirmgr"@ =~= "tor_"@ + rest + "::dirmgr"@) by {
        reveal_strlit("::");
        reveal_strlit("dirmgr");
        reveal_strlit("::dirmgr");
    }
    lemma_tor_component(rest, "dirmgr"@);
    assert("tor_"@ + rest + "::"@ + "state"@ =~= "tor_"@ + rest + "::state"@) by {
        reveal_strlit("::");
        reveal_strlit("state");
        reveal_strlit("::state");
    }
    lemma_tor_component(rest, "state"@);
    assert("tor_"@ + rest + "::"@ + "sqlite"@ =~= "tor_"@ + rest + "::sqlite"@) by {
        reveal_strlit("::");
        reveal_strlit("sqlite");
        reveal_strlit("::sqlite");
    }
    lemma_tor_component(rest, "sqlite"@);
    assert("tor_"@ + rest + "::"@ + "guard"@ =~= "tor_"@ + rest + "::guard"@) by {
        reveal_strlit("::");
        reveal_strlit("guard");
        reveal_strlit("::guard");
    }
    lemma_tor_component(rest, "guard"@);
    assert("tor_"@ + rest + "::"@ + "guardmgr"@ =~= "tor_"@ + rest + "::guardmgr"@) by {
        reveal_strlit("::");
        reveal_strlit("guardmgr");
        reveal_strlit("::guardmgr");
    }
    lemma_tor_component(rest, "guardmgr"@);
    assert("tor_"@ + rest + "::"@ + "chanmgr"@ =~= "tor_"@ + rest + "::chanmgr"@) by {
        reveal_strlit("::");
        reveal_strlit("chanmgr");
        reveal_strlit("::chanmgr");
    }
    lemma_tor_component(rest, "chanmgr"@);
    assert("tor_"@ + rest + "::"@ + "circmgr"@ =~= "tor_"@ + rest + "::circmgr"@) by {
        reveal_strlit("::");
        reveal_strlit("circmgr");
        reveal_strlit("::circmgr");
    }
    lemma_tor_component(rest, "circmgr"@);
    assert("tor_"@ + rest + "::"@ + "mgr"@ =~= "tor_"@ + rest + "::mgr"@) by {
        reveal_strlit("::");
        reveal_strlit("mgr");
        reveal_strlit("::mgr");
    }
    lemma_tor_component(rest, "mgr"@);
    assert("tor_"@ + rest + "::"@ + "reactor"@ =~= "tor_"@ + rest + "::reactor"@) by {
        reveal_strlit("::");
        reveal_strlit("reactor");
        reveal_strlit("::reactor");
    }
    lemma_tor_component(rest, "reactor"@);
    assert("tor_"@ + rest + "::"@ + "hspool"@ =~= "tor_"@ + rest + "::hspool"@) by {
        reveal_strlit("::");
        reveal_strlit("hspool");
        reveal_strlit("::hspool");
    }
    lemma_tor_component(rest, "hspool"@);
    assert("tor_"@ + rest + "::"@ + "publish"@ =~= "tor_"@ + rest + "::publish"@) by {
        reveal_strlit("::");
        reveal_strlit("publish");
        reveal_strlit("::publish");
    }
    lemma_tor_component(rest, "publish"@);
    assert("tor_"@ + rest + "::"@ + "descriptor"@ =~= "tor_"@ + rest + "::descriptor"@) by {
        reveal_strlit("::");
        reveal_strlit("descriptor");
        reveal_strlit("::descriptor");
    }
    lemma_tor_component(rest, "descriptor"@);
    assert("tor_"@ + rest + "::"@ + "config"@ =~= "tor_"@ + rest + "::config"@) by {
        reveal_strlit("::");
        reveal_strlit("config");
        reveal_strlit("::config");
    }
    lemma_tor_component(rest, "config"@);
}

proof fn lemma_tor_names()
    ensures
        tor_name("bootstrap"@) == "tor-dir"@ && "bootstrap"@ != "mod"@ && !"bootstrap"@.contains(':'),
        tor_name("dirmgr"@) == "tor-dir"@ && "dirmgr"@ != "mod"@ && !"dirmgr"@.contains(':'),
        tor_name("state"@) == "tor-dir"@ && "state"@ != "mod"@ && !"state"@.contains(':'),
        tor_name("sqlite"@) == "tor-dir"@ && "sqlite"@ != "mod"@ && !"sqlite"@.contains(':'),
        tor_name("guard"@) == "tor-net"@ && "guard"@ != "mod"@ && !"guard"@.contains(':'),
        tor_name("guardmgr"@) == "tor-net"@ && "guardmgr"@ != "mod"@ && !"guardmgr"@.contains(':'),
        tor_name("chanmgr"@) == "tor-chan"@ && "chanmgr"@ != "mod"@ && !"chanmgr"@.contains(':'),
        tor_name("circmgr"@) == "tor-circ"@ && "circmgr"@ != "mod"@ && !"circmgr"@.contains(':'),
        tor_name("mgr"@) == "tor-circ"@ && "mgr"@ != "mod"@ && !"mgr"@.contains(':'),
        tor_name("reactor"@) == "tor-circ"@ && "reactor"@ != "mod"@ && !"reactor"@.contains(':'),
        tor_name("hspool"@) == "onion"@ && "hspool"@ != "mod"@ && !"hspool"@.contains(':'),
        tor_name("publish"@) == "onion"@ && "publish"@ != "mod"@ && !"publish"@.contains(':'),
        tor_name("descriptor"@) == "onion"@ && "descriptor"@ != "mod"@ && !"descriptor"@.contains(':'),
        tor_name("config"@) == "tor-cfg"@ && "config"@ != "mod"@ && !"config"@.contains(':'),
{
    reveal_strlit("mod");
    assert("mod"@[1] == 'o');
    reveal_strlit("bootstrap");
    reveal_strlit("dirmgr");
    reveal_strlit("state");
    reveal_strlit("sqlite");
    reveal_strlit("guard");
    reveal_strlit("guardmgr");
    reveal_strlit("chanmgr");
    reveal_strlit("circmgr");
    reveal_strlit("mgr");
    reveal_strlit("reactor");
    reveal_strlit("hspool");
    reveal_strlit("publish");
    reveal_strlit("descriptor");
    reveal_strlit("config");
    assert("bootstrap"@.len() == 9 && "bootstrap"@[0] == 'b' && "bootstrap"@[1] == 'o'
        && "bootstrap"@[2] == 'o' && "bootstrap"@[3] == 't' && "bootstrap"@[4] == 's'
        && "bootstrap"@[5] == 't' && "bootstrap"@[6] == 'r' && "bootstrap"@[7] == 'a'
        && "bootstrap"@[8] == 'p');
    assert("dirmgr"@.len() == 6 && "dirmgr"@[0] == 'd' && "dirmgr"@[1] == 'i'
        && "dirmgr"@[2] == 'r' && "dirmgr"@[3] == 'm' && "dirmgr"@[4] == 'g'
        && "dirmgr"@[5] == 'r');
    assert("state"@.len() == 5 && "state"@[0] == 's' && "state"@[1] == 't' && "state"@[2] == 'a'
        && "state"@[3] == 't' && "state"@[4] == 'e');
    assert("sqlite"@.len() == 6 && "sqlite"@[0] == 's' && "sqlite"@[1] == 'q'
        && "sqlite"@[2] == 'l' && "sqlite"@[3] == 'i' && "sqlite"@[4] == 't'
        && "sqlite"@[5] == 'e');
    assert("guard"@.len() == 5 && "guard"@[0] == 'g' && "guard"@[1] == 'u' && "guard"@[2] == 'a'
        && "guard"@[3] == 'r' && "guard"@[4] == 'd');
    assert("guardmgr"@.len() == 8 && "guardmgr"@[0] == 'g' && "guardmgr"@[1] == 'u'
        && "guardmgr"@[2] == 'a' && "guardmgr"@[3] == 'r' && "guardmgr"@[4] == 'd'
        && "guardmgr"@[5] == 'm' && "guardmgr"@[6] == 'g' && "guardmgr"@[7] == 'r');
    assert("chanmgr"@.len() == 7 && "chanmgr"@[0] == 'c' && "chanmgr"@[1] == 'h'
        && "chanmgr"@[2] == 'a' && "chanmgr"@[3] == 'n' && "chanmgr"@[4] == 'm'
        && "chanmgr"@[5] == 'g' && "chanmgr"@[6] == 'r');
    assert("circmgr"@.len() == 7 && "circmgr"@[0] == 'c' && "circmgr"@[1] == 'i'
        && "circmgr"@[2] == 'r' && "circmgr"@[3] == 'c' && "circmgr"@[4] == 'm'
        && "circmgr"@[5] == 'g' && "circmgr"@[6] == 'r');
    assert("mgr"@.len() == 3 && "mgr"@[0] == 'm' && "mgr"@[1] == 'g' && "mgr"@[2] == 'r');
    assert("reactor"@.len() == 7 && "reactor"@[0] == 'r' && "reactor"@[1] == 'e'
        && "reactor"@[2] == 'a' && "reactor"@[3] == 'c' && "reactor"@[4] == 't'
        && "reactor"@[5] == 'o' && "reactor"@[6] == 'r');
    assert("hspool"@.len() == 6 && "hspool"@[0] == 'h' && "hspool"@[1] == 's'
        && "hspool"@[2] == 'p' && "hspool"@[3] == 'o' && "hspool"@[4] == 'o'
        && "hspool"@[5] == 'l');
    assert("publish"@.len() == 7 && "publish"@[0] == 'p' && "publish"@[1] == 'u'
        && "publish"@[2] == 'b' && "publish"@[3] == 'l' && "publish"@[4] == 'i'
        && "publish"@[5] == 's' && "publish"@[6] == 'h');
    assert("descriptor"@.len() == 10 && "descriptor"@[0] == 'd' && "descriptor"@[1] == 'e'
        && "descriptor"@[2] == 's' && "descriptor"@[3] == 'c' && "descriptor"@[4] == 'r'
        && "descriptor"@[5] == 'i' && "descriptor"@[6] == 'p' && "descriptor"@[7] == 't'
        && "descriptor"@[8] == 'o' && "descriptor"@[9] == 'r');
    assert("config"@.len() == 6 && "config"@[0] == 'c' && "config"@[1] == 'o'
        && "config"@[2] == 'n' && "config"@[3] == 'f' && "config"@[4] == 'i'
        && "config"@[5] == 'g');
}

} // verus!
