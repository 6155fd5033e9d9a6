//! The tokens that prove where a form came from.

use vstd::prelude::*;
use vstd::string::*;
use crate::paths;
use crate::paths::find_last;
use crate::text;
use crate::text::{chars_of, text_of};

verus! {

/// Compares bytes in a time that depends on their number alone.
pub fn constant_time_eq(a: &[u8], b: &[u8]) -> (r: bool)
    ensures
        r == (a@ == b@),
{
    if a.len() != b.len() {
        return false;
    }
    let mut seen: u8 = 0;
    let mut i: usize = 0;
    while i < a.len()
        invariant
            i <= a@.len(),
            a@.len() == b@.len(),
            seen == 0 <==> forall|j: int| 0 <= j < i ==> a@[j] == b@[j],
        decreases a@.len() - i,
    {
        let x: u8 = a[i];
        let y: u8 = b[i];
        assert((seen | (x ^ y)) == 0 <==> seen == 0 && x == y) by (bit_vector);
        seen = seen | (x ^ y);
        i = i + 1;
    }
    assert(seen == 0 <==> a@ =~= b@);
    seen == 0
}

/// A token without its signature, and the signature: what stands before and after its
/// last dot, if neither is empty.
pub open spec fn signed_parts(token: Seq<char>) -> Option<(Seq<char>, Seq<char>)> {
    match paths::last_index(token, '.') {
        Some(i) => if i > 0 && i + 1 < token.len() {
            Some((token.take(i), token.skip(i + 1)))
        } else {
            None
        },
        None => None,
    }
}

/// Splits a signed token into what was signed and the signature.
pub fn split_signed_token(token: &str) -> (r: Option<(String, String)>)
    ensures
        match r {
            Some((raw, signature)) => signed_parts(token@) == Some((raw@, signature@)),
            None => signed_parts(token@) is None,
        },
{
    let a = chars_of(token);
    let n: usize = a.len();
    match find_last(&a, '.') {
        Some(i) => if i > 0 && i + 1 < n {
            assert(a@.subrange(0, i as int) =~= a@.take(i as int));
            assert(a@.subrange(i as int + 1, n as int) =~= a@.skip(i as int + 1));
            Some((text_of(&a, 0, i), text_of(&a, i + 1, n)))
        } else {
            None
        },
        None => None,
    }
}

/// Whether a form's token is accepted: it is the token of the cookie, or it carries the
/// signature that is expected for it. `expected` is the signature of what the token
/// says was signed.
pub open spec fn is_accepted(
    cookie: Option<Seq<char>>,
    form: Seq<char>,
    expected: Option<Seq<char>>,
) -> bool {
    &&& form.len() > 0
    &&& {
        ||| cookie == Some(form)
        ||| (signed_parts(form) is Some && expected == Some(signed_parts(form)->Some_0.1))
    }
}

/// Whether two texts are equal, compared in a time that depends on their length alone.
fn same_text(a: &str, b: &str) -> (r: bool)
    ensures
        r == (a@ == b@),
{
    proof {
        vstd::utf8::encode_utf8_decode_utf8(a@);
        vstd::utf8::encode_utf8_decode_utf8(b@);
    }
    constant_time_eq(a.as_bytes(), b.as_bytes())
}

/// Decides whether a form's token is accepted. `expected` is the signature of what
/// `split_signed_token` says was signed, where it says so.
pub fn validate_csrf(cookie_token: Option<&str>, form_token: &str, expected: Option<&str>) -> (r:
    bool)
    ensures
        r == is_accepted(text::opt_str(cookie_token), form_token@, text::opt_str(expected)),
{
    let form = chars_of(form_token);
    if form.len() == 0 {
        return false;
    }
    match cookie_token {
        Some(cookie) => {
            if same_text(cookie, form_token) {
                return true;
            }
        },
        None => {},
    }
    match split_signed_token(form_token) {
        Some((_, signature)) => match expected {
            Some(e) => same_text(e, signature.as_str()),
            None => false,
        },
        None => false,
    }
}

/// A form that carries a token with the signature expected for it is accepted without a
/// cookie, where the signature itself holds no dot.
pub proof fn law_signed_tokens_are_accepted(raw: Seq<char>, signature: Seq<char>)
    requires
        raw.len() > 0,
        signature.len() > 0,
        forall|i: int| 0 <= i < signature.len() ==> #[trigger] signature[i] != '.',
    ensures
        signed_parts(raw + seq!['.'] + signature) == Some((raw, signature)),
        is_accepted(None, raw + seq!['.'] + signature, Some(signature)),
{
    let head = raw + seq!['.'];
    lemma_last_dot(head, signature);
    let token = head + signature;
    assert(head.last() == '.');
    assert(token.take(raw.len() as int) =~= raw);
    assert(token.skip(raw.len() as int + 1) =~= signature);
}

/// The last dot of a text stands before what holds none.
proof fn lemma_last_dot(head: Seq<char>, tail: Seq<char>)
    requires
        forall|i: int| 0 <= i < tail.len() ==> #[trigger] tail[i] != '.',
    ensures
        paths::last_index(head + tail, '.') == paths::last_index(head, '.'),
    decreases tail.len(),
{
    if tail.len() == 0 {
        assert(head + tail =~= head);
    } else {
        assert((head + tail).last() == tail[tail.len() - 1]);
        assert((head + tail).drop_last() =~= head + tail.drop_last());
        lemma_last_dot(head, tail.drop_last());
    }
}

/// An empty token is never accepted, and without a cookie or a signature none is.
pub proof fn law_unproven_forms_are_refused(cookie: Option<Seq<char>>, form: Seq<char>)
    ensures
        !is_accepted(cookie, Seq::empty(), None),
        !is_accepted(None, form, None),
        !is_accepted(Some(Seq::empty()), form, None),
{
}

proof fn lemma_dot_found(s: Seq<char>)
    ensures
        match paths::last_index(s, '.') {
            Some(i) => 0 <= i < s.len() && s[i] == '.' && forall|j: int|
                i < j < s.len() ==> #[trigger] s[j] != '.',
            None => !s.contains('.'),
        },
    decreases s.len(),
{
    if s.len() > 0 && s.last() != '.' {
        let t = s.drop_last();
        lemma_dot_found(t);
        match paths::last_index(t, '.') {
            Some(i) => {
                assert forall|j: int| i < j < s.len() implies #[trigger] s[j] != '.' by {
                    if j < t.len() {
                        assert(t[j] != '.');
                    }
                }
                assert(t[i] == s[i]);
            },
            None => {
                if s.contains('.') {
                    let k = choose|k: int| 0 <= k < s.len() && s[k] == '.';
                    assert(t[k] == '.');
                }
            },
        }
    }
}

/// A form's token is accepted exactly where it is not empty and is the cookie's, or where
/// what follows its last dot, something before it and something after, is the signature
/// that is expected.
pub proof fn law_tokens_are_accepted_exactly_when_proven(
    cookie: Option<Seq<char>>,
    form: Seq<char>,
    expected: Option<Seq<char>>,
)
    ensures
        is_accepted(cookie, form, expected) <==> form.len() > 0 && (cookie == Some(form) || (
        expected is Some && exists|i: int|
            0 < i < form.len() - 1 && #[trigger] form[i] == '.' && form.skip(i + 1)
                == expected->Some_0 && !expected->Some_0.contains('.'))),
        cookie is Some && cookie->Some_0 != form && expected is None ==> !is_accepted(
            cookie,
            form,
            expected,
        ),
{
    lemma_dot_found(form);
    if expected is Some {
        if is_accepted(cookie, form, expected) && cookie != Some(form) {
            let i = paths::last_index(form, '.')->Some_0;
            let sig = form.skip(i + 1);
            assert(form[i] == '.');
            if sig.contains('.') {
                let k = choose|k: int| 0 <= k < sig.len() && sig[k] == '.';
                assert(form[i + 1 + k] == '.');
            }
        }
        if exists|i: int|
            0 < i < form.len() - 1 && #[trigger] form[i] == '.' && form.skip(i + 1)
                == expected->Some_0 && !expected->Some_0.contains('.') {
            let i = choose|i: int|
                0 < i < form.len() - 1 && #[trigger] form[i] == '.' && form.skip(i + 1)
                    == expected->Some_0 && !expected->Some_0.contains('.');
            assert(form.contains(form[i]));
            let last = paths::last_index(form, '.')->Some_0;
            if last > i {
                assert(form.skip(i + 1)[last - i - 1] == '.');
                assert(expected->Some_0.contains('.'));
            }
            assert(last == i);
        }
    }
}

} // verus!
