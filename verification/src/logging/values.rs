//! The values of fields, cleaned.

use vstd::prelude::*;
use vstd::string::*;
use crate::logging::durations;
use crate::logging::durations::{normalize_duration, SecondsReading, SecondsReadingView};
use crate::logging::scan;
use crate::logging::scan::first_at;
use crate::text;
use crate::text::{
    chars_of,
    concat,
    contains_str,
    is_whitespace,
    starts_with,
    str_eq,
    text_of,
    to_ascii_lowercase,
};

verus! {

/// Whether a character ends a control sequence of a terminal.
pub open spec fn ends_sequence(c: char) -> bool {
    '@' <= c <= '~'
}

/// What is left of a text behind the control sequence that it begins in.
pub open spec fn behind_sequence(s: Seq<char>) -> Seq<char>
    decreases s.len(),
{
    if s.len() == 0 {
        s
    } else if ends_sequence(s[0]) {
        s.skip(1)
    } else {
        behind_sequence(s.skip(1))
    }
}

/// What is left behind a control sequence is not longer than before.
pub proof fn lemma_behind_is_shorter(s: Seq<char>)
    ensures
        behind_sequence(s).len() <= s.len(),
    decreases s.len(),
{
    if s.len() > 0 && !ends_sequence(s[0]) {
        lemma_behind_is_shorter(s.skip(1));
    }
}

/// The text without the control sequences of terminals.
pub open spec fn plain(s: Seq<char>) -> Seq<char>
    decreases s.len(),
{
    if s.len() == 0 {
        s
    } else if s.len() >= 2 && s[0] == '\u{1b}' && s[1] == '[' {
        proof {
            lemma_behind_is_shorter(s.skip(2));
        }
        plain(behind_sequence(s.skip(2)))
    } else {
        seq![s[0]] + plain(s.skip(1))
    }
}

/// Removes the control sequences of terminals.
pub fn strip_ansi(input: &str) -> (r: String)
    ensures
        r@ == plain(input@),
{
    let a = chars_of(input);
    let n: usize = a.len();
    let mut out = String::new();
    let mut i: usize = 0;
    assert(a@.skip(0) =~= a@);
    assert(out@ + plain(a@) =~= plain(a@));
    while i < n
        invariant
            i <= n,
            n == a@.len(),
            a@ == input@,
            out@ + plain(a@.skip(i as int)) == plain(input@),
        decreases n - i,
    {
        let ghost rest = a@.skip(i as int);
        let c = a[i];
        if c == '\u{1b}' && n - i >= 2 && a[i + 1] == '[' {
            let mut j: usize = i + 2;
            let mut open = true;
            assert(rest.skip(2) =~= a@.skip(j as int));
            while open && j < n
                invariant
                    i + 2 <= j <= n,
                    n == a@.len(),
                    rest == a@.skip(i as int),
                    open ==> behind_sequence(rest.skip(2)) == behind_sequence(a@.skip(j as int)),
                    !open ==> behind_sequence(rest.skip(2)) == a@.skip(j as int),
                decreases n - j,
            {
                assert(a@.skip(j as int)[0] == a@[j as int]);
                assert(a@.skip(j as int).skip(1) =~= a@.skip(j as int + 1));
                let d = a[j];
                if '@' <= d && d <= '~' {
                    open = false;
                }
                j = j + 1;
            }
            i = j;
        } else {
            assert(rest[0] == c);
            assert(rest.skip(1) =~= a@.skip(i as int + 1));
            let ghost before = out@;
            out.push(c);
            assert(before + (seq![c] + plain(a@.skip(i as int + 1))) =~= out@ + plain(
                a@.skip(i as int + 1),
            ));
            i = i + 1;
        }
    }
    assert(a@.skip(n as int) =~= Seq::<char>::empty());
    assert(out@ + Seq::<char>::empty() =~= out@);
    out
}

/// The text with the identities of guards replaced.
pub open spec fn without_guards(s: Seq<char>) -> Seq<char>
    decreases s.len(),
{
    match scan::index_from(s, "GuardId("@, 0) {
        Some(i) => match scan::index_from(s, ")"@, i) {
            Some(j) => if 0 <= i <= j < s.len() {
                s.take(i) + "[scrubbed guard]"@ + without_guards(s.skip(j + 1))
            } else {
                s
            },
            None => s,
        },
        None => s,
    }
}

/// Replaces the identities of guards.
fn scrub_guards(s: &str) -> (r: String)
    ensures
        r@ == without_guards(s@),
{
    let head = chars_of("GuardId(");
    let tail = chars_of(")");
    proof {
        reveal_strlit(")");
    }
    let mut done = String::new();
    let mut left = chars_of(s);
    let mut going = true;
    assert(done@ + without_guards(left@) =~= without_guards(s@));
    while going
        invariant
            head@ == "GuardId("@,
            tail@ == ")"@,
            ")"@.len() == 1,
            done@ + without_guards(left@) == without_guards(s@),
            !going ==> without_guards(left@) == left@,
        decreases left@.len(), going as int,
    {
        let found = match first_at(&left, &head, 0) {
            Some(i) => match first_at(&left, &tail, i) {
                Some(j) => Some((i, j)),
                None => None,
            },
            None => None,
        };
        match found {
            Some((i, j)) => {
                let n: usize = left.len();
                let kept = text_of(&left, 0, i);
                let rest = text_of(&left, j + 1, n);
                assert(kept@ =~= left@.take(i as int));
                assert(rest@ =~= left@.skip(j as int + 1));
                let ghost before = done@;
                done.append(kept.as_str());
                done.append("[scrubbed guard]");
                assert(done@ + without_guards(rest@) =~= before + (left@.take(i as int)
                    + "[scrubbed guard]"@ + without_guards(rest@)));
                left = chars_of(rest.as_str());
            },
            None => {
                going = false;
            },
        }
    }
    let n: usize = left.len();
    let rest = text_of(&left, 0, n);
    assert(rest@ =~= left@);
    done.append(rest.as_str());
    done
}

/// Where white space first stands in a text from the given position on, or its end.
pub open spec fn space_from(s: Seq<char>, from: int) -> int
    decreases s.len() - from,
{
    if from < 0 || from >= s.len() || text::is_space(s[from]) {
        from
    } else {
        space_from(s, from + 1)
    }
}

proof fn lemma_space_from(s: Seq<char>, from: int)
    requires
        0 <= from <= s.len(),
    ensures
        from <= space_from(s, from) <= s.len(),
    decreases s.len() - from,
{
    if from < s.len() && !text::is_space(s[from]) {
        lemma_space_from(s, from + 1);
    }
}

/// The text without the circuits that it names.
pub open spec fn without_circuits(s: Seq<char>) -> Seq<char>
    decreases s.len(),
{
    let mark = " via Circ "@;
    match scan::index_from(s, mark, 0) {
        Some(i) => {
            let end = space_from(s, i + mark.len());
            if mark.len() > 0 && 0 <= i && i < end <= s.len() {
                without_circuits(s.take(i) + s.skip(end))
            } else {
                s
            }
        },
        None => s,
    }
}

/// Removes the circuits that a text names.
fn scrub_circuits(s: String) -> (r: String)
    ensures
        r@ == without_circuits(s@),
{
    let mark = chars_of(" via Circ ");
    proof {
        reveal_strlit(" via Circ ");
    }
    let ghost whole = s@;
    let mut left = s;
    let mut going = true;
    while going
        invariant
            mark@ == " via Circ "@,
            mark@.len() == 10,
            without_circuits(left@) == without_circuits(whole),
            !going ==> without_circuits(left@) == left@,
        decreases left@.len(), going as int,
    {
        let a = chars_of(left.as_str());
        let n: usize = a.len();
        match first_at(&a, &mark, 0) {
            Some(i) => {
                let mut end: usize = i + mark.len();
                while end < n && !is_whitespace(a[end])
                    invariant
                        i + mark@.len() <= end <= n,
                        n == a@.len(),
                        space_from(a@, i + mark@.len()) == space_from(a@, end as int),
                    decreases n - end,
                {
                    end = end + 1;
                }
                let mut kept = text_of(&a, 0, i);
                let rest = text_of(&a, end, n);
                assert(kept@ =~= left@.take(i as int));
                assert(rest@ =~= left@.skip(end as int));
                kept.append(rest.as_str());
                left = kept;
            },
            None => {
                going = false;
            },
        }
    }
    left
}

/// The text without the guards and circuits of the Tor client.
pub open spec fn scrubbed(value: Seq<char>) -> Seq<char> {
    without_circuits(without_guards(value))
}

/// Removes the guards and circuits of the Tor client.
pub fn scrub_tor_value(value: &str) -> (r: String)
    ensures
        r@ == scrubbed(value@),
{
    let clean = scrub_guards(value);
    scrub_circuits(clean)
}

/// No circuit is named in a text from which circuits have been removed.
pub proof fn law_no_circuit_is_left(value: Seq<char>)
    ensures
        scan::index_from(without_circuits(value), " via Circ "@, 0) is None,
    decreases value.len(),
{
    reveal_strlit(" via Circ ");
    let mark = " via Circ "@;
    match scan::index_from(value, mark, 0) {
        Some(i) => {
            lemma_found(value, mark, 0);
            lemma_space_from(value, i + mark.len());
            let end = space_from(value, i + mark.len());
            law_no_circuit_is_left(value.take(i) + value.skip(end));
        },
        None => {},
    }
}

proof fn lemma_found(s: Seq<char>, p: Seq<char>, from: int)
    requires
        0 <= from,
        scan::index_from(s, p, from) is Some,
    ensures
        ({
            let i = scan::index_from(s, p, from)->Some_0;
            from <= i && i + p.len() <= s.len() && text::occurs_at(s, p, i)
        }),
    decreases s.len() + 1 - from,
{
    if from + p.len() <= s.len() && !text::occurs_at(s, p, from) {
        lemma_found(s, p, from + 1);
    }
}

/// The value of a field as it is shown. `reading` is how the number of a duration in the
/// form of the Tor client is to be told.
pub open spec fn shown_value(
    name: Seq<char>,
    value: Seq<char>,
    reading: Option<SecondsReadingView>,
) -> Seq<char> {
    match durations::spoken_duration(value, reading) {
        Some(t) => t,
        None => if name == "guard"@ && text::begins(value, "GuardId("@) {
            "[scrubbed]"@
        } else if name == "latency_ms"@ {
            value + " ms"@
        } else {
            scrubbed(value)
        },
    }
}

/// The value of a field as it is shown.
pub fn normalize_field_value(name: &str, value: &str, reading: Option<&SecondsReading>) -> (r:
    String)
    ensures
        r@ == shown_value(name@, value@, durations::reading_view(reading)),
{
    match normalize_duration(value, reading) {
        Some(t) => t,
        None => {
            if str_eq(name, "guard") && starts_with(value, "GuardId(") {
                return "[scrubbed]".to_owned();
            }
            if str_eq(name, "latency_ms") {
                return concat(value, " ms");
            }
            scrub_tor_value(value)
        },
    }
}

/// Whether a field is not shown: it says nothing, or nothing that may be told.
pub open spec fn is_hidden(name: Seq<char>, value: Seq<char>) -> bool {
    ||| {
        &&& value == ""@ || value == "<missing>"@
        &&& name == "content_type"@ || name == "content_length"@ || name == "mime"@ || name
            == "path"@
    }
    ||| (name == "guard"@ && value == "[scrubbed]"@)
}

/// Whether a field is not shown.
pub fn should_hide_field(name: &str, value: &str) -> (r: bool)
    ensures
        r == is_hidden(name@, value@),
{
    if (str_eq(value, "") || str_eq(value, "<missing>")) && (str_eq(name, "content_type") || str_eq(
        name,
        "content_length",
    ) || str_eq(name, "mime") || str_eq(name, "path")) {
        return true;
    }
    str_eq(name, "guard") && str_eq(value, "[scrubbed]")
}

/// What an error of the Tor client comes to.
pub open spec fn tor_error_text(error: Seq<char>) -> Seq<char> {
    let lower = text::lower(error);
    if text::occurs(lower, "invalid document from directory server"@) {
        "directory server sent invalid data"@
    } else if text::occurs(lower, "timed out"@) || text::occurs(lower, "timeout"@) {
        "network timeout"@
    } else if text::occurs(lower, "unusable guard"@) || text::occurs(
        lower,
        "could not connect to guard"@,
    ) {
        "could not connect to a Tor guard"@
    } else if text::occurs(lower, "consensus"@) && text::occurs(lower, "expired"@) {
        "network directory consensus expired"@
    } else {
        scrubbed(error)
    }
}

/// Says what an error of the Tor client comes to.
pub fn short_tor_error(error: &str) -> (r: String)
    ensures
        r@ == tor_error_text(error@),
{
    let lowered = to_ascii_lowercase(error);
    let lower = lowered.as_str();
    if contains_str(lower, "invalid document from directory server") {
        "directory server sent invalid data".to_owned()
    } else if contains_str(lower, "timed out") || contains_str(lower, "timeout") {
        "network timeout".to_owned()
    } else if contains_str(lower, "unusable guard") || contains_str(
        lower,
        "could not connect to guard",
    ) {
        "could not connect to a Tor guard".to_owned()
    } else if contains_str(lower, "consensus") && contains_str(lower, "expired") {
        "network directory consensus expired".to_owned()
    } else {
        scrub_tor_value(error)
    }
}

proof fn lemma_behind(inner: Seq<char>, last: char, rest: Seq<char>)
    requires
        forall|i: int| 0 <= i < inner.len() ==> !('@' <= #[trigger] inner[i] <= '~'),
        '@' <= last <= '~',
    ensures
        behind_sequence(inner.push(last) + rest) == rest,
    decreases inner.len(),
{
    let whole = inner.push(last) + rest;
    if inner.len() == 0 {
        assert(whole[0] == last);
        assert(whole.skip(1) =~= rest);
    } else {
        assert(whole[0] == inner[0]);
        assert(whole.skip(1) =~= inner.skip(1).push(last) + rest);
        assert forall|i: int| 0 <= i < inner.skip(1).len() implies !('@'
            <= #[trigger] inner.skip(1)[i] <= '~') by {
            assert(inner.skip(1)[i] == inner[i + 1]);
        }
        lemma_behind(inner.skip(1), last, rest);
    }
}

/// A control sequence is dropped up to and with its final character, and what follows is
/// looked at afresh; a text without any stays as it is.
pub proof fn law_control_sequences_are_dropped(
    head: Seq<char>,
    inner: Seq<char>,
    last: char,
    rest: Seq<char>,
)
    requires
        !head.contains('\u{1b}'),
        forall|i: int| 0 <= i < inner.len() ==> !('@' <= #[trigger] inner[i] <= '~'),
        '@' <= last <= '~',
    ensures
        plain(head) == head,
        plain(head + seq!['\u{1b}', '['] + inner.push(last) + rest) == head + plain(rest),
    decreases head.len(),
{
    let whole = head + seq!['\u{1b}', '['] + inner.push(last) + rest;
    if head.len() == 0 {
        assert(whole[0] == '\u{1b}' && whole[1] == '[');
        assert(whole.skip(2) =~= inner.push(last) + rest);
        lemma_behind(inner, last, rest);
        assert(head + plain(rest) =~= plain(rest));
        assert(plain(head) =~= head);
    } else {
        let tail = head.skip(1);
        assert(head.contains(head[0]));
        assert forall|i: int| 0 <= i < tail.len() implies tail[i] != '\u{1b}' by {
            assert(head.contains(head[i + 1]));
        }
        law_control_sequences_are_dropped(tail, inner, last, rest);
        assert(whole[0] == head[0]);
        assert(whole.skip(1) =~= tail + seq!['\u{1b}', '['] + inner.push(last) + rest);
        assert(seq![head[0]] + (tail + plain(rest)) =~= head + plain(rest));
        assert(seq![head[0]] + tail =~= head);
    }
}

/// A guard is scrubbed wherever it is named, and only it: what is before it and after it is
/// kept.
pub proof fn law_guards_are_scrubbed(a: Seq<char>, id: Seq<char>, b: Seq<char>)
    requires
        !a.contains('('),
        !id.contains(')'),
    ensures
        !text::occurs(a, "GuardId("@),
        without_guards(a) == a,
        without_guards(a + "GuardId("@ + id + ")"@ + b) == a + "[scrubbed guard]"@
            + without_guards(b),
{
    reveal_strlit("GuardId(");
    reveal_strlit(")");
    let g = "GuardId("@;
    assert(g.len() == 8 && g[7] == '(');
    scan::law_first_is_found(a, g, 0);
    if text::occurs(a, g) {
        let i = choose|i: int| text::occurs_at(a, g, i);
        assert(a.subrange(i, i + 8)[7] == '(');
        assert(a.contains(a[i + 7]));
    }
    if scan::index_from(a, g, 0) is Some {
        assert(text::occurs(a, g));
    }
    let s = a + g + id + ")"@ + b;
    let n = a.len() as int;
    assert(text::occurs_at(s, g, n)) by {
        assert(s.subrange(n, n + 8) =~= g);
    }
    scan::law_first_is_found(s, g, 0);
    let i = scan::index_from(s, g, 0)->Some_0;
    assert(scan::index_from(s, g, 0) is Some);
    if i < n {
        assert(s.subrange(i, i + 8)[7] == '(');
        assert(s[i + 7] == '(');
        if i + 7 < n {
            assert(a.contains(a[i + 7]));
        } else {
            assert(s[i + 7] == g[i + 7 - n]);
            lemma_guard_letters(i + 7 - n);
        }
    }
    assert(i == n);
    let m = n + 8 + id.len();
    let close = ")"@;
    assert(close.len() == 1 && close[0] == ')');
    assert(text::occurs_at(s, close, m)) by {
        assert(s.subrange(m, m + 1) =~= close);
    }
    scan::law_first_is_found(s, close, n);
    assert(scan::index_from(s, close, n) is Some);
    let j = scan::index_from(s, close, n)->Some_0;
    if j < m {
        assert(s.subrange(j, j + 1)[0] == ')');
        assert(s[j] == ')');
        if j < n + 8 {
            assert(s[j] == g[j - n]);
            lemma_guard_letters(j - n);
        } else {
            assert(id.contains(id[j - n - 8]));
        }
    }
    assert(j == m);
    assert(s.take(n) =~= a);
    assert(s.skip(m + 1) =~= b);
}

proof fn lemma_guard_letters(k: int)
    requires
        0 <= k < 8,
    ensures
        k < 7 ==> "GuardId("@[k] != '(',
        "GuardId("@[k] != ')',
{
    reveal_strlit("GuardId(");
    let g = "GuardId("@;
    assert(g[0] == 'G' && g[1] == 'u' && g[2] == 'a' && g[3] == 'r' && g[4] == 'd' && g[5] == 'I'
        && g[6] == 'd' && g[7] == '(');
}

/// A value that is no duration is shown scrubbed; a guard's own field not at all, and a
/// latency with its unit.
pub proof fn law_values_are_shown_by_their_name(name: Seq<char>, value: Seq<char>)
    requires
        durations::spoken_duration(value, None) is None,
    ensures
        name == "latency_ms"@ ==> shown_value(name, value, None) == value + " ms"@,
        name == "guard"@ && text::begins(value, "GuardId("@) ==> shown_value(name, value, None)
            == "[scrubbed]"@,
        name != "guard"@ && name != "latency_ms"@ ==> shown_value(name, value, None) == scrubbed(
            value,
        ),
{
    reveal_strlit("latency_ms");
    reveal_strlit("guard");
    assert("latency_ms"@.len() == 10 && "guard"@.len() == 5);
}

/// A field is hidden exactly where it is one of those about a request's content and has
/// nothing to say, or a guard's that was scrubbed.
pub proof fn law_empty_fields_are_hidden(name: Seq<char>, value: Seq<char>)
    ensures
        is_hidden(name, value) <==> ((value.len() == 0 || value == "<missing>"@) && (name
            == "content_type"@ || name == "content_length"@ || name == "mime"@ || name == "path"@))
            || (name == "guard"@ && value == "[scrubbed]"@),
{
    reveal_strlit("");
    assert(""@ =~= Seq::<char>::empty());
    if value.len() == 0 {
        assert(value =~= ""@);
    }
}

/// What Tor says of an error is told in short: by the first cause that it names, in letters
/// of any case; an error that names none is told as it is, scrubbed.
pub proof fn law_tor_errors_are_told_in_short(error: Seq<char>)
    ensures
        ({
            let said = text::lower(error);
            let sent = text::occurs(said, "invalid document from directory server"@);
            let late = text::occurs(said, "timed out"@) || text::occurs(said, "timeout"@);
            let guard = text::occurs(said, "unusable guard"@) || text::occurs(
                said,
                "could not connect to guard"@,
            );
            let old = text::occurs(said, "consensus"@) && text::occurs(said, "expired"@);
            &&& sent ==> tor_error_text(error) == "directory server sent invalid data"@
            &&& !sent && late ==> tor_error_text(error) == "network timeout"@
            &&& !sent && !late && guard ==> tor_error_text(error)
                == "could not connect to a Tor guard"@
            &&& !sent && !late && !guard && old ==> tor_error_text(error)
                == "network directory consensus expired"@
            &&& !sent && !late && !guard && !old ==> tor_error_text(error) == scrubbed(error)
        }),
{
}

} // verus!
