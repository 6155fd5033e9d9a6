//! Events: their message and their fields, put into plain words.

use vstd::prelude::*;
use vstd::string::*;
use crate::logging::durations;
use crate::logging::durations::{normalize_duration, SecondsReading, SecondsReadingView};
use crate::logging::names;
use crate::logging::names::{
    extract_component,
    is_external_source,
    is_tor_component,
    is_tor_target,
};
use crate::logging::scan;
use crate::logging::scan::{
    first_in,
    head_before,
    last_before,
    replace_char,
    replace_text,
    rest_after,
    strip_dots,
};
use crate::logging::values;
use crate::logging::values::{
    normalize_field_value,
    short_tor_error,
    should_hide_field,
    strip_ansi,
};
use crate::numbers;
use crate::numbers::{decimal_u64, read_digits};
use crate::text;
use crate::text::{
    chars_of,
    concat,
    contains_str,
    eq_ignore_ascii_case,
    join,
    starts_with,
    str_eq,
    text_of,
    to_ascii_lowercase,
    trim,
};

verus! {

/// An event as it is written to the log.
#[derive(Debug)]
pub struct LogEventFields {
    /// The message.
    pub message: Option<String>,
    /// The names and values of the fields.
    pub fields: Vec<(String, String)>,
}

/// The model of an event.
#[verifier::ext_equal]
pub struct LogEventView {
    /// The message.
    pub message: Option<Seq<char>>,
    /// The names and values of the fields.
    pub fields: Seq<(Seq<char>, Seq<char>)>,
}

impl View for LogEventFields {
    type V = LogEventView;

    open spec fn view(&self) -> LogEventView {
        LogEventView {
            message: text::opt_view(self.message),
            fields: text::views(self.fields@),
        }
    }
}

impl Default for LogEventFields {
    fn default() -> (r: Self)
        ensures
            r@ == (LogEventView { message: None, fields: Seq::empty() }),
    {
        let r = LogEventFields { message: None, fields: Vec::new() };
        assert(r@.fields =~= Seq::<(Seq<char>, Seq<char>)>::empty());
        r
    }
}

impl LogEventView {
    /// The event with another message.
    pub open spec fn saying(self, message: Seq<char>) -> LogEventView {
        LogEventView { message: Some(message), ..self }
    }

    /// The event with a field set.
    pub open spec fn with(self, name: Seq<char>, value: Seq<char>) -> LogEventView {
        LogEventView { fields: upserted(self.fields, name, value), ..self }
    }

    /// The event without a field.
    pub open spec fn without(self, name: Seq<char>) -> LogEventView {
        LogEventView { fields: removed(self.fields, name), ..self }
    }

    /// The event after one more field, whose value is cleaned, and which may be hidden.
    pub open spec fn recording(
        self,
        name: Seq<char>,
        value: Seq<char>,
        reading: Option<SecondsReadingView>,
    ) -> LogEventView {
        let clean = values::shown_value(name, values::plain(text::trimmed(value)), reading);
        if name == "message"@ {
            if clean.len() > 0 {
                self.saying(clean)
            } else {
                self
            }
        } else if values::is_hidden(name, clean) {
            self
        } else {
            LogEventView { fields: self.fields.push((name, clean)), ..self }
        }
    }
}

impl LogEventFields {
    /// Adds a field to the event: its value is cleaned, and it may be hidden. `reading`
    /// is how the number of a duration in the form of the Tor client is to be told.
    pub fn push_field(&mut self, name: &str, value: &str, reading: Option<&SecondsReading>)
        ensures
            final(self)@ == old(self)@.recording(name@, value@, durations::reading_view(reading)),
    {
        broadcast use text::group_views;

        let trimmed = trim(value);
        let stripped = strip_ansi(trimmed.as_str());
        let clean = normalize_field_value(name, stripped.as_str(), reading);
        if str_eq(name, "message") {
            let letters = chars_of(clean.as_str());
            if letters.len() > 0 {
                self.message = Some(clean);
            }
            return ;
        }
        if should_hide_field(name, clean.as_str()) {
            return ;
        }
        self.fields.push((name.to_owned(), clean));
    }
}

/// Where a field first stands among others from the given position on.
pub open spec fn field_from(
    fields: Seq<(Seq<char>, Seq<char>)>,
    name: Seq<char>,
    from: int,
) -> Option<int>
    decreases fields.len() - from,
{
    if from < 0 || from >= fields.len() {
        None
    } else if fields[from].0 == name {
        Some(from)
    } else {
        field_from(fields, name, from + 1)
    }
}

/// The fields with one set: the first of its name is changed, or a new one added.
pub open spec fn upserted(
    fields: Seq<(Seq<char>, Seq<char>)>,
    name: Seq<char>,
    value: Seq<char>,
) -> Seq<(Seq<char>, Seq<char>)> {
    match field_from(fields, name, 0) {
        Some(i) => fields.update(i, (name, value)),
        None => fields.push((name, value)),
    }
}

/// The fields without the first of the given name.
pub open spec fn removed(fields: Seq<(Seq<char>, Seq<char>)>, name: Seq<char>) -> Seq<
    (Seq<char>, Seq<char>),
> {
    match field_from(fields, name, 0) {
        Some(i) => fields.remove(i),
        None => fields,
    }
}

/// The value of the first field of the given name.
pub open spec fn value_of(fields: Seq<(Seq<char>, Seq<char>)>, name: Seq<char>) -> Option<
    Seq<char>,
> {
    match field_from(fields, name, 0) {
        Some(i) => Some(fields[i].1),
        None => None,
    }
}

/// Where a field first stands among others.
fn find_field(fields: &Vec<(String, String)>, name: &str) -> (r: Option<usize>)
    ensures
        match r {
            Some(i) => i < fields@.len() && field_from(text::views(fields@), name@, 0) == Some(
                i as int,
            ),
            None => field_from(text::views(fields@), name@, 0) is None,
        },
{
    let ghost all = text::views(fields@);
    let mut i: usize = 0;
    while i < fields.len()
        invariant
            i <= fields@.len(),
            all == text::views(fields@),
            field_from(all, name@, 0) == field_from(all, name@, i as int),
        decreases fields@.len() - i,
    {
        assert(all[i as int] == fields@[i as int]@);
        if str_eq(fields[i].0.as_str(), name) {
            return Some(i);
        }
        i = i + 1;
    }
    None
}

/// Sets a field: the first of its name is changed, or a new one added.
pub fn upsert_field(fields: &mut Vec<(String, String)>, name: &str, value: String)
    ensures
        text::views(final(fields)@) == upserted(text::views(old(fields)@), name@, value@),
{
    broadcast use text::group_views;

    let ghost all = text::views(fields@);
    match find_field(fields, name) {
        Some(i) => {
            fields.set(i, (name.to_owned(), value));
            assert(text::views(fields@) =~= all.update(i as int, (name@, value@)));
        },
        None => {
            fields.push((name.to_owned(), value));
        },
    }
}

/// Removes the first field of the given name, and gives its value.
pub fn remove_field(fields: &mut Vec<(String, String)>, name: &str) -> (r: Option<String>)
    ensures
        text::views(final(fields)@) == removed(text::views(old(fields)@), name@),
        text::opt_view(r) == value_of(text::views(old(fields)@), name@),
{
    let ghost all = text::views(fields@);
    match find_field(fields, name) {
        Some(i) => {
            let field = fields.remove(i);
            assert(text::views(fields@) =~= all.remove(i as int));
            Some(field.1)
        },
        None => None,
    }
}

/// The text with each run of blanks made one blank.
pub open spec fn single_spaced(s: Seq<char>) -> Seq<char>
    decreases s.len(),
{
    if s.len() == 0 {
        s
    } else {
        let before = single_spaced(s.drop_last());
        if s.last() == ' ' && before.len() > 0 && before.last() == ' ' {
            before
        } else {
            before.push(s.last())
        }
    }
}

/// Makes each run of blanks one blank.
fn squeeze(s: &str) -> (r: String)
    ensures
        r@ == single_spaced(s@),
{
    let a = chars_of(s);
    let mut r = String::new();
    let mut blank: bool = false;
    let mut i: usize = 0;
    assert(s@.take(0) =~= Seq::<char>::empty());
    assert(r@ =~= Seq::<char>::empty());
    while i < a.len()
        invariant
            i <= a@.len(),
            a@ == s@,
            r@ == single_spaced(s@.take(i as int)),
            blank == (r@.len() > 0 && r@.last() == ' '),
        decreases a@.len() - i,
    {
        let c = a[i];
        assert(s@.take(i as int + 1).drop_last() =~= s@.take(i as int));
        assert(s@.take(i as int + 1).last() == c);
        if !(c == ' ' && blank) {
            r.push(c);
            blank = c == ' ';
        }
        i = i + 1;
    }
    assert(s@.take(s@.len() as int) =~= s@);
    r
}

/// A small letter of the alphabet as a capital one.
pub open spec fn capital(c: char) -> char {
    if 'a' <= c <= 'z' {
        ((c as u8) - 32) as char
    } else {
        c
    }
}

/// The text with a capital at its start.
pub open spec fn title_cased(s: Seq<char>) -> Seq<char> {
    if s.len() > 0 {
        s.update(0, capital(s[0]))
    } else {
        s
    }
}

/// Writes a text with a capital at its start.
pub fn title_case_message(message: &str) -> (r: String)
    ensures
        r@ == title_cased(message@),
{
    let a = chars_of(message);
    let n: usize = a.len();
    if n == 0 {
        assert(message@ =~= title_cased(message@));
        return message.to_owned();
    }
    let first = a[0];
    if 'a' <= first && first <= 'z' {
        let mut r = String::new();
        r.push((first as u8 - 32u8) as char);
        let rest = text_of(&a, 1, n);
        r.append(rest.as_str());
        assert(r@ =~= title_cased(message@));
        r
    } else {
        assert(message@ =~= title_cased(message@));
        message.to_owned()
    }
}

/// A message in plain characters, with single blanks and a capital at its start.
pub open spec fn normal_message(message: Seq<char>) -> Seq<char> {
    let dashes = scan::with_replaced(text::trimmed(message), '\u{2014}', "-"@);
    let dots = scan::with_replaced(dashes, '\u{2026}', "..."@);
    let arrows = scan::with_replaced(dots, '\u{2192}', " to "@);
    title_cased(single_spaced(arrows))
}

/// Puts a message into plain characters.
pub fn normalize_message_text(message: &str) -> (r: String)
    ensures
        r@ == normal_message(message@),
{
    let trimmed = trim(message);
    let dashes = replace_char(trimmed.as_str(), '\u{2014}', "-");
    let dots = replace_char(dashes.as_str(), '\u{2026}', "...");
    let arrows = replace_char(dots.as_str(), '\u{2192}', " to ");
    let spaced = squeeze(arrows.as_str());
    title_case_message(spaced.as_str())
}

/// The rate that stands before the first percent sign of a message.
pub open spec fn percent_of(message: Seq<char>) -> Option<Seq<char>> {
    match scan::index_from(message, "%"@, 0) {
        Some(i) => {
            let number = match scan::index_before(message, " "@, i) {
                Some(j) => message.subrange(j + 1, i),
                None => message.take(i),
            };
            Some(number + "%"@)
        },
        None => None,
    }
}

/// The rate that stands before the first percent sign of a message.
pub fn extract_percent(message: &str) -> (r: Option<String>)
    ensures
        text::opt_view(r) == percent_of(message@),
{
    let a = chars_of(message);
    let blank = chars_of(" ");
    proof {
        reveal_strlit(" ");
    }
    match first_in(&a, "%") {
        Some(i) => {
            let number = match last_before(&a, &blank, i) {
                Some(j) => text_of(&a, j + 1, i),
                None => {
                    assert(a@.subrange(0, i as int) =~= a@.take(i as int));
                    text_of(&a, 0, i)
                },
            };
            Some(concat(number.as_str(), "%"))
        },
        None => None,
    }
}

/// The number that an unsigned decimal text writes, with or without a plus sign.
pub open spec fn parsed_u64(s: Seq<char>) -> Option<u64> {
    let digits = if s.len() > 0 && s[0] == '+' {
        s.skip(1)
    } else {
        s
    };
    if numbers::all_digits(digits) && numbers::digits_value(digits) <= u64::MAX {
        Some(numbers::digits_value(digits) as u64)
    } else {
        None
    }
}

/// Reads an unsigned decimal text.
fn parse_u64(s: &str) -> (r: Option<u64>)
    ensures
        r == parsed_u64(s@),
{
    let a = chars_of(s);
    let from: usize = if a.len() > 0 && a[0] == '+' {
        1
    } else {
        0
    };
    assert(a@.skip(0) =~= a@);
    match read_digits(&a, from, 0xffff_ffff_ffff_ffff) {
        Some(n) => {
            proof {
                numbers::lemma_digits_nonnegative(a@.skip(from as int));
            }
            Some(n as u64)
        },
        None => None,
    }
}

/// How often a bootstrap failed, by the message that says so.
pub open spec fn attempts_of(message: Seq<char>) -> Option<Seq<char>> {
    let head = "We failed "@;
    if text::begins(message, head) {
        match scan::before_first(message.skip(head.len() as int), " times to bootstrap"@) {
            Some(number) => match parsed_u64(number) {
                Some(n) => Some(numbers::nat_text(n as nat)),
                None => None,
            },
            None => None,
        }
    } else {
        None
    }
}

/// How often a bootstrap failed, by the message that says so.
pub fn extract_attempt_count(message: &str) -> (r: Option<String>)
    ensures
        text::opt_view(r) == attempts_of(message@),
{
    if !starts_with(message, "We failed ") {
        return None;
    }
    let a = chars_of(message);
    let head = chars_of("We failed ");
    let n: usize = a.len();
    let rest = text_of(&a, head.len(), n);
    assert(rest@ =~= message@.skip(head@.len() as int));
    match head_before(rest.as_str(), " times to bootstrap") {
        Some(number) => match parse_u64(number.as_str()) {
            Some(count) => Some(decimal_u64(count)),
            None => None,
        },
        None => None,
    }
}

/// When a guard is tried again, by the message that says so.
pub open spec fn retry_of(message: Seq<char>) -> Option<Seq<char>> {
    match scan::after_first(message, "Retrying in "@) {
        Some(rest) => Some(scan::without_dots(rest)),
        None => None,
    }
}

/// When a guard is tried again, by the message that says so.
pub fn retry_text(message: &str) -> (r: Option<String>)
    ensures
        text::opt_view(r) == retry_of(message@),
{
    match rest_after(message, "Retrying in ") {
        Some(rest) => Some(strip_dots(rest.as_str())),
        None => None,
    }
}

/// An event of the guards of the Tor client. `reading` is how the number of the time of
/// the next try is to be told.
pub open spec fn guard_event(
    message: Seq<char>,
    event: LogEventView,
    reading: Option<SecondsReadingView>,
) -> LogEventView {
    match retry_of(message) {
        Some(retry) => {
            let time = match durations::spoken_duration(retry, reading) {
                Some(t) => t,
                None => retry,
            };
            event.saying("Tor guard connection failed"@).with("retry_in"@, time)
        },
        None => if text::occurs(message, "Next retry time unknown"@) {
            event.saying("Tor guard connection failed"@).with("retry_in"@, "unknown"@)
        } else if text::begins(message, "Questionable guard:"@) {
            with_rate(event.saying("Tor marked a guard as unstable"@), message)
        } else if text::begins(message, "Disabling guard:"@) {
            with_rate(event.saying("Tor disabled an unstable guard"@), message)
        } else {
            event
        },
    }
}

/// An event with the rate of failures that its message names.
pub open spec fn with_rate(event: LogEventView, message: Seq<char>) -> LogEventView {
    match percent_of(message) {
        Some(rate) => event.with("failure_rate"@, rate),
        None => event,
    }
}

impl LogEventFields {
    /// Gives the event another message.
    fn say(&mut self, message: &str)
        ensures
            final(self)@ == old(self)@.saying(message@),
    {
        self.message = Some(message.to_owned());
    }

    /// Sets a field.
    fn set(&mut self, name: &str, value: String)
        ensures
            final(self)@ == old(self)@.with(name@, value@),
    {
        upsert_field(&mut self.fields, name, value);
    }

    /// Notes the rate of failures that a message names.
    fn set_rate(&mut self, message: &str)
        ensures
            final(self)@ == with_rate(old(self)@, message@),
    {
        match extract_percent(message) {
            Some(rate) => {
                self.set("failure_rate", rate);
            },
            None => {},
        }
    }
}

/// Puts an event of the guards of the Tor client into plain words.
fn rewrite_guard(message: &str, event: &mut LogEventFields, reading: Option<&SecondsReading>)
    ensures
        final(event)@ == guard_event(message@, old(event)@, durations::reading_view(reading)),
{
    match retry_text(message) {
        Some(retry) => {
            let time = match normalize_duration(retry.as_str(), reading) {
                Some(t) => t,
                None => retry,
            };
            event.say("Tor guard connection failed");
            event.set("retry_in", time);
        },
        None => {
            if contains_str(message, "Next retry time unknown") {
                event.say("Tor guard connection failed");
                event.set("retry_in", "unknown".to_owned());
            } else if starts_with(message, "Questionable guard:") {
                event.say("Tor marked a guard as unstable");
                event.set_rate(message);
            } else if starts_with(message, "Disabling guard:") {
                event.say("Tor disabled an unstable guard");
                event.set_rate(message);
            }
        },
    }
}

/// An event of the circuits of onion services.
pub open spec fn hspool_event(message: Seq<char>, event: LogEventView) -> LogEventView {
    if message == "Too many preemptive onion service circuits failed; waiting a while."@ {
        event.saying("Tor onion-service circuits are failing; waiting before retrying"@)
    } else if text::begins(message, "unknown vanguard mode"@) {
        event.saying("Tor onion-service vanguard mode is unknown"@)
    } else {
        event
    }
}

/// Puts an event of the circuits of onion services into plain words.
fn rewrite_hspool(message: &str, event: &mut LogEventFields)
    ensures
        final(event)@ == hspool_event(message@, old(event)@),
{
    if str_eq(message, "Too many preemptive onion service circuits failed; waiting a while.") {
        event.say("Tor onion-service circuits are failing; waiting before retrying");
    } else if starts_with(message, "unknown vanguard mode") {
        event.say("Tor onion-service vanguard mode is unknown");
    }
}

/// An event of a reactor of the Tor client.
pub open spec fn reactor_event(message: Seq<char>, event: LogEventView) -> LogEventView {
    if text::lower(message) == text::lower("removing circuit leg"@) {
        event.saying("Tor circuit closed"@).without("tunnel_id"@)
    } else if text::occurs(message, "descriptor upload"@) || text::occurs(
        message,
        "Unable to upload"@,
    ) || text::occurs(message, "publish"@) {
        event.saying(scan::with_text_replaced(normal_message(message), "HS"@, "onion service"@))
    } else {
        event
    }
}

/// Puts an event of a reactor of the Tor client into plain words.
fn rewrite_reactor(message: &str, event: &mut LogEventFields)
    ensures
        final(event)@ == reactor_event(message@, old(event)@),
{
    if eq_ignore_ascii_case(message, "removing circuit leg") {
        event.say("Tor circuit closed");
        let _gone = remove_field(&mut event.fields, "tunnel_id");
    } else if contains_str(message, "descriptor upload") || contains_str(
        message,
        "Unable to upload",
    ) || contains_str(message, "publish") {
        let normal = normalize_message_text(message);
        proof {
            reveal_strlit("HS");
        }
        let plain = replace_text(normal.as_str(), "HS", "onion service");
        event.say(plain.as_str());
    }
}

/// An event of the bootstrap of the Tor directory.
pub open spec fn bootstrap_event(message: Seq<char>, event: LogEventView) -> LogEventView {
    if message == "Unable to advance downloading state"@ {
        event.saying("Tor directory bootstrap stalled"@)
    } else if text::begins(message, "We failed "@) && text::occurs(message, "times to bootstrap"@) {
        let failed = event.saying("Tor directory bootstrap failed"@);
        match attempts_of(message) {
            Some(n) => failed.with("attempts"@, n),
            None => failed,
        }
    } else {
        event
    }
}

/// Puts an event of the bootstrap of the Tor directory into plain words.
fn rewrite_bootstrap(message: &str, event: &mut LogEventFields)
    ensures
        final(event)@ == bootstrap_event(message@, old(event)@),
{
    if str_eq(message, "Unable to advance downloading state") {
        event.say("Tor directory bootstrap stalled");
    } else if starts_with(message, "We failed ") && contains_str(message, "times to bootstrap") {
        event.say("Tor directory bootstrap failed");
        match extract_attempt_count(message) {
            Some(n) => {
                event.set("attempts", n);
            },
            None => {},
        }
    }
}

/// An event of the Tor directory itself.
pub open spec fn directory_event(message: Seq<char>, event: LogEventView) -> LogEventView {
    if message == "Bootstrapping task exited before finishing."@ {
        event.saying("Tor directory bootstrap stopped before finishing"@)
    } else if message == "Got a new NetDir, but it's older than the one we currently have!"@ {
        event.saying("Tor received an older network directory; keeping current copy"@)
    } else {
        event
    }
}

/// Puts an event of the Tor directory itself into plain words.
fn rewrite_directory(message: &str, event: &mut LogEventFields)
    ensures
        final(event)@ == directory_event(message@, old(event)@),
{
    if str_eq(message, "Bootstrapping task exited before finishing.") {
        event.say("Tor directory bootstrap stopped before finishing");
    } else if str_eq(message, "Got a new NetDir, but it's older than the one we currently have!") {
        event.say("Tor received an older network directory; keeping current copy");
    }
}

/// An event of the state of the Tor directory.
pub open spec fn state_event(message: Seq<char>, event: LogEventView) -> LogEventView {
    if text::begins(message, "Problem with certificate received from"@) {
        event.saying("Tor directory certificate was rejected"@)
    } else if text::begins(message, "Discarding certificates"@) {
        event.saying("Tor discarded unrequested directory certificates"@)
    } else if text::begins(message, "Received microdescriptor"@) {
        event.saying("Tor discarded an unrequested relay descriptor"@)
    } else if message == "Found a mismatched microdescriptor in cache; ignoring"@ {
        event.saying("Tor ignored a mismatched cached relay descriptor"@)
    } else {
        event
    }
}

/// Puts an event of the state of the Tor directory into plain words.
fn rewrite_state(message: &str, event: &mut LogEventFields)
    ensures
        final(event)@ == state_event(message@, old(event)@),
{
    if starts_with(message, "Problem with certificate received from") {
        event.say("Tor directory certificate was rejected");
    } else if starts_with(message, "Discarding certificates") {
        event.say("Tor discarded unrequested directory certificates");
    } else if starts_with(message, "Received microdescriptor") {
        event.say("Tor discarded an unrequested relay descriptor");
    } else if str_eq(message, "Found a mismatched microdescriptor in cache; ignoring") {
        event.say("Tor ignored a mismatched cached relay descriptor");
    }
}

/// An event of the cache of the Tor client.
pub open spec fn cache_event(message: Seq<char>, event: LogEventView) -> LogEventView {
    if text::begins(message, "Removing unreferenced file"@) {
        event.saying("Tor removed an unreferenced cache file"@)
    } else {
        event
    }
}

/// Puts an event of the cache of the Tor client into plain words.
fn rewrite_cache(message: &str, event: &mut LogEventFields)
    ensures
        final(event)@ == cache_event(message@, old(event)@),
{
    if starts_with(message, "Removing unreferenced file") {
        event.say("Tor removed an unreferenced cache file");
    }
}

/// An event of the circuits of the Tor client.
pub open spec fn circuit_event(message: Seq<char>, event: LogEventView) -> LogEventView {
    if message == "All tunnel attempts failed due to timeout"@ {
        event.saying("Tor circuit build timed out"@)
    } else if message == "Reached circuit build retry limit, exiting..."@ {
        event.saying("Tor circuit build retry limit reached"@)
    } else if message == "Request failed"@ {
        event.saying("Tor circuit request failed"@)
    } else {
        event
    }
}

/// Puts an event of the circuits of the Tor client into plain words.
fn rewrite_circuit(message: &str, event: &mut LogEventFields)
    ensures
        final(event)@ == circuit_event(message@, old(event)@),
{
    if str_eq(message, "All tunnel attempts failed due to timeout") {
        event.say("Tor circuit build timed out");
    } else if str_eq(message, "Reached circuit build retry limit, exiting...") {
        event.say("Tor circuit build retry limit reached");
    } else if str_eq(message, "Request failed") {
        event.say("Tor circuit request failed");
    }
}

/// An event of the given component in plain words.
pub open spec fn component_event(
    component: Seq<char>,
    message: Seq<char>,
    event: LogEventView,
    reading: Option<SecondsReadingView>,
) -> LogEventView {
    if component == "guard"@ {
        guard_event(message, event, reading)
    } else if component == "hspool"@ {
        hspool_event(message, event)
    } else if component == "reactor"@ {
        reactor_event(message, event)
    } else if component == "bootstrap"@ {
        bootstrap_event(message, event)
    } else if component == "lib"@ {
        directory_event(message, event)
    } else if component == "state"@ {
        state_event(message, event)
    } else if component == "sqlite"@ {
        cache_event(message, event)
    } else if component == "mgr"@ {
        circuit_event(message, event)
    } else {
        event
    }
}

/// Puts an event of the given component into plain words.
fn rewrite_component(
    component: &str,
    message: &str,
    event: &mut LogEventFields,
    reading: Option<&SecondsReading>,
)
    ensures
        final(event)@ == component_event(
            component@,
            message@,
            old(event)@,
            durations::reading_view(reading),
        ),
{
    if str_eq(component, "guard") {
        rewrite_guard(message, event, reading);
    } else if str_eq(component, "hspool") {
        rewrite_hspool(message, event);
    } else if str_eq(component, "reactor") {
        rewrite_reactor(message, event);
    } else if str_eq(component, "bootstrap") {
        rewrite_bootstrap(message, event);
    } else if str_eq(component, "lib") {
        rewrite_directory(message, event);
    } else if str_eq(component, "state") {
        rewrite_state(message, event);
    } else if str_eq(component, "sqlite") {
        rewrite_cache(message, event);
    } else if str_eq(component, "mgr") {
        rewrite_circuit(message, event);
    }
}

/// An event about an update of the Tor directory that failed.
pub open spec fn update_event(message: Seq<char>, event: LogEventView) -> LogEventView {
    if text::begins(message, "Error while adding directory info"@) {
        let failed = event.saying("Tor directory update failed"@);
        match value_of(failed.fields, "error"@) {
            Some(error) => failed.without("error"@).with(
                "reason"@,
                values::tor_error_text(error),
            ),
            None => failed,
        }
    } else {
        event
    }
}

/// Puts an event about an update of the Tor directory that failed into plain words.
fn rewrite_update(message: &str, event: &mut LogEventFields)
    ensures
        final(event)@ == update_event(message@, old(event)@),
{
    if starts_with(message, "Error while adding directory info") {
        event.say("Tor directory update failed");
        match remove_field(&mut event.fields, "error") {
            Some(error) => {
                let reason = short_tor_error(error.as_str());
                event.set("reason", reason);
            },
            None => {},
        }
    }
}

/// Whether an event is marked as one of the Tor client.
pub open spec fn is_marked(target: Seq<char>, file: Option<Seq<char>>) -> bool {
    &&& file is Some
    &&& names::is_external(file->Some_0) || names::is_tor(target)
    &&& names::names_tor_component(names::component_of(target))
}

/// An event marked as one of the Tor client, unless its message says so.
pub open spec fn marked_event(event: LogEventView) -> LogEventView {
    match event.message {
        Some(message) => if text::begins(message, "Tor "@) {
            event
        } else {
            event.saying("Tor: "@ + message)
        },
        None => event,
    }
}

/// Marks an event as one of the Tor client, unless its message says so.
fn mark_event(event: &mut LogEventFields)
    ensures
        final(event)@ == marked_event(old(event)@),
{
    let marked = match &event.message {
        Some(message) => if starts_with(message.as_str(), "Tor ") {
            None
        } else {
            Some(concat("Tor: ", message.as_str()))
        },
        None => None,
    };
    match marked {
        Some(message) => {
            event.message = Some(message);
        },
        None => {},
    }
}

/// An event in plain words. `file` is the source file that it comes from, and `reading`
/// how the number of the time of a next try is to be told.
pub open spec fn rewritten(
    target: Seq<char>,
    file: Option<Seq<char>>,
    event: LogEventView,
    reading: Option<SecondsReadingView>,
) -> LogEventView {
    match event.message {
        None => event,
        Some(message) => {
            let component = names::component_of(target);
            let normal = event.saying(normal_message(message));
            let told = update_event(
                message,
                component_event(component, message, normal, reading),
            );
            if is_marked(target, file) {
                marked_event(told)
            } else {
                told
            }
        },
    }
}

/// Puts an event into plain words.
pub fn rewrite_message(
    target: &str,
    file: Option<&str>,
    event: &mut LogEventFields,
    reading: Option<&SecondsReading>,
)
    ensures
        final(event)@ == rewritten(
            target@,
            text::opt_str(file),
            old(event)@,
            durations::reading_view(reading),
        ),
{
    let message = match &event.message {
        Some(message) => message.clone(),
        None => {
            return ;
        },
    };
    let component = extract_component(target);
    let normal = normalize_message_text(message.as_str());
    event.say(normal.as_str());
    rewrite_component(component.as_str(), message.as_str(), event, reading);
    rewrite_update(message.as_str(), event);
    let marked = match file {
        Some(f) => (is_external_source(f) || is_tor_target(target)) && is_tor_component(
            component.as_str(),
        ),
        None => false,
    };
    if marked {
        mark_event(event);
    }
}

/// Whether an event is not written.
pub open spec fn is_suppressed(target: Seq<char>, event: LogEventView) -> bool {
    &&& names::component_of(target) == "hspool"@
    &&& event.message == Some("Tor onion-service circuits are failing; waiting before retrying"@)
}

/// Whether an event is not written.
pub fn should_suppress_event(target: &str, event: &LogEventFields) -> (r: bool)
    ensures
        r == is_suppressed(target@, event@),
{
    let component = extract_component(target);
    match &event.message {
        Some(message) => str_eq(component.as_str(), "hspool") && str_eq(
            message.as_str(),
            "Tor onion-service circuits are failing; waiting before retrying",
        ),
        None => false,
    }
}

/// The values of the fields.
pub open spec fn field_values(fields: Seq<(Seq<char>, Seq<char>)>) -> Seq<Seq<char>> {
    fields.map_values(|f: (Seq<char>, Seq<char>)| f.1)
}

/// The words of an event, in small letters: its message and the values of its fields.
pub open spec fn event_words(event: LogEventView) -> Seq<char> {
    let message = match event.message {
        Some(m) => m,
        None => Seq::empty(),
    };
    text::lower(message) + " "@ + text::lower(text::joined(field_values(event.fields), " "@))
}

/// Whether an event says that a descriptor could not be uploaded in time.
pub open spec fn is_descriptor_timeout(target: Seq<char>, event: LogEventView) -> bool {
    let said = event_words(event);
    &&& names::is_tor(target)
    &&& text::occurs(said, "descriptor"@)
    &&& text::occurs(said, "failed to upload descriptor"@) || text::occurs(
        said,
        "unable to upload"@,
    ) || text::occurs(said, "descriptor upload"@)
    &&& text::occurs(said, "timeout exceeded"@) || text::occurs(said, "timed out"@) || text::occurs(
        said,
        "network timeout"@,
    )
}

/// Whether an event says that a descriptor could not be uploaded in time.
pub fn is_tor_descriptor_upload_timeout_event(target: &str, event: &LogEventFields) -> (r: bool)
    ensures
        r == is_descriptor_timeout(target@, event@),
{
    broadcast use text::group_views;

    if !is_tor_target(target) {
        return false;
    }
    let mut said = match &event.message {
        Some(message) => to_ascii_lowercase(message.as_str()),
        None => {
            let none = String::new();
            assert(none@ =~= text::lower(Seq::<char>::empty()));
            none
        },
    };
    let mut told: Vec<String> = Vec::new();
    let ghost all = text::views(event.fields@);
    let mut i: usize = 0;
    while i < event.fields.len()
        invariant
            i <= event.fields@.len(),
            all == text::views(event.fields@),
            text::views(told@) == field_values(all).take(i as int),
        decreases event.fields@.len() - i,
    {
        broadcast use text::group_views;

        assert(all[i as int] == event.fields@[i as int]@);
        told.push(event.fields[i].1.clone());
        assert(field_values(all).take(i as int + 1) =~= field_values(all).take(i as int).push(
            all[i as int].1,
        ));
        i = i + 1;
    }
    assert(field_values(all).take(all.len() as int) =~= field_values(all));
    let joined = join(&told, " ");
    let lowered = to_ascii_lowercase(joined.as_str());
    said.append(" ");
    said.append(lowered.as_str());
    let s = said.as_str();
    contains_str(s, "descriptor") && (contains_str(s, "failed to upload descriptor")
        || contains_str(s, "unable to upload") || contains_str(s, "descriptor upload")) && (
    contains_str(s, "timeout exceeded") || contains_str(s, "timed out") || contains_str(
        s,
        "network timeout",
    ))
}

/// An event without a message is left as it is.
pub proof fn law_silent_events_are_kept(
    target: Seq<char>,
    file: Option<Seq<char>>,
    event: LogEventView,
    reading: Option<SecondsReadingView>,
)
    requires
        event.message is None,
    ensures
        rewritten(target, file, event, reading) == event,
{
}

/// Whatever the Tor client says in its own components begins with its name.
pub proof fn law_tor_events_are_marked(
    target: Seq<char>,
    file: Option<Seq<char>>,
    event: LogEventView,
    reading: Option<SecondsReadingView>,
)
    requires
        event.message is Some,
        is_marked(target, file),
    ensures
        ({
            let told = rewritten(target, file, event, reading).message;
            &&& told is Some
            &&& text::begins(told->Some_0, "Tor "@) || text::begins(told->Some_0, "Tor: "@)
        }),
{
    let message = event.message->Some_0;
    let component = names::component_of(target);
    let normal = event.saying(normal_message(message));
    let told = update_event(message, component_event(component, message, normal, reading));
    assert(told.message is Some);
    if !text::begins(told.message->Some_0, "Tor "@) {
        let marked = "Tor: "@ + told.message->Some_0;
        assert(marked.take("Tor: "@.len() as int) =~= "Tor: "@);
    }
}

proof fn lemma_field(fields: Seq<(Seq<char>, Seq<char>)>, name: Seq<char>, from: int)
    requires
        0 <= from <= fields.len(),
    ensures
        match field_from(fields, name, from) {
            Some(i) => from <= i < fields.len() && fields[i].0 == name && forall|j: int|
                from <= j < i ==> (#[trigger] fields[j]).0 != name,
            None => forall|j: int|
                from <= j < fields.len() ==> (#[trigger] fields[j]).0 != name,
        },
    decreases fields.len() - from,
{
    if from < fields.len() && fields[from].0 != name {
        lemma_field(fields, name, from + 1);
    }
}

/// A field that is set is found with its new value, in its old place where it had one; the
/// values of other fields stay.
pub proof fn law_fields_are_found_as_they_were_set(
    fields: Seq<(Seq<char>, Seq<char>)>,
    name: Seq<char>,
    value: Seq<char>,
    other: Seq<char>,
)
    ensures
        value_of(upserted(fields, name, value), name) == Some(value),
        other != name ==> value_of(upserted(fields, name, value), other) == value_of(fields, other),
        value_of(fields, name) is Some ==> upserted(fields, name, value).len() == fields.len(),
        value_of(fields, name) is None ==> upserted(fields, name, value) == fields.push(
            (name, value),
        ),
{
    let r = upserted(fields, name, value);
    lemma_field(fields, name, 0);
    lemma_field(r, name, 0);
    lemma_field(fields, other, 0);
    lemma_field(r, other, 0);
    match field_from(fields, name, 0) {
        Some(i) => {
            assert(r[i] == (name, value));
            let k = field_from(r, name, 0)->Some_0;
            assert(field_from(r, name, 0) is Some);
            if k < i {
                assert(r[k] == fields[k]);
            }
            assert(k == i);
            if other != name {
                lemma_same_field(fields, r, other);
            }
        },
        None => {
            assert(r[fields.len() as int] == (name, value));
            assert(field_from(r, name, 0) is Some);
            let k = field_from(r, name, 0)->Some_0;
            if k < fields.len() {
                assert(r[k] == fields[k]);
            }
            if other != name {
                lemma_same_field(fields, r, other);
            }
        },
    }
}

proof fn lemma_same_field(
    a: Seq<(Seq<char>, Seq<char>)>,
    b: Seq<(Seq<char>, Seq<char>)>,
    name: Seq<char>,
)
    requires
        a.len() <= b.len(),
        forall|i: int|
            0 <= i < a.len() ==> ((#[trigger] a[i]).0 == name <==> b[i].0 == name) && (a[i].0 == name
                ==> a[i] == b[i]),
        forall|i: int| a.len() <= i < b.len() ==> (#[trigger] b[i]).0 != name,
    ensures
        value_of(a, name) == value_of(b, name),
{
    lemma_field(a, name, 0);
    lemma_field(b, name, 0);
    match field_from(a, name, 0) {
        Some(i) => {
            assert(a[i] == b[i]);
            assert(b[i].0 == name);
            let k = field_from(b, name, 0)->Some_0;
            assert(field_from(b, name, 0) is Some);
            if k < i {
                assert(a[k].0 == name);
            }
            assert(k == i);
        },
        None => {
            if field_from(b, name, 0) is Some {
                let k = field_from(b, name, 0)->Some_0;
                if k < a.len() {
                    assert(a[k].0 == name);
                }
            }
        },
    }
}

/// A message's runs of spaces become one, and its first letter a capital.
pub proof fn law_messages_are_tidied(s: Seq<char>, i: int)
    ensures
        0 < i < single_spaced(s).len() ==> !(single_spaced(s)[i - 1] == ' ' && single_spaced(s)[i]
            == ' '),
        title_cased(s).len() == s.len(),
        s.len() > 0 && 'a' <= s[0] <= 'z' ==> title_cased(s)[0] as int == s[0] as int - 32,
        s.len() > 0 && !('a' <= s[0] <= 'z') ==> title_cased(s) == s,
        0 < i < s.len() ==> title_cased(s)[i] == s[i],
    decreases s.len(),
{
    if s.len() > 0 {
        law_messages_are_tidied(s.drop_last(), i);
        if !('a' <= s[0] <= 'z') {
            assert(title_cased(s) =~= s);
        }
    }
}

/// What Tor's parts say is told in plain words: each of these messages by its own, and
/// nothing but the message changes.
pub proof fn law_tor_messages_are_told_plainly(
    event: LogEventView,
    reading: Option<SecondsReadingView>,
    rest: Seq<char>,
)
    ensures
        component_event(
            "hspool"@,
            "Too many preemptive onion service circuits failed; waiting a while."@,
            event,
            reading,
        ) == event.saying("Tor onion-service circuits are failing; waiting before retrying"@),
        component_event(
            "bootstrap"@,
            "Unable to advance downloading state"@,
            event,
            reading,
        ) == event.saying("Tor directory bootstrap stalled"@),
        component_event(
            "lib"@,
            "Bootstrapping task exited before finishing."@,
            event,
            reading,
        ) == event.saying("Tor directory bootstrap stopped before finishing"@),
        component_event(
            "lib"@,
            "Got a new NetDir, but it's older than the one we currently have!"@,
            event,
            reading,
        ) == event.saying("Tor received an older network directory; keeping current copy"@),
        component_event(
            "state"@,
            "Found a mismatched microdescriptor in cache; ignoring"@,
            event,
            reading,
        ) == event.saying("Tor ignored a mismatched cached relay descriptor"@),
        component_event(
            "mgr"@,
            "All tunnel attempts failed due to timeout"@,
            event,
            reading,
        ) == event.saying("Tor circuit build timed out"@),
        component_event(
            "mgr"@,
            "Reached circuit build retry limit, exiting..."@,
            event,
            reading,
        ) == event.saying("Tor circuit build retry limit reached"@),
        component_event(
            "mgr"@,
            "Request failed"@,
            event,
            reading,
        ) == event.saying("Tor circuit request failed"@),
        component_event("hspool"@, "unknown vanguard mode"@ + rest, event, reading).message == Some(
            "Tor onion-service vanguard mode is unknown"@,
        ),
        component_event("state"@, "Problem with certificate received from"@ + rest, event, reading).message == Some(
            "Tor directory certificate was rejected"@,
        ),
        component_event("state"@, "Discarding certificates"@ + rest, event, reading).message == Some(
            "Tor discarded unrequested directory certificates"@,
        ),
        component_event("state"@, "Received microdescriptor"@ + rest, event, reading).message == Some(
            "Tor discarded an unrequested relay descriptor"@,
        ),
        component_event("sqlite"@, "Removing unreferenced file"@ + rest, event, reading).message == Some(
            "Tor removed an unreferenced cache file"@,
        ),
{
    reveal_strlit("guard");
    reveal_strlit("hspool");
    reveal_strlit("reactor");
    reveal_strlit("bootstrap");
    reveal_strlit("lib");
    reveal_strlit("state");
    reveal_strlit("sqlite");
    reveal_strlit("mgr");
    assert("guard"@.len() == 5 && "guard"@[0] == 'g' && "guard"@[1] == 'u' && "guard"@[2] == 'a'
        && "guard"@[3] == 'r' && "guard"@[4] == 'd');
    assert("hspool"@.len() == 6 && "hspool"@[0] == 'h' && "hspool"@[1] == 's'
        && "hspool"@[2] == 'p' && "hspool"@[3] == 'o' && "hspool"@[4] == 'o'
        && "hspool"@[5] == 'l');
    assert("reactor"@.len() == 7 && "reactor"@[0] == 'r' && "reactor"@[1] == 'e'
        && "reactor"@[2] == 'a' && "reactor"@[3] == 'c' && "reactor"@[4] == 't'
        && "reactor"@[5] == 'o' && "reactor"@[6] == 'r');
    assert("bootstrap"@.len() == 9 && "bootstrap"@[0] == 'b' && "bootstrap"@[1] == 'o'
        && "bootstrap"@[2] == 'o' && "bootstrap"@[3] == 't' && "bootstrap"@[4] == 's'
        && "bootstrap"@[5] == 't' && "bootstrap"@[6] == 'r' && "bootstrap"@[7] == 'a'
        && "bootstrap"@[8] == 'p');
    assert("lib"@.len() == 3 && "lib"@[0] == 'l' && "lib"@[1] == 'i' && "lib"@[2] == 'b');
    assert("state"@.len() == 5 && "state"@[0] == 's' && "state"@[1] == 't' && "state"@[2] == 'a'
        && "state"@[3] == 't' && "state"@[4] == 'e');
    assert("sqlite"@.len() == 6 && "sqlite"@[0] == 's' && "sqlite"@[1] == 'q'
        && "sqlite"@[2] == 'l' && "sqlite"@[3] == 'i' && "sqlite"@[4] == 't'
        && "sqlite"@[5] == 'e');
    assert("mgr"@.len() == 3 && "mgr"@[0] == 'm' && "mgr"@[1] == 'g' && "mgr"@[2] == 'r');
    reveal_strlit("unknown vanguard mode");
    reveal_strlit("Problem with certificate received from");
    reveal_strlit("Discarding certificates");
    reveal_strlit("Received microdescriptor");
    reveal_strlit("Removing unreferenced file");
    assert(("unknown vanguard mode"@ + rest).take(21) =~= "unknown vanguard mode"@);
    assert(("Problem with certificate received from"@ + rest).take(38) =~= "Problem with certificate received from"@);
    assert(("Discarding certificates"@ + rest).take(23) =~= "Discarding certificates"@);
    assert(("Received microdescriptor"@ + rest).take(24) =~= "Received microdescriptor"@);
    assert(("Removing unreferenced file"@ + rest).take(26) =~= "Removing unreferenced file"@);
    lemma_tor_beginnings(rest);
}

proof fn lemma_tor_beginnings(rest: Seq<char>)
    ensures
        "unknown vanguard mode"@ + rest
            != "Too many preemptive onion service circuits failed; waiting a while."@,
        !text::begins("Discarding certificates"@ + rest, "Problem with certificate received from"@),
        !text::begins("Received microdescriptor"@ + rest, "Problem with certificate received from"@),
        !text::begins("Received microdescriptor"@ + rest, "Discarding certificates"@),
        !text::begins(
            "Found a mismatched microdescriptor in cache; ignoring"@,
            "Problem with certificate received from"@,
        ),
        !text::begins(
            "Found a mismatched microdescriptor in cache; ignoring"@,
            "Discarding certificates"@,
        ),
        !text::begins(
            "Found a mismatched microdescriptor in cache; ignoring"@,
            "Received microdescriptor"@,
        ),
        "Got a new NetDir, but it's older than the one we currently have!"@
            != "Bootstrapping task exited before finishing."@,
        "Reached circuit build retry limit, exiting..."@
            != "All tunnel attempts failed due to timeout"@,
        "Request failed"@ != "All tunnel attempts failed due to timeout"@,
        "Request failed"@ != "Reached circuit build retry limit, exiting..."@,
{
    reveal_strlit("unknown vanguard mode");
    reveal_strlit("Too many preemptive onion service circuits failed; waiting a while.");
    reveal_strlit("Problem with certificate received from");
    reveal_strlit("Discarding certificates");
    reveal_strlit("Received microdescriptor");
    reveal_strlit("Found a mismatched microdescriptor in cache; ignoring");
    reveal_strlit("Got a new NetDir, but it's older than the one we currently have!");
    reveal_strlit("Bootstrapping task exited before finishing.");
    reveal_strlit("Reached circuit build retry limit, exiting...");
    reveal_strlit("All tunnel attempts failed due to timeout");
    reveal_strlit("Request failed");
    let p = "Problem with certificate received from"@;
    let d = "Discarding certificates"@;
    let r = "Received microdescriptor"@;
    let f = "Found a mismatched microdescriptor in cache; ignoring"@;
    assert(("unknown vanguard mode"@ + rest)[0] == 'u');
    assert("Too many preemptive onion service circuits failed; waiting a while."@[0] == 'T');
    assert(p[0] == 'P' && d[0] == 'D' && r[0] == 'R' && f[0] == 'F');
    assert((d + rest)[0] == 'D' && (r + rest)[0] == 'R');
    if text::begins(d + rest, p) {
        assert((d + rest).take(p.len() as int)[0] == 'P');
    }
    if text::begins(r + rest, p) {
        assert((r + rest).take(p.len() as int)[0] == 'P');
    }
    if text::begins(r + rest, d) {
        assert((r + rest).take(d.len() as int)[0] == 'D');
    }
    if text::begins(f, p) {
        assert(f.take(p.len() as int)[0] == 'P');
    }
    if text::begins(f, d) {
        assert(f.take(d.len() as int)[0] == 'D');
    }
    if text::begins(f, r) {
        assert(f.take(r.len() as int)[0] == 'R');
    }
    assert("Got a new NetDir, but it's older than the one we currently have!"@[0] == 'G');
    assert("Bootstrapping task exited before finishing."@[0] == 'B');
    assert("Reached circuit build retry limit, exiting..."@[2] == 'a');
    assert("All tunnel attempts failed due to timeout"@[0] == 'A');
    assert("Request failed"@[0] == 'R' && "Request failed"@[2] == 'q');
}

/// A failure rate is the number before the first percent sign, up to the space before it.
pub proof fn law_rates_stand_before_the_percent_sign(
    before: Seq<char>,
    number: Seq<char>,
    after: Seq<char>,
)
    requires
        !before.contains('%'),
        !number.contains('%'),
        !number.contains(' '),
    ensures
        percent_of(before + " "@ + number + "%"@ + after) == Some(number + "%"@),
{
    reveal_strlit(" ");
    reveal_strlit("%");
    let s = before + " "@ + number + "%"@ + after;
    let n = before.len() as int;
    let m = n + 1 + number.len();
    let pc = "%"@;
    let sp = " "@;
    assert(pc.len() == 1 && pc[0] == '%' && sp.len() == 1 && sp[0] == ' ');
    assert(text::occurs_at(s, pc, m)) by {
        assert(s.subrange(m, m + 1) =~= pc);
    }
    scan::law_first_is_found(s, pc, 0);
    assert(scan::index_from(s, pc, 0) is Some);
    let i = scan::index_from(s, pc, 0)->Some_0;
    if i < m {
        assert(s.subrange(i, i + 1)[0] == '%');
        assert(s[i] == '%');
        if i < n {
            assert(before.contains(before[i]));
        } else if i > n {
            assert(number.contains(number[i - n - 1]));
        }
    }
    assert(i == m);
    scan::law_last_is_found(s, sp, m);
    assert(text::occurs_at(s, sp, n)) by {
        assert(s.subrange(n, n + 1) =~= sp);
    }
    assert(scan::index_before(s, sp, m) is Some);
    let j = scan::index_before(s, sp, m)->Some_0;
    if j > n {
        assert(s.subrange(j, j + 1)[0] == ' ');
        assert(s[j] == ' ');
        assert(number.contains(number[j - n - 1]));
    }
    assert(j == n);
    assert(s.subrange(n + 1, m) =~= number);
}

/// A field is kept under its name with its value made plain, unless it is hidden; the
/// message is no field, and an empty one changes nothing.
pub proof fn law_fields_are_recorded(
    event: LogEventView,
    name: Seq<char>,
    value: Seq<char>,
    reading: Option<SecondsReadingView>,
)
    ensures
        ({
            let clean = values::shown_value(name, values::plain(text::trimmed(value)), reading);
            let after = event.recording(name, value, reading);
            let count = event.fields.len() as int;
            &&& name == "message"@ ==> after.fields == event.fields
            &&& name == "message"@ && clean.len() > 0 ==> after.message == Some(clean)
            &&& name == "message"@ && clean.len() == 0 ==> after == event
            &&& name != "message"@ ==> after.message == event.message
            &&& name != "message"@ && values::is_hidden(name, clean) ==> after == event
            &&& name != "message"@ && !values::is_hidden(name, clean) ==> after.fields.len()
                == count + 1 && after.fields[count].0 == name && after.fields[count].1 == clean
                && after.fields.take(count) == event.fields
        }),
{
    let clean = values::shown_value(name, values::plain(text::trimmed(value)), reading);
    assert(event.fields.push((name, clean)).take(event.fields.len() as int) =~= event.fields);
}

/// How often the client failed to start is told by the number in its message.
pub proof fn law_attempts_are_told_by_their_number(n: u64, rest: Seq<char>)
    ensures
        attempts_of("We failed "@ + numbers::nat_text(n as nat) + " times to bootstrap"@ + rest)
            == Some(numbers::nat_text(n as nat)),
{
    reveal_strlit("We failed ");
    reveal_strlit(" times to bootstrap");
    let head = "We failed "@;
    let mark = " times to bootstrap"@;
    let digits = numbers::nat_text(n as nat);
    let message = head + digits + mark + rest;
    assert(mark.len() == 19 && mark[0] == ' ');
    numbers::lemma_nat_text(n as nat);
    assert(message.take(head.len() as int) =~= head);
    let tail = message.skip(head.len() as int);
    assert(tail =~= digits + mark + rest);
    assert(text::occurs_at(tail, mark, digits.len() as int)) by {
        assert(tail.subrange(digits.len() as int, (digits.len() + mark.len()) as int) =~= mark);
    }
    scan::law_first_is_found(tail, mark, 0);
    assert(scan::index_from(tail, mark, 0) is Some);
    let i = scan::index_from(tail, mark, 0)->Some_0;
    if i < digits.len() {
        assert(tail.subrange(i, i + mark.len())[0] == ' ');
        assert(tail[i] == digits[i]);
        assert(text::is_digit(digits[i]));
    }
    assert(i == digits.len());
    assert(tail.take(i) =~= digits);
    assert(text::is_digit(digits[0]));
}

/// When a connection is tried again is what follows, without the dots at the end.
pub proof fn law_retries_are_told_by_what_follows(
    before: Seq<char>,
    time: Seq<char>,
    dots: Seq<char>,
)
    requires
        !before.contains('R'),
        time.len() == 0 || time.last() != '.',
        forall|i: int| 0 <= i < dots.len() ==> #[trigger] dots[i] == '.',
    ensures
        retry_of(before + "Retrying in "@ + (time + dots)) == Some(time),
        retry_of(before) is None,
{
    reveal_strlit("Retrying in ");
    let mark = "Retrying in "@;
    assert(mark.len() == 12 && mark[0] == 'R');
    let s = before + mark + (time + dots);
    assert(text::occurs_at(s, mark, before.len() as int)) by {
        assert(s.subrange(before.len() as int, (before.len() + mark.len()) as int) =~= mark);
    }
    scan::law_first_is_found(s, mark, 0);
    assert(scan::index_from(s, mark, 0) is Some);
    let i = scan::index_from(s, mark, 0)->Some_0;
    if i < before.len() {
        assert(s.subrange(i, i + mark.len())[0] == 'R');
        assert(before.contains(before[i]));
    }
    assert(s.skip(i + mark.len()) =~= time + dots);
    scan::law_dots_at_the_end_are_dropped(time, dots);
    scan::law_first_is_found(before, mark, 0);
    if scan::index_from(before, mark, 0) is Some {
        let j = scan::index_from(before, mark, 0)->Some_0;
        assert(before.subrange(j, j + mark.len())[0] == 'R');
        assert(before.contains(before[j]));
    }
}

/// Events are left out exactly when the pool of onion-service circuits says that its
/// circuits are failing.
pub proof fn law_only_failing_circuits_are_left_out(path: Seq<char>, event: LogEventView)
    ensures
        event.message == Some(
            "Tor onion-service circuits are failing; waiting before retrying"@,
        ) ==> is_suppressed(path + "::hspool"@, event) && is_suppressed("hspool"@, event),
        event.message is None ==> !is_suppressed(path, event),
        event.message is Some && event.message->Some_0
            != "Tor onion-service circuits are failing; waiting before retrying"@ ==> !is_suppressed(
            path,
            event,
        ),
        !path.contains(':') && path != "hspool"@ ==> !is_suppressed(path, event),
{
    reveal_strlit("hspool");
    reveal_strlit("::hspool");
    reveal_strlit("::");
    reveal_strlit("mod");
    assert("hspool"@.len() == 6 && "mod"@.len() == 3);
    assert(path + "::"@ + "hspool"@ =~= path + "::hspool"@);
    names::law_components_are_last_names(path, "hspool"@);
    if !path.contains(':') {
        names::law_components_are_last_names(path, path);
    }
}

proof fn lemma_said(event: LogEventView, p: Seq<char>)
    requires
        event.message is Some,
        text::lower(p) == p,
        text::occurs(event.message->Some_0, p),
    ensures
        text::occurs(event_words(event), p),
{
    let m = event.message->Some_0;
    let i = choose|i: int| text::occurs_at(m, p, i);
    let said = event_words(event);
    assert(said.subrange(i, i + p.len()) =~= p) by {
        assert forall|k: int| 0 <= k < p.len() implies said[i + k] == p[k] by {
            assert(m.subrange(i, i + p.len())[k] == p[k]);
            assert(text::lower(p)[k] == text::lower_char(p[k]));
            assert(text::lower(m)[i + k] == text::lower_char(m[i + k]));
        }
    }
    assert(text::occurs_at(said, p, i));
}

proof fn lemma_unsaid(event: LogEventView, p: Seq<char>, k: int)
    requires
        0 <= k < p.len(),
        'a' <= p[k] <= 'z',
        event.fields.len() == 0,
        event.message is Some,
        forall|i: int|
            0 <= i < event.message->Some_0.len() ==> text::lower_char(
                #[trigger] event.message->Some_0[i],
            ) != p[k],
    ensures
        !text::occurs(event_words(event), p),
{
    reveal_strlit(" ");
    let said = event_words(event);
    let m = event.message->Some_0;
    assert(field_values(event.fields) =~= Seq::<Seq<char>>::empty());
    assert(text::lower(text::joined(field_values(event.fields), " "@)).len() == 0);
    if text::occurs(said, p) {
        let i = choose|i: int| text::occurs_at(said, p, i);
        assert(said.subrange(i, i + p.len())[k] == p[k]);
        if i + k < m.len() {
            assert(said[i + k] == text::lower_char(m[i + k]));
        } else {
            assert(said[i + k] == ' ');
        }
    }
}

proof fn lemma_phrases()
    ensures
        text::lower("descriptor"@) == "descriptor"@,
        text::lower("failed to upload descriptor"@) == "failed to upload descriptor"@,
        text::lower("unable to upload"@) == "unable to upload"@,
        text::lower("descriptor upload"@) == "descriptor upload"@,
        text::lower("timeout exceeded"@) == "timeout exceeded"@,
        text::lower("timed out"@) == "timed out"@,
        text::lower("network timeout"@) == "network timeout"@,
{
    reveal_strlit("descriptor");
    reveal_strlit("failed to upload descriptor");
    reveal_strlit("unable to upload");
    reveal_strlit("descriptor upload");
    reveal_strlit("timeout exceeded");
    reveal_strlit("timed out");
    reveal_strlit("network timeout");
    assert("descriptor"@.len() == 10 && "descriptor"@[0] == 'd' && "descriptor"@[1] == 'e'
        && "descriptor"@[2] == 's' && "descriptor"@[3] == 'c' && "descriptor"@[4] == 'r'
        && "descriptor"@[5] == 'i' && "descriptor"@[6] == 'p' && "descriptor"@[7] == 't'
        && "descriptor"@[8] == 'o' && "descriptor"@[9] == 'r');
    assert("failed to upload descriptor"@.len() == 27
        && "failed to upload descriptor"@[0] == 'f' && "failed to upload descriptor"@[1] == 'a'
        && "failed to upload descriptor"@[2] == 'i' && "failed to upload descriptor"@[3] == 'l'
        && "failed to upload descriptor"@[4] == 'e' && "failed to upload descriptor"@[5] == 'd'
        && "failed to upload descriptor"@[6] == ' ' && "failed to upload descriptor"@[7] == 't'
        && "failed to upload descriptor"@[8] == 'o' && "failed to upload descriptor"@[9] == ' '
        && "failed to upload descriptor"@[10] == 'u'
        && "failed to upload descriptor"@[11] == 'p'
        && "failed to upload descriptor"@[12] == 'l'
        && "failed to upload descriptor"@[13] == 'o'
        && "failed to upload descriptor"@[14] == 'a'
        && "failed to upload descriptor"@[15] == 'd'
        && "failed to upload descriptor"@[16] == ' '
        && "failed to upload descriptor"@[17] == 'd'
        && "failed to upload descriptor"@[18] == 'e'
        && "failed to upload descriptor"@[19] == 's'
        && "failed to upload descriptor"@[20] == 'c'
        && "failed to upload descriptor"@[21] == 'r'
        && "failed to upload descriptor"@[22] == 'i'
        && "failed to upload descriptor"@[23] == 'p'
        && "failed to upload descriptor"@[24] == 't'
        && "failed to upload descriptor"@[25] == 'o'
        && "failed to upload descriptor"@[26] == 'r');
    assert("unable to upload"@.len() == 16 && "unable to upload"@[0] == 'u'
        && "unable to upload"@[1] == 'n' && "unable to upload"@[2] == 'a'
        && "unable to upload"@[3] == 'b' && "unable to upload"@[4] == 'l'
        && "unable to upload"@[5] == 'e' && "unable to upload"@[6] == ' '
        && "unable to upload"@[7] == 't' && "unable to upload"@[8] == 'o'
        && "unable to upload"@[9] == ' ' && "unable to upload"@[10] == 'u'
        && "unable to upload"@[11] == 'p' && "unable to upload"@[12] == 'l'
        && "unable to upload"@[13] == 'o' && "unable to upload"@[14] == 'a'
        && "unable to upload"@[15] == 'd');
    assert("descriptor upload"@.len() == 17 && "descriptor upload"@[0] == 'd'
        && "descriptor upload"@[1] == 'e' && "descriptor upload"@[2] == 's'
        && "descriptor upload"@[3] == 'c' && "descriptor upload"@[4] == 'r'
        && "descriptor upload"@[5] == 'i' && "descriptor upload"@[6] == 'p'
        && "descriptor upload"@[7] == 't' && "descriptor upload"@[8] == 'o'
        && "descriptor upload"@[9] == 'r' && "descriptor upload"@[10] == ' '
        && "descriptor upload"@[11] == 'u' && "descriptor upload"@[12] == 'p'
        && "descriptor upload"@[13] == 'l' && "descriptor upload"@[14] == 'o'
        && "descriptor upload"@[15] == 'a' && "descriptor upload"@[16] == 'd');
    assert("timeout exceeded"@.len() == 16 && "timeout exceeded"@[0] == 't'
        && "timeout exceeded"@[1] == 'i' && "timeout exceeded"@[2] == 'm'
        && "timeout exceeded"@[3] == 'e' && "timeout exceeded"@[4] == 'o'
        && "timeout exceeded"@[5] == 'u' && "timeout exceeded"@[6] == 't'
        && "timeout exceeded"@[7] == ' ' && "timeout exceeded"@[8] == 'e'
        && "timeout exceeded"@[9] == 'x' && "timeout exceeded"@[10] == 'c'
        && "timeout exceeded"@[11] == 'e' && "timeout exceeded"@[12] == 'e'
        && "timeout exceeded"@[13] == 'd' && "timeout exceeded"@[14] == 'e'
        && "timeout exceeded"@[15] == 'd');
    assert("timed out"@.len() == 9 && "timed out"@[0] == 't' && "timed out"@[1] == 'i'
        && "timed out"@[2] == 'm' && "timed out"@[3] == 'e' && "timed out"@[4] == 'd'
        && "timed out"@[5] == ' ' && "timed out"@[6] == 'o' && "timed out"@[7] == 'u'
        && "timed out"@[8] == 't');
    assert("network timeout"@.len() == 15 && "network timeout"@[0] == 'n'
        && "network timeout"@[1] == 'e' && "network timeout"@[2] == 't'
        && "network timeout"@[3] == 'w' && "network timeout"@[4] == 'o'
        && "network timeout"@[5] == 'r' && "network timeout"@[6] == 'k'
        && "network timeout"@[7] == ' ' && "network timeout"@[8] == 't'
        && "network timeout"@[9] == 'i' && "network timeout"@[10] == 'm'
        && "network timeout"@[11] == 'e' && "network timeout"@[12] == 'o'
        && "network timeout"@[13] == 'u' && "network timeout"@[14] == 't');
    assert(text::lower("descriptor"@) =~= "descriptor"@);
    assert(text::lower("failed to upload descriptor"@) =~= "failed to upload descriptor"@);
    assert(text::lower("unable to upload"@) =~= "unable to upload"@);
    assert(text::lower("descriptor upload"@) =~= "descriptor upload"@);
    assert(text::lower("timeout exceeded"@) =~= "timeout exceeded"@);
    assert(text::lower("timed out"@) =~= "timed out"@);
    assert(text::lower("network timeout"@) =~= "network timeout"@);
}

/// A message of the client that speaks of a descriptor, of its upload and of a timeout says
/// that a descriptor was not uploaded in time.
pub proof fn law_late_descriptors_are_told_by_their_words(target: Seq<char>, event: LogEventView)
    requires
        event.message is Some,
        text::occurs(event.message->Some_0, "descriptor"@),
        text::occurs(event.message->Some_0, "failed to upload descriptor"@) || text::occurs(
            event.message->Some_0,
            "unable to upload"@,
        ) || text::occurs(event.message->Some_0, "descriptor upload"@),
        text::occurs(event.message->Some_0, "timeout exceeded"@) || text::occurs(
            event.message->Some_0,
            "timed out"@,
        ) || text::occurs(event.message->Some_0, "network timeout"@),
    ensures
        is_descriptor_timeout(target, event) <==> names::is_tor(target),
{
    lemma_phrases();
    lemma_said(event, "descriptor"@);
    if text::occurs(event.message->Some_0, "failed to upload descriptor"@) {
        lemma_said(event, "failed to upload descriptor"@);
    }
    if text::occurs(event.message->Some_0, "unable to upload"@) {
        lemma_said(event, "unable to upload"@);
    }
    if text::occurs(event.message->Some_0, "descriptor upload"@) {
        lemma_said(event, "descriptor upload"@);
    }
    if text::occurs(event.message->Some_0, "timeout exceeded"@) {
        lemma_said(event, "timeout exceeded"@);
    }
    if text::occurs(event.message->Some_0, "timed out"@) {
        lemma_said(event, "timed out"@);
    }
    if text::occurs(event.message->Some_0, "network timeout"@) {
        lemma_said(event, "network timeout"@);
    }
}

/// A message that lacks a letter of "descriptor", of an upload or of a timeout, and an event
/// without words, says no such thing.
pub proof fn law_other_messages_are_no_late_descriptors(target: Seq<char>, event: LogEventView)
    requires
        event.fields.len() == 0,
        event.message is Some,
        ({
            let m = event.message->Some_0;
            ||| forall|i: int| 0 <= i < m.len() ==> #[trigger] m[i] != 'c' && m[i] != 'C'
            ||| forall|i: int| 0 <= i < m.len() ==> #[trigger] m[i] != 'u' && m[i] != 'U'
            ||| forall|i: int| 0 <= i < m.len() ==> #[trigger] m[i] != 'm' && m[i] != 'M'
        }),
    ensures
        !is_descriptor_timeout(target, event),
{
    reveal_strlit("descriptor");
    reveal_strlit("failed to upload descriptor");
    reveal_strlit("unable to upload");
    reveal_strlit("descriptor upload");
    reveal_strlit("timeout exceeded");
    reveal_strlit("timed out");
    reveal_strlit("network timeout");
    assert("descriptor"@.len() == 10 && "descriptor"@[0] == 'd' && "descriptor"@[1] == 'e'
        && "descriptor"@[2] == 's' && "descriptor"@[3] == 'c' && "descriptor"@[4] == 'r'
        && "descriptor"@[5] == 'i' && "descriptor"@[6] == 'p' && "descriptor"@[7] == 't'
        && "descriptor"@[8] == 'o' && "descriptor"@[9] == 'r');
    assert("failed to upload descriptor"@.len() == 27
        && "failed to upload descriptor"@[0] == 'f' && "failed to upload descriptor"@[1] == 'a'
        && "failed to upload descriptor"@[2] == 'i' && "failed to upload descriptor"@[3] == 'l'
        && "failed to upload descriptor"@[4] == 'e' && "failed to upload descriptor"@[5] == 'd'
        && "failed to upload descriptor"@[6] == ' ' && "failed to upload descriptor"@[7] == 't'
        && "failed to upload descriptor"@[8] == 'o' && "failed to upload descriptor"@[9] == ' '
        && "failed to upload descriptor"@[10] == 'u'
        && "failed to upload descriptor"@[11] == 'p'
        && "failed to upload descriptor"@[12] == 'l'
        && "failed to upload descriptor"@[13] == 'o'
        && "failed to upload descriptor"@[14] == 'a'
        && "failed to upload descriptor"@[15] == 'd'
        && "failed to upload descriptor"@[16] == ' '
        && "failed to upload descriptor"@[17] == 'd'
        && "failed to upload descriptor"@[18] == 'e'
        && "failed to upload descriptor"@[19] == 's'
        && "failed to upload descriptor"@[20] == 'c'
        && "failed to upload descriptor"@[21] == 'r'
        && "failed to upload descriptor"@[22] == 'i'
        && "failed to upload descriptor"@[23] == 'p'
        && "failed to upload descriptor"@[24] == 't'
        && "failed to upload descriptor"@[25] == 'o'
        && "failed to upload descriptor"@[26] == 'r');
    assert("unable to upload"@.len() == 16 && "unable to upload"@[0] == 'u'
        && "unable to upload"@[1] == 'n' && "unable to upload"@[2] == 'a'
        && "unable to upload"@[3] == 'b' && "unable to upload"@[4] == 'l'
        && "unable to upload"@[5] == 'e' && "unable to upload"@[6] == ' '
        && "unable to upload"@[7] == 't' && "unable to upload"@[8] == 'o'
        && "unable to upload"@[9] == ' ' && "unable to upload"@[10] == 'u'
        && "unable to upload"@[11] == 'p' && "unable to upload"@[12] == 'l'
        && "unable to upload"@[13] == 'o' && "unable to upload"@[14] == 'a'
        && "unable to upload"@[15] == 'd');
    assert("descriptor upload"@.len() == 17 && "descriptor upload"@[0] == 'd'
        && "descriptor upload"@[1] == 'e' && "descriptor upload"@[2] == 's'
        && "descriptor upload"@[3] == 'c' && "descriptor upload"@[4] == 'r'
        && "descriptor upload"@[5] == 'i' && "descriptor upload"@[6] == 'p'
        && "descriptor upload"@[7] == 't' && "descriptor upload"@[8] == 'o'
        && "descriptor upload"@[9] == 'r' && "descriptor upload"@[10] == ' '
        && "descriptor upload"@[11] == 'u' && "descriptor upload"@[12] == 'p'
        && "descriptor upload"@[13] == 'l' && "descriptor upload"@[14] == 'o'
        && "descriptor upload"@[15] == 'a' && "descriptor upload"@[16] == 'd');
    assert("timeout exceeded"@.len() == 16 && "timeout exceeded"@[0] == 't'
        && "timeout exceeded"@[1] == 'i' && "timeout exceeded"@[2] == 'm'
        && "timeout exceeded"@[3] == 'e' && "timeout exceeded"@[4] == 'o'
        && "timeout exceeded"@[5] == 'u' && "timeout exceeded"@[6] == 't'
        && "timeout exceeded"@[7] == ' ' && "timeout exceeded"@[8] == 'e'
        && "timeout exceeded"@[9] == 'x' && "timeout exceeded"@[10] == 'c'
        && "timeout exceeded"@[11] == 'e' && "timeout exceeded"@[12] == 'e'
        && "timeout exceeded"@[13] == 'd' && "timeout exceeded"@[14] == 'e'
        && "timeout exceeded"@[15] == 'd');
    assert("timed out"@.len() == 9 && "timed out"@[0] == 't' && "timed out"@[1] == 'i'
        && "timed out"@[2] == 'm' && "timed out"@[3] == 'e' && "timed out"@[4] == 'd'
        && "timed out"@[5] == ' ' && "timed out"@[6] == 'o' && "timed out"@[7] == 'u'
        && "timed out"@[8] == 't');
    assert("network timeout"@.len() == 15 && "network timeout"@[0] == 'n'
        && "network timeout"@[1] == 'e' && "network timeout"@[2] == 't'
        && "network timeout"@[3] == 'w' && "network timeout"@[4] == 'o'
        && "network timeout"@[5] == 'r' && "network timeout"@[6] == 'k'
        && "network timeout"@[7] == ' ' && "network timeout"@[8] == 't'
        && "network timeout"@[9] == 'i' && "network timeout"@[10] == 'm'
        && "network timeout"@[11] == 'e' && "network timeout"@[12] == 'o'
        && "network timeout"@[13] == 'u' && "network timeout"@[14] == 't');
    let m = event.message->Some_0;
    if forall|i: int| 0 <= i < m.len() ==> #[trigger] m[i] != 'c' && m[i] != 'C' {
        lemma_unsaid(event, "descriptor"@, 3);
    } else if forall|i: int| 0 <= i < m.len() ==> #[trigger] m[i] != 'u' && m[i] != 'U' {
        lemma_unsaid(event, "failed to upload descriptor"@, 10);
        lemma_unsaid(event, "unable to upload"@, 0);
        lemma_unsaid(event, "descriptor upload"@, 11);
    } else {
        lemma_unsaid(event, "timeout exceeded"@, 2);
        lemma_unsaid(event, "timed out"@, 2);
        lemma_unsaid(event, "network timeout"@, 10);
    }
}

} // verus!
