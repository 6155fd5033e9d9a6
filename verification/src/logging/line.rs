//! The lines of the log.

use vstd::prelude::*;
use vstd::string::*;
use crate::logging::events::{LogEventFields, LogEventView};
use crate::logging::names;
use crate::logging::names::{display_component, humanize_field_name, is_external_source};
use crate::numbers;
use crate::numbers::decimal_u64;
use crate::text;
use crate::text::{chars_of, concat, starts_with, text_of};

verus! {

/// How serious an event is.
#[derive(Debug, Clone, Copy, PartialEq, Eq, Structural)]
pub enum LogLevel {
    /// Something failed.
    Error,
    /// Something may be wrong.
    Warn,
    /// Something happened.
    Info,
    /// For those who look for a fault.
    Debug,
    /// For those who look at every step.
    Trace,
}

impl LogLevel {
    /// The tag of the level.
    pub open spec fn tag(self) -> Seq<char> {
        match self {
            LogLevel::Error => "[ERROR]"@,
            LogLevel::Warn => "[WARN ]"@,
            LogLevel::Info => "[INFO ]"@,
            LogLevel::Debug => "[DEBUG]"@,
            LogLevel::Trace => "[TRACE]"@,
        }
    }

    /// What a terminal needs to show the level in its colour; nothing for most events.
    pub open spec fn colour(self) -> Seq<char> {
        match self {
            LogLevel::Error => "\x1b[1;31m"@,
            LogLevel::Warn => "\x1b[33m"@,
            LogLevel::Info => ""@,
            LogLevel::Debug => "\x1b[2m"@,
            LogLevel::Trace => "\x1b[2m"@,
        }
    }

    /// The tag of the level.
    fn tag_text(self) -> (r: &'static str)
        ensures
            r@ == self.tag(),
    {
        match self {
            LogLevel::Error => "[ERROR]",
            LogLevel::Warn => "[WARN ]",
            LogLevel::Info => "[INFO ]",
            LogLevel::Debug => "[DEBUG]",
            LogLevel::Trace => "[TRACE]",
        }
    }

    /// What a terminal needs to show the level in its colour.
    fn colour_text(self) -> (r: &'static str)
        ensures
            r@ == self.colour(),
    {
        match self {
            LogLevel::Error => "\x1b[1;31m",
            LogLevel::Warn => "\x1b[33m",
            LogLevel::Info => "",
            LogLevel::Debug => "\x1b[2m",
            LogLevel::Trace => "\x1b[2m",
        }
    }
}

/// The column of the level. `ansi` says whether colours are shown.
pub open spec fn level_column(level: LogLevel, ansi: bool) -> Seq<char> {
    if ansi && !(level is Info) {
        level.colour() + level.tag() + "\x1b[0m"@ + " "@
    } else {
        level.tag() + " "@
    }
}

/// The column of the level.
pub fn level_tag(level: LogLevel, ansi: bool) -> (r: String)
    ensures
        r@ == level_column(level, ansi),
{
    let plain = match level {
        LogLevel::Info => true,
        _ => !ansi,
    };
    if plain {
        concat(level.tag_text(), " ")
    } else {
        let mut r = concat(level.colour_text(), level.tag_text());
        r.append("\x1b[0m");
        r.append(" ");
        r
    }
}

/// A text cut or filled up with blanks to eight characters.
pub open spec fn eight_wide(s: Seq<char>) -> Seq<char> {
    Seq::new(
        8,
        |i: int|
            if i < s.len() {
                s[i]
            } else {
                ' '
            },
    )
}

/// Cuts a text or fills it up with blanks to eight characters.
fn fit_eight(s: &str) -> (r: String)
    ensures
        r@ == eight_wide(s@),
{
    let a = chars_of(s);
    let mut r = String::new();
    let mut i: usize = 0;
    while i < 8
        invariant
            i <= 8,
            a@ == s@,
            r@ == eight_wide(s@).take(i as int),
        decreases 8 - i,
    {
        if i < a.len() {
            r.push(a[i]);
        } else {
            r.push(' ');
        }
        assert(eight_wide(s@).take(i as int + 1) =~= eight_wide(s@).take(i as int).push(
            eight_wide(s@)[i as int],
        ));
        i = i + 1;
    }
    assert(eight_wide(s@).take(8) =~= eight_wide(s@));
    r
}

/// The column of the component.
pub open spec fn component_column(target: Seq<char>, ansi: bool) -> Seq<char> {
    let inner = "["@ + eight_wide(names::shown_component(target)) + "]"@;
    if ansi {
        "\x1b[36m"@ + inner + "\x1b[0m"@ + " "@
    } else {
        inner + " "@
    }
}

/// The column of the component.
pub fn component_tag(target: &str, ansi: bool) -> (r: String)
    ensures
        r@ == component_column(target@, ansi),
{
    let component = display_component(target);
    let fitted = fit_eight(component.as_str());
    let mut inner = concat("[", fitted.as_str());
    inner.append("]");
    if ansi {
        let mut r = concat("\x1b[36m", inner.as_str());
        r.append("\x1b[0m");
        r.append(" ");
        r
    } else {
        inner.append(" ");
        inner
    }
}

/// The fields of an event, one after the other.
pub open spec fn fields_text(fields: Seq<(Seq<char>, Seq<char>)>) -> Seq<char>
    decreases fields.len(),
{
    if fields.len() == 0 {
        Seq::empty()
    } else {
        let field = fields.last();
        let shown = names::shown_field(field.0) + ": "@ + field.1;
        if fields.len() == 1 {
            shown
        } else {
            fields_text(fields.drop_last()) + ", "@ + shown
        }
    }
}

/// The message of an event and its fields.
pub open spec fn event_text(event: LogEventView) -> Seq<char> {
    match event.message {
        Some(message) => if event.fields.len() > 0 {
            message + " - "@ + fields_text(event.fields)
        } else {
            message
        },
        None => fields_text(event.fields),
    }
}

/// The message of an event and its fields.
pub fn event_line(event: &LogEventFields) -> (r: String)
    ensures
        r@ == event_text(event@),
{
    let ghost all = text::views(event.fields@);
    let mut shown = String::new();
    let mut i: usize = 0;
    assert(all.take(0) =~= Seq::<(Seq<char>, Seq<char>)>::empty());
    assert(shown@ =~= Seq::<char>::empty());
    while i < event.fields.len()
        invariant
            i <= event.fields@.len(),
            all == text::views(event.fields@),
            shown@ == fields_text(all.take(i as int)),
        decreases event.fields@.len() - i,
    {
        let ghost next = all.take(i as int + 1);
        assert(next.drop_last() =~= all.take(i as int));
        assert(next.last() == event.fields@[i as int]@);
        let ghost before = shown@;
        if i > 0 {
            shown.append(", ");
        }
        let name = humanize_field_name(event.fields[i].0.as_str());
        let mut field = concat(name.as_str(), ": ");
        field.append(event.fields[i].1.as_str());
        shown.append(field.as_str());
        assert(shown@ =~= fields_text(next));
        i = i + 1;
    }
    assert(all.take(all.len() as int) =~= all);
    match &event.message {
        Some(message) => {
            let mut r = message.clone();
            if event.fields.len() > 0 {
                r.append(" - ");
                r.append(shown.as_str());
            }
            r
        },
        None => shown,
    }
}

/// Where an event comes from, as the log file tells it: for warnings and errors of the
/// server itself.
pub open spec fn source_text(level: LogLevel, file: Option<Seq<char>>, line: Option<u32>) -> Seq<
    char,
> {
    if (level is Error || level is Warn) && file is Some && line is Some && !names::is_external(
        file->Some_0,
    ) {
        let short = if text::begins(file->Some_0, "src/"@) {
            file->Some_0.skip("src/"@.len() as int)
        } else {
            file->Some_0
        };
        "  ("@ + short + ":"@ + numbers::nat_text(line->Some_0 as nat) + ")"@
    } else {
        Seq::empty()
    }
}

/// Where an event comes from, as the log file tells it.
pub fn source_suffix(level: LogLevel, file: Option<&str>, line: Option<u32>) -> (r: String)
    ensures
        r@ == source_text(level, text::opt_str(file), line),
{
    let serious = match level {
        LogLevel::Error | LogLevel::Warn => true,
        _ => false,
    };
    let none = String::new();
    assert(none@ =~= Seq::<char>::empty());
    if !serious {
        return none;
    }
    match (file, line) {
        (Some(path), Some(number)) => {
            if is_external_source(path) {
                return none;
            }
            let short = if starts_with(path, "src/") {
                let a = chars_of(path);
                let head = chars_of("src/");
                let n: usize = a.len();
                assert(a@.subrange(head@.len() as int, n as int) =~= a@.skip(head@.len() as int));
                text_of(&a, head.len(), n)
            } else {
                path.to_owned()
            };
            let mut r = concat("  (", short.as_str());
            r.append(":");
            let digits = decimal_u64(number as u64);
            r.append(digits.as_str());
            r.append(")");
            r
        },
        _ => none,
    }
}

/// Messages start in the same column of every line without colours: the columns before
/// them have a fixed width.
pub proof fn law_columns_are_fixed(level: LogLevel, target: Seq<char>)
    ensures
        level_column(level, false).len() == 8,
        component_column(target, false).len() == 11,
{
    reveal_strlit("[ERROR]");
    reveal_strlit("[WARN ]");
    reveal_strlit("[INFO ]");
    reveal_strlit("[DEBUG]");
    reveal_strlit("[TRACE]");
    reveal_strlit(" ");
    reveal_strlit("[");
    reveal_strlit("]");
}

/// Each level has its tag, of one width; only where colours are wanted is it coloured, and
/// ordinary lines never are.
pub proof fn law_levels_are_tagged(level: LogLevel)
    ensures
        LogLevel::Error.tag() == "[ERROR]"@,
        LogLevel::Warn.tag() == "[WARN ]"@,
        LogLevel::Info.tag() == "[INFO ]"@,
        LogLevel::Debug.tag() == "[DEBUG]"@,
        LogLevel::Trace.tag() == "[TRACE]"@,
        level_column(level, false) == level.tag() + " "@,
        level_column(LogLevel::Info, true) == LogLevel::Info.tag() + " "@,
        !(level is Info) ==> level_column(level, true).len() > level_column(level, false).len(),
{
    reveal_strlit("\x1b[0m");
    reveal_strlit(" ");
}

/// A component is shown in eight characters: cut where it is longer, and filled up with
/// spaces where it is shorter.
pub proof fn law_components_are_cut_or_filled(s: Seq<char>, i: int)
    requires
        0 <= i < 8,
    ensures
        eight_wide(s).len() == 8,
        i < s.len() ==> eight_wide(s)[i] == s[i],
        i >= s.len() ==> eight_wide(s)[i] == ' ',
{
}

/// A line says the message and, behind a dash, its fields, each under its shown name, with
/// commas between them; what has no message is its fields alone.
pub proof fn law_lines_say_message_and_fields(
    message: Seq<char>,
    fields: Seq<(Seq<char>, Seq<char>)>,
    name: Seq<char>,
    value: Seq<char>,
)
    ensures
        event_text(LogEventView { message: Some(message), fields: Seq::empty() }) == message,
        fields.len() > 0 ==> event_text(LogEventView { message: Some(message), fields }) == message
            + " - "@ + fields_text(fields),
        event_text(LogEventView { message: None, fields }) == fields_text(fields),
        fields_text(seq![(name, value)]) == names::shown_field(name) + ": "@ + value,
        fields.len() > 0 ==> fields_text(fields.push((name, value))) == fields_text(fields)
            + ", "@ + (names::shown_field(name) + ": "@ + value),
{
    assert(fields.push((name, value)).drop_last() =~= fields);
    assert(fields.push((name, value)).last() == (name, value));
    assert(seq![(name, value)].last() == (name, value));
}

/// Where a line comes from is told for warnings and errors of the project's own code, without
/// the directory of its sources, and for nothing else.
pub proof fn law_sources_are_told_for_problems(
    level: LogLevel,
    rest: Seq<char>,
    file: Seq<char>,
    line: u32,
)
    ensures
        (level is Error || level is Warn) && !names::is_external("src/"@ + rest) ==> source_text(
            level,
            Some("src/"@ + rest),
            Some(line),
        ) == "  ("@ + rest + ":"@ + numbers::nat_text(line as nat) + ")"@,
        !(level is Error) && !(level is Warn) ==> source_text(level, Some(file), Some(line)).len()
            == 0,
        names::is_external(file) ==> source_text(level, Some(file), Some(line)).len() == 0,
        source_text(level, None, Some(line)).len() == 0,
        source_text(level, Some(file), None).len() == 0,
{
    reveal_strlit("src/");
    let whole = "src/"@ + rest;
    assert(whole.take(4) =~= "src/"@);
    assert(whole.skip(4) =~= rest);
}

/// Where colours are shown, an error stands in bold red, a warning in yellow, what is for
/// those who look for faults is dimmed, and the usual is as plain as without colours.
pub proof fn law_levels_are_shown_in_their_colour(level: LogLevel)
    ensures
        level is Error ==> level_column(level, true) == "\x1b[1;31m"@ + "[ERROR]"@ + "\x1b[0m"@
            + " "@,
        level is Warn ==> level_column(level, true) == "\x1b[33m"@ + "[WARN ]"@ + "\x1b[0m"@
            + " "@,
        level is Debug ==> level_column(level, true) == "\x1b[2m"@ + "[DEBUG]"@ + "\x1b[0m"@
            + " "@,
        level is Trace ==> level_column(level, true) == "\x1b[2m"@ + "[TRACE]"@ + "\x1b[0m"@
            + " "@,
        level is Info ==> level_column(level, true) == "[INFO ]"@ + " "@,
        level is Error ==> level_column(level, false) == "[ERROR]"@ + " "@,
        level is Warn ==> level_column(level, false) == "[WARN ]"@ + " "@,
        level is Info ==> level_column(level, false) == "[INFO ]"@ + " "@,
        level is Debug ==> level_column(level, false) == "[DEBUG]"@ + " "@,
        level is Trace ==> level_column(level, false) == "[TRACE]"@ + " "@,
{
}

} // verus!
