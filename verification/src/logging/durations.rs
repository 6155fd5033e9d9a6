//! Durations in plain words.

use vstd::prelude::*;
use vstd::string::*;
use crate::logging::scan;
use crate::logging::scan::{holds_space, strip_dots, words};
use crate::numbers;
use crate::numbers::{decimal_u128, read_digits};
use crate::text;
use crate::text::{chars_of, concat, ends_with, starts_with, str_eq, text_of, trim};

verus! {

/// A number of seconds as it is to be told.
#[derive(Debug)]
pub enum SecondsReading {
    /// A minute or more, rounded to whole seconds.
    Minutes(u64),
    /// Ten seconds or more, but less than a minute, rounded to whole seconds.
    Seconds(u64),
    /// Less than ten seconds, written with one decimal.
    Tenths(String),
}

/// The model of a reading.
#[verifier::ext_equal]
pub enum SecondsReadingView {
    /// A minute or more.
    Minutes(u64),
    /// Ten seconds or more.
    Seconds(u64),
    /// Less than ten seconds.
    Tenths(Seq<char>),
}

impl View for SecondsReading {
    type V = SecondsReadingView;

    open spec fn view(&self) -> SecondsReadingView {
        match self {
            SecondsReading::Minutes(n) => SecondsReadingView::Minutes(*n),
            SecondsReading::Seconds(n) => SecondsReadingView::Seconds(*n),
            SecondsReading::Tenths(t) => SecondsReadingView::Tenths(t@),
        }
    }
}

/// The model of an optional reading.
pub open spec fn reading_view(reading: Option<&SecondsReading>) -> Option<SecondsReadingView> {
    match reading {
        Some(r) => Some(r@),
        None => None,
    }
}

/// Minutes, and the seconds that are left.
pub open spec fn minutes_text(seconds: nat) -> Seq<char> {
    if seconds % 60 == 0 {
        numbers::nat_text(seconds / 60) + "m"@
    } else {
        numbers::nat_text(seconds / 60) + "m "@ + numbers::nat_text(seconds % 60) + "s"@
    }
}

/// Minutes, and the seconds that are left.
fn minutes(seconds: u128) -> (r: String)
    ensures
        r@ == minutes_text(seconds as nat),
{
    let mut r = decimal_u128(seconds / 60);
    let left: u128 = seconds % 60;
    if left == 0 {
        r.append("m");
    } else {
        r.append("m ");
        let rest = decimal_u128(left);
        r.append(rest.as_str());
        r.append("s");
    }
    r
}

/// A number of seconds in plain words.
pub open spec fn reading_text(reading: SecondsReadingView) -> Seq<char> {
    match reading {
        SecondsReadingView::Minutes(n) => minutes_text(n as nat),
        SecondsReadingView::Seconds(n) => numbers::nat_text(n as nat) + "s"@,
        SecondsReadingView::Tenths(t) => t + "s"@,
    }
}

/// Tells a number of seconds in plain words.
pub fn tell_seconds(reading: &SecondsReading) -> (r: String)
    ensures
        r@ == reading_text(reading@),
{
    match reading {
        SecondsReading::Minutes(n) => minutes(*n as u128),
        SecondsReading::Seconds(n) => {
            let digits = decimal_u128(*n as u128);
            concat(digits.as_str(), "s")
        },
        SecondsReading::Tenths(t) => concat(t.as_str(), "s"),
    }
}

/// The number that a duration in the form of the Tor client holds.
pub open spec fn inner_number(value: Seq<char>) -> Option<Seq<char>> {
    let head = "FormattedDuration("@;
    let tail = "s)"@;
    if text::begins(value, head) && text::finishes(value, tail) && head.len() + tail.len()
        <= value.len() {
        Some(value.subrange(head.len() as int, value.len() - tail.len()))
    } else {
        None
    }
}

/// The number that a duration in the form of the Tor client holds; it is read elsewhere.
pub fn formatted_seconds(value: &str) -> (r: Option<String>)
    ensures
        text::opt_view(r) == inner_number(value@),
{
    let head = chars_of("FormattedDuration(");
    let tail = chars_of("s)");
    let a = chars_of(value);
    if starts_with(value, "FormattedDuration(") && ends_with(value, "s)") {
        let n: usize = a.len();
        let h: usize = head.len();
        let t: usize = tail.len();
        if n >= h && n - h >= t {
            return Some(text_of(&a, h, n - t));
        }
    }
    None
}

/// A duration in the form of the Tor client in plain words. `reading` is how its number
/// is to be told, where it is a number.
pub open spec fn formatted_text(
    value: Seq<char>,
    reading: Option<SecondsReadingView>,
) -> Option<Seq<char>> {
    if inner_number(value) is Some && reading is Some {
        Some(reading_text(reading->Some_0))
    } else {
        None
    }
}

/// Tells a duration in the form of the Tor client in plain words.
pub fn parse_formatted_duration(value: &str, reading: Option<&SecondsReading>) -> (r: Option<
    String,
>)
    ensures
        text::opt_view(r) == formatted_text(value@, reading_view(reading)),
{
    match formatted_seconds(value) {
        Some(_) => match reading {
            Some(seconds) => Some(tell_seconds(seconds)),
            None => None,
        },
        None => None,
    }
}

/// The smaller of a number and the largest that fits.
pub open spec fn capped(n: int) -> int {
    if n > u128::MAX {
        u128::MAX as int
    } else {
        n
    }
}

/// A duration in nanoseconds, rounded to milliseconds.
pub open spec fn rounded_millis(nanos: nat) -> nat {
    (capped((nanos + 500_000) as int) / 1_000_000) as nat
}

/// A duration in plain words.
pub open spec fn duration_text(nanos: nat) -> Seq<char> {
    let millis = rounded_millis(nanos);
    let seconds = ((millis + 500) / 1000) as nat;
    if millis == 0 {
        "0s"@
    } else if seconds >= 60 {
        minutes_text(seconds)
    } else if seconds >= 10 {
        numbers::nat_text(seconds) + "s"@
    } else {
        numbers::nat_text(millis / 1000) + "."@ + numbers::nat_text((millis % 1000) / 100) + "s"@
    }
}

/// Tells a duration in plain words.
pub fn format_duration_parts(total_nanos: u128) -> (r: String)
    ensures
        r@ == duration_text(total_nanos as nat),
{
    let padded: u128 = if total_nanos > u128::MAX - 500_000 {
        u128::MAX
    } else {
        total_nanos + 500_000
    };
    let millis: u128 = padded / 1_000_000;
    if millis == 0 {
        return "0s".to_owned();
    }
    let seconds: u128 = (millis + 500) / 1000;
    if seconds >= 60 {
        minutes(seconds)
    } else if seconds >= 10 {
        let digits = decimal_u128(seconds);
        concat(digits.as_str(), "s")
    } else {
        let mut r = decimal_u128(millis / 1000);
        r.append(".");
        let tenth = decimal_u128((millis % 1000) / 100);
        r.append(tenth.as_str());
        r.append("s");
        r
    }
}

/// The nanoseconds of a unit of time.
pub open spec fn unit_nanos(unit: Seq<char>) -> Option<nat> {
    if unit == "h"@ {
        Some(3_600_000_000_000nat)
    } else if unit == "m"@ {
        Some(60_000_000_000nat)
    } else if unit == "s"@ {
        Some(1_000_000_000nat)
    } else if unit == "ms"@ {
        Some(1_000_000nat)
    } else if unit == "us"@ || unit == "\u{b5}s"@ {
        Some(1_000nat)
    } else if unit == "ns"@ {
        Some(1nat)
    } else {
        None
    }
}

/// The nanoseconds of a unit of time.
fn nanos_of(unit: &str) -> (r: Option<u128>)
    ensures
        match r {
            Some(n) => unit_nanos(unit@) == Some(n as nat),
            None => unit_nanos(unit@) is None,
        },
{
    if str_eq(unit, "h") {
        Some(3_600_000_000_000)
    } else if str_eq(unit, "m") {
        Some(60_000_000_000)
    } else if str_eq(unit, "s") {
        Some(1_000_000_000)
    } else if str_eq(unit, "ms") {
        Some(1_000_000)
    } else if str_eq(unit, "us") || str_eq(unit, "\u{b5}s") {
        Some(1_000)
    } else if str_eq(unit, "ns") {
        Some(1)
    } else {
        None
    }
}

/// How many digits a text begins with.
pub open spec fn leading_digits(s: Seq<char>) -> nat
    decreases s.len(),
{
    if s.len() > 0 && text::is_digit(s[0]) {
        1 + leading_digits(s.skip(1))
    } else {
        0
    }
}

/// How many digits a text begins with.
fn count_digits(a: &Vec<char>) -> (r: usize)
    ensures
        r == leading_digits(a@),
        r <= a@.len(),
{
    let mut i: usize = 0;
    assert(a@.skip(0) =~= a@);
    while i < a.len() && '0' <= a[i] && a[i] <= '9'
        invariant
            i <= a@.len(),
            leading_digits(a@) == i + leading_digits(a@.skip(i as int)),
        decreases a@.len() - i,
    {
        assert(a@.skip(i as int).skip(1) =~= a@.skip(i as int + 1));
        i = i + 1;
    }
    i
}

/// The nanoseconds of one part of a duration, such as `29s`: a number, directly
/// followed by a unit.
pub open spec fn part_nanos(part: Seq<char>) -> Option<nat> {
    let k = leading_digits(part) as int;
    if k == 0 || k == part.len() {
        None
    } else {
        let number = numbers::digits_value(part.take(k));
        match unit_nanos(part.skip(k)) {
            Some(unit) => if number <= u128::MAX {
                Some(capped((number * unit) as int) as nat)
            } else {
                None
            },
            None => None,
        }
    }
}

proof fn lemma_leading_digits(s: Seq<char>)
    ensures
        leading_digits(s) <= s.len(),
        forall|i: int| 0 <= i < leading_digits(s) ==> text::is_digit(#[trigger] s[i]),
    decreases s.len(),
{
    if s.len() > 0 && text::is_digit(s[0]) {
        lemma_leading_digits(s.skip(1));
        assert forall|i: int| 0 <= i < leading_digits(s) implies text::is_digit(
            #[trigger] s[i],
        ) by {
            if i > 0 {
                assert(s.skip(1)[i - 1] == s[i]);
            }
        }
    }
}

/// Reads one part of a duration.
fn read_part(part: &str) -> (r: Option<u128>)
    ensures
        match r {
            Some(n) => part_nanos(part@) == Some(n as nat),
            None => part_nanos(part@) is None,
        },
{
    let a = chars_of(part);
    let n: usize = a.len();
    let k: usize = count_digits(&a);
    proof {
        lemma_leading_digits(a@);
    }
    if k == 0 || k == n {
        return None;
    }
    let number_text = text_of(&a, 0, k);
    let digits = chars_of(number_text.as_str());
    assert(digits@ =~= part@.take(k as int));
    assert(digits@.skip(0) =~= digits@);
    let unit = text_of(&a, k, n);
    assert(unit@ =~= part@.skip(k as int));
    proof {
        numbers::lemma_digits_nonnegative(digits@);
    }
    assert(numbers::all_digits(digits@));
    match read_digits(&digits, 0, u128::MAX) {
        Some(number) => match nanos_of(unit.as_str()) {
            Some(scale) => {
                assert(number * scale >= 0) by (nonlinear_arith)
                    requires
                        number >= 0,
                        scale >= 0,
                ;
                Some(times(number, scale))
            },
            None => None,
        },
        None => None,
    }
}

/// The product of two numbers, or the largest that fits.
fn times(a: u128, b: u128) -> (r: u128)
    requires
        b > 0,
    ensures
        r == capped(a * b),
{
    if a > u128::MAX / b {
        assert(a * b > u128::MAX) by (nonlinear_arith)
            requires
                a > u128::MAX / b,
                b > 0,
        ;
        u128::MAX
    } else {
        assert(a * b <= u128::MAX) by (nonlinear_arith)
            requires
                a <= u128::MAX / b,
                b > 0,
                a >= 0,
        ;
        a * b
    }
}

/// The nanoseconds of all parts of a duration, if each is one.
pub open spec fn parts_nanos(parts: Seq<Seq<char>>) -> Option<nat>
    decreases parts.len(),
{
    if parts.len() == 0 {
        Some(0nat)
    } else {
        match (parts_nanos(parts.drop_last()), part_nanos(parts.last())) {
            (Some(sum), Some(nanos)) => Some(capped((sum + nanos) as int) as nat),
            _ => None,
        }
    }
}

/// A duration of several parts, such as `29s 999ms`, in plain words.
pub open spec fn compound_text(value: Seq<char>) -> Option<Seq<char>> {
    let inner = scan::without_dots(text::trimmed(value));
    let parts = scan::words_of(inner);
    if !scan::has_space(inner) || parts.len() == 0 {
        None
    } else {
        match parts_nanos(parts) {
            Some(nanos) => Some(duration_text(nanos)),
            None => None,
        }
    }
}

proof fn lemma_parts_stop(parts: Seq<Seq<char>>, i: int)
    requires
        0 <= i <= parts.len(),
        parts_nanos(parts.take(i)) is None,
    ensures
        parts_nanos(parts) is None,
    decreases parts.len() - i,
{
    if i < parts.len() {
        assert(parts.take(i + 1).drop_last() =~= parts.take(i));
        lemma_parts_stop(parts, i + 1);
    } else {
        assert(parts.take(i) =~= parts);
    }
}

/// Tells a duration of several parts in plain words.
pub fn parse_compound_duration(value: &str) -> (r: Option<String>)
    ensures
        text::opt_view(r) == compound_text(value@),
{
    let whole = trim(value);
    let inner = strip_dots(whole.as_str());
    if !holds_space(inner.as_str()) {
        return None;
    }
    let parts = words(inner.as_str());
    let ghost all = text::views(parts@);
    if parts.len() == 0 {
        return None;
    }
    let mut total: u128 = 0;
    let mut i: usize = 0;
    assert(all.take(0) =~= Seq::<Seq<char>>::empty());
    while i < parts.len()
        invariant
            i <= parts@.len(),
            parts@.len() > 0,
            all == text::views(parts@),
            all == scan::words_of(inner@),
            inner@ == scan::without_dots(text::trimmed(value@)),
            scan::has_space(inner@),
            parts_nanos(all.take(i as int)) == Some(total as nat),
        decreases parts@.len() - i,
    {
        assert(all.take(i as int + 1).drop_last() =~= all.take(i as int));
        assert(all.take(i as int + 1).last() == parts@[i as int]@);
        match read_part(parts[i].as_str()) {
            Some(nanos) => {
                total = if nanos > u128::MAX - total {
                    u128::MAX
                } else {
                    total + nanos
                };
            },
            None => {
                proof {
                    lemma_parts_stop(all, i as int + 1);
                }
                return None;
            },
        }
        i = i + 1;
    }
    assert(all.take(all.len() as int) =~= all);
    Some(format_duration_parts(total))
}

/// A duration in plain words, if the text is one.
pub open spec fn spoken_duration(
    value: Seq<char>,
    reading: Option<SecondsReadingView>,
) -> Option<Seq<char>> {
    match formatted_text(value, reading) {
        Some(t) => Some(t),
        None => compound_text(value),
    }
}

/// Tells a duration in plain words, if the text is one.
pub fn normalize_duration(value: &str, reading: Option<&SecondsReading>) -> (r: Option<String>)
    ensures
        text::opt_view(r) == spoken_duration(value@, reading_view(reading)),
{
    match parse_formatted_duration(value, reading) {
        Some(t) => Some(t),
        None => parse_compound_duration(value),
    }
}

/// Whole seconds are told with a tenth below ten, alone below a minute, and in minutes and
/// what is left of them from there; what is less than half a millisecond is told as nothing.
pub proof fn law_durations_are_told_by_their_size(seconds: nat, minutes: nat, rest: nat, nanos: nat)
    requires
        seconds * 1_000_000_000 + 500_000 <= u128::MAX,
        rest < 60,
    ensures
        1 <= seconds < 10 ==> duration_text(seconds * 1_000_000_000) == numbers::nat_text(seconds)
            + "."@ + numbers::nat_text(0) + "s"@,
        10 <= seconds < 60 ==> duration_text(seconds * 1_000_000_000) == numbers::nat_text(seconds)
            + "s"@,
        seconds >= 60 ==> duration_text(seconds * 1_000_000_000) == minutes_text(seconds),
        nanos < 500_000 ==> duration_text(nanos) == "0s"@,
        rest == 0 ==> minutes_text(60 * minutes) == numbers::nat_text(minutes) + "m"@,
        rest > 0 ==> minutes_text(60 * minutes + rest) == numbers::nat_text(minutes) + "m "@
            + numbers::nat_text(rest) + "s"@,
{
    let n = seconds * 1_000_000_000;
    assert((n + 500_000) / 1_000_000 == seconds * 1000);
    assert(rounded_millis(n) == seconds * 1000);
    assert((seconds * 1000 + 500) / 1000 == seconds);
    assert((seconds * 1000) / 1000 == seconds && (seconds * 1000) % 1000 == 0);
    assert((60 * minutes + rest) / 60 == minutes && (60 * minutes + rest) % 60 == rest);
}

proof fn lemma_digits_lead(digits: Seq<char>, unit: Seq<char>)
    requires
        forall|i: int| 0 <= i < digits.len() ==> text::is_digit(#[trigger] digits[i]),
        unit.len() > 0,
        !text::is_digit(unit[0]),
    ensures
        leading_digits(digits + unit) == digits.len(),
    decreases digits.len(),
{
    let whole = digits + unit;
    if digits.len() == 0 {
        assert(whole =~= unit);
    } else {
        assert(whole[0] == digits[0]);
        assert(whole.skip(1) =~= digits.skip(1) + unit);
        assert forall|i: int| 0 <= i < digits.skip(1).len() implies text::is_digit(
            #[trigger] digits.skip(1)[i],
        ) by {
            assert(text::is_digit(digits[i + 1]));
        }
        lemma_digits_lead(digits.skip(1), unit);
    }
}

/// A number with a unit behind it is so many of that unit: hours, minutes, seconds,
/// milliseconds, microseconds in either spelling, and nanoseconds.
pub proof fn law_units_are_read(n: nat)
    requires
        n <= 0xffff_ffff,
    ensures
        part_nanos(numbers::nat_text(n) + "h"@) == Some(n * 3_600_000_000_000),
        part_nanos(numbers::nat_text(n) + "m"@) == Some(n * 60_000_000_000),
        part_nanos(numbers::nat_text(n) + "s"@) == Some(n * 1_000_000_000),
        part_nanos(numbers::nat_text(n) + "ms"@) == Some(n * 1_000_000),
        part_nanos(numbers::nat_text(n) + "us"@) == Some(n * 1_000),
        part_nanos(numbers::nat_text(n) + "\u{b5}s"@) == Some(n * 1_000),
        part_nanos(numbers::nat_text(n) + "ns"@) == Some(n * 1),
{
    reveal_strlit("h");
    reveal_strlit("m");
    reveal_strlit("s");
    reveal_strlit("ms");
    reveal_strlit("us");
    reveal_strlit("\u{b5}s");
    reveal_strlit("ns");
    lemma_part(n, "h"@, 3_600_000_000_000);
    assert("m"@[0] == 'm' && "h"@[0] == 'h');
    lemma_part(n, "m"@, 60_000_000_000);
    assert("s"@[0] == 's');
    lemma_part(n, "s"@, 1_000_000_000);
    assert("ms"@.len() == 2 && "h"@.len() == 1 && "m"@.len() == 1 && "s"@.len() == 1);
    lemma_part(n, "ms"@, 1_000_000);
    assert("us"@.len() == 2 && "us"@[0] == 'u' && "ms"@[0] == 'm');
    lemma_part(n, "us"@, 1_000);
    assert("\u{b5}s"@.len() == 2 && "\u{b5}s"@[0] == '\u{b5}');
    lemma_part(n, "\u{b5}s"@, 1_000);
    assert("ns"@.len() == 2 && "ns"@[0] == 'n');
    lemma_part(n, "ns"@, 1);
}

proof fn lemma_part(n: nat, unit: Seq<char>, nanos: nat)
    requires
        n <= 0xffff_ffff,
        nanos <= 3_600_000_000_000,
        unit.len() > 0,
        !text::is_digit(unit[0]),
        unit_nanos(unit) == Some(nanos),
    ensures
        part_nanos(numbers::nat_text(n) + unit) == Some(n * nanos),
{
    numbers::lemma_nat_text(n);
    let digits = numbers::nat_text(n);
    let part = digits + unit;
    lemma_digits_lead(digits, unit);
    assert(part.take(digits.len() as int) =~= digits);
    assert(part.skip(digits.len() as int) =~= unit);
    assert(n * nanos <= 0xffff_ffff * 3_600_000_000_000) by (nonlinear_arith)
        requires
            n <= 0xffff_ffff,
            nanos <= 3_600_000_000_000,
    ;
}

/// Parts that stand together are added up, as far as that can be counted, and one that
/// cannot be read makes the whole unreadable.
pub proof fn law_parts_are_added_up(parts: Seq<Seq<char>>, part: Seq<char>)
    ensures
        parts_nanos(Seq::empty()) == Some(0nat),
        parts_nanos(parts.push(part)) is Some <==> parts_nanos(parts) is Some && part_nanos(part)
            is Some,
        parts_nanos(parts.push(part)) is Some && parts_nanos(parts)->Some_0 + part_nanos(
            part,
        )->Some_0 <= u128::MAX ==> parts_nanos(parts.push(part))->Some_0 == parts_nanos(
            parts,
        )->Some_0 + part_nanos(part)->Some_0,
{
    assert(parts.push(part).drop_last() =~= parts);
    assert(parts.push(part).last() == part);
}

/// A number of seconds that was formatted is what stands between the words around it.
pub proof fn law_formatted_seconds_are_found(number: Seq<char>)
    ensures
        inner_number("FormattedDuration("@ + number + "s)"@) == Some(number),
        formatted_text("FormattedDuration("@ + number + "s)"@, None) is None,
{
    reveal_strlit("FormattedDuration(");
    reveal_strlit("s)");
    let head = "FormattedDuration("@;
    let tail = "s)"@;
    let value = head + number + tail;
    assert(value.take(head.len() as int) =~= head);
    assert(value.skip(value.len() - tail.len()) =~= tail);
    assert(value.subrange(head.len() as int, value.len() - tail.len()) =~= number);
}

proof fn lemma_without_dots(s: Seq<char>)
    ensures
        scan::without_dots(s).len() <= s.len(),
        scan::without_dots(s) == s.take(scan::without_dots(s).len() as int),
    decreases s.len(),
{
    if s.len() > 0 && s.last() == '.' {
        lemma_without_dots(s.drop_last());
        let k = scan::without_dots(s).len() as int;
        assert(s.drop_last().take(k) =~= s.take(k));
    } else {
        assert(s.take(s.len() as int) =~= s);
    }
}

/// A text in one piece is no duration of several parts; one of several pieces is exactly
/// where each of them can be read, and is then told as their sum.
pub proof fn law_durations_of_parts_stand_apart(value: Seq<char>)
    ensures
        (forall|i: int| 0 <= i < value.len() ==> !text::is_space(#[trigger] value[i]))
            ==> compound_text(value) is None,
        value.len() > 0 && !text::is_space(value[0]) && !text::is_space(value.last())
            && value.last() != '.' && (exists|i: int|
            0 <= i < value.len() && text::is_space(#[trigger] value[i])) && scan::words_of(
            value,
        ).len() > 0 ==> match parts_nanos(scan::words_of(value)) {
            Some(nanos) => compound_text(value) == Some(duration_text(nanos)),
            None => compound_text(value) is None,
        },
{
    if forall|i: int| 0 <= i < value.len() ==> !text::is_space(#[trigger] value[i]) {
        if value.len() > 0 {
            assert(!text::is_space(value[value.len() - 1]));
            assert(!text::is_space(value[0]));
        }
        assert(text::trim_end(value) == value);
        assert(text::trim_start(value) == value);
        lemma_without_dots(value);
        let inner = scan::without_dots(value);
        assert forall|i: int| 0 <= i < inner.len() implies !text::is_space(#[trigger] inner[i]) by {
            assert(inner[i] == value[i]);
        }
        assert(!scan::has_space(inner));
    }
    if value.len() > 0 && !text::is_space(value[0]) && !text::is_space(value.last()) && value.last()
        != '.' {
        assert(text::trimmed(value) == value);
        assert(scan::without_dots(value) == value);
    }
}

} // verus!
