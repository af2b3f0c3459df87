//! Texts for the menu: numbers, schedules and run times as a person reads
//! them.

use crate::calendar::{
    local_day, local_days_between, local_text, local_year, relative_text, LAYOUT_MONTH,
    LAYOUT_TIME_OF_DAY, LAYOUT_WEEKDAY,
};
use crate::cron::{current_time, normalized_schedule, schedule_is_valid, CompiledSchedule};
use crate::instant::Instant;
use crate::text::same_text;
use vstd::prelude::*;

verus! {

/// The character of a decimal digit.
pub open spec fn digit_char(digit: nat) -> char {
    if digit == 0 {
        '0'
    } else if digit == 1 {
        '1'
    } else if digit == 2 {
        '2'
    } else if digit == 3 {
        '3'
    } else if digit == 4 {
        '4'
    } else if digit == 5 {
        '5'
    } else if digit == 6 {
        '6'
    } else if digit == 7 {
        '7'
    } else if digit == 8 {
        '8'
    } else {
        '9'
    }
}

/// A number in decimal digits, without leading zeros.
pub open spec fn decimal(n: nat) -> Seq<char>
    decreases n,
{
    if n < 10 {
        seq![digit_char(n)]
    } else {
        decimal(n / 10).push(digit_char(n % 10))
    }
}

/// An integer in decimal digits, with a minus sign where it is negative.
pub open spec fn signed_decimal(n: int) -> Seq<char> {
    if n < 0 {
        seq!['-'] + decimal((-n) as nat)
    } else {
        decimal(n as nat)
    }
}

/// The ending of the ordinal of a day: "th" for 11, 12 and 13 in every
/// hundred, else "st", "nd" or "rd" after a last digit of 1, 2 or 3, and
/// "th" after any other.
pub open spec fn ordinal_suffix(day: nat) -> Seq<char> {
    if day % 100 == 11 || day % 100 == 12 || day % 100 == 13 {
        seq!['t', 'h']
    } else if day % 10 == 1 {
        seq!['s', 't']
    } else if day % 10 == 2 {
        seq!['n', 'd']
    } else if day % 10 == 3 {
        seq!['r', 'd']
    } else {
        seq!['t', 'h']
    }
}

/// One decimal digit as a string.
fn digit_text(digit: u64) -> (text: &'static str)
    requires
        digit < 10,
    ensures
        text@ == seq![digit_char(digit as nat)],
{
    proof {
        reveal_strlit("0");
        reveal_strlit("1");
        reveal_strlit("2");
        reveal_strlit("3");
        reveal_strlit("4");
        reveal_strlit("5");
        reveal_strlit("6");
        reveal_strlit("7");
        reveal_strlit("8");
        reveal_strlit("9");
    }
    let text = if digit == 0 {
        "0"
    } else if digit == 1 {
        "1"
    } else if digit == 2 {
        "2"
    } else if digit == 3 {
        "3"
    } else if digit == 4 {
        "4"
    } else if digit == 5 {
        "5"
    } else if digit == 6 {
        "6"
    } else if digit == 7 {
        "7"
    } else if digit == 8 {
        "8"
    } else {
        "9"
    };
    assert(text@ =~= seq![digit_char(digit as nat)]);
    text
}

/// A number in decimal digits.
pub fn decimal_text(n: u64) -> (text: String)
    ensures
        text@ == decimal(n as nat),
{
    let mut text = digit_text(n % 10).to_owned();
    let mut rest = n / 10;
    while rest > 0
        invariant
            decimal(n as nat) == if rest > 0 {
                decimal(rest as nat) + text@
            } else {
                text@
            },
        decreases rest,
    {
        let mut longer = digit_text(rest % 10).to_owned();
        longer.append(text.as_str());
        proof {
            let digit = seq![digit_char((rest % 10) as nat)];
            if rest >= 10 {
                assert(decimal(rest as nat) + text@ =~= decimal((rest / 10) as nat) + (digit + text@));
            } else {
                assert(decimal(rest as nat) + text@ =~= digit + text@);
            }
        }
        text = longer;
        rest = rest / 10;
    }
    text
}

/// An integer in decimal digits, with a minus sign where it is negative.
pub fn signed_decimal_text(n: i64) -> (text: String)
    ensures
        text@ == signed_decimal(n as int),
{
    if n < 0 {
        let magnitude: u64 = if n == i64::MIN {
            9_223_372_036_854_775_808u64
        } else {
            (-n) as u64
        };
        let mut text = "-".to_owned();
        proof {
            reveal_strlit("-");
            assert("-"@ =~= seq!['-']);
        }
        let digits = decimal_text(magnitude);
        text.append(digits.as_str());
        text
    } else {
        decimal_text(n as u64)
    }
}

/// The ordinal of a day of the month: "1st", "2nd", "3rd", "4th", "11th",
/// "21st".
pub fn ordinal(day: u32) -> (text: String)
    ensures
        text@ == decimal(day as nat) + ordinal_suffix(day as nat),
{
    proof {
        reveal_strlit("th");
        reveal_strlit("st");
        reveal_strlit("nd");
        reveal_strlit("rd");
    }
    let teens = day % 100;
    let suffix = if teens == 11 || teens == 12 || teens == 13 {
        "th"
    } else if day % 10 == 1 {
        "st"
    } else if day % 10 == 2 {
        "nd"
    } else if day % 10 == 3 {
        "rd"
    } else {
        "th"
    };
    assert(suffix@ =~= ordinal_suffix(day as nat));
    let mut text = decimal_text(day as u64);
    text.append(suffix);
    text
}

/// Whether `c` is white space: a character with the Unicode property
/// `White_Space`.
pub open spec fn is_space(c: char) -> bool {
    let code = c as u32;
    ||| 0x09 <= code <= 0x0d
    ||| code == 0x20
    ||| code == 0x85
    ||| code == 0xa0
    ||| code == 0x1680
    ||| 0x2000 <= code <= 0x200a
    ||| code == 0x2028
    ||| code == 0x2029
    ||| code == 0x202f
    ||| code == 0x205f
    ||| code == 0x3000
}

/// The words of `text` from place `from` on, where `word` holds the
/// characters of the word that is being read.
pub open spec fn words_from(text: Seq<char>, from: int, word: Seq<char>) -> Seq<Seq<char>>
    decreases text.len() - from,
{
    let finished = if word.len() > 0 {
        seq![word]
    } else {
        Seq::empty()
    };
    if from < 0 || from >= text.len() {
        finished
    } else if is_space(text[from]) {
        finished + words_from(text, from + 1, Seq::empty())
    } else {
        words_from(text, from + 1, word.push(text[from]))
    }
}

/// The words of `text`: its longest runs of characters that are not white
/// space, in order.
pub open spec fn words(text: Seq<char>) -> Seq<Seq<char>> {
    words_from(text, 0, Seq::empty())
}

/// How often `c` occurs in `text`.
pub open spec fn count_char(text: Seq<char>, c: char) -> nat
    decreases text.len(),
{
    if text.len() == 0 {
        0
    } else {
        count_char(text.drop_last(), c) + if text.last() == c {
            1nat
        } else {
            0nat
        }
    }
}

/// Whether `c` is a decimal digit.
pub open spec fn is_digit(c: char) -> bool {
    '0' <= c <= '9'
}

/// The number that a sequence of decimal digits stands for.
pub open spec fn digits_value(digits: Seq<char>) -> nat
    decreases digits.len(),
{
    if digits.len() == 0 {
        0
    } else {
        digits_value(digits.drop_last()) * 10 + (digits.last() as u32 - '0' as u32) as nat
    }
}

/// The number that `text` stands for as an unsigned 32-bit integer: decimal
/// digits, at least one, after at most one plus sign, and no more than the
/// type holds.
pub open spec fn parsed_u32(text: Seq<char>) -> Option<u32> {
    let digits = without_plus_sign(text);
    if digits.len() > 0 && all_digits(digits) && digits_value(digits) <= u32::MAX {
        Some(digits_value(digits) as u32)
    } else {
        None
    }
}

/// `text` without the plus sign that it may begin with.
pub open spec fn without_plus_sign(text: Seq<char>) -> Seq<char> {
    if text.len() > 0 && text[0] == '+' {
        text.drop_first()
    } else {
        text
    }
}

/// Whether every character of `text` is a decimal digit.
pub open spec fn all_digits(text: Seq<char>) -> bool {
    forall|i: int| 0 <= i < text.len() ==> is_digit(#[trigger] text[i])
}

/// The hour of a schedule of the form "0 H * * *", which runs once a day on
/// the hour: the text begins with "0 ", holds four spaces and five words,
/// the second a number and the last three an asterisk each.
pub open spec fn daily_hour(pattern: Seq<char>) -> Option<u32> {
    let parts = words(pattern);
    if pattern.len() >= 2 && pattern[0] == '0' && pattern[1] == ' ' && count_char(pattern, ' ') == 4
        && parts.len() == 5 && parts[2] == seq!['*'] && parts[3] == seq!['*'] && parts[4]
        == seq!['*'] {
        parsed_u32(parts[1])
    } else {
        None
    }
}

/// The description of a schedule that has one of its own: every hour, every
/// day at midnight, or every day at a given hour.
pub open spec fn fixed_description(pattern: Seq<char>) -> Option<Seq<char>> {
    if pattern == "0 * * * *"@ {
        Some("Every hour"@)
    } else if pattern == "0 0 * * *"@ {
        Some("Every day at midnight"@)
    } else {
        match daily_hour(pattern) {
            Some(hour) => Some("Every day at "@ + decimal(hour as nat) + ":00"@),
            None => None,
        }
    }
}

/// Whether `c` is white space.
fn is_space_char(c: char) -> (space: bool)
    ensures
        space == is_space(c),
{
    let code = c as u32;
    (0x09 <= code && code <= 0x0d) || code == 0x20 || code == 0x85 || code == 0xa0 || code == 0x1680
        || (0x2000 <= code && code <= 0x200a) || code == 0x2028 || code == 0x2029 || code == 0x202f
        || code == 0x205f || code == 0x3000
}

/// The characters of a string.
fn chars_of(text: &str) -> (chars: Vec<char>)
    ensures
        chars@ == text@,
{
    let len = text.unicode_len();
    let mut chars: Vec<char> = Vec::new();
    let mut i: usize = 0;
    while i < len
        invariant
            i <= len,
            len == text@.len(),
            chars@ == text@.take(i as int),
        decreases len - i,
    {
        chars.push(text.get_char(i));
        i += 1;
        assert(text@.take(i as int) =~= text@.take(i as int - 1).push(text@[i as int - 1]));
    }
    assert(text@.take(len as int) =~= text@);
    chars
}

/// The words of `text`.
fn split_words(text: &Vec<char>) -> (parts: Vec<Vec<char>>)
    ensures
        parts@.map_values(|w: Vec<char>| w@) == words(text@),
{
    let mut parts: Vec<Vec<char>> = Vec::new();
    let mut word: Vec<char> = Vec::new();
    let mut i: usize = 0;
    let ghost view = |w: Vec<char>| w@;
    assert(parts@.map_values(view) + words_from(text@, 0, word@) =~= words(text@));
    while i < text.len()
        invariant
            i <= text.len(),
            view == |w: Vec<char>| w@,
            parts@.map_values(view) + words_from(text@, i as int, word@) == words(text@),
        decreases text.len() - i,
    {
        let c = text[i];
        if is_space_char(c) {
            if word.len() > 0 {
                let ghost before = parts@;
                let ghost finished = word@;
                parts.push(word);
                word = Vec::new();
                proof {
                    assert(parts@.map_values(view) =~= before.map_values(view) + seq![finished]);
                    assert(before.map_values(view) + (seq![finished] + words_from(
                        text@,
                        i as int + 1,
                        Seq::empty(),
                    )) =~= before.map_values(view) + seq![finished] + words_from(
                        text@,
                        i as int + 1,
                        Seq::empty(),
                    ));
                }
            } else {
                assert(Seq::<Seq<char>>::empty() + words_from(text@, i as int + 1, Seq::empty())
                    =~= words_from(text@, i as int + 1, Seq::empty()));
                assert(word@ =~= Seq::empty());
            }
        } else {
            word.push(c);
        }
        i += 1;
    }
    if word.len() > 0 {
        let ghost before = parts@;
        let ghost finished = word@;
        parts.push(word);
        assert(parts@.map_values(view) =~= before.map_values(view) + seq![finished]);
    } else {
        assert(parts@.map_values(view) + Seq::<Seq<char>>::empty() =~= parts@.map_values(view));
    }
    parts
}

/// How often `c` occurs in `text`.
fn count_occurrences(text: &Vec<char>, c: char) -> (count: usize)
    ensures
        count == count_char(text@, c),
{
    let mut count: usize = 0;
    let mut i: usize = 0;
    assert(text@.take(0) =~= Seq::empty());
    while i < text.len()
        invariant
            i <= text.len(),
            count <= i,
            count == count_char(text@.take(i as int), c),
        decreases text.len() - i,
    {
        proof {
            let longer = text@.take(i as int + 1);
            assert(longer.drop_last() =~= text@.take(i as int));
            assert(longer.last() == text@[i as int]);
        }
        if text[i] == c {
            count += 1;
        }
        i += 1;
    }
    assert(text@.take(text.len() as int) =~= text@);
    count
}

/// Whether `text` is a single asterisk.
fn is_asterisk(text: &Vec<char>) -> (yes: bool)
    ensures
        yes == (text@ == seq!['*']),
{
    let yes = text.len() == 1 && text[0] == '*';
    assert(yes == (text@ =~= seq!['*']));
    yes
}

/// The number that `text` stands for as an unsigned 32-bit integer, if it
/// stands for one.
pub fn parse_u32(text: &Vec<char>) -> (value: Option<u32>)
    ensures
        value == parsed_u32(text@),
{
    let start: usize = if text.len() > 0 && text[0] == '+' {
        1
    } else {
        0
    };
    let ghost digits = without_plus_sign(text@);
    if start >= text.len() {
        return None;
    }
    let mut value: u64 = 0;
    let mut too_large = false;
    let mut i: usize = start;
    assert(digits.take(0) =~= Seq::empty());
    while i < text.len()
        invariant
            start <= i <= text.len(),
            digits == without_plus_sign(text@),
            digits.len() == text.len() - start,
            forall|k: int| 0 <= k < digits.len() ==> digits[k] == text@[k + start],
            forall|k: int| 0 <= k < i - start ==> is_digit(#[trigger] digits[k]),
            too_large ==> digits_value(digits.take(i - start)) > u32::MAX,
            !too_large ==> value == digits_value(digits.take(i - start)) && value <= u32::MAX,
        decreases text.len() - i,
    {
        let c = text[i];
        if !('0' <= c && c <= '9') {
            proof {
                let k = i - start;
                assert(0 <= k < digits.len());
                assert(digits[k] == c);
                assert(!is_digit(digits[k]));
            }
            return None;
        }
        proof {
            let longer = digits.take(i - start + 1);
            assert(longer.drop_last() =~= digits.take(i - start));
            assert(longer.last() == c);
        }
        if !too_large {
            let next = value * 10 + (c as u32 - '0' as u32) as u64;
            if next > u32::MAX as u64 {
                too_large = true;
            } else {
                value = next;
            }
        }
        i += 1;
    }
    assert(digits.take(digits.len() as int) =~= digits);
    if too_large {
        None
    } else {
        Some(value as u32)
    }
}

/// The hour of a schedule that runs once a day on the hour, if `pattern` is
/// of that form.
fn find_daily_hour(pattern: &Vec<char>) -> (hour: Option<u32>)
    ensures
        hour == daily_hour(pattern@),
{
    if pattern.len() < 2 || pattern[0] != '0' || pattern[1] != ' ' {
        return None;
    }
    if count_occurrences(pattern, ' ') != 4 {
        return None;
    }
    let parts = split_words(pattern);
    let ghost views = parts@.map_values(|w: Vec<char>| w@);
    if parts.len() != 5 {
        return None;
    }
    assert(views[1] == parts[1]@ && views[2] == parts[2]@ && views[3] == parts[3]@ && views[4]
        == parts[4]@);
    if is_asterisk(&parts[2]) && is_asterisk(&parts[3]) && is_asterisk(&parts[4]) {
        parse_u32(&parts[1])
    } else {
        None
    }
}

/// The description of a schedule that has one of its own, whether or not
/// the evaluator would accept the schedule.
pub fn describe_fixed_schedule(pattern: &str) -> (text: Option<String>)
    ensures
        text is Some == fixed_description(pattern@) is Some,
        text matches Some(t) ==> t@ == fixed_description(pattern@)->0,
{
    if same_text(pattern, "0 * * * *") {
        return Some("Every hour".to_owned());
    }
    if same_text(pattern, "0 0 * * *") {
        return Some("Every day at midnight".to_owned());
    }
    let chars = chars_of(pattern);
    match find_daily_hour(&chars) {
        Some(hour) => {
            let mut text = "Every day at ".to_owned();
            let digits = decimal_text(hour as u64);
            text.append(digits.as_str());
            text.append(":00");
            Some(text)
        },
        None => None,
    }
}

/// A schedule as a person reads it.
///
/// A text that the evaluator does not accept as a cron expression comes back
/// as it is. An expression with a description of its own gets that one.
/// Any other comes back as the evaluator normalised it.
pub fn cron_to_human_readable(cron_pattern: &str) -> (text: String)
    ensures
        !schedule_is_valid(cron_pattern@) ==> text@ == cron_pattern@,
        schedule_is_valid(cron_pattern@) && fixed_description(cron_pattern@) is Some ==> text@
            == fixed_description(cron_pattern@)->0,
        schedule_is_valid(cron_pattern@) && fixed_description(cron_pattern@) is None ==> text@
            == normalized_schedule(cron_pattern@),
{
    match CompiledSchedule::compile(cron_pattern) {
        Ok(cron) => match describe_fixed_schedule(cron_pattern) {
            Some(text) => text,
            None => cron.pattern_text(),
        },
        Err(_) => cron_pattern.to_owned(),
    }
}

/// What the description of a run time is made of: how many days its date
/// lies from today's, and how the local calendar writes it.
#[derive(Debug)]
pub struct RelativeParts {
    /// The whole days from today's date to the date of the run.
    pub days_from_today: i64,
    /// The time of day, as in "06:00".
    pub time_of_day: String,
    /// The full name of the weekday.
    pub weekday: String,
    /// The short name of the month.
    pub month: String,
    /// The day of the month.
    pub day: u32,
    /// The year of the run.
    pub year: i32,
    /// The year of today.
    pub current_year: i32,
    /// How far away the run is, in words.
    pub relative: String,
}

/// The date of a run for a description: the month and the ordinal of the
/// day, and the year where it is not the current one.
pub open spec fn date_description(parts: RelativeParts) -> Seq<char> {
    let day = parts.month@ + " "@ + decimal(parts.day as nat) + ordinal_suffix(parts.day as nat);
    if parts.year == parts.current_year {
        day
    } else {
        day + ", "@ + signed_decimal(parts.year as int)
    }
}

/// The description of a run time: by the day where it lies within a day of
/// today, by the weekday where it lies within a week, and else by how far
/// away it is, with the date.
pub open spec fn relative_description(parts: RelativeParts) -> Seq<char> {
    let days = parts.days_from_today;
    if days == 0 {
        "today at "@ + parts.time_of_day@
    } else if days == 1 {
        "tomorrow at "@ + parts.time_of_day@
    } else if days == -1 {
        "yesterday at "@ + parts.time_of_day@
    } else if 2 <= days <= 6 {
        "on "@ + parts.weekday@ + " at "@ + parts.time_of_day@
    } else if -6 <= days <= -2 {
        "last "@ + parts.weekday@ + " at "@ + parts.time_of_day@
    } else {
        parts.relative@ + " (on "@ + date_description(parts) + " at "@ + parts.time_of_day@ + ")"@
    }
}

/// The date of a run for a description.
fn describe_date(parts: &RelativeParts) -> (text: String)
    ensures
        text@ == date_description(*parts),
{
    let mut text = parts.month.clone();
    text.append(" ");
    let day = ordinal(parts.day);
    text.append(day.as_str());
    proof {
        assert(parts.month@ + " "@ + (decimal(parts.day as nat) + ordinal_suffix(parts.day as nat))
            =~= parts.month@ + " "@ + decimal(parts.day as nat) + ordinal_suffix(parts.day as nat));
    }
    if parts.year != parts.current_year {
        text.append(", ");
        let year = signed_decimal_text(parts.year as i64);
        text.append(year.as_str());
    }
    text
}

/// The description of a run time, from its parts.
pub fn describe_relative(parts: &RelativeParts) -> (text: String)
    ensures
        text@ == relative_description(*parts),
{
    let days = parts.days_from_today;
    if days == 0 || days == 1 || days == -1 {
        let mut text = if days == 0 {
            "today at ".to_owned()
        } else if days == 1 {
            "tomorrow at ".to_owned()
        } else {
            "yesterday at ".to_owned()
        };
        text.append(parts.time_of_day.as_str());
        text
    } else if (2 <= days && days <= 6) || (-6 <= days && days <= -2) {
        let mut text = if days > 0 {
            "on ".to_owned()
        } else {
            "last ".to_owned()
        };
        text.append(parts.weekday.as_str());
        text.append(" at ");
        text.append(parts.time_of_day.as_str());
        text
    } else {
        let mut text = parts.relative.clone();
        text.append(" (on ");
        let date = describe_date(parts);
        text.append(date.as_str());
        text.append(" at ");
        text.append(parts.time_of_day.as_str());
        text.append(")");
        text
    }
}

/// The parts of the description of the run at `at`, seen from `now`.
///
/// There are parts exactly when both are times that the calendar knows. What
/// the parts hold is the local calendar's reading of `at`, of which only the
/// range of the day of the month is known here.
fn relative_parts(at: &Instant, now: &Instant) -> (parts: Option<RelativeParts>)
    ensures
        parts is Some <==> at.is_calendar_time() && now.is_calendar_time(),
        parts matches Some(p) ==> 1 <= p.day <= 31,
{
    if !at.is_in_calendar_range() || !now.is_in_calendar_range() {
        return None;
    }
    let days_from_today = local_days_between(at, now)?;
    let time_of_day = local_text(at, LAYOUT_TIME_OF_DAY)?;
    let weekday = local_text(at, LAYOUT_WEEKDAY)?;
    let month = local_text(at, LAYOUT_MONTH)?;
    let day = local_day(at)?;
    let year = local_year(at)?;
    let current_year = local_year(now)?;
    let relative = relative_text(at)?;
    Some(
        RelativeParts {
            days_from_today,
            time_of_day,
            weekday,
            month,
            day,
            year,
            current_year,
            relative,
        },
    )
}

/// The text for a run time that the local calendar does not know.
pub open spec fn unknown_time() -> Seq<char> {
    "at an unknown time"@
}

/// The run at `at` as a person reads it at `now`, such as "tomorrow at
/// 10:00" or "in 3 weeks (on Dec 21st, 2025 at 10:00)".
///
/// How the parts read depends on the local time zone; the text is the
/// description of some parts, or says that the time is unknown.
pub fn format_relative_datetime_at(at: &Instant, now: &Instant) -> (text: String)
    ensures
        text@ == unknown_time() || exists|parts: RelativeParts| text@ == relative_description(parts),
        !(at.is_calendar_time() && now.is_calendar_time()) ==> text@ == unknown_time(),
        at.is_calendar_time() && now.is_calendar_time() ==> exists|parts: RelativeParts|
            1 <= parts.day <= 31 && text@ == relative_description(parts),
{
    match relative_parts(at, now) {
        Some(parts) => describe_relative(&parts),
        None => "at an unknown time".to_owned(),
    }
}

/// The run at `at` as a person reads it at the clock's time: see
/// `format_relative_datetime_at`.
pub fn format_relative_datetime(at: &Instant) -> (text: String)
    ensures
        text@ == unknown_time() || exists|parts: RelativeParts| text@ == relative_description(parts),
{
    let now = current_time();
    format_relative_datetime_at(at, &now)
}

/// The last run of a task as a person reads it: "Never" where the task has
/// not run, and else the run time relative to the clock's time.
pub fn format_last_run(last_run: &Option<Instant>) -> (text: String)
    ensures
        last_run is None ==> text@ == "Never"@,
        last_run is Some ==> text@ == unknown_time() || exists|parts: RelativeParts|
            text@ == relative_description(parts),
{
    match last_run {
        Some(at) => format_relative_datetime(at),
        None => "Never".to_owned(),
    }
}

} // verus!
