//! Where logs are written and what is written to them.

use vstd::prelude::*;

use crate::text::{decimal, digit, opt_text};
use crate::text_laws::number_of;

verus! {

/// A local date and time.
#[derive(Clone, Copy, Debug, PartialEq, Eq, Structural)]
pub struct LocalTime {
    pub year: i32,
    pub month: u32,
    pub day: u32,
    pub hour: u32,
    pub minute: u32,
    pub second: u32,
}

/// The year has a day more.
pub open spec fn is_leap(year: int) -> bool {
    year % 4 == 0 && (year % 100 != 0 || year % 400 == 0)
}

/// The number of days of a month.
pub open spec fn days_in(year: int, month: int) -> int {
    if month == 2 {
        if is_leap(year) {
            29
        } else {
            28
        }
    } else if month == 4 || month == 6 || month == 9 || month == 11 {
        30
    } else {
        31
    }
}

impl LocalTime {
    /// The date stands in the calendar, and the time in the day.
    pub open spec fn in_calendar(self) -> bool {
        &&& -262_143 <= self.year <= 262_142
        &&& 1 <= self.month <= 12
        &&& 1 <= self.day <= days_in(self.year as int, self.month as int)
        &&& self.hour < 24
        &&& self.minute < 60
        &&& self.second < 60
    }
}

/// A number below a hundred, in two digits.
pub open spec fn two_digits(n: int) -> Seq<char> {
    seq![digit(n / 10), digit(n % 10)]
}

/// A number in at least four digits.
pub open spec fn four_digits(n: int) -> Seq<char> {
    if n < 10_000 {
        two_digits(n / 100) + two_digits(n % 100)
    } else {
        decimal(n)
    }
}

/// A year in at least four digits, with a sign where it has more or is negative.
pub open spec fn year_text(year: int) -> Seq<char> {
    if year < 0 {
        seq!['-'] + four_digits(-year)
    } else if year < 10_000 {
        four_digits(year)
    } else {
        seq!['+'] + four_digits(year)
    }
}

/// The pattern of a date.
pub const DATE_PATTERN: &'static str = "%Y-%m-%d";

/// The pattern of a date with a time.
pub const TIME_PATTERN: &'static str = "%Y%m%d_%H%M%S";

/// A date, year first, with hyphens.
pub open spec fn date_text(t: LocalTime) -> Seq<char> {
    year_text(t.year as int) + seq!['-'] + two_digits(t.month as int) + seq!['-'] + two_digits(
        t.day as int,
    )
}

/// A date and a time, largest units first, with an underscore between the two.
pub open spec fn time_text(t: LocalTime) -> Seq<char> {
    year_text(t.year as int) + two_digits(t.month as int) + two_digits(t.day as int) + seq!['_']
        + two_digits(t.hour as int) + two_digits(t.minute as int) + two_digits(t.second as int)
}

/// `chrono::NaiveDateTime::format` writes a date and a time as a pattern says: `%Y`
/// stands for the year, in at least four digits and with a sign outside of 0 to
/// 9999, and `%m`, `%d`, `%H`, `%M` and `%S` for the month, day, hour, minute and
/// second, each in two digits.
#[verifier::external_body]
fn format_time(t: LocalTime, pattern: &str) -> (s: String)
    requires
        t.in_calendar(),
        pattern@ == DATE_PATTERN@ || pattern@ == TIME_PATTERN@,
    ensures
        pattern@ == DATE_PATTERN@ ==> s@ == date_text(t),
        pattern@ == TIME_PATTERN@ ==> s@ == time_text(t),
{
    let date = chrono::NaiveDate::from_ymd_opt(t.year, t.month, t.day).unwrap();
    let moment = date.and_hms_opt(t.hour, t.minute, t.second).unwrap();
    moment.format(pattern).to_string()
}

/// The directory for the logs of a day.
pub fn log_day(now: LocalTime) -> (s: String)
    requires
        now.in_calendar(),
    ensures
        s@ == date_text(now),
{
    format_time(now, DATE_PATTERN)
}

/// What the names of logs start with.
pub fn log_timestamp(now: LocalTime) -> (s: String)
    requires
        now.in_calendar(),
    ensures
        s@ == time_text(now),
{
    format_time(now, TIME_PATTERN)
}

/// The name of a log.
pub open spec fn file_name(timestamp: Seq<char>, name: Option<Seq<char>>) -> Seq<char> {
    match name {
        Some(n) => timestamp + "-"@ + n + ".log"@,
        None => timestamp + ".log"@,
    }
}

/// The name of a log: when it was begun and, if it has one, its name.
pub fn log_file_name(timestamp: &str, name: Option<&str>) -> (s: String)
    ensures
        s@ == file_name(timestamp@, opt_text(name)),
{
    let mut s = timestamp.to_owned();
    match name {
        Some(n) => {
            s.append("-");
            s.append(n);
        },
        None => {},
    }
    s.append(".log");
    s
}

/// The timestamp of a log of the years 0 to 9999 has fifteen characters: eight
/// digits, an underscore and six digits.
pub proof fn law_timestamp_shape(t: LocalTime)
    requires
        t.in_calendar(),
        0 <= t.year <= 9999,
    ensures
        time_text(t).len() == 15,
        time_text(t)[8] == '_',
        forall|i: int|
            0 <= i < 15 && i != 8 ==> '0' <= #[trigger] time_text(t)[i] <= '9',
{
    assert forall|n: int| 0 <= n < 100 implies '0' <= #[trigger] two_digits(n)[0] <= '9' && '0'
        <= two_digits(n)[1] <= '9' by {
        assert(0 <= n / 10 < 10 && 0 <= n % 10 < 10);
    }
    let y = t.year as int;
    assert(0 <= y / 100 < 100 && 0 <= y % 100 < 100);
    let s = time_text(t);
    let month = two_digits(t.month as int);
    let day = two_digits(t.day as int);
    let hour = two_digits(t.hour as int);
    let minute = two_digits(t.minute as int);
    let second = two_digits(t.second as int);
    assert('0' <= two_digits(y / 100)[0] <= '9' && '0' <= two_digits(y % 100)[0] <= '9');
    assert('0' <= month[0] <= '9' && '0' <= day[0] <= '9' && '0' <= hour[0] <= '9');
    assert('0' <= minute[0] <= '9' && '0' <= second[0] <= '9');
    assert(s =~= seq![
        two_digits(y / 100)[0],
        two_digits(y / 100)[1],
        two_digits(y % 100)[0],
        two_digits(y % 100)[1],
        month[0],
        month[1],
        day[0],
        day[1],
        '_',
        hour[0],
        hour[1],
        minute[0],
        minute[1],
        second[0],
        second[1],
    ]);
}

/// How much a log tells.
#[derive(Clone, Copy, Debug, PartialEq, Eq, Structural)]
pub enum LogLevel {
    Warn,
    Info,
    Debug,
}

/// How the entries of a log are written.
#[derive(Clone, Copy, Debug, PartialEq, Eq, Structural)]
pub enum LogFormat {
    Json,
    Pretty,
}

/// Where logs go, and how much each of them tells: a file, whose levels are given
/// for each module, the console, and an observer.
#[derive(Debug)]
pub struct LoggingPlan {
    pub file_format: LogFormat,
    pub file_directives: Vec<&'static str>,
    pub console_format: LogFormat,
    pub console_level: LogLevel,
    pub observer_level: LogLevel,
}

/// The levels of the modules in the file: the servers, the clients and the
/// application tell everything, its command line what is of interest, and everything
/// else only what may be wrong.
pub open spec fn default_directives() -> Seq<Seq<char>> {
    seq![
        "mcp_server=debug"@,
        "mcp_client=debug"@,
        "goose=debug"@,
        "goose_cli=info"@,
        "warn"@,
    ]
}

/// Where logs go, unless the environment says otherwise: to a file, in JSON, to the
/// console, in a form for people and without what is only for debugging, and to an
/// observer.
pub fn logging_plan() -> (p: LoggingPlan)
    ensures
        p.file_format == LogFormat::Json,
        p.file_directives@.map_values(|d: &'static str| d@) == default_directives(),
        p.console_format == LogFormat::Pretty,
        p.console_level == LogLevel::Info,
        p.observer_level == LogLevel::Debug,
{
    let mut d: Vec<&'static str> = Vec::new();
    d.push("mcp_server=debug");
    d.push("mcp_client=debug");
    d.push("goose=debug");
    d.push("goose_cli=info");
    d.push("warn");
    proof {
        assert(d@.map_values(|d: &'static str| d@) =~= default_directives());
    }
    LoggingPlan {
        file_format: LogFormat::Json,
        file_directives: d,
        console_format: LogFormat::Pretty,
        console_level: LogLevel::Info,
        observer_level: LogLevel::Debug,
    }
}

proof fn lemma_two_digits(n: int)
    requires
        0 <= n < 100,
    ensures
        two_digits(n).len() == 2,
        number_of(two_digits(n)) == n,
{
    let s = two_digits(n);
    assert(s.drop_last() =~= seq![digit(n / 10)]);
    assert(seq![digit(n / 10)].drop_last() =~= Seq::<char>::empty());
    assert(number_of(Seq::<char>::empty()) == 0);
    assert(number_of(seq![digit(n / 10)]) == n / 10);
}

proof fn lemma_four_digits(n: int)
    requires
        0 <= n < 10_000,
    ensures
        four_digits(n).len() == 4,
        number_of(four_digits(n)) == n,
{
    let s = four_digits(n);
    let high = two_digits(n / 100);
    let low = two_digits(n % 100);
    lemma_two_digits(n / 100);
    lemma_two_digits(n % 100);
    let three = high.push(low[0]);
    assert(s.drop_last() =~= three);
    assert(three.drop_last() =~= high);
    assert(number_of(three) == 10 * (n / 100) + n % 100 / 10);
}

/// The date and the time of a log of the years 0 to 9999 can be read from their places
/// in its timestamp and in the name of the day's directory.
pub proof fn law_timestamps_can_be_read(t: LocalTime)
    requires
        t.in_calendar(),
        0 <= t.year <= 9999,
    ensures
        ({
            let s = time_text(t);
            &&& s.len() == 15
            &&& number_of(s.subrange(0, 4)) == t.year
            &&& number_of(s.subrange(4, 6)) == t.month
            &&& number_of(s.subrange(6, 8)) == t.day
            &&& s[8] == '_'
            &&& number_of(s.subrange(9, 11)) == t.hour
            &&& number_of(s.subrange(11, 13)) == t.minute
            &&& number_of(s.subrange(13, 15)) == t.second
        }),
        ({
            let s = date_text(t);
            &&& s.len() == 10
            &&& number_of(s.subrange(0, 4)) == t.year
            &&& s[4] == '-'
            &&& number_of(s.subrange(5, 7)) == t.month
            &&& s[7] == '-'
            &&& number_of(s.subrange(8, 10)) == t.day
        }),
{
    lemma_four_digits(t.year as int);
    lemma_two_digits(t.month as int);
    lemma_two_digits(t.day as int);
    lemma_two_digits(t.hour as int);
    lemma_two_digits(t.minute as int);
    lemma_two_digits(t.second as int);
    let s = time_text(t);
    assert(s.subrange(0, 4) =~= four_digits(t.year as int));
    assert(s.subrange(4, 6) =~= two_digits(t.month as int));
    assert(s.subrange(6, 8) =~= two_digits(t.day as int));
    assert(s.subrange(9, 11) =~= two_digits(t.hour as int));
    assert(s.subrange(11, 13) =~= two_digits(t.minute as int));
    assert(s.subrange(13, 15) =~= two_digits(t.second as int));
    let d = date_text(t);
    assert(d.subrange(0, 4) =~= four_digits(t.year as int));
    assert(d.subrange(5, 7) =~= two_digits(t.month as int));
    assert(d.subrange(8, 10) =~= two_digits(t.day as int));
}

/// The name of a log begins with its timestamp and ends with `.log`. A log with a name
/// has that name between the two, behind a hyphen, and nothing else stands there.
pub proof fn law_logs_are_named_by_their_time(timestamp: Seq<char>, name: Seq<char>)
    ensures
        ({
            let n = timestamp.len() as int;
            let bare = file_name(timestamp, None);
            let named = file_name(timestamp, Some(name));
            &&& bare.take(n) == timestamp
            &&& bare.skip(n) == ".log"@
            &&& named.take(n) == timestamp
            &&& named[n] == '-'
            &&& named.subrange(n + 1, n + 1 + name.len()) == name
            &&& named.skip(n + 1 + name.len()) == ".log"@
        }),
{
    reveal_strlit("-");
    reveal_strlit(".log");
    let n = timestamp.len() as int;
    let bare = file_name(timestamp, None);
    let named = file_name(timestamp, Some(name));
    assert(bare.take(n) =~= timestamp);
    assert(bare.skip(n) =~= ".log"@);
    assert(named.take(n) =~= timestamp);
    assert(named.subrange(n + 1, n + 1 + name.len()) =~= name);
    assert(named.skip(n + 1 + name.len()) =~= ".log"@);
}

/// The levels of a log are given for five parts, one by one.
pub proof fn law_levels_are_given_part_by_part()
    ensures
        default_directives().len() == 5,
        default_directives()[0] == "mcp_server=debug"@,
        default_directives()[1] == "mcp_client=debug"@,
        default_directives()[2] == "goose=debug"@,
        default_directives()[3] == "goose_cli=info"@,
        default_directives()[4] == "warn"@,
{
}

} // verus!
