//! The lines of the log file.

use crate::number::digit_char;
use vstd::prelude::*;
use vstd::string::StringExecFns;

#[allow(unused_imports)]
use crate::number::digit;

verus! {

/// The first line of a log file.
pub const SESSION_HEADER: &'static str = "=== DeskBridge Session Started at UTC ===\n";

/// The name of the log file.
pub const LOG_FILE_NAME: &'static str = "deskbridge.log";

/// A point in time: the seconds since the start of 1970, and the milliseconds beyond
/// them.
#[derive(Clone, Copy, Debug, PartialEq, Eq)]
pub struct Moment {
    pub secs: u64,
    pub millis: u32,
}

impl Moment {
    /// Whether the milliseconds are less than a second.
    pub open spec fn wf(&self) -> bool {
        self.millis < 1000
    }
}

/// A number below 100 in two digits.
pub open spec fn two_digits(n: nat) -> Seq<char> {
    seq![digit(n / 10), digit(n % 10)]
}

/// A number below 1000 in three digits.
pub open spec fn three_digits(n: nat) -> Seq<char> {
    seq![digit(n / 100), digit(n / 10 % 10), digit(n % 10)]
}

/// The time of day of a moment: hours, minutes, seconds and milliseconds. A clock that
/// stands before 1970 shows midnight.
pub open spec fn time_of_day(moment: Option<Moment>) -> Seq<char> {
    match moment {
        Some(m) => two_digits((m.secs / 3600 % 24) as nat) + seq![':'] + two_digits(
            (m.secs / 60 % 60) as nat,
        ) + seq![':'] + two_digits((m.secs % 60) as nat) + seq!['.'] + three_digits(
            m.millis as nat,
        ),
        None => "00:00:00.000"@,
    }
}

/// `SystemTime::elapsed` of the standard library, asked of the start of 1970: how long
/// ago that was, and nothing where the clock stands before it. The milliseconds beyond
/// the whole seconds are less than 1000; what the clock shows is left open.
#[verifier::external_body]
fn since_epoch() -> (moment: Option<Moment>)
    ensures
        moment matches Some(m) ==> m.wf(),
{
    let elapsed = std::time::SystemTime::UNIX_EPOCH.elapsed().ok()?;
    Some(Moment { secs: elapsed.as_secs(), millis: elapsed.subsec_millis() })
}

fn push_two(s: &mut String, n: u8)
    requires
        n < 100,
    ensures
        final(s)@ == old(s)@ + two_digits(n as nat),
{
    s.push(digit_char(n / 10));
    s.push(digit_char(n % 10));
    assert(s@ == old(s)@ + two_digits(n as nat));
}

/// The time of day of a moment, as it stands in the log.
pub fn format_timestamp(moment: Option<Moment>) -> (text: String)
    requires
        moment matches Some(m) ==> m.wf(),
    ensures
        text@ == time_of_day(moment),
{
    match moment {
        Some(m) => {
            let mut text = String::new();
            push_two(&mut text, (m.secs / 3600 % 24) as u8);
            text.push(':');
            push_two(&mut text, (m.secs / 60 % 60) as u8);
            text.push(':');
            push_two(&mut text, (m.secs % 60) as u8);
            text.push('.');
            text.push(digit_char((m.millis / 100) as u8));
            text.push(digit_char((m.millis / 10 % 10) as u8));
            text.push(digit_char((m.millis % 10) as u8));
            assert(text@ == time_of_day(moment));
            text
        },
        None => "00:00:00.000".to_owned(),
    }
}

/// The present time of day. Which time the clock shows is left open; the text is that
/// of some moment.
pub fn get_timestamp() -> (text: String)
    ensures
        exists|moment: Option<Moment>|
            (moment matches Some(m) ==> m.wf()) && text@ == #[trigger] time_of_day(moment),
        text@.len() == 12,
{
    let moment = since_epoch();
    let text = format_timestamp(moment);
    proof {
        law_timestamp_shape(moment);
    }
    text
}

/// A line of the log: the time, the level and the message.
pub open spec fn line(timestamp: Seq<char>, level: Seq<char>, message: Seq<char>) -> Seq<char> {
    seq!['['] + timestamp + "] ["@ + level + "] "@ + message + seq!['\n']
}

/// The line of the log for a message at the given time.
pub fn log_line(timestamp: &str, level: &str, message: &str) -> (text: String)
    ensures
        text@ == line(timestamp@, level@, message@),
{
    let mut text = String::new();
    text.push('[');
    text.append(timestamp);
    text.append("] [");
    text.append(level);
    text.append("] ");
    text.append(message);
    text.push('\n');
    assert(text@ == line(timestamp@, level@, message@));
    text
}

/// Every timestamp has twelve characters, with the separators in the same places.
pub proof fn law_timestamp_shape(moment: Option<Moment>)
    ensures
        time_of_day(moment).len() == 12,
        time_of_day(moment)[2] == ':',
        time_of_day(moment)[5] == ':',
        time_of_day(moment)[8] == '.',
        moment is None ==> time_of_day(moment) == "00:00:00.000"@,
{
    reveal_strlit("00:00:00.000");
}

/// The time of day repeats after 24 hours.
pub proof fn law_timestamp_daily(moment: Moment, days: nat)
    requires
        moment.secs + days * 86400 <= u64::MAX,
    ensures
        time_of_day(
            Some(Moment { secs: (moment.secs + days * 86400) as u64, millis: moment.millis }),
        ) == time_of_day(Some(moment)),
{
    let later = (moment.secs + days * 86400) as u64;
    assert(later / 3600 == moment.secs / 3600 + days * 24);
    assert(later / 60 == moment.secs / 60 + days * 1440);
    assert(later / 3600 % 24 == moment.secs / 3600 % 24);
    assert(later / 60 % 60 == moment.secs / 60 % 60);
    assert(later % 60 == moment.secs % 60);
}

/// The number that the character at a place of a text stands for, as a digit.
pub open spec fn digit_at(t: Seq<char>, i: int) -> int {
    t[i] as u32 - 48
}

/// The digits of a timestamp, read as hours, minutes, seconds and milliseconds, give back
/// the time of day of the moment.
pub proof fn law_timestamp_reads_back(moment: Moment)
    requires
        moment.wf(),
    ensures
        ({
            let t = time_of_day(Some(moment));
            let hours = 10 * digit_at(t, 0) + digit_at(t, 1);
            let minutes = 10 * digit_at(t, 3) + digit_at(t, 4);
            let seconds = 10 * digit_at(t, 6) + digit_at(t, 7);
            let millis = 100 * digit_at(t, 9) + 10 * digit_at(t, 10) + digit_at(t, 11);
            &&& 0 <= hours < 24 && 0 <= minutes < 60 && 0 <= seconds < 60
            &&& hours * 3600 + minutes * 60 + seconds == moment.secs % 86400
            &&& millis == moment.millis
        }),
{
    let t = time_of_day(Some(moment));
    let h = (moment.secs / 3600 % 24) as nat;
    let m = (moment.secs / 60 % 60) as nat;
    let s = (moment.secs % 60) as nat;
    let k = moment.millis as nat;
    lemma_clock(moment.secs as int);
    assert(t[0] == digit(h / 10) && t[1] == digit(h % 10));
    assert(t[3] == digit(m / 10) && t[4] == digit(m % 10));
    assert(t[6] == digit(s / 10) && t[7] == digit(s % 10));
    assert(t[9] == digit(k / 100) && t[10] == digit(k / 10 % 10) && t[11] == digit(k % 10));
    lemma_digit(h / 10);
    lemma_digit(h % 10);
    lemma_digit(m / 10);
    lemma_digit(m % 10);
    lemma_digit(s / 10);
    lemma_digit(s % 10);
    lemma_digit(k / 100);
    lemma_digit(k / 10 % 10);
    lemma_digit(k % 10);
}

proof fn lemma_digit(d: nat)
    requires
        d < 10,
    ensures
        digit(d) as u32 == 48 + d,
{
}

proof fn lemma_clock(secs: int)
    requires
        0 <= secs,
    ensures
        (secs / 3600 % 24) * 3600 + (secs / 60 % 60) * 60 + secs % 60 == secs % 86400,
{
}

/// A line of the log holds the time and the level in brackets, the message behind them,
/// and ends the line.
pub proof fn law_log_line(timestamp: Seq<char>, level: Seq<char>, message: Seq<char>)
    ensures
        ({
            let l = line(timestamp, level, message);
            let a = timestamp.len() as int;
            let b = level.len() as int;
            let c = message.len() as int;
            &&& l.len() == a + b + c + 7
            &&& l[0] == '[' && l[a + 1] == ']' && l[a + 2] == ' ' && l[a + 3] == '['
            &&& l[a + b + 4] == ']' && l[a + b + 5] == ' ' && l.last() == '\n'
            &&& l.subrange(1, a + 1) == timestamp
            &&& l.subrange(a + 4, a + b + 4) == level
            &&& l.subrange(a + b + 6, a + b + c + 6) == message
        }),
{
    reveal_strlit("] [");
    reveal_strlit("] ");
    let l = line(timestamp, level, message);
    let a = timestamp.len() as int;
    let b = level.len() as int;
    let c = message.len() as int;
    assert(l.subrange(1, a + 1) == timestamp);
    assert(l.subrange(a + 4, a + b + 4) == level);
    assert(l.subrange(a + b + 6, a + b + c + 6) == message);
}

} // verus!
