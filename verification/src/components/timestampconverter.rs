//! Seconds since the epoch and the same instant as a date and a time.

use crate::numeral::{decimal, parse_unsigned, push_decimal, unsigned_reading};
use crate::text::chars_of;
use vstd::prelude::*;

verus! {

/// The patterns in which the widget writes and reads an instant.
#[derive(Clone, Copy, PartialEq, Eq, Structural)]
pub enum DateTimeFormat {
    /// `%Y-%m-%dT%H:%M:%SZ`
    Iso8601,
    /// `%Y-%m-%d %H:%M:%S`
    Simple,
    /// `%a, %e %b %Y %T`
    Rfc2822,
}

/// The pattern of `format`, in the notation of `strftime`.
pub open spec fn pattern_of(format: DateTimeFormat) -> Seq<char> {
    match format {
        DateTimeFormat::Iso8601 => "%Y-%m-%dT%H:%M:%SZ"@,
        DateTimeFormat::Simple => "%Y-%m-%d %H:%M:%S"@,
        DateTimeFormat::Rfc2822 => "%a, %e %b %Y %T"@,
    }
}

/// `pattern` is the pattern of one of the widget's formats.
pub open spec fn is_pattern(pattern: Seq<char>) -> bool {
    ||| pattern == pattern_of(DateTimeFormat::Iso8601)
    ||| pattern == pattern_of(DateTimeFormat::Simple)
    ||| pattern == pattern_of(DateTimeFormat::Rfc2822)
}

impl DateTimeFormat {
    /// The pattern of the format, in the notation of `strftime`.
    pub fn pattern(self) -> (pattern: &'static str)
        ensures
            pattern@ == pattern_of(self),
    {
        match self {
            DateTimeFormat::Iso8601 => "%Y-%m-%dT%H:%M:%SZ",
            DateTimeFormat::Simple => "%Y-%m-%d %H:%M:%S",
            DateTimeFormat::Rfc2822 => "%a, %e %b %Y %T",
        }
    }
}

/// The two fields of the timestamp widget and the format that it shows.
pub struct TimestampConverter {
    pub epoch: String,
    pub human: String,
    pub format: DateTimeFormat,
}

/// A `TimestampConverter` with its texts as sequences.
pub struct TimestampView {
    pub epoch: Seq<char>,
    pub human: Seq<char>,
    pub format: DateTimeFormat,
}

impl View for TimestampConverter {
    type V = TimestampView;

    open spec fn view(&self) -> TimestampView {
        TimestampView { epoch: self.epoch@, human: self.human@, format: self.format }
    }
}

/// What can happen to the timestamp widget.
pub enum TimestampConverterMsg {
    /// The epoch field was edited.
    ConvertEpoch(String),
    /// The date field was edited.
    ConvertHuman(String),
    /// Another format was chosen.
    ChangeFormat(DateTimeFormat),
    /// The host was asked for the time and gave this answer, a date in the
    /// form of RFC 2822.
    SetNow(String),
}

/// How chrono writes the instant `secs` seconds after the epoch, in UTC,
/// under `pattern`; nothing where chrono has no date for the instant.
pub uninterp spec fn formatted_instant(secs: int, pattern: Seq<char>) -> Option<Seq<char>>;

/// The seconds from the epoch to the date and time that chrono reads from
/// `text` under `pattern`, taken as UTC; nothing where chrono reads none.
pub uninterp spec fn parsed_instant(text: Seq<char>, pattern: Seq<char>) -> Option<int>;

/// The seconds from the epoch to the instant that chrono reads from `text`
/// as a date of RFC 2822; nothing where chrono reads no such date.
pub uninterp spec fn rfc2822_instant(text: Seq<char>) -> Option<int>;

/// How chrono writes, under `pattern`, the date and time that it reads from
/// `text` as a date of RFC 2822, as the text's own offset from UTC has them;
/// nothing where chrono reads no such date.
pub uninterp spec fn rfc2822_text(text: Seq<char>, pattern: Seq<char>) -> Option<Seq<char>>;

/// The error that chrono gives for a text that it cannot read.
#[verifier::external_type_specification]
#[verifier::external_body]
pub struct ExParseError(chrono::format::ParseError);

/// `chrono::DateTime::from_timestamp` makes the UTC date and time of an
/// instant, or none where the instant is out of its range;
/// `chrono::DateTime::format` writes it under a pattern. The result is
/// `formatted_instant` of the arguments. The pattern is one of the widget's
/// own, which chrono accepts: a pattern in error makes the writing panic.
#[verifier::external_body]
fn format_instant(secs: i64, pattern: &str) -> (text: Option<String>)
    requires
        is_pattern(pattern@),
    ensures
        match text {
            Some(t) => formatted_instant(secs as int, pattern@) == Some(t@),
            None => formatted_instant(secs as int, pattern@) is None,
        },
{
    chrono::DateTime::from_timestamp(secs, 0).map(|dt| dt.format(pattern).to_string())
}

/// `chrono::NaiveDateTime::parse_from_str` reads a date and time under a
/// pattern, and `chrono::DateTime::timestamp` counts the seconds from the
/// epoch to it, taken as UTC. The result is `parsed_instant` of the
/// arguments.
#[verifier::external_body]
fn parse_instant(text: &str, pattern: &str) -> (instant: Result<i64, chrono::format::ParseError>)
    ensures
        match instant {
            Ok(secs) => parsed_instant(text@, pattern@) == Some(secs as int),
            Err(_) => parsed_instant(text@, pattern@) is None,
        },
{
    chrono::NaiveDateTime::parse_from_str(text, pattern).map(|dt| dt.and_utc().timestamp())
}

/// `chrono::DateTime::parse_from_rfc2822` reads a date of RFC 2822;
/// `chrono::DateTime::timestamp` counts the seconds from the epoch to it, and
/// `chrono::DateTime::format` writes it under a pattern, at the offset that
/// the text gave. The seconds are `rfc2822_instant` of the text, whatever
/// the pattern, and the writing is `rfc2822_text` of the arguments; where
/// chrono reads no date, both are nothing.
#[verifier::external_body]
fn parse_rfc2822(text: &str, pattern: &str) -> (now: Result<
    (i64, String),
    chrono::format::ParseError,
>)
    requires
        is_pattern(pattern@),
    ensures
        match now {
            Ok((secs, human)) => rfc2822_instant(text@) == Some(secs as int) && rfc2822_text(
                text@,
                pattern@,
            ) == Some(human@),
            Err(_) => rfc2822_instant(text@) is None && rfc2822_text(text@, pattern@) is None,
        },
{
    chrono::DateTime::parse_from_rfc2822(text).map(
        |dt| (dt.timestamp(), dt.format(pattern).to_string()),
    )
}

/// The seconds that an epoch text spells: an unsigned integer that 64 bits
/// hold.
pub open spec fn epoch_reading(s: Seq<char>) -> Option<int> {
    unsigned_reading(s, 10, u64::MAX as int)
}

/// The date and time of the instant `secs` seconds after the epoch under
/// `format`: nothing where chrono has no date for it.
pub open spec fn instant_text(secs: int, format: DateTimeFormat) -> Option<Seq<char>> {
    if secs <= i64::MAX {
        formatted_instant(secs, pattern_of(format))
    } else {
        None
    }
}

/// The date and time of an epoch text under `format`: nothing where the text
/// spells no seconds, or seconds for which chrono has no date.
pub open spec fn human_reading(s: Seq<char>, format: DateTimeFormat) -> Option<Seq<char>> {
    match epoch_reading(s) {
        Some(secs) => instant_text(secs, format),
        None => None,
    }
}

/// The fields after `msg`.
pub open spec fn after(state: TimestampView, msg: TimestampConverterMsg) -> TimestampView {
    match msg {
        TimestampConverterMsg::ConvertEpoch(value) => after_epoch(
            state,
            value@,
            human_reading(value@, state.format),
        ),
        TimestampConverterMsg::ConvertHuman(value) => after_human(
            state,
            value@,
            parsed_instant(value@, pattern_of(state.format)),
        ),
        TimestampConverterMsg::ChangeFormat(format) => after_format(
            state,
            format,
            match human_reading(state.epoch, format) {
                Some(human) => Some((epoch_reading(state.epoch).unwrap(), human)),
                None => None,
            },
        ),
        TimestampConverterMsg::SetNow(answer) => after_now(
            state,
            match (rfc2822_instant(answer@), rfc2822_text(answer@, pattern_of(state.format))) {
                (Some(secs), Some(human)) => Some((secs, human)),
                _ => None,
            },
        ),
    }
}

/// The fields after `value` was typed into the epoch field, where `human`
/// is the date and time that the seconds have, if any: the typed text stays,
/// and the date field follows where there is a date.
pub open spec fn after_epoch(
    state: TimestampView,
    value: Seq<char>,
    human: Option<Seq<char>>,
) -> TimestampView {
    match human {
        Some(text) => TimestampView { epoch: value, human: text, ..state },
        None => TimestampView { epoch: value, ..state },
    }
}

/// The fields after `value` was typed into the date field, where `instant`
/// is the seconds that it reads as, if any: the typed text stays, and the
/// epoch field follows in decimal where there is an instant.
pub open spec fn after_human(
    state: TimestampView,
    value: Seq<char>,
    instant: Option<int>,
) -> TimestampView {
    match instant {
        Some(secs) => TimestampView { epoch: decimal(secs), human: value, ..state },
        None => TimestampView { human: value, ..state },
    }
}

/// The fields after `format` was chosen, where `shown` holds the seconds of
/// the epoch field and their date under the new format, if there are both:
/// the date is written anew, and the epoch in plain decimal.
pub open spec fn after_format(
    state: TimestampView,
    format: DateTimeFormat,
    shown: Option<(int, Seq<char>)>,
) -> TimestampView {
    match shown {
        Some((secs, human)) => TimestampView { epoch: decimal(secs), human, format },
        None => TimestampView { format, ..state },
    }
}

/// The fields after the host gave the time, where `now` holds its seconds
/// and its date, if the answer was read: both fields show it.
pub open spec fn after_now(state: TimestampView, now: Option<(int, Seq<char>)>) -> TimestampView {
    match now {
        Some((secs, human)) => TimestampView { epoch: decimal(secs), human, ..state },
        None => state,
    }
}

/// The decimal text of `secs`.
fn decimal_text(secs: i64) -> (text: String)
    ensures
        text@ == decimal(secs as int),
{
    let mut text = String::new();
    push_decimal(&mut text, secs);
    proof {
        assert(text@ =~= decimal(secs as int));
    }
    text
}

/// Reads the seconds of an epoch text.
pub fn parse_epoch(text: &str) -> (secs: Option<u64>)
    ensures
        match secs {
            Some(s) => epoch_reading(text@) == Some(s as int),
            None => epoch_reading(text@) is None,
        },
{
    let chars = chars_of(text);
    parse_unsigned(chars.as_slice(), 10, u64::MAX)
}

/// Writes the date and time of the instant `secs` seconds after the epoch
/// under `format`.
pub fn human_of(secs: u64, format: DateTimeFormat) -> (human: Option<String>)
    ensures
        match human {
            Some(h) => instant_text(secs as int, format) == Some(h@),
            None => instant_text(secs as int, format) is None,
        },
{
    if secs <= 0x7fff_ffff_ffff_ffff {
        format_instant(secs as i64, format.pattern())
    } else {
        None
    }
}

/// Writes the date and time of an epoch text under `format`.
pub fn human_from(text: &str, format: DateTimeFormat) -> (human: Option<String>)
    ensures
        match human {
            Some(h) => human_reading(text@, format) == Some(h@),
            None => human_reading(text@, format) is None,
        },
{
    match parse_epoch(text) {
        Some(secs) => human_of(secs, format),
        None => None,
    }
}

impl TimestampConverter {
    /// The widget before any input: two empty fields and the first format.
    pub fn create() -> (fresh: Self)
        ensures
            fresh@ == (TimestampView {
                epoch: Seq::empty(),
                human: Seq::empty(),
                format: DateTimeFormat::Iso8601,
            }),
    {
        TimestampConverter {
            epoch: String::new(),
            human: String::new(),
            format: DateTimeFormat::Iso8601,
        }
    }

    /// Settles an edit of the epoch field: `value` was typed, and `human` is
    /// the date and time of its seconds, if it has one.
    pub fn epoch_edited(&mut self, value: String, human: Option<String>)
        ensures
            final(self)@ == after_epoch(
                old(self)@,
                value@,
                match human {
                    Some(text) => Some(text@),
                    None => None,
                },
            ),
    {
        if let Some(text) = human {
            self.human = text;
        }
        self.epoch = value;
    }

    /// Settles an edit of the date field: `value` was typed, and `instant`
    /// is the seconds that it reads as, if any.
    pub fn human_edited(&mut self, value: String, instant: Option<i64>)
        ensures
            final(self)@ == after_human(
                old(self)@,
                value@,
                match instant {
                    Some(secs) => Some(secs as int),
                    None => None,
                },
            ),
    {
        if let Some(secs) = instant {
            self.epoch = decimal_text(secs);
        }
        self.human = value;
    }

    /// Settles a change of format: `shown` holds the seconds of the epoch
    /// field and their date under the new format, if there are both.
    pub fn format_changed(&mut self, format: DateTimeFormat, shown: Option<(i64, String)>)
        ensures
            final(self)@ == after_format(
                old(self)@,
                format,
                match shown {
                    Some((secs, human)) => Some((secs as int, human@)),
                    None => None,
                },
            ),
    {
        self.format = format;
        if let Some((secs, human)) = shown {
            self.epoch = decimal_text(secs);
            self.human = human;
        }
    }

    /// Settles the host's answer for the time: `now` holds its seconds and
    /// its date, if the answer was read.
    pub fn now_set(&mut self, now: Option<(i64, String)>)
        ensures
            final(self)@ == after_now(
                old(self)@,
                match now {
                    Some((secs, human)) => Some((secs as int, human@)),
                    None => None,
                },
            ),
    {
        if let Some((secs, human)) = now {
            self.epoch = decimal_text(secs);
            self.human = human;
        }
    }

    /// Takes one message and says whether the widget is to be drawn again,
    /// which it always is. An edit keeps the typed text in its own field and
    /// derives the other field where chrono has a value for it. A change of
    /// format always takes effect, and writes both fields anew where the
    /// epoch field spells seconds that have a date. The host's answer fills
    /// both fields where it reads as a date of RFC 2822, and changes nothing
    /// where it does not.
    pub fn update(&mut self, msg: TimestampConverterMsg) -> (render: bool)
        ensures
            render,
            final(self)@ == after(old(self)@, msg),
    {
        match msg {
            TimestampConverterMsg::ConvertEpoch(value) => {
                let human = human_from(value.as_str(), self.format);
                self.epoch_edited(value, human);
            },
            TimestampConverterMsg::ConvertHuman(value) => {
                let instant = match parse_instant(value.as_str(), self.format.pattern()) {
                    Ok(secs) => Some(secs),
                    Err(_) => None,
                };
                self.human_edited(value, instant);
            },
            TimestampConverterMsg::ChangeFormat(format) => {
                let shown = match parse_epoch(self.epoch.as_str()) {
                    Some(secs) => {
                        match human_of(secs, format) {
                            Some(human) => Some((secs as i64, human)),
                            None => None,
                        }
                    },
                    None => None,
                };
                self.format_changed(format, shown);
            },
            TimestampConverterMsg::SetNow(answer) => {
                let now = match parse_rfc2822(answer.as_str(), self.format.pattern()) {
                    Ok(reading) => Some(reading),
                    Err(_) => None,
                };
                self.now_set(now);
            },
        }
        true
    }
}

} // verus!
