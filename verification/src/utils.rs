//! Clock arithmetic and the small text formats around it.

use crate::text::{
    append_chars, chars_of, copy_range, decimal, decimal_of, find_char, first_index_of,
    parse_u64, parse_u64_spec, sole_char, string_of, trim, trim_spec, trimmed_char,
};
use vstd::prelude::*;

verus! {

/// The lead, in milliseconds, that a command is given over the clock of the
/// node that issues it.
pub const LEAD_TIME_MS: u64 = 1000;

/// `n` in decimal, with a zero in front where it has a single digit.
pub open spec fn two_digits(n: nat) -> Seq<char> {
    if n < 10 {
        seq!['0'] + decimal(n)
    } else {
        decimal(n)
    }
}

/// A number of seconds as minutes and seconds, `MM:SS`: each part at least
/// two digits wide, the seconds below sixty.
pub open spec fn minutes_seconds(seconds: nat) -> Seq<char> {
    two_digits(seconds / 60) + seq![':'] + two_digits(seconds % 60)
}

fn two_digits_of(n: u64) -> (out: Vec<char>)
    ensures
        out@ == two_digits(n as nat),
{
    let mut out: Vec<char> = Vec::new();
    if n < 10 {
        out.push('0');
    }
    let digits = decimal_of(n);
    append_chars(&mut out, &digits);
    out
}

/// Formats a number of seconds as `MM:SS`.
pub fn duration_to_minutes_seconds(seconds: u64) -> (out: String)
    ensures
        out@ == minutes_seconds(seconds as nat),
{
    let mut text = two_digits_of(seconds / 60);
    text.push(':');
    let tail = two_digits_of(seconds % 60);
    append_chars(&mut text, &tail);
    string_of(&text)
}

/// The instant, one lead time after `current_time_ms`, at which every node
/// is to carry out a command that is issued now. There is none where that
/// instant is past the last representable millisecond.
pub fn broadcast_start_time(current_time_ms: u64) -> (start: Option<u64>)
    ensures
        start == if current_time_ms + LEAD_TIME_MS <= u64::MAX {
            Some((current_time_ms + LEAD_TIME_MS) as u64)
        } else {
            None::<u64>
        },
{
    if current_time_ms <= u64::MAX - LEAD_TIME_MS {
        Some(current_time_ms + LEAD_TIME_MS)
    } else {
        None
    }
}

/// The time a node has to wait at `current_time_ms` before an action that is
/// due at `target_time_ms`: the difference, or nothing where the target has
/// been reached or passed.
pub open spec fn offset_ms(current_time_ms: u64, target_time_ms: u64) -> u64 {
    if current_time_ms < target_time_ms {
        (target_time_ms - current_time_ms) as u64
    } else {
        0
    }
}

/// The wait, in milliseconds, from `current_time_ms` until `target_time_ms`.
/// A target that is already due gives a wait of zero.
pub fn get_offset(current_time_ms: u64, target_time_ms: u64) -> (offset: Option<u64>)
    ensures
        offset == Some(offset_ms(current_time_ms, target_time_ms)),
{
    if current_time_ms < target_time_ms {
        Some(target_time_ms - current_time_ms)
    } else {
        Some(0)
    }
}

/// A command is due one lead time after it was issued: a node whose clock
/// stands where the issuer's stood waits exactly the lead time, one whose
/// clock is ahead by less than the lead time waits for the rest of it, and
/// one whose clock has passed the target does not wait at all.
pub proof fn lemma_lead_time(issued_ms: u64, current_time_ms: u64)
    requires
        issued_ms + LEAD_TIME_MS <= u64::MAX,
    ensures
        offset_ms(issued_ms, (issued_ms + LEAD_TIME_MS) as u64) == LEAD_TIME_MS,
        issued_ms <= current_time_ms <= issued_ms + LEAD_TIME_MS ==> offset_ms(
            current_time_ms,
            (issued_ms + LEAD_TIME_MS) as u64,
        ) == LEAD_TIME_MS - (current_time_ms - issued_ms),
        current_time_ms >= issued_ms + LEAD_TIME_MS ==> offset_ms(
            current_time_ms,
            (issued_ms + LEAD_TIME_MS) as u64,
        ) == 0,
{
}

/// The part of a message in front of its first `:`, the whole message where
/// it holds none.
pub open spec fn mode_text(input: Seq<char>) -> Seq<char> {
    input.take(first_index_of(input, ':'))
}

/// The part of a message behind its first `:`, if it holds one.
pub open spec fn timestamp_text(input: Seq<char>) -> Option<Seq<char>> {
    let colon = first_index_of(input, ':');
    if 0 <= colon < input.len() {
        Some(input.skip(colon + 1))
    } else {
        None
    }
}

/// The mode that a message names: the number written, with any whitespace
/// around it, in front of the first `:`.
pub open spec fn extract_mode_spec(input: Seq<char>) -> Option<u64> {
    parse_u64_spec(trim_spec(mode_text(input)))
}

/// The timestamp that a message names: the number written, with any
/// whitespace around it, behind the first `:`.
pub open spec fn extract_timestamp_spec(input: Seq<char>) -> Option<u64> {
    match timestamp_text(input) {
        Some(text) => parse_u64_spec(trim_spec(text)),
        None => None,
    }
}

/// Reads the timestamp of a message of the form `mode : timestamp`.
pub fn extract_timestamp(input: &str) -> (timestamp: Option<u64>)
    ensures
        timestamp == extract_timestamp_spec(input@),
{
    let chars = chars_of(input);
    let colon = find_char(&chars, ':');
    if colon < chars.len() {
        let text = copy_range(&chars, colon + 1, chars.len());
        assert(text@ == input@.skip(colon + 1));
        let trimmed = trim(&text);
        parse_u64(&trimmed)
    } else {
        None
    }
}

/// Reads the mode of a message of the form `mode : timestamp`.
pub fn extract_mode(input: &str) -> (mode: Option<u64>)
    ensures
        mode == extract_mode_spec(input@),
{
    let chars = chars_of(input);
    let colon = find_char(&chars, ':');
    let text = copy_range(&chars, 0, colon);
    let trimmed = trim(&text);
    parse_u64(&trimmed)
}

/// What a node does to its audio sink when a command falls due.
#[derive(Clone, Copy, Debug, PartialEq, Eq, Structural)]
pub enum SinkAction {
    /// Resume playing.
    Play,
    /// Pause.
    Pause,
    /// Skip to the next queued track.
    SkipOne,
    /// Seek to the start of the current track.
    SeekToStart,
    /// Say goodbye and end the session.
    Exit,
    /// Leave the sink alone.
    Nothing,
}

/// The action that a role asks for: `p` turns a paused sink on and a playing
/// one off, `n` skips, `s` ends the session, `r` starts the track again, and
/// any other role asks for nothing. Whitespace around the role is ignored.
pub open spec fn role_action(role: Seq<char>, paused: bool) -> SinkAction {
    match sole_char(trim_spec(role)) {
        Some(key) => if key == 'p' {
            if paused {
                SinkAction::Play
            } else {
                SinkAction::Pause
            }
        } else if key == 'n' {
            SinkAction::SkipOne
        } else if key == 's' {
            SinkAction::Exit
        } else if key == 'r' {
            SinkAction::SeekToStart
        } else {
            SinkAction::Nothing
        },
        None => SinkAction::Nothing,
    }
}

/// The action to carry out on the sink once the wait for the target time is
/// over, for the given role and the state in which the sink then is.
pub fn synchronized_action(role: &str, paused: bool) -> (action: SinkAction)
    ensures
        action == role_action(role@, paused),
{
    match trimmed_char(role) {
        Some(key) => if key == 'p' {
            if paused {
                SinkAction::Play
            } else {
                SinkAction::Pause
            }
        } else if key == 'n' {
            SinkAction::SkipOne
        } else if key == 's' {
            SinkAction::Exit
        } else if key == 'r' {
            SinkAction::SeekToStart
        } else {
            SinkAction::Nothing
        },
        None => SinkAction::Nothing,
    }
}

/// The milliseconds in the fraction of a second of an NTP timestamp, where
/// a fraction of `u32::MAX` stands for a whole second.
pub open spec fn fraction_millis(sec_fraction: u32) -> u32 {
    ((sec_fraction as int * 1000) / (u32::MAX as int)) as u32
}

/// `sntpc::fraction_to_milliseconds`: the fraction, times one thousand,
/// divided by `u32::MAX`, rounded down.
pub assume_specification[ sntpc::fraction_to_milliseconds ](sec_fraction: u32) -> (millis: u32)
    ensures
        millis == fraction_millis(sec_fraction),
;

/// The time of an NTP answer in milliseconds: its seconds, and the
/// milliseconds of its fraction of a second.
pub fn get_time_ms_ntp(seconds: u32, sec_fraction: u32) -> (time_ms: u64)
    ensures
        time_ms == seconds as int * 1000 + fraction_millis(sec_fraction),
{
    let millis = sntpc::fraction_to_milliseconds(sec_fraction);
    assert(fraction_millis(sec_fraction) <= 1000) by {
        assert(sec_fraction as int * 1000 <= u32::MAX as int * 1000);
    }
    (seconds as u64) * 1000 + (millis as u64)
}

/// The time of the local clock in milliseconds, from its whole seconds and
/// the milliseconds of the second that has begun.
pub fn system_time_ms(seconds: u64, subsec_millis: u32) -> (time_ms: u64)
    requires
        seconds * 1000 + subsec_millis <= u64::MAX,
    ensures
        time_ms == seconds * 1000 + subsec_millis,
{
    seconds * 1000 + (subsec_millis as u64)
}

/// Where a reading of the clock comes from.
#[derive(Clone, Copy, Debug, PartialEq, Eq, Structural)]
pub enum ClockSource {
    /// The network time source.
    Network,
    /// The local clock, because the network time source failed.
    System,
}

/// A reading of the clock, in milliseconds since the epoch.
#[derive(Clone, Copy, Debug, PartialEq, Eq, Structural)]
pub struct ClockReading {
    pub time_ms: u64,
    pub source: ClockSource,
}

/// The current time: that of the network time source where it answered,
/// else that of the local clock. The reading says which of the two it is.
pub fn current_time_ms(network_time_ms: Option<u64>, local_time_ms: u64) -> (now: ClockReading)
    ensures
        now == match network_time_ms {
            Some(time_ms) => (ClockReading { time_ms, source: ClockSource::Network }),
            None => (ClockReading { time_ms: local_time_ms, source: ClockSource::System }),
        },
{
    match network_time_ms {
        Some(time_ms) => ClockReading { time_ms, source: ClockSource::Network },
        None => ClockReading { time_ms: local_time_ms, source: ClockSource::System },
    }
}

} // verus!
