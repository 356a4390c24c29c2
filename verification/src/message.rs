//! The wire format: the messages that nodes exchange, how each is written
//! as text, and how text is read back.
//!
//! | message      | text                                   |
//! |--------------|----------------------------------------|
//! | `Ping`       | `PING,<sequence id>`                   |
//! | `Ack`        | `ACK`                                  |
//! | `TrackList`  | `tracks:<name>,<name>,...`             |
//! | `Command`    | `<code> : <target time, milliseconds>` |
//! | `Terminate`  | `Done broadcasting`                    |

use crate::text::{
    all_whitespace, append_chars, chars_of, copy_range, decimal, decimal_of, find_char,
    has_char, is_digit, is_whitespace_spec, join, join_spec, lemma_decimal_digits,
    lemma_first_index_is, lemma_parse_decimal, lemma_split_join, lemma_trim_padded, parse_u64,
    parse_u64_spec, same_chars, sole_char, split, split_spec, starts_with, string_of, trim,
    trim_spec, trimmed_char, views_of,
};
use crate::track::name_views;
use crate::utils::{extract_mode_spec, extract_timestamp_spec, mode_text, timestamp_text};
use vstd::prelude::*;

verus! {

/// A transport command.
#[derive(Clone, Copy, Debug, PartialEq, Eq, Structural)]
pub enum CommandCode {
    /// Play if paused, pause if playing.
    Toggle,
    /// Skip to the next track.
    Next,
    /// End the session.
    Stop,
    /// Start the current track again.
    Restart,
}

impl CommandCode {
    /// The number that stands for the command on the wire.
    pub open spec fn wire_number(self) -> u64 {
        match self {
            CommandCode::Toggle => 0,
            CommandCode::Next => 2,
            CommandCode::Stop => 3,
            CommandCode::Restart => 4,
        }
    }

    /// The command that a number on the wire stands for, if any.
    pub open spec fn from_wire_number(number: u64) -> Option<CommandCode> {
        if number == 0 {
            Some(CommandCode::Toggle)
        } else if number == 2 {
            Some(CommandCode::Next)
        } else if number == 3 {
            Some(CommandCode::Stop)
        } else if number == 4 {
            Some(CommandCode::Restart)
        } else {
            None
        }
    }

    /// The key by which an operator asks for the command.
    pub open spec fn key_char(self) -> char {
        match self {
            CommandCode::Toggle => 'p',
            CommandCode::Next => 'n',
            CommandCode::Stop => 's',
            CommandCode::Restart => 'r',
        }
    }

    /// The command that a line of operator input asks for: the line, without
    /// the whitespace around it, has to be one of the keys `p`, `n`, `s`, `r`.
    pub open spec fn from_key_text(input: Seq<char>) -> Option<CommandCode> {
        match sole_char(trim_spec(input)) {
            Some(key) => if key == 'p' {
                Some(CommandCode::Toggle)
            } else if key == 'n' {
                Some(CommandCode::Next)
            } else if key == 's' {
                Some(CommandCode::Stop)
            } else if key == 'r' {
                Some(CommandCode::Restart)
            } else {
                None
            },
            None => None,
        }
    }

    /// The key by which an operator asks for the command.
    pub fn key(self) -> (key: char)
        ensures
            key == self.key_char(),
    {
        match self {
            CommandCode::Toggle => 'p',
            CommandCode::Next => 'n',
            CommandCode::Stop => 's',
            CommandCode::Restart => 'r',
        }
    }

    /// Reads a line of operator input as a command.
    pub fn from_key(input: &str) -> (code: Option<CommandCode>)
        ensures
            code == Self::from_key_text(input@),
    {
        match trimmed_char(input) {
            Some(key) => if key == 'p' {
                Some(CommandCode::Toggle)
            } else if key == 'n' {
                Some(CommandCode::Next)
            } else if key == 's' {
                Some(CommandCode::Stop)
            } else if key == 'r' {
                Some(CommandCode::Restart)
            } else {
                None
            },
            None => None,
        }
    }

    /// The number that stands for the command on the wire.
    pub fn number(self) -> (number: u64)
        ensures
            number == self.wire_number(),
    {
        match self {
            CommandCode::Toggle => 0,
            CommandCode::Next => 2,
            CommandCode::Stop => 3,
            CommandCode::Restart => 4,
        }
    }

    /// The command that a number on the wire stands for, if any.
    pub fn from_number(number: u64) -> (code: Option<CommandCode>)
        ensures
            code == Self::from_wire_number(number),
    {
        if number == 0 {
            Some(CommandCode::Toggle)
        } else if number == 2 {
            Some(CommandCode::Next)
        } else if number == 3 {
            Some(CommandCode::Stop)
        } else if number == 4 {
            Some(CommandCode::Restart)
        } else {
            None
        }
    }
}

/// A message between nodes.
#[derive(Debug, PartialEq, Eq)]
pub enum SyncMessage {
    /// The leader's discovery probe.
    Ping { sequence_id: u64 },
    /// A member's answer to a probe.
    Ack,
    /// The names of the tracks of the playlist, in playing order.
    TrackList { names: Vec<String> },
    /// A transport command and the instant at which it is due.
    Command { code: CommandCode, target_time_ms: u64 },
    /// The end of the discovery phase.
    Terminate,
}

/// What a message is to the contracts.
pub enum MessageView {
    Ping { sequence_id: u64 },
    Ack,
    TrackList { names: Seq<Seq<char>> },
    Command { code: CommandCode, target_time_ms: u64 },
    Terminate,
}

impl View for SyncMessage {
    type V = MessageView;

    open spec fn view(&self) -> MessageView {
        match *self {
            SyncMessage::Ping { sequence_id } => MessageView::Ping { sequence_id },
            SyncMessage::Ack => MessageView::Ack,
            SyncMessage::TrackList { names } => MessageView::TrackList {
                names: name_views(names@),
            },
            SyncMessage::Command { code, target_time_ms } => MessageView::Command {
                code,
                target_time_ms,
            },
            SyncMessage::Terminate => MessageView::Terminate,
        }
    }
}

impl Clone for SyncMessage {
    fn clone(&self) -> (copy: Self)
        ensures
            copy@ == self@,
    {
        match self {
            SyncMessage::Ping { sequence_id } => SyncMessage::Ping { sequence_id: *sequence_id },
            SyncMessage::Ack => SyncMessage::Ack,
            SyncMessage::TrackList { names } => {
                let copies = chars_to_names(&names_to_chars(names));
                SyncMessage::TrackList { names: copies }
            },
            SyncMessage::Command { code, target_time_ms } => SyncMessage::Command {
                code: *code,
                target_time_ms: *target_time_ms,
            },
            SyncMessage::Terminate => SyncMessage::Terminate,
        }
    }
}

/// Why a piece of text is no message.
#[derive(Clone, Copy, Debug, PartialEq, Eq, Structural)]
pub enum DecodeError {
    /// The text has none of the known shapes.
    UnknownShape,
    /// A probe whose sequence id is no number.
    InvalidSequenceId,
    /// A track list that names nothing.
    EmptyTrackList,
    /// A command whose target time is no number.
    InvalidTimestamp,
    /// A command whose code is no number.
    InvalidMode,
    /// A command whose code is a number that stands for no command.
    UnknownCode,
}

/// The text of a message.
pub open spec fn encoding(message: MessageView) -> Seq<char> {
    match message {
        MessageView::Ping { sequence_id } => "PING,"@ + decimal(sequence_id as nat),
        MessageView::Ack => "ACK"@,
        MessageView::TrackList { names } => "tracks:"@ + join_spec(names, ','),
        MessageView::Command { code, target_time_ms } => decimal(code.wire_number() as nat)
            + " : "@ + decimal(target_time_ms as nat),
        MessageView::Terminate => "Done broadcasting"@,
    }
}

/// The mode and the target time of a command, as numbers: the text is split
/// at its first `:`, and each side, without the whitespace around it, has to
/// be a number. The target time is looked at first.
pub open spec fn command_numbers(text: Seq<char>) -> Result<(u64, u64), DecodeError> {
    match extract_timestamp_spec(text) {
        None => if timestamp_text(text) is None {
            Err(DecodeError::UnknownShape)
        } else {
            Err(DecodeError::InvalidTimestamp)
        },
        Some(target_time_ms) => match extract_mode_spec(text) {
            None => Err(DecodeError::InvalidMode),
            Some(mode) => Ok((mode, target_time_ms)),
        },
    }
}

/// The message that a piece of text stands for, or why it stands for none.
pub open spec fn decoding(text: Seq<char>) -> Result<MessageView, DecodeError> {
    if text == "ACK"@ {
        Ok(MessageView::Ack)
    } else if text == "Done broadcasting"@ {
        Ok(MessageView::Terminate)
    } else if "PING,"@.is_prefix_of(text) {
        match parse_u64_spec(text.skip("PING,"@.len() as int)) {
            Some(sequence_id) => Ok(MessageView::Ping { sequence_id }),
            None => Err(DecodeError::InvalidSequenceId),
        }
    } else if "tracks:"@.is_prefix_of(text) {
        let list = text.skip("tracks:"@.len() as int);
        if list.len() == 0 {
            Err(DecodeError::EmptyTrackList)
        } else {
            Ok(MessageView::TrackList { names: split_spec(list, ',') })
        }
    } else {
        match command_numbers(text) {
            Err(error) => Err(error),
            Ok((mode, target_time_ms)) => match CommandCode::from_wire_number(mode) {
                None => Err(DecodeError::UnknownCode),
                Some(code) => Ok(MessageView::Command { code, target_time_ms }),
            },
        }
    }
}

/// What `decode` returns for a piece of text, given its meaning.
pub open spec fn decoded_as(
    result: Result<SyncMessage, DecodeError>,
    meaning: Result<MessageView, DecodeError>,
) -> bool {
    match result {
        Ok(message) => meaning == Ok::<MessageView, DecodeError>(message@),
        Err(error) => meaning == Err::<MessageView, DecodeError>(error),
    }
}

fn names_to_chars(names: &Vec<String>) -> (out: Vec<Vec<char>>)
    ensures
        views_of(out@) == name_views(names@),
{
    let mut out: Vec<Vec<char>> = Vec::new();
    let mut i: usize = 0;
    while i < names.len()
        invariant
            i <= names.len(),
            out@.len() == i,
            forall|j: int| 0 <= j < i ==> #[trigger] out@[j]@ == names@[j]@,
        decreases names.len() - i,
    {
        out.push(chars_of(names[i].as_str()));
        i += 1;
    }
    assert(views_of(out@) =~= name_views(names@));
    out
}

fn chars_to_names(pieces: &Vec<Vec<char>>) -> (out: Vec<String>)
    ensures
        name_views(out@) == views_of(pieces@),
{
    let mut out: Vec<String> = Vec::new();
    let mut i: usize = 0;
    while i < pieces.len()
        invariant
            i <= pieces.len(),
            out@.len() == i,
            forall|j: int| 0 <= j < i ==> #[trigger] out@[j]@ == pieces@[j]@,
        decreases pieces.len() - i,
    {
        out.push(string_of(&pieces[i]));
        i += 1;
    }
    assert(name_views(out@) =~= views_of(pieces@));
    out
}

/// Writes a message as text.
pub fn encode(message: &SyncMessage) -> (text: String)
    ensures
        text@ == encoding(message@),
{
    match message {
        SyncMessage::Ping { sequence_id } => {
            let mut out = chars_of("PING,");
            let id = decimal_of(*sequence_id);
            append_chars(&mut out, &id);
            string_of(&out)
        },
        SyncMessage::Ack => string_of(&chars_of("ACK")),
        SyncMessage::TrackList { names } => {
            let mut out = chars_of("tracks:");
            let pieces = names_to_chars(names);
            let list = join(&pieces, ',');
            append_chars(&mut out, &list);
            string_of(&out)
        },
        SyncMessage::Command { code, target_time_ms } => {
            let mut out = decimal_of(code.number());
            append_chars(&mut out, &chars_of(" : "));
            let time = decimal_of(*target_time_ms);
            append_chars(&mut out, &time);
            string_of(&out)
        },
        SyncMessage::Terminate => string_of(&chars_of("Done broadcasting")),
    }
}

/// Reads the mode and the target time of a command of the form
/// `mode : timestamp`, whatever number the mode is.
pub fn decode_command(text: &str) -> (numbers: Result<(u64, u64), DecodeError>)
    ensures
        numbers == command_numbers(text@),
{
    let chars = chars_of(text);
    let colon = find_char(&chars, ':');
    if colon >= chars.len() {
        return Err(DecodeError::UnknownShape);
    }
    let right = copy_range(&chars, colon + 1, chars.len());
    assert(right@ == text@.skip(colon + 1));
    let timestamp = parse_u64(&trim(&right));
    let left = copy_range(&chars, 0, colon);
    let mode = parse_u64(&trim(&left));
    match timestamp {
        None => Err(DecodeError::InvalidTimestamp),
        Some(target_time_ms) => match mode {
            None => Err(DecodeError::InvalidMode),
            Some(mode) => Ok((mode, target_time_ms)),
        },
    }
}

/// Reads a message from text. Text that is no message is reported, with the
/// reason, and is never fatal.
pub fn decode(text: &str) -> (result: Result<SyncMessage, DecodeError>)
    ensures
        decoded_as(result, decoding(text@)),
{
    let chars = chars_of(text);
    let ping = chars_of("PING,");
    let tracks = chars_of("tracks:");
    if same_chars(&chars, &chars_of("ACK")) {
        Ok(SyncMessage::Ack)
    } else if same_chars(&chars, &chars_of("Done broadcasting")) {
        Ok(SyncMessage::Terminate)
    } else if starts_with(&chars, &ping) {
        let rest = copy_range(&chars, ping.len(), chars.len());
        assert(rest@ == text@.skip("PING,"@.len() as int));
        match parse_u64(&rest) {
            Some(sequence_id) => Ok(SyncMessage::Ping { sequence_id }),
            None => Err(DecodeError::InvalidSequenceId),
        }
    } else if starts_with(&chars, &tracks) {
        let list = copy_range(&chars, tracks.len(), chars.len());
        assert(list@ == text@.skip("tracks:"@.len() as int));
        if list.len() == 0 {
            Err(DecodeError::EmptyTrackList)
        } else {
            let pieces = split(&list, ',');
            let names = chars_to_names(&pieces);
            Ok(SyncMessage::TrackList { names })
        }
    } else {
        match decode_command(text) {
            Err(error) => Err(error),
            Ok((mode, target_time_ms)) => match CommandCode::from_number(mode) {
                None => Err(DecodeError::UnknownCode),
                Some(code) => Ok(SyncMessage::Command { code, target_time_ms }),
            },
        }
    }
}

/// Whether a message reads back as itself once written. Every probe,
/// answer, command and end of discovery does. A track list does where it
/// names at least one track, no name holds a comma, and it is not the list
/// of one empty name.
pub open spec fn survives_the_wire(message: MessageView) -> bool {
    match message {
        MessageView::TrackList { names } => {
            &&& names.len() > 0
            &&& forall|i: int| 0 <= i < names.len() ==> !has_char(#[trigger] names[i], ',')
            &&& join_spec(names, ',').len() > 0
        },
        _ => true,
    }
}

/// A digit is neither whitespace nor one of the marks of the wire format.
proof fn lemma_digit_is_plain(c: char)
    requires
        is_digit(c),
    ensures
        !is_whitespace_spec(c),
        c != ':',
        c != '+',
        c != 'A',
        c != 'D',
        c != 'P',
        c != 't',
{
}

/// In the text of a command the mode stands in front of the first `:` and
/// the target time behind it, each beside one space.
proof fn lemma_command_sides(code: CommandCode, target_time_ms: u64)
    ensures
        mode_text(encoding(MessageView::Command { code, target_time_ms })) == decimal(
            code.wire_number() as nat,
        ) + seq![' '],
        timestamp_text(encoding(MessageView::Command { code, target_time_ms })) == Some(
            seq![' '] + decimal(target_time_ms as nat),
        ),
{
    reveal_strlit(" : ");
    let mode = decimal(code.wire_number() as nat);
    let time = decimal(target_time_ms as nat);
    let text = encoding(MessageView::Command { code, target_time_ms });
    lemma_decimal_digits(code.wire_number() as nat);
    assert(" : "@ =~= seq![' ', ':', ' ']);
    assert(text =~= mode + seq![' ', ':', ' '] + time);
    assert forall|j: int| 0 <= j < mode.len() + 1 implies text[j] != ':' by {
        if j < mode.len() {
            assert(text[j] == mode[j]);
            lemma_digit_is_plain(mode[j]);
        }
    }
    lemma_first_index_is(text, ':', mode.len() as int + 1);
    assert(text.take(mode.len() as int + 1) =~= mode + seq![' ']);
    assert(text.skip(mode.len() as int + 2) =~= seq![' '] + time);
}

/// Timestamp and mode round trip: from the text of a command,
/// `extract_mode` reads the number of its code and `extract_timestamp` its
/// target time, for every code and every target time.
pub proof fn lemma_command_round_trip(code: CommandCode, target_time_ms: u64)
    ensures
        extract_mode_spec(encoding(MessageView::Command { code, target_time_ms })) == Some(
            code.wire_number(),
        ),
        extract_timestamp_spec(encoding(MessageView::Command { code, target_time_ms })) == Some(
            target_time_ms,
        ),
        command_numbers(encoding(MessageView::Command { code, target_time_ms })) == Ok::<
            (u64, u64),
            DecodeError,
        >((code.wire_number(), target_time_ms)),
{
    let mode = decimal(code.wire_number() as nat);
    let time = decimal(target_time_ms as nat);
    lemma_command_sides(code, target_time_ms);
    lemma_decimal_digits(code.wire_number() as nat);
    lemma_decimal_digits(target_time_ms as nat);
    lemma_digit_is_plain(mode.first());
    lemma_digit_is_plain(mode.last());
    lemma_digit_is_plain(time.first());
    lemma_digit_is_plain(time.last());
    let none = Seq::<char>::empty();
    assert(all_whitespace(none));
    assert(all_whitespace(seq![' ']));
    lemma_trim_padded(none, mode, seq![' ']);
    assert(none + mode + seq![' '] =~= mode + seq![' ']);
    lemma_trim_padded(seq![' '], time, none);
    assert(seq![' '] + time + none =~= seq![' '] + time);
    lemma_parse_decimal(code.wire_number() as nat);
    lemma_parse_decimal(target_time_ms as nat);
}

/// Reading undoes writing: the text of a message that survives the wire
/// stands for that message and no other.
pub proof fn lemma_decode_encode(message: MessageView)
    requires
        survives_the_wire(message),
    ensures
        decoding(encoding(message)) == Ok::<MessageView, DecodeError>(message),
{
    reveal_strlit("ACK");
    reveal_strlit("Done broadcasting");
    reveal_strlit("PING,");
    reveal_strlit("tracks:");
    let text = encoding(message);
    match message {
        MessageView::Ping { sequence_id } => {
            let id = decimal(sequence_id as nat);
            assert(text[0] == 'P');
            assert(text.subrange(0, "PING,"@.len() as int) =~= "PING,"@);
            assert(text.skip("PING,"@.len() as int) =~= id);
            lemma_parse_decimal(sequence_id as nat);
        },
        MessageView::Ack => {},
        MessageView::TrackList { names } => {
            let list = join_spec(names, ',');
            assert(text[0] == 't');
            assert("PING,"@[0] == 'P');
            assert(text.subrange(0, "tracks:"@.len() as int) =~= "tracks:"@);
            assert(text.skip("tracks:"@.len() as int) =~= list);
            lemma_split_join(names, ',');
        },
        MessageView::Command { code, target_time_ms } => {
            let mode = decimal(code.wire_number() as nat);
            lemma_decimal_digits(code.wire_number() as nat);
            lemma_digit_is_plain(mode[0]);
            assert(text[0] == mode[0]);
            assert("PING,"@[0] == 'P');
            assert("tracks:"@[0] == 't');
            lemma_command_round_trip(code, target_time_ms);
        },
        MessageView::Terminate => {
            assert("Done broadcasting"@[0] == 'D');
            assert("ACK"@[0] == 'A');
        },
    }
}

/// No two messages that survive the wire share their text.
pub proof fn lemma_encoding_is_unambiguous(first: MessageView, second: MessageView)
    requires
        survives_the_wire(first),
        survives_the_wire(second),
        encoding(first) == encoding(second),
    ensures
        first == second,
{
    lemma_decode_encode(first);
    lemma_decode_encode(second);
}

} // verus!
