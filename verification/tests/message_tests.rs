use syncstream::message::{decode, decode_command, encode, CommandCode, DecodeError, SyncMessage};

const CODES: [CommandCode; 4] = [
    CommandCode::Toggle,
    CommandCode::Next,
    CommandCode::Stop,
    CommandCode::Restart,
];

fn names(list: &[&str]) -> Vec<String> {
    list.iter().map(|s| s.to_string()).collect()
}

#[test]
fn codes_and_their_numbers() {
    assert_eq!(CommandCode::Toggle.number(), 0);
    assert_eq!(CommandCode::Next.number(), 2);
    assert_eq!(CommandCode::Stop.number(), 3);
    assert_eq!(CommandCode::Restart.number(), 4);
    assert_eq!(CommandCode::from_number(0), Some(CommandCode::Toggle));
    assert_eq!(CommandCode::from_number(1), None);
    assert_eq!(CommandCode::from_number(2), Some(CommandCode::Next));
    assert_eq!(CommandCode::from_number(3), Some(CommandCode::Stop));
    assert_eq!(CommandCode::from_number(4), Some(CommandCode::Restart));
    assert_eq!(CommandCode::from_number(5), None);
    assert_eq!(CommandCode::from_number(u64::MAX), None);
    for code in CODES {
        assert_eq!(CommandCode::from_number(code.number()), Some(code));
    }
}

#[test]
fn codes_and_their_keys() {
    assert_eq!(CommandCode::Toggle.key(), 'p');
    assert_eq!(CommandCode::Next.key(), 'n');
    assert_eq!(CommandCode::Stop.key(), 's');
    assert_eq!(CommandCode::Restart.key(), 'r');
    assert_eq!(CommandCode::from_key("p"), Some(CommandCode::Toggle));
    assert_eq!(CommandCode::from_key("n\n"), Some(CommandCode::Next));
    assert_eq!(CommandCode::from_key("  s  "), Some(CommandCode::Stop));
    assert_eq!(CommandCode::from_key("r\r\n"), Some(CommandCode::Restart));
    assert_eq!(CommandCode::from_key(""), None);
    assert_eq!(CommandCode::from_key("\n"), None);
    assert_eq!(CommandCode::from_key("q"), None);
    assert_eq!(CommandCode::from_key("N"), None);
    assert_eq!(CommandCode::from_key("pn"), None);
    assert_eq!(CommandCode::from_key("0"), None);
}

#[test]
fn each_message_has_its_text() {
    assert_eq!(encode(&SyncMessage::Ping { sequence_id: 1 }), "PING,1");
    assert_eq!(encode(&SyncMessage::Ping { sequence_id: 0 }), "PING,0");
    assert_eq!(
        encode(&SyncMessage::Ping { sequence_id: u64::MAX }),
        "PING,18446744073709551615"
    );
    assert_eq!(encode(&SyncMessage::Ack), "ACK");
    assert_eq!(encode(&SyncMessage::Terminate), "Done broadcasting");
    assert_eq!(
        encode(&SyncMessage::TrackList { names: names(&["Intro", "Outro"]) }),
        "tracks:Intro,Outro"
    );
    assert_eq!(encode(&SyncMessage::TrackList { names: names(&["Solo"]) }), "tracks:Solo");
    assert_eq!(encode(&SyncMessage::TrackList { names: names(&[]) }), "tracks:");
    assert_eq!(
        encode(&SyncMessage::Command { code: CommandCode::Toggle, target_time_ms: 1234 }),
        "0 : 1234"
    );
    assert_eq!(
        encode(&SyncMessage::Command { code: CommandCode::Next, target_time_ms: 0 }),
        "2 : 0"
    );
    assert_eq!(
        encode(&SyncMessage::Command { code: CommandCode::Stop, target_time_ms: u64::MAX }),
        "3 : 18446744073709551615"
    );
    assert_eq!(
        encode(&SyncMessage::Command { code: CommandCode::Restart, target_time_ms: 1_700_000_000_000 }),
        "4 : 1700000000000"
    );
}

#[test]
fn each_text_has_its_message() {
    assert_eq!(decode("PING,17"), Ok(SyncMessage::Ping { sequence_id: 17 }));
    assert_eq!(decode("PING,+17"), Ok(SyncMessage::Ping { sequence_id: 17 }));
    assert_eq!(decode("ACK"), Ok(SyncMessage::Ack));
    assert_eq!(decode("Done broadcasting"), Ok(SyncMessage::Terminate));
    assert_eq!(
        decode("tracks:Intro,Outro"),
        Ok(SyncMessage::TrackList { names: names(&["Intro", "Outro"]) })
    );
    assert_eq!(
        decode("tracks:a:b, c ,"),
        Ok(SyncMessage::TrackList { names: names(&["a:b", " c ", ""]) })
    );
    assert_eq!(
        decode("0 : 1234"),
        Ok(SyncMessage::Command { code: CommandCode::Toggle, target_time_ms: 1234 })
    );
    assert_eq!(
        decode("2:5"),
        Ok(SyncMessage::Command { code: CommandCode::Next, target_time_ms: 5 })
    );
    assert_eq!(
        decode(" 03 :\t0007\n"),
        Ok(SyncMessage::Command { code: CommandCode::Stop, target_time_ms: 7 })
    );
}

#[test]
fn command_round_trip() {
    let times = [
        0u64,
        1,
        9,
        10,
        999,
        1000,
        1_700_000_000_000,
        u64::MAX - 1,
        u64::MAX,
    ];
    for code in CODES {
        for target_time_ms in times {
            let message = SyncMessage::Command { code, target_time_ms };
            let text = encode(&message);
            assert_eq!(decode(&text), Ok(message));
            assert_eq!(decode_command(&text), Ok((code.number(), target_time_ms)));
            assert_eq!(syncstream::utils::extract_mode(&text), Some(code.number()));
            assert_eq!(syncstream::utils::extract_timestamp(&text), Some(target_time_ms));
        }
    }
}

#[test]
fn ping_round_trip() {
    for sequence_id in [0u64, 1, 2, 10, 4_294_967_296, u64::MAX] {
        let message = SyncMessage::Ping { sequence_id };
        assert_eq!(decode(&encode(&message)), Ok(message));
    }
}

#[test]
fn fixed_messages_round_trip() {
    assert_eq!(decode(&encode(&SyncMessage::Ack)), Ok(SyncMessage::Ack));
    assert_eq!(decode(&encode(&SyncMessage::Terminate)), Ok(SyncMessage::Terminate));
}

#[test]
fn track_list_round_trip_with_unicode() {
    let list = names(&["Ä", "日本", "Track 3"]);
    let text = encode(&SyncMessage::TrackList { names: list.clone() });
    assert_eq!(text, "tracks:Ä,日本,Track 3");
    assert_eq!(decode(&text), Ok(SyncMessage::TrackList { names: list }));
}

#[test]
fn track_lists_round_trip() {
    let lists = [
        names(&["a"]),
        names(&["a", "b", "c"]),
        names(&["", "x"]),
        names(&["x", ""]),
        names(&["", ""]),
        names(&["PING,", "ACK"][1..]),
        names(&["naïve café", "Ünïcödé 🎵", "한국어"]),
        names(&["with:colon", " padded "]),
    ];
    for list in lists {
        let message = SyncMessage::TrackList { names: list };
        assert_eq!(decode(&encode(&message)), Ok(message));
    }
}

#[test]
fn track_lists_that_do_not_round_trip() {
    // No names, or one empty name: the text names nothing.
    assert_eq!(
        decode(&encode(&SyncMessage::TrackList { names: names(&[]) })),
        Err(DecodeError::EmptyTrackList)
    );
    assert_eq!(
        decode(&encode(&SyncMessage::TrackList { names: names(&[""]) })),
        Err(DecodeError::EmptyTrackList)
    );
    // A comma inside a name reads as a separator.
    assert_eq!(
        decode(&encode(&SyncMessage::TrackList { names: names(&["a,b"]) })),
        Ok(SyncMessage::TrackList { names: names(&["a", "b"]) })
    );
}

#[test]
fn malformed_messages_are_reported_and_dropped() {
    assert_eq!(decode("garbage"), Err(DecodeError::UnknownShape));
    assert_eq!(decode(":"), Err(DecodeError::InvalidTimestamp));
    assert_eq!(decode("tracks:"), Err(DecodeError::EmptyTrackList));
    assert_eq!(decode("PING,notanumber"), Err(DecodeError::InvalidSequenceId));
}

#[test]
fn each_decode_error_has_its_input() {
    assert_eq!(decode(""), Err(DecodeError::UnknownShape));
    assert_eq!(decode("PING"), Err(DecodeError::UnknownShape));
    assert_eq!(decode("ack"), Err(DecodeError::UnknownShape));
    assert_eq!(decode("ACK "), Err(DecodeError::UnknownShape));
    assert_eq!(decode("p"), Err(DecodeError::UnknownShape));
    assert_eq!(decode("PING,"), Err(DecodeError::InvalidSequenceId));
    assert_eq!(decode("PING, 5"), Err(DecodeError::InvalidSequenceId));
    assert_eq!(decode("PING,5,6"), Err(DecodeError::InvalidSequenceId));
    assert_eq!(decode("PING,18446744073709551616"), Err(DecodeError::InvalidSequenceId));
    assert_eq!(decode("0 :"), Err(DecodeError::InvalidTimestamp));
    assert_eq!(decode("0 : x"), Err(DecodeError::InvalidTimestamp));
    assert_eq!(decode("0 : 1 : 2"), Err(DecodeError::InvalidTimestamp));
    assert_eq!(decode("x : y"), Err(DecodeError::InvalidTimestamp));
    assert_eq!(decode(": 5"), Err(DecodeError::InvalidMode));
    assert_eq!(decode("x : 5"), Err(DecodeError::InvalidMode));
    assert_eq!(decode("Tracks:5"), Err(DecodeError::InvalidMode));
    assert_eq!(decode("1 : 5"), Err(DecodeError::UnknownCode));
    assert_eq!(decode("5 : 5"), Err(DecodeError::UnknownCode));
}

#[test]
fn commands_as_numbers() {
    assert_eq!(decode_command("0 : 1234"), Ok((0, 1234)));
    assert_eq!(decode_command("1 : 1234"), Ok((1, 1234)));
    assert_eq!(decode_command("99:0"), Ok((99, 0)));
    assert_eq!(decode_command("garbage"), Err(DecodeError::UnknownShape));
    assert_eq!(decode_command(":"), Err(DecodeError::InvalidTimestamp));
    assert_eq!(decode_command("1:"), Err(DecodeError::InvalidTimestamp));
    assert_eq!(decode_command(":1"), Err(DecodeError::InvalidMode));
    assert_eq!(decode_command("tracks:7"), Err(DecodeError::InvalidMode));
}

#[test]
fn message_clones_are_equal() {
    let messages = [
        SyncMessage::Ping { sequence_id: 3 },
        SyncMessage::Ack,
        SyncMessage::TrackList { names: names(&["Ä", "b"]) },
        SyncMessage::Command { code: CommandCode::Restart, target_time_ms: 9 },
        SyncMessage::Terminate,
    ];
    for message in messages {
        assert_eq!(message.clone(), message);
    }
}
