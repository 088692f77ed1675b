//! Response grammar, ACK decoding, command serialization, and the idle
//! controller.

use mpd::command::encode_command;
use mpd::error::{AckError, Error, MisuseError, ParseError, ProtoError};
use mpd::idle::{IdleController, IdleState, Subsystem};
use mpd::response::{parse_ack, parse_banner, parse_response, split_pair};
use mpd::song::Song;

fn lines(raw: &[&str]) -> Vec<String> {
    raw.iter().map(|s| s.to_string()).collect()
}

#[test]
fn split_pair_on_first_separator() {
    assert_eq!(
        split_pair("key: value: rest"),
        Some(("key".to_string(), "value: rest".to_string()))
    );
    assert_eq!(split_pair("Artist: Someone"), Some(("Artist".to_string(), "Someone".to_string())));
    assert_eq!(split_pair("no separator"), None);
    assert_eq!(split_pair(""), None);
}

#[test]
fn ack_line_decodes_structurally() {
    let ack = parse_ack("ACK [5@0] {play} song doesn't exist").unwrap();
    assert_eq!(
        ack,
        AckError {
            code: 5,
            command_index: 0,
            current_command: "play".to_string(),
            message: "song doesn't exist".to_string(),
        }
    );
}

#[test]
fn ack_empty_message_and_command() {
    let ack = parse_ack("ACK [52@3] {}").unwrap();
    assert_eq!(ack.code, 52);
    assert_eq!(ack.command_index, 3);
    assert_eq!(ack.current_command, "");
    assert_eq!(ack.message, "");
}

#[test]
fn malformed_ack_is_a_parse_error() {
    for bad in [
        "ACK",
        "ACK [5@0] play",
        "ACK [x@0] {play} msg",
        "ACK [5@y] {play} msg",
        "ACK [5@0 {play} msg",
        "ACK [5@0] {play msg",
    ] {
        assert_eq!(parse_ack(bad), Err(Error::Parse(ParseError::NotAck)), "line {:?}", bad);
    }
}

#[test]
fn response_stops_at_terminator() {
    let ls = lines(&["volume: 100", "state: stop", "OK", "file: next.ogg"]);
    let (pairs, next) = parse_response(&ls, 0).unwrap();
    assert_eq!(
        pairs,
        vec![
            ("volume".to_string(), "100".to_string()),
            ("state".to_string(), "stop".to_string()),
        ]
    );
    assert_eq!(next, 3);
}

#[test]
fn response_ack_yields_server_error() {
    let ls = lines(&["volume: 100", "ACK [50@0] {status} oops"]);
    let err = parse_response(&ls, 0).unwrap_err();
    assert_eq!(
        err,
        Error::Server(AckError {
            code: 50,
            command_index: 0,
            current_command: "status".to_string(),
            message: "oops".to_string(),
        })
    );
}

#[test]
fn response_missing_terminator_is_protocol_error() {
    let ls = lines(&["file: a.ogg", "Title: T"]);
    assert_eq!(
        parse_response(&ls, 0),
        Err(Error::Proto(ProtoError::MissingTerminator))
    );
    let empty: Vec<String> = Vec::new();
    assert_eq!(
        parse_response(&empty, 0),
        Err(Error::Proto(ProtoError::MissingTerminator))
    );
}

#[test]
fn response_malformed_line_is_protocol_error() {
    let ls = lines(&["garbage line", "OK"]);
    assert_eq!(parse_response(&ls, 0), Err(Error::Proto(ProtoError::NotPair)));
}

#[test]
fn replayed_buffer_decodes_to_equal_entities() {
    let recorded = lines(&["file: a.ogg", "Title: T", "Artist: X", "OK"]);
    let (pairs1, _) = parse_response(&recorded, 0).unwrap();
    let (pairs2, _) = parse_response(&recorded, 0).unwrap();
    assert_eq!(pairs1, pairs2);
    let song1 = Song::from_pairs(&pairs1).unwrap();
    let song2 = Song::from_pairs(&pairs2).unwrap();
    assert_eq!(song1, song2);
}

#[test]
fn response_framing_leaves_following_commands_intact() {
    let ls = lines(&["a: 1", "OK", "b: 2", "OK"]);
    let (first, next) = parse_response(&ls, 0).unwrap();
    assert_eq!(first, vec![("a".to_string(), "1".to_string())]);
    let (second, done) = parse_response(&ls, next).unwrap();
    assert_eq!(second, vec![("b".to_string(), "2".to_string())]);
    assert_eq!(done, 4);
}

#[test]
fn banner_decodes_version() {
    assert_eq!(parse_banner("OK MPD 0.23.5"), Ok("0.23.5".to_string()));
    assert_eq!(parse_banner("MPD 0.23.5"), Err(Error::Proto(ProtoError::BadBanner)));
}

#[test]
fn encode_plain_command() {
    assert_eq!(encode_command("play", &Vec::new()), "play\n");
    assert_eq!(encode_command("volume", &vec!["100".to_string()]), "volume 100\n");
}

#[test]
fn encode_quotes_arguments_with_specials() {
    assert_eq!(
        encode_command("load", &vec!["My Lounge Playlist".to_string()]),
        "load \"My Lounge Playlist\"\n"
    );
    assert_eq!(
        encode_command("find", &vec!["artist".to_string(), "a\"b\\c".to_string()]),
        "find artist \"a\\\"b\\\\c\"\n"
    );
    assert_eq!(encode_command("add", &vec!["".to_string()]), "add \"\"\n");
}

#[test]
fn idle_sequence_yields_changed_subsystems() {
    let mut ctl = IdleController::new();
    assert_eq!(ctl.state, IdleState::Active);
    assert_eq!(ctl.begin(), Ok("idle"));
    assert_eq!(ctl.state, IdleState::Waiting);
    let pairs = vec![("changed".to_string(), "player".to_string())];
    let subs = ctl.finish(&pairs).unwrap();
    assert_eq!(subs, vec![Subsystem::Player]);
    assert_eq!(ctl.state, IdleState::Active);
}

#[test]
fn noidle_while_not_idling_is_rejected() {
    let ctl = IdleController::new();
    assert_eq!(ctl.cancel(), Err(Error::Misuse(MisuseError::NotIdle)));
}

#[test]
fn idle_misuse_is_surfaced() {
    let mut ctl = IdleController::new();
    ctl.begin().unwrap();
    assert_eq!(ctl.begin(), Err(Error::Misuse(MisuseError::AlreadyIdle)));
    assert_eq!(ctl.cancel(), Ok("noidle"));
    let none: Vec<(String, String)> = Vec::new();
    assert_eq!(ctl.finish(&none), Ok(Vec::new()));
    assert_eq!(ctl.finish(&none), Err(Error::Misuse(MisuseError::NotIdle)));
}

#[test]
fn idle_decodes_multiple_and_rejects_unknown() {
    let mut ctl = IdleController::new();
    ctl.begin().unwrap();
    let pairs = vec![
        ("changed".to_string(), "mixer".to_string()),
        ("changed".to_string(), "stored_playlist".to_string()),
        ("changed".to_string(), "playlist".to_string()),
    ];
    assert_eq!(
        ctl.finish(&pairs),
        Ok(vec![Subsystem::Mixer, Subsystem::StoredPlaylist, Subsystem::Queue])
    );
    ctl.begin().unwrap();
    let pairs = vec![("changed".to_string(), "weather".to_string())];
    assert_eq!(
        ctl.finish(&pairs),
        Err(Error::Parse(ParseError::BadValue("weather".to_string())))
    );
    let pairs = vec![("modified".to_string(), "player".to_string())];
    ctl.begin().unwrap();
    assert_eq!(ctl.finish(&pairs), Err(Error::Proto(ProtoError::NotChanged)));
}
