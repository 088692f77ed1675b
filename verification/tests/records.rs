//! Entity decoders: song, status, output.

use mpd::error::{Error, ParseError, ProtoError};
use mpd::message::{Channel, Message};
use mpd::mount::{Mount, Neighbor};
use mpd::playlist::Playlist;
use mpd::plugin::Plugin;
use mpd::song::{Id, QueuePlace, Range, Song};
use mpd::stats::Stats;
use mpd::status::{AudioFormat, ReplayGain, State, Status};
use mpd::Output;

fn pairs(raw: &[(&str, &str)]) -> Vec<(String, String)> {
    raw.iter().map(|(k, v)| (k.to_string(), v.to_string())).collect()
}

#[test]
fn output_from_map_decodes_fields() {
    let p = pairs(&[("outputid", "0"), ("outputname", "My ALSA Device"), ("outputenabled", "1")]);
    let out = Output::from_map(&p).unwrap();
    assert_eq!(
        out,
        Output { id: 0, name: "My ALSA Device".to_string(), enabled: true }
    );
}

#[test]
fn output_disabled_and_unordered() {
    let p = pairs(&[("outputenabled", "0"), ("outputid", "3"), ("outputname", "httpd")]);
    let out = Output::from_map(&p).unwrap();
    assert_eq!(out, Output { id: 3, name: "httpd".to_string(), enabled: false });
}

#[test]
fn output_missing_field_names_the_key() {
    let p = pairs(&[("outputid", "0"), ("outputenabled", "1")]);
    assert_eq!(
        Output::from_map(&p),
        Err(Error::Proto(ProtoError::NoField("outputname".to_string())))
    );
    let p = pairs(&[("outputname", "x"), ("outputenabled", "1")]);
    assert_eq!(
        Output::from_map(&p),
        Err(Error::Proto(ProtoError::NoField("outputid".to_string())))
    );
    let p = pairs(&[("outputid", "0"), ("outputname", "x")]);
    assert_eq!(
        Output::from_map(&p),
        Err(Error::Proto(ProtoError::NoField("outputenabled".to_string())))
    );
}

#[test]
fn output_bad_value_names_key_and_value() {
    let p = pairs(&[("outputid", "zero"), ("outputname", "x"), ("outputenabled", "1")]);
    assert_eq!(
        Output::from_map(&p),
        Err(Error::Parse(ParseError::BadField("outputid".to_string(), "zero".to_string())))
    );
}

#[test]
fn output_later_duplicate_key_wins() {
    let p = pairs(&[
        ("outputid", "1"),
        ("outputname", "first"),
        ("outputname", "second"),
        ("outputenabled", "1"),
    ]);
    let out = Output::from_map(&p).unwrap();
    assert_eq!(out.name, "second");
}

#[test]
fn range_text_forms() {
    assert_eq!(Range::from_str("10-20"), Ok(Range(10, Some(20))));
    assert_eq!(Range::from_str("-20"), Ok(Range(0, Some(20))));
    assert_eq!(Range::from_str("10-"), Ok(Range(10, None)));
    assert_eq!(Range::from_str(""), Ok(Range(0, None)));
}

#[test]
fn range_rejects_bad_sides() {
    assert_eq!(Range::from_str("a-b"), Err(ParseError::BadRange));
    assert_eq!(Range::from_str("10-x"), Err(ParseError::BadRange));
}

#[test]
fn range_to_text() {
    assert_eq!(Range(10, Some(20)).to_text(), "10:20");
    assert_eq!(Range(10, None).to_text(), "10:");
    assert_eq!(Range(0, Some(7)).to_text(), "0:7");
}

#[test]
fn id_text_and_default() {
    assert_eq!(Id(7).to_text(), "7");
    assert_eq!(Id::default(), Id(0));
    assert_eq!(Range::default(), Range(0, None));
}

#[test]
fn audio_format_integral_bits() {
    assert_eq!(
        AudioFormat::from_str("44100:16:2"),
        Ok(AudioFormat { rate: 44100, bits: 16, chans: 2 })
    );
}

#[test]
fn audio_format_floating_bits() {
    assert_eq!(
        AudioFormat::from_str("48000:f:6"),
        Ok(AudioFormat { rate: 48000, bits: 0, chans: 6 })
    );
}

#[test]
fn audio_format_errors() {
    assert_eq!(AudioFormat::from_str(""), Err(ParseError::BadRate));
    assert_eq!(AudioFormat::from_str("x:16:2"), Err(ParseError::BadRate));
    assert_eq!(AudioFormat::from_str("44100"), Err(ParseError::NoBits));
    assert_eq!(AudioFormat::from_str("44100:g:2"), Err(ParseError::BadBits));
    assert_eq!(AudioFormat::from_str("44100:16"), Err(ParseError::NoChans));
    assert_eq!(AudioFormat::from_str("44100:16:y"), Err(ParseError::BadChans));
}

#[test]
fn state_from_str() {
    assert_eq!(State::from_str("stop"), Ok(State::Stop));
    assert_eq!(State::from_str("play"), Ok(State::Play));
    assert_eq!(State::from_str("pause"), Ok(State::Pause));
    assert_eq!(
        State::from_str("sleep"),
        Err(ParseError::BadState("sleep".to_string()))
    );
    assert_eq!(State::default(), State::Stop);
}

#[test]
fn replay_gain_round_trip() {
    for (text, mode) in [
        ("off", ReplayGain::Off),
        ("track", ReplayGain::Track),
        ("album", ReplayGain::Album),
        ("auto", ReplayGain::Auto),
    ] {
        assert_eq!(ReplayGain::from_str(text), Ok(mode));
        assert_eq!(mode.to_text(), text);
    }
    assert_eq!(
        ReplayGain::from_str("loud"),
        Err(ParseError::BadValue("loud".to_string()))
    );
}

#[test]
fn song_decodes_full_record() {
    let p = pairs(&[
        ("file", "music/a.ogg"),
        ("Title", "A Song"),
        ("Name", "A Stream"),
        ("Last-Modified", "2009-11-10T23:00:00Z"),
        ("Time", "240"),
        ("Range", "10-20"),
        ("Id", "7"),
        ("Pos", "3"),
        ("Prio", "9"),
        ("Artist", "Somebody"),
        ("Album", "Something"),
    ]);
    let song = Song::from_pairs(&p).unwrap();
    assert_eq!(song.file, "music/a.ogg");
    assert_eq!(song.title, Some("A Song".to_string()));
    assert_eq!(song.name, Some("A Stream".to_string()));
    assert_eq!(song.last_mod, Some(1257894000));
    assert_eq!(song.duration, Some(240));
    assert_eq!(song.range, Some(Range(10, Some(20))));
    assert_eq!(song.place, Some(QueuePlace { id: Id(7), pos: 3, prio: 9 }));
    assert_eq!(
        song.tags,
        vec![
            ("Artist".to_string(), "Somebody".to_string()),
            ("Album".to_string(), "Something".to_string()),
        ]
    );
}

#[test]
fn song_place_assembles_in_either_order() {
    let forward = pairs(&[("Id", "7"), ("Pos", "3")]);
    let backward = pairs(&[("Pos", "3"), ("Id", "7")]);
    let a = Song::from_pairs(&forward).unwrap();
    let b = Song::from_pairs(&backward).unwrap();
    let expected = Some(QueuePlace { id: Id(7), pos: 3, prio: 0 });
    assert_eq!(a.place, expected);
    assert_eq!(b.place, expected);
    assert_eq!(a, b);
}

#[test]
fn song_duplicate_tag_key_replaces_value() {
    let p = pairs(&[("Genre", "Rock"), ("Genre", "Jazz")]);
    let song = Song::from_pairs(&p).unwrap();
    assert_eq!(song.tags, vec![("Genre".to_string(), "Jazz".to_string())]);
}

#[test]
fn song_bad_values_are_fatal() {
    let p = pairs(&[("Time", "soon")]);
    assert_eq!(Song::from_pairs(&p), Err(Error::Parse(ParseError::BadInteger)));
    let p = pairs(&[("Last-Modified", "not-a-date")]);
    assert_eq!(Song::from_pairs(&p), Err(Error::Parse(ParseError::BadTime)));
    let p = pairs(&[("Range", "x-y")]);
    assert_eq!(Song::from_pairs(&p), Err(Error::Parse(ParseError::BadRange)));
    let p = pairs(&[("Id", "many")]);
    assert_eq!(Song::from_pairs(&p), Err(Error::Parse(ParseError::BadInteger)));
}

#[test]
fn song_decode_is_repeatable() {
    let p = pairs(&[("file", "a.ogg"), ("Id", "1"), ("Artist", "X")]);
    let once = Song::from_pairs(&p).unwrap();
    let twice = Song::from_pairs(&p).unwrap();
    assert_eq!(once, twice);
}

#[test]
fn status_decodes_full_record() {
    let p = pairs(&[
        ("volume", "-1"),
        ("repeat", "1"),
        ("random", "0"),
        ("single", "1"),
        ("consume", "0"),
        ("playlist", "42"),
        ("playlistlength", "11"),
        ("state", "play"),
        ("songid", "7"),
        ("song", "3"),
        ("nextsongid", "8"),
        ("nextsong", "4"),
        ("time", "123:240"),
        ("elapsed", "123.456"),
        ("duration", "240"),
        ("bitrate", "192"),
        ("xfade", "5"),
        ("mixrampdb", "0.000000"),
        ("audio", "44100:16:2"),
        ("updating_db", "2"),
        ("error", "problem"),
        ("replay_gain_mode", "track"),
    ]);
    let st = Status::from_pairs(&p).unwrap();
    assert_eq!(st.volume, -1);
    assert!(st.repeat);
    assert!(!st.random);
    assert!(st.single);
    assert!(!st.consume);
    assert_eq!(st.queue_version, 42);
    assert_eq!(st.queue_len, 11);
    assert_eq!(st.state, State::Play);
    assert_eq!(st.song, Some(QueuePlace { id: Id(7), pos: 3, prio: 0 }));
    assert_eq!(st.nextsong, Some(QueuePlace { id: Id(8), pos: 4, prio: 0 }));
    assert_eq!(st.time, Some((123, 240)));
    assert_eq!(st.elapsed, Some(123456));
    assert_eq!(st.duration, Some(240));
    assert_eq!(st.bitrate, Some(192));
    assert_eq!(st.crossfade, Some(5));
    assert_eq!(st.mixrampdelay, None);
    assert_eq!(st.audio, Some(AudioFormat { rate: 44100, bits: 16, chans: 2 }));
    assert_eq!(st.updating_db, Some(2));
    assert_eq!(st.error, Some("problem".to_string()));
    assert_eq!(st.replaygain, Some(ReplayGain::Track));
}

#[test]
fn status_elapsed_failure_is_tolerated() {
    let p = pairs(&[("elapsed", "soon"), ("volume", "50")]);
    let st = Status::from_pairs(&p).unwrap();
    assert_eq!(st.elapsed, None);
    assert_eq!(st.volume, 50);
}

#[test]
fn status_elapsed_millisecond_truncation() {
    for (text, ms) in [("5", 5000i64), ("5.", 5000), (".5", 500), ("1.2399", 1239), ("0.07", 70)] {
        let p = pairs(&[("elapsed", text)]);
        let st = Status::from_pairs(&p).unwrap();
        assert_eq!(st.elapsed, Some(ms), "elapsed text {:?}", text);
    }
}

#[test]
fn status_time_without_colon_is_absent() {
    let p = pairs(&[("time", "123")]);
    let st = Status::from_pairs(&p).unwrap();
    assert_eq!(st.time, None);
}

#[test]
fn status_bad_values_are_fatal() {
    let p = pairs(&[("volume", "loud")]);
    assert_eq!(Status::from_pairs(&p), Err(Error::Parse(ParseError::BadInteger)));
    let p = pairs(&[("state", "sleep")]);
    assert_eq!(
        Status::from_pairs(&p),
        Err(Error::Parse(ParseError::BadState("sleep".to_string())))
    );
    let p = pairs(&[("time", "x:240")]);
    assert_eq!(Status::from_pairs(&p), Err(Error::Parse(ParseError::BadInteger)));
    let p = pairs(&[("audio", "44100")]);
    assert_eq!(Status::from_pairs(&p), Err(Error::Parse(ParseError::NoBits)));
}

#[test]
fn status_ignores_unknown_keys() {
    let p = pairs(&[("volume", "30"), ("partition", "default"), ("lastloadedplaylist", "")]);
    let st = Status::from_pairs(&p).unwrap();
    assert_eq!(st.volume, 30);
    assert_eq!(st, Status { volume: 30, ..Status::default() });
}

#[test]
fn status_decode_is_repeatable() {
    let p = pairs(&[("state", "pause"), ("elapsed", "1.5")]);
    assert_eq!(Status::from_pairs(&p).unwrap(), Status::from_pairs(&p).unwrap());
}

#[test]
fn stats_decodes_full_record() {
    let p = pairs(&[
        ("artists", "64"),
        ("albums", "128"),
        ("songs", "1024"),
        ("uptime", "3600"),
        ("playtime", "5400"),
        ("db_playtime", "86400"),
        ("db_update", "1257894000"),
    ]);
    assert_eq!(
        Stats::from_map(&p),
        Ok(Stats {
            artists: 64,
            albums: 128,
            songs: 1024,
            uptime: 3600,
            playtime: 5400,
            db_playtime: 86400,
            db_update: 1257894000,
        })
    );
}

#[test]
fn stats_errors_name_the_field() {
    let p = pairs(&[("albums", "128")]);
    assert_eq!(
        Stats::from_map(&p),
        Err(Error::Proto(ProtoError::NoField("artists".to_string())))
    );
    let p = pairs(&[
        ("artists", "many"),
        ("albums", "128"),
        ("songs", "1"),
        ("uptime", "1"),
        ("playtime", "1"),
        ("db_playtime", "1"),
        ("db_update", "1"),
    ]);
    assert_eq!(
        Stats::from_map(&p),
        Err(Error::Parse(ParseError::BadField("artists".to_string(), "many".to_string())))
    );
}

#[test]
fn playlist_decodes_name_and_timestamp() {
    let p = pairs(&[("playlist", "Lounge"), ("Last-Modified", "2009-11-10T23:00:00Z")]);
    assert_eq!(
        Playlist::from_map(&p),
        Ok(Playlist { name: "Lounge".to_string(), last_mod: 1257894000 })
    );
    let p = pairs(&[("playlist", "Lounge"), ("Last-Modified", "yesterday")]);
    assert_eq!(Playlist::from_map(&p), Err(Error::Parse(ParseError::BadTime)));
    let p = pairs(&[("Last-Modified", "2009-11-10T23:00:00Z")]);
    assert_eq!(
        Playlist::from_map(&p),
        Err(Error::Proto(ProtoError::NoField("playlist".to_string())))
    );
}

#[test]
fn plugin_accumulates_suffixes_and_mime_types() {
    let p = pairs(&[
        ("plugin", "vorbis"),
        ("suffix", "ogg"),
        ("suffix", "oga"),
        ("mime_type", "audio/ogg"),
        ("ignored", "x"),
    ]);
    assert_eq!(
        Plugin::from_pairs(&p),
        Plugin {
            name: "vorbis".to_string(),
            suffixes: vec!["ogg".to_string(), "oga".to_string()],
            mime_types: vec!["audio/ogg".to_string()],
        }
    );
}

#[test]
fn mount_and_neighbor_decode() {
    let p = pairs(&[("mount", "media"), ("storage", "nfs://server/export")]);
    assert_eq!(
        Mount::from_map(&p),
        Ok(Mount { name: "media".to_string(), storage: "nfs://server/export".to_string() })
    );
    let p = pairs(&[("neighbor", "smb://share"), ("name", "share")]);
    assert_eq!(
        Neighbor::from_map(&p),
        Ok(Neighbor { name: "share".to_string(), storage: "smb://share".to_string() })
    );
    let p = pairs(&[("mount", "media")]);
    assert_eq!(
        Mount::from_map(&p),
        Err(Error::Proto(ProtoError::NoField("storage".to_string())))
    );
}

#[test]
fn message_decodes_channel_and_text() {
    let p = pairs(&[("channel", "ratings"), ("message", "5 stars")]);
    assert_eq!(
        Message::from_map(&p),
        Ok(Message { channel: Channel("ratings".to_string()), message: "5 stars".to_string() })
    );
    let p = pairs(&[("channel", "ratings")]);
    assert_eq!(
        Message::from_map(&p),
        Err(Error::Proto(ProtoError::NoField("message".to_string())))
    );
}
