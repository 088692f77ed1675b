//! Server status: playback state, replay-gain mode, audio format, and the
//! sequential-pair decoder that assembles a status record, silently
//! ignoring unrecognized keys.

use vstd::prelude::*;

use crate::error::{Error, ErrorModel, ParseError, ParseErrorModel};
use crate::song::{place_with_id, place_with_pos, QueuePlace};
use crate::text::{all_digits, check_all_digits, dec_val, int_val, is_int_text, is_u32_text,
    is_u8_text, lemma_dec_val_nonneg, lemma_dec_val_upper, lemma_spec_find, parse_i8, parse_i64,
    parse_u32, parse_u64, parse_u8, pow10, spec_find, find_from, str_eq};

verus! {

/// Playback state.
#[derive(Debug, Copy, Clone, PartialEq, Eq, Structural)]
pub enum State {
    /// player stopped
    Stop,
    /// player playing
    Play,
    /// player paused
    Pause,
}

impl Default for State {
    fn default() -> (r: State)
        ensures
            r == State::Stop,
    {
        State::Stop
    }
}

/// The decoded form of playback-state text: exactly `stop`, `play` or
/// `pause`; anything else is rejected, carrying the offending text.
pub open spec fn spec_parse_state(s: Seq<char>) -> Result<State, ParseErrorModel> {
    if s == "stop"@ {
        Ok(State::Stop)
    } else if s == "play"@ {
        Ok(State::Play)
    } else if s == "pause"@ {
        Ok(State::Pause)
    } else {
        Err(ParseErrorModel::BadState(s))
    }
}

impl State {
    /// Parses playback-state text.
    pub fn from_str(s: &str) -> (r: Result<State, ParseError>)
        ensures
            match r {
                Ok(st) => spec_parse_state(s@) == Ok::<State, ParseErrorModel>(st),
                Err(e) => spec_parse_state(s@) == Err::<State, ParseErrorModel>(e@),
            },
    {
        if str_eq(s, "stop") {
            Ok(State::Stop)
        } else if str_eq(s, "play") {
            Ok(State::Play)
        } else if str_eq(s, "pause") {
            Ok(State::Pause)
        } else {
            Err(ParseError::BadState(s.to_owned()))
        }
    }
}

/// Replay gain mode.
#[derive(Debug, Copy, Clone, PartialEq, Eq, Structural)]
pub enum ReplayGain {
    /// no replay gain applied
    Off,
    /// per-track gain
    Track,
    /// per-album gain
    Album,
    /// automatic choice
    Auto,
}

/// The decoded form of replay-gain text: exactly `off`, `track`, `album`
/// or `auto`.
pub open spec fn spec_parse_replay_gain(s: Seq<char>) -> Result<ReplayGain, ParseErrorModel> {
    if s == "off"@ {
        Ok(ReplayGain::Off)
    } else if s == "track"@ {
        Ok(ReplayGain::Track)
    } else if s == "album"@ {
        Ok(ReplayGain::Album)
    } else if s == "auto"@ {
        Ok(ReplayGain::Auto)
    } else {
        Err(ParseErrorModel::BadValue(s))
    }
}

/// Wire text of a replay-gain mode.
pub open spec fn spec_replay_gain_text(g: ReplayGain) -> Seq<char> {
    match g {
        ReplayGain::Off => "off"@,
        ReplayGain::Track => "track"@,
        ReplayGain::Album => "album"@,
        ReplayGain::Auto => "auto"@,
    }
}

impl ReplayGain {
    /// Parses replay-gain text.
    pub fn from_str(s: &str) -> (r: Result<ReplayGain, ParseError>)
        ensures
            match r {
                Ok(g) => spec_parse_replay_gain(s@) == Ok::<ReplayGain, ParseErrorModel>(g),
                Err(e) => spec_parse_replay_gain(s@) == Err::<ReplayGain, ParseErrorModel>(e@),
            },
    {
        if str_eq(s, "off") {
            Ok(ReplayGain::Off)
        } else if str_eq(s, "track") {
            Ok(ReplayGain::Track)
        } else if str_eq(s, "album") {
            Ok(ReplayGain::Album)
        } else if str_eq(s, "auto") {
            Ok(ReplayGain::Auto)
        } else {
            Err(ParseError::BadValue(s.to_owned()))
        }
    }

    /// Wire text of the mode, as sent back to the server.
    pub fn to_text(&self) -> (t: &'static str)
        ensures
            t@ == spec_replay_gain_text(*self),
    {
        match self {
            ReplayGain::Off => "off",
            ReplayGain::Track => "track",
            ReplayGain::Album => "album",
            ReplayGain::Auto => "auto",
        }
    }
}

/// Audio playback format.
#[derive(Debug, Copy, Clone, PartialEq, Eq, Structural)]
pub struct AudioFormat {
    /// sample rate, samples per second
    pub rate: u32,
    /// sample resolution in bits; zero stands for floating-point
    /// resolution
    pub bits: u8,
    /// number of channels
    pub chans: u8,
}

/// The decoded form of audio-format text `<rate>:<bits>:<channels>`. A
/// literal `f` in the bits position means floating-point resolution,
/// represented as bit depth zero. Text after a third colon is ignored.
pub open spec fn spec_parse_audio(s: Seq<char>) -> Result<AudioFormat, ParseErrorModel> {
    let rate_end = match spec_find(s, ':', 0) {
        Some(i) => i,
        None => s.len() as int,
    };
    let rate_txt = s.subrange(0, rate_end);
    if !is_u32_text(rate_txt) {
        Err(ParseErrorModel::BadRate)
    } else if rate_end == s.len() {
        Err(ParseErrorModel::NoBits)
    } else {
        let bits_end = match spec_find(s, ':', rate_end + 1) {
            Some(i) => i,
            None => s.len() as int,
        };
        let bits_txt = s.subrange(rate_end + 1, bits_end);
        if !(bits_txt == "f"@ || is_u8_text(bits_txt)) {
            Err(ParseErrorModel::BadBits)
        } else if bits_end == s.len() {
            Err(ParseErrorModel::NoChans)
        } else {
            let chans_end = match spec_find(s, ':', bits_end + 1) {
                Some(i) => i,
                None => s.len() as int,
            };
            let chans_txt = s.subrange(bits_end + 1, chans_end);
            if !is_u8_text(chans_txt) {
                Err(ParseErrorModel::BadChans)
            } else {
                Ok(AudioFormat {
                    rate: dec_val(rate_txt) as u32,
                    bits: if bits_txt == "f"@ { 0u8 } else { dec_val(bits_txt) as u8 },
                    chans: dec_val(chans_txt) as u8,
                })
            }
        }
    }
}

impl AudioFormat {
    /// Parses audio-format text `<rate>:<bits>:<channels>`.
    pub fn from_str(s: &str) -> (r: Result<AudioFormat, ParseError>)
        ensures
            match r {
                Ok(af) => spec_parse_audio(s@) == Ok::<AudioFormat, ParseErrorModel>(af),
                Err(e) => spec_parse_audio(s@) == Err::<AudioFormat, ParseErrorModel>(e@),
            },
    {
        let len = s.unicode_len();
        let rate_end = match find_from(s, ':', 0) {
            Some(i) => {
                proof {
                    lemma_spec_find(s@, ':', 0);
                }
                i
            },
            None => len,
        };
        let rate = match parse_u32(s.substring_char(0, rate_end)) {
            Some(v) => v,
            None => return Err(ParseError::BadRate),
        };
        if rate_end == len {
            return Err(ParseError::NoBits);
        }
        let bits_end = match find_from(s, ':', rate_end + 1) {
            Some(i) => {
                proof {
                    lemma_spec_find(s@, ':', rate_end as int + 1);
                }
                i
            },
            None => len,
        };
        let bits_txt = s.substring_char(rate_end + 1, bits_end);
        let bits: u8 = if str_eq(bits_txt, "f") {
            0
        } else {
            match parse_u8(bits_txt) {
                Some(v) => {
                    proof {
                        reveal_strlit("f");
                        assert(bits_txt@[0] != 'f' || bits_txt@.len() != 1 || "f"@[0] == 'f');
                        if bits_txt@ == "f"@ {
                            assert(bits_txt@[0] == 'f');
                            assert(!crate::text::is_digit('f'));
                        }
                    }
                    v
                },
                None => return Err(ParseError::BadBits),
            }
        };
        if bits_end == len {
            return Err(ParseError::NoChans);
        }
        let chans_end = match find_from(s, ':', bits_end + 1) {
            Some(i) => {
                proof {
                    lemma_spec_find(s@, ':', bits_end as int + 1);
                }
                i
            },
            None => len,
        };
        let chans = match parse_u8(s.substring_char(bits_end + 1, chans_end)) {
            Some(v) => v,
            None => return Err(ParseError::BadChans),
        };
        Ok(AudioFormat { rate, bits, chans })
    }
}

/// Milliseconds in the fractional part of elapsed-time text: the first
/// three fractional digits, padded with zeros on the right.
pub open spec fn spec_frac_ms(fp: Seq<char>) -> int {
    if fp.len() >= 3 {
        dec_val(fp.subrange(0, 3))
    } else if fp.len() == 2 {
        dec_val(fp) * 10
    } else if fp.len() == 1 {
        dec_val(fp) * 100
    } else {
        0
    }
}

/// The decoded form of elapsed-time text: seconds with optional
/// fractional precision, converted to whole milliseconds by truncation.
/// `None` for text outside that grammar or beyond the representable
/// range — the elapsed field tolerates failure.
pub open spec fn spec_elapsed_ms(s: Seq<char>) -> Option<i64> {
    let ip = match spec_find(s, '.', 0) {
        Some(i) => s.subrange(0, i),
        None => s,
    };
    let fp = match spec_find(s, '.', 0) {
        Some(i) => s.subrange(i + 1, s.len() as int),
        None => Seq::<char>::empty(),
    };
    if !(all_digits(ip) && all_digits(fp) && ip.len() + fp.len() > 0) {
        None
    } else if dec_val(ip) * 1000 + spec_frac_ms(fp) > i64::MAX {
        None
    } else {
        Some((dec_val(ip) * 1000 + spec_frac_ms(fp)) as i64)
    }
}

/// Parses elapsed-time text into whole milliseconds.
fn parse_elapsed_ms(s: &str) -> (r: Option<i64>)
    ensures
        r == spec_elapsed_ms(s@),
{
    let len = s.unicode_len();
    let dot = find_from(s, '.', 0);
    let ip: &str = match dot {
        Some(i) => {
            proof {
                lemma_spec_find(s@, '.', 0);
            }
            s.substring_char(0, i)
        },
        None => s,
    };
    let fp: &str = match dot {
        Some(i) => s.substring_char(i + 1, len),
        None => "",
    };
    proof {
        reveal_strlit("");
        if dot is None {
            assert(fp@ =~= Seq::<char>::empty());
        }
    }
    if !check_all_digits(ip) || !check_all_digits(fp) {
        return None;
    }
    let il = ip.unicode_len();
    let fl = fp.unicode_len();
    if il == 0 && fl == 0 {
        return None;
    }
    let frac: u64 = if fl >= 3 {
        let t = fp.substring_char(0, 3);
        proof {
            assert(all_digits(t@));
            lemma_dec_val_upper(t@);
            reveal_with_fuel(pow10, 4);
        }
        match parse_u64(t) {
            Some(v) => v,
            None => {
                proof {
                    assert(false);
                }
                0
            },
        }
    } else if fl > 0 {
        proof {
            lemma_dec_val_upper(fp@);
            reveal_with_fuel(pow10, 4);
        }
        match parse_u64(fp) {
            Some(v) => {
                if fl == 2 {
                    v * 10
                } else {
                    v * 100
                }
            },
            None => {
                proof {
                    assert(false);
                }
                0
            },
        }
    } else {
        0
    };
    assert(frac as int == spec_frac_ms(fp@));
    proof {
        if fl >= 3 {
            lemma_dec_val_upper(fp@.subrange(0, 3));
        } else {
            lemma_dec_val_upper(fp@);
        }
        reveal_with_fuel(pow10, 4);
        assert(frac < 1000);
    }
    let secs: u64 = if il == 0 {
        0
    } else {
        match parse_u64(ip) {
            Some(v) => v,
            None => {
                proof {
                    lemma_dec_val_nonneg(fp@);
                    assert(dec_val(ip@) * 1000 + spec_frac_ms(fp@) > i64::MAX)
                        by (nonlinear_arith)
                        requires
                            dec_val(ip@) > u64::MAX,
                            spec_frac_ms(fp@) >= 0;
                }
                return None;
            },
        }
    };
    assert(secs as int == dec_val(ip@));
    if secs > (i64::MAX as u64 - frac) / 1000 {
        proof {
            assert(dec_val(ip@) * 1000 + spec_frac_ms(fp@) > i64::MAX) by (nonlinear_arith)
                requires
                    dec_val(ip@) == secs as int,
                    spec_frac_ms(fp@) == frac as int,
                    secs > (i64::MAX as u64 - frac) / 1000,
                    0 <= frac < 1000;
        }
        return None;
    }
    proof {
        assert(secs * 1000 + frac <= i64::MAX) by (nonlinear_arith)
            requires
                secs <= (i64::MAX as u64 - frac) / 1000,
                0 <= frac < 1000;
    }
    Some((secs * 1000 + frac) as i64)
}

/// The decoded form of play-time text `<elapsed>:<total>` in whole
/// seconds. Text without a colon that still parses as one integer yields
/// no pair; a malformed side is an integer parse error.
pub open spec fn spec_time_pair(s: Seq<char>) -> Result<Option<(i64, i64)>, ParseErrorModel> {
    match spec_find(s, ':', 0) {
        None => {
            if is_int_text(s) && -i64::MAX <= int_val(s) <= i64::MAX {
                Ok(None)
            } else {
                Err(ParseErrorModel::BadInteger)
            }
        },
        Some(i) => {
            let a = s.subrange(0, i);
            let b = s.subrange(i + 1, s.len() as int);
            if !(is_int_text(a) && -i64::MAX <= int_val(a) <= i64::MAX) {
                Err(ParseErrorModel::BadInteger)
            } else if !(is_int_text(b) && -i64::MAX <= int_val(b) <= i64::MAX) {
                Err(ParseErrorModel::BadInteger)
            } else {
                Ok(Some((int_val(a) as i64, int_val(b) as i64)))
            }
        },
    }
}

/// Parses play-time text `<elapsed>:<total>`.
fn parse_time_pair(s: &str) -> (r: Result<Option<(i64, i64)>, ParseError>)
    ensures
        match r {
            Ok(p) => spec_time_pair(s@) == Ok::<Option<(i64, i64)>, ParseErrorModel>(p),
            Err(e) => spec_time_pair(s@) == Err::<Option<(i64, i64)>, ParseErrorModel>(e@),
        },
{
    let len = s.unicode_len();
    match find_from(s, ':', 0) {
        None => {
            match parse_i64(s) {
                Some(_) => Ok(None),
                None => Err(ParseError::BadInteger),
            }
        },
        Some(i) => {
            proof {
                lemma_spec_find(s@, ':', 0);
            }
            let a = match parse_i64(s.substring_char(0, i)) {
                Some(v) => v,
                None => return Err(ParseError::BadInteger),
            };
            let b = match parse_i64(s.substring_char(i + 1, len)) {
                Some(v) => v,
                None => return Err(ParseError::BadInteger),
            };
            Ok(Some((a, b)))
        },
    }
}

/// Mathematical image of a [`Status`].
pub ghost struct StatusModel {
    pub volume: i8,
    pub repeat: bool,
    pub random: bool,
    pub single: bool,
    pub consume: bool,
    pub queue_version: u32,
    pub queue_len: u32,
    pub state: State,
    pub song: Option<QueuePlace>,
    pub nextsong: Option<QueuePlace>,
    pub time: Option<(i64, i64)>,
    pub elapsed: Option<i64>,
    pub duration: Option<i64>,
    pub bitrate: Option<u32>,
    pub crossfade: Option<i64>,
    pub mixrampdelay: Option<i64>,
    pub audio: Option<AudioFormat>,
    pub updating_db: Option<u32>,
    pub error: Option<Seq<char>>,
    pub replaygain: Option<ReplayGain>,
}

/// Server status assembled from one record's key/value pairs.
#[derive(Debug, Clone, PartialEq, Eq)]
pub struct Status {
    /// volume: 0..100, or -1 when volume is unavailable
    pub volume: i8,
    /// repeat mode
    pub repeat: bool,
    /// random mode
    pub random: bool,
    /// single mode
    pub single: bool,
    /// consume mode
    pub consume: bool,
    /// queue version number
    pub queue_version: u32,
    /// queue length
    pub queue_len: u32,
    /// playback state
    pub state: State,
    /// place in the queue of the song now playing
    pub song: Option<QueuePlace>,
    /// place in the queue of the next song to play
    pub nextsong: Option<QueuePlace>,
    /// time the current song has played, and its total duration, in whole
    /// seconds
    pub time: Option<(i64, i64)>,
    /// elapsed play time of the current song, in whole milliseconds
    pub elapsed: Option<i64>,
    /// duration of the current song in whole seconds
    pub duration: Option<i64>,
    /// bitrate of the current song, kilobits per second
    pub bitrate: Option<u32>,
    /// crossfade timeout in whole seconds
    pub crossfade: Option<i64>,
    /// mixramp delay in whole seconds
    pub mixrampdelay: Option<i64>,
    /// audio playback format
    pub audio: Option<AudioFormat>,
    /// database-update job number, while an update is in progress
    pub updating_db: Option<u32>,
    /// last player error, until cleared
    pub error: Option<String>,
    /// replay gain mode
    pub replaygain: Option<ReplayGain>,
}

impl View for Status {
    type V = StatusModel;

    open spec fn view(&self) -> StatusModel {
        StatusModel {
            volume: self.volume,
            repeat: self.repeat,
            random: self.random,
            single: self.single,
            consume: self.consume,
            queue_version: self.queue_version,
            queue_len: self.queue_len,
            state: self.state,
            song: self.song,
            nextsong: self.nextsong,
            time: self.time,
            elapsed: self.elapsed,
            duration: self.duration,
            bitrate: self.bitrate,
            crossfade: self.crossfade,
            mixrampdelay: self.mixrampdelay,
            audio: self.audio,
            updating_db: self.updating_db,
            error: self.error.deep_view(),
            replaygain: self.replaygain,
        }
    }
}

/// The empty status, before any pair is applied.
pub open spec fn spec_status_init() -> StatusModel {
    StatusModel {
        volume: 0,
        repeat: false,
        random: false,
        single: false,
        consume: false,
        queue_version: 0,
        queue_len: 0,
        state: State::Stop,
        song: None,
        nextsong: None,
        time: None,
        elapsed: None,
        duration: None,
        bitrate: None,
        crossfade: None,
        mixrampdelay: None,
        audio: None,
        updating_db: None,
        error: None,
        replaygain: None,
    }
}

impl Default for Status {
    fn default() -> (r: Status)
        ensures
            r@ == spec_status_init(),
    {
        Status {
            volume: 0,
            repeat: false,
            random: false,
            single: false,
            consume: false,
            queue_version: 0,
            queue_len: 0,
            state: State::Stop,
            song: None,
            nextsong: None,
            time: None,
            elapsed: None,
            duration: None,
            bitrate: None,
            crossfade: None,
            mixrampdelay: None,
            audio: None,
            updating_db: None,
            error: None,
            replaygain: None,
        }
    }
}

/// How one key/value pair advances a partly decoded status. Recognized
/// keys set their field — a malformed value is fatal, except for
/// `elapsed`, whose failure is tolerated and yields absence — and
/// unrecognized keys are ignored silently.
pub open spec fn spec_status_step(m: StatusModel, key: Seq<char>, value: Seq<char>) -> Result<
    StatusModel,
    ErrorModel,
> {
    if key == "volume"@ {
        if is_int_text(value) && i8::MIN <= int_val(value) <= i8::MAX {
            Ok(StatusModel { volume: int_val(value) as i8, ..m })
        } else {
            Err(ErrorModel::Parse(ParseErrorModel::BadInteger))
        }
    } else if key == "repeat"@ {
        Ok(StatusModel { repeat: value == "1"@, ..m })
    } else if key == "random"@ {
        Ok(StatusModel { random: value == "1"@, ..m })
    } else if key == "single"@ {
        Ok(StatusModel { single: value == "1"@, ..m })
    } else if key == "consume"@ {
        Ok(StatusModel { consume: value == "1"@, ..m })
    } else if key == "playlist"@ {
        if is_u32_text(value) {
            Ok(StatusModel { queue_version: dec_val(value) as u32, ..m })
        } else {
            Err(ErrorModel::Parse(ParseErrorModel::BadInteger))
        }
    } else if key == "playlistlength"@ {
        if is_u32_text(value) {
            Ok(StatusModel { queue_len: dec_val(value) as u32, ..m })
        } else {
            Err(ErrorModel::Parse(ParseErrorModel::BadInteger))
        }
    } else if key == "state"@ {
        match spec_parse_state(value) {
            Ok(st) => Ok(StatusModel { state: st, ..m }),
            Err(e) => Err(ErrorModel::Parse(e)),
        }
    } else if key == "songid"@ {
        if is_u32_text(value) {
            Ok(StatusModel { song: Some(place_with_id(m.song, dec_val(value) as u32)), ..m })
        } else {
            Err(ErrorModel::Parse(ParseErrorModel::BadInteger))
        }
    } else if key == "song"@ {
        if is_u32_text(value) {
            Ok(StatusModel { song: Some(place_with_pos(m.song, dec_val(value) as u32)), ..m })
        } else {
            Err(ErrorModel::Parse(ParseErrorModel::BadInteger))
        }
    } else if key == "nextsongid"@ {
        if is_u32_text(value) {
            Ok(StatusModel {
                nextsong: Some(place_with_id(m.nextsong, dec_val(value) as u32)),
                ..m
            })
        } else {
            Err(ErrorModel::Parse(ParseErrorModel::BadInteger))
        }
    } else if key == "nextsong"@ {
        if is_u32_text(value) {
            Ok(StatusModel {
                nextsong: Some(place_with_pos(m.nextsong, dec_val(value) as u32)),
                ..m
            })
        } else {
            Err(ErrorModel::Parse(ParseErrorModel::BadInteger))
        }
    } else if key == "time"@ {
        match spec_time_pair(value) {
            Ok(p) => Ok(StatusModel { time: p, ..m }),
            Err(e) => Err(ErrorModel::Parse(e)),
        }
    } else if key == "elapsed"@ {
        Ok(StatusModel { elapsed: spec_elapsed_ms(value), ..m })
    } else if key == "duration"@ {
        if is_int_text(value) && -i64::MAX <= int_val(value) <= i64::MAX {
            Ok(StatusModel { duration: Some(int_val(value) as i64), ..m })
        } else {
            Err(ErrorModel::Parse(ParseErrorModel::BadInteger))
        }
    } else if key == "bitrate"@ {
        if is_u32_text(value) {
            Ok(StatusModel { bitrate: Some(dec_val(value) as u32), ..m })
        } else {
            Err(ErrorModel::Parse(ParseErrorModel::BadInteger))
        }
    } else if key == "xfade"@ {
        if is_int_text(value) && -i64::MAX <= int_val(value) <= i64::MAX {
            Ok(StatusModel { crossfade: Some(int_val(value) as i64), ..m })
        } else {
            Err(ErrorModel::Parse(ParseErrorModel::BadInteger))
        }
    } else if key == "audio"@ {
        match spec_parse_audio(value) {
            Ok(af) => Ok(StatusModel { audio: Some(af), ..m }),
            Err(e) => Err(ErrorModel::Parse(e)),
        }
    } else if key == "updating_db"@ {
        if is_u32_text(value) {
            Ok(StatusModel { updating_db: Some(dec_val(value) as u32), ..m })
        } else {
            Err(ErrorModel::Parse(ParseErrorModel::BadInteger))
        }
    } else if key == "error"@ {
        Ok(StatusModel { error: Some(value), ..m })
    } else if key == "replay_gain_mode"@ {
        match spec_parse_replay_gain(value) {
            Ok(g) => Ok(StatusModel { replaygain: Some(g), ..m }),
            Err(e) => Err(ErrorModel::Parse(e)),
        }
    } else {
        Ok(m)
    }
}

/// Folds a record's pairs over a partly decoded status, left to right.
pub open spec fn spec_status_fold(m: StatusModel, pairs: Seq<(Seq<char>, Seq<char>)>) -> Result<
    StatusModel,
    ErrorModel,
>
    decreases pairs.len(),
{
    if pairs.len() == 0 {
        Ok(m)
    } else {
        match spec_status_step(m, pairs[0].0, pairs[0].1) {
            Ok(m2) => spec_status_fold(m2, pairs.drop_first()),
            Err(e) => Err(e),
        }
    }
}

/// The decoded form of one full status record.
pub open spec fn spec_status_from_pairs(pairs: Seq<(Seq<char>, Seq<char>)>) -> Result<
    StatusModel,
    ErrorModel,
> {
    spec_status_fold(spec_status_init(), pairs)
}

impl Status {
    /// Decodes one status record from its key/value pairs, consuming the
    /// whole sequence. Placement sub-fields of the current and next song
    /// merge order-independently; unrecognized keys are ignored.
    #[verifier::rlimit(100)]
    pub fn from_pairs(pairs: &Vec<(String, String)>) -> (r: Result<Status, Error>)
        ensures
            match r {
                Ok(st) => spec_status_from_pairs(pairs.deep_view()) == Ok::<
                    StatusModel,
                    ErrorModel,
                >(st@),
                Err(e) => spec_status_from_pairs(pairs.deep_view()) == Err::<
                    StatusModel,
                    ErrorModel,
                >(e@),
            },
    {
        let ghost pdv = pairs.deep_view();
        let mut st = Status::default();
        let n = pairs.len();
        let mut i: usize = 0;
        proof {
            assert(pdv.skip(0) =~= pdv);
        }
        while i < n
            invariant
                0 <= i <= n,
                n == pairs@.len(),
                pdv == pairs.deep_view(),
                spec_status_from_pairs(pdv) == spec_status_fold(st@, pdv.skip(i as int)),
            decreases n - i,
        {
            proof {
                assert(pdv[i as int] == (pairs@[i as int].0@, pairs@[i as int].1@));
                assert(pdv.skip(i as int)[0] == pdv[i as int]);
                assert(pdv.skip(i as int).drop_first() =~= pdv.skip(i as int + 1));
            }
            let key = &pairs[i].0;
            let value = &pairs[i].1;
            let ghost before = st@;
            if str_eq(key.as_str(), "volume") {
                match parse_i8(value.as_str()) {
                    Some(v) => {
                        st.volume = v;
                    },
                    None => {
                        return Err(Error::Parse(ParseError::BadInteger));
                    },
                }
            } else if str_eq(key.as_str(), "repeat") {
                st.repeat = str_eq(value.as_str(), "1");
            } else if str_eq(key.as_str(), "random") {
                st.random = str_eq(value.as_str(), "1");
            } else if str_eq(key.as_str(), "single") {
                st.single = str_eq(value.as_str(), "1");
            } else if str_eq(key.as_str(), "consume") {
                st.consume = str_eq(value.as_str(), "1");
            } else if str_eq(key.as_str(), "playlist") {
                match parse_u32(value.as_str()) {
                    Some(v) => {
                        st.queue_version = v;
                    },
                    None => {
                        return Err(Error::Parse(ParseError::BadInteger));
                    },
                }
            } else if str_eq(key.as_str(), "playlistlength") {
                match parse_u32(value.as_str()) {
                    Some(v) => {
                        st.queue_len = v;
                    },
                    None => {
                        return Err(Error::Parse(ParseError::BadInteger));
                    },
                }
            } else if str_eq(key.as_str(), "state") {
                match State::from_str(value.as_str()) {
                    Ok(v) => {
                        st.state = v;
                    },
                    Err(e) => {
                        return Err(Error::Parse(e));
                    },
                }
            } else if str_eq(key.as_str(), "songid") {
                match parse_u32(value.as_str()) {
                    Some(v) => {
                        st.song = Some(match st.song {
                            Some(q) => QueuePlace { id: crate::song::Id(v), ..q },
                            None => QueuePlace { id: crate::song::Id(v), pos: 0, prio: 0 },
                        });
                    },
                    None => {
                        return Err(Error::Parse(ParseError::BadInteger));
                    },
                }
            } else if str_eq(key.as_str(), "song") {
                match parse_u32(value.as_str()) {
                    Some(v) => {
                        st.song = Some(match st.song {
                            Some(q) => QueuePlace { pos: v, ..q },
                            None => QueuePlace { id: crate::song::Id(0), pos: v, prio: 0 },
                        });
                    },
                    None => {
                        return Err(Error::Parse(ParseError::BadInteger));
                    },
                }
            } else if str_eq(key.as_str(), "nextsongid") {
                match parse_u32(value.as_str()) {
                    Some(v) => {
                        st.nextsong = Some(match st.nextsong {
                            Some(q) => QueuePlace { id: crate::song::Id(v), ..q },
                            None => QueuePlace { id: crate::song::Id(v), pos: 0, prio: 0 },
                        });
                    },
                    None => {
                        return Err(Error::Parse(ParseError::BadInteger));
                    },
                }
            } else if str_eq(key.as_str(), "nextsong") {
                match parse_u32(value.as_str()) {
                    Some(v) => {
                        st.nextsong = Some(match st.nextsong {
                            Some(q) => QueuePlace { pos: v, ..q },
                            None => QueuePlace { id: crate::song::Id(0), pos: v, prio: 0 },
                        });
                    },
                    None => {
                        return Err(Error::Parse(ParseError::BadInteger));
                    },
                }
            } else if str_eq(key.as_str(), "time") {
                match parse_time_pair(value.as_str()) {
                    Ok(p) => {
                        st.time = p;
                    },
                    Err(e) => {
                        return Err(Error::Parse(e));
                    },
                }
            } else if str_eq(key.as_str(), "elapsed") {
                st.elapsed = parse_elapsed_ms(value.as_str());
            } else if str_eq(key.as_str(), "duration") {
                match parse_i64(value.as_str()) {
                    Some(v) => {
                        st.duration = Some(v);
                    },
                    None => {
                        return Err(Error::Parse(ParseError::BadInteger));
                    },
                }
            } else if str_eq(key.as_str(), "bitrate") {
                match parse_u32(value.as_str()) {
                    Some(v) => {
                        st.bitrate = Some(v);
                    },
                    None => {
                        return Err(Error::Parse(ParseError::BadInteger));
                    },
                }
            } else if str_eq(key.as_str(), "xfade") {
                match parse_i64(value.as_str()) {
                    Some(v) => {
                        st.crossfade = Some(v);
                    },
                    None => {
                        return Err(Error::Parse(ParseError::BadInteger));
                    },
                }
            } else if str_eq(key.as_str(), "audio") {
                match AudioFormat::from_str(value.as_str()) {
                    Ok(af) => {
                        st.audio = Some(af);
                    },
                    Err(e) => {
                        return Err(Error::Parse(e));
                    },
                }
            } else if str_eq(key.as_str(), "updating_db") {
                match parse_u32(value.as_str()) {
                    Some(v) => {
                        st.updating_db = Some(v);
                    },
                    None => {
                        return Err(Error::Parse(ParseError::BadInteger));
                    },
                }
            } else if str_eq(key.as_str(), "error") {
                st.error = Some(value.clone());
            } else if str_eq(key.as_str(), "replay_gain_mode") {
                match ReplayGain::from_str(value.as_str()) {
                    Ok(g) => {
                        st.replaygain = Some(g);
                    },
                    Err(e) => {
                        return Err(Error::Parse(e));
                    },
                }
            }
            proof {
                assert(spec_status_step(before, pdv[i as int].0, pdv[i as int].1)
                    == Ok::<StatusModel, ErrorModel>(st@));
            }
            i = i + 1;
        }
        proof {
            assert(pdv.skip(n as int) =~= Seq::<(Seq<char>, Seq<char>)>::empty());
        }
        Ok(st)
    }
}

/// Decoding is a function of the record's pairs alone: the same pairs,
/// decoded twice, yield structurally equal statuses or the same failure.
pub proof fn lemma_status_decode_repeatable(
    first: Seq<(Seq<char>, Seq<char>)>,
    second: Seq<(Seq<char>, Seq<char>)>,
)
    requires
        first == second,
    ensures
        spec_status_from_pairs(first) == spec_status_from_pairs(second),
{
}

} // verus!
