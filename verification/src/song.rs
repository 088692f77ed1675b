//! Song records: queue placement, play range, and the sequential-pair
//! decoder that assembles a song from `KEY: VALUE` lines, folding
//! unrecognized keys into a free-form tag mapping.

use vstd::prelude::*;

use crate::error::{Error, ErrorModel, ParseError, ParseErrorModel};
use crate::text::{all_digits, dec_val, i64_digits, i64_text, int_val, is_int_text, is_u32_text,
    is_u8_text, parse_sec, parse_u32, parse_u8, spec_find, find_from, str_eq, u64_digits,
    u64_text};

verus! {

/// Song ID: the identity of one queued song, stable across queue moves.
#[derive(Debug, Copy, Clone, PartialEq, Eq, PartialOrd, Ord, Hash, Structural)]
pub struct Id(pub u32);

impl Id {
    /// Decimal text of the ID.
    pub fn to_text(&self) -> (t: String)
        ensures
            t@ == u64_digits(self.0 as int),
    {
        u64_text(self.0 as u64)
    }
}

impl Default for Id {
    fn default() -> (r: Id)
        ensures
            r == Id(0u32),
    {
        Id(0)
    }
}

/// A song's place in the play queue.
#[derive(Debug, Copy, Clone, PartialEq, Eq, Structural)]
pub struct QueuePlace {
    /// song ID
    pub id: Id,
    /// absolute zero-based position in the queue
    pub pos: u32,
    /// song priority; defaults to zero when the server sends none
    pub prio: u8,
}

impl Default for QueuePlace {
    fn default() -> (r: QueuePlace)
        ensures
            r == (QueuePlace { id: Id(0u32), pos: 0u32, prio: 0u8 }),
    {
        QueuePlace { id: Id(0), pos: 0, prio: 0 }
    }
}

/// A play range in whole seconds: a start, and an end that may be
/// unbounded.
#[derive(Debug, Copy, Clone, PartialEq, Eq)]
pub struct Range(pub i64, pub Option<i64>);

impl Default for Range {
    fn default() -> (r: Range)
        ensures
            r == Range(0i64, None::<i64>),
    {
        Range(0, None)
    }
}

/// The decoded form of range text `<start>-<end>`: either side may be
/// empty — an empty start defaults to zero, an empty or missing end means
/// unbounded — and a nonempty side must be digits fitting a signed
/// 64-bit count of seconds.
pub open spec fn spec_parse_range(s: Seq<char>) -> Result<Range, ParseErrorModel> {
    match spec_find(s, '-', 0) {
        Some(i) => {
            let a = s.subrange(0, i);
            let b = s.subrange(i + 1, s.len() as int);
            if a.len() > 0 && !(all_digits(a) && dec_val(a) <= i64::MAX) {
                Err(ParseErrorModel::BadRange)
            } else if b.len() > 0 && !(all_digits(b) && dec_val(b) <= i64::MAX) {
                Err(ParseErrorModel::BadRange)
            } else {
                Ok(Range(
                    if a.len() == 0 { 0i64 } else { dec_val(a) as i64 },
                    if b.len() == 0 { None } else { Some(dec_val(b) as i64) },
                ))
            }
        },
        None => {
            if s.len() > 0 && !(all_digits(s) && dec_val(s) <= i64::MAX) {
                Err(ParseErrorModel::BadRange)
            } else {
                Ok(Range(if s.len() == 0 { 0i64 } else { dec_val(s) as i64 }, None))
            }
        },
    }
}

impl Range {
    /// Parses range text `<start>-<end>`; either side may be empty.
    pub fn from_str(s: &str) -> (r: Result<Range, ParseError>)
        ensures
            match r {
                Ok(rg) => spec_parse_range(s@) == Ok::<Range, ParseErrorModel>(rg),
                Err(e) => spec_parse_range(s@) == Err::<Range, ParseErrorModel>(e@),
            },
    {
        let len = s.unicode_len();
        match find_from(s, '-', 0) {
            Some(i) => {
                proof {
                    crate::text::lemma_spec_find(s@, '-', 0);
                }
                let a = s.substring_char(0, i);
                let b = s.substring_char(i + 1, len);
                let start: i64 = if a.unicode_len() == 0 {
                    0
                } else {
                    match parse_sec(a) {
                        Some(v) => v,
                        None => return Err(ParseError::BadRange),
                    }
                };
                let end: Option<i64> = if b.unicode_len() == 0 {
                    None
                } else {
                    match parse_sec(b) {
                        Some(v) => Some(v),
                        None => return Err(ParseError::BadRange),
                    }
                };
                Ok(Range(start, end))
            },
            None => {
                if len == 0 {
                    Ok(Range(0, None))
                } else {
                    match parse_sec(s) {
                        Some(v) => Ok(Range(v, None)),
                        None => Err(ParseError::BadRange),
                    }
                }
            },
        }
    }

    /// Wire text of the range: start and end in seconds around a colon,
    /// an unbounded end left empty.
    pub fn to_text(&self) -> (t: String)
        ensures
            t@ == i64_digits(self.0 as int) + seq![':'] + (match self.1 {
                Some(e) => i64_digits(e as int),
                None => Seq::<char>::empty(),
            }),
    {
        let mut s = i64_text(self.0);
        s.append(":");
        proof {
            reveal_strlit(":");
            assert(":"@ =~= seq![':']);
        }
        match self.1 {
            Some(e) => {
                s.append(i64_text(e).as_str());
            },
            None => {
                proof {
                    assert(s@ + Seq::<char>::empty() =~= s@);
                }
            },
        }
        s
    }
}

/// What the timestamp parser yields for the given text: seconds since the
/// epoch when the text matches the protocol's time format, `None`
/// otherwise.
pub uninterp spec fn timestamp_of(s: Seq<char>) -> Option<i64>;

/// Relies on `time::strptime` with format `%Y-%m-%dT%H:%M:%S%Z` followed
/// by `time::Tm::to_timespec`: turns last-modified text into epoch
/// seconds; the result depends on the text alone.
#[verifier::external_body]
pub(crate) fn parse_timestamp(s: &str) -> (r: Option<i64>)
    ensures
        r == timestamp_of(s@),
{
    time::strptime(s, "%Y-%m-%dT%H:%M:%S%Z").ok().map(|tm| tm.to_timespec().sec)
}

/// Mathematical image of a [`Song`].
pub ghost struct SongModel {
    pub file: Seq<char>,
    pub name: Option<Seq<char>>,
    pub title: Option<Seq<char>>,
    pub last_mod: Option<i64>,
    pub duration: Option<i64>,
    pub place: Option<QueuePlace>,
    pub range: Option<Range>,
    pub tags: Seq<(Seq<char>, Seq<char>)>,
}

/// Song data assembled from one record's key/value pairs.
#[derive(Debug, Clone, PartialEq, Eq)]
pub struct Song {
    /// file path (or stream URL)
    pub file: String,
    /// name, for streams
    pub name: Option<String>,
    /// title
    pub title: Option<String>,
    /// last modification time, seconds since the epoch
    pub last_mod: Option<i64>,
    /// duration in whole seconds
    pub duration: Option<i64>,
    /// place in the queue, when queued for playback
    pub place: Option<QueuePlace>,
    /// range to play, when queued and a range was set
    pub range: Option<Range>,
    /// free-form tags (album, artist, and any key this decoder does not
    /// recognize), keyed by tag name, each key held once
    pub tags: Vec<(String, String)>,
}

impl View for Song {
    type V = SongModel;

    open spec fn view(&self) -> SongModel {
        SongModel {
            file: self.file@,
            name: self.name.deep_view(),
            title: self.title.deep_view(),
            last_mod: self.last_mod,
            duration: self.duration,
            place: self.place,
            range: self.range,
            tags: self.tags.deep_view(),
        }
    }
}

/// The empty song, before any pair is applied.
pub open spec fn spec_song_init() -> SongModel {
    SongModel {
        file: Seq::empty(),
        name: None,
        title: None,
        last_mod: None,
        duration: None,
        place: None,
        range: None,
        tags: Seq::empty(),
    }
}

impl Default for Song {
    fn default() -> (r: Song)
        ensures
            r@ == spec_song_init(),
    {
        let r = Song {
            file: String::new(),
            name: None,
            title: None,
            last_mod: None,
            duration: None,
            place: None,
            range: None,
            tags: Vec::new(),
        };
        proof {
            assert(r@.tags =~= spec_song_init().tags);
        }
        r
    }
}

/// Inserts a tag, replacing the value of an existing key so that each key
/// is held once.
pub open spec fn spec_tag_insert(
    tags: Seq<(Seq<char>, Seq<char>)>,
    key: Seq<char>,
    value: Seq<char>,
) -> Seq<(Seq<char>, Seq<char>)>
    decreases tags.len(),
{
    if tags.len() == 0 {
        seq![(key, value)]
    } else if tags[0].0 == key {
        seq![(key, value)] + tags.drop_first()
    } else {
        seq![tags[0]] + spec_tag_insert(tags.drop_first(), key, value)
    }
}

proof fn lemma_tag_insert_found(
    tags: Seq<(Seq<char>, Seq<char>)>,
    key: Seq<char>,
    value: Seq<char>,
    i: int,
)
    requires
        0 <= i < tags.len(),
        tags[i].0 == key,
        forall|j: int| 0 <= j < i ==> (#[trigger] tags[j]).0 != key,
    ensures
        spec_tag_insert(tags, key, value) == tags.update(i, (key, value)),
    decreases i,
{
    if i == 0 {
        assert(spec_tag_insert(tags, key, value) =~= tags.update(0, (key, value)));
    } else {
        let rest = tags.drop_first();
        assert(forall|j: int| 0 <= j < i - 1 ==> (#[trigger] rest[j]).0 != key);
        lemma_tag_insert_found(rest, key, value, i - 1);
        assert(seq![tags[0]] + rest.update(i - 1, (key, value)) =~= tags.update(i, (key, value)));
    }
}

proof fn lemma_tag_insert_absent(
    tags: Seq<(Seq<char>, Seq<char>)>,
    key: Seq<char>,
    value: Seq<char>,
)
    requires
        forall|j: int| 0 <= j < tags.len() ==> (#[trigger] tags[j]).0 != key,
    ensures
        spec_tag_insert(tags, key, value) == tags.push((key, value)),
    decreases tags.len(),
{
    if tags.len() == 0 {
        assert(spec_tag_insert(tags, key, value) =~= tags.push((key, value)));
    } else {
        let rest = tags.drop_first();
        lemma_tag_insert_absent(rest, key, value);
        assert(seq![tags[0]] + rest.push((key, value)) =~= tags.push((key, value)));
    }
}

/// Inserts into the tag vector, replacing an existing key's value.
fn insert_tag(tags: &mut Vec<(String, String)>, key: String, value: String)
    ensures
        final(tags).deep_view() == spec_tag_insert(old(tags).deep_view(), key@, value@),
{
    let ghost tdv = old(tags).deep_view();
    let n = tags.len();
    let mut i: usize = 0;
    while i < n
        invariant
            0 <= i <= n,
            n == tags@.len(),
            *tags == *old(tags),
            tdv == tags.deep_view(),
            forall|j: int| 0 <= j < i ==> (#[trigger] tdv[j]).0 != key@,
        decreases n - i,
    {
        proof {
            assert(tdv[i as int] == (tags@[i as int].0@, tags@[i as int].1@));
        }
        if str_eq(tags[i].0.as_str(), key.as_str()) {
            tags[i] = (key, value);
            proof {
                lemma_tag_insert_found(tdv, key@, value@, i as int);
                assert(tags.deep_view() =~= tdv.update(i as int, (key@, value@)));
            }
            return;
        }
        i = i + 1;
    }
    tags.push((key, value));
    proof {
        lemma_tag_insert_absent(tdv, key@, value@);
        assert(tags.deep_view() =~= tdv.push((key@, value@)));
    }
}

/// The placement after an `Id` key: a fresh placement when none was seen,
/// otherwise the seen placement with its ID replaced.
pub open spec fn place_with_id(p: Option<QueuePlace>, id: u32) -> QueuePlace {
    match p {
        Some(q) => QueuePlace { id: Id(id), ..q },
        None => QueuePlace { id: Id(id), pos: 0, prio: 0 },
    }
}

/// The placement after a `Pos` key.
pub open spec fn place_with_pos(p: Option<QueuePlace>, pos: u32) -> QueuePlace {
    match p {
        Some(q) => QueuePlace { pos, ..q },
        None => QueuePlace { id: Id(0), pos, prio: 0 },
    }
}

/// The placement after a `Prio` key.
pub open spec fn place_with_prio(p: Option<QueuePlace>, prio: u8) -> QueuePlace {
    match p {
        Some(q) => QueuePlace { prio, ..q },
        None => QueuePlace { id: Id(0), pos: 0, prio },
    }
}

/// How one key/value pair advances a partly decoded song. Recognized keys
/// set their field — a malformed value for one is fatal — and every other
/// key is preserved as a free-form tag rather than discarded.
pub open spec fn spec_song_step(m: SongModel, key: Seq<char>, value: Seq<char>) -> Result<
    SongModel,
    ErrorModel,
> {
    if key == "file"@ {
        Ok(SongModel { file: value, ..m })
    } else if key == "Title"@ {
        Ok(SongModel { title: Some(value), ..m })
    } else if key == "Last-Modified"@ {
        match timestamp_of(value) {
            Some(t) => Ok(SongModel { last_mod: Some(t), ..m }),
            None => Err(ErrorModel::Parse(ParseErrorModel::BadTime)),
        }
    } else if key == "Name"@ {
        Ok(SongModel { name: Some(value), ..m })
    } else if key == "Time"@ {
        if is_int_text(value) && -i64::MAX <= int_val(value) <= i64::MAX {
            Ok(SongModel { duration: Some(int_val(value) as i64), ..m })
        } else {
            Err(ErrorModel::Parse(ParseErrorModel::BadInteger))
        }
    } else if key == "Range"@ {
        match spec_parse_range(value) {
            Ok(r) => Ok(SongModel { range: Some(r), ..m }),
            Err(e) => Err(ErrorModel::Parse(e)),
        }
    } else if key == "Id"@ {
        if is_u32_text(value) {
            Ok(SongModel { place: Some(place_with_id(m.place, dec_val(value) as u32)), ..m })
        } else {
            Err(ErrorModel::Parse(ParseErrorModel::BadInteger))
        }
    } else if key == "Pos"@ {
        if is_u32_text(value) {
            Ok(SongModel { place: Some(place_with_pos(m.place, dec_val(value) as u32)), ..m })
        } else {
            Err(ErrorModel::Parse(ParseErrorModel::BadInteger))
        }
    } else if key == "Prio"@ {
        if is_u8_text(value) {
            Ok(SongModel { place: Some(place_with_prio(m.place, dec_val(value) as u8)), ..m })
        } else {
            Err(ErrorModel::Parse(ParseErrorModel::BadInteger))
        }
    } else {
        Ok(SongModel { tags: spec_tag_insert(m.tags, key, value), ..m })
    }
}

/// Folds a record's pairs over a partly decoded song, left to right.
pub open spec fn spec_song_fold(m: SongModel, pairs: Seq<(Seq<char>, Seq<char>)>) -> Result<
    SongModel,
    ErrorModel,
>
    decreases pairs.len(),
{
    if pairs.len() == 0 {
        Ok(m)
    } else {
        match spec_song_step(m, pairs[0].0, pairs[0].1) {
            Ok(m2) => spec_song_fold(m2, pairs.drop_first()),
            Err(e) => Err(e),
        }
    }
}

/// The decoded form of one full song record.
pub open spec fn spec_song_from_pairs(pairs: Seq<(Seq<char>, Seq<char>)>) -> Result<
    SongModel,
    ErrorModel,
> {
    spec_song_fold(spec_song_init(), pairs)
}

impl Song {
    /// Decodes one song record from its key/value pairs, consuming the
    /// whole sequence. Queue-placement sub-fields (`Id`, `Pos`, `Prio`)
    /// merge into one placement whatever their order; unrecognized keys
    /// become tags.
    pub fn from_pairs(pairs: &Vec<(String, String)>) -> (r: Result<Song, Error>)
        ensures
            match r {
                Ok(song) => spec_song_from_pairs(pairs.deep_view()) == Ok::<SongModel, ErrorModel>(
                    song@,
                ),
                Err(e) => spec_song_from_pairs(pairs.deep_view()) == Err::<SongModel, ErrorModel>(
                    e@,
                ),
            },
    {
        let ghost pdv = pairs.deep_view();
        let mut song = Song::default();
        let n = pairs.len();
        let mut i: usize = 0;
        proof {
            assert(pdv.skip(0) =~= pdv);
        }
        while i < n
            invariant
                0 <= i <= n,
                n == pairs@.len(),
                pdv == pairs.deep_view(),
                spec_song_from_pairs(pdv) == spec_song_fold(song@, pdv.skip(i as int)),
            decreases n - i,
        {
            proof {
                assert(pdv[i as int] == (pairs@[i as int].0@, pairs@[i as int].1@));
                assert(pdv.skip(i as int)[0] == pdv[i as int]);
                assert(pdv.skip(i as int).drop_first() =~= pdv.skip(i as int + 1));
            }
            let key = &pairs[i].0;
            let value = &pairs[i].1;
            let ghost before = song@;
            if str_eq(key.as_str(), "file") {
                song.file = value.clone();
            } else if str_eq(key.as_str(), "Title") {
                song.title = Some(value.clone());
            } else if str_eq(key.as_str(), "Last-Modified") {
                match parse_timestamp(value.as_str()) {
                    Some(t) => {
                        song.last_mod = Some(t);
                    },
                    None => {
                        return Err(Error::Parse(ParseError::BadTime));
                    },
                }
            } else if str_eq(key.as_str(), "Name") {
                song.name = Some(value.clone());
            } else if str_eq(key.as_str(), "Time") {
                match crate::text::parse_i64(value.as_str()) {
                    Some(v) => {
                        song.duration = Some(v);
                    },
                    None => {
                        return Err(Error::Parse(ParseError::BadInteger));
                    },
                }
            } else if str_eq(key.as_str(), "Range") {
                match Range::from_str(value.as_str()) {
                    Ok(rg) => {
                        song.range = Some(rg);
                    },
                    Err(e) => {
                        return Err(Error::Parse(e));
                    },
                }
            } else if str_eq(key.as_str(), "Id") {
                match parse_u32(value.as_str()) {
                    Some(v) => {
                        song.place = Some(match song.place {
                            Some(q) => QueuePlace { id: Id(v), ..q },
                            None => QueuePlace { id: Id(v), pos: 0, prio: 0 },
                        });
                    },
                    None => {
                        return Err(Error::Parse(ParseError::BadInteger));
                    },
                }
            } else if str_eq(key.as_str(), "Pos") {
                match parse_u32(value.as_str()) {
                    Some(v) => {
                        song.place = Some(match song.place {
                            Some(q) => QueuePlace { pos: v, ..q },
                            None => QueuePlace { id: Id(0), pos: v, prio: 0 },
                        });
                    },
                    None => {
                        return Err(Error::Parse(ParseError::BadInteger));
                    },
                }
            } else if str_eq(key.as_str(), "Prio") {
                match parse_u8(value.as_str()) {
                    Some(v) => {
                        song.place = Some(match song.place {
                            Some(q) => QueuePlace { prio: v, ..q },
                            None => QueuePlace { id: Id(0), pos: 0, prio: v },
                        });
                    },
                    None => {
                        return Err(Error::Parse(ParseError::BadInteger));
                    },
                }
            } else {
                insert_tag(&mut song.tags, key.clone(), value.clone());
            }
            proof {
                assert(spec_song_step(before, pdv[i as int].0, pdv[i as int].1)
                    == Ok::<SongModel, ErrorModel>(song@));
            }
            i = i + 1;
        }
        proof {
            assert(pdv.skip(n as int) =~= Seq::<(Seq<char>, Seq<char>)>::empty());
        }
        Ok(song)
    }
}

/// Queue-placement sub-fields assemble order-independently: decoding an
/// `Id` pair then a `Pos` pair yields the same song as decoding them in
/// the reverse order.
pub proof fn lemma_place_order_independent(m: SongModel, id_txt: Seq<char>, pos_txt: Seq<char>)
    requires
        is_u32_text(id_txt),
        is_u32_text(pos_txt),
    ensures
        spec_song_fold(m, seq![("Id"@, id_txt), ("Pos"@, pos_txt)]) == spec_song_fold(
            m,
            seq![("Pos"@, pos_txt), ("Id"@, id_txt)],
        ),
{
    reveal_strlit("file");
    reveal_strlit("Title");
    reveal_strlit("Last-Modified");
    reveal_strlit("Name");
    reveal_strlit("Time");
    reveal_strlit("Range");
    reveal_strlit("Id");
    reveal_strlit("Pos");
    reveal_strlit("Prio");
    assert("file"@.len() == 4);
    assert("Title"@.len() == 5);
    assert("Last-Modified"@.len() == 13);
    assert("Name"@.len() == 4);
    assert("Time"@.len() == 4);
    assert("Range"@.len() == 5);
    assert("Id"@.len() == 2);
    assert("Pos"@.len() == 3);
    assert("Prio"@.len() == 4);
    assert("Name"@[0] != "file"@[0]);
    assert("Time"@[0] != "file"@[0]);
    assert("Time"@[0] != "Name"@[0]);
    let fwd = seq![("Id"@, id_txt), ("Pos"@, pos_txt)];
    let bwd = seq![("Pos"@, pos_txt), ("Id"@, id_txt)];
    let id: u32 = dec_val(id_txt) as u32;
    let pos: u32 = dec_val(pos_txt) as u32;
    let m1 = SongModel { place: Some(place_with_id(m.place, id)), ..m };
    let m2 = SongModel { place: Some(place_with_pos(m1.place, pos)), ..m1 };
    assert(spec_song_step(m, "Id"@, id_txt) == Ok::<SongModel, ErrorModel>(m1));
    assert(fwd.drop_first() =~= seq![("Pos"@, pos_txt)]);
    assert(spec_song_fold(m, fwd) == spec_song_fold(m1, seq![("Pos"@, pos_txt)]));
    assert(spec_song_step(m1, "Pos"@, pos_txt) == Ok::<SongModel, ErrorModel>(m2));
    assert(seq![("Pos"@, pos_txt)].drop_first() =~= Seq::<(Seq<char>, Seq<char>)>::empty());
    assert(spec_song_fold(m2, Seq::<(Seq<char>, Seq<char>)>::empty()) == Ok::<
        SongModel,
        ErrorModel,
    >(m2));
    assert(spec_song_fold(m, fwd) == Ok::<SongModel, ErrorModel>(m2));
    let n1 = SongModel { place: Some(place_with_pos(m.place, pos)), ..m };
    let n2 = SongModel { place: Some(place_with_id(n1.place, id)), ..n1 };
    assert(spec_song_step(m, "Pos"@, pos_txt) == Ok::<SongModel, ErrorModel>(n1));
    assert(bwd.drop_first() =~= seq![("Id"@, id_txt)]);
    assert(spec_song_fold(m, bwd) == spec_song_fold(n1, seq![("Id"@, id_txt)]));
    assert(spec_song_step(n1, "Id"@, id_txt) == Ok::<SongModel, ErrorModel>(n2));
    assert(seq![("Id"@, id_txt)].drop_first() =~= Seq::<(Seq<char>, Seq<char>)>::empty());
    assert(spec_song_fold(n2, Seq::<(Seq<char>, Seq<char>)>::empty()) == Ok::<
        SongModel,
        ErrorModel,
    >(n2));
    assert(spec_song_fold(m, bwd) == Ok::<SongModel, ErrorModel>(n2));
    assert(m2.place == n2.place);
}

/// Decoding is a function of the record's pairs alone: the same pairs,
/// decoded twice, yield structurally equal songs or the same failure.
pub proof fn lemma_song_decode_repeatable(
    first: Seq<(Seq<char>, Seq<char>)>,
    second: Seq<(Seq<char>, Seq<char>)>,
)
    requires
        first == second,
    ensures
        spec_song_from_pairs(first) == spec_song_from_pairs(second),
{
}

} // verus!
