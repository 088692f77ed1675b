//! Stored playlists, decoded map-style.

use vstd::prelude::*;

use crate::error::{Error, ErrorModel, ParseError, ParseErrorModel};
use crate::record::{req_text, spec_req_text};
use crate::song::{parse_timestamp, timestamp_of};

verus! {

/// Mathematical image of a [`Playlist`].
pub ghost struct PlaylistModel {
    pub name: Seq<char>,
    pub last_mod: i64,
}

/// A stored playlist.
#[derive(Debug, Clone, PartialEq, Eq)]
pub struct Playlist {
    /// playlist name
    pub name: String,
    /// last modification time, seconds since the epoch
    pub last_mod: i64,
}

impl View for Playlist {
    type V = PlaylistModel;

    open spec fn view(&self) -> PlaylistModel {
        PlaylistModel { name: self.name@, last_mod: self.last_mod }
    }
}

/// The decoded form of one stored-playlist record: the required keys
/// `playlist` and `Last-Modified`, the latter a timestamp in the
/// protocol's time format.
pub open spec fn spec_playlist_from_map(pairs: Seq<(Seq<char>, Seq<char>)>) -> Result<
    PlaylistModel,
    ErrorModel,
> {
    match spec_req_text(pairs, "playlist"@) {
        Err(e) => Err(e),
        Ok(name) => match spec_req_text(pairs, "Last-Modified"@) {
            Err(e) => Err(e),
            Ok(txt) => match timestamp_of(txt) {
                Some(t) => Ok(PlaylistModel { name, last_mod: t }),
                None => Err(ErrorModel::Parse(ParseErrorModel::BadTime)),
            },
        },
    }
}

impl Playlist {
    /// Decodes one stored-playlist record from its pairs, read as a
    /// key-to-value map.
    pub fn from_map(pairs: &Vec<(String, String)>) -> (r: Result<Playlist, Error>)
        ensures
            match r {
                Ok(p) => spec_playlist_from_map(pairs.deep_view()) == Ok::<
                    PlaylistModel,
                    ErrorModel,
                >(p@),
                Err(e) => spec_playlist_from_map(pairs.deep_view()) == Err::<
                    PlaylistModel,
                    ErrorModel,
                >(e@),
            },
    {
        let name = match req_text(pairs, "playlist") {
            Ok(v) => v,
            Err(e) => return Err(e),
        };
        let txt = match req_text(pairs, "Last-Modified") {
            Ok(v) => v,
            Err(e) => return Err(e),
        };
        match parse_timestamp(txt.as_str()) {
            Some(t) => Ok(Playlist { name, last_mod: t }),
            None => Err(Error::Parse(ParseError::BadTime)),
        }
    }
}

} // verus!
