//! Server statistics, decoded map-style from a record's key/value pairs.

use vstd::prelude::*;

use crate::error::{Error, ErrorModel};
use crate::record::{req_sec, req_u32, spec_req_sec, spec_req_u32};

verus! {

/// Database and playback statistics of the server.
#[derive(Debug, Copy, Clone, PartialEq, Eq, Structural)]
pub struct Stats {
    /// number of distinct artists in the database
    pub artists: u32,
    /// number of distinct albums in the database
    pub albums: u32,
    /// number of songs in the database
    pub songs: u32,
    /// server uptime in whole seconds
    pub uptime: i64,
    /// accumulated play time in whole seconds
    pub playtime: i64,
    /// accumulated duration of all database songs in whole seconds
    pub db_playtime: i64,
    /// time of the last database update, seconds since the epoch
    pub db_update: i64,
}

/// The decoded form of one statistics record, its seven required fields
/// pulled from the map in order: artists, albums, songs, uptime,
/// playtime, db_playtime, db_update.
pub open spec fn spec_stats_from_map(pairs: Seq<(Seq<char>, Seq<char>)>) -> Result<
    Stats,
    ErrorModel,
> {
    match spec_req_u32(pairs, "artists"@) {
        Err(e) => Err(e),
        Ok(artists) => match spec_req_u32(pairs, "albums"@) {
            Err(e) => Err(e),
            Ok(albums) => match spec_req_u32(pairs, "songs"@) {
                Err(e) => Err(e),
                Ok(songs) => match spec_req_sec(pairs, "uptime"@) {
                    Err(e) => Err(e),
                    Ok(uptime) => match spec_req_sec(pairs, "playtime"@) {
                        Err(e) => Err(e),
                        Ok(playtime) => match spec_req_sec(pairs, "db_playtime"@) {
                            Err(e) => Err(e),
                            Ok(db_playtime) => match spec_req_sec(pairs, "db_update"@) {
                                Err(e) => Err(e),
                                Ok(db_update) => Ok(Stats {
                                    artists,
                                    albums,
                                    songs,
                                    uptime,
                                    playtime,
                                    db_playtime,
                                    db_update,
                                }),
                            },
                        },
                    },
                },
            },
        },
    }
}

impl Stats {
    /// Decodes one statistics record from its pairs, read as a
    /// key-to-value map.
    pub fn from_map(pairs: &Vec<(String, String)>) -> (r: Result<Stats, Error>)
        ensures
            match r {
                Ok(st) => spec_stats_from_map(pairs.deep_view()) == Ok::<Stats, ErrorModel>(st),
                Err(e) => spec_stats_from_map(pairs.deep_view()) == Err::<Stats, ErrorModel>(e@),
            },
    {
        let artists = match req_u32(pairs, "artists") {
            Ok(v) => v,
            Err(e) => return Err(e),
        };
        let albums = match req_u32(pairs, "albums") {
            Ok(v) => v,
            Err(e) => return Err(e),
        };
        let songs = match req_u32(pairs, "songs") {
            Ok(v) => v,
            Err(e) => return Err(e),
        };
        let uptime = match req_sec(pairs, "uptime") {
            Ok(v) => v,
            Err(e) => return Err(e),
        };
        let playtime = match req_sec(pairs, "playtime") {
            Ok(v) => v,
            Err(e) => return Err(e),
        };
        let db_playtime = match req_sec(pairs, "db_playtime") {
            Ok(v) => v,
            Err(e) => return Err(e),
        };
        let db_update = match req_sec(pairs, "db_update") {
            Ok(v) => v,
            Err(e) => return Err(e),
        };
        Ok(Stats { artists, albums, songs, uptime, playtime, db_playtime, db_update })
    }
}

} // verus!
