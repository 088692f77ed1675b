//! The idle/notification controller: the long-poll `idle` command, its
//! cooperative cancellation by `noidle`, and the decoding of the
//! changed-subsystem list the server pushes back.

use vstd::prelude::*;

use crate::error::{Error, ErrorModel, MisuseError, ParseError, ParseErrorModel, ProtoError,
    ProtoErrorModel};
use crate::text::str_eq;

verus! {

/// A named category of server state that idle notifications report as
/// changed.
#[derive(Debug, Copy, Clone, PartialEq, Eq, Hash, Structural)]
pub enum Subsystem {
    /// the song database
    Database,
    /// a database update has started or finished
    Update,
    /// a stored playlist
    StoredPlaylist,
    /// the play queue
    Queue,
    /// playback started, stopped or seeked
    Player,
    /// volume
    Mixer,
    /// an output was enabled or disabled
    Output,
    /// playback options
    Options,
    /// a partition was added, removed or changed
    Partition,
    /// a sticker database change
    Sticker,
    /// a channel subscription change
    Subscription,
    /// a message arrived on a subscribed channel
    Message,
    /// a neighbor was found or lost
    Neighbor,
    /// a storage mount changed
    Mount,
}

/// The decoded form of one subsystem name, the protocol's fixed
/// vocabulary; any other text is rejected, carrying the offending name.
pub open spec fn spec_parse_subsystem(s: Seq<char>) -> Result<Subsystem, ParseErrorModel> {
    if s == "database"@ {
        Ok(Subsystem::Database)
    } else if s == "update"@ {
        Ok(Subsystem::Update)
    } else if s == "stored_playlist"@ {
        Ok(Subsystem::StoredPlaylist)
    } else if s == "playlist"@ {
        Ok(Subsystem::Queue)
    } else if s == "player"@ {
        Ok(Subsystem::Player)
    } else if s == "mixer"@ {
        Ok(Subsystem::Mixer)
    } else if s == "output"@ {
        Ok(Subsystem::Output)
    } else if s == "options"@ {
        Ok(Subsystem::Options)
    } else if s == "partition"@ {
        Ok(Subsystem::Partition)
    } else if s == "sticker"@ {
        Ok(Subsystem::Sticker)
    } else if s == "subscription"@ {
        Ok(Subsystem::Subscription)
    } else if s == "message"@ {
        Ok(Subsystem::Message)
    } else if s == "neighbor"@ {
        Ok(Subsystem::Neighbor)
    } else if s == "mount"@ {
        Ok(Subsystem::Mount)
    } else {
        Err(ParseErrorModel::BadValue(s))
    }
}

impl Subsystem {
    /// Parses one subsystem name.
    pub fn from_str(s: &str) -> (r: Result<Subsystem, ParseError>)
        ensures
            match r {
                Ok(ss) => spec_parse_subsystem(s@) == Ok::<Subsystem, ParseErrorModel>(ss),
                Err(e) => spec_parse_subsystem(s@) == Err::<Subsystem, ParseErrorModel>(e@),
            },
    {
        if str_eq(s, "database") {
            Ok(Subsystem::Database)
        } else if str_eq(s, "update") {
            Ok(Subsystem::Update)
        } else if str_eq(s, "stored_playlist") {
            Ok(Subsystem::StoredPlaylist)
        } else if str_eq(s, "playlist") {
            Ok(Subsystem::Queue)
        } else if str_eq(s, "player") {
            Ok(Subsystem::Player)
        } else if str_eq(s, "mixer") {
            Ok(Subsystem::Mixer)
        } else if str_eq(s, "output") {
            Ok(Subsystem::Output)
        } else if str_eq(s, "options") {
            Ok(Subsystem::Options)
        } else if str_eq(s, "partition") {
            Ok(Subsystem::Partition)
        } else if str_eq(s, "sticker") {
            Ok(Subsystem::Sticker)
        } else if str_eq(s, "subscription") {
            Ok(Subsystem::Subscription)
        } else if str_eq(s, "message") {
            Ok(Subsystem::Message)
        } else if str_eq(s, "neighbor") {
            Ok(Subsystem::Neighbor)
        } else if str_eq(s, "mount") {
            Ok(Subsystem::Mount)
        } else {
            Err(ParseError::BadValue(s.to_owned()))
        }
    }
}

/// The decoded form of an idle response's pairs: every key must be
/// `changed`, every value a subsystem name, kept in arrival order.
pub open spec fn spec_changed_list(pairs: Seq<(Seq<char>, Seq<char>)>) -> Result<
    Seq<Subsystem>,
    ErrorModel,
>
    decreases pairs.len(),
{
    if pairs.len() == 0 {
        Ok(Seq::empty())
    } else if pairs[0].0 != "changed"@ {
        Err(ErrorModel::Proto(ProtoErrorModel::NotChanged))
    } else {
        match spec_parse_subsystem(pairs[0].1) {
            Err(e) => Err(ErrorModel::Parse(e)),
            Ok(ss) => match spec_changed_list(pairs.drop_first()) {
                Ok(rest) => Ok(seq![ss] + rest),
                Err(e) => Err(e),
            },
        }
    }
}

/// Whether an idle wait is outstanding on the connection.
#[derive(Debug, Copy, Clone, PartialEq, Eq, Structural)]
pub enum IdleState {
    /// normal command processing
    Active,
    /// `idle` sent, a response pending
    Waiting,
}

/// The idle/notification state machine. It decides what to send and how
/// to read the reply; the caller performs the writes and hands back the
/// decoded pairs. One idle wait may be outstanding at a time, and
/// cancellation is cooperative: `noidle` is issued from the same logical
/// connection by a coordinating owner.
#[derive(Debug, Copy, Clone, PartialEq, Eq, Structural)]
pub struct IdleController {
    /// whether an idle wait is outstanding
    pub state: IdleState,
}

impl IdleController {
    /// A controller for a fresh connection, with no wait outstanding.
    pub fn new() -> (r: IdleController)
        ensures
            r.state == IdleState::Active,
    {
        IdleController { state: IdleState::Active }
    }

    /// Enters the idle wait: yields the command to write, after which the
    /// caller blocks reading the response. Beginning a second wait while
    /// one is outstanding is a caller error.
    pub fn begin(&mut self) -> (r: Result<&'static str, Error>)
        ensures
            match r {
                Ok(cmd) => old(self).state == IdleState::Active && final(self).state
                    == IdleState::Waiting && cmd@ == "idle"@,
                Err(e) => old(self).state == IdleState::Waiting && *final(self) == *old(self) && e@
                    == ErrorModel::Misuse(MisuseError::AlreadyIdle),
            },
    {
        match self.state {
            IdleState::Active => {
                self.state = IdleState::Waiting;
                Ok("idle")
            },
            IdleState::Waiting => Err(Error::Misuse(MisuseError::AlreadyIdle)),
        }
    }

    /// Requests cancellation of the outstanding wait: yields the command
    /// to write. The wait itself stays outstanding until the server's
    /// response is consumed. Cancelling while no wait is outstanding is a
    /// caller error, never silently ignored.
    pub fn cancel(&self) -> (r: Result<&'static str, Error>)
        ensures
            match r {
                Ok(cmd) => self.state == IdleState::Waiting && cmd@ == "noidle"@,
                Err(e) => self.state == IdleState::Active && e@ == ErrorModel::Misuse(
                    MisuseError::NotIdle,
                ),
            },
    {
        match self.state {
            IdleState::Waiting => Ok("noidle"),
            IdleState::Active => Err(Error::Misuse(MisuseError::NotIdle)),
        }
    }

    /// Consumes the response that ends the outstanding wait — its decoded
    /// pairs, zero or more `changed` lines — and returns the changed
    /// subsystems in arrival order. The controller is active afterwards,
    /// whatever the outcome.
    pub fn finish(&mut self, pairs: &Vec<(String, String)>) -> (r: Result<Vec<Subsystem>, Error>)
        ensures
            final(self).state == IdleState::Active,
            match r {
                Ok(subs) => old(self).state == IdleState::Waiting && spec_changed_list(
                    pairs.deep_view(),
                ) == Ok::<Seq<Subsystem>, ErrorModel>(subs@),
                Err(e) => {
                    if old(self).state == IdleState::Active {
                        e@ == ErrorModel::Misuse(MisuseError::NotIdle)
                    } else {
                        spec_changed_list(pairs.deep_view()) == Err::<Seq<Subsystem>, ErrorModel>(
                            e@,
                        )
                    }
                },
            },
    {
        match self.state {
            IdleState::Active => Err(Error::Misuse(MisuseError::NotIdle)),
            IdleState::Waiting => {
                self.state = IdleState::Active;
                decode_changed(pairs)
            },
        }
    }
}

/// Decodes the changed-subsystem list of one idle response.
pub fn decode_changed(pairs: &Vec<(String, String)>) -> (r: Result<Vec<Subsystem>, Error>)
    ensures
        match r {
            Ok(subs) => spec_changed_list(pairs.deep_view()) == Ok::<Seq<Subsystem>, ErrorModel>(
                subs@,
            ),
            Err(e) => spec_changed_list(pairs.deep_view()) == Err::<Seq<Subsystem>, ErrorModel>(
                e@,
            ),
        },
{
    let ghost pdv = pairs.deep_view();
    let n = pairs.len();
    let mut subs: Vec<Subsystem> = Vec::new();
    let mut i: usize = 0;
    proof {
        assert(pdv.skip(0) =~= pdv);
    }
    while i < n
        invariant
            0 <= i <= n,
            n == pairs@.len(),
            pdv == pairs.deep_view(),
            spec_changed_list(pdv) == (match spec_changed_list(pdv.skip(i as int)) {
                Ok(rest) => Ok::<Seq<Subsystem>, ErrorModel>(subs@ + rest),
                Err(e) => Err(e),
            }),
        decreases n - i,
    {
        proof {
            assert(pdv[i as int] == (pairs@[i as int].0@, pairs@[i as int].1@));
            assert(pdv.skip(i as int)[0] == pdv[i as int]);
            assert(pdv.skip(i as int).drop_first() =~= pdv.skip(i as int + 1));
        }
        if !str_eq(pairs[i].0.as_str(), "changed") {
            return Err(Error::Proto(ProtoError::NotChanged));
        }
        match Subsystem::from_str(pairs[i].1.as_str()) {
            Ok(ss) => {
                let ghost old_subs = subs@;
                subs.push(ss);
                proof {
                    if spec_changed_list(pdv.skip(i as int + 1)) is Ok {
                        let rest = spec_changed_list(pdv.skip(i as int + 1))->Ok_0;
                        assert(old_subs + (seq![ss] + rest) =~= (old_subs + seq![ss]) + rest);
                        assert(subs@ =~= old_subs + seq![ss]);
                    }
                }
            },
            Err(e) => {
                return Err(Error::Parse(e));
            },
        }
        i = i + 1;
    }
    proof {
        assert(pdv.skip(n as int) =~= Seq::<(Seq<char>, Seq<char>)>::empty());
        assert(subs@ + Seq::<Subsystem>::empty() =~= subs@);
    }
    Ok(subs)
}

} // verus!
