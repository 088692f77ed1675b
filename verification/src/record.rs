//! The map-style decoding shape shared by flat records: the record's
//! pairs read as a key-to-value mapping, each required field pulled by
//! name — a missing key is a missing-field error naming it, a malformed
//! value a bad-value error naming the key and the raw value.

use vstd::prelude::*;

use crate::error::{Error, ErrorModel, ParseError, ParseErrorModel, ProtoError, ProtoErrorModel};
use crate::text::{dec_val, is_sec_text, is_u32_text, parse_sec, parse_u32, str_eq};

verus! {

/// Value of a key in a record map; when a key repeats, the later pair
/// wins, as inserting the pairs in order into a map would leave it.
pub open spec fn spec_lookup(pairs: Seq<(Seq<char>, Seq<char>)>, key: Seq<char>) -> Option<
    Seq<char>,
>
    decreases pairs.len(),
{
    if pairs.len() == 0 {
        None
    } else if pairs.last().0 == key {
        Some(pairs.last().1)
    } else {
        spec_lookup(pairs.drop_last(), key)
    }
}

/// Looks a key up among a record's pairs; the later of two equal keys
/// wins.
pub fn lookup(pairs: &Vec<(String, String)>, key: &str) -> (r: Option<String>)
    ensures
        match r {
            Some(v) => spec_lookup(pairs.deep_view(), key@) == Some(v@),
            None => spec_lookup(pairs.deep_view(), key@) is None,
        },
{
    let ghost pdv = pairs.deep_view();
    let n = pairs.len();
    let mut found: Option<String> = None;
    let mut i: usize = 0;
    proof {
        assert(pdv.subrange(0, 0) =~= Seq::<(Seq<char>, Seq<char>)>::empty());
    }
    while i < n
        invariant
            0 <= i <= n,
            n == pairs@.len(),
            pdv == pairs.deep_view(),
            match found {
                Some(v) => spec_lookup(pdv.subrange(0, i as int), key@) == Some(v@),
                None => spec_lookup(pdv.subrange(0, i as int), key@) is None,
            },
        decreases n - i,
    {
        proof {
            assert(pdv[i as int] == (pairs@[i as int].0@, pairs@[i as int].1@));
            assert(pdv.subrange(0, i as int + 1).drop_last() =~= pdv.subrange(0, i as int));
            assert(pdv.subrange(0, i as int + 1).last() == pdv[i as int]);
        }
        if str_eq(pairs[i].0.as_str(), key) {
            found = Some(pairs[i].1.clone());
        }
        i = i + 1;
    }
    proof {
        assert(pdv.subrange(0, n as int) =~= pdv);
    }
    found
}

/// A required text field of a record map.
pub open spec fn spec_req_text(pairs: Seq<(Seq<char>, Seq<char>)>, key: Seq<char>) -> Result<
    Seq<char>,
    ErrorModel,
> {
    match spec_lookup(pairs, key) {
        None => Err(ErrorModel::Proto(ProtoErrorModel::NoField(key))),
        Some(v) => Ok(v),
    }
}

/// Pulls a required text field.
pub fn req_text(pairs: &Vec<(String, String)>, key: &str) -> (r: Result<String, Error>)
    ensures
        match r {
            Ok(v) => spec_req_text(pairs.deep_view(), key@) == Ok::<Seq<char>, ErrorModel>(v@),
            Err(e) => spec_req_text(pairs.deep_view(), key@) == Err::<Seq<char>, ErrorModel>(e@),
        },
{
    match lookup(pairs, key) {
        Some(v) => Ok(v),
        None => Err(Error::Proto(ProtoError::NoField(key.to_owned()))),
    }
}

/// A required unsigned 32-bit integer field of a record map.
pub open spec fn spec_req_u32(pairs: Seq<(Seq<char>, Seq<char>)>, key: Seq<char>) -> Result<
    u32,
    ErrorModel,
> {
    match spec_lookup(pairs, key) {
        None => Err(ErrorModel::Proto(ProtoErrorModel::NoField(key))),
        Some(v) => {
            if is_u32_text(v) {
                Ok(dec_val(v) as u32)
            } else {
                Err(ErrorModel::Parse(ParseErrorModel::BadField(key, v)))
            }
        },
    }
}

/// Pulls a required unsigned 32-bit integer field.
pub fn req_u32(pairs: &Vec<(String, String)>, key: &str) -> (r: Result<u32, Error>)
    ensures
        match r {
            Ok(v) => spec_req_u32(pairs.deep_view(), key@) == Ok::<u32, ErrorModel>(v),
            Err(e) => spec_req_u32(pairs.deep_view(), key@) == Err::<u32, ErrorModel>(e@),
        },
{
    match lookup(pairs, key) {
        None => Err(Error::Proto(ProtoError::NoField(key.to_owned()))),
        Some(v) => match parse_u32(v.as_str()) {
            Some(n) => Ok(n),
            None => Err(Error::Parse(ParseError::BadField(key.to_owned(), v))),
        },
    }
}

/// A required nonnegative seconds field of a record map, fitting an
/// `i64`.
pub open spec fn spec_req_sec(pairs: Seq<(Seq<char>, Seq<char>)>, key: Seq<char>) -> Result<
    i64,
    ErrorModel,
> {
    match spec_lookup(pairs, key) {
        None => Err(ErrorModel::Proto(ProtoErrorModel::NoField(key))),
        Some(v) => {
            if is_sec_text(v) {
                Ok(dec_val(v) as i64)
            } else {
                Err(ErrorModel::Parse(ParseErrorModel::BadField(key, v)))
            }
        },
    }
}

/// Pulls a required seconds field.
pub fn req_sec(pairs: &Vec<(String, String)>, key: &str) -> (r: Result<i64, Error>)
    ensures
        match r {
            Ok(v) => spec_req_sec(pairs.deep_view(), key@) == Ok::<i64, ErrorModel>(v),
            Err(e) => spec_req_sec(pairs.deep_view(), key@) == Err::<i64, ErrorModel>(e@),
        },
{
    match lookup(pairs, key) {
        None => Err(Error::Proto(ProtoError::NoField(key.to_owned()))),
        Some(v) => match parse_sec(v.as_str()) {
            Some(n) => Ok(n),
            None => Err(Error::Parse(ParseError::BadField(key.to_owned(), v))),
        },
    }
}

} // verus!
