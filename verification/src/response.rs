//! The response grammar: splitting raw lines into `KEY: VALUE` pairs,
//! decoding structured `ACK` error lines, and draining one full response
//! (pairs up to and including its terminator) from a sequence of lines.

use vstd::prelude::*;

use crate::error::{AckError, AckModel, Error, ErrorModel, ParseError, ParseErrorModel, ProtoError,
    ProtoErrorModel};
use crate::text::{dec_val, has_prefix, is_u32_text, spec_find, find_from, parse_u32, starts_with,
    str_eq};

verus! {

/// Index of the first `": "` separator in `s` at or after `from`.
pub open spec fn spec_find_sep(s: Seq<char>, from: int) -> Option<int>
    decreases s.len() - from,
{
    if from < 0 || from + 1 >= s.len() {
        None
    } else if s[from] == ':' && s[from + 1] == ' ' {
        Some(from)
    } else {
        spec_find_sep(s, from + 1)
    }
}

/// A line's key/value decomposition: the text before the first `": "`,
/// and the text after it.
pub open spec fn spec_split_pair(s: Seq<char>) -> Option<(Seq<char>, Seq<char>)> {
    match spec_find_sep(s, 0) {
        Some(i) => Some((s.subrange(0, i), s.subrange(i + 2, s.len() as int))),
        None => None,
    }
}

/// Splits a raw line on the first `": "` into its key and value;
/// `None` when the line holds no separator.
pub fn split_pair(line: &str) -> (r: Option<(String, String)>)
    ensures
        match r {
            Some(kv) => spec_split_pair(line@) == Some((kv.0@, kv.1@)),
            None => spec_split_pair(line@) is None,
        },
{
    let len = line.unicode_len();
    if len == 0 {
        return None;
    }
    let mut i: usize = 0;
    while i + 1 < len
        invariant
            0 <= i < len,
            len == line@.len(),
            spec_find_sep(line@, 0) == spec_find_sep(line@, i as int),
        decreases len - i,
    {
        if line.get_char(i) == ':' && line.get_char(i + 1) == ' ' {
            let k = line.substring_char(0, i);
            let v = line.substring_char(i + 2, len);
            return Some((k.to_owned(), v.to_owned()));
        }
        i = i + 1;
    }
    None
}

/// The decoded form of a well-formed
/// `ACK [<code>@<command_index>] {<current_command>} <message>` line;
/// `None` when the line does not match that grammar.
pub open spec fn spec_parse_ack(s: Seq<char>) -> Option<AckModel> {
    if !has_prefix(s, "ACK ["@) {
        None
    } else {
        match spec_find(s, '@', 5) {
            None => None,
            Some(a) => match spec_find(s, ']', a + 1) {
                None => None,
                Some(b) => {
                    let code_txt = s.subrange(5, a);
                    let idx_txt = s.subrange(a + 1, b);
                    if !(is_u32_text(code_txt) && is_u32_text(idx_txt)) {
                        None
                    } else if !(b + 2 < s.len() && s[b + 1] == ' ' && s[b + 2] == '{') {
                        None
                    } else {
                        match spec_find(s, '}', b + 3) {
                            None => None,
                            Some(c) => {
                                let base = AckModel {
                                    code: dec_val(code_txt) as u32,
                                    command_index: dec_val(idx_txt) as u32,
                                    current_command: s.subrange(b + 3, c),
                                    message: Seq::empty(),
                                };
                                if c + 1 == s.len() {
                                    Some(base)
                                } else if s[c + 1] == ' ' {
                                    Some(AckModel { message: s.subrange(c + 2, s.len() as int), ..base })
                                } else {
                                    None
                                }
                            },
                        }
                    }
                },
            },
        }
    }
}

/// Decodes a structured server-error line. A line that does not match the
/// `ACK` grammar is itself a parse error, distinct from a well-formed
/// server-reported error.
pub fn parse_ack(line: &str) -> (r: Result<AckError, Error>)
    ensures
        match r {
            Ok(ack) => spec_parse_ack(line@) == Some(ack@),
            Err(e) => spec_parse_ack(line@) is None && e@ == ErrorModel::Parse(
                ParseErrorModel::NotAck,
            ),
        },
{
    proof {
        reveal_strlit("ACK [");
    }
    let len = line.unicode_len();
    if !starts_with(line, "ACK [") {
        return Err(Error::Parse(ParseError::NotAck));
    }
    assert(len >= 5);
    let a = match find_from(line, '@', 5) {
        Some(a) => a,
        None => return Err(Error::Parse(ParseError::NotAck)),
    };
    proof {
        crate::text::lemma_spec_find(line@, '@', 5);
    }
    let b = match find_from(line, ']', a + 1) {
        Some(b) => b,
        None => return Err(Error::Parse(ParseError::NotAck)),
    };
    proof {
        crate::text::lemma_spec_find(line@, ']', a as int + 1);
    }
    let code = match parse_u32(line.substring_char(5, a)) {
        Some(v) => v,
        None => return Err(Error::Parse(ParseError::NotAck)),
    };
    let idx = match parse_u32(line.substring_char(a + 1, b)) {
        Some(v) => v,
        None => return Err(Error::Parse(ParseError::NotAck)),
    };
    if !(b < len - 2 && line.get_char(b + 1) == ' ' && line.get_char(b + 2) == '{') {
        return Err(Error::Parse(ParseError::NotAck));
    }
    let c = match find_from(line, '}', b + 3) {
        Some(c) => c,
        None => return Err(Error::Parse(ParseError::NotAck)),
    };
    proof {
        crate::text::lemma_spec_find(line@, '}', b as int + 3);
    }
    let cmd = line.substring_char(b + 3, c).to_owned();
    if c + 1 == len {
        Ok(AckError { code, command_index: idx, current_command: cmd, message: String::new() })
    } else if line.get_char(c + 1) == ' ' {
        let msg = line.substring_char(c + 2, len).to_owned();
        Ok(AckError { code, command_index: idx, current_command: cmd, message: msg })
    } else {
        Err(Error::Parse(ParseError::NotAck))
    }
}

/// One decoded response: the key/value pairs seen before the terminator,
/// and the index of the first line after the terminator. Reading stops at
/// the terminator so the line stream stays framed for the next command.
/// A success terminator yields the pairs; an `ACK` terminator yields the
/// decoded server error; a line that is neither a pair nor a terminator is
/// a protocol error, as is running out of lines before any terminator.
pub open spec fn spec_parse_response(lines: Seq<Seq<char>>, from: int) -> Result<
    (Seq<(Seq<char>, Seq<char>)>, int),
    ErrorModel,
>
    decreases lines.len() - from,
{
    if from < 0 || from >= lines.len() {
        Err(ErrorModel::Proto(ProtoErrorModel::MissingTerminator))
    } else if lines[from] == "OK"@ {
        Ok((Seq::empty(), from + 1))
    } else if has_prefix(lines[from], "ACK "@) {
        match spec_parse_ack(lines[from]) {
            Some(a) => Err(ErrorModel::Server(a)),
            None => Err(ErrorModel::Parse(ParseErrorModel::NotAck)),
        }
    } else {
        match spec_split_pair(lines[from]) {
            Some(kv) => match spec_parse_response(lines, from + 1) {
                Ok(rest) => Ok((seq![kv] + rest.0, rest.1)),
                Err(e) => Err(e),
            },
            None => Err(ErrorModel::Proto(ProtoErrorModel::NotPair)),
        }
    }
}

/// Drains one full response from `lines`, starting at index `from`:
/// returns the pairs before the terminator and the index just past it,
/// or the decoded failure. Consumption never passes the terminator.
pub fn parse_response(lines: &Vec<String>, from: usize) -> (r: Result<
    (Vec<(String, String)>, usize),
    Error,
>)
    ensures
        match r {
            Ok(pr) => spec_parse_response(lines.deep_view(), from as int) == Ok::<_, ErrorModel>(
                (pr.0.deep_view(), pr.1 as int),
            ) && from < pr.1 <= lines@.len(),
            Err(e) => spec_parse_response(lines.deep_view(), from as int) == Err::<
                (Seq<(Seq<char>, Seq<char>)>, int),
                _,
            >(e@),
        },
{
    let ghost ldv = lines.deep_view();
    let n = lines.len();
    if from > n {
        return Err(Error::Proto(ProtoError::MissingTerminator));
    }
    let mut pairs: Vec<(String, String)> = Vec::new();
    let mut i: usize = from;
    while i < n
        invariant
            from <= i <= n,
            n == lines@.len(),
            ldv == lines.deep_view(),
            spec_parse_response(ldv, from as int) == (match spec_parse_response(ldv, i as int) {
                Ok(rest) => Ok::<(Seq<(Seq<char>, Seq<char>)>, int), ErrorModel>(
                    (pairs.deep_view() + rest.0, rest.1),
                ),
                Err(e) => Err(e),
            }),
        decreases n - i,
    {
        proof {
            assert(ldv[i as int] == lines@[i as int]@);
        }
        let line = &lines[i];
        if str_eq(line.as_str(), "OK") {
            proof {
                assert(pairs.deep_view() + Seq::<(Seq<char>, Seq<char>)>::empty()
                    =~= pairs.deep_view());
            }
            return Ok((pairs, i + 1));
        }
        if starts_with(line.as_str(), "ACK ") {
            match parse_ack(line.as_str()) {
                Ok(ack) => return Err(Error::Server(ack)),
                Err(e) => return Err(e),
            }
        }
        match split_pair(line.as_str()) {
            Some(kv) => {
                let ghost old_dv = pairs.deep_view();
                let ghost kvv = (kv.0@, kv.1@);
                pairs.push(kv);
                proof {
                    assert(pairs.deep_view() =~= old_dv + seq![kvv]);
                    if spec_parse_response(ldv, i as int + 1) is Ok {
                        let rest = spec_parse_response(ldv, i as int + 1)->Ok_0;
                        assert(old_dv + (seq![kvv] + rest.0) =~= (old_dv + seq![kvv]) + rest.0);
                    }
                }
                i = i + 1;
            },
            None => {
                return Err(Error::Proto(ProtoError::NotPair));
            },
        }
    }
    Err(Error::Proto(ProtoError::MissingTerminator))
}

/// Index of the first pair at or after `from` whose key is `key`: where
/// the next logical record of a list response begins.
pub open spec fn spec_find_key(
    pairs: Seq<(Seq<char>, Seq<char>)>,
    key: Seq<char>,
    from: int,
) -> Option<int>
    decreases pairs.len() - from,
{
    if from < 0 || from >= pairs.len() {
        None
    } else if pairs[from].0 == key {
        Some(from)
    } else {
        spec_find_key(pairs, key, from + 1)
    }
}

/// First pair at or after `from` whose key is `key`. A list response
/// holds one record per occurrence of its leading key; this finds each
/// record's start.
pub fn find_key(pairs: &Vec<(String, String)>, key: &str, from: usize) -> (r: Option<usize>)
    ensures
        match r {
            Some(i) => spec_find_key(pairs.deep_view(), key@, from as int) == Some(i as int) && i
                < pairs@.len(),
            None => spec_find_key(pairs.deep_view(), key@, from as int) is None,
        },
{
    let ghost pdv = pairs.deep_view();
    let n = pairs.len();
    if from > n {
        return None;
    }
    let mut i: usize = from;
    while i < n
        invariant
            from <= i <= n,
            n == pairs@.len(),
            pdv == pairs.deep_view(),
            spec_find_key(pdv, key@, from as int) == spec_find_key(pdv, key@, i as int),
        decreases n - i,
    {
        proof {
            assert(pdv[i as int] == (pairs@[i as int].0@, pairs@[i as int].1@));
        }
        if str_eq(pairs[i].0.as_str(), key) {
            return Some(i);
        }
        i = i + 1;
    }
    None
}

/// The decoded form of the connection banner `OK MPD <version>`: the
/// version text after the fixed prefix.
pub open spec fn spec_parse_banner(s: Seq<char>) -> Option<Seq<char>> {
    if has_prefix(s, "OK MPD "@) {
        Some(s.subrange(7, s.len() as int))
    } else {
        None
    }
}

/// Decodes the banner the server sends on connection, yielding its
/// protocol-version text.
pub fn parse_banner(line: &str) -> (r: Result<String, Error>)
    ensures
        match r {
            Ok(v) => spec_parse_banner(line@) == Some(v@),
            Err(e) => spec_parse_banner(line@) is None && e@ == ErrorModel::Proto(
                ProtoErrorModel::BadBanner,
            ),
        },
{
    proof {
        reveal_strlit("OK MPD ");
    }
    if starts_with(line, "OK MPD ") {
        let len = line.unicode_len();
        Ok(line.substring_char(7, len).to_owned())
    } else {
        Err(Error::Proto(ProtoError::BadBanner))
    }
}

/// Every response whose lines hold no terminator — no `OK` and no `ACK`
/// line — decodes to a protocol error, never to a successful partial
/// entity.
pub proof fn lemma_unterminated_response_is_protocol_error(lines: Seq<Seq<char>>, from: int)
    requires
        0 <= from,
        forall|i: int| from <= i < lines.len() ==> lines[i] != "OK"@ && !has_prefix(
            #[trigger] lines[i],
            "ACK "@,
        ),
    ensures
        spec_parse_response(lines, from) matches Err(e) && e is Proto,
    decreases lines.len() - from,
{
    if from < lines.len() {
        lemma_unterminated_response_is_protocol_error(lines, from + 1);
    }
}

/// Decoding is a function of the recorded lines alone: replaying the same
/// raw response yields the same pairs or the same failure.
pub proof fn lemma_response_decode_repeatable(
    first: Seq<Seq<char>>,
    second: Seq<Seq<char>>,
    from: int,
)
    requires
        first == second,
    ensures
        spec_parse_response(first, from) == spec_parse_response(second, from),
{
}

} // verus!
