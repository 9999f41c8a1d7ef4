//! The orchestrator: one linear pass over a trace line.
//!
//! The line is split at the first bracket pair into a head segment, a flags
//! segment (consumed and discarded) and a tail segment. The head yields the
//! timestamp and, after tokenization, the host IP, the send/receive flag,
//! the transaction id and the query/response flag at fixed positions; the
//! tail yields the record type and the length-prefixed record name. A line
//! without the structural prerequisites is not of this format; a line with
//! them but with a missing or malformed field is a parser error.

use vstd::prelude::*;

use crate::direction::DnsEventKind;
use crate::direction::IpRole;
use crate::direction::QueryRole;
use crate::direction::SendRecv;
use crate::direction::resolve_direction;
use crate::direction::spec_resolve_direction;
use crate::event::DnsEventSpec;
use crate::event::DnsLogEvent;
use crate::record_name::decoded_name;
use crate::record_name::parse_record_name;
use crate::record_type::record_type_of;
use crate::record_type::spec_record_type;
use crate::text::find_char;
use crate::text::first_index_of;
use crate::text::str_eq;
use crate::timestamp::spec_extract_date;
use crate::timestamp::extract_date;
use crate::tokenizer::extract_fields;
use crate::tokenizer::fields_of;

verus! {

/// The two failures of the parse: the line is not in this format at all,
/// or it is in this format but a required field is missing or malformed.
#[derive(Clone, Copy, Debug, PartialEq, Eq, Structural)]
pub enum ParseFailure {
    NoValidParser,
    ParserError,
}

/// Whether an address text parses as an IPv4 or IPv6 address.
pub uninterp spec fn ip_parse_ok(s: Seq<char>) -> bool;

/// Relies on the usiem crate's `SiemIp::from_ip_str`: whether a text
/// parses as an IPv4 or IPv6 address is a function of the text alone.
#[verifier::external_body]
fn is_valid_ip(s: &str) -> (r: bool)
    ensures
        r == ip_parse_ok(s@),
{
    usiem::events::ip::SiemIp::from_ip_str(s).is_ok()
}

/// The address text filling an event slot: the IP embedded in the line, or
/// the origin IP supplied with the call.
pub open spec fn role_ip(role: IpRole, host: Seq<char>, origin: Seq<char>) -> Seq<char> {
    if role == IpRole::HostLog {
        host
    } else {
        origin
    }
}

/// The outcome of the parse once the head (after the timestamp) and the
/// tail are tokenized: the fixed head positions give the host IP (5), the
/// send/receive flag (4), the transaction id (6) and the query/response
/// flag (7, with the named operation at 8 for responses); the fixed tail
/// positions give the record type (0) and the record name (1).
pub open spec fn spec_parse_fields(
    f1: Seq<Seq<char>>,
    f2: Seq<Seq<char>>,
    created: i64,
    origin: Seq<char>,
) -> Result<DnsEventSpec, ParseFailure> {
    if f1.len() <= 5 {
        Err(ParseFailure::ParserError)
    } else if !ip_parse_ok(f1[5]) {
        Err(ParseFailure::ParserError)
    } else if f1[4] != "Snd"@ && f1[4] != "Rcv"@ {
        Err(ParseFailure::ParserError)
    } else if f1.len() <= 6 {
        Err(ParseFailure::ParserError)
    } else if f1.len() <= 7 {
        Err(ParseFailure::ParserError)
    } else if f1[7] == "R"@ && f1.len() <= 8 {
        Err(ParseFailure::ParserError)
    } else {
        let sr = if f1[4] == "Snd"@ {
            SendRecv::Snd
        } else {
            SendRecv::Rcv
        };
        let qr = if f1[7] == "R"@ {
            QueryRole::Response
        } else {
            QueryRole::Query
        };
        let resolved = spec_resolve_direction(sr, qr);
        if f2.len() <= 1 {
            Err(ParseFailure::ParserError)
        } else {
            match spec_record_type(f2[0]) {
                None => Err(ParseFailure::ParserError),
                Some(rt) => Ok(
                    DnsEventSpec {
                        event_created: created,
                        source_ip: role_ip(resolved.1, f1[5], origin),
                        destination_ip: role_ip(resolved.2, f1[5], origin),
                        event_kind: resolved.0,
                        record_type: rt,
                        record_name: decoded_name(f2[1]),
                        transaction_id: f1[6],
                    },
                ),
            }
        }
    }
}

/// The outcome of the parse of a whole line: the line is split at the
/// first bracket pair, the timestamp is taken from the head, the head
/// remainder and the tail are tokenized, and the fields are read from
/// their fixed positions. A line without a bracket pair or a parsable
/// timestamp is not of this format.
pub open spec fn spec_parse(msg: Seq<char>, origin: Seq<char>) -> Result<
    DnsEventSpec,
    ParseFailure,
> {
    let b1 = first_index_of(msg, '[');
    if b1 >= msg.len() {
        Err(ParseFailure::NoValidParser)
    } else {
        let tail0 = msg.subrange(b1 as int, msg.len() as int);
        let rel = first_index_of(tail0, ']');
        if rel >= tail0.len() {
            Err(ParseFailure::NoValidParser)
        } else {
            let part1 = msg.subrange(0, b1 as int);
            let part2 = msg.subrange(b1 as int + rel as int + 1, msg.len() as int);
            match spec_extract_date(part1) {
                None => Err(ParseFailure::NoValidParser),
                Some(t) => {
                    let rest1 = part1.subrange(t.1 as int, part1.len() as int);
                    spec_parse_fields(fields_of(rest1), fields_of(part2), t.0, origin)
                },
            }
        }
    }
}

/// Parses one trace line into a normalized DNS event. `origin` is the
/// address the log was received from; it fills the event slot that the
/// directionality table assigns to it. The failure says whether the line
/// is not of this format at all, or of this format but malformed.
pub fn parse_log(message: &str, origin: &str) -> (r: Result<DnsLogEvent, ParseFailure>)
    ensures
        (match (r, spec_parse(message@, origin@)) {
            (Ok(ev), Ok(m)) => ev@ == m,
            (Err(e), Err(m)) => e == m,
            _ => false,
        }),
{
    let n = message.unicode_len();
    let b1 = match find_char(message, '[') {
        Some(p) => p,
        None => {
            return Err(ParseFailure::NoValidParser);
        },
    };
    let tail0 = message.substring_char(b1, n);
    let rel = match find_char(tail0, ']') {
        Some(p) => p,
        None => {
            return Err(ParseFailure::NoValidParser);
        },
    };
    let part1 = message.substring_char(0, b1);
    let part2 = message.substring_char(b1 + rel + 1, n);
    let (created, off) = match extract_date(part1) {
        Some(t) => t,
        None => {
            return Err(ParseFailure::NoValidParser);
        },
    };
    let rest1 = part1.substring_char(off, b1);
    let f1 = extract_fields(rest1);
    let f2 = extract_fields(part2);
    let ghost f1s = fields_of(rest1@);
    let ghost f2s = fields_of(part2@);
    proof {
        assert(spec_parse(message@, origin@) == spec_parse_fields(f1s, f2s, created, origin@));
    }
    if f1.len() <= 5 {
        return Err(ParseFailure::ParserError);
    }
    let ip_host_log = f1[5];
    proof {
        assert(f1.deep_view()[5] == f1@[5]@);
    }
    if !is_valid_ip(ip_host_log) {
        return Err(ParseFailure::ParserError);
    }
    let sr_tok = f1[4];
    proof {
        assert(f1.deep_view()[4] == f1@[4]@);
    }
    let is_snd = str_eq(sr_tok, "Snd");
    let is_rcv = str_eq(sr_tok, "Rcv");
    if !is_snd && !is_rcv {
        return Err(ParseFailure::ParserError);
    }
    if f1.len() <= 6 {
        return Err(ParseFailure::ParserError);
    }
    let transaction_id = f1[6];
    proof {
        assert(f1.deep_view()[6] == f1@[6]@);
    }
    if f1.len() <= 7 {
        return Err(ParseFailure::ParserError);
    }
    let q0 = f1[7];
    proof {
        assert(f1.deep_view()[7] == f1@[7]@);
    }
    let is_response = str_eq(q0, "R");
    if is_response && f1.len() <= 8 {
        return Err(ParseFailure::ParserError);
    }
    let sr = if is_snd {
        SendRecv::Snd
    } else {
        SendRecv::Rcv
    };
    let qr = if is_response {
        QueryRole::Response
    } else {
        QueryRole::Query
    };
    let resolved = resolve_direction(sr, qr);
    if f2.len() <= 1 {
        return Err(ParseFailure::ParserError);
    }
    proof {
        assert(f2.deep_view()[0] == f2@[0]@);
        assert(f2.deep_view()[1] == f2@[1]@);
    }
    let record_name = parse_record_name(f2[1]);
    let record_type = match record_type_of(f2[0]) {
        Some(rt) => rt,
        None => {
            return Err(ParseFailure::ParserError);
        },
    };
    let source_ip = if resolved.1 == IpRole::HostLog {
        ip_host_log.to_owned()
    } else {
        origin.to_owned()
    };
    let destination_ip = if resolved.2 == IpRole::HostLog {
        ip_host_log.to_owned()
    } else {
        origin.to_owned()
    };
    Ok(
        DnsLogEvent {
            event_created: created,
            source_ip,
            destination_ip,
            event_kind: resolved.0,
            record_type,
            record_name,
            transaction_id: transaction_id.to_owned(),
        },
    )
}

} // verus!
