//! Directionality resolution: a send/receive flag and a query/response flag
//! combine into the event kind and into the assignment of the two known
//! addresses (the IP embedded in the line and the origin IP supplied by the
//! caller) to source and destination.

use vstd::prelude::*;

verus! {

/// Transport direction of the logged packet, as flagged in the line.
#[derive(Clone, Copy, Debug, PartialEq, Eq, Structural)]
pub enum SendRecv {
    Snd,
    Rcv,
}

/// Protocol role of the logged packet: a query, or a response to one.
#[derive(Clone, Copy, Debug, PartialEq, Eq, Structural)]
pub enum QueryRole {
    Query,
    Response,
}

/// Kind of the normalized event.
#[derive(Clone, Copy, Debug, PartialEq, Eq, Structural)]
pub enum DnsEventKind {
    Query,
    Answer,
}

/// Which of the two known addresses fills an event slot: the IP embedded in
/// the log line, or the origin IP supplied with the call.
#[derive(Clone, Copy, Debug, PartialEq, Eq, Structural)]
pub enum IpRole {
    HostLog,
    Origin,
}

/// The resolution table: event kind, source role and destination role for
/// each combination of the two flags.
pub open spec fn spec_resolve_direction(sr: SendRecv, qr: QueryRole) -> (
    DnsEventKind,
    IpRole,
    IpRole,
) {
    match (sr, qr) {
        (SendRecv::Rcv, QueryRole::Query) => (
            DnsEventKind::Query,
            IpRole::HostLog,
            IpRole::Origin,
        ),
        (SendRecv::Snd, QueryRole::Response) => (
            DnsEventKind::Answer,
            IpRole::Origin,
            IpRole::HostLog,
        ),
        (SendRecv::Snd, QueryRole::Query) => (DnsEventKind::Query, IpRole::Origin, IpRole::HostLog),
        (SendRecv::Rcv, QueryRole::Response) => (
            DnsEventKind::Answer,
            IpRole::HostLog,
            IpRole::Origin,
        ),
    }
}

/// Resolves the two flags into the event kind and the source/destination
/// role assignment.
pub fn resolve_direction(sr: SendRecv, qr: QueryRole) -> (r: (DnsEventKind, IpRole, IpRole))
    ensures
        r == spec_resolve_direction(sr, qr),
{
    match (sr, qr) {
        (SendRecv::Rcv, QueryRole::Query) => (
            DnsEventKind::Query,
            IpRole::HostLog,
            IpRole::Origin,
        ),
        (SendRecv::Snd, QueryRole::Response) => (
            DnsEventKind::Answer,
            IpRole::Origin,
            IpRole::HostLog,
        ),
        (SendRecv::Snd, QueryRole::Query) => (DnsEventKind::Query, IpRole::Origin, IpRole::HostLog),
        (SendRecv::Rcv, QueryRole::Response) => (
            DnsEventKind::Answer,
            IpRole::HostLog,
            IpRole::Origin,
        ),
    }
}

/// Directionality is total and consistent: every one of the four flag
/// combinations resolves to one of exactly two event kinds — answer exactly
/// for responses — the source role follows the send/receive flag alone, and
/// source and destination are always the two distinct addresses.
pub proof fn lemma_direction_totality(sr: SendRecv, qr: QueryRole)
    ensures
        spec_resolve_direction(sr, qr).0 == DnsEventKind::Query || spec_resolve_direction(
            sr,
            qr,
        ).0 == DnsEventKind::Answer,
        spec_resolve_direction(sr, qr).0 == DnsEventKind::Answer <==> qr == QueryRole::Response,
        spec_resolve_direction(sr, qr).1 == (if sr == SendRecv::Rcv {
            IpRole::HostLog
        } else {
            IpRole::Origin
        }),
        spec_resolve_direction(sr, qr).2 != spec_resolve_direction(sr, qr).1,
{
}

} // verus!
