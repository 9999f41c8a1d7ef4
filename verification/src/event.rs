//! The normalized DNS event assembled from one trace line, and the fixed
//! tags every event of this format carries.

use vstd::prelude::*;

use crate::direction::DnsEventKind;
use crate::record_type::DnsRecordType;

verus! {

/// Ghost image of a normalized event, over character sequences.
pub struct DnsEventSpec {
    pub event_created: i64,
    pub source_ip: Seq<char>,
    pub destination_ip: Seq<char>,
    pub event_kind: DnsEventKind,
    pub record_type: DnsRecordType,
    pub record_name: Seq<char>,
    pub transaction_id: Seq<char>,
}

/// A normalized DNS event: the timestamp of the line as epoch milliseconds
/// UTC, source and destination addresses as text, the event kind, the
/// record type, the decoded record name and the raw transaction-id token.
#[derive(Debug, PartialEq, Eq)]
pub struct DnsLogEvent {
    pub event_created: i64,
    pub source_ip: String,
    pub destination_ip: String,
    pub event_kind: DnsEventKind,
    pub record_type: DnsRecordType,
    pub record_name: String,
    pub transaction_id: String,
}

impl View for DnsLogEvent {
    type V = DnsEventSpec;

    open spec fn view(&self) -> DnsEventSpec {
        DnsEventSpec {
            event_created: self.event_created,
            source_ip: self.source_ip@,
            destination_ip: self.destination_ip@,
            event_kind: self.event_kind,
            record_type: self.record_type,
            record_name: self.record_name@,
            transaction_id: self.transaction_id@,
        }
    }
}

/// The vendor tag carried by every event of this format.
pub fn vendor() -> (r: &'static str)
    ensures
        r@ == "Microsoft"@,
{
    "Microsoft"
}

/// The product tag carried by every event of this format.
pub fn product() -> (r: &'static str)
    ensures
        r@ == "DNS Server"@,
{
    "DNS Server"
}

/// The category and service tag carried by every event of this format.
pub fn service() -> (r: &'static str)
    ensures
        r@ == "DNS"@,
{
    "DNS"
}

} // verus!
