//! Record-type classification: an exact, case-sensitive match of a token
//! against the closed set of record-type abbreviations. Unknown tokens map
//! to no variant at all; there is no wildcard or default.

use vstd::prelude::*;

use crate::text::str_eq;

verus! {

/// The closed set of record types this format is known to emit.
#[derive(Clone, Copy, Debug, PartialEq, Eq, Structural)]
pub enum DnsRecordType {
    A,
    AAAA,
    CERT,
    CNAME,
    MX,
    NS,
    PTR,
    SOA,
    SRV,
    TXT,
}

/// The classification of a token: its variant when it is one of the ten
/// known abbreviations, and nothing otherwise.
pub open spec fn spec_record_type(s: Seq<char>) -> Option<DnsRecordType> {
    if s == "A"@ {
        Some(DnsRecordType::A)
    } else if s == "AAAA"@ {
        Some(DnsRecordType::AAAA)
    } else if s == "CERT"@ {
        Some(DnsRecordType::CERT)
    } else if s == "CNAME"@ {
        Some(DnsRecordType::CNAME)
    } else if s == "MX"@ {
        Some(DnsRecordType::MX)
    } else if s == "NS"@ {
        Some(DnsRecordType::NS)
    } else if s == "PTR"@ {
        Some(DnsRecordType::PTR)
    } else if s == "SOA"@ {
        Some(DnsRecordType::SOA)
    } else if s == "SRV"@ {
        Some(DnsRecordType::SRV)
    } else if s == "TXT"@ {
        Some(DnsRecordType::TXT)
    } else {
        None
    }
}

/// Classifies a record-type token. Exact and case-sensitive; an unknown
/// token yields `None`.
pub fn record_type_of(token: &str) -> (r: Option<DnsRecordType>)
    ensures
        r == spec_record_type(token@),
{
    if str_eq(token, "A") {
        Some(DnsRecordType::A)
    } else if str_eq(token, "AAAA") {
        Some(DnsRecordType::AAAA)
    } else if str_eq(token, "CERT") {
        Some(DnsRecordType::CERT)
    } else if str_eq(token, "CNAME") {
        Some(DnsRecordType::CNAME)
    } else if str_eq(token, "MX") {
        Some(DnsRecordType::MX)
    } else if str_eq(token, "NS") {
        Some(DnsRecordType::NS)
    } else if str_eq(token, "PTR") {
        Some(DnsRecordType::PTR)
    } else if str_eq(token, "SOA") {
        Some(DnsRecordType::SOA)
    } else if str_eq(token, "SRV") {
        Some(DnsRecordType::SRV)
    } else if str_eq(token, "TXT") {
        Some(DnsRecordType::TXT)
    } else {
        None
    }
}

/// The classifier is exhaustive on the closed set and fails on everything
/// else: a token is classified exactly when it is one of the ten known
/// abbreviations, and distinct tokens never share a variant.
pub proof fn lemma_classifier_exhaustive(s: Seq<char>, t: Seq<char>)
    ensures
        spec_record_type(s) is Some <==> (s == "A"@ || s == "AAAA"@ || s == "CERT"@ || s
            == "CNAME"@ || s == "MX"@ || s == "NS"@ || s == "PTR"@ || s == "SOA"@ || s == "SRV"@
            || s == "TXT"@),
        spec_record_type(s) is Some && spec_record_type(t) is Some && s != t
            ==> spec_record_type(s) != spec_record_type(t),
{
}

} // verus!
