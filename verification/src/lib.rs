//! Parser for the packet-debug trace lines of a Windows DNS server.
//!
//! A single trace line is split into a head segment, a bracketed flags
//! segment and a tail segment; the head yields a timestamp and fixed-position
//! fields (host IP, send/receive flag, transaction id), the tail yields the
//! record type and a length-prefixed record name. The result is a normalized
//! DNS event, or one of two failures: the line is not in this format at all,
//! or it is in this format but malformed.

mod direction;
mod event;
mod parser;
mod record_name;
mod record_type;
mod text;
mod timestamp;
mod tokenizer;

pub use direction::DnsEventKind;
pub use direction::IpRole;
pub use direction::QueryRole;
pub use direction::SendRecv;
pub use direction::lemma_direction_totality;
pub use direction::resolve_direction;
pub use direction::spec_resolve_direction;
pub use event::DnsEventSpec;
pub use event::DnsLogEvent;
pub use event::product;
pub use event::service;
pub use event::vendor;
pub use parser::ParseFailure;
pub use parser::ip_parse_ok;
pub use parser::parse_log;
pub use parser::role_ip;
pub use parser::spec_parse;
pub use parser::spec_parse_fields;
pub use record_name::decode_run;
pub use record_name::decode_step;
pub use record_name::decoded_name;
pub use record_name::dot_join;
pub use record_name::encode_labels;
pub use record_name::initial_decode_state;
pub use record_name::labels_wf;
pub use record_name::lemma_record_name_round_trip;
pub use record_name::parse_record_name;
pub use record_name::NameDecodeState;
pub use record_type::DnsRecordType;
pub use record_type::lemma_classifier_exhaustive;
pub use record_type::record_type_of;
pub use record_type::spec_record_type;
pub use text::find_char;
pub use text::first_index_of;
pub use text::str_eq;
pub use timestamp::count_spaces;
pub use timestamp::extract_date;
pub use timestamp::fmt_12h;
pub use timestamp::fmt_24h;
pub use timestamp::get_date_message;
pub use timestamp::has_meridiem;
pub use timestamp::nth_space;
pub use timestamp::spec_date_boundary;
pub use timestamp::spec_extract_date;
pub use timestamp::utc_millis;
pub use tokenizer::extract_fields;
pub use tokenizer::fields_of;
pub use tokenizer::first_space;
pub use tokenizer::join_tokens;
pub use tokenizer::lemma_tokenize_idempotent;
