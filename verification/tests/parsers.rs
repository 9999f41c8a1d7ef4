use usiem_windns::extract_date;
use usiem_windns::extract_fields;
use usiem_windns::get_date_message;
use usiem_windns::parse_log;
use usiem_windns::parse_record_name;
use usiem_windns::record_type_of;
use usiem_windns::resolve_direction;
use usiem_windns::service;
use usiem_windns::DnsEventKind;
use usiem_windns::DnsRecordType;
use usiem_windns::IpRole;
use usiem_windns::ParseFailure;
use usiem_windns::QueryRole;
use usiem_windns::SendRecv;

#[test]
fn test_extract_fields() {
    let log = "6/5/2013 10:00:32 AM 0E70 PACKET  00000000033397A0 UDP Rcv 10.161.60.71    5b47   Q [0001   D   NOERROR] A      (12)somecomputer(6)domain(3)com(0)";
    let map = extract_fields(log);
    assert_eq!(map.get(0), Some(&"6/5/2013"));
    assert_eq!(map.get(1), Some(&"10:00:32"));
    assert_eq!(map.get(2), Some(&"AM"));
    assert_eq!(map.get(6), Some(&"UDP"));
}

#[test]
fn test_parse_dns() {
    let log = "6/5/2013 10:00:32 AM 0E70 PACKET  00000000033397A0 UDP Rcv 10.161.60.71    5b47   Q [0001   D   NOERROR] A      (12)somecomputer(6)domain(3)com(0)";
    let event = parse_log(log, "0.0.0.0").expect("Must parse log");
    assert_eq!(service(), "DNS");
    assert_eq!(event.source_ip, "10.161.60.71");
    assert_eq!(event.destination_ip, "0.0.0.0");
    assert_eq!(event.record_name, "somecomputer.domain.com");
    assert_eq!(event.event_kind, DnsEventKind::Query);
    assert_eq!(event.record_type, DnsRecordType::A);
    assert_eq!(event.transaction_id, "5b47");
    assert_eq!(event.event_created, 1_367_834_432_000);
}

#[test]
fn test_parse_dns_question_to_server() {
    let log = "22/12/2021 21:46:04 0E1C PACKET  0000017DEDFE28D0 UDP Rcv 10.20.0.6       966f   Q [0001   D   NOERROR] A      (5)login(4)live(3)com(0)";
    let event = parse_log(log, "0.0.0.0").expect("Must parse the log");
    assert_eq!(service(), "DNS");
    assert_eq!(event.source_ip, "10.20.0.6");
    assert_eq!(event.destination_ip, "0.0.0.0");
    assert_eq!(event.record_name, "login.live.com");
    assert_eq!(event.event_kind, DnsEventKind::Query);
    assert_eq!(event.event_created, 1_640_209_564_000);
}

#[test]
fn test_parse_dns_question_to_external_server() {
    let log = "22/12/2021 21:46:04 0E1C PACKET  0000017DEDE1F920 UDP Snd 8.8.4.4         624d   Q [0001   D   NOERROR] A      (5)login(4)live(3)com(0)";
    let event = parse_log(log, "0.0.0.3").expect("Must parse the log");
    assert_eq!(service(), "DNS");
    assert_eq!(event.source_ip, "0.0.0.3");
    assert_eq!(event.destination_ip, "8.8.4.4");
    assert_eq!(event.record_name, "login.live.com");
    assert_eq!(event.event_kind, DnsEventKind::Query);
}

#[test]
fn test_parse_dns_answer_from_server() {
    let log = "22/12/2021 21:46:04 0E1C PACKET  0000017DEDFE28D0 UDP Snd 10.20.0.6       966f R Q [8081   DR  NOERROR] A      (5)login(4)live(3)com(0)";
    let event = parse_log(log, "0.0.0.2").expect("Must parse the log");
    assert_eq!(service(), "DNS");
    assert_eq!(event.source_ip, "0.0.0.2");
    assert_eq!(event.destination_ip, "10.20.0.6");
    assert_eq!(event.record_name, "login.live.com");
    assert_eq!(event.event_kind, DnsEventKind::Answer);
}

#[test]
fn test_parse_dns_answer_from_external_server() {
    let log = "22/12/2021 21:46:04 0E1C PACKET  0000017DECC585B0 UDP Rcv 8.8.4.4         624d R Q [8081   DR  NOERROR] A      (5)login(4)live(3)com(0)";
    let event = parse_log(log, "0.0.0.8").expect("Must parse the log");
    assert_eq!(service(), "DNS");
    assert_eq!(event.source_ip, "8.8.4.4");
    assert_eq!(event.destination_ip, "0.0.0.8");
    assert_eq!(event.record_name, "login.live.com");
    assert_eq!(event.event_kind, DnsEventKind::Answer);
}

#[test]
fn answer_swaps_source_and_destination() {
    let log = "6/5/2013 10:00:32 AM 0E70 PACKET  00000000033397A0 UDP Snd 10.161.60.71    5b47 R Q [0001   D   NOERROR] A      (12)somecomputer(6)domain(3)com(0)";
    let event = parse_log(log, "0.0.0.0").expect("Must parse log");
    assert_eq!(event.event_kind, DnsEventKind::Answer);
    assert_eq!(event.source_ip, "0.0.0.0");
    assert_eq!(event.destination_ip, "10.161.60.71");
}

#[test]
fn missing_bracket_pair_is_not_this_format() {
    let log = "6/5/2013 10:00:32 AM 0E70 PACKET  00000000033397A0 UDP Rcv 10.161.60.71    5b47   Q A      (12)somecomputer(6)domain(3)com(0)";
    assert_eq!(parse_log(log, "0.0.0.0"), Err(ParseFailure::NoValidParser));
}

#[test]
fn missing_closing_bracket_is_not_this_format() {
    let log = "6/5/2013 10:00:32 AM 0E70 PACKET  00000000033397A0 UDP Rcv 10.161.60.71    5b47   Q [0001   D   NOERROR A      (12)somecomputer(6)domain(3)com(0)";
    assert_eq!(parse_log(log, "0.0.0.0"), Err(ParseFailure::NoValidParser));
}

#[test]
fn unparsable_timestamp_is_not_this_format() {
    let log = "6/55/2013 10:00:32 AM 0E70 PACKET  00000000033397A0 UDP Rcv 10.161.60.71    5b47   Q [0001   D   NOERROR] A      (12)somecomputer(6)domain(3)com(0)";
    assert_eq!(parse_log(log, "0.0.0.0"), Err(ParseFailure::NoValidParser));
}

#[test]
fn unknown_record_type_is_a_parser_error() {
    let log = "6/5/2013 10:00:32 AM 0E70 PACKET  00000000033397A0 UDP Rcv 10.161.60.71    5b47   Q [0001   D   NOERROR] ZZZ      (12)somecomputer(6)domain(3)com(0)";
    assert_eq!(parse_log(log, "0.0.0.0"), Err(ParseFailure::ParserError));
}

#[test]
fn unknown_send_recv_flag_is_a_parser_error() {
    let log = "6/5/2013 10:00:32 AM 0E70 PACKET  00000000033397A0 UDP Fwd 10.161.60.71    5b47   Q [0001   D   NOERROR] A      (12)somecomputer(6)domain(3)com(0)";
    assert_eq!(parse_log(log, "0.0.0.0"), Err(ParseFailure::ParserError));
}

#[test]
fn unparsable_host_ip_is_a_parser_error() {
    let log = "6/5/2013 10:00:32 AM 0E70 PACKET  00000000033397A0 UDP Rcv not.an.ip       5b47   Q [0001   D   NOERROR] A      (12)somecomputer(6)domain(3)com(0)";
    assert_eq!(parse_log(log, "0.0.0.0"), Err(ParseFailure::ParserError));
}

#[test]
fn missing_tail_fields_are_a_parser_error() {
    let log = "6/5/2013 10:00:32 AM 0E70 PACKET  00000000033397A0 UDP Rcv 10.161.60.71    5b47   Q [0001   D   NOERROR]";
    assert_eq!(parse_log(log, "0.0.0.0"), Err(ParseFailure::ParserError));
}

#[test]
fn tokenizer_collapses_separator_runs() {
    let map = extract_fields("a  b   c");
    assert_eq!(map, vec!["a", "b", "c"]);
}

#[test]
fn tokenizer_trailing_token_is_empty_after_final_space() {
    let map = extract_fields("a b ");
    assert_eq!(map, vec!["a", "b", ""]);
}

#[test]
fn tokenizer_of_empty_segment_is_one_empty_token() {
    let map = extract_fields("");
    assert_eq!(map, vec![""]);
}

#[test]
fn tokenizer_ignores_leading_spaces() {
    let map = extract_fields("   a b");
    assert_eq!(map, vec!["a", "b"]);
}

#[test]
fn tokenizing_a_normalized_segment_is_idempotent() {
    let first = extract_fields("0E70  PACKET   UDP Rcv ");
    let nonempty: Vec<&str> = first.iter().copied().filter(|t| !t.is_empty()).collect();
    let joined = nonempty.join(" ");
    let second = extract_fields(&joined);
    assert_eq!(second, nonempty);
}

#[test]
fn record_name_decodes_length_prefixed_labels() {
    let name = parse_record_name("(12)somecomputer(6)domain(3)com(0)");
    assert_eq!(name, "somecomputer.domain.com");
}

#[test]
fn record_name_of_root_marker_alone_is_empty() {
    assert_eq!(parse_record_name("(0)"), "");
}

#[test]
fn record_name_of_two_labels() {
    assert_eq!(parse_record_name("(5)login(4)live(3)com(0)"), "login.live.com");
}

#[test]
fn record_name_of_a_single_label_has_no_trailing_separator() {
    assert_eq!(parse_record_name("(3)com(0)"), "com");
}

#[test]
fn record_name_without_markup_is_verbatim() {
    assert_eq!(parse_record_name("plain"), "plain");
}

#[test]
fn get_date_message_with_meridiem_ends_at_third_boundary() {
    assert_eq!(get_date_message("6/5/2013 10:00:32 AM 0E70 PACKET"), Some(20));
}

#[test]
fn get_date_message_without_meridiem_ends_after_second_boundary() {
    assert_eq!(get_date_message("22/12/2021 21:46:04 0E1C PACKET"), Some(20));
}

#[test]
fn get_date_message_needs_three_boundaries() {
    assert_eq!(get_date_message("6/5/2013 10:00:32"), None);
}

#[test]
fn extract_date_twelve_hour_pattern() {
    let r = extract_date("6/5/2013 10:00:32 AM 0E70 PACKET ");
    assert_eq!(r, Some((1_367_834_432_000, 21)));
}

#[test]
fn extract_date_twenty_four_hour_pattern() {
    let r = extract_date("22/12/2021 21:46:04 0E1C PACKET ");
    assert_eq!(r, Some((1_640_209_564_000, 20)));
}

#[test]
fn extract_date_afternoon_hours_parse_under_the_twelve_hour_pattern() {
    let r = extract_date("22/12/2021 09:46:04 PM 0E1C PACKET ");
    assert_eq!(r, Some((1_640_209_564_000, 23)));
}

#[test]
fn extract_date_rejects_a_bad_date() {
    assert_eq!(extract_date("66/55/2013 10:00:32 AM 0E70 "), None);
}

#[test]
fn classifier_covers_the_closed_set() {
    assert_eq!(record_type_of("A"), Some(DnsRecordType::A));
    assert_eq!(record_type_of("AAAA"), Some(DnsRecordType::AAAA));
    assert_eq!(record_type_of("CERT"), Some(DnsRecordType::CERT));
    assert_eq!(record_type_of("CNAME"), Some(DnsRecordType::CNAME));
    assert_eq!(record_type_of("MX"), Some(DnsRecordType::MX));
    assert_eq!(record_type_of("NS"), Some(DnsRecordType::NS));
    assert_eq!(record_type_of("PTR"), Some(DnsRecordType::PTR));
    assert_eq!(record_type_of("SOA"), Some(DnsRecordType::SOA));
    assert_eq!(record_type_of("SRV"), Some(DnsRecordType::SRV));
    assert_eq!(record_type_of("TXT"), Some(DnsRecordType::TXT));
}

#[test]
fn classifier_rejects_unknown_and_lowercase_tokens() {
    assert_eq!(record_type_of("ZZZ"), None);
    assert_eq!(record_type_of("a"), None);
    assert_eq!(record_type_of(""), None);
}

#[test]
fn direction_table_has_four_rows() {
    assert_eq!(
        resolve_direction(SendRecv::Rcv, QueryRole::Query),
        (DnsEventKind::Query, IpRole::HostLog, IpRole::Origin)
    );
    assert_eq!(
        resolve_direction(SendRecv::Snd, QueryRole::Response),
        (DnsEventKind::Answer, IpRole::Origin, IpRole::HostLog)
    );
    assert_eq!(
        resolve_direction(SendRecv::Snd, QueryRole::Query),
        (DnsEventKind::Query, IpRole::Origin, IpRole::HostLog)
    );
    assert_eq!(
        resolve_direction(SendRecv::Rcv, QueryRole::Response),
        (DnsEventKind::Answer, IpRole::HostLog, IpRole::Origin)
    );
}
