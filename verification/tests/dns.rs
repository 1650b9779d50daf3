use hickory_proto::op::{Message, MessageType, OpCode, Query, ResponseCode as Code};
use hickory_proto::rr::{Name, RData as Data, RecordType as Type};
use zonemail::db::{Record, RecordDTO, RecordType, WireType};
use zonemail::dns::{
    handle_dns_query, parse_ipv4, parse_rdata, query_records, read_rdata, RData, ResponseCode,
};
use zonemail::time::Timestamp;

fn wire(name: &str) -> WireType {
    WireType::Named(name.to_string())
}

fn record(domain: &str, record_type: RecordType, value: &str) -> Record {
    Record::new(
        RecordDTO {
            domain_id: domain.to_string(),
            record_type,
            value: value.to_string(),
            ttl: 3600,
        },
        Timestamp { nanos: 0 },
    )
}

fn packet(questions: &[(&str, Type)]) -> Vec<u8> {
    let mut message = Message::new();
    message
        .set_id(4242)
        .set_message_type(MessageType::Query)
        .set_op_code(OpCode::Query)
        .set_recursion_desired(true);
    for (name, kind) in questions {
        message.add_query(Query::query(Name::from_ascii(name).unwrap(), *kind));
    }
    message.to_vec().unwrap()
}

#[test]
fn parse_a_record_yields_ipv4() {
    match parse_rdata(&wire("A"), "93.184.216.34").expect("A record") {
        RData::A(a, b, c, d) => assert_eq!((a, b, c, d), (93, 184, 216, 34)),
        other => panic!("expected A, got {:?}", other),
    }
}

#[test]
fn parse_txt_record_roundtrips_text() {
    match parse_rdata(&wire("TXT"), "v=spf1 include:_simplelogin.com ~all").expect("TXT") {
        RData::Txt(text) => assert_eq!(text, "v=spf1 include:_simplelogin.com ~all"),
        other => panic!("expected TXT, got {:?}", other),
    }
}

#[test]
fn parse_mx_record_keeps_preference_and_exchange() {
    match parse_rdata(&wire("MX"), "10 mail.example.com").expect("MX") {
        RData::Mx(preference, exchange) => {
            assert_eq!(preference, 10);
            assert!(exchange.starts_with("mail.example.com"), "exchange={exchange}");
        }
        other => panic!("expected MX, got {:?}", other),
    }
}

#[test]
fn parse_mx_defaults_preference_malformed_but_keeps_value() {
    match parse_rdata(&wire("MX"), "pref mail.example.com").expect("MX") {
        RData::Mx(preference, _) => assert_eq!(preference, 10),
        other => panic!("expected MX, got {:?}", other),
    }
}

#[test]
fn parse_ptr_record_yields_pointer() {
    let rdata = parse_rdata(&wire("PTR"), "target.example.com").expect("PTR");
    assert!(matches!(rdata, RData::Ptr(_)));
}

#[test]
fn parse_rdata_unsupported_type_returns_none() {
    assert!(parse_rdata(&wire("CAA"), "0 \"issue\" \"example.com\"").is_none());
}

#[test]
fn parse_a_rejects_non_ip_value() {
    assert!(parse_rdata(&wire("A"), "not-an-ip-address").is_none());
}

#[test]
fn parse_mx_rejects_wrong_token_count() {
    assert!(parse_rdata(&wire("MX"), "onlyone").is_none());
    assert!(parse_rdata(&wire("MX"), "10 a.example b.example").is_none());
}

#[test]
fn query_records_matches_domain_and_type_exactly() {
    let rows = vec![
        record("example.com", RecordType::A, "1.2.3.4"),
        record("example.com", RecordType::MX, "10 mail.example.com"),
        record("other.com", RecordType::A, "5.6.7.8"),
    ];

    let a_records = query_records(&rows, "example.com", RecordType::A);
    assert_eq!(a_records.len(), 1);
    assert_eq!(a_records[0].value, "1.2.3.4");

    let mx_records = query_records(&rows, "example.com", RecordType::MX);
    assert_eq!(mx_records.len(), 1);
    assert_eq!(mx_records[0].value, "10 mail.example.com");

    let other = query_records(&rows, "other.com", RecordType::A);
    assert_eq!(other.len(), 1);
    assert_eq!(other[0].value, "5.6.7.8");

    let none = query_records(&rows, "absent.com", RecordType::A);
    assert!(none.is_empty());
}

#[test]
fn ipv4_addresses_are_read_like_the_standard_form() {
    assert_eq!(parse_ipv4("127.0.0.1"), Some((127, 0, 0, 1)));
    assert_eq!(parse_ipv4("255.255.255.255"), Some((255, 255, 255, 255)));
    for bad in ["", "1.2.3", "1.2.3.4.5", "256.0.0.1", "01.2.3.4", "1.2.3.4 ", "a.b.c.d", "1..2.3"] {
        assert_eq!(parse_ipv4(bad), None, "{bad:?}");
    }
}

#[test]
fn names_that_dns_refuses_are_refused() {
    let long = "a".repeat(70);
    assert!(read_rdata(&wire("PTR"), &long).is_some());
    assert!(parse_rdata(&wire("PTR"), &long).is_none());
    assert!(parse_rdata(&wire("MX"), &format!("10 {long}")).is_none());
}

#[test]
fn packets_that_are_no_request_are_ignored() {
    assert!(handle_dns_query(&vec![]).is_none());
    assert!(handle_dns_query(&vec![1, 2, 3]).is_none());
}

#[test]
fn a_question_becomes_a_lookup() {
    let request = handle_dns_query(&packet(&[("Example.com.", Type::MX)])).expect("request");
    assert_eq!(request.id, 4242);
    assert!(request.recursion_desired);
    assert_eq!(request.questions.len(), 1);
    let lookup = request.questions[0].lookup();
    assert_eq!(lookup.record_type, RecordType::MX);
    assert!(matches!(lookup.wire, WireType::Named(ref name) if name == "MX"));
    assert!(lookup.name.eq_ignore_ascii_case("example.com"));
    assert!(!lookup.name.ends_with('.'));
}

#[test]
fn known_names_are_answered_and_unknown_ones_are_not() {
    let asked = packet(&[("example.com.", Type::MX)]);
    let request = handle_dns_query(&asked).expect("request");
    let rows = vec![vec![
        record("example.com", RecordType::MX, "10 mail.example.com"),
        record("example.com", RecordType::MX, "20 backup.example.com"),
    ]];
    let response = Message::from_vec(&request.reply(&rows).unwrap()).unwrap();
    assert_eq!(response.id(), 4242);
    assert_eq!(response.message_type(), MessageType::Response);
    assert!(response.authoritative());
    assert!(response.recursion_desired());
    assert!(!response.recursion_available());
    assert_eq!(response.response_code(), Code::NoError);
    assert_eq!(response.queries().len(), 1);
    assert_eq!(response.answers().len(), 2);
    match response.answers()[0].data() {
        Some(Data::MX(mx)) => {
            assert_eq!(mx.preference(), 10);
            assert_eq!(mx.exchange().to_string(), "mail.example.com.");
        }
        other => panic!("expected MX, got {:?}", other),
    }
    assert_eq!(response.answers()[0].ttl(), 3600);

    let request = handle_dns_query(&asked).expect("request");
    let response = request.respond(&vec![vec![]]);
    assert_eq!(response.head.code, ResponseCode::NXDomain);
    assert!(response.answers.is_empty());
}

#[test]
fn each_answered_type_goes_over_the_wire() {
    let asked = packet(&[
        ("example.com.", Type::A),
        ("example.com.", Type::TXT),
        ("1.0.0.127.in-addr.arpa.", Type::PTR),
    ]);
    let request = handle_dns_query(&asked).expect("request");
    let rows = vec![
        vec![record("example.com", RecordType::A, "10.0.0.7")],
        vec![record("example.com", RecordType::TXT, "hello")],
        vec![record("1.0.0.127.in-addr.arpa", RecordType::PTR, "host.example.com")],
    ];
    let response = Message::from_vec(&request.reply(&rows).unwrap()).unwrap();
    let shown: Vec<String> =
        response.answers().iter().map(|r| r.data().unwrap().to_string()).collect();
    assert_eq!(shown, vec!["10.0.0.7", "hello", "host.example.com."]);
}

#[test]
fn wire_types_round_trip() {
    assert_eq!(RecordType::from(&wire("AAAA")), RecordType::AAAA);
    assert!(matches!(WireType::from(RecordType::MX), WireType::Named(ref n) if n == "MX"));
    assert_eq!(RecordType::from(&WireType::Unknown(65280)), RecordType::Unknown);
    for t in [RecordType::A, RecordType::NSEC3PARAM, RecordType::ZERO, RecordType::Unknown] {
        assert_eq!(RecordType::from(&WireType::from(t)), t);
    }
    for t in [RecordType::CERT, RecordType::DNAME, RecordType::SMIMEA] {
        assert_eq!(RecordType::from(&WireType::from(t)), RecordType::Unknown);
    }
}
