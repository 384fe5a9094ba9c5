use rsip::common::method::Method;
use rsip::common::status_code::StatusCode;
use rsip::common::uri::param::Maddr;
use rsip::common::uri::param::Param;
use rsip::common::uri::param::Transport;
use rsip::common::uri::Uri;
use rsip::common::version::Version;
use rsip::headers::Header;
use rsip::headers::Headers;
use rsip::message::request::Request;
use rsip::message::response::Response;
use rsip::Error;
use rsip::SipMessage;

#[test]
fn round_trip_request() {
    let input = "INVITE sip:bob@biloxi.example.com;transport=TCP SIP/2.0\r\nVia: SIP/2.0/TCP pc33.atlanta.example.com;branch=z9hG4bK776asdhds\r\n\r\nhello";
    let parsed = Request::try_from(input.as_bytes()).unwrap();
    let rendered = parsed.render();
    assert_eq!(rendered, input.as_bytes().to_vec());
    let reparsed = Request::try_from(rendered.as_slice()).unwrap();
    assert_eq!(reparsed, parsed);
}

#[test]
fn idempotent_render_response() {
    let input = "SIP/2.0 486 Busy Here\r\nTo: <sip:alice@atlanta.example.com>;tag=1234\r\n\r\n";
    let parsed = Response::try_from(input.as_bytes()).unwrap();
    let once = parsed.render();
    let twice = Response::try_from(once.as_slice()).unwrap().render();
    assert_eq!(once, twice);
    assert_eq!(once, input.as_bytes().to_vec());
    assert_eq!(parsed.status_code(), &StatusCode { code: 486, reason: "Busy Here".into() });
    assert_eq!(parsed.version(), &Version::V2);
}

#[test]
fn order_preservation() {
    let uri =
        Uri::try_from("sip:a.com;ttl=7;lr;b=1;transport=udp;b=2;maddr=239.255.255.1").unwrap();
    assert_eq!(
        uri.params,
        vec![
            Param::Ttl(rsip::param::Ttl(7)),
            Param::Lr,
            Param::Other("b".into(), Some("1".into())),
            Param::Transport(Transport::Udp),
            Param::Other("b".into(), Some("2".into())),
            Param::Maddr(Maddr::new("239.255.255.1")),
        ]
    );
    assert_eq!(
        uri.render(),
        "sip:a.com;ttl=7;lr;b=1;transport=UDP;b=2;maddr=239.255.255.1"
            .as_bytes()
            .to_vec()
    );
}

#[test]
fn case_discipline() {
    let req = Request::try_from(
        "rEgIsTeR SIPS:Server.com SIP/2.0\r\nvIa: x\r\nX-Custom: kept\r\n\r\n".as_bytes(),
    )
    .unwrap();
    assert_eq!(req.method, Method::Register);
    let rendered = req.render();
    let text = String::from_utf8(rendered).unwrap();
    assert!(text.starts_with("REGISTER sips:Server.com SIP/2.0\r\n"));
    assert!(text.contains("Via: x\r\n"));
    assert!(text.contains("X-Custom: kept\r\n"));
}

#[test]
fn body_transparency() {
    let mut input = "MESSAGE sip:bob@b.com SIP/2.0\r\nContent-Length: 5\r\n\r\n"
        .as_bytes()
        .to_vec();
    let body: Vec<u8> = vec![0, 159, 146, 150, 13, 10, 255];
    input.extend_from_slice(&body);
    let parsed = Request::try_from(input.as_slice()).unwrap();
    assert_eq!(parsed.body(), &body);
    assert_eq!(parsed.render(), input);
}

#[test]
fn port_range() {
    let uri = Uri::try_from("sip:h.com:65535").unwrap();
    assert_eq!(uri.host_with_port.port, Some(65535));
    match Uri::try_from("sip:h.com:65536") {
        Err(Error::ParseError(m)) => {
            assert!(String::from_utf8_lossy(&m).contains("invalid port: 65536"));
        },
        other => panic!("unexpected result: {:?}", other),
    }
}

#[test]
fn compact_form_expansion() {
    let req = Request::try_from(
        "OPTIONS sip:c.com SIP/2.0\r\nv: SIP/2.0/UDP h1\r\nf: <sip:a@x>\r\nt: <sip:b@y>\r\ni: abc@h\r\nl: 0\r\n\r\n"
            .as_bytes(),
    )
    .unwrap();
    let text = String::from_utf8(req.render()).unwrap();
    assert!(text.contains("Via: SIP/2.0/UDP h1\r\n"));
    assert!(text.contains("From: <sip:a@x>\r\n"));
    assert!(text.contains("To: <sip:b@y>\r\n"));
    assert!(text.contains("Call-ID: abc@h\r\n"));
    assert!(text.contains("Content-Length: 0\r\n"));
}

#[test]
fn folded_header_value() {
    let req = Request::try_from(
        "OPTIONS sip:c.com SIP/2.0\r\nSubject: first\r\n\tsecond\r\n\r\n".as_bytes(),
    )
    .unwrap();
    assert_eq!(
        req.headers,
        Headers(vec![Header::Subject(rsip::headers::Subject("first second".into()))])
    );
}

#[test]
fn invalid_ttl_param() {
    match Uri::try_from("sip:h.com;ttl=300") {
        Err(Error::ParseError(m)) => {
            assert!(String::from_utf8_lossy(&m).contains("invalid ttl: 300"));
        },
        other => panic!("unexpected result: {:?}", other),
    }
}

#[test]
fn invalid_transport_param() {
    match Uri::try_from("sip:h.com;transport=carrier-pigeon") {
        Err(Error::ParseError(m)) => {
            assert!(String::from_utf8_lossy(&m).contains("invalid transport: carrier-pigeon"));
        },
        other => panic!("unexpected result: {:?}", other),
    }
}

#[test]
fn invalid_status_code() {
    match Response::try_from("SIP/2.0 99 Too Low\r\n\r\n".as_bytes()) {
        Err(Error::ParseError(m)) => {
            assert!(String::from_utf8_lossy(&m).contains("invalid status code: 99"));
        },
        other => panic!("unexpected result: {:?}", other),
    }
}

#[test]
fn invalid_version() {
    match Response::try_from("SIP/3.0 200 OK\r\n\r\n".as_bytes()) {
        Err(Error::ParseError(m)) => {
            assert!(String::from_utf8_lossy(&m).contains("invalid version"));
        },
        other => panic!("unexpected result: {:?}", other),
    }
}

#[test]
fn tokenize_error_surfaces() {
    match Response::try_from("HTTP/1.1 200 OK\r\n\r\n".as_bytes()) {
        Err(Error::TokenizeError(m)) => {
            assert!(String::from_utf8_lossy(&m).contains("failed to tokenize version"));
        },
        other => panic!("unexpected result: {:?}", other),
    }
}

#[test]
fn ipv4_host_octets() {
    let uri = Uri::try_from("sip:10.219.12.179:5060").unwrap();
    assert_eq!(uri.host_with_port.host, rsip::common::uri::Host::IpV4(10, 219, 12, 179));
    assert_eq!(uri.render(), "sip:10.219.12.179:5060".as_bytes().to_vec());
    let dom = Uri::try_from("sip:010.1.2.3").unwrap();
    assert_eq!(dom.host_with_port.host, rsip::common::uri::Host::Domain("010.1.2.3".into()));
}

#[test]
fn bytes_buffer_round_trip() {
    let input = bytes::Bytes::from(String::from("SIP/2.0 180 Ringing\r\n\r\n"));
    let parsed = Response::try_from_bytes_buf(input).unwrap();
    assert_eq!(parsed.status_code().code, 180);
    let buf = parsed.clone().into_bytes_buf();
    assert_eq!(buf, bytes::Bytes::from(String::from("SIP/2.0 180 Ringing\r\n\r\n")));
}

#[test]
fn message_union() {
    let resp = Response::try_from("SIP/2.0 200 OK\r\n\r\n".as_bytes()).unwrap();
    let msg = SipMessage::Response(resp.clone());
    assert_eq!(msg.render(), resp.render());
    assert_eq!(Response::try_from_message(msg), Ok(resp));
    let req = Request::try_from("ACK sip:a@b.com SIP/2.0\r\n\r\n".as_bytes()).unwrap();
    assert!(Response::try_from_message(SipMessage::Request(req)).is_err());
}

#[test]
fn multi_value_headers_split() {
    let req = Request::try_from(
        "BYE sip:a@b.com SIP/2.0\r\nVia: SIP/2.0/UDP h1;x=1, SIP/2.0/TCP h2, SIP/2.0/TLS h3\r\nRecord-Route: <sip:p1;lr>, <sip:p2;lr>\r\nContact: \"a, b\" <sip:c@d>\r\n\r\n"
            .as_bytes(),
    )
    .unwrap();
    assert_eq!(
        req.headers,
        Headers(vec![
            Header::Via(rsip::headers::Via("SIP/2.0/UDP h1;x=1".into())),
            Header::Via(rsip::headers::Via("SIP/2.0/TCP h2".into())),
            Header::Via(rsip::headers::Via("SIP/2.0/TLS h3".into())),
            Header::RecordRoute(rsip::headers::RecordRoute("<sip:p1;lr>".into())),
            Header::RecordRoute(rsip::headers::RecordRoute("<sip:p2;lr>".into())),
            Header::Contact(rsip::headers::Contact("\"a, b\" <sip:c@d>".into())),
        ])
    );
    let rendered = req.render();
    let reparsed = Request::try_from(rendered.as_slice()).unwrap();
    assert_eq!(reparsed, req);
}

#[test]
fn typed_from_header() {
    let tok = rsip::headers::header::from::Tokenizer::tokenize(
        "Alice <sip:alice@atlanta.example.com>;tag=88sja8x".as_bytes(),
    )
    .unwrap();
    let typed = rsip::headers::header::from::typed::From::try_from(tok).unwrap();
    assert_eq!(typed.display_name, Some("Alice".into()));
    assert_eq!(
        typed.tag(),
        Some(&rsip::param::Tag("88sja8x".into()))
    );
    assert_eq!(
        typed.render(),
        "Alice <sip:alice@atlanta.example.com>;tag=88sja8x".as_bytes().to_vec()
    );
}

#[test]
fn uri_embedded_headers() {
    let uri = Uri::try_from("sip:carol@chicago.example.com?subject=project&priority=urgent")
        .unwrap();
    assert_eq!(uri.headers.0.len(), 2);
    assert_eq!(uri.headers.0[0].name, "subject".as_bytes().to_vec());
    assert_eq!(uri.headers.0[0].value, "project".as_bytes().to_vec());
    assert_eq!(uri.headers.0[1].name, "priority".as_bytes().to_vec());
    assert_eq!(uri.headers.0[1].value, "urgent".as_bytes().to_vec());
    assert_eq!(
        uri.render(),
        "sip:carol@chicago.example.com?subject=project&priority=urgent"
            .as_bytes()
            .to_vec()
    );
}
