use rsip::common::uri::param::Maddr;
use rsip::common::uri::Param;
use rsip::common::uri::Scheme;
use rsip::common::uri::Tokenizer;
use rsip::common::uri::Uri;

#[test]
fn test() {
    let uri_with_params_raw = "sips:client.biloxi.example.com:5061;maddr=255.255.255.0;foo=192.0.2.201;lr".to_string();
    let tokenizer =
        rsip::headers::header::from::Tokenizer::tokenize(uri_with_params_raw.as_bytes())
            .unwrap();

    let uri_with_params_raw = "<sip:alice@atlanta.example.com;s=2>;level=low".to_string();
    let tokenizer =
        rsip::headers::header::from::Tokenizer::tokenize(uri_with_params_raw.as_bytes())
            .unwrap();

    let t = Tokenizer::tokenize(
        "sips:client.biloxi.example.com:5061;maddr=255.255.255.0;foo=192.0.2.201;lr".as_bytes(),
    )
    .unwrap()
    .1;

    let x = rsip::headers::header::from::typed::From::try_from(tokenizer).unwrap();

    let _ = (t, x);
}

#[test]
fn act1() {
    assert_eq!(
        Uri::try_from("sip:2222;phone-context=unknown;voicexml=http%3A//10.220.90.229@10.219.12.179:5060;user=phone;transport=SCTP;yop=00.00.D23F7134.0000.7015").unwrap().render(),
        String::from("sip:2222;phone-context=unknown;voicexml=http%3A//10.220.90.229@10.219.12.179:5060;user=phone;transport=SCTP;yop=00.00.D23F7134.0000.7015").into_bytes()
    );
}

#[test]
fn rfc1() {
    assert_eq!(
        Uri::try_from("sip:alice;day=tuesday@atlanta.com").unwrap().render(),
        String::from("sip:alice;day=tuesday@atlanta.com").into_bytes()
    );
}

#[test]
fn actual1() {
    assert_eq!(
        Uri::try_from("sip:2222;phone-context=unknown@10.219.12.179:5060;user=phone;transport=SCTP;yop=00.00.D23F7134.0000.7015").unwrap().render(),
        String::from("sip:2222;phone-context=unknown@10.219.12.179:5060;user=phone;transport=SCTP;yop=00.00.D23F7134.0000.7015").into_bytes()
    );
}

#[test]
fn actual2() {
    assert_eq!(
        Uri::try_from("sip:2222;phone-context=unknown;voicexml=http%3A//10.220.90.229%3A8080/web-ivr-api-1.0/vxml/Dostepgoscia_pojedynczy_48514748636.vxml@10.219.12.179:5060;user=phone;transport=SCTP;yop=00.00.D23F7134.0000.7015").unwrap().render(),
        String::from("sip:2222;phone-context=unknown;voicexml=http%3A//10.220.90.229%3A8080/web-ivr-api-1.0/vxml/Dostepgoscia_pojedynczy_48514748636.vxml@10.219.12.179:5060;user=phone;transport=SCTP;yop=00.00.D23F7134.0000.7015").into_bytes()
    );
}

#[test]
fn mod_display1() {
    assert_eq!(
        Uri {
            scheme: None,
            auth: None,
            host_with_port: ("server2.com", Option::<u16>::None).into(),
            params: Default::default(),
            headers: Default::default(),
        }
        .render(),
        String::from("server2.com").into_bytes()
    );
}

#[test]
fn mod_display2() {
    assert_eq!(
        Uri {
            scheme: None,
            auth: Some(("user", Option::<String>::None).into()),
            host_with_port: ("server2.com", Option::<u16>::None).into(),
            params: Default::default(),
            headers: Default::default(),
        }
        .render(),
        String::from("user@server2.com").into_bytes()
    );
}

#[test]
fn display3() {
    assert_eq!(
        Uri {
            scheme: None,
            auth: Some(("user", Some("password")).into()),
            host_with_port: ("server2.com", Option::<u16>::None).into(),
            params: Default::default(),
            headers: Default::default(),
        }
        .render(),
        String::from("user:password@server2.com").into_bytes()
    );
}

#[test]
fn display4() {
    assert_eq!(
        Uri {
            scheme: None,
            auth: Some(("user", Some("password")).into()),
            host_with_port: ("server2.com", Some(5060)).into(),
            params: Default::default(),
            headers: Default::default(),
        }
        .render(),
        String::from("user:password@server2.com:5060").into_bytes()
    );
}

#[test]
fn display5() {
    assert_eq!(
        Uri {
            scheme: Some(Scheme::Sips),
            auth: None,
            host_with_port: ("client.biloxi.example.com", Some(5061)).into(),
            params: vec![
                Param::Maddr(Maddr::new("255.255.255.0")),
                Param::Other("foo".into(), Some("192.0.2.201".into())),
            ],
            headers: Default::default(),
        }
        .render(),
        String::from("sips:client.biloxi.example.com:5061;maddr=255.255.255.0;foo=192.0.2.201")
            .into_bytes()
    );
}

#[test]
fn mod_parser1() {
    assert_eq!(
        Uri::try_from_tokenizer(Tokenizer {
            scheme: None,
            auth: None,
            host_with_port: ("server2.com".as_bytes(), None).into(),
            params: vec![],
            headers: None,
        }),
        Ok(Uri {
            scheme: None,
            auth: None,
            host_with_port: ("server2.com", Option::<u16>::None).into(),
            params: Default::default(),
            headers: Default::default(),
        })
    );
}

#[test]
fn mod_parser2() {
    assert_eq!(
        Uri::try_from_tokenizer(Tokenizer {
            scheme: None,
            auth: Some(("user".as_bytes(), None).into()),
            host_with_port: ("server2.com".as_bytes(), None).into(),
            params: vec![],
            headers: None,
        }),
        Ok(Uri {
            scheme: None,
            auth: Some(("user", Option::<String>::None).into()),
            host_with_port: ("server2.com", Option::<u16>::None).into(),
            params: Default::default(),
            headers: Default::default(),
        })
    );
}

#[test]
fn mod_parser3() {
    assert_eq!(
        Uri::try_from_tokenizer(Tokenizer {
            scheme: None,
            auth: Some(("user".as_bytes(), Some("password".as_bytes())).into()),
            host_with_port: ("server2.com".as_bytes(), None).into(),
            params: vec![],
            headers: None,
        }),
        Ok(Uri {
            scheme: None,
            auth: Some(("user", Some("password")).into()),
            host_with_port: ("server2.com", Option::<u16>::None).into(),
            params: Default::default(),
            headers: Default::default(),
        })
    );
}

#[test]
fn mod_parser4() {
    assert_eq!(
        Uri::try_from_tokenizer(Tokenizer {
            scheme: None,
            auth: Some(("user".as_bytes(), Some("password".as_bytes())).into()),
            host_with_port: ("server2.com".as_bytes(), Some("5060".as_bytes())).into(),
            params: vec![],
            headers: None,
        }),
        Ok(Uri {
            scheme: None,
            auth: Some(("user", Some("password")).into()),
            host_with_port: ("server2.com", Some(5060)).into(),
            params: Default::default(),
            headers: Default::default(),
        })
    );
}

#[test]
fn parser5() {
    assert_eq!(
        Uri::try_from_tokenizer(Tokenizer {
            scheme: Some("sip".as_bytes().into()),
            auth: Some(("user".as_bytes(), None).into()),
            host_with_port: ("server2.com".as_bytes(), Some("5060".as_bytes())).into(),
            params: vec![],
            headers: None,
        }),
        Ok(Uri {
            scheme: Some(Scheme::Sip),
            auth: Some(("user", Option::<String>::None).into()),
            host_with_port: ("server2.com", Some(5060)).into(),
            params: Default::default(),
            headers: Default::default(),
        })
    );
}

#[test]
fn parser6() {
    assert_eq!(
        Uri::try_from_tokenizer(Tokenizer {
            scheme: Some("sip".as_bytes().into()),
            auth: Some(("user".as_bytes(), Some("password".as_bytes())).into()),
            host_with_port: ("server2.com".as_bytes(), Some("5060".as_bytes())).into(),
            params: vec![],
            headers: None,
        }),
        Ok(Uri {
            scheme: Some(Scheme::Sip),
            auth: Some(("user", Some("password")).into()),
            host_with_port: ("server2.com", Some(5060)).into(),
            params: Default::default(),
            headers: Default::default(),
        })
    );
}

#[test]
fn parser7() {
    assert_eq!(
        Uri::try_from_tokenizer(Tokenizer {
            scheme: Some("sips".as_bytes().into()),
            auth: None,
            host_with_port: ("client.biloxi.example.com".as_bytes(), Some("5061".as_bytes()))
                .into(),
            params: vec![
                ("maddr".as_bytes(), Some("255.255.255.0".as_bytes())).into(),
                ("foo".as_bytes(), Some("192.0.2.201".as_bytes())).into(),
            ],
            headers: None,
        }),
        Ok(Uri {
            scheme: Some(Scheme::Sips),
            auth: None,
            host_with_port: ("client.biloxi.example.com", Some(5061)).into(),
            params: vec![
                Param::Maddr(Maddr::new("255.255.255.0")),
                Param::Other("foo".into(), Some("192.0.2.201".into())),
            ],
            headers: Default::default(),
        })
    );
}

#[test]
fn mod_tokenizer1_u8() {
    assert_eq!(
        Tokenizer::tokenize("server2.com something".as_bytes()),
        Ok((
            " something".as_bytes(),
            Tokenizer {
                scheme: None,
                auth: None,
                host_with_port: ("server2.com".as_bytes(), None).into(),
                params: vec![],
                headers: None,
            }
        )),
    );
}

#[test]
fn mod_tokenizer1_str() {
    assert_eq!(
        Tokenizer::tokenize("server2.com something".as_bytes()),
        Ok((
            " something".as_bytes(),
            Tokenizer {
                scheme: None,
                auth: None,
                host_with_port: ("server2.com".as_bytes(), None).into(),
                params: vec![],
                headers: None,
            }
        )),
    );
}

#[test]
fn mod_tokenizer2_u8() {
    assert_eq!(
        Tokenizer::tokenize("user@server2.com something".as_bytes()),
        Ok((
            " something".as_bytes(),
            Tokenizer {
                scheme: None,
                auth: Some(("user".as_bytes(), None).into()),
                host_with_port: ("server2.com".as_bytes(), None).into(),
                params: vec![],
                headers: None,
            }
        )),
    );
}

#[test]
fn tokenizer3_u8() {
    assert_eq!(
        Tokenizer::tokenize("user:password@server2.com something".as_bytes()),
        Ok((
            " something".as_bytes(),
            Tokenizer {
                scheme: None,
                auth: Some(("user".as_bytes(), Some("password".as_bytes())).into()),
                host_with_port: ("server2.com".as_bytes(), None).into(),
                params: vec![],
                headers: None,
            }
        )),
    );
}

#[test]
fn tokenizer4_u8() {
    assert_eq!(
        Tokenizer::tokenize("user:password@server2.com:5060 something".as_bytes()),
        Ok((
            " something".as_bytes(),
            Tokenizer {
                scheme: None,
                auth: Some(("user".as_bytes(), Some("password".as_bytes())).into()),
                host_with_port: ("server2.com".as_bytes(), Some("5060".as_bytes())).into(),
                params: vec![],
                headers: None,
            }
        )),
    );
}

#[test]
fn tokenizer5_u8() {
    assert_eq!(
        Tokenizer::tokenize("sip:user@server2.com:5060 something".as_bytes()),
        Ok((
            " something".as_bytes(),
            Tokenizer {
                scheme: Some("sip".as_bytes().into()),
                auth: Some(("user".as_bytes(), None).into()),
                host_with_port: ("server2.com".as_bytes(), Some("5060".as_bytes())).into(),
                params: vec![],
                headers: None,
            }
        )),
    );
}

#[test]
fn tokenizer6_u8() {
    assert_eq!(
        Tokenizer::tokenize("sip:user:password@server2.com:5060 something".as_bytes()),
        Ok((
            " something".as_bytes(),
            Tokenizer {
                scheme: Some("sip".as_bytes().into()),
                auth: Some(("user".as_bytes(), Some("password".as_bytes())).into()),
                host_with_port: ("server2.com".as_bytes(), Some("5060".as_bytes())).into(),
                params: vec![],
                headers: None,
            }
        )),
    );
}

#[test]
fn tokenizer6_u88() {
    assert_eq!(
        Tokenizer::tokenize("sips:user:password@server2.com:5060 something".as_bytes()),
        Ok((
            " something".as_bytes(),
            Tokenizer {
                scheme: Some("sips".as_bytes().into()),
                auth: Some(("user".as_bytes(), Some("password".as_bytes())).into()),
                host_with_port: ("server2.com".as_bytes(), Some("5060".as_bytes())).into(),
                params: vec![],
                headers: None,
            }
        )),
    );
}

#[test]
fn tokenizer7_u8() {
    assert_eq!(
        Tokenizer::tokenize("sips:ss2.biloxi.example.com something".as_bytes()),
        Ok((
            " something".as_bytes(),
            Tokenizer {
                scheme: Some("sips".as_bytes().into()),
                auth: None,
                host_with_port: ("ss2.biloxi.example.com".as_bytes(), None).into(),
                params: vec![],
                headers: None,
            }
        )),
    );
}

#[test]
fn tokenizer8_u8() {
    assert_eq!(
        Tokenizer::tokenize("sips:ss2.biloxi.example.com;maddr=255.255.255.0 something".as_bytes()),
        Ok((
            " something".as_bytes(),
            Tokenizer {
                scheme: Some("sips".as_bytes().into()),
                auth: None,
                host_with_port: ("ss2.biloxi.example.com".as_bytes(), None).into(),
                params: vec![("maddr".as_bytes(), Some("255.255.255.0".as_bytes())).into()],
                headers: None,
            }
        )),
    );
}

#[test]
fn tokenizer9_u8() {
    assert_eq!(
        Tokenizer::tokenize("sips:client.biloxi.example.com:5061 something".as_bytes()),
        Ok((
            " something".as_bytes(),
            Tokenizer {
                scheme: Some("sips".as_bytes().into()),
                auth: None,
                host_with_port: ("client.biloxi.example.com".as_bytes(), Some("5061".as_bytes()))
                    .into(),
                params: vec![],
                headers: None,
            }
        )),
    );
}

#[test]
fn tokenizer10_u8() {
    assert_eq!(
        Tokenizer::tokenize(
            "sips:client.biloxi.example.com:5061;maddr=255.255.255.0;foo=192.0.2.201 something"
                .as_bytes()
        ),
        Ok((
            " something".as_bytes(),
            Tokenizer {
                scheme: Some("sips".as_bytes().into()),
                auth: None,
                host_with_port: ("client.biloxi.example.com".as_bytes(), Some("5061".as_bytes()))
                    .into(),
                params: vec![
                    ("maddr".as_bytes(), Some("255.255.255.0".as_bytes())).into(),
                    ("foo".as_bytes(), Some("192.0.2.201".as_bytes())).into(),
                ],
                headers: None,
            }
        )),
    );
}

#[test]
fn tokenizer11_u8() {
    assert_eq!(
        Tokenizer::tokenize(
            "sips:client.biloxi.example.com:5061;maddr=255.255.255.0;foo=192.0.2.201;lr something"
                .as_bytes()
        ),
        Ok((
            " something".as_bytes(),
            Tokenizer {
                scheme: Some("sips".as_bytes().into()),
                auth: None,
                host_with_port: ("client.biloxi.example.com".as_bytes(), Some("5061".as_bytes()))
                    .into(),
                params: vec![
                    ("maddr".as_bytes(), Some("255.255.255.0".as_bytes())).into(),
                    ("foo".as_bytes(), Some("192.0.2.201".as_bytes())).into(),
                    ("lr".as_bytes(), None).into(),
                ],
                headers: None,
            }
        )),
    );
}

#[test]
fn tokenizer12_u8() {
    assert_eq!(
        Tokenizer::tokenize(
            "sips:client.biloxi.example.com:5061;maddr=[255.255.255.0];foo=192.0.2.201;lr something"
                .as_bytes()
        ),
        Ok((
            " something".as_bytes(),
            Tokenizer {
                scheme: Some("sips".as_bytes().into()),
                auth: None,
                host_with_port: ("client.biloxi.example.com".as_bytes(), Some("5061".as_bytes()))
                    .into(),
                params: vec![
                    ("maddr".as_bytes(), Some("[255.255.255.0]".as_bytes())).into(),
                    ("foo".as_bytes(), Some("192.0.2.201".as_bytes())).into(),
                    ("lr".as_bytes(), None).into(),
                ],
                headers: None,
            }
        )),
    );
}

#[test]
fn tokenizer13_u8() {
    assert_eq!(
        Tokenizer::tokenize(
            "sip:2222;user:password@10.219.12.179:5060;user=phone;transport=SCTP;yop=00.00.D23F7134.0000.7015 something"
                .as_bytes()
        ),
        Ok((
            " something".as_bytes(),
            Tokenizer {
                scheme: Some("sip".as_bytes().into()),
                auth: Some(("2222;user".as_bytes(), Some("password".as_bytes())).into()),
                host_with_port: ("10.219.12.179".as_bytes(), Some("5060".as_bytes())).into(),
                params: vec![
                    ("user".as_bytes(), Some("phone".as_bytes())).into(),
                    ("transport".as_bytes(), Some("SCTP".as_bytes())).into(),
                    ("yop".as_bytes(), Some("00.00.D23F7134.0000.7015".as_bytes())).into(),
                ],
                headers: None,
            }
        )),
    );
}
