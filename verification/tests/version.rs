use rsip::common::version::Tokenizer;
use rsip::common::version::Version;

#[test]
fn display() {
    assert_eq!(Version::V1.render(), String::from("SIP/1.0").into_bytes());

    assert_eq!(Version::V2.render(), String::from("SIP/2.0").into_bytes());
}

#[test]
fn version_parser() {
    assert_eq!(Version::try_from(Tokenizer::from("SIP/1.0".as_bytes())), Ok(Version::V1));

    assert_eq!(Version::try_from(Tokenizer::from("SIP/2.0".as_bytes())), Ok(Version::V2));
}

#[test]
fn tokenizer() {
    assert_eq!(
        Tokenizer::tokenize(b"SIP/1.0\r\nsomething"),
        Ok(("something".as_bytes(), "SIP/1.0".as_bytes().into())),
    );

    assert_eq!(
        Tokenizer::tokenize(b"SIP/1.0 something"),
        Ok(("something".as_bytes(), "SIP/1.0".as_bytes().into())),
    );
}
