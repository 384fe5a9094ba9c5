use rsip::common::uri::param::Maddr;
use rsip::common::uri::param::Param;
use rsip::common::uri::param::Tokenizer;
use rsip::param::OtherParam;
use rsip::param::OtherParamValue;
use rsip::TokenizerError;

#[test]
fn params_display1() {
    assert_eq!(
        Param::Maddr(Maddr::new("255.255.255.0")).render(),
        String::from(";maddr=255.255.255.0").into_bytes()
    );
}

#[test]
fn params_parser1() {
    assert_eq!(
        Param::try_from(Tokenizer::from(("maddr".as_bytes(), Some("255.255.255.0".as_bytes())))),
        Ok(Param::Maddr(Maddr::new("255.255.255.0")))
    );
}

#[test]
fn params_parser2() {
    assert_eq!(
        Param::try_from(Tokenizer::from(("maddr".as_bytes(), None))),
        Ok(Param::Other("maddr".into(), None))
    );
}

#[test]
fn other1() {
    assert_eq!(
        Param::try_from(Tokenizer::from(("param".as_bytes(), Some("dupa".as_bytes())))),
        Ok(Param::Other(OtherParam::new("param"), Some(OtherParamValue::new("dupa"))))
    );
}

#[test]
fn other2() {
    assert_eq!(
        Param::try_from(Tokenizer::tokenize(";param=dupa".as_bytes()).unwrap().1)
            .unwrap()
            .render(),
        ";param=dupa".as_bytes().to_vec()
    );
}

#[test]
fn other3() {
    assert_eq!(
        Param::try_from(Tokenizer::tokenize(";param=//dupa".as_bytes()).unwrap().1)
            .unwrap()
            .render(),
        ";param=//dupa".as_bytes().to_vec()
    );
}

#[test]
fn other4() {
    assert_eq!(
        Param::try_from(Tokenizer::tokenize(";param=[dupa]".as_bytes()).unwrap().1)
            .unwrap()
            .render(),
        ";param=[dupa]".as_bytes().to_vec()
    );
}

#[test]
fn other5() {
    assert_eq!(
        Param::try_from(Tokenizer::tokenize(";param=%[dupa]".as_bytes()).unwrap().1)
            .unwrap()
            .render(),
        ";param=%[dupa]".as_bytes().to_vec()
    );
}

#[test]
fn params_tokenizer1_u8() {
    assert_eq!(
        Tokenizer::tokenize(";maddr=255.255.255.255;something".as_bytes()),
        Ok((
            ";something".as_bytes(),
            ("maddr".as_bytes(), Some("255.255.255.255".as_bytes())).into()
        )),
    );
}

#[test]
fn tokenizer1_u8_2() {
    assert_eq!(
        Tokenizer::tokenize(";maddr=//[255.255.255.255];something".as_bytes()),
        Ok((
            ";something".as_bytes(),
            ("maddr".as_bytes(), Some("//[255.255.255.255]".as_bytes())).into()
        )),
    );
}

#[test]
fn params_tokenizer1_str() {
    assert_eq!(
        Tokenizer::tokenize(";maddr=255.255.255.255;something".as_bytes()),
        Ok((
            ";something".as_bytes(),
            ("maddr".as_bytes(), Some("255.255.255.255".as_bytes())).into()
        )),
    );
}

#[test]
fn params_tokenizer2_u8() {
    assert_eq!(
        Tokenizer::tokenize(";maddr=255.255.255.255;something".as_bytes()),
        Ok((
            ";something".as_bytes(),
            ("maddr".as_bytes(), Some("255.255.255.255".as_bytes())).into()
        )),
    );
}

#[test]
fn params_errors1() {
    assert_eq!(
        Tokenizer::tokenize("hello".as_bytes()),
        Err(TokenizerError::from("failed to tokenize uri param: hello")),
    );
}
