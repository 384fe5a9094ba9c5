use rsip::common::uri::auth::Auth;
use rsip::common::uri::auth::Tokenizer;
use rsip::TokenizerError;

#[test]
fn auth_display1() {
    assert_eq!(
        Auth { user: "user".into(), password: None }.render(),
        String::from("user").into_bytes()
    );
}

#[test]
fn auth_display2() {
    assert_eq!(
        Auth { user: "user".into(), password: Some("password".into()) }.render(),
        String::from("user:password").into_bytes()
    );
}

#[test]
fn auth_parser() {
    assert_eq!(
        Auth::try_from(Tokenizer::from(("user".as_bytes(), Some("password".as_bytes())))),
        Ok(Auth { user: "user".into(), password: Some("password".into()) }),
    );
}

#[test]
fn auth_tokenizer1_u8() {
    assert_eq!(
        Tokenizer::tokenize("user:password@server2.com something".as_bytes()),
        Ok((
            "server2.com something".as_bytes(),
            ("user".as_bytes(), Some("password".as_bytes())).into()
        )),
    );
}

#[test]
fn auth_tokenizer1_str() {
    assert_eq!(
        Tokenizer::tokenize("user:password@server2.com something".as_bytes()),
        Ok((
            "server2.com something".as_bytes(),
            ("user".as_bytes(), Some("password".as_bytes())).into()
        )),
    );
}

#[test]
fn tokenizer1_str2() {
    assert_eq!(
        Tokenizer::tokenize("user:&=+$,password@server2.com something".as_bytes()),
        Ok((
            "server2.com something".as_bytes(),
            ("user".as_bytes(), Some("&=+$,password".as_bytes())).into()
        )),
    );
}

#[test]
fn tokenizer1_str3() {
    assert_eq!(
        Tokenizer::tokenize("-_.!~*'/user&=+$,:password@server2.com something".as_bytes()),
        Ok((
            "server2.com something".as_bytes(),
            ("-_.!~*'/user&=+$,".as_bytes(), Some("password".as_bytes())).into()
        )),
    );
}

#[test]
fn auth_errors1() {
    assert_eq!(
        Tokenizer::tokenize("server2.com something".as_bytes()),
        Err(TokenizerError::from(
            "failed to tokenize auth user: server2.com something"
        )),
    );
}

#[test]
fn errors2() {
    assert_eq!(
        Tokenizer::tokenize("@server2.com something".as_bytes()),
        Err(TokenizerError::from("failed to tokenize auth @server2.com something")),
    );
}

#[test]
fn errors3() {
    assert_eq!(
        Tokenizer::tokenize("user::password@server2.com something".as_bytes()),
        Err(TokenizerError::from("failed to tokenize auth @server2.com something")),
    );
}
