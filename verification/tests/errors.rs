use gallery_fetch::error::{CrateError, ErrorKind};

#[test]
fn constructors_make_their_variant() {
    assert_eq!(CrateError::invalid_url("u"), CrateError::InvalidURL("u".to_string()));
    assert_eq!(CrateError::unsupported_url("u"), CrateError::UnsupportedURL("u".to_string()));
    assert_eq!(CrateError::invalid_pattern("p"), CrateError::InvalidPattern("p".to_string()));
    assert_eq!(
        CrateError::missing_template_key("k"),
        CrateError::MissingTemplateKey("k".to_string())
    );
    assert_eq!(CrateError::skip_existing("u"), CrateError::SkipExisting("u".to_string()));
    assert_eq!(CrateError::plain("m"), CrateError::Plain("m".to_string()));
}

#[test]
fn kinds() {
    assert_eq!(CrateError::IoError("x".to_string()).kind(), ErrorKind::Io);
    assert_eq!(CrateError::ReqwestError("x".to_string()).kind(), ErrorKind::Reqwest);
    assert_eq!(CrateError::invalid_url("x").kind(), ErrorKind::InvalidURL);
    assert_eq!(CrateError::unsupported_url("x").kind(), ErrorKind::UnsupportedURL);
    assert_eq!(CrateError::invalid_pattern("x").kind(), ErrorKind::InvalidPattern);
    assert_eq!(CrateError::missing_template_key("x").kind(), ErrorKind::MissingTemplateKey);
    assert_eq!(CrateError::skip_existing("x").kind(), ErrorKind::SkipExisting);
    assert_eq!(CrateError::plain("x").kind(), ErrorKind::Plain);
}

#[test]
fn messages() {
    assert_eq!(CrateError::IoError("gone".to_string()).to_string(), "io error: gone");
    assert_eq!(CrateError::ReqwestError("404".to_string()).to_string(), "reqwest error: 404");
    assert_eq!(CrateError::invalid_url("u").to_string(), "invalid url: u");
    assert_eq!(CrateError::unsupported_url("u").to_string(), "unsupported url: u");
    assert_eq!(CrateError::invalid_pattern("{").to_string(), "invalid pattern: {");
    assert_eq!(
        CrateError::missing_template_key("ext").to_string(),
        "missing key for template: ext"
    );
    assert_eq!(CrateError::skip_existing("u").to_string(), "skip existing: u");
    assert_eq!(CrateError::plain("oops").to_string(), "error: oops");
    assert_eq!(CrateError::plain("").to_string(), "error: ");
}
