use vstd::prelude::*;
use vstd::string::StringExecFns;

verus! {

/// Everything that can go wrong in the pipeline.
///
/// Each variant carries the text that describes the failure: for the
/// variants that stand for failures of the file system or of the network,
/// the message of the underlying error.
#[derive(Debug, Clone, PartialEq, Eq)]
pub enum CrateError {
    IoError(String),
    ReqwestError(String),
    InvalidURL(String),
    UnsupportedURL(String),
    InvalidPattern(String),
    MissingTemplateKey(String),
    SkipExisting(String),
    /// Variant for all other errors
    Plain(String),
}

/// The kind of a [`CrateError`], without its text.
#[derive(Debug, Clone, Copy, PartialEq, Eq, Structural)]
pub enum ErrorKind {
    Io,
    Reqwest,
    InvalidURL,
    UnsupportedURL,
    InvalidPattern,
    MissingTemplateKey,
    SkipExisting,
    Plain,
}

impl CrateError {
    /// The kind of this error.
    pub open spec fn kind_spec(self) -> ErrorKind {
        match self {
            CrateError::IoError(_) => ErrorKind::Io,
            CrateError::ReqwestError(_) => ErrorKind::Reqwest,
            CrateError::InvalidURL(_) => ErrorKind::InvalidURL,
            CrateError::UnsupportedURL(_) => ErrorKind::UnsupportedURL,
            CrateError::InvalidPattern(_) => ErrorKind::InvalidPattern,
            CrateError::MissingTemplateKey(_) => ErrorKind::MissingTemplateKey,
            CrateError::SkipExisting(_) => ErrorKind::SkipExisting,
            CrateError::Plain(_) => ErrorKind::Plain,
        }
    }

    /// The text that the error carries.
    pub open spec fn detail(self) -> Seq<char> {
        match self {
            CrateError::IoError(s) => s@,
            CrateError::ReqwestError(s) => s@,
            CrateError::InvalidURL(s) => s@,
            CrateError::UnsupportedURL(s) => s@,
            CrateError::InvalidPattern(s) => s@,
            CrateError::MissingTemplateKey(s) => s@,
            CrateError::SkipExisting(s) => s@,
            CrateError::Plain(s) => s@,
        }
    }

    /// What precedes the detail when the error is written out.
    pub open spec fn prefix(kind: ErrorKind) -> Seq<char> {
        match kind {
            ErrorKind::Io => "io error: "@,
            ErrorKind::Reqwest => "reqwest error: "@,
            ErrorKind::InvalidURL => "invalid url: "@,
            ErrorKind::UnsupportedURL => "unsupported url: "@,
            ErrorKind::InvalidPattern => "invalid pattern: "@,
            ErrorKind::MissingTemplateKey => "missing key for template: "@,
            ErrorKind::SkipExisting => "skip existing: "@,
            ErrorKind::Plain => "error: "@,
        }
    }

    /// The error written out: its prefix, then its detail.
    pub open spec fn message_spec(self) -> Seq<char> {
        Self::prefix(self.kind_spec()) + self.detail()
    }

    pub fn invalid_url(url: &str) -> (e: Self)
        ensures
            e.kind_spec() == ErrorKind::InvalidURL,
            e.detail() == url@,
    {
        CrateError::InvalidURL(url.to_owned())
    }

    pub fn unsupported_url(url: &str) -> (e: Self)
        ensures
            e.kind_spec() == ErrorKind::UnsupportedURL,
            e.detail() == url@,
    {
        CrateError::UnsupportedURL(url.to_owned())
    }

    pub fn invalid_pattern(pattern: &str) -> (e: Self)
        ensures
            e.kind_spec() == ErrorKind::InvalidPattern,
            e.detail() == pattern@,
    {
        CrateError::InvalidPattern(pattern.to_owned())
    }

    pub fn missing_template_key(key: &str) -> (e: Self)
        ensures
            e.kind_spec() == ErrorKind::MissingTemplateKey,
            e.detail() == key@,
    {
        CrateError::MissingTemplateKey(key.to_owned())
    }

    pub fn skip_existing(url: &str) -> (e: Self)
        ensures
            e.kind_spec() == ErrorKind::SkipExisting,
            e.detail() == url@,
    {
        CrateError::SkipExisting(url.to_owned())
    }

    pub fn plain(msg: &str) -> (e: Self)
        ensures
            e.kind_spec() == ErrorKind::Plain,
            e.detail() == msg@,
    {
        CrateError::Plain(msg.to_owned())
    }

    /// The kind of this error.
    pub fn kind(&self) -> (k: ErrorKind)
        ensures
            k == self.kind_spec(),
    {
        match self {
            CrateError::IoError(_) => ErrorKind::Io,
            CrateError::ReqwestError(_) => ErrorKind::Reqwest,
            CrateError::InvalidURL(_) => ErrorKind::InvalidURL,
            CrateError::UnsupportedURL(_) => ErrorKind::UnsupportedURL,
            CrateError::InvalidPattern(_) => ErrorKind::InvalidPattern,
            CrateError::MissingTemplateKey(_) => ErrorKind::MissingTemplateKey,
            CrateError::SkipExisting(_) => ErrorKind::SkipExisting,
            CrateError::Plain(_) => ErrorKind::Plain,
        }
    }

    /// The error as one line of text, for logs and for the user.
    pub fn to_string(&self) -> (s: String)
        ensures
            s@ == self.message_spec(),
    {
        match self {
            CrateError::IoError(d) => String::from_str("io error: ").concat(d.as_str()),
            CrateError::ReqwestError(d) => String::from_str("reqwest error: ").concat(d.as_str()),
            CrateError::InvalidURL(d) => String::from_str("invalid url: ").concat(d.as_str()),
            CrateError::UnsupportedURL(d) => String::from_str("unsupported url: ").concat(
                d.as_str(),
            ),
            CrateError::InvalidPattern(d) => String::from_str("invalid pattern: ").concat(
                d.as_str(),
            ),
            CrateError::MissingTemplateKey(d) => String::from_str(
                "missing key for template: ",
            ).concat(d.as_str()),
            CrateError::SkipExisting(d) => String::from_str("skip existing: ").concat(d.as_str()),
            CrateError::Plain(d) => String::from_str("error: ").concat(d.as_str()),
        }
    }
}

} // verus!
