//! The sites that the pipeline knows, and the classification of URLs by
//! their host.

use vstd::prelude::*;
use vstd::string::StringExecFns;

use crate::error::{CrateError, ErrorKind};
use crate::text::same_text;
use crate::weburl::{host_of_url, url_host};

verus! {

/// Slugs for extractor
#[derive(Debug, Clone, Copy, PartialEq, Eq, Hash, Structural)]
pub enum ExtractorSlug {
    Artstation,
    Danbooru,
    DeviantArt,
    Imgur,
    Pixiv,
    Reddit,
    Twitter,
    Wallhaven,
}

impl ExtractorSlug {
    /// The slug as text.
    pub open spec fn text(self) -> Seq<char> {
        match self {
            ExtractorSlug::Artstation => "artstation"@,
            ExtractorSlug::Danbooru => "danbooru"@,
            ExtractorSlug::DeviantArt => "deviantart"@,
            ExtractorSlug::Imgur => "imgur"@,
            ExtractorSlug::Pixiv => "pixiv"@,
            ExtractorSlug::Reddit => "reddit"@,
            ExtractorSlug::Twitter => "twitter"@,
            ExtractorSlug::Wallhaven => "wallhaven"@,
        }
    }

    /// The slug as text.
    pub fn as_str(&self) -> (s: &'static str)
        ensures
            s@ == self.text(),
    {
        match self {
            ExtractorSlug::Artstation => "artstation",
            ExtractorSlug::Danbooru => "danbooru",
            ExtractorSlug::DeviantArt => "deviantart",
            ExtractorSlug::Imgur => "imgur",
            ExtractorSlug::Pixiv => "pixiv",
            ExtractorSlug::Reddit => "reddit",
            ExtractorSlug::Twitter => "twitter",
            ExtractorSlug::Wallhaven => "wallhaven",
        }
    }

    /// The slug as text.
    pub fn to_string(&self) -> (s: String)
        ensures
            s@ == self.text(),
    {
        String::from_str(self.as_str())
    }
}

/// The site that serves the host, by the exact name of the host.
pub open spec fn site_of_host_spec(host: Seq<char>) -> Option<ExtractorSlug> {
    if host == "danbooru.donmai.us"@ {
        Some(ExtractorSlug::Danbooru)
    } else if host == "imgur.com"@ {
        Some(ExtractorSlug::Imgur)
    } else if host == "mobile.twitter.com"@ {
        Some(ExtractorSlug::Twitter)
    } else if host == "nitter.net"@ {
        Some(ExtractorSlug::Twitter)
    } else if host == "redd.it"@ {
        Some(ExtractorSlug::Reddit)
    } else if host == "safebooru.donmai.us"@ {
        Some(ExtractorSlug::Danbooru)
    } else if host == "twitter.com"@ {
        Some(ExtractorSlug::Twitter)
    } else if host == "wallhaven.cc"@ {
        Some(ExtractorSlug::Wallhaven)
    } else if host == "whvn.cc"@ {
        Some(ExtractorSlug::Wallhaven)
    } else if host == "www.artstation.com"@ {
        Some(ExtractorSlug::Artstation)
    } else if host == "www.deviantart.com"@ {
        Some(ExtractorSlug::DeviantArt)
    } else if host == "www.pixiv.net"@ {
        Some(ExtractorSlug::Pixiv)
    } else if host == "www.reddit.com"@ {
        Some(ExtractorSlug::Reddit)
    } else if host == "zettai.moe"@ {
        Some(ExtractorSlug::Pixiv)
    } else {
        None
    }
}

/// The site that serves the host, by the exact name of the host.
pub fn site_of_host(host: &str) -> (r: Option<ExtractorSlug>)
    ensures
        r == site_of_host_spec(host@),
{
    if same_text(host, "danbooru.donmai.us") {
        Some(ExtractorSlug::Danbooru)
    } else if same_text(host, "imgur.com") {
        Some(ExtractorSlug::Imgur)
    } else if same_text(host, "mobile.twitter.com") {
        Some(ExtractorSlug::Twitter)
    } else if same_text(host, "nitter.net") {
        Some(ExtractorSlug::Twitter)
    } else if same_text(host, "redd.it") {
        Some(ExtractorSlug::Reddit)
    } else if same_text(host, "safebooru.donmai.us") {
        Some(ExtractorSlug::Danbooru)
    } else if same_text(host, "twitter.com") {
        Some(ExtractorSlug::Twitter)
    } else if same_text(host, "wallhaven.cc") {
        Some(ExtractorSlug::Wallhaven)
    } else if same_text(host, "whvn.cc") {
        Some(ExtractorSlug::Wallhaven)
    } else if same_text(host, "www.artstation.com") {
        Some(ExtractorSlug::Artstation)
    } else if same_text(host, "www.deviantart.com") {
        Some(ExtractorSlug::DeviantArt)
    } else if same_text(host, "www.pixiv.net") {
        Some(ExtractorSlug::Pixiv)
    } else if same_text(host, "www.reddit.com") {
        Some(ExtractorSlug::Reddit)
    } else if same_text(host, "zettai.moe") {
        Some(ExtractorSlug::Pixiv)
    } else {
        None
    }
}

/// Why a URL is not classified: the kind of the error and its text.
pub type Rejection = (ErrorKind, Seq<char>);

/// The kind and the text of an error.
pub open spec fn rejection_of(e: CrateError) -> Rejection {
    (e.kind_spec(), e.detail())
}

/// The site of `url`, given what parsing it gave: the site of its host;
/// `InvalidURL` where it does not parse, `Plain` where it has no host,
/// `UnsupportedURL` where no site serves the host.
pub open spec fn classify_spec(
    parsed: Result<Option<Seq<char>>, Seq<char>>,
    url: Seq<char>,
) -> Result<ExtractorSlug, Rejection> {
    match parsed {
        Err(_) => Err((ErrorKind::InvalidURL, url)),
        Ok(None) => Err((ErrorKind::Plain, "cannot parse host from url: "@ + url)),
        Ok(Some(host)) => match site_of_host_spec(host) {
            Some(slug) => Ok(slug),
            None => Err((ErrorKind::UnsupportedURL, url)),
        },
    }
}

/// The site of `url`, or why it has none.
pub open spec fn site_of_url(url: Seq<char>) -> Result<ExtractorSlug, Rejection> {
    classify_spec(host_of_url(url), url)
}

/// The host of a parse result, by its view.
pub open spec fn host_view(parsed: Result<Option<String>, String>) -> Result<
    Option<Seq<char>>,
    Seq<char>,
> {
    match parsed {
        Ok(Some(h)) => Ok(Some(h@)),
        Ok(None) => Ok(None),
        Err(m) => Err(m@),
    }
}

/// Classifies `url`, given the host that parsing it gave or the message
/// with which parsing failed.
pub fn classify(parsed: Result<Option<String>, String>, url: &str) -> (r: Result<
    ExtractorSlug,
    CrateError,
>)
    ensures
        match classify_spec(host_view(parsed), url@) {
            Ok(slug) => r == Ok::<ExtractorSlug, CrateError>(slug),
            Err(rejection) => r matches Err(e) && rejection_of(e) == rejection,
        },
{
    match parsed {
        Err(_) => Err(CrateError::invalid_url(url)),
        Ok(None) => {
            let msg = String::from_str("cannot parse host from url: ").concat(url);
            Err(CrateError::plain(msg.as_str()))
        },
        Ok(Some(host)) => match site_of_host(host.as_str()) {
            Some(slug) => Ok(slug),
            None => Err(CrateError::unsupported_url(url)),
        },
    }
}

/// The site that `url` belongs to.
///
/// A text that is no URL gives `InvalidURL`, a URL without a host
/// `Plain`, a host that no site serves `UnsupportedURL`.
pub fn detect_site(url: &str) -> (r: Result<ExtractorSlug, CrateError>)
    ensures
        match site_of_url(url@) {
            Ok(slug) => r == Ok::<ExtractorSlug, CrateError>(slug),
            Err(rejection) => r matches Err(e) && rejection_of(e) == rejection,
        },
{
    classify(url_host(url), url)
}

} // verus!
