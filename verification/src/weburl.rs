//! What the pipeline reads of a URL, as the `url` crate parses it.

use vstd::prelude::*;

verus! {

/// The host of the URL that `input` parses to, where it has one; or the
/// message of the error with which `url::Url::parse` rejects `input`.
pub uninterp spec fn host_of_url(input: Seq<char>) -> Result<Option<Seq<char>>, Seq<char>>;

/// The segments of the path of the URL that `input` parses to, where the
/// URL can be a base; or the message of the error with which
/// `url::Url::parse` rejects `input`.
pub uninterp spec fn segments_of_url(input: Seq<char>) -> Result<
    Option<Seq<Seq<char>>>,
    Seq<char>,
>;

/// The texts of `v`, each as a sequence of characters.
pub open spec fn texts(v: Seq<String>) -> Seq<Seq<char>> {
    Seq::new(v.len(), |i: int| v[i]@)
}

/// The texts of `v`, each as a sequence of characters.
pub open spec fn url_texts(v: Seq<&str>) -> Seq<Seq<char>> {
    Seq::new(v.len(), |i: int| v[i]@)
}

/// `url::Url::parse` followed by `url::Url::host_str`: the host of the
/// parsed URL, copied out, or the parse error as text. The outcome is a
/// function of `input` alone and goes by the name [`host_of_url`].
#[verifier::external_body]
pub(crate) fn url_host(input: &str) -> (r: Result<Option<String>, String>)
    ensures
        match host_of_url(input@) {
            Ok(Some(host)) => r matches Ok(Some(h)) && h@ == host,
            Ok(None) => r matches Ok(None),
            Err(message) => r matches Err(m) && m@ == message,
        },
{
    match url::Url::parse(input) {
        Ok(parsed) => Ok(parsed.host_str().map(str::to_owned)),
        Err(e) => Err(e.to_string()),
    }
}

/// `url::Url::parse` followed by `url::Url::path_segments`: the segments
/// of the parsed URL's path, copied out in order, or the parse error as
/// text. The outcome is a function of `input` alone and goes by the name
/// [`segments_of_url`].
#[verifier::external_body]
pub(crate) fn url_path_segments(input: &str) -> (r: Result<Option<Vec<String>>, String>)
    ensures
        match segments_of_url(input@) {
            Ok(Some(segments)) => r matches Ok(Some(s)) && texts(s@) == segments,
            Ok(None) => r matches Ok(None),
            Err(message) => r matches Err(m) && m@ == message,
        },
{
    match url::Url::parse(input) {
        Ok(parsed) => Ok(parsed.path_segments().map(|c| c.map(str::to_owned).collect())),
        Err(e) => Err(e.to_string()),
    }
}

} // verus!
