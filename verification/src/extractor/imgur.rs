//! The extractor for imgur: images, albums and galleries.

use vstd::prelude::*;
use vstd::string::StringExecFns;

pub mod info;
pub mod patterns;

use crate::dispatch::rejections;
use crate::error::{CrateError, ErrorKind};
use crate::extractor::common::{Extractor, ExtractorOptions, Planned};
use crate::extractor::imgur::info::{
    normalize, DataView, ImageView, ImgurInfo, ImgurInfoData, ImgurInfoImage, InfoView,
};
use crate::extractor::imgur::patterns::{api_lexems, lemma_request_renders, request_text};
use crate::sites::{rejection_of, ExtractorSlug, Rejection};
use crate::template::grammar::{split_all, LexemView};
use crate::template::render::{lemma_substitutions_push, render_spec, Substitutions};
use crate::template::Template;
use crate::text::{chars_of, same_text, text_of};
use crate::weburl::{segments_of_url, texts, url_path_segments, url_texts};

verus! {

/// The pattern of the request for the metadata of a resource.
pub const API_ALBUM_URL: &'static str = "https://api.imgur.com/3/{type}/{id}";

/// The site of this extractor.
pub const SLUG: ExtractorSlug = ExtractorSlug::Imgur;

/// What stands between the parts of a file name.
pub const SEPARATOR: &'static str = " - ";

/// The pattern of the path of an image that is alone in its album.
pub const SAVE_SINGLE_FILE_PATTERN: &'static str =
    "{album_title}{sep}{album_id}{sep}{image_title}{sep}{image_id}.{ext}";

/// The pattern of the path of an image of an album, which has a folder
/// of its own.
pub const SAVE_ALBUM_PATTERN: &'static str =
    "{album_title}{sep}{album_id}/{image_title}{sep}{image_id}.{ext}";

/// What a link names: a collection of images, or one image.
#[derive(Debug, Clone, Copy, PartialEq, Eq, Structural)]
pub enum LinkType {
    Album,
    Image,
}

impl LinkType {
    /// The type as the API names it.
    pub open spec fn text(self) -> Seq<char> {
        match self {
            LinkType::Album => "album"@,
            LinkType::Image => "image"@,
        }
    }

    /// The type as the API names it.
    pub fn as_str(&self) -> (s: &'static str)
        ensures
            s@ == self.text(),
    {
        match self {
            LinkType::Album => "album",
            LinkType::Image => "image",
        }
    }

    /// The type as the API names it.
    pub fn to_string(&self) -> (s: String)
        ensures
            s@ == self.text(),
    {
        String::from_str(self.as_str())
    }
}

/// The resource that a URL names.
#[derive(Debug)]
pub struct Parsed {
    pub id: String,
    pub link_type: LinkType,
}

/// What a parsed link is, as the contracts see it.
pub struct ParsedView {
    pub id: Seq<char>,
    pub link_type: LinkType,
}

impl View for Parsed {
    type V = ParsedView;

    open spec fn view(&self) -> ParsedView {
        ParsedView { id: self.id@, link_type: self.link_type }
    }
}

/// A first segment that names no image: the empty one, and those that
/// introduce an album, a gallery or a tag.
pub open spec fn is_reserved(segment: Seq<char>) -> bool {
    segment == ""@ || segment == "a"@ || segment == "gallery"@ || segment == "t"@
}

/// The resource that the path segments of `value` name.
///
/// `/<id>` is an image; `/a/<id>`, `/gallery/<id>` and `/t/<tag>/<id>`
/// are albums. A path that stops before the identifier is invalid, any
/// other shape is unsupported.
pub open spec fn resource_of_segments(segments: Seq<Seq<char>>, value: Seq<char>) -> Result<
    ParsedView,
    Rejection,
> {
    if segments.len() == 1 {
        if is_reserved(segments[0]) {
            Err((ErrorKind::InvalidURL, value))
        } else {
            Ok(ParsedView { id: segments[0], link_type: LinkType::Image })
        }
    } else if segments.len() == 2 {
        if segments[0] == "t"@ {
            Err((ErrorKind::InvalidURL, value))
        } else if segments[0] == "a"@ || segments[0] == "gallery"@ {
            if segments[1].len() == 0 {
                Err((ErrorKind::InvalidURL, value))
            } else {
                Ok(ParsedView { id: segments[1], link_type: LinkType::Album })
            }
        } else {
            Err((ErrorKind::UnsupportedURL, value))
        }
    } else if segments.len() == 3 && segments[0] == "t"@ {
        if segments[2].len() == 0 {
            Err((ErrorKind::InvalidURL, value))
        } else {
            Ok(ParsedView { id: segments[2], link_type: LinkType::Album })
        }
    } else {
        Err((ErrorKind::UnsupportedURL, value))
    }
}

/// The resource that `value` names, given what parsing it gave: a text
/// that is no URL is invalid, with the parser's message; a URL without
/// path segments gives `Plain`.
pub open spec fn resource_spec(
    parsed: Result<Option<Seq<Seq<char>>>, Seq<char>>,
    value: Seq<char>,
) -> Result<ParsedView, Rejection> {
    match parsed {
        Err(message) => Err((ErrorKind::InvalidURL, message)),
        Ok(None) => Err((ErrorKind::Plain, "cannot get path segments from "@ + value)),
        Ok(Some(segments)) => resource_of_segments(segments, value),
    }
}

/// The resource that the URL `value` names, or why it names none.
pub open spec fn resource_of_url(value: Seq<char>) -> Result<ParsedView, Rejection> {
    resource_spec(segments_of_url(value), value)
}

/// The path segments of a parse result, by their view.
pub open spec fn segments_view(parsed: Result<Option<Vec<String>>, String>) -> Result<
    Option<Seq<Seq<char>>>,
    Seq<char>,
> {
    match parsed {
        Ok(Some(s)) => Ok(Some(texts(s@))),
        Ok(None) => Ok(None),
        Err(m) => Err(m@),
    }
}

impl Parsed {
    pub fn new(id: &str, link_type: LinkType) -> (r: Self)
        ensures
            r@ == (ParsedView { id: id@, link_type }),
    {
        let id = id.to_owned();
        Self { id, link_type }
    }

    /// The resource that the path segments of `value` name.
    pub fn from_segments(segments: &Vec<String>, value: &str) -> (r: Result<Self, CrateError>)
        ensures
            match resource_of_segments(texts(segments@), value@) {
                Ok(view) => r matches Ok(p) && p@ == view,
                Err(rejection) => r matches Err(e) && rejection_of(e) == rejection,
            },
    {
        proof {
            reveal_strlit("");
            assert forall|t: Seq<char>| t.len() == 0 implies t == ""@ by {
                assert(t =~= ""@);
            }
        }
        let n = segments.len();
        if n == 1 {
            let first = segments[0].as_str();
            assert(first@ == texts(segments@)[0]);
            if same_text(first, "") || same_text(first, "a") || same_text(first, "gallery")
                || same_text(first, "t") {
                Err(CrateError::invalid_url(value))
            } else {
                Ok(Parsed::new(first, LinkType::Image))
            }
        } else if n == 2 {
            let first = segments[0].as_str();
            let id = segments[1].as_str();
            assert(first@ == texts(segments@)[0]);
            assert(id@ == texts(segments@)[1]);
            if same_text(first, "t") {
                Err(CrateError::invalid_url(value))
            } else if same_text(first, "a") || same_text(first, "gallery") {
                if same_text(id, "") {
                    Err(CrateError::invalid_url(value))
                } else {
                    Ok(Parsed::new(id, LinkType::Album))
                }
            } else {
                Err(CrateError::unsupported_url(value))
            }
        } else if n == 3 && same_text(segments[0].as_str(), "t") {
            let id = segments[2].as_str();
            assert(segments[0]@ == texts(segments@)[0]);
            assert(id@ == texts(segments@)[2]);
            if same_text(id, "") {
                Err(CrateError::invalid_url(value))
            } else {
                Ok(Parsed::new(id, LinkType::Album))
            }
        } else {
            if n == 3 {
                assert(segments[0]@ == texts(segments@)[0]);
            }
            Err(CrateError::unsupported_url(value))
        }
    }

    /// The resource that `value` names, given the path segments that
    /// parsing it gave or the message with which parsing failed.
    pub fn from_parsed(parsed: Result<Option<Vec<String>>, String>, value: &str) -> (r: Result<
        Self,
        CrateError,
    >)
        ensures
            match resource_spec(segments_view(parsed), value@) {
                Ok(view) => r matches Ok(p) && p@ == view,
                Err(rejection) => r matches Err(e) && rejection_of(e) == rejection,
            },
    {
        match parsed {
            Err(message) => Err(CrateError::invalid_url(message.as_str())),
            Ok(None) => {
                let msg = String::from_str("cannot get path segments from ").concat(value);
                Err(CrateError::plain(msg.as_str()))
            },
            Ok(Some(segments)) => Parsed::from_segments(&segments, value),
        }
    }

    /// The resource that the URL `value` names.
    pub fn try_from(value: &str) -> (r: Result<Self, CrateError>)
        ensures
            match resource_of_url(value@) {
                Ok(view) => r matches Ok(p) && p@ == view,
                Err(rejection) => r matches Err(e) && rejection_of(e) == rejection,
            },
    {
        Parsed::from_parsed(url_path_segments(value), value)
    }
}

/// What follows the last slash of `s`; all of `s` where it holds none.
pub open spec fn extension(s: Seq<char>) -> Seq<char>
    decreases s.len(),
{
    if s.len() == 0 || s.last() == '/' {
        Seq::empty()
    } else {
        extension(s.drop_last()).push(s.last())
    }
}

/// The extension starts where no slash follows and one, if any, precedes.
proof fn lemma_extension_is(s: Seq<char>, from: int)
    requires
        0 <= from <= s.len(),
        forall|k: int| from <= k < s.len() ==> s[k] != '/',
        from == 0 || s[from - 1] == '/',
    ensures
        extension(s) == s.skip(from),
    decreases s.len() - from,
{
    if from == s.len() {
        assert(s.skip(from) =~= Seq::empty());
    } else {
        let front = s.drop_last();
        assert forall|k: int| from <= k < front.len() implies front[k] != '/' by {
            assert(front[k] == s[k]);
        }
        if from > 0 {
            assert(front[from - 1] == s[from - 1]);
        }
        lemma_extension_is(front, from);
        assert(front.skip(from).push(s.last()) =~= s.skip(from));
    }
}

/// The file extension that a content type stands for: what follows its
/// last slash.
pub fn extension_of(content_type: &str) -> (r: String)
    ensures
        r@ == extension(content_type@),
{
    let chars = chars_of(content_type);
    let mut from: usize = chars.len();
    while from > 0 && chars[from - 1] != '/'
        invariant
            from <= chars.len(),
            forall|k: int| from <= k < chars.len() ==> chars@[k] != '/',
        decreases from,
    {
        from -= 1;
    }
    proof {
        lemma_extension_is(chars@, from as int);
        assert(chars@.skip(from as int) =~= chars@.subrange(from as int, chars.len() as int));
    }
    text_of(&chars, from, chars.len())
}

/// The extractor for imgur.
#[derive(Debug)]
pub struct ImgurExtractor {}

/// The values that the pattern of a request is rendered against.
pub open spec fn request_substitutions(resource: ParsedView) -> Substitutions {
    Map::<Seq<char>, Seq<char>>::empty().insert("id"@, resource.id).insert(
        "type"@,
        resource.link_type.text(),
    )
}

/// What one URL comes to, with the template `ls` for the request: the
/// request, or the error that takes the URL out of the batch; or, on
/// the outside, the error that ends the batch.
pub open spec fn request_for(ls: Seq<LexemView>, url: Seq<char>) -> Result<
    Result<Seq<char>, Rejection>,
    Rejection,
> {
    match resource_of_url(url) {
        Err(rejection) => Ok(Err(rejection)),
        Ok(resource) => match render_spec(ls, request_substitutions(resource)) {
            Ok(request) => Ok(Ok(request)),
            Err(name) => Err((ErrorKind::MissingTemplateKey, name)),
        },
    }
}

/// What one URL comes to: the request for the resource that it names,
/// or the error that takes the URL out of the batch.
pub open spec fn planned_of(url: Seq<char>) -> Result<Seq<char>, Rejection> {
    match resource_of_url(url) {
        Ok(resource) => Ok(request_text(resource)),
        Err(rejection) => Err(rejection),
    }
}

/// What the URLs come to, each in its place.
pub open spec fn planned_for(urls: Seq<Seq<char>>) -> Seq<Result<Seq<char>, Rejection>> {
    Seq::new(urls.len(), |i: int| planned_of(urls[i]))
}

/// What a URL came to, by its view.
pub open spec fn planned_view(p: Planned) -> Result<Seq<char>, Rejection> {
    match p {
        Ok(request) => Ok(request@),
        Err(e) => Err(rejection_of(e)),
    }
}

/// What the URLs came to, each by its view.
pub open spec fn planned_views(v: Seq<Planned>) -> Seq<Result<Seq<char>, Rejection>> {
    Seq::new(v.len(), |i: int| planned_view(v[i]))
}

/// An answer or the error in its place, by its view.
pub open spec fn response_view(r: Result<ImgurInfoData, CrateError>) -> Result<
    DataView,
    Rejection,
> {
    match r {
        Ok(data) => Ok(data@),
        Err(e) => Err(rejection_of(e)),
    }
}

/// The answers, each by its view.
pub open spec fn response_views(v: Seq<Result<ImgurInfoData, CrateError>>) -> Seq<
    Result<DataView, Rejection>,
> {
    Seq::new(v.len(), |i: int| response_view(v[i]))
}

/// The metadata of the answers among `responses`, in their order.
pub open spec fn fetched(responses: Seq<Result<DataView, Rejection>>) -> Seq<InfoView>
    decreases responses.len(),
{
    if responses.len() == 0 {
        Seq::empty()
    } else {
        match responses.last() {
            Ok(data) => fetched(responses.drop_last()).push(normalize(data)),
            Err(_) => fetched(responses.drop_last()),
        }
    }
}

/// The errors among `responses`, in their order.
pub open spec fn failed(responses: Seq<Result<DataView, Rejection>>) -> Seq<Rejection>
    decreases responses.len(),
{
    if responses.len() == 0 {
        Seq::empty()
    } else {
        match responses.last() {
            Ok(_) => failed(responses.drop_last()),
            Err(rejection) => failed(responses.drop_last()).push(rejection),
        }
    }
}

/// The metadata, each by its view.
pub open spec fn info_views(v: Seq<ImgurInfo>) -> Seq<InfoView> {
    Seq::new(v.len(), |i: int| v[i]@)
}

impl ImgurExtractor {
    /// The metadata that an answer stands for: a collection as it is, a
    /// single image as a collection of one.
    pub fn fetch_info_inner(data: ImgurInfoData) -> (r: ImgurInfo)
        ensures
            r@ == normalize(data@),
    {
        match data {
            ImgurInfoData::Single(image) => ImgurInfo::from(image),
            ImgurInfoData::Multiple(info) => info,
        }
    }

    /// The request for one URL: the pattern of the requests rendered
    /// against the identifier and the type of the resource that the URL
    /// names. The inner error takes the URL out of the batch, the outer
    /// one ends the batch.
    pub fn request(url_template: &Template, url: &str) -> (r: Result<Planned, CrateError>)
        ensures
            match request_for(url_template@, url@) {
                Ok(one) => r matches Ok(p) && planned_view(p) == one,
                Err(rejection) => r matches Err(e) && rejection_of(e) == rejection,
            },
    {
        let parsed = match Parsed::try_from(url) {
            Ok(p) => p,
            Err(e) => {
                return Ok(Err(e));
            },
        };
        let id = parsed.id.as_str();
        let link_type = parsed.link_type.as_str();
        let mut sub: Vec<(&str, &str)> = Vec::new();
        assert(sub@ =~= Seq::empty());
        proof {
            lemma_substitutions_push(sub@, "id", id);
        }
        sub.push(("id", id));
        proof {
            lemma_substitutions_push(sub@, "type", link_type);
        }
        sub.push(("type", link_type));
        match url_template.render(sub.as_slice()) {
            Ok(request) => Ok(Ok(request)),
            Err(e) => Err(e),
        }
    }
}

impl Extractor for ImgurExtractor {
    type Response = ImgurInfoData;

    type Info = ImgurInfo;

    fn requests(urls: &[&str], config: &ExtractorOptions) -> (r: Result<Vec<Planned>, CrateError>)
        ensures
            r matches Ok(v) && planned_views(v@) == planned_for(url_texts(urls@)),
    {
        proof {
            lemma_request_renders(arbitrary());
        }
        let url_template = match Template::try_from(API_ALBUM_URL) {
            Ok(t) => t,
            Err(e) => {
                return Err(e);
            },
        };
        let ghost all = url_texts(urls@);
        let mut planned: Vec<Planned> = Vec::new();
        let mut k: usize = 0;
        proof {
            assert(planned_views(planned@) =~= planned_for(all).take(0));
        }
        while k < urls.len()
            invariant
                k <= urls.len(),
                planned.len() == k,
                all == url_texts(urls@),
                url_template@ == split_all(api_lexems()),
                planned_views(planned@) == planned_for(all).take(k as int),
            decreases urls.len() - k,
        {
            let ghost before = planned@;
            proof {
                if resource_of_url(all[k as int]) is Ok {
                    lemma_request_renders(resource_of_url(all[k as int])->Ok_0);
                }
            }
            match ImgurExtractor::request(&url_template, urls[k]) {
                Ok(one) => {
                    planned.push(one);
                    assert(planned_views(planned@) =~= planned_for(all).take(k + 1));
                },
                Err(e) => {
                    return Err(e);
                },
            }
            k += 1;
        }
        proof {
            assert(planned_for(all).take(urls.len() as int) =~= planned_for(all));
        }
        Ok(planned)
    }

    fn fetch_info(responses: Vec<Result<ImgurInfoData, CrateError>>) -> (r: (
        Vec<ImgurInfo>,
        Vec<CrateError>,
    ))
        ensures
            info_views(r.0@) == fetched(response_views(responses@)),
            rejections(r.1@) == failed(response_views(responses@)),
    {
        let ghost all = response_views(responses@);
        let mut extracted: Vec<ImgurInfo> = Vec::new();
        let mut errors: Vec<CrateError> = Vec::new();
        proof {
            assert(all.take(0) =~= Seq::empty());
            assert(info_views(extracted@) =~= Seq::empty());
            assert(rejections(errors@) =~= Seq::empty());
        }
        for response in it: responses
            invariant
                all == response_views(it.seq()),
                info_views(extracted@) == fetched(all.take(it.index() as int)),
                rejections(errors@) == failed(all.take(it.index() as int)),
                extracted.len() + errors.len() == it.index(),
        {
            let ghost infos = extracted@;
            let ghost errs = errors@;
            proof {
                let upto = all.take(it.index() + 1);
                assert(upto.drop_last() =~= all.take(it.index() as int));
                assert(upto.last() == response_view(response));
            }
            match response {
                Ok(data) => {
                    let info = ImgurExtractor::fetch_info_inner(data);
                    extracted.push(info);
                    assert(info_views(extracted@) =~= info_views(infos).push(info@));
                },
                Err(e) => {
                    errors.push(e);
                    assert(rejections(errors@) =~= rejections(errs).push(rejection_of(e)));
                },
            }
        }
        proof {
            assert(all.take(all.len() as int) =~= all);
        }
        (extracted, errors)
    }
}

/// The answer that two attempts to decode a body stand for: the
/// collection where the body has that shape, else the single image
/// where it has this one, else the failure of the second attempt.
pub open spec fn decode_spec(
    collection: Result<InfoView, Seq<char>>,
    single: Result<ImageView, Seq<char>>,
) -> Result<DataView, Rejection> {
    match collection {
        Ok(info) => Ok(DataView::Multiple(info)),
        Err(_) => match single {
            Ok(image) => Ok(DataView::Single(image)),
            Err(message) => Err((ErrorKind::Reqwest, message)),
        },
    }
}

impl ImgurExtractor {
    /// Tells the shape of an answer from two attempts to decode its
    /// body, one as a collection and one as a single image. The
    /// collection comes first; a body of neither shape is an error with
    /// the message of the second attempt.
    pub fn decode(
        collection: Result<ImgurInfo, String>,
        single: Result<ImgurInfoImage, String>,
    ) -> (r: Result<ImgurInfoData, CrateError>)
        ensures
            response_view(r) == decode_spec(
                match collection {
                    Ok(info) => Ok(info@),
                    Err(m) => Err(m@),
                },
                match single {
                    Ok(image) => Ok(image@),
                    Err(m) => Err(m@),
                },
            ),
    {
        match collection {
            Ok(info) => Ok(ImgurInfoData::Multiple(info)),
            Err(_) => match single {
                Ok(image) => Ok(ImgurInfoData::Single(image)),
                Err(message) => Err(CrateError::ReqwestError(message)),
            },
        }
    }
}

} // verus!
