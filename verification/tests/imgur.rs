use gallery_fetch::error::CrateError;
use gallery_fetch::extractor::common::{
    ExtractedInfo, ExtractedItem, Extractor, ExtractorOptions,
};
use gallery_fetch::extractor::imgur::info::{ImgurInfo, ImgurInfoData, ImgurInfoImage};
use gallery_fetch::extractor::imgur::{
    extension_of, ImgurExtractor, LinkType, Parsed, API_ALBUM_URL, SAVE_ALBUM_PATTERN,
    SAVE_SINGLE_FILE_PATTERN,
};
use gallery_fetch::template::Template;

fn image(id: &str, title: Option<&str>, content_type: &str) -> ImgurInfoImage {
    ImgurInfoImage {
        id: id.to_string(),
        link: format!("https://i.imgur.com/{id}.bin"),
        content_type: content_type.to_string(),
        title: title.map(str::to_string),
    }
}

fn parsed(url: &str) -> Result<(String, LinkType), CrateError> {
    Parsed::try_from(url).map(|p| (p.id, p.link_type))
}

fn pairs(items: Vec<ExtractedItem>) -> Vec<(String, String)> {
    items.into_iter().map(|i| (i.link, i.save_path)).collect()
}

#[test]
fn link_types_as_text() {
    assert_eq!(LinkType::Album.as_str(), "album");
    assert_eq!(LinkType::Image.to_string(), "image");
}

#[test]
fn parsed_new_keeps_its_parts() {
    let p = Parsed::new("abc", LinkType::Album);
    assert_eq!(p.id, "abc");
    assert_eq!(p.link_type, LinkType::Album);
}

#[test]
fn image_link() {
    assert_eq!(parsed("https://imgur.com/abc"), Ok(("abc".to_string(), LinkType::Image)));
    assert_eq!(parsed("https://imgur.com/abc?x=1#y"), Ok(("abc".to_string(), LinkType::Image)));
}

#[test]
fn album_links() {
    assert_eq!(parsed("https://imgur.com/a/X"), Ok(("X".to_string(), LinkType::Album)));
    assert_eq!(parsed("https://imgur.com/gallery/Y"), Ok(("Y".to_string(), LinkType::Album)));
    assert_eq!(parsed("https://imgur.com/t/funny/Z"), Ok(("Z".to_string(), LinkType::Album)));
}

#[test]
fn links_that_stop_before_the_identifier() {
    for url in [
        "https://imgur.com",
        "https://imgur.com/",
        "https://imgur.com/a",
        "https://imgur.com/gallery",
        "https://imgur.com/t",
        "https://imgur.com/t/funny",
        "https://imgur.com/a/",
        "https://imgur.com/gallery/",
        "https://imgur.com/t/funny/",
        "https://imgur.com/t/",
    ] {
        assert_eq!(parsed(url), Err(CrateError::InvalidURL(url.to_string())));
    }
}

#[test]
fn links_of_another_shape() {
    for url in [
        "https://imgur.com/user/someone",
        "https://imgur.com/abc/",
        "https://imgur.com/a/X/Y",
        "https://imgur.com/t/funny/Z/more",
        "https://imgur.com/x/y/z",
    ] {
        assert_eq!(parsed(url), Err(CrateError::UnsupportedURL(url.to_string())));
    }
}

#[test]
fn links_that_are_no_urls() {
    assert_eq!(
        parsed("imgur.com/abc"),
        Err(CrateError::InvalidURL("relative URL without a base".to_string()))
    );
    assert_eq!(parsed("https://"), Err(CrateError::InvalidURL("empty host".to_string())));
}

#[test]
fn links_without_path_segments() {
    let url = "data:text/plain,Stuff";
    assert_eq!(
        parsed(url),
        Err(CrateError::Plain(format!("cannot get path segments from {url}")))
    );
}

#[test]
fn from_segments_goes_by_the_segments() {
    let segments = vec!["a".to_string(), "X".to_string()];
    let p = Parsed::from_segments(&segments, "u").unwrap();
    assert_eq!((p.id.as_str(), p.link_type), ("X", LinkType::Album));
    assert_eq!(
        Parsed::from_segments(&vec![], "u").unwrap_err(),
        CrateError::UnsupportedURL("u".to_string())
    );
    assert_eq!(
        Parsed::from_parsed(Err("empty host".to_string()), "u").unwrap_err(),
        CrateError::InvalidURL("empty host".to_string())
    );
    assert_eq!(
        Parsed::from_parsed(Ok(None), "u").unwrap_err(),
        CrateError::Plain("cannot get path segments from u".to_string())
    );
}

#[test]
fn extension_follows_the_last_slash() {
    assert_eq!(extension_of("image/png"), "png");
    assert_eq!(extension_of("a/b/jpeg"), "jpeg");
    assert_eq!(extension_of("gif"), "gif");
    assert_eq!(extension_of("image/"), "");
    assert_eq!(extension_of(""), "");
}

#[test]
fn patterns_compile() {
    for pattern in [API_ALBUM_URL, SAVE_SINGLE_FILE_PATTERN, SAVE_ALBUM_PATTERN] {
        assert!(Template::try_from(pattern).is_ok());
    }
}

#[test]
fn request_for_one_url() {
    let template = Template::try_from(API_ALBUM_URL).unwrap();
    assert_eq!(
        ImgurExtractor::request(&template, "https://imgur.com/gallery/G"),
        Ok(Ok("https://api.imgur.com/3/album/G".to_string()))
    );
    assert_eq!(
        ImgurExtractor::request(&template, "https://imgur.com/t"),
        Ok(Err(CrateError::InvalidURL("https://imgur.com/t".to_string())))
    );
    let other = Template::try_from("{type}/{id}/{page}").unwrap();
    assert_eq!(
        ImgurExtractor::request(&other, "https://imgur.com/abc"),
        Err(CrateError::MissingTemplateKey("page".to_string()))
    );
}

#[test]
fn requests_for_a_batch() {
    let config = ExtractorOptions::new("test");
    let urls = ["https://imgur.com/a/X", "https://imgur.com/x/y", "nonsense", "https://imgur.com/abc"];
    assert_eq!(
        ImgurExtractor::requests(&urls, &config),
        Ok(vec![
            Ok("https://api.imgur.com/3/album/X".to_string()),
            Err(CrateError::UnsupportedURL("https://imgur.com/x/y".to_string())),
            Err(CrateError::InvalidURL("relative URL without a base".to_string())),
            Ok("https://api.imgur.com/3/image/abc".to_string()),
        ])
    );
    assert_eq!(ImgurExtractor::requests(&[], &config), Ok(vec![]));
}

#[test]
fn single_image_is_a_collection_of_one() {
    let info = ImgurInfo::from(image("I", Some("T"), "image/png"));
    assert_eq!(info.id, "I");
    assert_eq!(info.title.as_deref(), Some("T"));
    assert_eq!(info.images.len(), 1);
    assert_eq!(info.images[0].id, "I");
    assert_eq!(info.images[0].link, "https://i.imgur.com/I.bin");
    assert_eq!(info.images[0].content_type, "image/png");
    assert_eq!(info.images[0].title.as_deref(), Some("T"));
}

#[test]
fn single_and_collection_normalize_alike() {
    let single = ImgurExtractor::fetch_info_inner(ImgurInfoData::Single(image(
        "I",
        Some("T"),
        "image/png",
    )));
    let collection = ImgurExtractor::fetch_info_inner(ImgurInfoData::Multiple(ImgurInfo {
        id: "I".to_string(),
        title: Some("T".to_string()),
        images: vec![image("I", Some("T"), "image/png")],
    }));
    assert_eq!(single.images.len(), 1);
    assert_eq!(collection.images.len(), 1);
    let from_single = pairs(single.items().unwrap());
    let from_collection = pairs(collection.items().unwrap());
    assert_eq!(from_single, from_collection);
    assert_eq!(
        from_single,
        vec![("https://i.imgur.com/I.bin".to_string(), "imgur/T - I - T - I.png".to_string())]
    );
}

#[test]
fn collection_of_one_has_the_single_file_pattern() {
    let info = ImgurInfo {
        id: "A".to_string(),
        title: Some("Album".to_string()),
        images: vec![image("I", Some("One"), "image/jpeg")],
    };
    assert_eq!(
        pairs(info.items().unwrap()),
        vec![(
            "https://i.imgur.com/I.bin".to_string(),
            "imgur/Album - A - One - I.jpeg".to_string()
        )]
    );
}

#[test]
fn album_items_lie_in_the_folder_of_the_album() {
    let info = ImgurInfo {
        id: "A".to_string(),
        title: Some("Album".to_string()),
        images: vec![image("i1", Some("One"), "image/jpeg"), image("i2", None, "video/mp4")],
    };
    assert_eq!(
        pairs(info.items().unwrap()),
        vec![
            (
                "https://i.imgur.com/i1.bin".to_string(),
                "imgur/Album - A/One - i1.jpeg".to_string()
            ),
            ("https://i.imgur.com/i2.bin".to_string(), "imgur/Album - A/ - i2.mp4".to_string()),
        ]
    );
}

#[test]
fn album_without_images_has_no_items() {
    let info = ImgurInfo { id: "A".to_string(), title: None, images: vec![] };
    assert!(info.items().unwrap().is_empty());
}

#[test]
fn separator_collapse() {
    let info = ImgurInfo {
        id: "A".to_string(),
        title: Some("Album".to_string()),
        images: vec![image("I", None, "image/png")],
    };
    let items = info.items().unwrap();
    assert_eq!(items[0].save_path, "imgur/Album - A - I.png");
    let info = ImgurInfo {
        id: "A".to_string(),
        title: None,
        images: vec![image("i1", None, "image/png"), image("i2", Some(""), "image/png")],
    };
    for item in info.items().unwrap() {
        assert!(!item.save_path.contains(" -  - "));
    }
    let info = ImgurInfo {
        id: " -  - ".to_string(),
        title: Some(" - ".to_string()),
        images: vec![image(" - ", None, "image/png"), image("", Some(" -  -  - "), "")],
    };
    for item in info.items().unwrap() {
        assert!(!item.save_path.contains(" -  - "));
    }
}

#[test]
fn listing_goes_image_by_image() {
    let info = ImgurInfo {
        id: "A".to_string(),
        title: None,
        images: vec![image("i1", None, "image/png"), image("i2", None, "image/gif")],
    };
    let mut it = info.into_iter().unwrap();
    assert_eq!(it.at, 0);
    assert_eq!(it.next().unwrap().unwrap().save_path, "imgur/ - A/ - i1.png");
    assert_eq!(it.at, 1);
    assert_eq!(it.next().unwrap().unwrap().save_path, "imgur/ - A/ - i2.gif");
    assert_eq!(it.at, 2);
    assert!(it.next().is_none());
    assert!(it.next().is_none());
    assert_eq!(it.at, 2);
}

#[test]
fn listing_with_a_template_that_needs_more() {
    let info = ImgurInfo { id: "A".to_string(), title: None, images: vec![] };
    let mut it = info.into_iter().unwrap();
    it.data.images.push(image("i1", None, "image/png"));
    it.template = Template::try_from("{image_id}.{size}").unwrap();
    assert_eq!(
        it.next().unwrap().unwrap_err(),
        CrateError::MissingTemplateKey("size".to_string())
    );
    assert_eq!(it.at, 1);
}

#[test]
fn fetch_info_keeps_answers_and_sets_errors_aside() {
    let responses = vec![
        Ok(ImgurInfoData::Single(image("I", None, "image/png"))),
        Err(CrateError::ReqwestError("timed out".to_string())),
        Ok(ImgurInfoData::Multiple(ImgurInfo {
            id: "A".to_string(),
            title: None,
            images: vec![image("i1", None, "image/png"), image("i2", None, "image/png")],
        })),
        Err(CrateError::ReqwestError("404".to_string())),
    ];
    let (infos, errors) = ImgurExtractor::fetch_info(responses);
    assert_eq!(infos.len(), 2);
    assert_eq!((infos[0].id.as_str(), infos[0].images.len()), ("I", 1));
    assert_eq!((infos[1].id.as_str(), infos[1].images.len()), ("A", 2));
    assert_eq!(
        errors,
        vec![
            CrateError::ReqwestError("timed out".to_string()),
            CrateError::ReqwestError("404".to_string()),
        ]
    );
}

fn shape(data: Result<ImgurInfoData, CrateError>) -> Result<(bool, String), CrateError> {
    data.map(|d| match d {
        ImgurInfoData::Multiple(info) => (true, info.id),
        ImgurInfoData::Single(image) => (false, image.id),
    })
}

#[test]
fn decode_tries_the_collection_first() {
    let album = ImgurInfo { id: "A".to_string(), title: None, images: vec![] };
    assert_eq!(
        shape(ImgurExtractor::decode(Ok(album), Ok(image("I", None, "image/png")))),
        Ok((true, "A".to_string()))
    );
    assert_eq!(
        shape(ImgurExtractor::decode(
            Err("missing field `images`".to_string()),
            Ok(image("I", None, "image/png"))
        )),
        Ok((false, "I".to_string()))
    );
    assert_eq!(
        shape(ImgurExtractor::decode(
            Err("missing field `images`".to_string()),
            Err("missing field `link`".to_string())
        )),
        Err(CrateError::ReqwestError("missing field `link`".to_string()))
    );
}

#[test]
fn items_never_fail() {
    let info = ImgurInfo {
        id: "{album_id}".to_string(),
        title: Some("a/b".to_string()),
        images: vec![image("{x}", Some("/"), "image/x/y"), image("", None, "")],
    };
    assert_eq!(
        pairs(info.items().unwrap()),
        vec![
            (
                "https://i.imgur.com/{x}.bin".to_string(),
                "imgur/a/b - {album_id}// - {x}.y".to_string()
            ),
            ("https://i.imgur.com/.bin".to_string(), "imgur/a/b - {album_id}/ - .".to_string()),
        ]
    );
}
