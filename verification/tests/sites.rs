use gallery_fetch::dispatch::{download, find_group, process_urls, SiteGroup};
use gallery_fetch::error::CrateError;
use gallery_fetch::extractor::common::ExtractorOptions;
use gallery_fetch::sites::{classify, detect_site, site_of_host, ExtractorSlug};

#[test]
fn slugs_as_text() {
    let all = [
        (ExtractorSlug::Artstation, "artstation"),
        (ExtractorSlug::Danbooru, "danbooru"),
        (ExtractorSlug::DeviantArt, "deviantart"),
        (ExtractorSlug::Imgur, "imgur"),
        (ExtractorSlug::Pixiv, "pixiv"),
        (ExtractorSlug::Reddit, "reddit"),
        (ExtractorSlug::Twitter, "twitter"),
        (ExtractorSlug::Wallhaven, "wallhaven"),
    ];
    for (slug, text) in all {
        assert_eq!(slug.as_str(), text);
        assert_eq!(slug.to_string(), text);
    }
}

#[test]
fn every_host_has_its_site() {
    let table = [
        ("danbooru.donmai.us", ExtractorSlug::Danbooru),
        ("imgur.com", ExtractorSlug::Imgur),
        ("mobile.twitter.com", ExtractorSlug::Twitter),
        ("nitter.net", ExtractorSlug::Twitter),
        ("redd.it", ExtractorSlug::Reddit),
        ("safebooru.donmai.us", ExtractorSlug::Danbooru),
        ("twitter.com", ExtractorSlug::Twitter),
        ("wallhaven.cc", ExtractorSlug::Wallhaven),
        ("whvn.cc", ExtractorSlug::Wallhaven),
        ("www.artstation.com", ExtractorSlug::Artstation),
        ("www.deviantart.com", ExtractorSlug::DeviantArt),
        ("www.pixiv.net", ExtractorSlug::Pixiv),
        ("www.reddit.com", ExtractorSlug::Reddit),
        ("zettai.moe", ExtractorSlug::Pixiv),
    ];
    for (host, slug) in table {
        assert_eq!(site_of_host(host), Some(slug));
        assert_eq!(detect_site(&format!("https://{host}/some/path")), Ok(slug));
    }
}

#[test]
fn hosts_match_exactly() {
    assert_eq!(site_of_host("www.imgur.com"), None);
    assert_eq!(site_of_host("imgur.com."), None);
    assert_eq!(site_of_host("IMGUR.COM"), None);
    assert_eq!(site_of_host(""), None);
}

#[test]
fn detect_site_reads_the_host_of_the_url() {
    assert_eq!(detect_site("https://imgur.com/a/X"), Ok(ExtractorSlug::Imgur));
    assert_eq!(detect_site("http://user@redd.it:80/z?q=1#f"), Ok(ExtractorSlug::Reddit));
    assert_eq!(detect_site("https://IMGUR.com/abc"), Ok(ExtractorSlug::Imgur));
}

#[test]
fn detect_site_unsupported_host() {
    let url = "https://unknownsite.example/y";
    assert_eq!(detect_site(url), Err(CrateError::UnsupportedURL(url.to_string())));
    let url = "https://imgur.com.evil.example/";
    assert_eq!(detect_site(url), Err(CrateError::UnsupportedURL(url.to_string())));
}

#[test]
fn detect_site_invalid_url() {
    for url in ["", "imgur.com/abc", "not a url", "https://"] {
        assert_eq!(detect_site(url), Err(CrateError::InvalidURL(url.to_string())));
    }
}

#[test]
fn detect_site_url_without_host() {
    let url = "data:text/plain,Stuff";
    assert_eq!(
        detect_site(url),
        Err(CrateError::Plain(format!("cannot parse host from url: {url}")))
    );
}

#[test]
fn classify_goes_by_what_parsing_gave() {
    assert_eq!(classify(Ok(Some("redd.it".to_string())), "u"), Ok(ExtractorSlug::Reddit));
    assert_eq!(
        classify(Ok(Some("example.org".to_string())), "u"),
        Err(CrateError::UnsupportedURL("u".to_string()))
    );
    assert_eq!(
        classify(Ok(None), "u"),
        Err(CrateError::Plain("cannot parse host from url: u".to_string()))
    );
    assert_eq!(
        classify(Err("empty host".to_string()), "u"),
        Err(CrateError::InvalidURL("u".to_string()))
    );
}

#[test]
fn dispatcher_grouping() {
    let urls = vec!["https://imgur.com/a/X", "https://unknownsite.example/y", "https://redd.it/z"];
    let dispatch = process_urls(&urls);
    assert_eq!(dispatch.groups.len(), 2);
    assert_eq!(dispatch.groups[0].slug, ExtractorSlug::Imgur);
    assert_eq!(dispatch.groups[0].urls, vec!["https://imgur.com/a/X"]);
    assert_eq!(dispatch.groups[1].slug, ExtractorSlug::Reddit);
    assert_eq!(dispatch.groups[1].urls, vec!["https://redd.it/z"]);
    assert_eq!(
        dispatch.rejected,
        vec![CrateError::UnsupportedURL("https://unknownsite.example/y".to_string())]
    );
}

#[test]
fn groups_keep_the_order_of_the_urls() {
    let urls = vec![
        "https://redd.it/1",
        "https://imgur.com/2",
        "nonsense",
        "https://www.reddit.com/3",
        "https://imgur.com/4",
        "https://example.org/5",
        "https://redd.it/1",
    ];
    let dispatch = process_urls(&urls);
    assert_eq!(dispatch.groups.len(), 2);
    assert_eq!(dispatch.groups[0].slug, ExtractorSlug::Reddit);
    assert_eq!(
        dispatch.groups[0].urls,
        vec!["https://redd.it/1", "https://www.reddit.com/3", "https://redd.it/1"]
    );
    assert_eq!(dispatch.groups[1].slug, ExtractorSlug::Imgur);
    assert_eq!(dispatch.groups[1].urls, vec!["https://imgur.com/2", "https://imgur.com/4"]);
    assert_eq!(
        dispatch.rejected,
        vec![
            CrateError::InvalidURL("nonsense".to_string()),
            CrateError::UnsupportedURL("https://example.org/5".to_string()),
        ]
    );
}

#[test]
fn no_urls_no_groups() {
    let dispatch = process_urls(&vec![]);
    assert!(dispatch.groups.is_empty());
    assert!(dispatch.rejected.is_empty());
}

#[test]
fn find_group_by_slug() {
    let groups = vec![
        SiteGroup { slug: ExtractorSlug::Reddit, urls: vec![] },
        SiteGroup { slug: ExtractorSlug::Imgur, urls: vec![] },
    ];
    assert_eq!(find_group(&groups, ExtractorSlug::Imgur), Some(1));
    assert_eq!(find_group(&groups, ExtractorSlug::Reddit), Some(0));
    assert_eq!(find_group(&groups, ExtractorSlug::Pixiv), None);
}

#[test]
fn download_goes_to_the_extractor_of_the_site() {
    let config = ExtractorOptions::new("test");
    let group = SiteGroup {
        slug: ExtractorSlug::Imgur,
        urls: vec!["https://imgur.com/a/X".to_string(), "https://imgur.com/a".to_string()],
    };
    assert_eq!(
        download(&group, &config),
        Some(Ok(vec![
            Ok("https://api.imgur.com/3/album/X".to_string()),
            Err(CrateError::InvalidURL("https://imgur.com/a".to_string())),
        ]))
    );
}

#[test]
fn download_passes_over_sites_without_extractor() {
    let config = ExtractorOptions::new("test");
    for slug in [
        ExtractorSlug::Artstation,
        ExtractorSlug::Danbooru,
        ExtractorSlug::DeviantArt,
        ExtractorSlug::Pixiv,
        ExtractorSlug::Reddit,
        ExtractorSlug::Twitter,
        ExtractorSlug::Wallhaven,
    ] {
        let group = SiteGroup { slug, urls: vec!["https://redd.it/z".to_string()] };
        assert_eq!(download(&group, &config), None);
    }
}
