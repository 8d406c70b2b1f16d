//! The metadata of an imgur resource, and the items that it lists.

use vstd::prelude::*;
use vstd::string::StringExecFns;

use crate::cleaner::{
    collapse, collapse_separator, contains, law_collapse_leaves_none_doubled,
};
use crate::error::{CrateError, ErrorKind};
use crate::extractor::common::{item_views, ExtractedInfo, ExtractedItem, ItemView};
use crate::extractor::imgur::{
    extension, extension_of, SAVE_ALBUM_PATTERN, SAVE_SINGLE_FILE_PATTERN, SEPARATOR, SLUG,
};
use crate::sites::{rejection_of, Rejection};
use crate::extractor::imgur::patterns::{file_name, lemma_file_name_renders, save_lexems};
use crate::template::grammar::{split_all, LexemView};
use crate::template::render::{
    lemma_substitutions_push, render_spec, substitutions_of, Substitutions,
};
use crate::template::Template;

verus! {

/// One image, as the API describes it.
#[derive(Debug)]
pub struct ImgurInfoImage {
    pub id: String,
    pub link: String,
    pub content_type: String,
    pub title: Option<String>,
}

/// What an image is, as the contracts see it.
pub struct ImageView {
    pub id: Seq<char>,
    pub link: Seq<char>,
    pub content_type: Seq<char>,
    pub title: Option<Seq<char>>,
}

/// A text that may be absent, by its view.
pub open spec fn option_text(o: Option<String>) -> Option<Seq<char>> {
    match o {
        Some(s) => Some(s@),
        None => None,
    }
}

impl View for ImgurInfoImage {
    type V = ImageView;

    open spec fn view(&self) -> ImageView {
        ImageView {
            id: self.id@,
            link: self.link@,
            content_type: self.content_type@,
            title: option_text(self.title),
        }
    }
}

/// The images, each by its view.
pub open spec fn image_views(images: Seq<ImgurInfoImage>) -> Seq<ImageView> {
    Seq::new(images.len(), |i: int| images[i]@)
}

/// The metadata of one resource: a collection and its images. An image
/// on its own is a collection of one.
#[derive(Debug)]
pub struct ImgurInfo {
    pub id: String,
    pub title: Option<String>,
    pub images: Vec<ImgurInfoImage>,
}

/// What the metadata is, as the contracts see it.
pub struct InfoView {
    pub id: Seq<char>,
    pub title: Option<Seq<char>>,
    pub images: Seq<ImageView>,
}

impl View for ImgurInfo {
    type V = InfoView;

    open spec fn view(&self) -> InfoView {
        InfoView { id: self.id@, title: option_text(self.title), images: image_views(self.images@) }
    }
}

/// What the API answers: a collection, or a single image.
#[derive(Debug)]
pub enum ImgurInfoData {
    Multiple(ImgurInfo),
    Single(ImgurInfoImage),
}

/// What an answer is, as the contracts see it.
pub enum DataView {
    Multiple(InfoView),
    Single(ImageView),
}

impl View for ImgurInfoData {
    type V = DataView;

    open spec fn view(&self) -> DataView {
        match self {
            ImgurInfoData::Multiple(info) => DataView::Multiple(info@),
            ImgurInfoData::Single(image) => DataView::Single(image@),
        }
    }
}

/// A single image as a collection: it has the image's identifier and
/// title, and holds the image alone.
pub open spec fn lift(image: ImageView) -> InfoView {
    InfoView { id: image.id, title: image.title, images: seq![image] }
}

/// The metadata that an answer stands for, whatever its shape.
pub open spec fn normalize(data: DataView) -> InfoView {
    match data {
        DataView::Multiple(info) => info,
        DataView::Single(image) => lift(image),
    }
}

/// The pattern of the paths of a resource: an image that is alone has
/// the pattern of a single file, the others that of an album.
pub open spec fn pattern_for(info: InfoView) -> Seq<char> {
    if info.images.len() == 1 {
        SAVE_SINGLE_FILE_PATTERN@
    } else {
        SAVE_ALBUM_PATTERN@
    }
}

/// A title, or the empty text where there is none.
pub open spec fn title_text(title: Option<Seq<char>>) -> Seq<char> {
    match title {
        Some(t) => t,
        None => ""@,
    }
}

/// The values that the patterns of a path are rendered against.
pub open spec fn item_substitutions(info: InfoView, image: ImageView) -> Substitutions {
    Map::<Seq<char>, Seq<char>>::empty().insert("album_title"@, title_text(info.title)).insert(
        "album_id"@,
        info.id,
    ).insert("image_title"@, title_text(image.title)).insert("image_id"@, image.id).insert(
        "sep"@,
        SEPARATOR@,
    ).insert("ext"@, extension(image.content_type))
}

/// The path of a rendered file name: it lies in the folder of the site,
/// and holds no doubled separator.
pub open spec fn save_path_of(rendered: Seq<char>) -> Seq<char> {
    collapse(SLUG.text() + seq!['/'] + rendered, SEPARATOR@)
}

/// The item of the image of index `i`, with the template `ls` for its
/// path.
pub open spec fn item_spec(ls: Seq<LexemView>, info: InfoView, i: int) -> Result<
    ItemView,
    Rejection,
> {
    let image = info.images[i];
    match render_spec(ls, item_substitutions(info, image)) {
        Ok(rendered) => Ok(ItemView { link: image.link, save_path: save_path_of(rendered) }),
        Err(name) => Err((ErrorKind::MissingTemplateKey, name)),
    }
}

/// The item of the image of index `i`: the link of the image, and the
/// name of its file as a path.
pub open spec fn item_of(info: InfoView, i: int) -> ItemView {
    ItemView {
        link: info.images[i].link,
        save_path: save_path_of(file_name(info, info.images[i])),
    }
}

/// The items of a resource: one for each image, in order.
pub open spec fn items_of(info: InfoView) -> Seq<ItemView> {
    Seq::new(info.images.len(), |i: int| item_of(info, i))
}

/// A copy of a text that may be absent.
fn copy_title(title: &Option<String>) -> (r: Option<String>)
    ensures
        option_text(r) == option_text(*title),
{
    match title {
        Some(t) => Some(t.clone()),
        None => None,
    }
}

/// A title as text: the empty text where there is none.
fn title_of(title: &Option<String>) -> (r: &str)
    ensures
        r@ == title_text(option_text(*title)),
{
    match title {
        Some(t) => t.as_str(),
        None => "",
    }
}

impl ImgurInfo {
    /// Put single image to array, because it the same model
    pub fn from(value: ImgurInfoImage) -> (r: Self)
        ensures
            r@ == lift(value@),
    {
        let id = value.id.clone();
        let title = copy_title(&value.title);
        let mut images: Vec<ImgurInfoImage> = Vec::new();
        images.push(value);
        assert(image_views(images@) =~= seq![value@]);
        Self { id, title, images }
    }

    /// Starts the listing of the items, with the pattern that the number
    /// of images asks for.
    pub fn into_iter(self) -> (r: Result<ImgurInfoIter, CrateError>)
        ensures
            r matches Ok(it) && it.data == self && it.template@ == split_all(save_lexems(self@))
                && it.at == 0,
    {
        proof {
            lemma_file_name_renders(self@, arbitrary());
        }
        let pattern = if self.images.len() == 1 {
            SAVE_SINGLE_FILE_PATTERN
        } else {
            SAVE_ALBUM_PATTERN
        };
        match Template::try_from(pattern) {
            Ok(template) => Ok(ImgurInfoIter { data: self, template, at: 0 }),
            Err(e) => Err(e),
        }
    }
}

/// The listing of the items of a resource: the metadata, the template
/// of the paths, and the index of the next image.
#[derive(Debug)]
pub struct ImgurInfoIter {
    pub data: ImgurInfo,
    pub template: Template,
    pub at: usize,
}

impl ImgurInfoIter {
    /// The item of the next image, or `None` when all were listed.
    ///
    /// The path of the item is the template rendered against the titles,
    /// the identifiers and the extension of the image, put in the folder
    /// of the site, with doubled separators collapsed.
    pub fn next(&mut self) -> (r: Option<Result<ExtractedItem, CrateError>>)
        ensures
            final(self).data == old(self).data,
            final(self).template == old(self).template,
            old(self).at >= old(self).data.images.len() ==> r.is_none() && final(self).at == old(
                self,
            ).at,
            old(self).at < old(self).data.images.len() ==> final(self).at == old(self).at + 1 && (
            match item_spec(old(self).template@, old(self).data@, old(self).at as int) {
                Ok(view) => r matches Some(Ok(item)) && item@ == view,
                Err(rejection) => r matches Some(Err(e)) && rejection_of(e) == rejection,
            }),
    {
        if self.at >= self.data.images.len() {
            return None;
        }
        let image = &self.data.images[self.at];
        assert(image@ == self.data@.images[self.at as int]);
        let ext = extension_of(image.content_type.as_str());
        let album_title = title_of(&self.data.title);
        let image_title = title_of(&image.title);
        let album_id = self.data.id.as_str();
        let image_id = image.id.as_str();
        let ext_text = ext.as_str();
        let mut sub: Vec<(&str, &str)> = Vec::new();
        assert(sub@ =~= Seq::empty());
        proof {
            lemma_substitutions_push(sub@, "album_title", album_title);
        }
        sub.push(("album_title", album_title));
        proof {
            lemma_substitutions_push(sub@, "album_id", album_id);
        }
        sub.push(("album_id", album_id));
        proof {
            lemma_substitutions_push(sub@, "image_title", image_title);
        }
        sub.push(("image_title", image_title));
        proof {
            lemma_substitutions_push(sub@, "image_id", image_id);
        }
        sub.push(("image_id", image_id));
        proof {
            lemma_substitutions_push(sub@, "sep", SEPARATOR);
        }
        sub.push(("sep", SEPARATOR));
        proof {
            lemma_substitutions_push(sub@, "ext", ext_text);
        }
        sub.push(("ext", ext_text));
        assert(substitutions_of(sub@) == item_substitutions(self.data@, image@));
        let r = match self.template.render(sub.as_slice()) {
            Ok(f) => {
                let path = SLUG.to_string().concat("/").concat(f.as_str());
                proof {
                    reveal_strlit("/");
                    assert("/"@ =~= seq!['/']);
                }
                let f = collapse_separator(path.as_str(), SEPARATOR);
                Some(Ok(ExtractedItem::new(image.link.as_str(), f)))
            },
            Err(e) => Some(Err(e)),
        };
        self.at += 1;
        r
    }
}

impl ExtractedInfo for ImgurInfo {
    open spec fn items_spec(&self) -> Result<Seq<ItemView>, Rejection> {
        Ok(items_of(self@))
    }

    fn items(self) -> (r: Result<Vec<ExtractedItem>, CrateError>) {
        let ghost info = self@;
        let mut it = match self.into_iter() {
            Ok(it) => it,
            Err(e) => {
                return Err(e);
            },
        };
        let mut out: Vec<ExtractedItem> = Vec::new();
        assert(item_views(out@) =~= items_of(info).take(0));
        loop
            invariant
                info == self@,
                it.data@ == info,
                it.template@ == split_all(save_lexems(info)),
                it.at <= it.data.images.len(),
                item_views(out@) == items_of(info).take(it.at as int),
            decreases it.data.images.len() - it.at,
        {
            let ghost before = out@;
            let ghost at = it.at as int;
            proof {
                if at < info.images.len() {
                    lemma_file_name_renders(info, info.images[at]);
                }
            }
            match it.next() {
                None => {
                    assert(items_of(info).take(at) =~= items_of(info));
                    return Ok(out);
                },
                Some(Ok(item)) => {
                    assert(item@ == item_of(info, at));
                    out.push(item);
                    assert(item_views(out@) =~= item_views(before).push(item@));
                    assert(items_of(info).take(at + 1) =~= items_of(info).take(at).push(
                        item_of(info, at),
                    ));
                },
                Some(Err(e)) => {
                    return Err(e);
                },
            }
        }
    }
}

/// The path of an item holds no doubled separator, whatever the titles
/// and the identifiers are, and also where a title is empty.
pub proof fn law_item_path_has_no_doubled_separator(
    ls: Seq<LexemView>,
    info: InfoView,
    i: int,
)
    requires
        0 <= i < info.images.len(),
    ensures
        !contains(item_of(info, i).save_path, SEPARATOR@ + SEPARATOR@),
        item_spec(ls, info, i) matches Ok(item) ==> !contains(
            item.save_path,
            SEPARATOR@ + SEPARATOR@,
        ),
{
    reveal_strlit(" - ");
    law_collapse_leaves_none_doubled(
        SLUG.text() + seq!['/'] + file_name(info, info.images[i]),
        SEPARATOR@,
    );
    match render_spec(ls, item_substitutions(info, info.images[i])) {
        Ok(rendered) => {
            law_collapse_leaves_none_doubled(SLUG.text() + seq!['/'] + rendered, SEPARATOR@);
        },
        Err(_) => {},
    }
}

/// An answer that is a single image and one that is a collection of one
/// image both give metadata with exactly one image, and both have their
/// paths rendered with the pattern of a single file.
pub proof fn law_single_and_collection_of_one(single: ImageView, collection: InfoView)
    requires
        collection.images.len() == 1,
    ensures
        normalize(DataView::Single(single)).images == seq![single],
        normalize(DataView::Single(single)).images.len() == 1,
        normalize(DataView::Multiple(collection)).images.len() == 1,
        pattern_for(normalize(DataView::Single(single))) == SAVE_SINGLE_FILE_PATTERN@,
        pattern_for(normalize(DataView::Multiple(collection))) == SAVE_SINGLE_FILE_PATTERN@,
        collection.images == seq![single] && collection.id == single.id && collection.title
            == single.title ==> items_of(normalize(DataView::Multiple(collection))) == items_of(
            normalize(DataView::Single(single)),
        ),
{
    if collection.images == seq![single] && collection.id == single.id && collection.title
        == single.title {
        assert(collection == lift(single));
    }
}

} // verus!
