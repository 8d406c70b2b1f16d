//! What all extractors share: their options, the items they hand out,
//! and the two traits that a site implements.

use vstd::prelude::*;

use crate::error::CrateError;
use crate::sites::Rejection;

verus! {

/// The text of the path that `std::path::Path::join` makes of the path
/// `base` and the path `path`, each given as text.
pub uninterp spec fn joined_path(base: Seq<char>, path: Seq<char>) -> Seq<char>;

/// `std::path::Path::join` on two paths given as text, with the joined
/// path given back as text. Joining works on the two texts alone: it
/// reads neither the file system nor the environment, and the rules by
/// which it goes are fixed when the library is built. So the result is a
/// function of the two texts and goes by the name [`joined_path`]; what
/// that path is for given texts is not claimed.
#[verifier::external_body]
pub(crate) fn join_paths(base: &str, path: &str) -> (r: String)
    ensures
        r@ == joined_path(base@, path@),
{
    std::path::Path::new(base).join(path).to_string_lossy().into_owned()
}

/// The options of a run.
#[derive(Debug)]
pub struct ExtractorOptions {
    /// Root folder for saving
    root_save_folder: String,
}

impl ExtractorOptions {
    /// The root folder for saving.
    pub closed spec fn root(&self) -> Seq<char> {
        self.root_save_folder@
    }

    pub fn new(save_folder: &str) -> (r: Self)
        ensures
            r.root() == save_folder@,
    {
        Self { root_save_folder: save_folder.to_owned() }
    }

    /// The root folder for saving.
    pub fn root_save_folder(&self) -> (r: &str)
        ensures
            r@ == self.root(),
    {
        self.root_save_folder.as_str()
    }

    /// Get `root_save_folder` with appended `filepath`: the two joined as
    /// paths are joined, root first.
    pub fn save_file_to(&self, filepath: &str) -> (r: String)
        ensures
            r@ == joined_path(self.root(), filepath@),
    {
        join_paths(self.root_save_folder.as_str(), filepath)
    }
}

/// One file to download: where it is, and where it goes, as a path
/// relative to the root folder.
#[derive(Debug)]
pub struct ExtractedItem {
    pub link: String,
    pub save_path: String,
}

/// What an item is, as the contracts see it.
pub struct ItemView {
    pub link: Seq<char>,
    pub save_path: Seq<char>,
}

impl View for ExtractedItem {
    type V = ItemView;

    open spec fn view(&self) -> ItemView {
        ItemView { link: self.link@, save_path: self.save_path@ }
    }
}

impl ExtractedItem {
    pub fn new(link: &str, save_path: String) -> (r: Self)
        ensures
            r@ == (ItemView { link: link@, save_path: save_path@ }),
    {
        let link = link.to_owned();
        Self { link, save_path }
    }
}

/// The items, each by its view.
pub open spec fn item_views(items: Seq<ExtractedItem>) -> Seq<ItemView> {
    Seq::new(items.len(), |i: int| items[i]@)
}

/// What one URL of a batch came to: the request to send for it, or the
/// error that takes the URL out of the batch.
pub type Planned = Result<String, CrateError>;

/// The metadata of one resource, from which its items can be listed.
pub trait ExtractedInfo: Sized {
    /// The items of the resource, in order, or the error that ends the
    /// listing.
    spec fn items_spec(&self) -> Result<Seq<ItemView>, Rejection>;

    /// Lists the items of the resource, in order.
    fn items(self) -> (r: Result<Vec<ExtractedItem>, CrateError>)
        ensures
            match self.items_spec() {
                Ok(views) => r matches Ok(v) && item_views(v@) == views,
                Err(rejection) => r matches Err(e) && (e.kind_spec(), e.detail()) == rejection,
            },
    ;
}

/// The extractor of one site.
///
/// An extractor neither sends nor receives: it says which request to
/// send for each URL, and makes metadata of what came back.
pub trait Extractor {
    /// What the site's API answers, decoded.
    type Response;

    /// The metadata of one resource.
    type Info: ExtractedInfo;

    /// The request to send for each of `urls`, in their order. A URL
    /// that names no resource of the site has its error in place of a
    /// request, and the batch goes on. An error for the whole batch
    /// comes only of the extractor's own patterns.
    fn requests(urls: &[&str], config: &ExtractorOptions) -> (r: Result<Vec<Planned>, CrateError>)
        ensures
            r matches Ok(v) ==> v.len() == urls.len(),
    ;

    /// The metadata of the resources whose request was answered, in
    /// their order, and the errors of the others, in theirs.
    fn fetch_info(responses: Vec<Result<Self::Response, CrateError>>) -> (r: (
        Vec<Self::Info>,
        Vec<CrateError>,
    ))
        ensures
            r.0.len() + r.1.len() == responses.len(),
    ;
}

} // verus!
