//! The patterns of this extractor, lexem by lexem: each of them
//! compiles, and each is rendered against values for all its names.

use vstd::prelude::*;

use crate::extractor::imgur::info::{
    item_substitutions, pattern_for, title_text, ImageView, InfoView,
};
use crate::extractor::imgur::{
    extension, request_substitutions, ParsedView, API_ALBUM_URL, SAVE_ALBUM_PATTERN,
    SAVE_SINGLE_FILE_PATTERN, SEPARATOR,
};
use crate::template::grammar::{compile_spec, source, split_all, LexemView};
use crate::template::laws::{
    all_lexed, is_lexed, law_spelled_pattern_renders, lemma_all_lexed_push, lemma_covered_push,
    lemma_expand_push, lemma_source_push, names_covered,
};
use crate::template::render::{expand, render_spec};

verus! {

/// The lexems of the pattern of a request.
pub open spec fn api_lexems() -> Seq<LexemView> {
    Seq::<LexemView>::empty().push(LexemView::Plain("https://api.imgur.com/3/"@)).push(
        LexemView::Sub("type"@),
    ).push(LexemView::Plain("/"@)).push(LexemView::Sub("id"@))
}

/// The lexems that the two patterns of a path start with.
pub open spec fn album_part() -> Seq<LexemView> {
    Seq::<LexemView>::empty().push(LexemView::Sub("album_title"@)).push(
        LexemView::Sub("sep"@),
    ).push(LexemView::Sub("album_id"@))
}

/// The lexems that the two patterns of a path end with.
pub open spec fn with_image_part(front: Seq<LexemView>) -> Seq<LexemView> {
    front.push(LexemView::Sub("image_title"@)).push(LexemView::Sub("sep"@)).push(
        LexemView::Sub("image_id"@),
    ).push(LexemView::Plain("."@)).push(LexemView::Sub("ext"@))
}

/// The lexems of the pattern of a single file.
pub open spec fn single_lexems() -> Seq<LexemView> {
    with_image_part(album_part().push(LexemView::Sub("sep"@)))
}

/// The lexems of the pattern of a file of an album.
pub open spec fn album_lexems() -> Seq<LexemView> {
    with_image_part(album_part().push(LexemView::Plain("/"@)))
}

/// The names of the patterns are names.
#[verifier::rlimit(50)]
pub proof fn lemma_names_are_lexed()
    ensures
        is_lexed(LexemView::Sub("type"@)),
        is_lexed(LexemView::Sub("id"@)),
        is_lexed(LexemView::Sub("album_title"@)),
        is_lexed(LexemView::Sub("album_id"@)),
        is_lexed(LexemView::Sub("image_title"@)),
        is_lexed(LexemView::Sub("image_id"@)),
        is_lexed(LexemView::Sub("sep"@)),
        is_lexed(LexemView::Sub("ext"@)),
{
    reveal_strlit("type");
    reveal_strlit("id");
    reveal_strlit("album_title");
    reveal_strlit("album_id");
    reveal_strlit("image_title");
    reveal_strlit("image_id");
    reveal_strlit("sep");
    reveal_strlit("ext");
}

/// The literals of the patterns are literals.
#[verifier::rlimit(50)]
pub proof fn lemma_literals_are_lexed()
    ensures
        is_lexed(LexemView::Plain("https://api.imgur.com/3/"@)),
        is_lexed(LexemView::Plain("/"@)),
        is_lexed(LexemView::Plain("."@)),
{
    reveal_strlit("https://api.imgur.com/3/");
    reveal_strlit("/");
    reveal_strlit(".");
}

/// A name between braces, as a pattern spells a placeholder.
pub open spec fn braced(name: Seq<char>) -> Seq<char> {
    seq!['{'] + name + seq!['}']
}

/// The pattern of a request, part by part.
#[verifier::rlimit(50)]
proof fn lemma_api_text()
    ensures
        "https://api.imgur.com/3/"@ + braced("type"@) + "/"@ + braced("id"@) == API_ALBUM_URL@,
{
    reveal_strlit("https://api.imgur.com/3/");
    reveal_strlit("type");
    reveal_strlit("/");
    reveal_strlit("id");
    reveal_strlit("https://api.imgur.com/3/{type}/{id}");
    assert("https://api.imgur.com/3/"@ + braced("type"@) + "/"@ + braced("id"@)
        =~= API_ALBUM_URL@);
}

/// The start of the patterns of a path, part by part.
#[verifier::rlimit(50)]
proof fn lemma_album_text()
    ensures
        braced("album_title"@) + braced("sep"@) + braced("album_id"@)
            == "{album_title}{sep}{album_id}"@,
{
    reveal_strlit("album_title");
    reveal_strlit("sep");
    reveal_strlit("album_id");
    reveal_strlit("{album_title}{sep}{album_id}");
    assert(braced("album_title"@) + braced("sep"@) + braced("album_id"@)
        =~= "{album_title}{sep}{album_id}"@);
}

/// The end of the patterns of a path, part by part.
#[verifier::rlimit(50)]
proof fn lemma_image_text()
    ensures
        braced("image_title"@) + braced("sep"@) + braced("image_id"@) + "."@ + braced("ext"@)
            == "{image_title}{sep}{image_id}.{ext}"@,
{
    reveal_strlit("image_title");
    reveal_strlit("sep");
    reveal_strlit("image_id");
    reveal_strlit(".");
    reveal_strlit("ext");
    reveal_strlit("{image_title}{sep}{image_id}.{ext}");
    assert(braced("image_title"@) + braced("sep"@) + braced("image_id"@) + "."@ + braced(
        "ext"@,
    ) =~= "{image_title}{sep}{image_id}.{ext}"@);
}

/// The pattern of a single file, part by part.
#[verifier::rlimit(50)]
proof fn lemma_single_text()
    ensures
        "{album_title}{sep}{album_id}"@ + braced("sep"@) + "{image_title}{sep}{image_id}.{ext}"@
            == SAVE_SINGLE_FILE_PATTERN@,
{
    reveal_strlit("sep");
    reveal_strlit("{album_title}{sep}{album_id}");
    reveal_strlit("{image_title}{sep}{image_id}.{ext}");
    reveal_strlit("{album_title}{sep}{album_id}{sep}{image_title}{sep}{image_id}.{ext}");
    assert("{album_title}{sep}{album_id}"@ + braced("sep"@)
        + "{image_title}{sep}{image_id}.{ext}"@ =~= SAVE_SINGLE_FILE_PATTERN@);
}

/// The pattern of a file of an album, part by part.
#[verifier::rlimit(50)]
proof fn lemma_album_pattern_text()
    ensures
        "{album_title}{sep}{album_id}"@ + "/"@ + "{image_title}{sep}{image_id}.{ext}"@
            == SAVE_ALBUM_PATTERN@,
{
    reveal_strlit("/");
    reveal_strlit("{album_title}{sep}{album_id}");
    reveal_strlit("{image_title}{sep}{image_id}.{ext}");
    reveal_strlit("{album_title}{sep}{album_id}/{image_title}{sep}{image_id}.{ext}");
    assert("{album_title}{sep}{album_id}"@ + "/"@ + "{image_title}{sep}{image_id}.{ext}"@
        =~= SAVE_ALBUM_PATTERN@);
}

/// The lexems of the pattern of a request spell the pattern, and are as
/// the lexer gives them.
#[verifier::rlimit(50)]
pub proof fn lemma_api_pattern()
    ensures
        all_lexed(api_lexems()),
        source(api_lexems()) == API_ALBUM_URL@,
{
    lemma_names_are_lexed();
    lemma_literals_are_lexed();
    let e = Seq::<LexemView>::empty();
    let a = e.push(LexemView::Plain("https://api.imgur.com/3/"@));
    let b = a.push(LexemView::Sub("type"@));
    let c = b.push(LexemView::Plain("/"@));
    lemma_all_lexed_push(e, LexemView::Plain("https://api.imgur.com/3/"@));
    lemma_all_lexed_push(a, LexemView::Sub("type"@));
    lemma_all_lexed_push(b, LexemView::Plain("/"@));
    lemma_all_lexed_push(c, LexemView::Sub("id"@));
    lemma_source_push(e, LexemView::Plain("https://api.imgur.com/3/"@));
    lemma_source_push(a, LexemView::Sub("type"@));
    lemma_source_push(b, LexemView::Plain("/"@));
    lemma_source_push(c, LexemView::Sub("id"@));
    lemma_api_text();
    assert(source(e) + "https://api.imgur.com/3/"@ =~= "https://api.imgur.com/3/"@);
}

/// The lexems that the two patterns of a path start with are as the
/// lexer gives them, and spell that start.
#[verifier::rlimit(50)]
proof fn lemma_album_part()
    ensures
        all_lexed(album_part()),
        source(album_part()) == "{album_title}{sep}{album_id}"@,
{
    lemma_names_are_lexed();
    let e = Seq::<LexemView>::empty();
    let a = e.push(LexemView::Sub("album_title"@));
    let b = a.push(LexemView::Sub("sep"@));
    lemma_all_lexed_push(e, LexemView::Sub("album_title"@));
    lemma_all_lexed_push(a, LexemView::Sub("sep"@));
    lemma_all_lexed_push(b, LexemView::Sub("album_id"@));
    lemma_source_push(e, LexemView::Sub("album_title"@));
    lemma_source_push(a, LexemView::Sub("sep"@));
    lemma_source_push(b, LexemView::Sub("album_id"@));
    lemma_album_text();
    assert(source(e) + braced("album_title"@) =~= braced("album_title"@));
}

/// The end of the two patterns of a path, behind a start that is as the
/// lexer gives it.
#[verifier::rlimit(50)]
proof fn lemma_with_image_part(front: Seq<LexemView>)
    requires
        all_lexed(front),
    ensures
        all_lexed(with_image_part(front)),
        source(with_image_part(front)) == source(front) + "{image_title}{sep}{image_id}.{ext}"@,
{
    lemma_names_are_lexed();
    lemma_literals_are_lexed();
    let a = front.push(LexemView::Sub("image_title"@));
    let b = a.push(LexemView::Sub("sep"@));
    let c = b.push(LexemView::Sub("image_id"@));
    let d = c.push(LexemView::Plain("."@));
    lemma_all_lexed_push(front, LexemView::Sub("image_title"@));
    lemma_all_lexed_push(a, LexemView::Sub("sep"@));
    lemma_all_lexed_push(b, LexemView::Sub("image_id"@));
    lemma_all_lexed_push(c, LexemView::Plain("."@));
    lemma_all_lexed_push(d, LexemView::Sub("ext"@));
    lemma_source_push(front, LexemView::Sub("image_title"@));
    lemma_source_push(a, LexemView::Sub("sep"@));
    lemma_source_push(b, LexemView::Sub("image_id"@));
    lemma_source_push(c, LexemView::Plain("."@));
    lemma_source_push(d, LexemView::Sub("ext"@));
    lemma_image_text();
    assert(source(with_image_part(front)) =~= source(front) + (braced("image_title"@) + braced(
        "sep"@,
    ) + braced("image_id"@) + "."@ + braced("ext"@)));
}

/// The lexems of the pattern of a single file spell the pattern, and
/// are as the lexer gives them.
pub proof fn lemma_single_pattern()
    ensures
        all_lexed(single_lexems()),
        source(single_lexems()) == SAVE_SINGLE_FILE_PATTERN@,
{
    lemma_names_are_lexed();
    lemma_album_part();
    lemma_all_lexed_push(album_part(), LexemView::Sub("sep"@));
    lemma_source_push(album_part(), LexemView::Sub("sep"@));
    lemma_with_image_part(album_part().push(LexemView::Sub("sep"@)));
    lemma_single_text();
}

/// The lexems of the pattern of a file of an album spell the pattern,
/// and are as the lexer gives them.
pub proof fn lemma_album_pattern()
    ensures
        all_lexed(album_lexems()),
        source(album_lexems()) == SAVE_ALBUM_PATTERN@,
{
    lemma_literals_are_lexed();
    lemma_album_part();
    lemma_all_lexed_push(album_part(), LexemView::Plain("/"@));
    lemma_source_push(album_part(), LexemView::Plain("/"@));
    lemma_with_image_part(album_part().push(LexemView::Plain("/"@)));
    lemma_album_pattern_text();
}

/// The text of the request for a resource.
pub open spec fn request_text(resource: ParsedView) -> Seq<char> {
    "https://api.imgur.com/3/"@ + resource.link_type.text() + "/"@ + resource.id
}

/// The pattern of a request compiles, and its rendering for a resource
/// is the text of the request.
#[verifier::rlimit(50)]
pub proof fn lemma_request_renders(resource: ParsedView)
    ensures
        compile_spec(API_ALBUM_URL@) == Some(split_all(api_lexems())),
        render_spec(split_all(api_lexems()), request_substitutions(resource)) == Ok::<
            Seq<char>,
            Seq<char>,
        >(request_text(resource)),
{
    let m = request_substitutions(resource);
    reveal_strlit("id");
    reveal_strlit("type");
    assert("id"@ != "type"@) by {
        assert("id"@.len() != "type"@.len());
    }
    lemma_api_pattern();
    let e = Seq::<LexemView>::empty();
    let a = e.push(LexemView::Plain("https://api.imgur.com/3/"@));
    let b = a.push(LexemView::Sub("type"@));
    let c = b.push(LexemView::Plain("/"@));
    assert(names_covered(e, m));
    lemma_covered_push(e, LexemView::Plain("https://api.imgur.com/3/"@), m);
    lemma_covered_push(a, LexemView::Sub("type"@), m);
    lemma_covered_push(b, LexemView::Plain("/"@), m);
    lemma_covered_push(c, LexemView::Sub("id"@), m);
    lemma_expand_push(e, LexemView::Plain("https://api.imgur.com/3/"@), m);
    lemma_expand_push(a, LexemView::Sub("type"@), m);
    lemma_expand_push(b, LexemView::Plain("/"@), m);
    lemma_expand_push(c, LexemView::Sub("id"@), m);
    law_spelled_pattern_renders(api_lexems(), m);
    assert(expand(api_lexems(), m) =~= request_text(resource));
}

/// The name of the file of an image: the titles and the identifiers of
/// the album and of the image, with the separator between them, and the
/// extension. An image that is alone in its album has them all in one
/// name, the others have a folder for the album.
pub open spec fn file_name(info: InfoView, image: ImageView) -> Seq<char> {
    let album = title_text(info.title) + SEPARATOR@ + info.id;
    let file = title_text(image.title) + SEPARATOR@ + image.id + "."@ + extension(
        image.content_type,
    );
    if info.images.len() == 1 {
        album + SEPARATOR@ + file
    } else {
        album + "/"@ + file
    }
}

/// The lexems of the pattern of the paths of a resource.
pub open spec fn save_lexems(info: InfoView) -> Seq<LexemView> {
    if info.images.len() == 1 {
        single_lexems()
    } else {
        album_lexems()
    }
}

/// The names of the patterns of a path differ from each other.
#[verifier::rlimit(50)]
proof fn lemma_names_differ()
    ensures
        "album_title"@ != "album_id"@,
        "album_title"@ != "image_title"@,
        "album_title"@ != "image_id"@,
        "album_title"@ != "sep"@,
        "album_title"@ != "ext"@,
        "album_id"@ != "image_title"@,
        "album_id"@ != "image_id"@,
        "album_id"@ != "sep"@,
        "album_id"@ != "ext"@,
        "image_title"@ != "image_id"@,
        "image_title"@ != "sep"@,
        "image_title"@ != "ext"@,
        "image_id"@ != "sep"@,
        "image_id"@ != "ext"@,
        "sep"@ != "ext"@,
{
    reveal_strlit("album_title");
    reveal_strlit("album_id");
    reveal_strlit("image_title");
    reveal_strlit("image_id");
    reveal_strlit("sep");
    reveal_strlit("ext");
    assert("album_title"@.len() == 11 && "image_title"@.len() == 11);
    assert("album_id"@.len() == 8 && "image_id"@.len() == 8);
    assert("sep"@.len() == 3 && "ext"@.len() == 3);
    assert("album_title"@[0] == 'a' && "image_title"@[0] == 'i');
    assert("album_id"@[0] == 'a' && "image_id"@[0] == 'i');
    assert("sep"@[0] == 's' && "ext"@[0] == 'e');
}

/// The rendering of the end of the two patterns of a path.
#[verifier::rlimit(50)]
proof fn lemma_image_part_renders(front: Seq<LexemView>, info: InfoView, image: ImageView)
    requires
        names_covered(front, item_substitutions(info, image)),
    ensures
        names_covered(with_image_part(front), item_substitutions(info, image)),
        expand(with_image_part(front), item_substitutions(info, image)) == expand(
            front,
            item_substitutions(info, image),
        ) + (title_text(image.title) + SEPARATOR@ + image.id + "."@ + extension(
            image.content_type,
        )),
{
    let m = item_substitutions(info, image);
    lemma_names_differ();
    let a = front.push(LexemView::Sub("image_title"@));
    let b = a.push(LexemView::Sub("sep"@));
    let c = b.push(LexemView::Sub("image_id"@));
    let d = c.push(LexemView::Plain("."@));
    lemma_covered_push(front, LexemView::Sub("image_title"@), m);
    lemma_covered_push(a, LexemView::Sub("sep"@), m);
    lemma_covered_push(b, LexemView::Sub("image_id"@), m);
    lemma_covered_push(c, LexemView::Plain("."@), m);
    lemma_covered_push(d, LexemView::Sub("ext"@), m);
    lemma_expand_push(front, LexemView::Sub("image_title"@), m);
    lemma_expand_push(a, LexemView::Sub("sep"@), m);
    lemma_expand_push(b, LexemView::Sub("image_id"@), m);
    lemma_expand_push(c, LexemView::Plain("."@), m);
    lemma_expand_push(d, LexemView::Sub("ext"@), m);
    assert(expand(with_image_part(front), m) =~= expand(front, m) + (title_text(image.title)
        + SEPARATOR@ + image.id + "."@ + extension(image.content_type)));
}

/// The pattern of the paths of a resource compiles, and its rendering
/// for an image is the name of the file of the image.
#[verifier::rlimit(50)]
pub proof fn lemma_file_name_renders(info: InfoView, image: ImageView)
    ensures
        compile_spec(pattern_for(info)) == Some(split_all(save_lexems(info))),
        render_spec(split_all(save_lexems(info)), item_substitutions(info, image)) == Ok::<
            Seq<char>,
            Seq<char>,
        >(file_name(info, image)),
{
    let m = item_substitutions(info, image);
    lemma_names_differ();
    lemma_single_pattern();
    lemma_album_pattern();
    let e = Seq::<LexemView>::empty();
    let a = e.push(LexemView::Sub("album_title"@));
    let b = a.push(LexemView::Sub("sep"@));
    assert(names_covered(e, m));
    lemma_covered_push(e, LexemView::Sub("album_title"@), m);
    lemma_covered_push(a, LexemView::Sub("sep"@), m);
    lemma_covered_push(b, LexemView::Sub("album_id"@), m);
    lemma_expand_push(e, LexemView::Sub("album_title"@), m);
    lemma_expand_push(a, LexemView::Sub("sep"@), m);
    lemma_expand_push(b, LexemView::Sub("album_id"@), m);
    let album = title_text(info.title) + SEPARATOR@ + info.id;
    assert(expand(album_part(), m) =~= album);
    let between = if info.images.len() == 1 {
        LexemView::Sub("sep"@)
    } else {
        LexemView::Plain("/"@)
    };
    lemma_covered_push(album_part(), between, m);
    lemma_expand_push(album_part(), between, m);
    lemma_image_part_renders(album_part().push(between), info, image);
    law_spelled_pattern_renders(save_lexems(info), m);
    assert(expand(save_lexems(info), m) =~= file_name(info, image));
}

} // verus!
