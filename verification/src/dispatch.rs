//! The dispatcher: the URLs of a run are grouped by the site they belong
//! to, and each group goes to the extractor of its site.

use vstd::prelude::*;

use crate::error::CrateError;
use crate::extractor::common::{Extractor, ExtractorOptions, Planned};
use crate::extractor::imgur::{planned_for, planned_views, ImgurExtractor};
use crate::sites::{detect_site, rejection_of, site_of_url, ExtractorSlug, Rejection};
use crate::weburl::{texts, url_texts};

verus! {

/// The URLs of one site, in the order in which they were given.
#[derive(Debug)]
pub struct SiteGroup {
    pub slug: ExtractorSlug,
    pub urls: Vec<String>,
}

/// What a group is, as the contracts see it.
pub struct SiteGroupView {
    pub slug: ExtractorSlug,
    pub urls: Seq<Seq<char>>,
}

impl View for SiteGroup {
    type V = SiteGroupView;

    open spec fn view(&self) -> SiteGroupView {
        SiteGroupView { slug: self.slug, urls: texts(self.urls@) }
    }
}

/// What became of the URLs of a run: the groups, and the errors of the
/// URLs that belong to no site.
#[derive(Debug)]
pub struct Dispatch {
    pub groups: Vec<SiteGroup>,
    pub rejected: Vec<CrateError>,
}

/// The URLs among `urls` that belong to `slug`, in their order.
pub open spec fn urls_of_site(urls: Seq<Seq<char>>, slug: ExtractorSlug) -> Seq<Seq<char>>
    decreases urls.len(),
{
    if urls.len() == 0 {
        Seq::empty()
    } else if site_of_url(urls.last()) == Ok::<ExtractorSlug, Rejection>(slug) {
        urls_of_site(urls.drop_last(), slug).push(urls.last())
    } else {
        urls_of_site(urls.drop_last(), slug)
    }
}

/// Why the URLs among `urls` that belong to no site do not, in their
/// order.
pub open spec fn rejected_of(urls: Seq<Seq<char>>) -> Seq<Rejection>
    decreases urls.len(),
{
    if urls.len() == 0 {
        Seq::empty()
    } else {
        match site_of_url(urls.last()) {
            Ok(_) => rejected_of(urls.drop_last()),
            Err(rejection) => rejected_of(urls.drop_last()).push(rejection),
        }
    }
}

/// The index of the first URL of `slug` among `urls`, or their number
/// where there is none.
pub open spec fn first_of_site(urls: Seq<Seq<char>>, slug: ExtractorSlug) -> int
    decreases urls.len(),
{
    if urls.len() == 0 {
        0
    } else {
        let before = first_of_site(urls.drop_last(), slug);
        if before < urls.len() - 1 || site_of_url(urls.last()) == Ok::<
            ExtractorSlug,
            Rejection,
        >(slug) {
            before
        } else {
            urls.len() as int
        }
    }
}

/// The errors, each by its kind and its text.
pub open spec fn rejections(errors: Seq<CrateError>) -> Seq<Rejection> {
    Seq::new(errors.len(), |i: int| rejection_of(errors[i]))
}

/// The groups, each by its view.
pub open spec fn group_views(groups: Seq<SiteGroup>) -> Seq<SiteGroupView> {
    Seq::new(groups.len(), |i: int| groups[i]@)
}

/// The groups are those of `urls`: each holds the URLs of its site, in
/// their order, and at least one; each site with a URL has its group, and
/// only one; and the groups stand in the order in which their sites were
/// first seen.
pub open spec fn groups_of(groups: Seq<SiteGroupView>, urls: Seq<Seq<char>>) -> bool {
    &&& forall|i: int|
        0 <= i < groups.len() ==> (#[trigger] groups[i]).urls == urls_of_site(
            urls,
            groups[i].slug,
        ) && groups[i].urls.len() > 0
    &&& forall|slug: ExtractorSlug| #[trigger]
        urls_of_site(urls, slug).len() > 0 ==> exists|i: int|
            0 <= i < groups.len() && (#[trigger] groups[i]).slug == slug
    &&& forall|i: int, j: int|
        0 <= i < j < groups.len() ==> first_of_site(urls, (#[trigger] groups[i]).slug)
            < first_of_site(urls, (#[trigger] groups[j]).slug)
}

/// A site has URLs just where its first one has an index.
pub proof fn lemma_first_of_site(urls: Seq<Seq<char>>, slug: ExtractorSlug)
    ensures
        0 <= first_of_site(urls, slug) <= urls.len(),
        first_of_site(urls, slug) < urls.len() <==> urls_of_site(urls, slug).len() > 0,
    decreases urls.len(),
{
    if urls.len() > 0 {
        lemma_first_of_site(urls.drop_last(), slug);
    }
}

/// What one more URL changes for a site.
proof fn lemma_push_url(seen: Seq<Seq<char>>, u: Seq<char>, slug: ExtractorSlug)
    ensures
        urls_of_site(seen.push(u), slug) == if site_of_url(u) == Ok::<ExtractorSlug, Rejection>(
            slug,
        ) {
            urls_of_site(seen, slug).push(u)
        } else {
            urls_of_site(seen, slug)
        },
        first_of_site(seen.push(u), slug) == if urls_of_site(seen, slug).len() > 0 || site_of_url(
            u,
        ) == Ok::<ExtractorSlug, Rejection>(slug) {
            first_of_site(seen, slug)
        } else {
            (seen.len() + 1) as int
        },
        0 <= first_of_site(seen, slug) <= seen.len(),
        first_of_site(seen, slug) < seen.len() <==> urls_of_site(seen, slug).len() > 0,
{
    assert(seen.push(u).drop_last() =~= seen);
    assert(seen.push(u).last() == u);
    lemma_first_of_site(seen, slug);
}

/// One more URL for a site that has its group.
#[verifier::rlimit(50)]
proof fn lemma_add_to_group(
    gs: Seq<SiteGroupView>,
    seen: Seq<Seq<char>>,
    u: Seq<char>,
    at: int,
)
    requires
        groups_of(gs, seen),
        0 <= at < gs.len(),
        site_of_url(u) == Ok::<ExtractorSlug, Rejection>(gs[at].slug),
    ensures
        groups_of(
            gs.update(at, SiteGroupView { slug: gs[at].slug, urls: gs[at].urls.push(u) }),
            seen.push(u),
        ),
{
    let slug = gs[at].slug;
    let after = gs.update(at, SiteGroupView { slug, urls: gs[at].urls.push(u) });
    let upto = seen.push(u);
    assert forall|i: int| 0 <= i < after.len() implies (#[trigger] after[i]).urls == urls_of_site(
        upto,
        after[i].slug,
    ) && after[i].urls.len() > 0 by {
        lemma_push_url(seen, u, gs[i].slug);
        assert(gs[i].urls.len() > 0);
        if i != at && gs[i].slug == slug {
            lemma_push_url(seen, u, slug);
            if i < at {
                assert(first_of_site(seen, gs[i].slug) < first_of_site(seen, gs[at].slug));
            } else {
                assert(first_of_site(seen, gs[at].slug) < first_of_site(seen, gs[i].slug));
            }
        }
    }
    assert forall|s: ExtractorSlug| #[trigger] urls_of_site(upto, s).len() > 0 implies exists|
        i: int,
    | 0 <= i < after.len() && (#[trigger] after[i]).slug == s by {
        lemma_push_url(seen, u, s);
        if s == slug {
            assert(after[at].slug == s);
        } else {
            let i = choose|i: int| 0 <= i < gs.len() && (#[trigger] gs[i]).slug == s;
            assert(after[i].slug == s);
        }
    }
    assert forall|i: int, j: int| 0 <= i < j < after.len() implies first_of_site(
        upto,
        (#[trigger] after[i]).slug,
    ) < first_of_site(upto, (#[trigger] after[j]).slug) by {
        lemma_push_url(seen, u, gs[i].slug);
        lemma_push_url(seen, u, gs[j].slug);
        assert(gs[i].urls.len() > 0);
        assert(gs[j].urls.len() > 0);
        assert(first_of_site(seen, gs[i].slug) < first_of_site(seen, gs[j].slug));
    }
}

/// The first URL of a site opens its group.
#[verifier::rlimit(50)]
proof fn lemma_new_group(
    gs: Seq<SiteGroupView>,
    seen: Seq<Seq<char>>,
    u: Seq<char>,
    slug: ExtractorSlug,
)
    requires
        groups_of(gs, seen),
        site_of_url(u) == Ok::<ExtractorSlug, Rejection>(slug),
        forall|i: int| 0 <= i < gs.len() ==> (#[trigger] gs[i]).slug != slug,
    ensures
        groups_of(gs.push(SiteGroupView { slug, urls: seq![u] }), seen.push(u)),
{
    let after = gs.push(SiteGroupView { slug, urls: seq![u] });
    let upto = seen.push(u);
    lemma_push_url(seen, u, slug);
    if urls_of_site(seen, slug).len() > 0 {
        let i = choose|i: int| 0 <= i < gs.len() && (#[trigger] gs[i]).slug == slug;
        assert(false);
    }
    assert(urls_of_site(seen, slug) =~= Seq::empty());
    assert(Seq::<Seq<char>>::empty().push(u) =~= seq![u]);
    assert forall|i: int| 0 <= i < after.len() implies (#[trigger] after[i]).urls == urls_of_site(
        upto,
        after[i].slug,
    ) && after[i].urls.len() > 0 by {
        if i < gs.len() {
            lemma_push_url(seen, u, gs[i].slug);
            assert(gs[i].urls.len() > 0);
        }
    }
    assert forall|s: ExtractorSlug| #[trigger] urls_of_site(upto, s).len() > 0 implies exists|
        i: int,
    | 0 <= i < after.len() && (#[trigger] after[i]).slug == s by {
        lemma_push_url(seen, u, s);
        if s == slug {
            assert(after[gs.len() as int].slug == s);
        } else {
            let i = choose|i: int| 0 <= i < gs.len() && (#[trigger] gs[i]).slug == s;
            assert(after[i].slug == s);
        }
    }
    assert forall|i: int, j: int| 0 <= i < j < after.len() implies first_of_site(
        upto,
        (#[trigger] after[i]).slug,
    ) < first_of_site(upto, (#[trigger] after[j]).slug) by {
        lemma_push_url(seen, u, gs[i].slug);
        assert(gs[i].urls.len() > 0);
        if j < gs.len() {
            lemma_push_url(seen, u, gs[j].slug);
            assert(gs[j].urls.len() > 0);
            assert(first_of_site(seen, gs[i].slug) < first_of_site(seen, gs[j].slug));
        }
    }
}

/// A URL of no site changes no group.
#[verifier::rlimit(50)]
proof fn lemma_rejected_url(gs: Seq<SiteGroupView>, seen: Seq<Seq<char>>, u: Seq<char>)
    requires
        groups_of(gs, seen),
        site_of_url(u).is_err(),
    ensures
        groups_of(gs, seen.push(u)),
{
    let upto = seen.push(u);
    assert forall|i: int| 0 <= i < gs.len() implies (#[trigger] gs[i]).urls == urls_of_site(
        upto,
        gs[i].slug,
    ) && gs[i].urls.len() > 0 by {
        lemma_push_url(seen, u, gs[i].slug);
    }
    assert forall|s: ExtractorSlug| #[trigger] urls_of_site(upto, s).len() > 0 implies exists|
        i: int,
    | 0 <= i < gs.len() && (#[trigger] gs[i]).slug == s by {
        lemma_push_url(seen, u, s);
    }
    assert forall|i: int, j: int| 0 <= i < j < gs.len() implies first_of_site(
        upto,
        (#[trigger] gs[i]).slug,
    ) < first_of_site(upto, (#[trigger] gs[j]).slug) by {
        lemma_push_url(seen, u, gs[i].slug);
        lemma_push_url(seen, u, gs[j].slug);
        assert(gs[i].urls.len() > 0);
        assert(gs[j].urls.len() > 0);
        assert(first_of_site(seen, gs[i].slug) < first_of_site(seen, gs[j].slug));
    }
}

/// The index of the group of `slug`, where there is one.
pub fn find_group(groups: &Vec<SiteGroup>, slug: ExtractorSlug) -> (r: Option<usize>)
    ensures
        match r {
            Some(i) => i < groups.len() && groups[i as int].slug == slug && forall|k: int|
                0 <= k < i ==> (#[trigger] groups[k]).slug != slug,
            None => forall|i: int| 0 <= i < groups.len() ==> (#[trigger] groups[i]).slug != slug,
        },
{
    let mut i: usize = 0;
    while i < groups.len()
        invariant
            i <= groups.len(),
            forall|k: int| 0 <= k < i ==> (#[trigger] groups[k]).slug != slug,
        decreases groups.len() - i,
    {
        if groups[i].slug == slug {
            return Some(i);
        }
        i += 1;
    }
    None
}

/// Groups the URLs of a run by the site that each belongs to.
///
/// A URL that belongs to no site does not end the run: its error is kept
/// aside, in the order of the URLs, and the URL is in no group.
#[verifier::rlimit(50)]
pub fn process_urls(urls: &Vec<&str>) -> (r: Dispatch)
    ensures
        groups_of(group_views(r.groups@), url_texts(urls@)),
        rejections(r.rejected@) == rejected_of(url_texts(urls@)),
{
    let mut groups: Vec<SiteGroup> = Vec::new();
    let mut rejected: Vec<CrateError> = Vec::new();
    let ghost all = url_texts(urls@);
    let mut k: usize = 0;
    proof {
        assert(all.take(0) =~= Seq::empty());
        assert(rejections(rejected@) =~= Seq::empty());
    }
    while k < urls.len()
        invariant
            k <= urls.len(),
            all == url_texts(urls@),
            groups_of(group_views(groups@), all.take(k as int)),
            rejections(rejected@) == rejected_of(all.take(k as int)),
        decreases urls.len() - k,
    {
        let u = urls[k];
        let ghost seen = all.take(k as int);
        let ghost gs = group_views(groups@);
        proof {
            assert(all.take(k + 1) =~= seen.push(u@));
            assert(seen.push(u@).drop_last() =~= seen);
        }
        match detect_site(u) {
            Ok(slug) => {
                match find_group(&groups, slug) {
                    Some(at) => {
                        let mut group = groups.remove(at);
                        let ghost before = group.urls@;
                        group.urls.push(u.to_owned());
                        proof {
                            assert(gs[at as int].slug == slug);
                            assert(texts(group.urls@) =~= texts(before).push(u@));
                            lemma_add_to_group(gs, seen, u@, at as int);
                        }
                        groups.insert(at, group);
                        assert(group_views(groups@) =~= gs.update(
                            at as int,
                            SiteGroupView { slug, urls: gs[at as int].urls.push(u@) },
                        ));
                    },
                    None => {
                        let mut list: Vec<String> = Vec::new();
                        list.push(u.to_owned());
                        proof {
                            assert(texts(list@) =~= seq![u@]);
                            assert forall|i: int| 0 <= i < gs.len() implies (
                            #[trigger] gs[i]).slug != slug by {
                                assert(groups@[i].slug != slug);
                            }
                            lemma_new_group(gs, seen, u@, slug);
                        }
                        groups.push(SiteGroup { slug, urls: list });
                        assert(group_views(groups@) =~= gs.push(
                            SiteGroupView { slug, urls: seq![u@] },
                        ));
                    },
                }
            },
            Err(e) => {
                proof {
                    assert(rejections(rejected@.push(e)) =~= rejections(rejected@).push(
                        rejection_of(e),
                    ));
                    lemma_rejected_url(gs, seen, u@);
                }
                rejected.push(e);
            },
        }
        k += 1;
    }
    proof {
        assert(all.take(urls.len() as int) =~= all);
    }
    Dispatch { groups, rejected }
}

/// Whether the site has an extractor.
pub open spec fn is_registered(slug: ExtractorSlug) -> bool {
    slug == ExtractorSlug::Imgur
}

/// Hands the URLs of a group to the extractor of its site, which says
/// what to request for each. A group whose site has no extractor is
/// passed over: `None`.
pub fn download(group: &SiteGroup, config: &ExtractorOptions) -> (r: Option<
    Result<Vec<Planned>, CrateError>,
>)
    ensures
        !is_registered(group.slug) ==> r.is_none(),
        is_registered(group.slug) ==> (r matches Some(Ok(v)) && planned_views(v@) == planned_for(
            group@.urls,
        )),
{
    match group.slug {
        ExtractorSlug::Imgur => {
            let mut urls: Vec<&str> = Vec::new();
            let mut i: usize = 0;
            while i < group.urls.len()
                invariant
                    i <= group.urls.len(),
                    url_texts(urls@) == texts(group.urls@).take(i as int),
                decreases group.urls.len() - i,
            {
                let ghost before = urls@;
                urls.push(group.urls[i].as_str());
                assert(url_texts(urls@) =~= url_texts(before).push(group.urls@[i as int]@));
                assert(texts(group.urls@).take(i + 1) =~= texts(group.urls@).take(i as int).push(
                    group.urls@[i as int]@,
                ));
                i += 1;
            }
            assert(texts(group.urls@).take(group.urls.len() as int) =~= texts(group.urls@));
            Some(ImgurExtractor::requests(urls.as_slice(), config))
        },
        _ => None,
    }
}

} // verus!
