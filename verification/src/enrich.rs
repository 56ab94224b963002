//! The enrichment run that follows a navigation: which addresses it fetches,
//! in which order, and what it keeps of what comes back. The run itself is
//! a state machine: its driver fetches what a step asks for and hands the
//! outcome to the next step.

use vstd::prelude::*;
use crate::db::{
    DbHandle, DbReply, DbRequest, GlobalDb, copy_bytes, copy_text, get_global, opt_reply,
    opt_request,
};
use crate::db_model::{DbReplyView, DbRequestView, IconFields, SiteFields, StoreView};
use crate::text::{concat, contains, has_infix, lowercase_text, to_lowercase};
use crate::weburl::{
    UrlParts, UrlPartsView, join_url, opt_parts, opt_text, origin_from_parts, parse_url, parsed_url,
    parts_origin, resolved_url,
};

verus! {

/// Two attributes of one element of a document.
#[derive(Debug, Clone)]
pub struct AttrPair {
    pub first: Option<String>,
    pub second: Option<String>,
}

/// The mathematical value of an [`AttrPair`].
pub struct AttrPairView {
    pub first: Option<Seq<char>>,
    pub second: Option<Seq<char>>,
}

impl View for AttrPair {
    type V = AttrPairView;

    open spec fn view(&self) -> AttrPairView {
        AttrPairView { first: opt_text(self.first), second: opt_text(self.second) }
    }
}

/// The models of a run of attribute pairs.
pub open spec fn pairs_view(pairs: Seq<AttrPair>) -> Seq<AttrPairView> {
    pairs.map_values(|p: AttrPair| p@)
}

/// What `scraper` finds in a document: the elements that match a selector,
/// in the order in which `Html::select` yields them, each with the values
/// of two attributes; or nothing where the selector is no valid one.
pub uninterp spec fn selected_attrs(
    html: Seq<char>,
    selector: Seq<char>,
    first: Seq<char>,
    second: Seq<char>,
) -> Option<Seq<AttrPairView>>;

/// Parses the selector with `scraper::Selector::parse` and the document with
/// `scraper::Html::parse_document`, walks the matches of `Html::select` and
/// copies out of each the two attributes asked for (`Element::attr`).
/// Nothing is proved of it: the contract only gives the outcome the name
/// `selected_attrs`, a function of the four texts alone.
#[verifier::external_body]
pub(crate) fn select_attrs(html: &str, selector: &str, first: &str, second: &str) -> (r: Option<
    Vec<AttrPair>,
>)
    ensures
        match r {
            Some(pairs) => selected_attrs(html@, selector@, first@, second@) == Some(
                pairs_view(pairs@),
            ),
            None => selected_attrs(html@, selector@, first@, second@) is None,
        },
{
    match scraper::Selector::parse(selector) {
        Ok(sel) => Some(
            scraper::Html::parse_document(html).select(&sel).map(
                |e| AttrPair {
                    first: e.value().attr(first).map(|v| v.to_string()),
                    second: e.value().attr(second).map(|v| v.to_string()),
                },
            ).collect(),
        ),
        Err(_) => None,
    }
}

/// What a web manifest says of its site, as far as the run reads it: two
/// names and, for each entry of its list of icons, the entry's source.
#[derive(Debug, Clone)]
pub struct ManifestDoc {
    pub name: Option<String>,
    pub short_name: Option<String>,
    pub icons: Option<Vec<Option<String>>>,
}

/// The mathematical value of a [`ManifestDoc`].
pub struct ManifestDocView {
    pub name: Option<Seq<char>>,
    pub short_name: Option<Seq<char>>,
    pub icons: Option<Seq<Option<Seq<char>>>>,
}

/// The texts of a run of optional strings.
pub open spec fn opt_texts(items: Seq<Option<String>>) -> Seq<Option<Seq<char>>> {
    items.map_values(|s: Option<String>| opt_text(s))
}

impl View for ManifestDoc {
    type V = ManifestDocView;

    open spec fn view(&self) -> ManifestDocView {
        ManifestDocView {
            name: opt_text(self.name),
            short_name: opt_text(self.short_name),
            icons: match self.icons {
                Some(items) => Some(opt_texts(items@)),
                None => None,
            },
        }
    }
}

/// What `serde_json` reads from a document: the members under two keys, as
/// texts, and, for each element of the array under a third key, the
/// element's member under a fourth, as text; or nothing where the document
/// is no valid JSON.
pub uninterp spec fn json_members(
    text: Seq<char>,
    name_key: Seq<char>,
    short_key: Seq<char>,
    list_key: Seq<char>,
    item_key: Seq<char>,
) -> Option<ManifestDocView>;

/// Parses the document with `serde_json::from_str` into a
/// `serde_json::Value` and copies members out of it with `Value::get`,
/// `Value::as_str` and `Value::as_array`. Nothing is proved of it: the
/// contract only gives the outcome the name `json_members`, a function of
/// the five texts alone.
#[verifier::external_body]
pub(crate) fn read_members(
    text: &str,
    name_key: &str,
    short_key: &str,
    list_key: &str,
    item_key: &str,
) -> (r: Option<ManifestDoc>)
    ensures
        match r {
            Some(doc) => json_members(text@, name_key@, short_key@, list_key@, item_key@) == Some(
                doc@,
            ),
            None => json_members(text@, name_key@, short_key@, list_key@, item_key@) is None,
        },
{
    let doc: serde_json::Value = serde_json::from_str(text).ok()?;
    let text_of = |v: &serde_json::Value, k: &str| v.get(k).and_then(|m| m.as_str()).map(|s| s.to_string());
    Some(
        ManifestDoc {
            name: text_of(&doc, name_key),
            short_name: text_of(&doc, short_key),
            icons: doc.get(list_key).and_then(|l| l.as_array()).map(
                |l| l.iter().map(|e| text_of(e, item_key)).collect(),
            ),
        },
    )
}

/// A link of a page, made ready for the run's rules: its relation in lower
/// case and its target resolved against the page's address.
#[derive(Debug, Clone)]
pub struct PageLink {
    pub rel: Option<String>,
    pub target: Option<String>,
}

/// The mathematical value of a [`PageLink`].
pub struct PageLinkView {
    pub rel: Option<Seq<char>>,
    pub target: Option<Seq<char>>,
}

impl View for PageLink {
    type V = PageLinkView;

    open spec fn view(&self) -> PageLinkView {
        PageLinkView { rel: opt_text(self.rel), target: opt_text(self.target) }
    }
}

/// The models of a run of links.
pub open spec fn links_view(links: Seq<PageLink>) -> Seq<PageLinkView> {
    links.map_values(|l: PageLink| l@)
}

/// The texts of a run of strings.
pub open spec fn texts_view(items: Seq<String>) -> Seq<Seq<char>> {
    items.map_values(|s: String| s@)
}

/// A link element made ready: the relation in lower case, the reference
/// resolved against the page.
pub open spec fn ready_link(page: Seq<char>, tag: AttrPairView) -> PageLinkView {
    PageLinkView {
        rel: match tag.first {
            Some(r) => Some(lowercase_text(r)),
            None => None,
        },
        target: match tag.second {
            Some(h) => resolved_url(page, h),
            None => None,
        },
    }
}

/// The links of a page, made ready, in the order of the document.
pub open spec fn page_links(page: Seq<char>, html: Seq<char>) -> Seq<PageLinkView> {
    match selected_attrs(html, "link[rel]"@, "rel"@, "href"@) {
        Some(tags) => tags.map_values(|t: AttrPairView| ready_link(page, t)),
        None => Seq::empty(),
    }
}

/// Makes the link elements of a page ready.
pub fn ready_links(page: &str, tags: &Vec<AttrPair>) -> (links: Vec<PageLink>)
    ensures
        links_view(links@) == pairs_view(tags@).map_values(|t: AttrPairView| ready_link(page@, t)),
{
    let mut links: Vec<PageLink> = Vec::new();
    let mut i: usize = 0;
    while i < tags.len()
        invariant
            i <= tags.len(),
            links.len() == i,
            forall|k: int| 0 <= k < i ==> (#[trigger] links[k])@ == ready_link(page@, tags[k]@),
        decreases tags.len() - i,
    {
        let tag = &tags[i];
        let rel = match &tag.first {
            Some(r) => Some(to_lowercase(r.as_str())),
            None => None,
        };
        let target = match &tag.second {
            Some(h) => join_url(page, h.as_str()),
            None => None,
        };
        links.push(PageLink { rel, target });
        i = i + 1;
    }
    proof {
        assert(links_view(links@) =~= pairs_view(tags@).map_values(
            |t: AttrPairView| ready_link(page@, t),
        ));
    }
    links
}

/// Reads the links out of a page.
pub fn scan_links(page: &str, html: &str) -> (links: Vec<PageLink>)
    ensures
        links_view(links@) == page_links(page@, html@),
{
    match select_attrs(html, "link[rel]", "rel", "href") {
        Some(tags) => ready_links(page, &tags),
        None => {
            let links: Vec<PageLink> = Vec::new();
            proof {
                assert(links_view(links@) =~= Seq::<PageLinkView>::empty());
            }
            links
        },
    }
}

/// The link's relation, in lower case, mentions `word`, and its target
/// resolved.
pub open spec fn link_mentions(l: PageLinkView, word: Seq<char>) -> bool {
    l.rel is Some && has_infix(l.rel->0, word) && l.target is Some
}

/// The target of a link if the link mentions `word`.
pub open spec fn target_if(word: Seq<char>) -> spec_fn(PageLinkView) -> Option<Seq<char>> {
    |l: PageLinkView|
        if link_mentions(l, word) {
            l.target
        } else {
            None
        }
}

/// The targets of the links that mention `word`, in the order of the page.
pub open spec fn targets_of(links: Seq<PageLinkView>, word: Seq<char>) -> Seq<Seq<char>> {
    links.filter_map(target_if(word))
}

/// The address of the page's manifest: the target of the first link that
/// names a manifest.
pub open spec fn manifest_target(links: Seq<PageLinkView>) -> Option<Seq<char>> {
    let found = targets_of(links, "manifest"@);
    if found.len() > 0 {
        Some(found[0])
    } else {
        None
    }
}

/// The addresses of the icons that a page links to, in the order of the
/// page.
pub open spec fn icon_targets(links: Seq<PageLinkView>) -> Seq<Seq<char>> {
    targets_of(links, "icon"@)
}

/// Collects the targets of the links that mention `word`.
pub fn collect_targets(links: &Vec<PageLink>, word: &str) -> (found: Vec<String>)
    ensures
        texts_view(found@) == targets_of(links_view(links@), word@),
{
    let ghost all = links_view(links@);
    let mut found: Vec<String> = Vec::new();
    let mut i: usize = 0;
    proof {
        assert(all.take(0).filter_map(target_if(word@)) =~= Seq::<Seq<char>>::empty());
        assert(texts_view(found@) =~= Seq::<Seq<char>>::empty());
    }
    while i < links.len()
        invariant
            all == links_view(links@),
            i <= links.len(),
            texts_view(found@) == all.take(i as int).filter_map(target_if(word@)),
        decreases links.len() - i,
    {
        let link = &links[i];
        let ghost before = texts_view(found@);
        proof {
            all.lemma_filter_map_take_succ(target_if(word@), i as int);
            assert(all[i as int] == link@);
        }
        match (&link.rel, &link.target) {
            (Some(rel), Some(target)) => {
                if contains(rel.as_str(), word) {
                    found.push(target.clone());
                    proof {
                        assert(texts_view(found@) =~= before.push(target@));
                    }
                }
            },
            _ => {},
        }
        i = i + 1;
    }
    proof {
        assert(all.take(links.len() as int) =~= all);
    }
    found
}

/// Finds the address of the page's manifest among its links.
pub fn find_manifest(links: &Vec<PageLink>) -> (r: Option<String>)
    ensures
        opt_text(r) == manifest_target(links_view(links@)),
{
    let mut found = collect_targets(links, "manifest");
    if found.len() > 0 {
        let first = found.swap_remove(0);
        Some(first)
    } else {
        None
    }
}

/// Collects the addresses of the icons that a page links to.
pub fn find_icons(links: &Vec<PageLink>) -> (r: Vec<String>)
    ensures
        texts_view(r@) == icon_targets(links_view(links@)),
{
    collect_targets(links, "icon")
}

/// A manifest made ready for the run's rules: the site's display name and
/// the addresses of its icons, resolved against the page's address.
#[derive(Debug, Clone)]
pub struct SiteManifest {
    pub name: Option<String>,
    pub icons: Vec<String>,
}

/// The mathematical value of a [`SiteManifest`].
pub struct SiteManifestView {
    pub name: Option<Seq<char>>,
    pub icons: Seq<Seq<char>>,
}

impl View for SiteManifest {
    type V = SiteManifestView;

    open spec fn view(&self) -> SiteManifestView {
        SiteManifestView { name: opt_text(self.name), icons: texts_view(self.icons@) }
    }
}

/// The model of an optional manifest.
pub open spec fn opt_manifest(m: Option<SiteManifest>) -> Option<SiteManifestView> {
    match m {
        Some(x) => Some(x@),
        None => None,
    }
}

/// The display name of a site: the manifest's name or, failing that, its
/// short name.
pub open spec fn display_name(name: Option<Seq<char>>, short_name: Option<Seq<char>>) -> Option<
    Seq<char>,
> {
    match name {
        Some(n) => Some(n),
        None => short_name,
    }
}

/// The resolved address of an icon entry, where the entry has a source and
/// the source resolves.
pub open spec fn source_target(page: Seq<char>) -> spec_fn(Option<Seq<char>>) -> Option<Seq<char>> {
    |src: Option<Seq<char>>|
        match src {
            Some(s) => resolved_url(page, s),
            None => None,
        }
}

/// A manifest document made ready.
pub open spec fn ready_manifest(page: Seq<char>, doc: ManifestDocView) -> SiteManifestView {
    SiteManifestView {
        name: display_name(doc.name, doc.short_name),
        icons: match doc.icons {
            Some(items) => items.filter_map(source_target(page)),
            None => Seq::empty(),
        },
    }
}

/// The manifest that a text holds, made ready; nothing where the text is no
/// valid JSON.
pub open spec fn page_manifest(page: Seq<char>, text: Seq<char>) -> Option<SiteManifestView> {
    match json_members(text, "name"@, "short_name"@, "icons"@, "src"@) {
        Some(doc) => Some(ready_manifest(page, doc)),
        None => None,
    }
}

/// Picks the display name of a site.
pub fn pick_name(name: &Option<String>, short_name: &Option<String>) -> (r: Option<String>)
    ensures
        opt_text(r) == display_name(opt_text(*name), opt_text(*short_name)),
{
    match name {
        Some(n) => Some(n.clone()),
        None => match short_name {
            Some(s) => Some(s.clone()),
            None => None,
        },
    }
}

/// Makes a manifest document ready.
pub fn ready_doc(page: &str, doc: &ManifestDoc) -> (m: SiteManifest)
    ensures
        m@ == ready_manifest(page@, doc@),
{
    let name = pick_name(&doc.name, &doc.short_name);
    let mut icons: Vec<String> = Vec::new();
    match &doc.icons {
        Some(items) => {
            let ghost all = opt_texts(items@);
            let mut i: usize = 0;
            proof {
                assert(all.take(0).filter_map(source_target(page@)) =~= Seq::<Seq<char>>::empty());
                assert(texts_view(icons@) =~= Seq::<Seq<char>>::empty());
            }
            while i < items.len()
                invariant
                    all == opt_texts(items@),
                    i <= items.len(),
                    texts_view(icons@) == all.take(i as int).filter_map(source_target(page@)),
                decreases items.len() - i,
            {
                let ghost before = texts_view(icons@);
                proof {
                    all.lemma_filter_map_take_succ(source_target(page@), i as int);
                    assert(all[i as int] == opt_text(items[i as int]));
                }
                match &items[i] {
                    Some(src) => {
                        match join_url(page, src.as_str()) {
                            Some(target) => {
                                icons.push(target);
                                proof {
                                    assert(texts_view(icons@) =~= before.push(target@));
                                }
                            },
                            None => {},
                        }
                    },
                    None => {},
                }
                i = i + 1;
            }
            proof {
                assert(all.take(items.len() as int) =~= all);
            }
        },
        None => {
            proof {
                assert(texts_view(icons@) =~= Seq::<Seq<char>>::empty());
            }
        },
    }
    SiteManifest { name, icons }
}

/// Reads the manifest out of a text.
pub fn scan_manifest(page: &str, text: &str) -> (m: Option<SiteManifest>)
    ensures
        opt_manifest(m) == page_manifest(page@, text@),
{
    match read_members(text, "name", "short_name", "icons", "src") {
        Some(doc) => Some(ready_doc(page, &doc)),
        None => None,
    }
}


/// An icon that the run may yet fetch, with what is to be stored beside it
/// once it arrived.
#[derive(Debug, Clone)]
pub struct Candidate {
    /// Where the icon is fetched from.
    pub url: String,
    /// The site's display name to store with it.
    pub site_name: Option<String>,
    /// The manifest's address to store with it.
    pub manifest_url: Option<String>,
    /// Whether the media type that the server states is stored with it.
    pub keep_mime: bool,
}

/// The mathematical value of a [`Candidate`].
pub struct CandidateView {
    pub url: Seq<char>,
    pub site_name: Option<Seq<char>>,
    pub manifest_url: Option<Seq<char>>,
    pub keep_mime: bool,
}

impl View for Candidate {
    type V = CandidateView;

    open spec fn view(&self) -> CandidateView {
        CandidateView {
            url: self.url@,
            site_name: opt_text(self.site_name),
            manifest_url: opt_text(self.manifest_url),
            keep_mime: self.keep_mime,
        }
    }
}

/// The models of a run of candidates.
pub open spec fn candidates_view(items: Seq<Candidate>) -> Seq<CandidateView> {
    items.map_values(|c: Candidate| c@)
}

/// What the driver is to do for the run.
#[derive(Debug, Clone)]
pub enum Effect {
    /// Fetch this address and hand back the body as bytes, with the media
    /// type that the server states.
    FetchBytes(String),
    /// Fetch this address and hand back the body as text.
    FetchText(String),
    /// Store the site's metadata.
    SaveSite {
        origin: String,
        site_name: Option<String>,
        manifest_url: Option<String>,
        fetched_at: Option<i64>,
    },
    /// Store the site's metadata, then the icon under the site.
    SaveIcon {
        origin: String,
        site_name: Option<String>,
        manifest_url: Option<String>,
        src_url: String,
        mime: Option<String>,
        data: Vec<u8>,
        fetched_at: Option<i64>,
    },
    /// Hand the icon's bytes to the surface actor.
    PostFavicon(Vec<u8>),
}

/// The mathematical value of an [`Effect`].
pub enum EffectView {
    FetchBytes(Seq<char>),
    FetchText(Seq<char>),
    SaveSite {
        origin: Seq<char>,
        site_name: Option<Seq<char>>,
        manifest_url: Option<Seq<char>>,
        fetched_at: Option<i64>,
    },
    SaveIcon {
        origin: Seq<char>,
        site_name: Option<Seq<char>>,
        manifest_url: Option<Seq<char>>,
        src_url: Seq<char>,
        mime: Option<Seq<char>>,
        data: Seq<u8>,
        fetched_at: Option<i64>,
    },
    PostFavicon(Seq<u8>),
}

impl View for Effect {
    type V = EffectView;

    open spec fn view(&self) -> EffectView {
        match *self {
            Effect::FetchBytes(url) => EffectView::FetchBytes(url@),
            Effect::FetchText(url) => EffectView::FetchText(url@),
            Effect::SaveSite { origin, site_name, manifest_url, fetched_at } => EffectView::SaveSite {
                origin: origin@,
                site_name: opt_text(site_name),
                manifest_url: opt_text(manifest_url),
                fetched_at,
            },
            Effect::SaveIcon { origin, site_name, manifest_url, src_url, mime, data, fetched_at } =>
                EffectView::SaveIcon {
                origin: origin@,
                site_name: opt_text(site_name),
                manifest_url: opt_text(manifest_url),
                src_url: src_url@,
                mime: opt_text(mime),
                data: data@,
                fetched_at,
            },
            Effect::PostFavicon(bytes) => EffectView::PostFavicon(bytes@),
        }
    }
}

/// The models of a run of effects.
pub open spec fn effects_view(effects: Seq<Effect>) -> Seq<EffectView> {
    effects.map_values(|e: Effect| e@)
}

/// What a fetch came to.
#[derive(Debug, Clone)]
pub enum FetchOutcome {
    /// The request failed, the server refused it, or the body could not be
    /// read.
    Failed,
    /// The body, with the media type that the server stated.
    Bytes { body: Vec<u8>, content_type: Option<String> },
    /// The body as text.
    Text(String),
}

/// The mathematical value of a [`FetchOutcome`].
pub enum FetchOutcomeView {
    Failed,
    Bytes { body: Seq<u8>, content_type: Option<Seq<char>> },
    Text(Seq<char>),
}

impl View for FetchOutcome {
    type V = FetchOutcomeView;

    open spec fn view(&self) -> FetchOutcomeView {
        match *self {
            FetchOutcome::Failed => FetchOutcomeView::Failed,
            FetchOutcome::Bytes { body, content_type } => FetchOutcomeView::Bytes {
                body: body@,
                content_type: opt_text(content_type),
            },
            FetchOutcome::Text(t) => FetchOutcomeView::Text(t@),
        }
    }
}

/// Where a run stands: what it waits for.
pub enum StageView {
    /// For the icon at the origin's well-known place.
    Favicon,
    /// For the page itself.
    Page,
    /// For the page's manifest; `fallback` holds the icons that the page
    /// links to.
    Manifest { manifest_url: Seq<char>, fallback: Seq<Seq<char>> },
    /// For candidate `next` of `candidates`.
    Icons { candidates: Seq<CandidateView>, next: int },
    /// For nothing: the run has ended.
    Done,
}

/// A run of the enrichment pipeline.
pub struct EnrichmentView {
    /// The address that was navigated to.
    pub url: Seq<char>,
    /// The origin of that address.
    pub origin: Seq<char>,
    /// The well-known place of the origin's icon.
    pub favicon_url: Seq<char>,
    pub stage: StageView,
}

/// A text without the slashes at its end.
pub open spec fn without_trailing_slashes(s: Seq<char>) -> Seq<char>
    decreases s.len(),
{
    if s.len() > 0 && s.last() == '/' {
        without_trailing_slashes(s.drop_last())
    } else {
        s
    }
}

/// The well-known place of an origin's icon.
pub open spec fn favicon_place(origin: Seq<char>) -> Seq<char> {
    without_trailing_slashes(origin) + "/favicon.ico"@
}

/// The candidate for an icon that the page links to: nothing is stored
/// beside it.
pub open spec fn linked_candidate() -> spec_fn(Seq<char>) -> CandidateView {
    |url: Seq<char>| CandidateView { url, site_name: None, manifest_url: None, keep_mime: false }
}

/// The candidate for an icon that the manifest lists: the site's name and
/// the manifest's address are stored beside it, and its media type.
pub open spec fn listed_candidate(name: Option<Seq<char>>, manifest_url: Seq<char>) -> spec_fn(
    Seq<char>,
) -> CandidateView {
    |url: Seq<char>|
        CandidateView { url, site_name: name, manifest_url: Some(manifest_url), keep_mime: true }
}

impl EnrichmentView {
    /// In the stage that waits for a candidate, that candidate exists.
    pub open spec fn wf(self) -> bool {
        match self.stage {
            StageView::Icons { candidates, next } => 0 <= next < candidates.len(),
            _ => true,
        }
    }

    /// The run moved to the given stage.
    pub open spec fn at(self, stage: StageView) -> EnrichmentView {
        EnrichmentView { stage, ..self }
    }

    /// The start of a run for an address, given what parsing the address
    /// gave: a run for an address without an origin ends at once, any other
    /// asks for the icon at the origin's well-known place.
    pub open spec fn begin_with(url: Seq<char>, parts: Option<UrlPartsView>) -> (
        EnrichmentView,
        Seq<EffectView>,
    ) {
        let origin = match parts {
            Some(p) => parts_origin(p),
            None => None,
        };
        match origin {
            Some(o) => (
                EnrichmentView {
                    url,
                    origin: o,
                    favicon_url: favicon_place(o),
                    stage: StageView::Favicon,
                },
                seq![EffectView::FetchBytes(favicon_place(o))],
            ),
            None => (
                EnrichmentView {
                    url,
                    origin: Seq::empty(),
                    favicon_url: Seq::empty(),
                    stage: StageView::Done,
                },
                Seq::empty(),
            ),
        }
    }

    /// The start of a run for an address.
    pub open spec fn begin(url: Seq<char>) -> (EnrichmentView, Seq<EffectView>) {
        Self::begin_with(url, parsed_url(url))
    }

    /// The run turns to a list of candidates: it asks for the first, or
    /// ends where there is none.
    pub open spec fn turn_to(self, candidates: Seq<CandidateView>) -> (
        EnrichmentView,
        Seq<EffectView>,
    ) {
        if candidates.len() > 0 {
            (
                self.at(StageView::Icons { candidates, next: 0 }),
                seq![EffectView::FetchBytes(candidates[0].url)],
            )
        } else {
            (self.at(StageView::Done), Seq::empty())
        }
    }

    /// What is done with an icon that arrived at the time `now`: it is
    /// stored under that time, with what belongs beside it, and handed to
    /// the surface.
    pub open spec fn keep_icon(
        self,
        c: CandidateView,
        body: Seq<u8>,
        content_type: Option<Seq<char>>,
        now: Option<i64>,
    ) -> Seq<EffectView> {
        seq![
            EffectView::SaveIcon {
                origin: self.origin,
                site_name: c.site_name,
                manifest_url: c.manifest_url,
                src_url: c.url,
                mime: if c.keep_mime {
                    content_type
                } else {
                    None
                },
                data: body,
                fetched_at: now,
            },
            EffectView::PostFavicon(body),
        ]
    }

    /// The step on the outcome of a fetch for bytes that ended at the time
    /// `now`; `None` stands for a fetch that failed.
    ///
    /// An icon that arrived is kept and ends the run. Where the icon at the
    /// well-known place did not arrive, the run asks for the page; where a
    /// candidate did not, it asks for the next one, or ends after the last.
    pub open spec fn on_bytes(
        self,
        got: Option<(Seq<u8>, Option<Seq<char>>)>,
        now: Option<i64>,
    ) -> (EnrichmentView, Seq<EffectView>) {
        match self.stage {
            StageView::Favicon => match got {
                Some((body, _)) => (
                    self.at(StageView::Done),
                    self.keep_icon(
                        CandidateView {
                            url: self.favicon_url,
                            site_name: None,
                            manifest_url: None,
                            keep_mime: false,
                        },
                        body,
                        None,
                        now,
                    ),
                ),
                None => (self.at(StageView::Page), seq![EffectView::FetchText(self.url)]),
            },
            StageView::Icons { candidates, next } => match got {
                Some((body, content_type)) => (
                    self.at(StageView::Done),
                    self.keep_icon(candidates[next], body, content_type, now),
                ),
                None => if next + 1 < candidates.len() {
                    (
                        self.at(StageView::Icons { candidates, next: next + 1 }),
                        seq![EffectView::FetchBytes(candidates[next + 1].url)],
                    )
                } else {
                    (self.at(StageView::Done), Seq::empty())
                },
            },
            _ => (self, Seq::empty()),
        }
    }

    /// The step on the links of the page; `None` stands for a page that did
    /// not arrive, which ends the run.
    ///
    /// Where the page names a manifest, the run asks for it and keeps the
    /// icons that the page links to for later. Otherwise it turns to those
    /// icons at once.
    pub open spec fn on_page(self, links: Option<Seq<PageLinkView>>) -> (
        EnrichmentView,
        Seq<EffectView>,
    ) {
        match self.stage {
            StageView::Page => match links {
                Some(ls) => match manifest_target(ls) {
                    Some(m) => (
                        self.at(StageView::Manifest { manifest_url: m, fallback: icon_targets(ls) }),
                        seq![EffectView::FetchText(m)],
                    ),
                    None => self.turn_to(icon_targets(ls).map_values(linked_candidate())),
                },
                None => (self.at(StageView::Done), Seq::empty()),
            },
            _ => (self, Seq::empty()),
        }
    }

    /// The step on the manifest that arrived at the time `now`; `None`
    /// stands for a manifest that did not arrive or is no valid document.
    ///
    /// A manifest that arrived has the site's name and its own address
    /// stored; the run then turns to the icons that it lists, followed by
    /// those that the page links to. Without a manifest only the latter are
    /// left.
    pub open spec fn on_manifest(self, manifest: Option<SiteManifestView>, now: Option<i64>) -> (
        EnrichmentView,
        Seq<EffectView>,
    ) {
        match self.stage {
            StageView::Manifest { manifest_url, fallback } => match manifest {
                Some(m) => {
                    let listed = m.icons.map_values(listed_candidate(m.name, manifest_url));
                    let (next, ask) = self.turn_to(listed + fallback.map_values(linked_candidate()));
                    (
                        next,
                        seq![
                            EffectView::SaveSite {
                                origin: self.origin,
                                site_name: m.name,
                                manifest_url: Some(manifest_url),
                                fetched_at: now,
                            },
                        ] + ask,
                    )
                },
                None => self.turn_to(fallback.map_values(linked_candidate())),
            },
            _ => (self, Seq::empty()),
        }
    }

    /// The step on the outcome of the fetch that the run waits for, which
    /// ended at the time `now`. An outcome of another kind than was asked
    /// for counts as a failure.
    pub open spec fn advance(self, outcome: FetchOutcomeView, now: Option<i64>) -> (
        EnrichmentView,
        Seq<EffectView>,
    ) {
        match self.stage {
            StageView::Favicon | StageView::Icons { .. } => self.on_bytes(
                match outcome {
                    FetchOutcomeView::Bytes { body, content_type } => Some((body, content_type)),
                    _ => None,
                },
                now,
            ),
            StageView::Page => self.on_page(
                match outcome {
                    FetchOutcomeView::Text(html) => Some(page_links(self.url, html)),
                    _ => None,
                },
            ),
            StageView::Manifest { .. } => self.on_manifest(
                match outcome {
                    FetchOutcomeView::Text(text) => page_manifest(self.url, text),
                    _ => None,
                },
                now,
            ),
            StageView::Done => (self, Seq::empty()),
        }
    }

    /// How far the run is from its end: the rank of its stage and, among
    /// candidates, how many are left.
    pub open spec fn distance(self) -> (nat, nat) {
        match self.stage {
            StageView::Favicon => (4, 0),
            StageView::Page => (3, 0),
            StageView::Manifest { .. } => (2, 0),
            StageView::Icons { candidates, next } => (1, (candidates.len() - next) as nat),
            StageView::Done => (0, 0),
        }
    }
}


/// Where a run stands: what it waits for.
#[derive(Debug, Clone)]
pub enum Stage {
    /// For the icon at the origin's well-known place.
    Favicon,
    /// For the page itself.
    Page,
    /// For the page's manifest; `fallback` holds the icons that the page
    /// links to.
    Manifest { manifest_url: String, fallback: Vec<String> },
    /// For candidate `next` of `candidates`.
    Icons { candidates: Vec<Candidate>, next: usize },
    /// For nothing: the run has ended.
    Done,
}

impl View for Stage {
    type V = StageView;

    open spec fn view(&self) -> StageView {
        match *self {
            Stage::Favicon => StageView::Favicon,
            Stage::Page => StageView::Page,
            Stage::Manifest { manifest_url, fallback } => StageView::Manifest {
                manifest_url: manifest_url@,
                fallback: texts_view(fallback@),
            },
            Stage::Icons { candidates, next } => StageView::Icons {
                candidates: candidates_view(candidates@),
                next: next as int,
            },
            Stage::Done => StageView::Done,
        }
    }
}

/// A run of the enrichment pipeline for one navigation.
pub struct Enrichment {
    url: String,
    origin: String,
    favicon_url: String,
    stage: Stage,
}

impl View for Enrichment {
    type V = EnrichmentView;

    closed spec fn view(&self) -> EnrichmentView {
        EnrichmentView {
            url: self.url@,
            origin: self.origin@,
            favicon_url: self.favicon_url@,
            stage: self.stage@,
        }
    }
}

/// Drops the slashes at the end of a text.
pub fn strip_slashes(s: &str) -> (r: String)
    ensures
        r@ == without_trailing_slashes(s@),
{
    let mut end: usize = s.unicode_len();
    proof {
        assert(s@.subrange(0, end as int) =~= s@);
    }
    while end > 0 && s.get_char(end - 1) == '/'
        invariant
            end <= s@.len(),
            without_trailing_slashes(s@) == without_trailing_slashes(s@.subrange(0, end as int)),
        decreases end,
    {
        proof {
            let cut = s@.subrange(0, end as int);
            assert(cut.last() == s@[end - 1]);
            assert(cut.drop_last() =~= s@.subrange(0, end - 1));
        }
        end = end - 1;
    }
    proof {
        let cut = s@.subrange(0, end as int);
        if end > 0 {
            assert(cut.last() == s@[end - 1]);
        }
    }
    s.substring_char(0, end).to_string()
}

/// Makes candidates of the icons that a page links to.
fn linked(urls: &Vec<String>) -> (r: Vec<Candidate>)
    ensures
        candidates_view(r@) == texts_view(urls@).map_values(linked_candidate()),
{
    let mut r: Vec<Candidate> = Vec::new();
    let mut i: usize = 0;
    while i < urls.len()
        invariant
            i <= urls.len(),
            r.len() == i,
            forall|k: int| 0 <= k < i ==> (#[trigger] r[k])@ == linked_candidate()(urls[k]@),
        decreases urls.len() - i,
    {
        r.push(Candidate { url: urls[i].clone(), site_name: None, manifest_url: None, keep_mime: false });
        i = i + 1;
    }
    proof {
        assert(candidates_view(r@) =~= texts_view(urls@).map_values(linked_candidate()));
    }
    r
}

/// Makes candidates of the icons that a manifest lists.
fn listed(urls: &Vec<String>, name: &Option<String>, manifest_url: &str) -> (r: Vec<Candidate>)
    ensures
        candidates_view(r@) == texts_view(urls@).map_values(
            listed_candidate(opt_text(*name), manifest_url@),
        ),
{
    let mut r: Vec<Candidate> = Vec::new();
    let mut i: usize = 0;
    while i < urls.len()
        invariant
            i <= urls.len(),
            r.len() == i,
            forall|k: int|
                0 <= k < i ==> (#[trigger] r[k])@ == listed_candidate(
                    opt_text(*name),
                    manifest_url@,
                )(urls[k]@),
        decreases urls.len() - i,
    {
        r.push(
            Candidate {
                url: urls[i].clone(),
                site_name: copy_text(name),
                manifest_url: Some(manifest_url.to_string()),
                keep_mime: true,
            },
        );
        i = i + 1;
    }
    proof {
        assert(candidates_view(r@) =~= texts_view(urls@).map_values(
            listed_candidate(opt_text(*name), manifest_url@),
        ));
    }
    r
}

impl Enrichment {
    #[verifier::type_invariant]
    spec fn inv(self) -> bool {
        self@.wf()
    }

    /// Whether the run has ended.
    pub fn is_done(&self) -> (r: bool)
        ensures
            r == (self@.stage is Done),
    {
        match self.stage {
            Stage::Done => true,
            _ => false,
        }
    }

    /// The address that the run is for.
    pub fn url(&self) -> (r: &str)
        ensures
            r@ == self@.url,
    {
        self.url.as_str()
    }

    /// The origin that the run stores its findings under.
    pub fn origin(&self) -> (r: &str)
        ensures
            r@ == self@.origin,
    {
        self.origin.as_str()
    }

    /// Starts a run for an address, given what parsing the address gave.
    pub fn begin_with(url: &str, parts: Option<UrlParts>) -> (r: (Enrichment, Vec<Effect>))
        ensures
            r.0@.wf(),
            r.0@ == EnrichmentView::begin_with(url@, opt_parts(parts)).0,
            effects_view(r.1@) == EnrichmentView::begin_with(url@, opt_parts(parts)).1,
    {
        let origin = match &parts {
            Some(p) => origin_from_parts(p),
            None => None,
        };
        let mut effects: Vec<Effect> = Vec::new();
        match origin {
            Some(o) => {
                let place = concat(strip_slashes(o.as_str()).as_str(), "/favicon.ico");
                effects.push(Effect::FetchBytes(place.clone()));
                let run = Enrichment {
                    url: url.to_string(),
                    origin: o,
                    favicon_url: place,
                    stage: Stage::Favicon,
                };
                proof {
                    assert(effects_view(effects@) =~= seq![EffectView::FetchBytes(place@)]);
                }
                (run, effects)
            },
            None => {
                let run = Enrichment {
                    url: url.to_string(),
                    origin: String::new(),
                    favicon_url: String::new(),
                    stage: Stage::Done,
                };
                proof {
                    assert(effects_view(effects@) =~= Seq::<EffectView>::empty());
                }
                (run, effects)
            },
        }
    }

    /// Starts a run for the address that was navigated to.
    pub fn begin(url: &str) -> (r: (Enrichment, Vec<Effect>))
        ensures
            r.0@.wf(),
            r.0@ == EnrichmentView::begin(url@).0,
            effects_view(r.1@) == EnrichmentView::begin(url@).1,
    {
        let parts = parse_url(url);
        Self::begin_with(url, parts)
    }

    /// Turns the run to a list of candidates.
    fn turn_to(self, candidates: Vec<Candidate>) -> (r: (Enrichment, Vec<Effect>))
        ensures
            r.0@.wf(),
            r.0@ == self@.turn_to(candidates_view(candidates@)).0,
            effects_view(r.1@) == self@.turn_to(candidates_view(candidates@)).1,
    {
        let Enrichment { url, origin, favicon_url, stage } = self;
        let mut effects: Vec<Effect> = Vec::new();
        if candidates.len() > 0 {
            effects.push(Effect::FetchBytes(candidates[0].url.clone()));
            proof {
                assert(effects_view(effects@) =~= seq![
                    EffectView::FetchBytes(candidates_view(candidates@)[0].url),
                ]);
            }
            (
                Enrichment { url, origin, favicon_url, stage: Stage::Icons { candidates, next: 0 } },
                effects,
            )
        } else {
            proof {
                assert(effects_view(effects@) =~= Seq::<EffectView>::empty());
            }
            (Enrichment { url, origin, favicon_url, stage: Stage::Done }, effects)
        }
    }

    /// Says what is done with an icon that arrived.
    fn keep_icon(
        origin: &str,
        now: Option<i64>,
        c: &Candidate,
        body: Vec<u8>,
        content_type: Option<String>,
    ) -> (effects: Vec<Effect>)
        ensures
            forall|run: EnrichmentView|
                run.origin == origin@ ==> effects_view(effects@) == #[trigger] run.keep_icon(
                    c@,
                    body@,
                    opt_text(content_type),
                    now,
                ),
    {
        let mut effects: Vec<Effect> = Vec::new();
        let data = copy_bytes(&body);
        let mime = if c.keep_mime {
            content_type
        } else {
            None
        };
        effects.push(
            Effect::SaveIcon {
                origin: origin.to_string(),
                site_name: copy_text(&c.site_name),
                manifest_url: copy_text(&c.manifest_url),
                src_url: c.url.clone(),
                mime,
                data,
                fetched_at: now,
            },
        );
        effects.push(Effect::PostFavicon(body));
        proof {
            assert forall|run: EnrichmentView| run.origin == origin@ implies effects_view(effects@)
                == #[trigger] run.keep_icon(c@, body@, opt_text(content_type), now) by {
                assert(effects_view(effects@) =~= run.keep_icon(
                    c@,
                    body@,
                    opt_text(content_type),
                    now,
                ));
            }
        }
        effects
    }

    /// Takes the step on the outcome of a fetch for bytes that ended at the
    /// time `now`; `None` stands for a fetch that failed.
    pub fn on_bytes(self, got: Option<(Vec<u8>, Option<String>)>, now: Option<i64>) -> (r: (
        Enrichment,
        Vec<Effect>,
    ))
        ensures
            r.0@.wf(),
            r.0@ == self@.on_bytes(opt_body(got), now).0,
            effects_view(r.1@) == self@.on_bytes(opt_body(got), now).1,
    {
        proof {
            use_type_invariant(&self);
        }
        let ghost before = self@;
        let Enrichment { url, origin, favicon_url, stage } = self;
        assert(before.stage == stage@);
        match stage {
            Stage::Favicon => match got {
                Some((body, _)) => {
                    let c = Candidate {
                        url: favicon_url.clone(),
                        site_name: None,
                        manifest_url: None,
                        keep_mime: false,
                    };
                    let effects = Self::keep_icon(origin.as_str(), now, &c, body, None);
                    proof {
                        assert(effects_view(effects@) == before.keep_icon(c@, body@, None, now));
                    }
                    (Enrichment { url, origin, favicon_url, stage: Stage::Done }, effects)
                },
                None => {
                    let mut effects: Vec<Effect> = Vec::new();
                    effects.push(Effect::FetchText(url.clone()));
                    proof {
                        assert(effects_view(effects@) =~= seq![EffectView::FetchText(url@)]);
                    }
                    (Enrichment { url, origin, favicon_url, stage: Stage::Page }, effects)
                },
            },
            Stage::Icons { candidates, next } => match got {
                Some((body, content_type)) => {
                    assert(next < candidates.len());
                    let effects = Self::keep_icon(
                        origin.as_str(),
                        now,
                        &candidates[next],
                        body,
                        content_type,
                    );
                    proof {
                        assert(effects_view(effects@) == before.keep_icon(
                            candidates[next as int]@,
                            body@,
                            opt_text(content_type),
                            now,
                        ));
                    }
                    (Enrichment { url, origin, favicon_url, stage: Stage::Done }, effects)
                },
                None => {
                    assert(next < candidates.len());
                    let mut effects: Vec<Effect> = Vec::new();
                    if next + 1 < candidates.len() {
                        effects.push(Effect::FetchBytes(candidates[next + 1].url.clone()));
                        proof {
                            assert(effects_view(effects@) =~= seq![
                                EffectView::FetchBytes(candidates_view(candidates@)[next + 1].url),
                            ]);
                        }
                        (
                            Enrichment {
                                url,
                                origin,
                                favicon_url,
                                stage: Stage::Icons { candidates, next: next + 1 },
                            },
                            effects,
                        )
                    } else {
                        proof {
                            assert(effects_view(effects@) =~= Seq::<EffectView>::empty());
                        }
                        (Enrichment { url, origin, favicon_url, stage: Stage::Done }, effects)
                    }
                },
            },
            other => {
                let effects: Vec<Effect> = Vec::new();
                proof {
                    assert(effects_view(effects@) =~= Seq::<EffectView>::empty());
                }
                (Enrichment { url, origin, favicon_url, stage: other }, effects)
            },
        }
    }

    /// Takes the step on the links of the page; `None` stands for a page
    /// that did not arrive.
    pub fn on_page(self, links: Option<Vec<PageLink>>) -> (r: (Enrichment, Vec<Effect>))
        ensures
            r.0@.wf(),
            r.0@ == self@.on_page(opt_links(links)).0,
            effects_view(r.1@) == self@.on_page(opt_links(links)).1,
    {
        proof {
            use_type_invariant(&self);
        }
        match &self.stage {
            Stage::Page => {},
            _ => {
                let effects: Vec<Effect> = Vec::new();
                proof {
                    assert(effects_view(effects@) =~= Seq::<EffectView>::empty());
                }
                return (self, effects);
            },
        }
        match links {
            Some(ls) => {
                let fallback = find_icons(&ls);
                match find_manifest(&ls) {
                    Some(m) => {
                        let Enrichment { url, origin, favicon_url, stage } = self;
                        let mut effects: Vec<Effect> = Vec::new();
                        effects.push(Effect::FetchText(m.clone()));
                        proof {
                            assert(effects_view(effects@) =~= seq![EffectView::FetchText(m@)]);
                        }
                        (
                            Enrichment {
                                url,
                                origin,
                                favicon_url,
                                stage: Stage::Manifest { manifest_url: m, fallback },
                            },
                            effects,
                        )
                    },
                    None => {
                        let candidates = linked(&fallback);
                        self.turn_to(candidates)
                    },
                }
            },
            None => {
                let Enrichment { url, origin, favicon_url, stage } = self;
                let effects: Vec<Effect> = Vec::new();
                proof {
                    assert(effects_view(effects@) =~= Seq::<EffectView>::empty());
                }
                (Enrichment { url, origin, favicon_url, stage: Stage::Done }, effects)
            },
        }
    }

    /// Takes the step on the manifest that arrived at the time `now`;
    /// `None` stands for a manifest that did not arrive or is no valid
    /// document.
    pub fn on_manifest(self, manifest: Option<SiteManifest>, now: Option<i64>) -> (r: (
        Enrichment,
        Vec<Effect>,
    ))
        ensures
            r.0@.wf(),
            r.0@ == self@.on_manifest(opt_manifest(manifest), now).0,
            effects_view(r.1@) == self@.on_manifest(opt_manifest(manifest), now).1,
    {
        proof {
            use_type_invariant(&self);
        }
        let ghost before = self@;
        let (mut candidates, mut effects) = match &self.stage {
            Stage::Manifest { manifest_url, fallback } => {
                let mut effects: Vec<Effect> = Vec::new();
                match &manifest {
                    Some(m) => {
                        effects.push(
                            Effect::SaveSite {
                                origin: self.origin.clone(),
                                site_name: copy_text(&m.name),
                                manifest_url: Some(manifest_url.clone()),
                                fetched_at: now,
                            },
                        );
                        let mut candidates = listed(&m.icons, &m.name, manifest_url.as_str());
                        let mut rest = linked(fallback);
                        candidates.append(&mut rest);
                        proof {
                            assert(candidates_view(candidates@) =~= m@.icons.map_values(
                                listed_candidate(m@.name, manifest_url@),
                            ) + texts_view(fallback@).map_values(linked_candidate()));
                        }
                        (candidates, effects)
                    },
                    None => (linked(fallback), effects),
                }
            },
            _ => {
                let effects: Vec<Effect> = Vec::new();
                proof {
                    assert(effects_view(effects@) =~= Seq::<EffectView>::empty());
                }
                return (self, effects);
            },
        };
        let ghost saved = effects_view(effects@);
        let (next, mut ask) = self.turn_to(candidates);
        let ghost asked = effects_view(ask@);
        effects.append(&mut ask);
        proof {
            assert(effects_view(effects@) =~= saved + asked);
            if manifest is Some {
                assert(saved =~= seq![
                    EffectView::SaveSite {
                        origin: before.origin,
                        site_name: manifest->0@.name,
                        manifest_url: Some(before.stage->manifest_url),
                        fetched_at: now,
                    },
                ]);
            } else {
                assert(saved =~= Seq::<EffectView>::empty());
                assert(saved + asked =~= asked);
            }
        }
        (next, effects)
    }

    /// Takes the step on the outcome of the fetch that the run waits for,
    /// which ended at the time `now`.
    pub fn advance(self, outcome: FetchOutcome, now: Option<i64>) -> (r: (Enrichment, Vec<Effect>))
        ensures
            r.0@.wf(),
            r.0@ == self@.advance(outcome@, now).0,
            effects_view(r.1@) == self@.advance(outcome@, now).1,
    {
        proof {
            use_type_invariant(&self);
        }
        match &self.stage {
            Stage::Favicon | Stage::Icons { .. } => {
                let got = match outcome {
                    FetchOutcome::Bytes { body, content_type } => Some((body, content_type)),
                    _ => None,
                };
                self.on_bytes(got, now)
            },
            Stage::Page => {
                let links = match &outcome {
                    FetchOutcome::Text(html) => Some(scan_links(self.url.as_str(), html.as_str())),
                    _ => None,
                };
                self.on_page(links)
            },
            Stage::Manifest { .. } => {
                let manifest = match &outcome {
                    FetchOutcome::Text(text) => scan_manifest(self.url.as_str(), text.as_str()),
                    _ => None,
                };
                self.on_manifest(manifest, now)
            },
            Stage::Done => {
                let effects: Vec<Effect> = Vec::new();
                proof {
                    assert(effects_view(effects@) =~= Seq::<EffectView>::empty());
                }
                (self, effects)
            },
        }
    }
}

/// The model of what a fetch for bytes brought.
pub open spec fn opt_body(got: Option<(Vec<u8>, Option<String>)>) -> Option<
    (Seq<u8>, Option<Seq<char>>),
> {
    match got {
        Some((body, content_type)) => Some((body@, opt_text(content_type))),
        None => None,
    }
}

/// The model of the links that a page brought.
pub open spec fn opt_links(links: Option<Vec<PageLink>>) -> Option<Seq<PageLinkView>> {
    match links {
        Some(ls) => Some(links_view(ls@)),
        None => None,
    }
}


/// The store after the metadata of a site was saved, as far as the store
/// took it: a store that has no room for a new site stays as it is.
pub open spec fn saved_site(
    s: StoreView,
    origin: Seq<char>,
    site_name: Option<Seq<char>>,
    manifest_url: Option<Seq<char>>,
    fetched_at: Option<i64>,
) -> StoreView {
    if s.can_upsert_site(origin) {
        s.upsert_site(
            origin,
            SiteFields { site_name, description: None, manifest_url, metadata_fetched_at: fetched_at },
        )
    } else {
        s
    }
}

/// The store after an icon was saved under its site: the site's metadata is
/// written first, then the icon is appended under the site's identity, as
/// far as the store took either.
pub open spec fn saved_icon(
    s: StoreView,
    origin: Seq<char>,
    site_name: Option<Seq<char>>,
    manifest_url: Option<Seq<char>>,
    src_url: Seq<char>,
    mime: Option<Seq<char>>,
    data: Seq<u8>,
    fetched_at: Option<i64>,
) -> StoreView {
    let t = saved_site(s, origin, site_name, manifest_url, fetched_at);
    match t.site_by_origin(origin) {
        Some(site) => if t.icon_verdict(site.id) is Ok {
            t.insert_icon(
                IconFields {
                    site_id: site.id,
                    src_url,
                    width: None,
                    height: None,
                    mime,
                    data,
                    fetched_at,
                },
            )
        } else {
            t
        },
        None => t,
    }
}

/// The store after an effect of a run was carried out on it. Only the two
/// effects that save change the store.
pub open spec fn persisted(s: StoreView, e: EffectView) -> StoreView {
    match e {
        EffectView::SaveSite { origin, site_name, manifest_url, fetched_at } => saved_site(
            s,
            origin,
            site_name,
            manifest_url,
            fetched_at,
        ),
        EffectView::SaveIcon { origin, site_name, manifest_url, src_url, mime, data, fetched_at } =>
            saved_icon(s, origin, site_name, manifest_url, src_url, mime, data, fetched_at),
        _ => s,
    }
}

/// The request that saving an effect sends next, after `step` requests were
/// sent and the last of them was answered with `last` (`None` where it was
/// not answered at all); `None` once nothing is left to send.
///
/// Saving a site is one request. Saving an icon is three: the site is
/// written, then looked up, and the icon is inserted under the identity
/// that the lookup gave; without that identity the icon is dropped.
pub open spec fn save_step(e: EffectView, step: int, last: Option<DbReplyView>) -> Option<
    DbRequestView,
> {
    match e {
        EffectView::SaveSite { origin, site_name, manifest_url, fetched_at } => if step == 0 {
            Some(
                DbRequestView::UpsertSiteMeta {
                    origin,
                    site: SiteFields {
                        site_name,
                        description: None,
                        manifest_url,
                        metadata_fetched_at: fetched_at,
                    },
                },
            )
        } else {
            None
        },
        EffectView::SaveIcon { origin, site_name, manifest_url, src_url, mime, data, fetched_at } =>
            if step == 0 {
            Some(
                DbRequestView::UpsertSiteMeta {
                    origin,
                    site: SiteFields {
                        site_name,
                        description: None,
                        manifest_url,
                        metadata_fetched_at: fetched_at,
                    },
                },
            )
        } else if step == 1 {
            Some(DbRequestView::GetSiteMetaByOrigin { origin })
        } else if step == 2 {
            match last {
                Some(DbReplyView::Site(Some(site))) => Some(
                    DbRequestView::InsertIcon {
                        icon: IconFields {
                            site_id: site.id,
                            src_url,
                            width: None,
                            height: None,
                            mime,
                            data,
                            fetched_at,
                        },
                    },
                ),
                _ => None,
            }
        } else {
            None
        },
        _ => None,
    }
}

/// How many requests saving an effect takes at most.
pub const SAVE_STEPS: u8 = 3;

/// Says which request saving an effect sends next.
pub fn save_request(effect: &Effect, step: u8, last: &Option<DbReply>) -> (req: Option<DbRequest>)
    ensures
        opt_request(req) == save_step(effect@, step as int, opt_reply(*last)),
{
    match effect {
        Effect::SaveSite { origin, site_name, manifest_url, fetched_at } => {
            if step == 0 {
                Some(
                    DbRequest::UpsertSiteMeta {
                        origin: origin.clone(),
                        site_name: copy_text(site_name),
                        description: None,
                        manifest_url: copy_text(manifest_url),
                        metadata_fetched_at: *fetched_at,
                    },
                )
            } else {
                None
            }
        },
        Effect::SaveIcon { origin, site_name, manifest_url, src_url, mime, data, fetched_at } => {
            if step == 0 {
                Some(
                    DbRequest::UpsertSiteMeta {
                        origin: origin.clone(),
                        site_name: copy_text(site_name),
                        description: None,
                        manifest_url: copy_text(manifest_url),
                        metadata_fetched_at: *fetched_at,
                    },
                )
            } else if step == 1 {
                Some(DbRequest::GetSiteMetaByOrigin { origin: origin.clone() })
            } else if step == 2 {
                match last {
                    Some(DbReply::Site(Some(site))) => Some(
                        DbRequest::InsertIcon {
                            site_id: site.id,
                            src_url: src_url.clone(),
                            width: None,
                            height: None,
                            mime: copy_text(mime),
                            data: copy_bytes(data),
                            fetched_at: *fetched_at,
                        },
                    ),
                    _ => None,
                }
            } else {
                None
            }
        },
        _ => None,
    }
}

/// Carries out on the store what an effect of a run asks of it: sends the
/// requests that saving takes, one after the other. The run's findings are
/// advisory: what the store refuses is dropped, and a store whose actor is
/// gone is left alone.
pub fn persist(db: &mut DbHandle, effect: &Effect)
    ensures
        final(db)@ == match old(db)@ {
            Some(s) => Some(persisted(s, effect@)),
            None => None,
        },
{
    let mut last: Option<DbReply> = None;
    let mut step: u8 = 0;
    while step < SAVE_STEPS
        invariant
            step <= SAVE_STEPS,
            match old(db)@ {
                None => db@ is None && last is None,
                Some(s) => db@ is Some && ({
                    let t = db@->0;
                    match effect@ {
                        EffectView::SaveSite { origin, site_name, manifest_url, fetched_at } =>
                            if step == 0 {
                            t == s
                        } else {
                            t == persisted(s, effect@)
                        },
                        EffectView::SaveIcon {
                            origin,
                            site_name,
                            manifest_url,
                            src_url,
                            mime,
                            data,
                            fetched_at,
                        } => {
                            let u = saved_site(s, origin, site_name, manifest_url, fetched_at);
                            if step == 0 {
                                t == s
                            } else if step == 1 {
                                t == u
                            } else if step == 2 {
                                t == u && opt_reply(last) == Some(
                                    DbReplyView::Site(u.site_by_origin(origin)),
                                )
                            } else {
                                t == persisted(s, effect@)
                            }
                        },
                        _ => t == s,
                    }
                }),
            },
        decreases SAVE_STEPS - step,
    {
        match save_request(effect, step, &last) {
            Some(req) => {
                last = match db.call(req) {
                    Ok(reply) => Some(reply),
                    Err(_) => None,
                };
            },
            None => {
                last = None;
            },
        }
        step = step + 1;
    }
}

/// Carries out an effect of a run on the store behind the process-wide
/// handle; while none is installed, nothing is stored.
pub fn persist_global(slot: &mut GlobalDb, effect: &Effect)
    ensures
        final(slot)@ == match old(slot)@ {
            Some(Some(s)) => Some(Some(persisted(s, effect@))),
            other => other,
        },
{
    match get_global(slot) {
        Some(db) => persist(db, effect),
        None => {},
    }
}


/// The effect asks the driver for a fetch.
pub open spec fn is_fetch(e: EffectView) -> bool {
    e is FetchBytes || e is FetchText
}

/// One distance is shorter than another.
pub open spec fn shorter(a: (nat, nat), b: (nat, nat)) -> bool {
    a.0 < b.0 || (a.0 == b.0 && a.1 < b.1)
}

/// Every step brings a run nearer to its end, whatever the fetch came to:
/// so a run ends after finitely many fetches, and none is repeated.
pub proof fn law_run_makes_progress(
    run: EnrichmentView,
    outcome: FetchOutcomeView,
    now: Option<i64>,
)
    requires
        run.wf(),
        !(run.stage is Done),
    ensures
        run.advance(outcome, now).0.wf(),
        shorter(run.advance(outcome, now).0.distance(), run.distance()),
{
}

/// A run that has ended stays ended and asks for nothing more.
pub proof fn law_ended_run_is_silent(
    run: EnrichmentView,
    outcome: FetchOutcomeView,
    now: Option<i64>,
)
    requires
        run.stage is Done,
    ensures
        run.advance(outcome, now).0 == run,
        run.advance(outcome, now).1.len() == 0,
{
}

/// What a step asks of the driver: at most one fetch, and that as the last
/// thing; a step that asks for no fetch has ended the run. An icon is
/// handed to the surface only as the last thing of a step, right after the
/// same bytes were given to the store, and that step ends the run: so a run
/// posts at most one icon.
pub proof fn law_step_effects(run: EnrichmentView, outcome: FetchOutcomeView, now: Option<i64>)
    requires
        run.wf(),
    ensures
        ({
            let (next, effects) = run.advance(outcome, now);
            &&& forall|i: int|
                0 <= i < effects.len() && is_fetch(#[trigger] effects[i]) ==> i == effects.len() - 1
            &&& (effects.len() == 0 || !is_fetch(effects.last())) ==> next.stage is Done
            &&& forall|i: int|
                0 <= i < effects.len() && (#[trigger] effects[i]) is PostFavicon ==> {
                    &&& i == effects.len() - 1
                    &&& i >= 1
                    &&& effects[i - 1] matches EffectView::SaveIcon { data, origin, fetched_at, .. }
                    &&& data == effects[i]->PostFavicon_0
                    &&& origin == run.origin
                    &&& fetched_at == now
                    &&& next.stage is Done
                }
        }),
{
    let (next, effects) = run.advance(outcome, now);
    match run.stage {
        StageView::Manifest { manifest_url, fallback } => {
            let manifest = match outcome {
                FetchOutcomeView::Text(text) => page_manifest(run.url, text),
                _ => None,
            };
            match manifest {
                Some(m) => {
                    let listed = m.icons.map_values(listed_candidate(m.name, manifest_url));
                    let all = listed + fallback.map_values(linked_candidate());
                    let (after, ask) = run.turn_to(all);
                    assert(effects.len() == 1 + ask.len());
                    assert(effects[0] is SaveSite);
                    if ask.len() > 0 {
                        assert(effects[1] == ask[0]);
                    }
                },
                None => {},
            }
        },
        _ => {},
    }
}

/// Where the icon at the origin's well-known place arrives, the run keeps
/// it and looks no further: no page and no manifest is fetched.
pub proof fn law_wellknown_icon_ends_run(
    run: EnrichmentView,
    body: Seq<u8>,
    mime: Option<Seq<char>>,
    now: Option<i64>,
)
    requires
        run.stage is Favicon,
    ensures
        ({
            let (next, effects) = run.advance(
                FetchOutcomeView::Bytes { body, content_type: mime },
                now,
            );
            &&& next.stage is Done
            &&& effects == seq![
                EffectView::SaveIcon {
                    origin: run.origin,
                    site_name: None,
                    manifest_url: None,
                    src_url: run.favicon_url,
                    mime: None,
                    data: body,
                    fetched_at: now,
                },
                EffectView::PostFavicon(body),
            ]
        }),
{
}

} // verus!
