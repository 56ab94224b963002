//! The mathematical model of the store: the three tables as sequences of
//! rows, and what each operation makes of them.

use vstd::prelude::*;
use crate::db::StoreError;
use crate::weburl::url_origin;

verus! {

/// A saved address: one row of the `urls` table.
pub struct UrlEntryView {
    pub id: i64,
    pub label: Seq<char>,
    pub url: Seq<char>,
    pub timestamp: i64,
}

/// The metadata of one site: one row of the `site_meta` table.
pub struct SiteMetaView {
    pub id: i64,
    pub origin: Seq<char>,
    pub site_name: Option<Seq<char>>,
    pub description: Option<Seq<char>>,
    pub manifest_url: Option<Seq<char>>,
    pub metadata_fetched_at: Option<i64>,
}

/// One fetched icon: one row of the `icons` table.
pub struct IconView {
    pub id: i64,
    pub site_id: i64,
    pub src_url: Seq<char>,
    pub width: Option<i64>,
    pub height: Option<i64>,
    pub mime: Option<Seq<char>>,
    pub data: Seq<u8>,
    pub fetched_at: Option<i64>,
}

/// A saved address together with what is known of its site.
pub struct UrlRecordView {
    pub id: i64,
    pub label: Seq<char>,
    pub url: Seq<char>,
    pub timestamp: i64,
    pub site_name: Option<Seq<char>>,
    pub icon_mime: Option<Seq<char>>,
    pub icon_data: Option<Seq<u8>>,
}

/// The three tables.
pub struct StoreView {
    pub urls: Seq<UrlEntryView>,
    pub sites: Seq<SiteMetaView>,
    pub icons: Seq<IconView>,
}

/// The fields of a site's metadata that an upsert supplies.
pub struct SiteFields {
    pub site_name: Option<Seq<char>>,
    pub description: Option<Seq<char>>,
    pub manifest_url: Option<Seq<char>>,
    pub metadata_fetched_at: Option<i64>,
}

/// The fields of an icon that an insert supplies.
pub struct IconFields {
    pub site_id: i64,
    pub src_url: Seq<char>,
    pub width: Option<i64>,
    pub height: Option<i64>,
    pub mime: Option<Seq<char>>,
    pub data: Seq<u8>,
    pub fetched_at: Option<i64>,
}

/// A request to the store actor.
pub enum DbRequestView {
    Insert { label: Seq<char>, url: Seq<char>, timestamp: i64 },
    ListRecent { limit: i64 },
    Delete { id: i64 },
    GetById { id: i64 },
    UpsertSiteMeta { origin: Seq<char>, site: SiteFields },
    GetSiteMetaByOrigin { origin: Seq<char> },
    InsertIcon { icon: IconFields },
}

/// The store actor's answer to a request.
pub enum DbReplyView {
    Done,
    Records(Seq<UrlRecordView>),
    Record(Option<UrlRecordView>),
    Site(Option<SiteMetaView>),
    Failed(StoreError),
}

/// The identity given to the next row of a table whose newest row has
/// identity `last`: one more, starting at one.
pub open spec fn id_after(last: Option<i64>) -> int {
    match last {
        Some(id) => id + 1,
        None => 1,
    }
}

/// The identity of the newest row of `urls`.
pub open spec fn last_url_id(urls: Seq<UrlEntryView>) -> Option<i64> {
    if urls.len() == 0 {
        None
    } else {
        Some(urls.last().id)
    }
}

/// The identity of the newest row of `sites`.
pub open spec fn last_site_id(sites: Seq<SiteMetaView>) -> Option<i64> {
    if sites.len() == 0 {
        None
    } else {
        Some(sites.last().id)
    }
}

/// The identity of the newest row of `icons`.
pub open spec fn last_icon_id(icons: Seq<IconView>) -> Option<i64> {
    if icons.len() == 0 {
        None
    } else {
        Some(icons.last().id)
    }
}

/// `a` is listed before `b`: it is newer, or as new and saved earlier.
pub open spec fn listed_before(a: UrlEntryView, b: UrlEntryView) -> bool {
    a.timestamp > b.timestamp || (a.timestamp == b.timestamp && a.id < b.id)
}

/// How many entries a listing with the given limit holds.
pub open spec fn listing_len(total: nat, limit: int) -> nat {
    if limit <= 0 {
        0
    } else if limit < total {
        limit as nat
    } else {
        total
    }
}

/// `out` is the listing of the most recent entries of `urls`, at most
/// `limit` of them: entries of the table, newest first, and such that every
/// entry left out comes after every entry listed.
pub open spec fn is_listing(urls: Seq<UrlEntryView>, limit: int, out: Seq<UrlEntryView>) -> bool {
    &&& out.len() == listing_len(urls.len(), limit)
    &&& forall|i: int| 0 <= i < out.len() ==> urls.contains(#[trigger] out[i])
    &&& forall|i: int, j: int|
        0 <= i < j < out.len() ==> listed_before(#[trigger] out[i], #[trigger] out[j])
    &&& forall|i: int, k: int|
        0 <= i < out.len() && 0 <= k < urls.len() && !out.contains(urls[k]) ==> listed_before(
            #[trigger] out[i],
            #[trigger] urls[k],
        )
}

/// The saved address that a record was made from.
pub open spec fn entry_of(r: UrlRecordView) -> UrlEntryView {
    UrlEntryView { id: r.id, label: r.label, url: r.url, timestamp: r.timestamp }
}

/// Row `k` of `icons` is the current icon of site `site_id`: it belongs to
/// the site, has a fetch time, and no icon of the site has a later one; of
/// several fetched at that time it is the one inserted last.
pub open spec fn is_current_icon(icons: Seq<IconView>, site_id: i64, k: int) -> bool {
    &&& 0 <= k < icons.len()
    &&& icons[k].site_id == site_id
    &&& icons[k].fetched_at is Some
    &&& forall|j: int|
        0 <= j < icons.len() && (#[trigger] icons[j]).site_id == site_id && icons[j].fetched_at is Some
            ==> icons[j].fetched_at->0 < icons[k].fetched_at->0 || (icons[j].fetched_at->0
            == icons[k].fetched_at->0 && j <= k)
}

/// The current icon of a site, if any of its icons has a fetch time.
pub open spec fn current_icon(icons: Seq<IconView>, site_id: i64) -> Option<IconView> {
    if exists|k: int| is_current_icon(icons, site_id, k) {
        Some(icons[choose|k: int| is_current_icon(icons, site_id, k)])
    } else {
        None
    }
}

/// The position of the site with the given origin.
pub open spec fn site_index(sites: Seq<SiteMetaView>, origin: Seq<char>) -> Option<int> {
    if exists|i: int| 0 <= i < sites.len() && (#[trigger] sites[i]).origin == origin {
        Some(choose|i: int| 0 <= i < sites.len() && (#[trigger] sites[i]).origin == origin)
    } else {
        None
    }
}

/// Some site has the given identity.
pub open spec fn has_site(sites: Seq<SiteMetaView>, id: i64) -> bool {
    exists|i: int| 0 <= i < sites.len() && (#[trigger] sites[i]).id == id
}

/// The position of the saved address with the given identity.
pub open spec fn url_index(urls: Seq<UrlEntryView>, id: i64) -> Option<int> {
    if exists|i: int| 0 <= i < urls.len() && (#[trigger] urls[i]).id == id {
        Some(choose|i: int| 0 <= i < urls.len() && (#[trigger] urls[i]).id == id)
    } else {
        None
    }
}

/// The test that keeps the icons of one site.
pub open spec fn of_site(site_id: i64) -> spec_fn(IconView) -> bool {
    |i: IconView| i.site_id == site_id
}

/// The test that keeps every address but the one with the given identity.
pub open spec fn other_than(id: i64) -> spec_fn(UrlEntryView) -> bool {
    |e: UrlEntryView| e.id != id
}

/// Position `i` occurs in `order`.
pub open spec fn holds_position(order: Seq<usize>, i: int) -> bool {
    exists|p: int| 0 <= p < order.len() && #[trigger] order[p] == i
}

/// `order` ranks the first `k` rows of `urls`: it holds each of their
/// positions once, those of rows listed earlier first.
pub open spec fn ranks(urls: Seq<UrlEntryView>, k: int, order: Seq<usize>) -> bool {
    &&& order.len() == k
    &&& forall|p: int| 0 <= p < order.len() ==> (#[trigger] order[p]) < k
    &&& forall|i: int| 0 <= i < k ==> #[trigger] holds_position(order, i)
    &&& forall|p: int, q: int|
        0 <= p < q < order.len() ==> listed_before(
            urls[(#[trigger] order[p]) as int],
            urls[(#[trigger] order[q]) as int],
        )
}

impl StoreView {
    /// The store right after its tables were created.
    pub open spec fn empty() -> StoreView {
        StoreView { urls: Seq::empty(), sites: Seq::empty(), icons: Seq::empty() }
    }

    /// The invariant of the tables: identities grow with each row, no two
    /// sites share an origin, and every icon belongs to a site.
    pub open spec fn wf(self) -> bool {
        &&& forall|i: int, j: int|
            0 <= i < j < self.urls.len() ==> (#[trigger] self.urls[i]).id < (
            #[trigger] self.urls[j]).id
        &&& forall|i: int, j: int|
            0 <= i < j < self.sites.len() ==> (#[trigger] self.sites[i]).id < (
            #[trigger] self.sites[j]).id
        &&& forall|i: int, j: int|
            0 <= i < j < self.icons.len() ==> (#[trigger] self.icons[i]).id < (
            #[trigger] self.icons[j]).id
        &&& forall|i: int, j: int|
            0 <= i < j < self.sites.len() ==> (#[trigger] self.sites[i]).origin != (
            #[trigger] self.sites[j]).origin
        &&& forall|k: int|
            0 <= k < self.icons.len() ==> has_site(self.sites, (#[trigger] self.icons[k]).site_id)
    }

    /// The site with the given origin.
    pub open spec fn site_by_origin(self, origin: Seq<char>) -> Option<SiteMetaView> {
        match site_index(self.sites, origin) {
            Some(i) => Some(self.sites[i]),
            None => None,
        }
    }

    /// The site that a URL belongs to: the one stored under the URL's origin.
    pub open spec fn site_of_url(self, url: Seq<char>) -> Option<SiteMetaView> {
        match url_origin(url) {
            Some(origin) => self.site_by_origin(origin),
            None => None,
        }
    }

    /// A saved address joined with a site and its current icon.
    pub open spec fn joined(self, e: UrlEntryView, site: Option<SiteMetaView>) -> UrlRecordView {
        let icon = match site {
            Some(s) => current_icon(self.icons, s.id),
            None => None,
        };
        UrlRecordView {
            id: e.id,
            label: e.label,
            url: e.url,
            timestamp: e.timestamp,
            site_name: match site {
                Some(s) => s.site_name,
                None => None,
            },
            icon_mime: match icon {
                Some(ic) => ic.mime,
                None => None,
            },
            icon_data: match icon {
                Some(ic) => Some(ic.data),
                None => None,
            },
        }
    }

    /// A saved address in its enriched form: joined with the site of its
    /// URL's origin, where the store knows one.
    pub open spec fn enriched(self, e: UrlEntryView) -> UrlRecordView {
        self.joined(e, self.site_of_url(e.url))
    }

    /// `out` is what listing the most recent `limit` addresses returns.
    pub open spec fn lists(self, limit: int, out: Seq<UrlRecordView>) -> bool {
        &&& is_listing(self.urls, limit, out.map_values(|r: UrlRecordView| entry_of(r)))
        &&& forall|i: int| 0 <= i < out.len() ==> #[trigger] out[i] == self.enriched(entry_of(out[i]))
    }

    /// The enriched form of the address with the given identity.
    pub open spec fn record_by_id(self, id: i64) -> Option<UrlRecordView> {
        match url_index(self.urls, id) {
            Some(i) => Some(self.enriched(self.urls[i])),
            None => None,
        }
    }

    /// A new address can be saved: its table has an identity left.
    pub open spec fn can_insert_url(self) -> bool {
        id_after(last_url_id(self.urls)) <= i64::MAX
    }

    /// The store after saving a new address.
    pub open spec fn insert_url(self, label: Seq<char>, url: Seq<char>, timestamp: i64) -> StoreView {
        StoreView {
            urls: self.urls.push(
                UrlEntryView { id: id_after(last_url_id(self.urls)) as i64, label, url, timestamp },
            ),
            ..self
        }
    }

    /// The store after removing the address with the given identity.
    pub open spec fn delete(self, id: i64) -> StoreView {
        StoreView { urls: self.urls.filter(other_than(id)), ..self }
    }

    /// The metadata of `origin` can be written: the origin is known already,
    /// or the table has an identity left for it.
    pub open spec fn can_upsert_site(self, origin: Seq<char>) -> bool {
        site_index(self.sites, origin) is Some || id_after(last_site_id(self.sites)) <= i64::MAX
    }

    /// The store after writing the metadata of `origin`: the row of a known
    /// origin takes the new fields and keeps its identity, an unknown origin
    /// gets a new row.
    pub open spec fn upsert_site(self, origin: Seq<char>, f: SiteFields) -> StoreView {
        match site_index(self.sites, origin) {
            Some(i) => StoreView {
                sites: self.sites.update(
                    i,
                    SiteMetaView {
                        id: self.sites[i].id,
                        origin,
                        site_name: f.site_name,
                        description: f.description,
                        manifest_url: f.manifest_url,
                        metadata_fetched_at: f.metadata_fetched_at,
                    },
                ),
                ..self
            },
            None => StoreView {
                sites: self.sites.push(
                    SiteMetaView {
                        id: id_after(last_site_id(self.sites)) as i64,
                        origin,
                        site_name: f.site_name,
                        description: f.description,
                        manifest_url: f.manifest_url,
                        metadata_fetched_at: f.metadata_fetched_at,
                    },
                ),
                ..self
            },
        }
    }

    /// The icons of a site, in the order of their insertion.
    pub open spec fn icons_of(self, site_id: i64) -> Seq<IconView> {
        self.icons.filter(of_site(site_id))
    }

    /// Whether an icon of the given site can be appended, and why not: the
    /// site must be known, and the table must have an identity left.
    pub open spec fn icon_verdict(self, site_id: i64) -> Result<(), StoreError> {
        if !has_site(self.sites, site_id) {
            Err(StoreError::Constraint)
        } else if id_after(last_icon_id(self.icons)) > i64::MAX {
            Err(StoreError::Full)
        } else {
            Ok(())
        }
    }

    /// Whether the store carries out a request, and why not.
    pub open spec fn verdict(self, req: DbRequestView) -> Result<(), StoreError> {
        match req {
            DbRequestView::Insert { .. } => if self.can_insert_url() {
                Ok(())
            } else {
                Err(StoreError::Full)
            },
            DbRequestView::UpsertSiteMeta { origin, .. } => if self.can_upsert_site(origin) {
                Ok(())
            } else {
                Err(StoreError::Full)
            },
            DbRequestView::InsertIcon { icon } => self.icon_verdict(icon.site_id),
            _ => Ok(()),
        }
    }

    /// The store after appending an icon.
    pub open spec fn insert_icon(self, f: IconFields) -> StoreView {
        StoreView {
            icons: self.icons.push(
                IconView {
                    id: id_after(last_icon_id(self.icons)) as i64,
                    site_id: f.site_id,
                    src_url: f.src_url,
                    width: f.width,
                    height: f.height,
                    mime: f.mime,
                    data: f.data,
                    fetched_at: f.fetched_at,
                },
            ),
            ..self
        }
    }
}

/// Serving `req` on the store `pre` leaves the store `post` and answers
/// `reply`. A request is served whole or not at all: a failed one leaves the
/// store as it was.
pub open spec fn answers(pre: StoreView, req: DbRequestView, post: StoreView, reply: DbReplyView) -> bool {
    match req {
        DbRequestView::Insert { label, url, timestamp } => if pre.can_insert_url() {
            post == pre.insert_url(label, url, timestamp) && reply == DbReplyView::Done
        } else {
            post == pre && reply == DbReplyView::Failed(StoreError::Full)
        },
        DbRequestView::ListRecent { limit } => post == pre && match reply {
            DbReplyView::Records(out) => pre.lists(limit as int, out),
            _ => false,
        },
        DbRequestView::Delete { id } => post == pre.delete(id) && reply == DbReplyView::Done,
        DbRequestView::GetById { id } => post == pre && reply == DbReplyView::Record(
            pre.record_by_id(id),
        ),
        DbRequestView::UpsertSiteMeta { origin, site } => if pre.can_upsert_site(origin) {
            post == pre.upsert_site(origin, site) && reply == DbReplyView::Done
        } else {
            post == pre && reply == DbReplyView::Failed(StoreError::Full)
        },
        DbRequestView::GetSiteMetaByOrigin { origin } => post == pre && reply == DbReplyView::Site(
            pre.site_by_origin(origin),
        ),
        DbRequestView::InsertIcon { icon } => match pre.icon_verdict(icon.site_id) {
            Ok(_) => post == pre.insert_icon(icon) && reply == DbReplyView::Done,
            Err(e) => post == pre && reply == DbReplyView::Failed(e),
        },
    }
}

/// Serving the requests `reqs` one after the other, in the order of their
/// arrival, takes the store from `pre` to `post` and answers `replies`: one
/// reply to each request, each computed on the store as the requests before
/// it left it.
pub open spec fn serves(
    pre: StoreView,
    reqs: Seq<DbRequestView>,
    post: StoreView,
    replies: Seq<DbReplyView>,
) -> bool
    decreases reqs.len(),
{
    if reqs.len() == 0 {
        post == pre && replies.len() == 0
    } else {
        &&& replies.len() == reqs.len()
        &&& exists|mid: StoreView|
            serves(pre, reqs.drop_last(), mid, replies.drop_last()) && #[trigger] answers(
                mid,
                reqs.last(),
                post,
                replies.last(),
            )
    }
}

/// Saving an address keeps the tables' invariant.
pub proof fn lemma_insert_url_wf(s: StoreView, label: Seq<char>, url: Seq<char>, timestamp: i64)
    requires
        s.wf(),
        s.can_insert_url(),
    ensures
        s.insert_url(label, url, timestamp).wf(),
{
    let t = s.insert_url(label, url, timestamp);
    assert forall|i: int, j: int| 0 <= i < j < t.urls.len() implies (#[trigger] t.urls[i]).id < (
    #[trigger] t.urls[j]).id by {
        if j == s.urls.len() {
            assert(s.urls[i].id <= s.urls.last().id);
        }
    }
}

/// Removing an address keeps the tables' invariant.
pub proof fn lemma_delete_wf(s: StoreView, id: i64)
    requires
        s.wf(),
    ensures
        s.delete(id).wf(),
{
    lemma_filter_ascending(s.urls, other_than(id));
}

/// Where no address has the identity, removing it changes nothing.
pub proof fn lemma_delete_absent(urls: Seq<UrlEntryView>, id: i64)
    requires
        forall|i: int| 0 <= i < urls.len() ==> (#[trigger] urls[i]).id != id,
    ensures
        urls.filter(other_than(id)) == urls,
    decreases urls.len(),
{
    reveal(Seq::filter);
    if urls.len() > 0 {
        let rest = urls.drop_last();
        assert forall|i: int| 0 <= i < rest.len() implies (#[trigger] rest[i]).id != id by {
            assert(rest[i] == urls[i]);
        }
        lemma_delete_absent(rest, id);
        assert(urls.last() == urls[urls.len() - 1]);
        assert(rest.push(urls.last()) =~= urls);
    }
}

/// Where the address at position `k` has the identity, removing it takes
/// out that row and no other.
pub proof fn lemma_delete_found(urls: Seq<UrlEntryView>, id: i64, k: int)
    requires
        forall|i: int, j: int|
            0 <= i < j < urls.len() ==> (#[trigger] urls[i]).id < (#[trigger] urls[j]).id,
        0 <= k < urls.len(),
        urls[k].id == id,
    ensures
        urls.filter(other_than(id)) == urls.remove(k),
    decreases urls.len(),
{
    reveal(Seq::filter);
    let rest = urls.drop_last();
    assert(urls.last() == urls[urls.len() - 1]);
    if k == urls.len() - 1 {
        assert forall|i: int| 0 <= i < rest.len() implies (#[trigger] rest[i]).id != id by {
            assert(rest[i] == urls[i]);
            assert(urls[i].id < urls[k].id);
        }
        lemma_delete_absent(rest, id);
        assert(urls.remove(k) =~= rest);
    } else {
        assert forall|i: int, j: int| 0 <= i < j < rest.len() implies (#[trigger] rest[i]).id < (
        #[trigger] rest[j]).id by {
            assert(rest[i] == urls[i] && rest[j] == urls[j]);
        }
        assert(rest[k] == urls[k]);
        lemma_delete_found(rest, id, k);
        assert(urls[k].id < urls.last().id);
        assert(rest.remove(k).push(urls.last()) =~= urls.remove(k));
    }
}

/// A row of a filtered table sits at some position of the table, and rows
/// keep their order.
pub proof fn lemma_filter_ascending(urls: Seq<UrlEntryView>, keep: spec_fn(UrlEntryView) -> bool)
    requires
        forall|i: int, j: int|
            0 <= i < j < urls.len() ==> (#[trigger] urls[i]).id < (#[trigger] urls[j]).id,
    ensures
        forall|i: int, j: int|
            0 <= i < j < urls.filter(keep).len() ==> (#[trigger] urls.filter(keep)[i]).id < (
            #[trigger] urls.filter(keep)[j]).id,
        forall|i: int|
            0 <= i < urls.filter(keep).len() ==> urls.contains(#[trigger] urls.filter(keep)[i]),
        urls.len() > 0 ==> forall|i: int|
            0 <= i < urls.filter(keep).len() ==> (#[trigger] urls.filter(keep)[i]).id
                <= urls.last().id,
    decreases urls.len(),
{
    reveal(Seq::filter);
    if urls.len() > 0 {
        let rest = urls.drop_last();
        lemma_filter_ascending(rest, keep);
        let f = urls.filter(keep);
        let fr = rest.filter(keep);
        assert forall|i: int| 0 <= i < fr.len() implies urls.contains(#[trigger] fr[i]) && fr[i].id
            < urls.last().id by {
            let k = choose|k: int| 0 <= k < rest.len() && rest[k] == fr[i];
            assert(urls[k] == fr[i]);
        }
        if keep(urls.last()) {
            assert(f =~= fr.push(urls.last()));
            assert(urls[urls.len() - 1] == urls.last());
        } else {
            assert(f =~= fr);
        }
    }
}

/// Writing a site's metadata keeps the tables' invariant.
pub proof fn lemma_upsert_site_wf(s: StoreView, origin: Seq<char>, f: SiteFields)
    requires
        s.wf(),
        s.can_upsert_site(origin),
    ensures
        s.upsert_site(origin, f).wf(),
{
    let t = s.upsert_site(origin, f);
    match site_index(s.sites, origin) {
        Some(i) => {
            assert(t.sites.len() == s.sites.len());
            assert forall|a: int| 0 <= a < s.sites.len() implies (#[trigger] t.sites[a]).id
                == s.sites[a].id && t.sites[a].origin == s.sites[a].origin by {}
            assert forall|k: int| 0 <= k < t.icons.len() implies has_site(
                t.sites,
                (#[trigger] t.icons[k]).site_id,
            ) by {
                let w = choose|w: int| 0 <= w < s.sites.len() && (#[trigger] s.sites[w]).id
                    == s.icons[k].site_id;
                assert(t.sites[w].id == s.icons[k].site_id);
            }
        },
        None => {
            assert forall|a: int, b: int| 0 <= a < b < t.sites.len() implies (
            #[trigger] t.sites[a]).id < (#[trigger] t.sites[b]).id && t.sites[a].origin
                != t.sites[b].origin by {
                if b == s.sites.len() {
                    assert(s.sites[a].id <= s.sites.last().id);
                    assert(s.sites[a].origin != origin);
                }
            }
            assert forall|k: int| 0 <= k < t.icons.len() implies has_site(
                t.sites,
                (#[trigger] t.icons[k]).site_id,
            ) by {
                let w = choose|w: int| 0 <= w < s.sites.len() && (#[trigger] s.sites[w]).id
                    == s.icons[k].site_id;
                assert(t.sites[w].id == s.icons[k].site_id);
            }
        },
    }
}

/// Appending an icon of a known site keeps the tables' invariant.
pub proof fn lemma_insert_icon_wf(s: StoreView, f: IconFields)
    requires
        s.wf(),
        has_site(s.sites, f.site_id),
        id_after(last_icon_id(s.icons)) <= i64::MAX,
    ensures
        s.insert_icon(f).wf(),
{
    let t = s.insert_icon(f);
    assert forall|i: int, j: int| 0 <= i < j < t.icons.len() implies (#[trigger] t.icons[i]).id < (
    #[trigger] t.icons[j]).id by {
        if j == s.icons.len() {
            assert(s.icons[i].id <= s.icons.last().id);
        }
    }
}

} // verus!
