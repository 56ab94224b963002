//! What holds of the store whatever it contains: the laws that relate its
//! operations to each other.

use vstd::prelude::*;
use crate::db_model::{
    DbReplyView, DbRequestView, IconFields, IconView, SiteFields, StoreView,
    UrlEntryView, UrlRecordView, answers, current_icon, entry_of, has_site, id_after,
    is_current_icon, is_listing, last_icon_id, lemma_insert_icon_wf,
    lemma_insert_url_wf, lemma_upsert_site_wf, listed_before, listing_len, other_than, serves,
    site_index, url_index,
};

verus! {

/// An address to save: its label, its URL and its time.
pub struct NewUrl {
    pub label: Seq<char>,
    pub url: Seq<char>,
    pub timestamp: i64,
}

/// The store after saving the given addresses one after the other.
pub open spec fn after_inserts(s: StoreView, inserts: Seq<NewUrl>) -> StoreView
    decreases inserts.len(),
{
    if inserts.len() == 0 {
        s
    } else {
        let x = inserts.last();
        after_inserts(s, inserts.drop_last()).insert_url(x.label, x.url, x.timestamp)
    }
}

/// Saving addresses into a new store gives them the identities one, two,
/// three and so on, and keeps every one of them.
pub proof fn law_inserts_are_kept(inserts: Seq<NewUrl>)
    requires
        inserts.len() < i64::MAX,
    ensures
        after_inserts(StoreView::empty(), inserts).wf(),
        after_inserts(StoreView::empty(), inserts).urls.len() == inserts.len(),
        after_inserts(StoreView::empty(), inserts).can_insert_url(),
        forall|i: int|
            0 <= i < inserts.len() ==> (#[trigger] after_inserts(
                StoreView::empty(),
                inserts,
            ).urls[i]) == (UrlEntryView {
                id: (i + 1) as i64,
                label: inserts[i].label,
                url: inserts[i].url,
                timestamp: inserts[i].timestamp,
            }),
    decreases inserts.len(),
{
    if inserts.len() > 0 {
        let before = after_inserts(StoreView::empty(), inserts.drop_last());
        let x = inserts.last();
        law_inserts_are_kept(inserts.drop_last());
        lemma_insert_url_wf(before, x.label, x.url, x.timestamp);
        let now = after_inserts(StoreView::empty(), inserts);
        assert(now == before.insert_url(x.label, x.url, x.timestamp));
        if before.urls.len() > 0 {
            assert(before.urls.last() == before.urls[before.urls.len() - 1]);
        }
        assert forall|i: int| 0 <= i < inserts.len() implies (#[trigger] now.urls[i]) == (
        UrlEntryView {
            id: (i + 1) as i64,
            label: inserts[i].label,
            url: inserts[i].url,
            timestamp: inserts[i].timestamp,
        }) by {
            if i < inserts.len() - 1 {
                assert(now.urls[i] == before.urls[i]);
                assert(inserts.drop_last()[i] == inserts[i]);
            }
        }
    }
}

/// Listing after a run of saves: the listing of the `n` most recent
/// addresses of a store that was filled by saving holds as many entries as
/// were saved, but no more than `n`, and holds them newest first.
pub proof fn law_listing_after_inserts(inserts: Seq<NewUrl>, n: int, out: Seq<UrlRecordView>)
    requires
        inserts.len() < i64::MAX,
        n >= 0,
        after_inserts(StoreView::empty(), inserts).lists(n, out),
    ensures
        out.len() == if n < inserts.len() {
            n
        } else {
            inserts.len() as int
        },
        forall|i: int, j: int|
            0 <= i < j < out.len() ==> (#[trigger] out[i]).timestamp >= (#[trigger] out[j]).timestamp,
{
    law_inserts_are_kept(inserts);
    let s = after_inserts(StoreView::empty(), inserts);
    let entries = out.map_values(|r: UrlRecordView| entry_of(r));
    assert(entries.len() == out.len());
    assert forall|i: int, j: int| 0 <= i < j < out.len() implies (#[trigger] out[i]).timestamp >= (
    #[trigger] out[j]).timestamp by {
        assert(listed_before(entries[i], entries[j]));
    }
}

/// A listing is ordered by time, newest first, and is as long as the limit
/// allows and the table can fill.
pub proof fn law_listing_is_sorted(s: StoreView, n: int, out: Seq<UrlRecordView>)
    requires
        s.lists(n, out),
    ensures
        out.len() == listing_len(s.urls.len(), n),
        forall|i: int, j: int|
            0 <= i < j < out.len() ==> (#[trigger] out[i]).timestamp >= (#[trigger] out[j]).timestamp,
{
    let entries = out.map_values(|r: UrlRecordView| entry_of(r));
    assert(entries.len() == out.len());
    assert forall|i: int, j: int| 0 <= i < j < out.len() implies (#[trigger] out[i]).timestamp >= (
    #[trigger] out[j]).timestamp by {
        assert(listed_before(entries[i], entries[j]));
    }
}

/// Of two listings that agree on their first `k` entries, neither holds at
/// `k` an entry that goes before the other's.
proof fn lemma_listing_no_gap(
    urls: Seq<UrlEntryView>,
    limit: int,
    a: Seq<UrlEntryView>,
    b: Seq<UrlEntryView>,
    k: int,
)
    requires
        is_listing(urls, limit, a),
        is_listing(urls, limit, b),
        0 <= k < a.len(),
        forall|i: int| 0 <= i < k ==> a[i] == b[i],
    ensures
        !listed_before(a[k], b[k]),
{
    if listed_before(a[k], b[k]) {
        assert(urls.contains(a[k]));
        let p = choose|p: int| 0 <= p < urls.len() && urls[p] == a[k];
        if b.contains(a[k]) {
            let j = choose|j: int| 0 <= j < b.len() && b[j] == a[k];
            if j < k {
                assert(listed_before(a[j], a[k]));
            } else if j > k {
                assert(listed_before(b[k], b[j]));
            }
        } else {
            assert(listed_before(b[k], urls[p]));
        }
    }
}

/// Two listings of one table with one limit agree on their first `n`
/// entries.
proof fn lemma_listings_agree(
    urls: Seq<UrlEntryView>,
    limit: int,
    a: Seq<UrlEntryView>,
    b: Seq<UrlEntryView>,
    n: int,
)
    requires
        forall|i: int, j: int|
            0 <= i < j < urls.len() ==> (#[trigger] urls[i]).id < (#[trigger] urls[j]).id,
        is_listing(urls, limit, a),
        is_listing(urls, limit, b),
        0 <= n <= a.len(),
    ensures
        forall|i: int| 0 <= i < n ==> a[i] == b[i],
    decreases n,
{
    if n > 0 {
        lemma_listings_agree(urls, limit, a, b, n - 1);
        let k = n - 1;
        if a[k] != b[k] {
            assert(urls.contains(a[k]));
            assert(urls.contains(b[k]));
            let p = choose|p: int| 0 <= p < urls.len() && urls[p] == a[k];
            let q = choose|q: int| 0 <= q < urls.len() && urls[q] == b[k];
            if p < q {
                assert(urls[p].id < urls[q].id);
            } else if q < p {
                assert(urls[q].id < urls[p].id);
            }
            lemma_listing_no_gap(urls, limit, a, b, k);
            assert forall|i: int| 0 <= i < k implies b[i] == a[i] by {}
            lemma_listing_no_gap(urls, limit, b, a, k);
        }
    }
}

/// A table has one listing for each limit: what a listing must hold, in
/// which order, is fixed by the table, so the order of entries of one time
/// is fixed too.
pub proof fn law_listing_is_unique(
    s: StoreView,
    limit: int,
    a: Seq<UrlRecordView>,
    b: Seq<UrlRecordView>,
)
    requires
        s.wf(),
        s.lists(limit, a),
        s.lists(limit, b),
    ensures
        a == b,
{
    let ea = a.map_values(|r: UrlRecordView| entry_of(r));
    let eb = b.map_values(|r: UrlRecordView| entry_of(r));
    lemma_listings_agree(s.urls, limit, ea, eb, ea.len() as int);
    assert forall|i: int| 0 <= i < a.len() implies a[i] == b[i] by {
        assert(ea[i] == eb[i]);
        assert(a[i] == s.enriched(entry_of(a[i])));
        assert(b[i] == s.enriched(entry_of(b[i])));
    }
    assert(a =~= b);
}

/// No row that a filter keeps fails the filter's test.
proof fn lemma_deleted_is_gone(urls: Seq<UrlEntryView>, id: i64)
    ensures
        forall|i: int|
            0 <= i < urls.filter(other_than(id)).len() ==> (#[trigger] urls.filter(
                other_than(id),
            )[i]).id != id,
    decreases urls.len(),
{
    reveal(Seq::filter);
    if urls.len() > 0 {
        lemma_deleted_is_gone(urls.drop_last(), id);
    }
}

/// After an address was removed, fetching it finds nothing, whether the
/// store held it before or not.
pub proof fn law_deleted_is_absent(s: StoreView, id: i64)
    ensures
        s.delete(id).record_by_id(id) is None,
        url_index(s.delete(id).urls, id) is None,
{
    lemma_deleted_is_gone(s.urls, id);
}

/// Removing an address that the store does not hold changes nothing.
pub proof fn law_delete_unknown_is_noop(s: StoreView, id: i64)
    requires
        url_index(s.urls, id) is None,
    ensures
        s.delete(id) == s,
{
    assert forall|i: int| 0 <= i < s.urls.len() implies (#[trigger] s.urls[i]).id != id by {}
    crate::db_model::lemma_delete_absent(s.urls, id);
}

/// Writing the metadata of one origin twice leaves one row for the origin,
/// and the row holds what the second write supplied.
pub proof fn law_upsert_last_writer_wins(
    s: StoreView,
    origin: Seq<char>,
    first: SiteFields,
    second: SiteFields,
)
    requires
        s.wf(),
        s.can_upsert_site(origin),
    ensures
        ({
            let once = s.upsert_site(origin, first);
            let twice = once.upsert_site(origin, second);
            &&& once.can_upsert_site(origin)
            &&& twice.wf()
            &&& twice.sites.len() == once.sites.len()
            &&& twice.site_by_origin(origin) matches Some(row)
            &&& row.origin == origin
            &&& row.site_name == second.site_name
            &&& row.description == second.description
            &&& row.manifest_url == second.manifest_url
            &&& row.metadata_fetched_at == second.metadata_fetched_at
            &&& once.site_by_origin(origin) matches Some(early)
            &&& row.id == early.id
            &&& forall|i: int, j: int|
                0 <= i < twice.sites.len() && 0 <= j < twice.sites.len() && (
                #[trigger] twice.sites[i]).origin == origin && (#[trigger] twice.sites[j]).origin
                    == origin ==> i == j
        }),
{
    let once = s.upsert_site(origin, first);
    lemma_upsert_site_wf(s, origin, first);
    lemma_upsert_holds(s, origin, first);
    let twice = once.upsert_site(origin, second);
    lemma_upsert_site_wf(once, origin, second);
    lemma_upsert_holds(once, origin, second);
    assert forall|i: int, j: int|
        0 <= i < twice.sites.len() && 0 <= j < twice.sites.len() && (#[trigger] twice.sites[i]).origin
            == origin && (#[trigger] twice.sites[j]).origin == origin implies i == j by {
        if i < j {
            assert(twice.sites[i].origin != twice.sites[j].origin);
        }
        if j < i {
            assert(twice.sites[j].origin != twice.sites[i].origin);
        }
    }
}

/// After the metadata of an origin was written, the origin's row holds what
/// was supplied.
pub proof fn lemma_upsert_holds(s: StoreView, origin: Seq<char>, f: SiteFields)
    requires
        s.wf(),
        s.can_upsert_site(origin),
    ensures
        site_index(s.upsert_site(origin, f).sites, origin) is Some,
        s.upsert_site(origin, f).site_by_origin(origin) matches Some(row) && row.origin == origin
            && row.site_name == f.site_name && row.description == f.description
            && row.manifest_url == f.manifest_url && row.metadata_fetched_at
            == f.metadata_fetched_at,
        match site_index(s.sites, origin) {
            Some(i) => s.upsert_site(origin, f).sites.len() == s.sites.len() && s.upsert_site(
                origin,
                f,
            ).site_by_origin(origin)->0.id == s.sites[i].id,
            None => s.upsert_site(origin, f).sites.len() == s.sites.len() + 1,
        },
{
    let t = s.upsert_site(origin, f);
    lemma_upsert_site_wf(s, origin, f);
    let at: int = match site_index(s.sites, origin) {
        Some(i) => i,
        None => s.sites.len() as int,
    };
    assert(t.sites[at].origin == origin);
    let c = site_index(t.sites, origin)->0;
    assert(0 <= c < t.sites.len() && t.sites[c].origin == origin);
    if c < at {
        assert(t.sites[c].origin != t.sites[at].origin);
    }
    if at < c {
        assert(t.sites[at].origin != t.sites[c].origin);
    }
}

/// The store after appending the given icons one after the other.
pub open spec fn after_icons(s: StoreView, icons: Seq<IconFields>) -> StoreView
    decreases icons.len(),
{
    if icons.len() == 0 {
        s
    } else {
        after_icons(s, icons.drop_last()).insert_icon(icons.last())
    }
}

/// Every icon that is appended for a site stays: after any number of
/// inserts the table holds the rows it held, followed by one row for each
/// insert, in the order of the inserts.
pub proof fn law_icons_are_kept(s: StoreView, site_id: i64, icons: Seq<IconFields>)
    requires
        s.wf(),
        has_site(s.sites, site_id),
        forall|i: int| 0 <= i < icons.len() ==> (#[trigger] icons[i]).site_id == site_id,
        id_after(last_icon_id(s.icons)) + icons.len() <= i64::MAX,
    ensures
        after_icons(s, icons).wf(),
        after_icons(s, icons).sites == s.sites,
        after_icons(s, icons).urls == s.urls,
        after_icons(s, icons).icons.len() == s.icons.len() + icons.len(),
        forall|i: int| 0 <= i < s.icons.len() ==> (#[trigger] after_icons(s, icons).icons[i]) == s.icons[i],
        forall|i: int|
            0 <= i < icons.len() ==> ({
                let row = #[trigger] after_icons(s, icons).icons[s.icons.len() + i];
                &&& row.site_id == site_id
                &&& row.src_url == icons[i].src_url
                &&& row.width == icons[i].width
                &&& row.height == icons[i].height
                &&& row.mime == icons[i].mime
                &&& row.data == icons[i].data
                &&& row.fetched_at == icons[i].fetched_at
            }),
        id_after(last_icon_id(after_icons(s, icons).icons)) == id_after(last_icon_id(s.icons))
            + icons.len(),
    decreases icons.len(),
{
    if icons.len() > 0 {
        let rest = icons.drop_last();
        let before = after_icons(s, rest);
        assert forall|i: int| 0 <= i < rest.len() implies (#[trigger] rest[i]).site_id == site_id by {
            assert(rest[i] == icons[i]);
        }
        law_icons_are_kept(s, site_id, rest);
        assert(icons.last() == icons[icons.len() - 1]);
        lemma_insert_icon_wf(before, icons.last());
        let now = after_icons(s, icons);
        assert(now == before.insert_icon(icons.last()));
        assert forall|i: int| 0 <= i < icons.len() implies ({
            let row = #[trigger] now.icons[s.icons.len() + i];
            &&& row.site_id == site_id
            &&& row.src_url == icons[i].src_url
            &&& row.width == icons[i].width
            &&& row.height == icons[i].height
            &&& row.mime == icons[i].mime
            &&& row.data == icons[i].data
            &&& row.fetched_at == icons[i].fetched_at
        }) by {
            if i < rest.len() {
                assert(now.icons[s.icons.len() + i] == before.icons[s.icons.len() + i]);
                assert(rest[i] == icons[i]);
            }
        }
        assert forall|i: int| 0 <= i < s.icons.len() implies (#[trigger] now.icons[i]) == s.icons[i] by {
            assert(now.icons[i] == before.icons[i]);
        }
    }
}

/// Some icon of the site has a fetch time.
pub open spec fn has_dated_icon(icons: Seq<IconView>, site_id: i64) -> bool {
    exists|j: int|
        0 <= j < icons.len() && (#[trigger] icons[j]).site_id == site_id && icons[j].fetched_at is Some
}

/// Among the first `n` icons, one of the site's dated icons is the current
/// one, if the site has a dated icon among them.
proof fn lemma_current_exists(icons: Seq<IconView>, site_id: i64)
    requires
        has_dated_icon(icons, site_id),
    ensures
        exists|k: int| is_current_icon(icons, site_id, k),
    decreases icons.len(),
{
    let n = icons.len() as int;
    let rest = icons.drop_last();
    let last = icons[n - 1];
    assert(icons.last() == last);
    if has_dated_icon(rest, site_id) {
        lemma_current_exists(rest, site_id);
        let b = choose|k: int| is_current_icon(rest, site_id, k);
        assert(rest[b] == icons[b]);
        if last.site_id == site_id && last.fetched_at is Some && last.fetched_at->0
            >= rest[b].fetched_at->0 {
            assert forall|j: int|
                0 <= j < icons.len() && (#[trigger] icons[j]).site_id == site_id
                    && icons[j].fetched_at is Some implies icons[j].fetched_at->0 < last.fetched_at->0
                || (icons[j].fetched_at->0 == last.fetched_at->0 && j <= n - 1) by {
                if j < n - 1 {
                    assert(rest[j] == icons[j]);
                }
            }
            assert(is_current_icon(icons, site_id, n - 1));
        } else {
            assert forall|j: int|
                0 <= j < icons.len() && (#[trigger] icons[j]).site_id == site_id
                    && icons[j].fetched_at is Some implies icons[j].fetched_at->0 < icons[b].fetched_at->0
                || (icons[j].fetched_at->0 == icons[b].fetched_at->0 && j <= b) by {
                if j < n - 1 {
                    assert(rest[j] == icons[j]);
                }
            }
            assert(is_current_icon(icons, site_id, b));
        }
    } else {
        let w = choose|j: int|
            0 <= j < icons.len() && (#[trigger] icons[j]).site_id == site_id
                && icons[j].fetched_at is Some;
        if w < n - 1 {
            assert(rest[w] == icons[w]);
            assert(has_dated_icon(rest, site_id));
        }
        assert forall|j: int|
            0 <= j < icons.len() && (#[trigger] icons[j]).site_id == site_id
                && icons[j].fetched_at is Some implies icons[j].fetched_at->0 < last.fetched_at->0 || (
        icons[j].fetched_at->0 == last.fetched_at->0 && j <= n - 1) by {
            if j < n - 1 {
                assert(rest[j] == icons[j]);
                assert(has_dated_icon(rest, site_id));
            }
        }
        assert(is_current_icon(icons, site_id, n - 1));
    }
}

/// The current icon of a site is the one fetched last: it belongs to the
/// site, and no icon of the site has a later fetch time. A site has a
/// current icon exactly if one of its icons has a fetch time.
pub proof fn law_current_icon_is_newest(icons: Seq<IconView>, site_id: i64)
    ensures
        current_icon(icons, site_id) is Some <==> has_dated_icon(icons, site_id),
        current_icon(icons, site_id) matches Some(ic) ==> {
            &&& icons.contains(ic)
            &&& ic.site_id == site_id
            &&& ic.fetched_at is Some
            &&& forall|j: int|
                0 <= j < icons.len() && (#[trigger] icons[j]).site_id == site_id
                    && icons[j].fetched_at is Some ==> icons[j].fetched_at->0 <= ic.fetched_at->0
        },
{
    if has_dated_icon(icons, site_id) {
        lemma_current_exists(icons, site_id);
    }
    if exists|k: int| is_current_icon(icons, site_id, k) {
        let k = choose|k: int| is_current_icon(icons, site_id, k);
        assert(icons[k].site_id == site_id && icons[k].fetched_at is Some);
    }
}

/// The enriched form of an address shows the newest icon of its site: the
/// icon's bytes and media type are those of the site's current icon.
pub proof fn law_enrichment_shows_current_icon(s: StoreView, e: UrlEntryView)
    ensures
        match s.site_of_url(e.url) {
            Some(site) => match current_icon(s.icons, site.id) {
                Some(ic) => s.enriched(e).icon_data == Some(ic.data) && s.enriched(e).icon_mime
                    == ic.mime && s.enriched(e).site_name == site.site_name,
                None => s.enriched(e).icon_data is None && s.enriched(e).icon_mime is None,
            },
            None => s.enriched(e).site_name is None && s.enriched(e).icon_data is None && s.enriched(
                e,
            ).icon_mime is None,
        },
{
}

/// Serving one queue of requests is serving its front part and then, on the
/// store as that left it, the rest: whichever handles the requests came
/// from, the store sees them one by one in the order of their arrival.
pub proof fn law_serving_composes(
    pre: StoreView,
    first: Seq<DbRequestView>,
    mid: StoreView,
    first_replies: Seq<DbReplyView>,
    second: Seq<DbRequestView>,
    post: StoreView,
    second_replies: Seq<DbReplyView>,
)
    requires
        serves(pre, first, mid, first_replies),
        serves(mid, second, post, second_replies),
    ensures
        serves(pre, first + second, post, first_replies + second_replies),
    decreases second.len(),
{
    if second.len() == 0 {
        assert(first + second =~= first);
        assert(first_replies + second_replies =~= first_replies);
    } else {
        let before = choose|before: StoreView|
            serves(mid, second.drop_last(), before, second_replies.drop_last()) && #[trigger] answers(
                before,
                second.last(),
                post,
                second_replies.last(),
            );
        law_serving_composes(
            pre,
            first,
            mid,
            first_replies,
            second.drop_last(),
            before,
            second_replies.drop_last(),
        );
        let all = first + second;
        let replies = first_replies + second_replies;
        assert(all.drop_last() =~= first + second.drop_last());
        assert(replies.drop_last() =~= first_replies + second_replies.drop_last());
        assert(all.last() == second.last());
        assert(replies.last() == second_replies.last());
        assert(serves(pre, all.drop_last(), before, replies.drop_last()) && answers(
            before,
            all.last(),
            post,
            replies.last(),
        ));
    }
}

/// A request fails exactly if the store's verdict on it is a refusal, with
/// the verdict's error; a request that fails leaves the store as it was.
pub proof fn law_failure_changes_nothing(
    pre: StoreView,
    req: DbRequestView,
    post: StoreView,
    reply: DbReplyView,
)
    requires
        answers(pre, req, post, reply),
    ensures
        match pre.verdict(req) {
            Ok(_) => !(reply is Failed),
            Err(e) => reply == DbReplyView::Failed(e) && post == pre,
        },
{
}

/// A saved address is never changed: whatever request is served, every
/// address that the store holds afterwards is one that it held before, as
/// it was, or the one that the request saved under a new identity.
pub proof fn law_addresses_are_never_changed(
    pre: StoreView,
    req: DbRequestView,
    post: StoreView,
    reply: DbReplyView,
)
    requires
        pre.wf(),
        answers(pre, req, post, reply),
    ensures
        forall|i: int|
            0 <= i < post.urls.len() ==> pre.urls.contains(#[trigger] post.urls[i]) || (req matches DbRequestView::Insert {
                label,
                url,
                timestamp,
            } && post.urls[i] == (UrlEntryView {
                id: id_after(crate::db_model::last_url_id(pre.urls)) as i64,
                label,
                url,
                timestamp,
            })),
{
    match req {
        DbRequestView::Insert { label, url, timestamp } => {
            assert forall|i: int| 0 <= i < post.urls.len() implies pre.urls.contains(
                #[trigger] post.urls[i],
            ) || post.urls[i] == (UrlEntryView {
                id: id_after(crate::db_model::last_url_id(pre.urls)) as i64,
                label,
                url,
                timestamp,
            }) by {
                if i < pre.urls.len() {
                    assert(pre.urls[i] == post.urls[i]);
                }
            }
        },
        DbRequestView::Delete { id } => {
            crate::db_model::lemma_filter_ascending(pre.urls, other_than(id));
        },
        _ => {
            assert forall|i: int| 0 <= i < post.urls.len() implies pre.urls.contains(
                #[trigger] post.urls[i],
            ) by {
                assert(pre.urls[i] == post.urls[i]);
            }
        },
    }
}

/// Serving keeps the tables' invariant: no request, served or failed,
/// leaves a row half written.
pub proof fn law_serving_keeps_invariant(
    pre: StoreView,
    reqs: Seq<DbRequestView>,
    post: StoreView,
    replies: Seq<DbReplyView>,
)
    requires
        pre.wf(),
        serves(pre, reqs, post, replies),
    ensures
        post.wf(),
    decreases reqs.len(),
{
    if reqs.len() > 0 {
        let mid = choose|mid: StoreView|
            serves(pre, reqs.drop_last(), mid, replies.drop_last()) && #[trigger] answers(
                mid,
                reqs.last(),
                post,
                replies.last(),
            );
        law_serving_keeps_invariant(pre, reqs.drop_last(), mid, replies.drop_last());
        match reqs.last() {
            DbRequestView::Insert { label, url, timestamp } => {
                if mid.can_insert_url() {
                    lemma_insert_url_wf(mid, label, url, timestamp);
                }
            },
            DbRequestView::Delete { id } => {
                crate::db_model::lemma_delete_wf(mid, id);
            },
            DbRequestView::UpsertSiteMeta { origin, site } => {
                if mid.can_upsert_site(origin) {
                    lemma_upsert_site_wf(mid, origin, site);
                }
            },
            DbRequestView::InsertIcon { icon } => {
                if mid.icon_verdict(icon.site_id) is Ok {
                    lemma_insert_icon_wf(mid, icon);
                }
            },
            _ => {},
        }
    }
}

} // verus!
