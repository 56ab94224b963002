//! The bookmark store: its rows, its tables and the operations on them.

use vstd::prelude::*;
use crate::db_model::{
    DbReplyView, DbRequestView, answers, serves,
    IconFields, IconView, SiteFields, SiteMetaView, StoreView, UrlEntryView, UrlRecordView,
    current_icon, entry_of, has_site, holds_position, is_current_icon, lemma_delete_absent, lemma_delete_found, lemma_delete_wf,
    lemma_insert_icon_wf, lemma_insert_url_wf, lemma_upsert_site_wf, listed_before, of_site,
    ranks, site_index, url_index,
};
use crate::text::same;
use crate::weburl::{opt_text, origin_of};

verus! {

/// The metadata of one site, keyed by its origin.
#[derive(Debug, Clone)]
pub struct SiteMeta {
    pub id: i64,
    pub origin: String,
    pub site_name: Option<String>,
    pub description: Option<String>,
    pub manifest_url: Option<String>,
    pub metadata_fetched_at: Option<i64>,
}

/// One fetched icon of a site.
#[derive(Debug, Clone)]
pub struct Icon {
    pub id: i64,
    pub site_id: i64,
    pub src_url: String,
    pub width: Option<i64>,
    pub height: Option<i64>,
    pub mime: Option<String>,
    pub data: Vec<u8>,
    pub fetched_at: Option<i64>,
}

/// A saved address in its enriched form: with the display name of its site
/// and the site's current icon, where the store knows them.
#[derive(Debug, Clone)]
pub struct UrlRecord {
    pub id: i64,
    pub label: String,
    pub url: String,
    pub _timestamp: i64,
    pub site_name: Option<String>,
    pub icon_mime: Option<String>,
    pub icon_data: Option<Vec<u8>>,
}

/// A saved address as the store keeps it.
#[derive(Debug, Clone)]
pub struct UrlEntry {
    pub id: i64,
    pub label: String,
    pub url: String,
    pub timestamp: i64,
}

/// The bytes of an optional payload.
pub open spec fn opt_bytes(b: Option<Vec<u8>>) -> Option<Seq<u8>> {
    match b {
        Some(v) => Some(v@),
        None => None,
    }
}

impl View for SiteMeta {
    type V = SiteMetaView;

    open spec fn view(&self) -> SiteMetaView {
        SiteMetaView {
            id: self.id,
            origin: self.origin@,
            site_name: opt_text(self.site_name),
            description: opt_text(self.description),
            manifest_url: opt_text(self.manifest_url),
            metadata_fetched_at: self.metadata_fetched_at,
        }
    }
}

impl View for Icon {
    type V = IconView;

    open spec fn view(&self) -> IconView {
        IconView {
            id: self.id,
            site_id: self.site_id,
            src_url: self.src_url@,
            width: self.width,
            height: self.height,
            mime: opt_text(self.mime),
            data: self.data@,
            fetched_at: self.fetched_at,
        }
    }
}

impl View for UrlRecord {
    type V = UrlRecordView;

    open spec fn view(&self) -> UrlRecordView {
        UrlRecordView {
            id: self.id,
            label: self.label@,
            url: self.url@,
            timestamp: self._timestamp,
            site_name: opt_text(self.site_name),
            icon_mime: opt_text(self.icon_mime),
            icon_data: opt_bytes(self.icon_data),
        }
    }
}

impl View for UrlEntry {
    type V = UrlEntryView;

    open spec fn view(&self) -> UrlEntryView {
        UrlEntryView { id: self.id, label: self.label@, url: self.url@, timestamp: self.timestamp }
    }
}

/// Why the store could not carry out a request.
#[derive(Debug, Clone, Copy, PartialEq, Eq, Structural)]
pub enum StoreError {
    /// The actor behind the handle is gone.
    HandleClosed,
    /// The process-wide handle was installed before.
    AlreadyInitialized,
    /// The row refers to a site that the store does not hold.
    Constraint,
    /// The table has no identity left for a new row.
    Full,
    /// The storage layer under the actor failed.
    Storage,
    /// The reply is of another kind than the request asks for.
    Protocol,
}

impl StoreError {
    /// The error in words.
    pub fn message(&self) -> (r: String)
        ensures
            r@ == match *self {
                StoreError::HandleClosed => "the store actor is gone"@,
                StoreError::AlreadyInitialized => "global DB handle already set"@,
                StoreError::Constraint => "the icon refers to a site that is not stored"@,
                StoreError::Full => "the table has no identity left"@,
                StoreError::Storage => "the storage layer failed"@,
                StoreError::Protocol => "the reply does not answer the request"@,
            },
    {
        match self {
            StoreError::HandleClosed => "the store actor is gone".to_string(),
            StoreError::AlreadyInitialized => "global DB handle already set".to_string(),
            StoreError::Constraint => "the icon refers to a site that is not stored".to_string(),
            StoreError::Full => "the table has no identity left".to_string(),
            StoreError::Storage => "the storage layer failed".to_string(),
            StoreError::Protocol => "the reply does not answer the request".to_string(),
        }
    }
}

/// Copies a text that may be absent.
pub fn copy_text(t: &Option<String>) -> (r: Option<String>)
    ensures
        opt_text(r) == opt_text(*t),
{
    match t {
        Some(s) => Some(s.clone()),
        None => None,
    }
}

/// Makes an owned text of one that may be absent.
pub fn own_text(t: Option<&str>) -> (r: Option<String>)
    ensures
        match t {
            Some(s) => opt_text(r) == Some(s@),
            None => r is None,
        },
{
    match t {
        Some(s) => Some(s.to_string()),
        None => None,
    }
}

/// Copies a payload.
pub fn copy_bytes(b: &Vec<u8>) -> (r: Vec<u8>)
    ensures
        r@ == b@,
{
    let mut r: Vec<u8> = Vec::new();
    let mut i: usize = 0;
    while i < b.len()
        invariant
            i <= b.len(),
            r@ == b@.subrange(0, i as int),
        decreases b.len() - i,
    {
        r.push(b[i]);
        proof {
            assert(r@ =~= b@.subrange(0, i + 1));
        }
        i = i + 1;
    }
    proof {
        assert(b@.subrange(0, b.len() as int) =~= b@);
    }
    r
}

/// Tests whether `a` is listed before `b`.
fn goes_before(a: &UrlEntry, b: &UrlEntry) -> (r: bool)
    ensures
        r == listed_before(a@, b@),
{
    a.timestamp > b.timestamp || (a.timestamp == b.timestamp && a.id < b.id)
}

/// The three tables, owned by the one actor that serves them.
#[derive(Debug)]
pub struct Store {
    urls: Vec<UrlEntry>,
    sites: Vec<SiteMeta>,
    icons: Vec<Icon>,
}

impl View for Store {
    type V = StoreView;

    closed spec fn view(&self) -> StoreView {
        tables(self.urls@, self.sites@, self.icons@)
    }
}

/// The model of three tables held as vectors of rows.
pub open spec fn tables(urls: Seq<UrlEntry>, sites: Seq<SiteMeta>, icons: Seq<Icon>) -> StoreView {
    StoreView {
        urls: urls.map_values(|e: UrlEntry| e@),
        sites: sites.map_values(|s: SiteMeta| s@),
        icons: icons.map_values(|i: Icon| i@),
    }
}

impl Store {
    #[verifier::type_invariant]
    spec fn inv(self) -> bool {
        self@.wf()
    }

    /// Creates the three tables, empty.
    pub fn new() -> (s: Store)
        ensures
            s@ == StoreView::empty(),
            s@.wf(),
    {
        let s = Store { urls: Vec::new(), sites: Vec::new(), icons: Vec::new() };
        assert(s@.urls =~= Seq::empty());
        assert(s@.sites =~= Seq::empty());
        assert(s@.icons =~= Seq::empty());
        s
    }

    /// Takes over three tables of rows as they were stored before, if they
    /// meet the invariant of the tables; rows that do not are refused as a
    /// failure of the storage they come from.
    pub fn restore(urls: Vec<UrlEntry>, sites: Vec<SiteMeta>, icons: Vec<Icon>) -> (res: Result<
        Store,
        StoreError,
    >)
        ensures
            match res {
                Ok(s) => s@ == tables(urls@, sites@, icons@) && s@.wf(),
                Err(e) => e == StoreError::Storage && !tables(urls@, sites@, icons@).wf(),
            },
    {
        let ghost t = tables(urls@, sites@, icons@);
        let mut i: usize = 1;
        while i < urls.len()
            invariant
                t == tables(urls@, sites@, icons@),
                1 <= i,
                forall|a: int, b: int|
                    0 <= a < b < i && b < urls.len() ==> (#[trigger] t.urls[a]).id < (
                    #[trigger] t.urls[b]).id,
            decreases urls.len() - i,
        {
            if urls[i - 1].id >= urls[i].id {
                proof {
                    assert(t.urls[i - 1].id >= t.urls[i as int].id);
                }
                return Err(StoreError::Storage);
            }
            proof {
                assert forall|a: int, b: int| 0 <= a < b < i + 1 && b < urls.len() implies (
                #[trigger] t.urls[a]).id < (#[trigger] t.urls[b]).id by {
                    if b == i && a < i - 1 {
                        assert(t.urls[a].id < t.urls[i - 1].id);
                    }
                    assert(t.urls[i - 1].id < t.urls[i as int].id);
                }
            }
            i = i + 1;
        }
        let mut i: usize = 1;
        while i < icons.len()
            invariant
                t == tables(urls@, sites@, icons@),
                1 <= i,
                forall|a: int, b: int|
                    0 <= a < b < i && b < icons.len() ==> (#[trigger] t.icons[a]).id < (
                    #[trigger] t.icons[b]).id,
            decreases icons.len() - i,
        {
            if icons[i - 1].id >= icons[i].id {
                proof {
                    assert(t.icons[i - 1].id >= t.icons[i as int].id);
                }
                return Err(StoreError::Storage);
            }
            proof {
                assert forall|a: int, b: int| 0 <= a < b < i + 1 && b < icons.len() implies (
                #[trigger] t.icons[a]).id < (#[trigger] t.icons[b]).id by {
                    if b == i && a < i - 1 {
                        assert(t.icons[a].id < t.icons[i - 1].id);
                    }
                    assert(t.icons[i - 1].id < t.icons[i as int].id);
                }
            }
            i = i + 1;
        }
        let mut j: usize = 0;
        while j < sites.len()
            invariant
                t == tables(urls@, sites@, icons@),
                j <= sites.len(),
                forall|a: int, b: int|
                    0 <= a < b < j ==> (#[trigger] t.sites[a]).id < (#[trigger] t.sites[b]).id
                        && t.sites[a].origin != t.sites[b].origin,
            decreases sites.len() - j,
        {
            let mut k: usize = 0;
            while k < j
                invariant
                    t == tables(urls@, sites@, icons@),
                    k <= j < sites.len(),
                    forall|a: int|
                        0 <= a < k ==> (#[trigger] t.sites[a]).id < t.sites[j as int].id
                            && t.sites[a].origin != t.sites[j as int].origin,
                decreases j - k,
            {
                if sites[k].id >= sites[j].id || same(
                    sites[k].origin.as_str(),
                    sites[j].origin.as_str(),
                ) {
                    proof {
                        assert(t.sites[k as int].id >= t.sites[j as int].id
                            || t.sites[k as int].origin == t.sites[j as int].origin);
                    }
                    return Err(StoreError::Storage);
                }
                k = k + 1;
            }
            j = j + 1;
        }
        let mut j: usize = 0;
        while j < icons.len()
            invariant
                t == tables(urls@, sites@, icons@),
                j <= icons.len(),
                forall|a: int| 0 <= a < j ==> has_site(t.sites, (#[trigger] t.icons[a]).site_id),
            decreases icons.len() - j,
        {
            let mut k: usize = 0;
            let mut found = false;
            while k < sites.len() && !found
                invariant
                    t == tables(urls@, sites@, icons@),
                    j < icons.len(),
                    k <= sites.len(),
                    found ==> has_site(t.sites, t.icons[j as int].site_id),
                    !found ==> forall|a: int|
                        0 <= a < k ==> (#[trigger] t.sites[a]).id != t.icons[j as int].site_id,
                decreases sites.len() - k + (if found { 0int } else { 1int }),
            {
                if sites[k].id == icons[j].site_id {
                    proof {
                        assert(t.sites[k as int].id == t.icons[j as int].site_id);
                    }
                    found = true;
                } else {
                    k = k + 1;
                }
            }
            if !found {
                proof {
                    assert(!has_site(t.sites, t.icons[j as int].site_id));
                }
                return Err(StoreError::Storage);
            }
            j = j + 1;
        }
        Ok(Store { urls, sites, icons })
    }

    /// Saves a new address under the next identity.
    pub fn insert_url(&mut self, label: &str, url: &str, timestamp: i64) -> (res: Result<
        (),
        StoreError,
    >)
        ensures
            final(self)@.wf(),
            old(self)@.can_insert_url() ==> res is Ok && final(self)@ == old(self)@.insert_url(
                label@,
                url@,
                timestamp,
            ),
            !old(self)@.can_insert_url() ==> res == Err::<(), StoreError>(StoreError::Full)
                && final(self)@ == old(self)@,
    {
        proof {
            use_type_invariant(&*self);
        }
        let n: usize = self.urls.len();
        let id: i64 = if n == 0 {
            1
        } else {
            let last: i64 = self.urls[n - 1].id;
            assert(self@.urls.last().id == last);
            if last == i64::MAX {
                return Err(StoreError::Full);
            }
            last + 1
        };
        let entry = UrlEntry { id, label: label.to_string(), url: url.to_string(), timestamp };
        let mut taken = Store::new();
        std::mem::swap(self, &mut taken);
        let Store { mut urls, sites, icons } = taken;
        urls.push(entry);
        proof {
            lemma_insert_url_wf(old(self)@, label@, url@, timestamp);
            assert(tables(urls@, sites@, icons@).urls =~= old(self)@.urls.push(entry@));
        }
        *self = Store { urls, sites, icons };
        Ok(())
    }

    /// Finds the position of the address with the given identity.
    fn url_position(&self, id: i64) -> (r: Option<usize>)
        ensures
            match r {
                Some(k) => k < self.urls.len() && self.urls[k as int].id == id && url_index(
                    self@.urls,
                    id,
                ) == Some(k as int),
                None => url_index(self@.urls, id) is None && forall|i: int|
                    0 <= i < self.urls.len() ==> (#[trigger] self.urls[i]).id != id,
            },
    {
        proof {
            use_type_invariant(self);
        }
        let mut k: usize = 0;
        while k < self.urls.len()
            invariant
                self@.wf(),
                k <= self.urls.len(),
                forall|i: int| 0 <= i < k ==> (#[trigger] self.urls[i]).id != id,
            decreases self.urls.len() - k,
        {
            if self.urls[k].id == id {
                proof {
                    let v = self@.urls;
                    assert(v[k as int].id == id);
                    let c = choose|i: int| 0 <= i < v.len() && (#[trigger] v[i]).id == id;
                    if c < k {
                        assert(v[c].id < v[k as int].id);
                    }
                    if k < c {
                        assert(v[k as int].id < v[c].id);
                    }
                }
                return Some(k);
            }
            k = k + 1;
        }
        proof {
            let v = self@.urls;
            assert forall|i: int| 0 <= i < v.len() implies (#[trigger] v[i]).id != id by {
                assert(v[i].id == self.urls[i].id);
            }
        }
        None
    }

    /// Finds the position of the site with the given origin.
    fn site_position(&self, origin: &str) -> (r: Option<usize>)
        ensures
            match r {
                Some(k) => k < self.sites.len() && self.sites[k as int].origin@ == origin@
                    && site_index(self@.sites, origin@) == Some(k as int),
                None => site_index(self@.sites, origin@) is None,
            },
    {
        proof {
            use_type_invariant(self);
        }
        let mut k: usize = 0;
        while k < self.sites.len()
            invariant
                self@.wf(),
                k <= self.sites.len(),
                forall|i: int| 0 <= i < k ==> (#[trigger] self.sites[i]).origin@ != origin@,
            decreases self.sites.len() - k,
        {
            if same(self.sites[k].origin.as_str(), origin) {
                proof {
                    let v = self@.sites;
                    assert(v[k as int].origin == origin@);
                    let c = choose|i: int| 0 <= i < v.len() && (#[trigger] v[i]).origin == origin@;
                    if c < k {
                        assert(v[c].origin != v[k as int].origin);
                    }
                    if k < c {
                        assert(v[k as int].origin != v[c].origin);
                    }
                }
                return Some(k);
            }
            k = k + 1;
        }
        proof {
            let v = self@.sites;
            assert forall|i: int| 0 <= i < v.len() implies (#[trigger] v[i]).origin != origin@ by {
                assert(v[i].origin == self.sites[i].origin@);
            }
        }
        None
    }

    /// Tests whether some site has the given identity.
    fn knows_site(&self, id: i64) -> (r: bool)
        ensures
            r == has_site(self@.sites, id),
    {
        let mut k: usize = 0;
        while k < self.sites.len()
            invariant
                k <= self.sites.len(),
                forall|i: int| 0 <= i < k ==> (#[trigger] self.sites[i]).id != id,
            decreases self.sites.len() - k,
        {
            if self.sites[k].id == id {
                proof {
                    assert(self@.sites[k as int].id == id);
                }
                return true;
            }
            k = k + 1;
        }
        proof {
            let v = self@.sites;
            assert forall|i: int| 0 <= i < v.len() implies (#[trigger] v[i]).id != id by {
                assert(v[i].id == self.sites[i].id);
            }
        }
        false
    }

    /// Finds the position of the current icon of a site.
    fn current_icon_position(&self, site_id: i64) -> (r: Option<usize>)
        ensures
            match r {
                Some(k) => k < self.icons.len() && current_icon(self@.icons, site_id) == Some(
                    self.icons[k as int]@,
                ),
                None => current_icon(self@.icons, site_id) is None,
            },
    {
        let mut best: Option<usize> = None;
        let mut k: usize = 0;
        while k < self.icons.len()
            invariant
                k <= self.icons.len(),
                match best {
                    Some(b) => is_current_icon(self@.icons.subrange(0, k as int), site_id, b as int),
                    None => forall|j: int|
                        0 <= j < k ==> !((#[trigger] self@.icons[j]).site_id == site_id
                            && self@.icons[j].fetched_at is Some),
                },
            decreases self.icons.len() - k,
        {
            let ghost before = self@.icons.subrange(0, k as int);
            let ghost after = self@.icons.subrange(0, k + 1);
            let icon = &self.icons[k];
            assert(icon@ == self@.icons[k as int]);
            if icon.site_id == site_id {
                match icon.fetched_at {
                    Some(t) => {
                        let newer = match best {
                            Some(b) => {
                                assert(before[b as int] == self@.icons[b as int]);
                                match self.icons[b].fetched_at {
                                    Some(tb) => tb <= t,
                                    None => true,
                                }
                            },
                            None => true,
                        };
                        if newer {
                            proof {
                                assert forall|j: int|
                                    0 <= j < after.len() && (#[trigger] after[j]).site_id == site_id
                                        && after[j].fetched_at is Some implies after[j].fetched_at->0
                                    < after[k as int].fetched_at->0 || (after[j].fetched_at->0
                                    == after[k as int].fetched_at->0 && j <= k) by {
                                    if j < k {
                                        assert(before[j] == after[j]);
                                        assert(self@.icons[j] == after[j]);
                                    }
                                }
                            }
                            best = Some(k);
                        } else {
                            proof {
                                let b = best->0 as int;
                                assert forall|j: int|
                                    0 <= j < after.len() && (#[trigger] after[j]).site_id == site_id
                                        && after[j].fetched_at is Some implies after[j].fetched_at->0
                                    < after[b].fetched_at->0 || (after[j].fetched_at->0
                                    == after[b].fetched_at->0 && j <= b) by {
                                    if j < k {
                                        assert(before[j] == after[j]);
                                    }
                                }
                            }
                        }
                    },
                    None => {
                        proof {
                            lemma_current_extends(self@.icons, site_id, k as int, best);
                        }
                    },
                }
            } else {
                proof {
                    lemma_current_extends(self@.icons, site_id, k as int, best);
                }
            }
            k = k + 1;
        }
        proof {
            let v = self@.icons;
            assert(v.subrange(0, k as int) =~= v);
            match best {
                Some(b) => {
                    let c = choose|c: int| is_current_icon(v, site_id, c);
                    assert(is_current_icon(v, site_id, c));
                    assert(v[b as int].site_id == site_id);
                    assert(v[c].site_id == site_id);
                    assert(c == b);
                },
                None => {
                    assert forall|c: int| !is_current_icon(v, site_id, c) by {
                        if 0 <= c < v.len() {
                            assert(!(v[c].site_id == site_id && v[c].fetched_at is Some));
                        }
                    }
                },
            }
        }
        best
    }

    /// Joins a saved address with a site and the site's current icon.
    fn join_record(&self, e: &UrlEntry, site: Option<usize>) -> (r: UrlRecord)
        requires
            site is Some ==> site->0 < self.sites.len(),
        ensures
            r@ == self@.joined(
                e@,
                match site {
                    Some(k) => Some(self.sites[k as int]@),
                    None => None,
                },
            ),
    {
        let mut r = UrlRecord {
            id: e.id,
            label: e.label.clone(),
            url: e.url.clone(),
            _timestamp: e.timestamp,
            site_name: None,
            icon_mime: None,
            icon_data: None,
        };
        match site {
            Some(k) => {
                let s = &self.sites[k];
                r.site_name = copy_text(&s.site_name);
                match self.current_icon_position(s.id) {
                    Some(i) => {
                        let icon = &self.icons[i];
                        r.icon_mime = copy_text(&icon.mime);
                        r.icon_data = Some(copy_bytes(&icon.data));
                    },
                    None => {},
                }
            },
            None => {},
        }
        r
    }

    /// Gives a saved address its enriched form.
    fn enrich(&self, e: &UrlEntry) -> (r: UrlRecord)
        ensures
            r@ == self@.enriched(e@),
    {
        let site = match origin_of(e.url.as_str()) {
            Some(origin) => self.site_position(origin.as_str()),
            None => None,
        };
        self.join_record(e, site)
    }

    /// Ranks the saved addresses: the positions of all rows, those listed
    /// earlier first.
    fn ranking(&self) -> (order: Vec<usize>)
        ensures
            ranks(self@.urls, self.urls.len() as int, order@),
    {
        proof {
            use_type_invariant(self);
        }
        let ghost rows = self@.urls;
        let mut order: Vec<usize> = Vec::new();
        let mut k: usize = 0;
        while k < self.urls.len()
            invariant
                rows == self@.urls,
                self@.wf(),
                k <= self.urls.len(),
                ranks(rows, k as int, order@),
            decreases self.urls.len() - k,
        {
            let ghost before = order@;
            let mut p: usize = 0;
            while p < order.len() && goes_before(&self.urls[order[p]], &self.urls[k])
                invariant
                    rows == self@.urls,
                    k < self.urls.len(),
                    order@ == before,
                    ranks(rows, k as int, before),
                    p <= order.len(),
                    forall|q: int|
                        0 <= q < p ==> listed_before(rows[(#[trigger] before[q]) as int], rows[k as int]),
                decreases order.len() - p,
            {
                p = p + 1;
            }
            order.insert(p, k);
            proof {
                let after = order@;
                assert(after == before.insert(p as int, k));
                assert forall|q: int| p <= q < before.len() implies listed_before(
                    rows[k as int],
                    rows[(#[trigger] before[q]) as int],
                ) by {
                    let first = before[p as int];
                    assert(first < k);
                    assert(rows[first as int].id < rows[k as int].id);
                    assert(!listed_before(rows[first as int], rows[k as int]));
                    if q > p {
                        assert(listed_before(rows[first as int], rows[before[q] as int]));
                    }
                }
                assert forall|a: int, b: int| 0 <= a < b < after.len() implies listed_before(
                    rows[(#[trigger] after[a]) as int],
                    rows[(#[trigger] after[b]) as int],
                ) by {
                    let oa = if a < p { a } else { a - 1 };
                    let ob = if b < p { b } else { b - 1 };
                    if a != p {
                        assert(after[a] == before[oa]);
                    }
                    if b != p {
                        assert(after[b] == before[ob]);
                    }
                }
                assert forall|i: int| 0 <= i < k + 1 implies #[trigger] holds_position(after, i) by {
                    if i == k {
                        assert(after[p as int] == i);
                    } else {
                        assert(holds_position(before, i));
                        let w = choose|w: int| 0 <= w < before.len() && #[trigger] before[w] == i;
                        if w < p {
                            assert(after[w] == i);
                        } else {
                            assert(after[w + 1] == i);
                        }
                    }
                }
                assert forall|q: int| 0 <= q < after.len() implies (#[trigger] after[q]) < k + 1 by {
                    if q < p {
                        assert(after[q] == before[q]);
                    } else if q > p {
                        assert(after[q] == before[q - 1]);
                    }
                }
            }
            k = k + 1;
        }
        order
    }

    /// Lists the most recent addresses, newest first, at most `limit` of
    /// them, each in its enriched form.
    pub fn list_recent(&self, limit: i64) -> (out: Vec<UrlRecord>)
        ensures
            self@.lists(limit as int, out@.map_values(|r: UrlRecord| r@)),
    {
        let n: usize = self.urls.len();
        let order = self.ranking();
        let want: usize = if limit <= 0 {
            0
        } else if (limit as u64) < (n as u64) {
            limit as usize
        } else {
            n
        };
        let ghost rows = self@.urls;
        let mut out: Vec<UrlRecord> = Vec::new();
        let mut i: usize = 0;
        while i < want
            invariant
                rows == self@.urls,
                want <= n,
                n == self.urls.len(),
                ranks(rows, n as int, order@),
                i <= want,
                out.len() == i,
                forall|j: int|
                    0 <= j < i ==> (#[trigger] out[j])@ == self@.enriched(rows[order[j] as int]),
            decreases want - i,
        {
            let at: usize = order[i];
            let record = self.enrich(&self.urls[at]);
            out.push(record);
            i = i + 1;
        }
        proof {
            let recs = out@.map_values(|r: UrlRecord| r@);
            let entries = recs.map_values(|r: UrlRecordView| entry_of(r));
            assert forall|j: int| 0 <= j < entries.len() implies #[trigger] entries[j]
                == rows[order[j] as int] by {
                assert(out[j]@ == self@.enriched(rows[order[j] as int]));
            }
            assert forall|j: int| 0 <= j < entries.len() implies rows.contains(
                #[trigger] entries[j],
            ) by {
                assert(rows[order[j] as int] == entries[j]);
            }
            assert forall|a: int, b: int| 0 <= a < b < entries.len() implies listed_before(
                #[trigger] entries[a],
                #[trigger] entries[b],
            ) by {
                assert(listed_before(rows[order[a] as int], rows[order[b] as int]));
            }
            assert forall|a: int, k: int|
                0 <= a < entries.len() && 0 <= k < rows.len() && !entries.contains(
                    rows[k],
                ) implies listed_before(#[trigger] entries[a], #[trigger] rows[k]) by {
                assert(holds_position(order@, k));
                let w = choose|w: int| 0 <= w < order@.len() && #[trigger] order@[w] == k;
                if w < entries.len() {
                    assert(entries[w] == rows[k]);
                }
                assert(listed_before(rows[order[a] as int], rows[order[w] as int]));
            }
            assert forall|j: int| 0 <= j < recs.len() implies #[trigger] recs[j]
                == self@.enriched(entry_of(recs[j])) by {
                assert(recs[j] == out[j]@);
                assert(entries[j] == rows[order[j] as int]);
            }
        }
        out
    }

    /// Fetches the address with the given identity in its enriched form.
    pub fn get_by_id(&self, id: i64) -> (r: Option<UrlRecord>)
        ensures
            opt_record(r) == self@.record_by_id(id),
    {
        match self.url_position(id) {
            Some(k) => {
                let record = self.enrich(&self.urls[k]);
                Some(record)
            },
            None => None,
        }
    }

    /// Removes the address with the given identity; where there is none,
    /// nothing changes.
    pub fn delete(&mut self, id: i64)
        ensures
            final(self)@ == old(self)@.delete(id),
            final(self)@.wf(),
    {
        proof {
            use_type_invariant(&*self);
            lemma_delete_wf(self@, id);
        }
        match self.url_position(id) {
            Some(k) => {
                let mut taken = Store::new();
                std::mem::swap(self, &mut taken);
                let Store { mut urls, sites, icons } = taken;
                urls.remove(k);
                proof {
                    lemma_delete_found(old(self)@.urls, id, k as int);
                    assert(tables(urls@, sites@, icons@).urls =~= old(self)@.urls.remove(k as int));
                }
                *self = Store { urls, sites, icons };
            },
            None => {
                proof {
                    lemma_delete_absent(self@.urls, id);
                    assert(self@ == old(self)@.delete(id));
                }
            },
        }
    }

    /// Writes the metadata of an origin: a known origin takes the new
    /// fields, whatever they hold, and an unknown one gets a row of its own.
    pub fn upsert_site_meta(
        &mut self,
        origin: &str,
        site_name: Option<&str>,
        description: Option<&str>,
        manifest_url: Option<&str>,
        metadata_fetched_at: Option<i64>,
    ) -> (res: Result<(), StoreError>)
        ensures
            final(self)@.wf(),
            old(self)@.can_upsert_site(origin@) ==> res is Ok && final(self)@
                == old(self)@.upsert_site(
                origin@,
                site_fields(site_name, description, manifest_url, metadata_fetched_at),
            ),
            !old(self)@.can_upsert_site(origin@) ==> res == Err::<(), StoreError>(StoreError::Full)
                && final(self)@ == old(self)@,
    {
        proof {
            use_type_invariant(&*self);
        }
        let ghost fields = site_fields(site_name, description, manifest_url, metadata_fetched_at);
        let found = self.site_position(origin);
        let n: usize = self.sites.len();
        let id: i64 = match found {
            Some(k) => self.sites[k].id,
            None => {
                if n == 0 {
                    1
                } else {
                    let last: i64 = self.sites[n - 1].id;
                    assert(self@.sites.last().id == last);
                    if last == i64::MAX {
                        return Err(StoreError::Full);
                    }
                    last + 1
                }
            },
        };
        let row = SiteMeta {
            id,
            origin: origin.to_string(),
            site_name: own_text(site_name),
            description: own_text(description),
            manifest_url: own_text(manifest_url),
            metadata_fetched_at,
        };
        let mut taken = Store::new();
        std::mem::swap(self, &mut taken);
        let Store { urls, mut sites, icons } = taken;
        match found {
            Some(k) => {
                sites.set(k, row);
                proof {
                    assert(tables(urls@, sites@, icons@).sites =~= old(self)@.sites.update(
                        k as int,
                        row@,
                    ));
                }
            },
            None => {
                sites.push(row);
                proof {
                    assert(tables(urls@, sites@, icons@).sites =~= old(self)@.sites.push(row@));
                }
            },
        }
        proof {
            lemma_upsert_site_wf(old(self)@, origin@, fields);
        }
        *self = Store { urls, sites, icons };
        Ok(())
    }

    /// Fetches the metadata stored under an origin.
    pub fn get_site_meta_by_origin(&self, origin: &str) -> (r: Option<SiteMeta>)
        ensures
            opt_site(r) == self@.site_by_origin(origin@),
    {
        match self.site_position(origin) {
            Some(k) => {
                let s = &self.sites[k];
                Some(
                    SiteMeta {
                        id: s.id,
                        origin: s.origin.clone(),
                        site_name: copy_text(&s.site_name),
                        description: copy_text(&s.description),
                        manifest_url: copy_text(&s.manifest_url),
                        metadata_fetched_at: s.metadata_fetched_at,
                    },
                )
            },
            None => None,
        }
    }

    /// Hands out copies of the icons of a site, in the order of their
    /// insertion.
    pub fn icons_of(&self, site_id: i64) -> (out: Vec<Icon>)
        ensures
            out@.map_values(|i: Icon| i@) == self@.icons_of(site_id),
    {
        let ghost all = self@.icons;
        let mut out: Vec<Icon> = Vec::new();
        let mut k: usize = 0;
        proof {
            reveal(Seq::filter);
            assert(all.take(0) =~= Seq::<IconView>::empty());
            assert(out@.map_values(|i: Icon| i@) =~= Seq::<IconView>::empty());
        }
        while k < self.icons.len()
            invariant
                all == self@.icons,
                k <= self.icons.len(),
                out@.map_values(|i: Icon| i@) == all.take(k as int).filter(of_site(site_id)),
            decreases self.icons.len() - k,
        {
            let ghost before = out@.map_values(|i: Icon| i@);
            let icon = &self.icons[k];
            proof {
                reveal(Seq::filter);
                assert(all.take(k + 1).drop_last() =~= all.take(k as int));
                assert(all.take(k + 1).last() == icon@);
            }
            if icon.site_id == site_id {
                out.push(
                    Icon {
                        id: icon.id,
                        site_id: icon.site_id,
                        src_url: icon.src_url.clone(),
                        width: icon.width,
                        height: icon.height,
                        mime: copy_text(&icon.mime),
                        data: copy_bytes(&icon.data),
                        fetched_at: icon.fetched_at,
                    },
                );
                proof {
                    assert(out@.map_values(|i: Icon| i@) =~= before.push(icon@));
                }
            }
            k = k + 1;
        }
        proof {
            assert(all.take(self.icons.len() as int) =~= all);
        }
        out
    }

    /// Appends an icon to the icons of a site. Earlier icons stay.
    pub fn insert_icon(
        &mut self,
        site_id: i64,
        src_url: &str,
        width: Option<i64>,
        height: Option<i64>,
        mime: Option<&str>,
        data: Vec<u8>,
        fetched_at: Option<i64>,
    ) -> (res: Result<(), StoreError>)
        ensures
            final(self)@.wf(),
            res == old(self)@.icon_verdict(site_id),
            res is Ok ==> final(self)@ == old(self)@.insert_icon(
                icon_fields(site_id, src_url, width, height, mime, data, fetched_at),
            ),
            res is Err ==> final(self)@ == old(self)@,
    {
        proof {
            use_type_invariant(&*self);
        }
        if !self.knows_site(site_id) {
            return Err(StoreError::Constraint);
        }
        let n: usize = self.icons.len();
        let id: i64 = if n == 0 {
            1
        } else {
            let last: i64 = self.icons[n - 1].id;
            assert(self@.icons.last().id == last);
            if last == i64::MAX {
                return Err(StoreError::Full);
            }
            last + 1
        };
        let ghost fields = icon_fields(site_id, src_url, width, height, mime, data, fetched_at);
        let row = Icon {
            id,
            site_id,
            src_url: src_url.to_string(),
            width,
            height,
            mime: own_text(mime),
            data,
            fetched_at,
        };
        let mut taken = Store::new();
        std::mem::swap(self, &mut taken);
        let Store { urls, sites, mut icons } = taken;
        icons.push(row);
        proof {
            lemma_insert_icon_wf(old(self)@, fields);
            assert(tables(urls@, sites@, icons@).icons =~= old(self)@.icons.push(row@));
        }
        *self = Store { urls, sites, icons };
        Ok(())
    }
}

/// Extending the icons looked at by one that cannot be current leaves the
/// current icon of the site where it was.
proof fn lemma_current_extends(icons: Seq<IconView>, site_id: i64, k: int, best: Option<usize>)
    requires
        0 <= k < icons.len(),
        !(icons[k].site_id == site_id && icons[k].fetched_at is Some),
        match best {
            Some(b) => is_current_icon(icons.subrange(0, k), site_id, b as int),
            None => forall|j: int|
                0 <= j < k ==> !((#[trigger] icons[j]).site_id == site_id
                    && icons[j].fetched_at is Some),
        },
    ensures
        match best {
            Some(b) => is_current_icon(icons.subrange(0, k + 1), site_id, b as int),
            None => forall|j: int|
                0 <= j < k + 1 ==> !((#[trigger] icons[j]).site_id == site_id
                    && icons[j].fetched_at is Some),
        },
{
    let before = icons.subrange(0, k);
    let after = icons.subrange(0, k + 1);
    match best {
        Some(b) => {
            assert(after[b as int] == before[b as int]);
            assert forall|j: int|
                0 <= j < after.len() && (#[trigger] after[j]).site_id == site_id
                    && after[j].fetched_at is Some implies after[j].fetched_at->0 < after[b as int].fetched_at->0
                || (after[j].fetched_at->0 == after[b as int].fetched_at->0 && j <= b) by {
                if j < k {
                    assert(before[j] == after[j]);
                }
            }
        },
        None => {},
    }
}

/// The fields that an upsert supplies, as the model has them.
pub open spec fn site_fields(
    site_name: Option<&str>,
    description: Option<&str>,
    manifest_url: Option<&str>,
    metadata_fetched_at: Option<i64>,
) -> SiteFields {
    SiteFields {
        site_name: opt_str(site_name),
        description: opt_str(description),
        manifest_url: opt_str(manifest_url),
        metadata_fetched_at,
    }
}

/// The fields that an icon insert supplies, as the model has them.
pub open spec fn icon_fields(
    site_id: i64,
    src_url: &str,
    width: Option<i64>,
    height: Option<i64>,
    mime: Option<&str>,
    data: Vec<u8>,
    fetched_at: Option<i64>,
) -> IconFields {
    IconFields { site_id, src_url: src_url@, width, height, mime: opt_str(mime), data: data@, fetched_at }
}

/// The text of an optional string slice.
pub open spec fn opt_str(s: Option<&str>) -> Option<Seq<char>> {
    match s {
        Some(t) => Some(t@),
        None => None,
    }
}

/// The model of an optional record.
pub open spec fn opt_record(r: Option<UrlRecord>) -> Option<UrlRecordView> {
    match r {
        Some(x) => Some(x@),
        None => None,
    }
}

/// The model of optional site metadata.
pub open spec fn opt_site(r: Option<SiteMeta>) -> Option<SiteMetaView> {
    match r {
        Some(x) => Some(x@),
        None => None,
    }
}


/// A request to the store actor: one operation with its arguments.
#[derive(Debug, Clone)]
pub enum DbRequest {
    Insert { label: String, url: String, _timestamp: i64 },
    ListRecent { limit: i64 },
    Delete { id: i64 },
    GetById { id: i64 },
    UpsertSiteMeta {
        origin: String,
        site_name: Option<String>,
        description: Option<String>,
        manifest_url: Option<String>,
        metadata_fetched_at: Option<i64>,
    },
    GetSiteMetaByOrigin { origin: String },
    InsertIcon {
        site_id: i64,
        src_url: String,
        width: Option<i64>,
        height: Option<i64>,
        mime: Option<String>,
        data: Vec<u8>,
        fetched_at: Option<i64>,
    },
}

/// The store actor's answer to a request.
#[derive(Debug, Clone)]
pub enum DbReply {
    /// The change was made.
    Done,
    /// The listing that was asked for.
    Records(Vec<UrlRecord>),
    /// The address that was asked for, if the store holds it.
    Record(Option<UrlRecord>),
    /// The site metadata that was asked for, if the store holds it.
    Site(Option<SiteMeta>),
    /// The request failed and changed nothing.
    Failed(StoreError),
}

impl View for DbRequest {
    type V = DbRequestView;

    open spec fn view(&self) -> DbRequestView {
        match *self {
            DbRequest::Insert { label, url, _timestamp } => DbRequestView::Insert {
                label: label@,
                url: url@,
                timestamp: _timestamp,
            },
            DbRequest::ListRecent { limit } => DbRequestView::ListRecent { limit },
            DbRequest::Delete { id } => DbRequestView::Delete { id },
            DbRequest::GetById { id } => DbRequestView::GetById { id },
            DbRequest::UpsertSiteMeta {
                origin,
                site_name,
                description,
                manifest_url,
                metadata_fetched_at,
            } => DbRequestView::UpsertSiteMeta {
                origin: origin@,
                site: SiteFields {
                    site_name: opt_text(site_name),
                    description: opt_text(description),
                    manifest_url: opt_text(manifest_url),
                    metadata_fetched_at,
                },
            },
            DbRequest::GetSiteMetaByOrigin { origin } => DbRequestView::GetSiteMetaByOrigin {
                origin: origin@,
            },
            DbRequest::InsertIcon { site_id, src_url, width, height, mime, data, fetched_at } =>
                DbRequestView::InsertIcon {
                icon: IconFields {
                    site_id,
                    src_url: src_url@,
                    width,
                    height,
                    mime: opt_text(mime),
                    data: data@,
                    fetched_at,
                },
            },
        }
    }
}

impl View for DbReply {
    type V = DbReplyView;

    open spec fn view(&self) -> DbReplyView {
        match *self {
            DbReply::Done => DbReplyView::Done,
            DbReply::Records(out) => DbReplyView::Records(out@.map_values(|r: UrlRecord| r@)),
            DbReply::Record(r) => DbReplyView::Record(opt_record(r)),
            DbReply::Site(s) => DbReplyView::Site(opt_site(s)),
            DbReply::Failed(e) => DbReplyView::Failed(e),
        }
    }
}

/// The model of an optional reply.
pub open spec fn opt_reply(r: Option<DbReply>) -> Option<DbReplyView> {
    match r {
        Some(x) => Some(x@),
        None => None,
    }
}

/// The model of an optional request.
pub open spec fn opt_request(r: Option<DbRequest>) -> Option<DbRequestView> {
    match r {
        Some(x) => Some(x@),
        None => None,
    }
}

/// Borrows the text of an optional string.
pub fn as_opt_str(t: &Option<String>) -> (r: Option<&str>)
    ensures
        opt_str(r) == opt_text(*t),
{
    match t {
        Some(s) => Some(s.as_str()),
        None => None,
    }
}

impl DbReply {
    /// Reads the answer to a request that changes the store.
    pub fn into_unit(self) -> (r: Result<(), StoreError>)
        ensures
            r == match self {
                DbReply::Done => Ok::<(), StoreError>(()),
                DbReply::Failed(e) => Err(e),
                _ => Err(StoreError::Protocol),
            },
    {
        match self {
            DbReply::Done => Ok(()),
            DbReply::Failed(e) => Err(e),
            _ => Err(StoreError::Protocol),
        }
    }

    /// Reads the answer to a request for a listing.
    pub fn into_records(self) -> (r: Result<Vec<UrlRecord>, StoreError>)
        ensures
            match self {
                DbReply::Records(out) => r == Ok::<Vec<UrlRecord>, StoreError>(out),
                DbReply::Failed(e) => r == Err::<Vec<UrlRecord>, StoreError>(e),
                _ => r == Err::<Vec<UrlRecord>, StoreError>(StoreError::Protocol),
            },
    {
        match self {
            DbReply::Records(out) => Ok(out),
            DbReply::Failed(e) => Err(e),
            _ => Err(StoreError::Protocol),
        }
    }

    /// Reads the answer to a request for one address.
    pub fn into_record(self) -> (r: Result<Option<UrlRecord>, StoreError>)
        ensures
            match self {
                DbReply::Record(x) => r == Ok::<Option<UrlRecord>, StoreError>(x),
                DbReply::Failed(e) => r == Err::<Option<UrlRecord>, StoreError>(e),
                _ => r == Err::<Option<UrlRecord>, StoreError>(StoreError::Protocol),
            },
    {
        match self {
            DbReply::Record(x) => Ok(x),
            DbReply::Failed(e) => Err(e),
            _ => Err(StoreError::Protocol),
        }
    }

    /// Reads the answer to a request for site metadata.
    pub fn into_site(self) -> (r: Result<Option<SiteMeta>, StoreError>)
        ensures
            match self {
                DbReply::Site(x) => r == Ok::<Option<SiteMeta>, StoreError>(x),
                DbReply::Failed(e) => r == Err::<Option<SiteMeta>, StoreError>(e),
                _ => r == Err::<Option<SiteMeta>, StoreError>(StoreError::Protocol),
            },
    {
        match self {
            DbReply::Site(x) => Ok(x),
            DbReply::Failed(e) => Err(e),
            _ => Err(StoreError::Protocol),
        }
    }
}

impl Store {
    /// Says whether the store would carry out a request, and why not,
    /// without carrying it out.
    pub fn verdict(&self, req: &DbRequest) -> (res: Result<(), StoreError>)
        ensures
            res == self@.verdict(req@),
    {
        proof {
            use_type_invariant(self);
        }
        match req {
            DbRequest::Insert { .. } => {
                let n: usize = self.urls.len();
                if n > 0 && self.urls[n - 1].id == i64::MAX {
                    proof {
                        assert(self@.urls.last().id == i64::MAX);
                    }
                    Err(StoreError::Full)
                } else {
                    proof {
                        if n > 0 {
                            assert(self@.urls.last().id == self.urls[n - 1].id);
                        }
                    }
                    Ok(())
                }
            },
            DbRequest::UpsertSiteMeta { origin, .. } => {
                let n: usize = self.sites.len();
                if self.site_position(origin.as_str()).is_none() && n > 0 && self.sites[n - 1].id
                    == i64::MAX {
                    proof {
                        assert(self@.sites.last().id == i64::MAX);
                    }
                    Err(StoreError::Full)
                } else {
                    proof {
                        if n > 0 {
                            assert(self@.sites.last().id == self.sites[n - 1].id);
                        }
                    }
                    Ok(())
                }
            },
            DbRequest::InsertIcon { site_id, .. } => {
                let n: usize = self.icons.len();
                if !self.knows_site(*site_id) {
                    Err(StoreError::Constraint)
                } else if n > 0 && self.icons[n - 1].id == i64::MAX {
                    proof {
                        assert(self@.icons.last().id == i64::MAX);
                    }
                    Err(StoreError::Full)
                } else {
                    proof {
                        if n > 0 {
                            assert(self@.icons.last().id == self.icons[n - 1].id);
                        }
                    }
                    Ok(())
                }
            },
            _ => Ok(()),
        }
    }

    /// Serves one request after the storage under the actor was asked to
    /// take what the request changes: where the storage did not, the request
    /// fails with `Storage` and the store stays as it is.
    pub fn settle(&mut self, req: DbRequest, written: bool) -> (reply: DbReply)
        ensures
            final(self)@.wf(),
            written ==> answers(old(self)@, req@, final(self)@, reply@),
            !written ==> final(self)@ == old(self)@ && reply@ == DbReplyView::Failed(
                StoreError::Storage,
            ),
    {
        proof {
            use_type_invariant(&*self);
        }
        if written {
            self.serve(req)
        } else {
            DbReply::Failed(StoreError::Storage)
        }
    }

    /// Serves one request: carries out its operation and answers it.
    pub fn serve(&mut self, req: DbRequest) -> (reply: DbReply)
        ensures
            final(self)@.wf(),
            answers(old(self)@, req@, final(self)@, reply@),
    {
        proof {
            use_type_invariant(&*self);
        }
        match req {
            DbRequest::Insert { label, url, _timestamp } => {
                match self.insert_url(label.as_str(), url.as_str(), _timestamp) {
                    Ok(_) => DbReply::Done,
                    Err(e) => DbReply::Failed(e),
                }
            },
            DbRequest::ListRecent { limit } => DbReply::Records(self.list_recent(limit)),
            DbRequest::Delete { id } => {
                self.delete(id);
                DbReply::Done
            },
            DbRequest::GetById { id } => DbReply::Record(self.get_by_id(id)),
            DbRequest::UpsertSiteMeta {
                origin,
                site_name,
                description,
                manifest_url,
                metadata_fetched_at,
            } => {
                match self.upsert_site_meta(
                    origin.as_str(),
                    as_opt_str(&site_name),
                    as_opt_str(&description),
                    as_opt_str(&manifest_url),
                    metadata_fetched_at,
                ) {
                    Ok(_) => DbReply::Done,
                    Err(e) => DbReply::Failed(e),
                }
            },
            DbRequest::GetSiteMetaByOrigin { origin } => DbReply::Site(
                self.get_site_meta_by_origin(origin.as_str()),
            ),
            DbRequest::InsertIcon { site_id, src_url, width, height, mime, data, fetched_at } => {
                match self.insert_icon(
                    site_id,
                    src_url.as_str(),
                    width,
                    height,
                    as_opt_str(&mime),
                    data,
                    fetched_at,
                ) {
                    Ok(_) => DbReply::Done,
                    Err(e) => DbReply::Failed(e),
                }
            },
        }
    }
}

/// The models of a queue of requests.
pub open spec fn requests_view(reqs: Seq<DbRequest>) -> Seq<DbRequestView> {
    reqs.map_values(|r: DbRequest| r@)
}

/// The models of a run of replies.
pub open spec fn replies_view(replies: Seq<DbReply>) -> Seq<DbReplyView> {
    replies.map_values(|r: DbReply| r@)
}

/// The store actor's loop over the requests that have arrived: serves them
/// one at a time, strictly in the order of their arrival, and answers each.
/// No request sees the store half changed by another, and a request that
/// fails does not stop the ones behind it.
pub fn db_thread(store: &mut Store, inbox: Vec<DbRequest>) -> (replies: Vec<DbReply>)
    ensures
        final(store)@.wf(),
        replies.len() == inbox.len(),
        serves(old(store)@, requests_view(inbox@), final(store)@, replies_view(replies@)),
{
    proof {
        use_type_invariant(&*store);
    }
    let ghost all = requests_view(inbox@);
    let mut replies: Vec<DbReply> = Vec::new();
    for req in it: inbox
        invariant
            all == requests_view(it.seq()),
            replies.len() == it.index(),
            store@.wf(),
            serves(old(store)@, all.take(it.index() as int), store@, replies_view(replies@)),
    {
        let ghost mid = store@;
        let ghost before = replies_view(replies@);
        let ghost i = it.index() as int;
        let reply = store.serve(req);
        replies.push(reply);
        proof {
            let reqs = all.take(i + 1);
            let now = replies_view(replies@);
            assert(reqs.drop_last() =~= all.take(i));
            assert(now.drop_last() =~= before);
            assert(reqs.last() == req@);
            assert(serves(old(store)@, reqs.drop_last(), mid, now.drop_last()) && answers(
                mid,
                reqs.last(),
                store@,
                now.last(),
            ));
        }
    }
    proof {
        assert(all.take(all.len() as int) =~= all);
    }
    replies
}

/// A handle on the store actor: every operation is a request to the actor
/// and the actor's answer to it. Once the actor is gone, every request
/// fails with `HandleClosed`.
pub struct DbHandle {
    store: Store,
    open: bool,
}

impl View for DbHandle {
    type V = Option<StoreView>;

    /// The store behind the handle, or nothing once the actor is gone.
    closed spec fn view(&self) -> Option<StoreView> {
        if self.open {
            Some(self.store@)
        } else {
            None
        }
    }
}

/// What a request through a handle must come to: on a closed handle it fails
/// and stays closed, on an open one the actor serves it.
pub open spec fn round_trip(
    pre: Option<StoreView>,
    req: DbRequestView,
    post: Option<StoreView>,
    res: Result<DbReplyView, StoreError>,
) -> bool {
    match pre {
        None => post is None && res == Err::<DbReplyView, StoreError>(StoreError::HandleClosed),
        Some(s) => match (post, res) {
            (Some(t), Ok(reply)) => t.wf() && answers(s, req, t, reply),
            _ => false,
        },
    }
}

/// The tables behind a handle, where the handle is open, meet their
/// invariant.
pub open spec fn kept(db: Option<StoreView>) -> bool {
    db matches Some(t) ==> t.wf()
}

impl DbHandle {
    /// Sends a request to the actor and waits for its answer.
    pub fn call(&mut self, req: DbRequest) -> (res: Result<DbReply, StoreError>)
        ensures
            kept(final(self)@),
            round_trip(
                old(self)@,
                req@,
                final(self)@,
                match res {
                    Ok(reply) => Ok(reply@),
                    Err(e) => Err(e),
                },
            ),
    {
        if !self.open {
            return Err(StoreError::HandleClosed);
        }
        let reply = self.store.serve(req);
        Ok(reply)
    }

    /// Ends the actor: from now on every request fails with `HandleClosed`.
    pub fn close(&mut self)
        ensures
            final(self)@ is None,
    {
        self.open = false;
    }

    /// Whether the actor behind the handle still serves requests. The
    /// tables behind an open handle meet their invariant.
    pub fn is_open(&self) -> (r: bool)
        ensures
            r == (self@ is Some),
            kept(self@),
    {
        proof {
            use_type_invariant(&self.store);
        }
        self.open
    }

    /// Says whether the actor would carry out a request, and why not,
    /// without carrying it out.
    pub fn verdict(&self, req: &DbRequest) -> (res: Result<(), StoreError>)
        ensures
            res == match self@ {
                Some(s) => s.verdict(req@),
                None => Err(StoreError::HandleClosed),
            },
    {
        if !self.open {
            return Err(StoreError::HandleClosed);
        }
        self.store.verdict(req)
    }

    /// Has the actor serve a request after the storage under it was asked
    /// to take what the request changes: where the storage did not, the
    /// request fails with `Storage` and the tables stay as they are.
    pub fn settle(&mut self, req: DbRequest, written: bool) -> (res: Result<DbReply, StoreError>)
        ensures
            kept(final(self)@),
            match old(self)@ {
                None => final(self)@ is None && (res matches Err(e) && e
                    == StoreError::HandleClosed),
                Some(s) => match (res, final(self)@) {
                    (Ok(reply), Some(t)) => if written {
                        answers(s, req@, t, reply@)
                    } else {
                        t == s && reply@ == DbReplyView::Failed(StoreError::Storage)
                    },
                    _ => false,
                },
            },
    {
        if !self.open {
            return Err(StoreError::HandleClosed);
        }
        let reply = self.store.settle(req, written);
        Ok(reply)
    }

    /// Saves a new address.
    pub fn insert_url(&mut self, label: &str, url: &str, timestamp: i64) -> (res: Result<
        (),
        StoreError,
    >)
        ensures
            kept(final(self)@),
            match old(self)@ {
                None => final(self)@ is None && res == Err::<(), StoreError>(
                    StoreError::HandleClosed,
                ),
                Some(s) => if s.can_insert_url() {
                    res is Ok && final(self)@ == Some(s.insert_url(label@, url@, timestamp))
                } else {
                    res == Err::<(), StoreError>(StoreError::Full) && final(self)@ == Some(s)
                },
            },
    {
        let req = DbRequest::Insert {
            label: label.to_string(),
            url: url.to_string(),
            _timestamp: timestamp,
        };
        match self.call(req) {
            Ok(reply) => reply.into_unit(),
            Err(e) => Err(e),
        }
    }

    /// Lists the most recent addresses, newest first, at most `limit` of
    /// them, each in its enriched form.
    pub fn list_recent(&mut self, limit: i64) -> (res: Result<Vec<UrlRecord>, StoreError>)
        ensures
            kept(final(self)@),
            final(self)@ == old(self)@,
            match old(self)@ {
                None => res == Err::<Vec<UrlRecord>, StoreError>(StoreError::HandleClosed),
                Some(s) => match res {
                    Ok(out) => s.lists(limit as int, out@.map_values(|r: UrlRecord| r@)),
                    Err(_) => false,
                },
            },
    {
        let req = DbRequest::ListRecent { limit };
        match self.call(req) {
            Ok(reply) => reply.into_records(),
            Err(e) => Err(e),
        }
    }

    /// Removes the address with the given identity. An identity that the
    /// store does not hold is no error.
    pub fn delete(&mut self, id: i64) -> (res: Result<(), StoreError>)
        ensures
            kept(final(self)@),
            match old(self)@ {
                None => final(self)@ is None && res == Err::<(), StoreError>(
                    StoreError::HandleClosed,
                ),
                Some(s) => res is Ok && final(self)@ == Some(s.delete(id)),
            },
    {
        let req = DbRequest::Delete { id };
        match self.call(req) {
            Ok(reply) => reply.into_unit(),
            Err(e) => Err(e),
        }
    }

    /// Fetches the address with the given identity in its enriched form.
    pub fn get_by_id(&mut self, id: i64) -> (res: Result<Option<UrlRecord>, StoreError>)
        ensures
            kept(final(self)@),
            final(self)@ == old(self)@,
            match old(self)@ {
                None => res == Err::<Option<UrlRecord>, StoreError>(StoreError::HandleClosed),
                Some(s) => match res {
                    Ok(r) => opt_record(r) == s.record_by_id(id),
                    Err(_) => false,
                },
            },
    {
        let req = DbRequest::GetById { id };
        match self.call(req) {
            Ok(reply) => reply.into_record(),
            Err(e) => Err(e),
        }
    }

    /// Writes the metadata of an origin; the last writer wins.
    pub fn upsert_site_meta(
        &mut self,
        origin: &str,
        site_name: Option<&str>,
        description: Option<&str>,
        manifest_url: Option<&str>,
        metadata_fetched_at: Option<i64>,
    ) -> (res: Result<(), StoreError>)
        ensures
            kept(final(self)@),
            match old(self)@ {
                None => final(self)@ is None && res == Err::<(), StoreError>(
                    StoreError::HandleClosed,
                ),
                Some(s) => if s.can_upsert_site(origin@) {
                    res is Ok && final(self)@ == Some(
                        s.upsert_site(
                            origin@,
                            site_fields(site_name, description, manifest_url, metadata_fetched_at),
                        ),
                    )
                } else {
                    res == Err::<(), StoreError>(StoreError::Full) && final(self)@ == Some(s)
                },
            },
    {
        let req = DbRequest::UpsertSiteMeta {
            origin: origin.to_string(),
            site_name: own_text(site_name),
            description: own_text(description),
            manifest_url: own_text(manifest_url),
            metadata_fetched_at,
        };
        match self.call(req) {
            Ok(reply) => reply.into_unit(),
            Err(e) => Err(e),
        }
    }

    /// Fetches the metadata stored under an origin.
    pub fn get_site_meta_by_origin(&mut self, origin: &str) -> (res: Result<
        Option<SiteMeta>,
        StoreError,
    >)
        ensures
            kept(final(self)@),
            final(self)@ == old(self)@,
            match old(self)@ {
                None => res == Err::<Option<SiteMeta>, StoreError>(StoreError::HandleClosed),
                Some(s) => match res {
                    Ok(r) => opt_site(r) == s.site_by_origin(origin@),
                    Err(_) => false,
                },
            },
    {
        let req = DbRequest::GetSiteMetaByOrigin { origin: origin.to_string() };
        match self.call(req) {
            Ok(reply) => reply.into_site(),
            Err(e) => Err(e),
        }
    }

    /// Appends an icon to the icons of a site. Earlier icons stay.
    pub fn insert_icon(
        &mut self,
        site_id: i64,
        src_url: &str,
        width: Option<i64>,
        height: Option<i64>,
        mime: Option<&str>,
        data: Vec<u8>,
        fetched_at: Option<i64>,
    ) -> (res: Result<(), StoreError>)
        ensures
            kept(final(self)@),
            match old(self)@ {
                None => final(self)@ is None && res == Err::<(), StoreError>(
                    StoreError::HandleClosed,
                ),
                Some(s) => res == s.icon_verdict(site_id) && final(self)@ == Some(
                    if res is Ok {
                        s.insert_icon(
                            icon_fields(site_id, src_url, width, height, mime, data, fetched_at),
                        )
                    } else {
                        s
                    },
                ),
            },
    {
        let req = DbRequest::InsertIcon {
            site_id,
            src_url: src_url.to_string(),
            width,
            height,
            mime: own_text(mime),
            data,
            fetched_at,
        };
        match self.call(req) {
            Ok(reply) => reply.into_unit(),
            Err(e) => Err(e),
        }
    }
}

/// The process-wide place of the store handle. It is filled once, when the
/// process starts, and only read thereafter; until then the store is not
/// ready.
pub struct GlobalDb {
    handle: Option<DbHandle>,
}

impl View for GlobalDb {
    type V = Option<Option<StoreView>>;

    /// The handle that was installed, if one was: itself the store behind
    /// it, or nothing once the actor is gone.
    closed spec fn view(&self) -> Option<Option<StoreView>> {
        match self.handle {
            Some(db) => Some(db@),
            None => None,
        }
    }
}

impl GlobalDb {
    /// The place before any handle was installed.
    pub fn new() -> (slot: GlobalDb)
        ensures
            slot@ is None,
    {
        GlobalDb { handle: None }
    }
}

/// Installs the process-wide handle. Only the first call does: a later one
/// fails with `AlreadyInitialized` and leaves the installed handle in place.
pub fn set_global(slot: &mut GlobalDb, db: DbHandle) -> (res: Result<(), StoreError>)
    ensures
        match old(slot)@ {
            None => res is Ok && final(slot)@ == Some(db@),
            Some(_) => res == Err::<(), StoreError>(StoreError::AlreadyInitialized) && final(slot)@
                == old(slot)@,
        },
{
    if slot.handle.is_some() {
        return Err(StoreError::AlreadyInitialized);
    }
    slot.handle = Some(db);
    Ok(())
}

/// Hands out the process-wide handle, or nothing while none is installed.
pub fn get_global(slot: &mut GlobalDb) -> (r: Option<&mut DbHandle>)
    ensures
        match r {
            Some(db) => old(slot)@ == Some(db@) && final(slot)@ == Some(final(db)@),
            None => old(slot)@ is None && final(slot)@ is None,
        },
{
    slot.handle.as_mut()
}

/// Starts the store actor on the three tables as the storage holds them
/// and hands out the handle on it. Rows of an earlier run are taken over
/// as they are and served from then on; storage that holds none starts the
/// actor on empty tables. Tables that break their invariant are refused as
/// a failure of the storage.
pub fn init_db(urls: Vec<UrlEntry>, sites: Vec<SiteMeta>, icons: Vec<Icon>) -> (res: Result<
    DbHandle,
    StoreError,
>)
    ensures
        match res {
            Ok(db) => db@ == Some(tables(urls@, sites@, icons@)) && kept(db@),
            Err(e) => e == StoreError::Storage && !tables(urls@, sites@, icons@).wf(),
        },
        urls@.len() == 0 && sites@.len() == 0 && icons@.len() == 0 ==> (res matches Ok(db) && db@
            == Some(StoreView::empty())),
{
    proof {
        if urls@.len() == 0 && sites@.len() == 0 && icons@.len() == 0 {
            assert(tables(urls@, sites@, icons@).urls =~= Seq::empty());
            assert(tables(urls@, sites@, icons@).sites =~= Seq::empty());
            assert(tables(urls@, sites@, icons@).icons =~= Seq::empty());
        }
    }
    match Store::restore(urls, sites, icons) {
        Ok(store) => Ok(DbHandle { store, open: true }),
        Err(e) => Err(e),
    }
}

} // verus!
