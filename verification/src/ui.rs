//! What the user interface decides: whether a new entry may be saved, what
//! follows from an action on the list, and what follows from an event of
//! the tray.

use vstd::prelude::*;
use crate::db::{DbHandle, DbReply, DbRequest, StoreError, UrlRecord, opt_request};
use crate::db_model::{DbReplyView, DbRequestView, StoreView, UrlRecordView};
use crate::text::{concat, same, signed_decimal, signed_text, trim, trimmed};
use crate::tray::TrayEvent;
use crate::weburl::{UrlError, UrlParts, UrlPartsView, normal_target, opt_parts, opt_text, parse_url, parsed_url};
use crate::webview::{SurfaceManager, open_url, opened};

verus! {

/// Why a new entry is refused.
#[derive(Debug, Clone, Copy, PartialEq, Eq, Structural)]
pub enum FormError {
    EmptyLabel,
    EmptyUrl,
    InvalidUrl,
    UnsupportedScheme,
    MissingHost,
}

impl FormError {
    /// The error in words, as the form shows it.
    pub fn message(&self) -> (r: String)
        ensures
            r@ == match *self {
                FormError::EmptyLabel => "The label cannot be empty"@,
                FormError::EmptyUrl => "The URL cannot be empty"@,
                FormError::InvalidUrl => "Invalid URL"@,
                FormError::UnsupportedScheme => "Only http(s) URLs are supported"@,
                FormError::MissingHost => "The URL must contain a host"@,
            },
    {
        match self {
            FormError::EmptyLabel => "The label cannot be empty".to_string(),
            FormError::EmptyUrl => "The URL cannot be empty".to_string(),
            FormError::InvalidUrl => "Invalid URL".to_string(),
            FormError::UnsupportedScheme => "Only http(s) URLs are supported".to_string(),
            FormError::MissingHost => "The URL must contain a host".to_string(),
        }
    }
}

/// A new entry that passed the form's checks.
#[derive(Debug, Clone)]
pub struct NewEntry {
    pub label: String,
    pub url: String,
}

/// The mathematical value of a [`NewEntry`].
pub struct NewEntryView {
    pub label: Seq<char>,
    pub url: Seq<char>,
}

impl View for NewEntry {
    type V = NewEntryView;

    open spec fn view(&self) -> NewEntryView {
        NewEntryView { label: self.label@, url: self.url@ }
    }
}

/// The form's verdict on a new entry whose label and URL have no white
/// space around them, given what parsing the URL gave.
///
/// Neither label nor URL may be empty. The URL must parse as an absolute
/// URL, with the scheme `http` or `https` and with a host; it is saved in
/// its normal form.
pub open spec fn checked_entry(label: Seq<char>, url: Seq<char>, parts: Option<UrlPartsView>) -> Result<
    NewEntryView,
    FormError,
> {
    if label.len() == 0 {
        Err(FormError::EmptyLabel)
    } else if url.len() == 0 {
        Err(FormError::EmptyUrl)
    } else {
        match parts {
            None => Err(FormError::InvalidUrl),
            Some(p) => if p.scheme != "http"@ && p.scheme != "https"@ {
                Err(FormError::UnsupportedScheme)
            } else if p.host is None {
                Err(FormError::MissingHost)
            } else {
                Ok(NewEntryView { label, url: p.href })
            },
        }
    }
}

/// The form's verdict on a new entry: that on its label and URL without
/// the white space around them.
pub open spec fn valid_entry(label: Seq<char>, url: Seq<char>) -> Result<NewEntryView, FormError> {
    checked_entry(trimmed(label), trimmed(url), parsed_url(trimmed(url)))
}

/// The model of the form's verdict.
pub open spec fn verdict_view(r: Result<NewEntry, FormError>) -> Result<NewEntryView, FormError> {
    match r {
        Ok(e) => Ok(e@),
        Err(e) => Err(e),
    }
}

/// Checks a new entry whose label and URL have no white space around them,
/// given what parsing the URL gave.
pub fn check_entry(label: &str, url: &str, parts: Option<UrlParts>) -> (r: Result<NewEntry, FormError>)
    ensures
        verdict_view(r) == checked_entry(label@, url@, opt_parts(parts)),
{
    if label.unicode_len() == 0 {
        return Err(FormError::EmptyLabel);
    }
    if url.unicode_len() == 0 {
        return Err(FormError::EmptyUrl);
    }
    match parts {
        None => Err(FormError::InvalidUrl),
        Some(p) => {
            if !same(p.scheme.as_str(), "http") && !same(p.scheme.as_str(), "https") {
                Err(FormError::UnsupportedScheme)
            } else if p.host.is_none() {
                Err(FormError::MissingHost)
            } else {
                Ok(NewEntry { label: label.to_string(), url: p.href })
            }
        },
    }
}

/// Checks a new entry before it is saved.
pub fn validate_entry(label: &str, url: &str) -> (r: Result<NewEntry, FormError>)
    ensures
        verdict_view(r) == valid_entry(label@, url@),
{
    let lab = trim(label);
    let urlv = trim(url);
    let parts = parse_url(urlv.as_str());
    check_entry(lab.as_str(), urlv.as_str(), parts)
}

/// The text of bytes in base64, with the standard alphabet and padding, as
/// `base64` encodes them.
pub uninterp spec fn base64_text(bytes: Seq<u8>) -> Seq<char>;

/// Calls `Engine::encode` of `base64` on the engine
/// `general_purpose::STANDARD`. Nothing is proved of it: the contract only
/// gives the outcome the name `base64_text`, a function of the bytes alone.
#[verifier::external_body]
pub(crate) fn encode_base64(bytes: &Vec<u8>) -> (r: String)
    ensures
        r@ == base64_text(bytes@),
{
    base64::Engine::encode(&base64::engine::general_purpose::STANDARD, bytes)
}

/// The source of the image that shows a record's icon: the icon's bytes as
/// a `data:` address of the icon's media type, or of `image/png` where the
/// type is unknown; nothing for a record without icon.
pub open spec fn icon_source(r: UrlRecordView) -> Option<Seq<char>> {
    match r.icon_data {
        Some(data) => Some(
            data_address(
                match r.icon_mime {
                    Some(m) => m,
                    None => "image/png"@,
                },
                base64_text(data),
            ),
        ),
        None => None,
    }
}

/// A `data:` address of the given media type around an encoded payload.
pub open spec fn data_address(mime: Seq<char>, encoded: Seq<char>) -> Seq<char> {
    "data:"@ + mime + ";base64,"@ + encoded
}

/// Writes a `data:` address around an encoded payload.
pub fn data_url(mime: &str, encoded: &str) -> (r: String)
    ensures
        r@ == data_address(mime@, encoded@),
{
    let mut r = concat("data:", mime);
    r.append(";base64,");
    r.append(encoded);
    r
}

/// Writes the source of the image that shows a record's icon.
pub fn icon_src(r: &UrlRecord) -> (src: Option<String>)
    ensures
        opt_text(src) == icon_source(r@),
{
    match &r.icon_data {
        Some(data) => {
            let encoded = encode_base64(data);
            match &r.icon_mime {
                Some(m) => Some(data_url(m.as_str(), encoded.as_str())),
                None => Some(data_url("image/png", encoded.as_str())),
            }
        },
        None => None,
    }
}

/// An action of the user on the list.
#[derive(Debug, Clone)]
pub enum DbAction {
    /// Load the list.
    Load,
    /// Remove the entry with this identity.
    Delete(i64),
    /// Save an entry: label, URL and time.
    Insert(String, String, i64),
}

/// What the list shows and the error under the form.
pub struct UiState {
    pub urls: Vec<UrlRecord>,
    pub error_msg: String,
}

/// How many entries the list shows at most.
pub const LIST_LIMIT: i64 = 100;

/// The store after an action, where the handle is open on `s`.
pub open spec fn store_after(s: StoreView, action: DbAction) -> StoreView {
    match action {
        DbAction::Load => s,
        DbAction::Delete(id) => s.delete(id),
        DbAction::Insert(label, url, timestamp) => if s.can_insert_url() {
            s.insert_url(label@, url@, timestamp)
        } else {
            s
        },
    }
}

/// The request that an action sends to the store first; a load sends none.
pub open spec fn first_request(action: DbAction) -> Option<DbRequestView> {
    match action {
        DbAction::Load => None,
        DbAction::Delete(id) => Some(DbRequestView::Delete { id }),
        DbAction::Insert(label, url, timestamp) => Some(
            DbRequestView::Insert { label: label@, url: url@, timestamp },
        ),
    }
}

/// Says which request an action sends to the store first.
pub fn action_request(action: &DbAction) -> (req: Option<DbRequest>)
    ensures
        opt_request(req) == first_request(*action),
{
    match action {
        DbAction::Load => None,
        DbAction::Delete(id) => Some(DbRequest::Delete { id: *id }),
        DbAction::Insert(label, url, timestamp) => Some(
            DbRequest::Insert { label: label.clone(), url: url.clone(), _timestamp: *timestamp },
        ),
    }
}

/// The request for the listing that the list shows.
pub fn list_request() -> (req: DbRequest)
    ensures
        req@ == (DbRequestView::ListRecent { limit: LIST_LIMIT }),
{
    DbRequest::ListRecent { limit: LIST_LIMIT }
}

/// What the answer to an action's request comes to: done, or the failure.
/// `None` stands for a request that was not sent; an answer of the wrong
/// kind counts as a failure of the protocol.
pub open spec fn answer_result(answer: Option<Result<DbReplyView, StoreError>>) -> Result<
    (),
    StoreError,
> {
    match answer {
        Some(Ok(DbReplyView::Done)) => Ok(()),
        Some(Ok(DbReplyView::Failed(e))) => Err(e),
        Some(Ok(_)) => Err(StoreError::Protocol),
        Some(Err(e)) => Err(e),
        None => Err(StoreError::Protocol),
    }
}

/// What the interface does after an action's request was answered.
#[derive(Debug, Clone)]
pub struct Follow {
    /// Whether the list is loaded afresh.
    pub refresh: bool,
    /// The error to show under the form from now on; `None` leaves the one
    /// that shows.
    pub error: Option<String>,
}

/// The mathematical value of a [`Follow`].
pub struct FollowView {
    pub refresh: bool,
    pub error: Option<Seq<char>>,
}

impl View for Follow {
    type V = FollowView;

    open spec fn view(&self) -> FollowView {
        FollowView { refresh: self.refresh, error: opt_text(self.error) }
    }
}

/// What follows an action, given what its request came to.
///
/// A load and a removal are followed by a fresh listing, whatever the
/// removal came to, and leave the error as it is. A save that succeeded
/// clears the error and is followed by a fresh listing; one that failed
/// shows the failure and leaves the list as it is.
pub open spec fn follow_on(action: DbAction, result: Result<(), StoreError>) -> FollowView {
    match action {
        DbAction::Insert(_, _, _) => match result {
            Ok(_) => FollowView { refresh: true, error: Some(Seq::<char>::empty()) },
            Err(e) => FollowView {
                refresh: false,
                error: Some("Erreur DB: "@ + store_error_text(e)),
            },
        },
        _ => FollowView { refresh: true, error: None },
    }
}

/// The model of an answer.
pub open spec fn answer_view(answer: Option<Result<DbReply, StoreError>>) -> Option<
    Result<DbReplyView, StoreError>,
> {
    match answer {
        Some(Ok(reply)) => Some(Ok(reply@)),
        Some(Err(e)) => Some(Err(e)),
        None => None,
    }
}

/// Decides what follows an action, given the answer to its request;
/// `None` where the action sent none.
pub fn action_follow(action: &DbAction, answer: Option<Result<DbReply, StoreError>>) -> (f: Follow)
    ensures
        f@ == follow_on(*action, answer_result(answer_view(answer))),
{
    match action {
        DbAction::Insert(_, _, _) => {
            let result = match answer {
                Some(Ok(reply)) => reply.into_unit(),
                Some(Err(e)) => Err(e),
                None => Err(StoreError::Protocol),
            };
            match result {
                Ok(_) => Follow { refresh: true, error: Some(String::new()) },
                Err(e) => Follow { refresh: false, error: Some(save_failure(e)) },
            }
        },
        _ => Follow { refresh: true, error: None },
    }
}

/// Carries out an action of the user on the store and says what the list
/// shows then.
///
/// Without a store nothing happens. A load shows the fresh listing. A
/// removal is followed by a fresh listing, whatever it came to. A save that
/// succeeded clears the error and is followed by a fresh listing; one that
/// failed shows the error and leaves the list as it is.
pub fn apply_action(state: &mut UiState, db: Option<&mut DbHandle>, action: DbAction)
    ensures
        match db {
            None => *final(state) == *old(state),
            Some(h) => match h@ {
                None => final(h)@ is None && final(state).urls == old(state).urls && (if action is Insert {
                    final(state).error_msg@ == "Erreur DB: "@ + "the store actor is gone"@
                } else {
                    final(state).error_msg == old(state).error_msg
                }),
                Some(s) => {
                    &&& final(h)@ == Some(store_after(s, action))
                    &&& if action is Insert && !s.can_insert_url() {
                        &&& final(state).urls == old(state).urls
                        &&& final(state).error_msg@ == "Erreur DB: "@
                            + "the table has no identity left"@
                    } else {
                        &&& store_after(s, action).lists(
                            LIST_LIMIT as int,
                            final(state).urls@.map_values(|r: UrlRecord| r@),
                        )
                        &&& if action is Insert {
                            final(state).error_msg@.len() == 0
                        } else {
                            final(state).error_msg == old(state).error_msg
                        }
                    }
                },
            },
        },
{
    match db {
        None => {},
        Some(h) => {
            let answer = match action_request(&action) {
                Some(req) => Some(h.call(req)),
                None => None,
            };
            let follow = action_follow(&action, answer);
            match follow.error {
                Some(msg) => {
                    state.error_msg = msg;
                },
                None => {},
            }
            if follow.refresh {
                match h.call(list_request()) {
                    Ok(reply) => match reply.into_records() {
                        Ok(list) => {
                            state.urls = list;
                        },
                        Err(_) => {},
                    },
                    Err(_) => {},
                }
            }
        },
    }
}

/// What follows from an event of the tray: a notice to show, or an address
/// to open.
pub enum Reaction {
    Notice(Seq<char>),
    Open(Seq<char>),
}

/// What follows from an event of the tray.
#[derive(Debug, Clone)]
pub enum TrayReaction {
    /// Show this notice.
    Notice(String),
    /// Open this address.
    Open(String),
}

impl View for TrayReaction {
    type V = Reaction;

    open spec fn view(&self) -> Reaction {
        match *self {
            TrayReaction::Notice(text) => Reaction::Notice(text@),
            TrayReaction::Open(url) => Reaction::Open(url@),
        }
    }
}

/// What asking the store for a saved address came to.
pub enum Lookup {
    /// No handle is installed, so nothing was asked.
    NoStore,
    /// The store failed to answer.
    Failed(StoreError),
    /// The store holds no such address.
    Absent,
    /// The store holds the address, with this URL.
    Found(Seq<char>),
}

/// What asking the store for a saved address comes to.
pub open spec fn lookup_in(db: Option<Option<StoreView>>, id: i64) -> Lookup {
    match db {
        None => Lookup::NoStore,
        Some(None) => Lookup::Failed(StoreError::HandleClosed),
        Some(Some(s)) => match s.record_by_id(id) {
            Some(rec) => Lookup::Found(rec.url),
            None => Lookup::Absent,
        },
    }
}

/// The model of what asking the store came to.
pub open spec fn lookup_view(found: Option<Result<Option<UrlRecord>, StoreError>>) -> Lookup {
    match found {
        None => Lookup::NoStore,
        Some(Err(e)) => Lookup::Failed(e),
        Some(Ok(None)) => Lookup::Absent,
        Some(Ok(Some(rec))) => Lookup::Found(rec.url@),
    }
}

/// The words for a failure of the store.
pub open spec fn store_error_text(e: StoreError) -> Seq<char> {
    match e {
        StoreError::HandleClosed => "the store actor is gone"@,
        StoreError::AlreadyInitialized => "global DB handle already set"@,
        StoreError::Constraint => "the icon refers to a site that is not stored"@,
        StoreError::Full => "the table has no identity left"@,
        StoreError::Storage => "the storage layer failed"@,
        StoreError::Protocol => "the reply does not answer the request"@,
    }
}

/// What follows from an event of the tray, given what asking the store for
/// the address that the event names came to.
///
/// A request to open a saved address opens the address, where the store
/// holds it, and gives notice where it does not or cannot be asked. Every
/// other event gives notice of itself.
pub open spec fn reaction_on(ev: TrayEvent, found: Lookup) -> Reaction {
    match ev {
        TrayEvent::OpenUrl(id) => match found {
            Lookup::NoStore => Reaction::Notice("Base de données non disponible"@),
            Lookup::Failed(e) => Reaction::Notice("Erreur DB (tray): "@ + store_error_text(e)),
            Lookup::Absent => Reaction::Notice(
                "URL introuvable (id="@ + signed_text(id as int) + ")"@,
            ),
            Lookup::Found(url) => Reaction::Open(url),
        },
        TrayEvent::Show => Reaction::Notice("Tray: show clicked"@),
        TrayEvent::Add => Reaction::Notice("Tray: add clicked"@),
        TrayEvent::Quit => Reaction::Notice("Tray: quit requested"@),
    }
}

/// What follows from an event of the tray, given the store: `None` while no
/// handle is installed, `Some(None)` once the store's actor is gone.
pub open spec fn reaction_to(db: Option<Option<StoreView>>, ev: TrayEvent) -> Reaction {
    match ev {
        TrayEvent::OpenUrl(id) => reaction_on(ev, lookup_in(db, id)),
        _ => reaction_on(ev, Lookup::NoStore),
    }
}

/// Decides what follows from an event of the tray, given what asking the
/// store for the address that the event names came to.
pub fn react(ev: TrayEvent, found: Option<Result<Option<UrlRecord>, StoreError>>) -> (r: TrayReaction)
    ensures
        r@ == reaction_on(ev, lookup_view(found)),
{
    match ev {
        TrayEvent::OpenUrl(id) => match found {
            None => TrayReaction::Notice("Base de données non disponible".to_string()),
            Some(Err(e)) => TrayReaction::Notice(
                concat("Erreur DB (tray): ", e.message().as_str()),
            ),
            Some(Ok(None)) => {
                let mut msg = concat("URL introuvable (id=", signed_decimal(id).as_str());
                msg.append(")");
                TrayReaction::Notice(msg)
            },
            Some(Ok(Some(rec))) => TrayReaction::Open(rec.url),
        },
        TrayEvent::Show => TrayReaction::Notice("Tray: show clicked".to_string()),
        TrayEvent::Add => TrayReaction::Notice("Tray: add clicked".to_string()),
        TrayEvent::Quit => TrayReaction::Notice("Tray: quit requested".to_string()),
    }
}

/// The notice for an address that could not be opened, for the reason
/// given in words.
pub fn open_failure_text(reason: &str) -> (msg: String)
    ensures
        msg@ == "Erreur ouverture URL (tray): "@ + reason@,
{
    concat("Erreur ouverture URL (tray): ", reason)
}

/// The notice for an address that could not be opened because it has no
/// normal form.
pub fn open_failure(e: UrlError) -> (msg: String)
    ensures
        msg@ == "Erreur ouverture URL (tray): "@ + "invalid url"@,
{
    open_failure_text(e.message().as_str())
}

/// The notice for a save that the store refused.
pub fn save_failure(e: StoreError) -> (msg: String)
    ensures
        msg@ == "Erreur DB: "@ + store_error_text(e),
{
    concat("Erreur DB: ", e.message().as_str())
}

/// The store behind an optional handle.
pub open spec fn reach(db: Option<&mut DbHandle>) -> Option<Option<StoreView>> {
    match db {
        Some(h) => Some(h@),
        None => None,
    }
}

/// Reacts to an event of the tray: opens the address that the event names,
/// and returns the notice that the interface is to show, if any. An address
/// that cannot be opened gives notice of that.
pub fn on_tray_event(db: Option<&mut DbHandle>, mgr: &mut SurfaceManager, ev: TrayEvent) -> (msg: Option<
    String,
>)
    ensures
        db matches Some(h) ==> final(h)@ == h@,
        match reaction_to(reach(db), ev) {
            Reaction::Notice(text) => opt_text(msg) == Some(text) && final(mgr)@ == old(mgr)@,
            Reaction::Open(url) => final(mgr)@ == opened(old(mgr)@, url) && match normal_target(url) {
                Ok(_) => msg is None,
                Err(_) => opt_text(msg) == Some("Erreur ouverture URL (tray): "@ + "invalid url"@),
            },
        },
{
    let found = match ev {
        TrayEvent::OpenUrl(id) => match db {
            Some(h) => Some(h.get_by_id(id)),
            None => None,
        },
        _ => None,
    };
    match react(ev, found) {
        TrayReaction::Notice(text) => Some(text),
        TrayReaction::Open(url) => match open_url(mgr, url) {
            Ok(_) => None,
            Err(e) => Some(open_failure(e)),
        },
    }
}

} // verus!
