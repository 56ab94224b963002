//! The event registry between the tray menu and the user interface, and the
//! model of the tray menu itself.

use vstd::prelude::*;
use crate::db::{DbHandle, UrlRecord};
use crate::db_model::{StoreView, UrlRecordView};

verus! {

/// An intent raised by the tray menu and consumed by the user interface.
#[derive(Debug, Clone, Copy, PartialEq, Eq, Structural)]
pub enum TrayEvent {
    Show,
    Add,
    Quit,
    /// Open the saved address with this identity.
    OpenUrl(i64),
}

/// Why a tray operation failed.
#[derive(Debug, Clone, Copy, PartialEq, Eq, Structural)]
pub enum TrayError {
    /// The tray was not started, so there is no queue to send on.
    NotStarted,
}

impl TrayError {
    /// The error in words.
    pub fn message(&self) -> (r: String)
        ensures
            r@ == "tray not started"@,
    {
        "tray not started".to_string()
    }
}

/// The registry of tray events: one queue for the whole process, created
/// when the tray starts.
///
/// Any number of producers may send. The queue hands each event out once,
/// to whichever receiver asks first, so it is meant for a single consumer:
/// a second one would take events away from the first, not see them too.
pub struct EventRegistry {
    queue: Option<Vec<TrayEvent>>,
}

impl View for EventRegistry {
    type V = Option<Seq<TrayEvent>>;

    /// The events waiting to be received, oldest first; nothing before the
    /// tray was started.
    closed spec fn view(&self) -> Option<Seq<TrayEvent>> {
        match self.queue {
            Some(q) => Some(q@),
            None => None,
        }
    }
}

/// The receiving end of the registry's queue.
#[derive(Debug, Clone, Copy)]
pub struct Receiver {}

impl EventRegistry {
    /// The registry before the tray was started.
    pub fn new() -> (reg: EventRegistry)
        ensures
            reg@ is None,
    {
        EventRegistry { queue: None }
    }

    /// Creates the queue unless it exists: starting twice keeps the first
    /// queue and what waits in it.
    pub fn start(&mut self)
        ensures
            final(self)@ == match old(self)@ {
                Some(q) => Some(q),
                None => Some(Seq::<TrayEvent>::empty()),
            },
    {
        if self.queue.is_none() {
            self.queue = Some(Vec::new());
        }
    }
}

impl Receiver {
    /// Takes the oldest waiting event off the queue, if there is one.
    pub fn try_recv(&self, reg: &mut EventRegistry) -> (r: Option<TrayEvent>)
        ensures
            match old(reg)@ {
                Some(q) => if q.len() > 0 {
                    r == Some(q[0]) && final(reg)@ == Some(q.drop_first())
                } else {
                    r is None && final(reg)@ == old(reg)@
                },
                None => r is None && final(reg)@ is None,
            },
    {
        match &mut reg.queue {
            Some(q) => {
                if q.len() > 0 {
                    let ev = q.remove(0);
                    proof {
                        assert(q@ =~= old(reg)@->0.drop_first());
                    }
                    Some(ev)
                } else {
                    None
                }
            },
            None => None,
        }
    }
}

/// Hands out the receiving end of the queue, once the tray was started.
pub fn get_receiver(reg: &EventRegistry) -> (r: Option<Receiver>)
    ensures
        r is Some <==> reg@ is Some,
{
    if reg.queue.is_some() {
        Some(Receiver {  })
    } else {
        None
    }
}

/// Sends an event to the user interface: it joins the queue behind the
/// events that wait there. Fails while the tray is not started.
pub fn send_event(reg: &mut EventRegistry, ev: TrayEvent) -> (res: Result<(), TrayError>)
    ensures
        match old(reg)@ {
            Some(q) => res is Ok && final(reg)@ == Some(q.push(ev)),
            None => res == Err::<(), TrayError>(TrayError::NotStarted) && final(reg)@ is None,
        },
{
    match &mut reg.queue {
        Some(q) => {
            q.push(ev);
            Ok(())
        },
        None => Err(TrayError::NotStarted),
    }
}


/// An entry of the tray's history: one saved address that a click opens.
#[derive(Debug, Clone)]
pub struct HistoryItem {
    /// The identity of the menu entry.
    pub id: u64,
    /// What the entry shows.
    pub label: String,
    /// The identity of the saved address.
    pub url_id: i64,
}

/// The mathematical value of a [`HistoryItem`].
pub struct HistoryItemView {
    pub id: u64,
    pub label: Seq<char>,
    pub url_id: i64,
}

impl View for HistoryItem {
    type V = HistoryItemView;

    open spec fn view(&self) -> HistoryItemView {
        HistoryItemView { id: self.id, label: self.label@, url_id: self.url_id }
    }
}

/// The tray menu: three fixed entries and the history between them.
#[derive(Debug, Clone)]
pub struct TrayMenu {
    pub show_id: u64,
    pub add_id: u64,
    pub quit_id: u64,
    pub history: Vec<HistoryItem>,
}

/// The mathematical value of a [`TrayMenu`].
pub struct TrayMenuView {
    pub show_id: u64,
    pub add_id: u64,
    pub quit_id: u64,
    pub history: Seq<HistoryItemView>,
}

impl View for TrayMenu {
    type V = TrayMenuView;

    open spec fn view(&self) -> TrayMenuView {
        TrayMenuView {
            show_id: self.show_id,
            add_id: self.add_id,
            quit_id: self.quit_id,
            history: self.history@.map_values(|h: HistoryItem| h@),
        }
    }
}

/// The identity of the entry that shows the list.
pub const SHOW_ID: u64 = 1;

/// The identity of the entry that adds an address.
pub const ADD_ID: u64 = 2;

/// The identity of the first entry of the history.
pub const FIRST_HISTORY_ID: u64 = 4;

/// The most addresses that the history holds.
pub const HISTORY_LIMIT: i64 = 5;

/// What a history entry shows: the site's name or, failing that, the
/// address's label, and the URL in brackets.
pub open spec fn history_label(r: UrlRecordView) -> Seq<char> {
    let display = match r.site_name {
        Some(name) => name,
        None => r.label,
    };
    display + " ("@ + r.url + ")"@
}

/// The menu for a listing: the history holds one entry for each record, in
/// the order of the listing, with identities that count up from the first;
/// the entry that quits comes after them.
pub open spec fn menu_for(records: Seq<UrlRecordView>) -> TrayMenuView {
    TrayMenuView {
        show_id: SHOW_ID,
        add_id: ADD_ID,
        quit_id: (FIRST_HISTORY_ID + records.len()) as u64,
        history: Seq::new(
            records.len(),
            |i: int|
                HistoryItemView {
                    id: (FIRST_HISTORY_ID + i) as u64,
                    label: history_label(records[i]),
                    url_id: records[i].id,
                },
        ),
    }
}

/// The entry of the history with the given identity is at position `i`, and
/// no entry before it has that identity.
pub open spec fn is_first_hit(history: Seq<HistoryItemView>, clicked: u64, i: int) -> bool {
    &&& 0 <= i < history.len()
    &&& history[i].id == clicked
    &&& forall|j: int| 0 <= j < i ==> (#[trigger] history[j]).id != clicked
}

/// The event that a click on a menu entry raises: a history entry opens its
/// address; of the fixed entries each raises its own event; a click on
/// anything else raises none.
pub open spec fn menu_event(menu: TrayMenuView, clicked: u64) -> Option<TrayEvent> {
    if exists|i: int| is_first_hit(menu.history, clicked, i) {
        Some(TrayEvent::OpenUrl(menu.history[choose|i: int| is_first_hit(menu.history, clicked, i)].url_id))
    } else if clicked == menu.show_id {
        Some(TrayEvent::Show)
    } else if clicked == menu.add_id {
        Some(TrayEvent::Add)
    } else if clicked == menu.quit_id {
        Some(TrayEvent::Quit)
    } else {
        None
    }
}

/// Writes what a history entry shows.
pub fn label_for(r: &UrlRecord) -> (label: String)
    ensures
        label@ == history_label(r@),
{
    let mut label = match &r.site_name {
        Some(name) => name.clone(),
        None => r.label.clone(),
    };
    label.append(" (");
    label.append(r.url.as_str());
    label.append(")");
    label
}

/// Builds the menu for a listing.
pub fn build_menu(records: &Vec<UrlRecord>) -> (menu: TrayMenu)
    requires
        records.len() <= u64::MAX - FIRST_HISTORY_ID,
    ensures
        menu@ == menu_for(records@.map_values(|r: UrlRecord| r@)),
{
    let mut history: Vec<HistoryItem> = Vec::new();
    let ghost all = records@.map_values(|r: UrlRecord| r@);
    let mut i: usize = 0;
    while i < records.len()
        invariant
            i <= records.len(),
            records.len() <= u64::MAX - FIRST_HISTORY_ID,
            all == records@.map_values(|r: UrlRecord| r@),
            history.len() == i,
            forall|k: int|
                0 <= k < i ==> (#[trigger] history[k])@ == menu_for(all).history[k],
        decreases records.len() - i,
    {
        let r = &records[i];
        history.push(
            HistoryItem { id: FIRST_HISTORY_ID + (i as u64), label: label_for(r), url_id: r.id },
        );
        i = i + 1;
    }
    let menu = TrayMenu {
        show_id: SHOW_ID,
        add_id: ADD_ID,
        quit_id: FIRST_HISTORY_ID + (records.len() as u64),
        history,
    };
    proof {
        assert(menu@.history =~= menu_for(all).history);
    }
    menu
}

/// Says which event a click on a menu entry raises.
pub fn event_for(menu: &TrayMenu, clicked: u64) -> (ev: Option<TrayEvent>)
    ensures
        ev == menu_event(menu@, clicked),
{
    let mut i: usize = 0;
    while i < menu.history.len()
        invariant
            i <= menu.history.len(),
            forall|j: int| 0 <= j < i ==> (#[trigger] menu@.history[j]).id != clicked,
        decreases menu.history.len() - i,
    {
        if menu.history[i].id == clicked {
            proof {
                assert(is_first_hit(menu@.history, clicked, i as int));
                let c = choose|c: int| is_first_hit(menu@.history, clicked, c);
                assert(c == i);
            }
            return Some(TrayEvent::OpenUrl(menu.history[i].url_id));
        }
        i = i + 1;
    }
    proof {
        assert forall|c: int| !is_first_hit(menu@.history, clicked, c) by {}
    }
    if clicked == menu.show_id {
        Some(TrayEvent::Show)
    } else if clicked == menu.add_id {
        Some(TrayEvent::Add)
    } else if clicked == menu.quit_id {
        Some(TrayEvent::Quit)
    } else {
        None
    }
}

/// Forwards a click on a menu entry: the event it raises, if any, joins the
/// registry's queue.
pub fn menu_click(reg: &mut EventRegistry, menu: &TrayMenu, clicked: u64) -> (ev: Option<TrayEvent>)
    ensures
        ev == menu_event(menu@, clicked),
        final(reg)@ == match (old(reg)@, ev) {
            (Some(q), Some(e)) => Some(q.push(e)),
            (before, _) => before,
        },
{
    let ev = event_for(menu, clicked);
    match ev {
        Some(e) => {
            let _ = send_event(reg, e);
        },
        None => {},
    }
    ev
}

/// The menus that the tray may show over a store: the menu for the listing
/// of its most recent addresses, or the menu without history where the
/// store's actor is gone.
pub open spec fn is_menu_over(db: Option<StoreView>, menu: TrayMenuView) -> bool {
    match db {
        Some(s) => exists|out: Seq<UrlRecordView>|
            s.lists(HISTORY_LIMIT as int, out) && menu == #[trigger] menu_for(out),
        None => menu == menu_for(Seq::empty()),
    }
}

/// Builds the tray menu over the store: the fixed entries and a history of
/// the most recent addresses. Fails while the registry is not started, as
/// clicks could not be forwarded.
pub fn start_real_tray(reg: &EventRegistry, db: &mut DbHandle) -> (res: Result<TrayMenu, TrayError>)
    ensures
        final(db)@ == old(db)@,
        match res {
            Ok(menu) => reg@ is Some && is_menu_over(old(db)@, menu@),
            Err(e) => reg@ is None && e == TrayError::NotStarted,
        },
{
    if reg.queue.is_none() {
        return Err(TrayError::NotStarted);
    }
    let records = match db.list_recent(HISTORY_LIMIT) {
        Ok(list) => list,
        Err(_) => Vec::new(),
    };
    proof {
        let out = records@.map_values(|r: UrlRecord| r@);
        match old(db)@ {
            Some(s) => {
                assert(s.lists(HISTORY_LIMIT as int, out));
                let entries = out.map_values(|r: UrlRecordView| crate::db_model::entry_of(r));
                assert(entries.len() == out.len());
            },
            None => {
                assert(out =~= Seq::<UrlRecordView>::empty());
            },
        }
    }
    Ok(build_menu(&records))
}

/// Starts the tray: creates the registry's queue, unless it exists, and
/// builds the menu over the store.
pub fn start_tray(reg: &mut EventRegistry, db: &mut DbHandle) -> (res: Result<TrayMenu, TrayError>)
    ensures
        final(db)@ == old(db)@,
        final(reg)@ == match old(reg)@ {
            Some(q) => Some(q),
            None => Some(Seq::<TrayEvent>::empty()),
        },
        res matches Ok(menu) && is_menu_over(old(db)@, menu@),
{
    reg.start();
    start_real_tray(reg, db)
}

} // verus!
