//! The browsing surface: the one actor that owns the native window, the
//! queue of commands to it, and what its event loop decides on each event.

use vstd::prelude::*;
use crate::weburl::{UrlError, normal_target, normalize_url, opt_text};

verus! {

/// A command to the surface actor, delivered through its event loop.
#[derive(Debug, Clone)]
pub enum UserEvent {
    /// Show this address.
    Navigate(String),
    /// Use these bytes, once decoded, as the window's icon.
    Favicon(Vec<u8>),
}

/// The mathematical value of a [`UserEvent`].
pub enum UserEventView {
    Navigate(Seq<char>),
    Favicon(Seq<u8>),
}

impl View for UserEvent {
    type V = UserEventView;

    open spec fn view(&self) -> UserEventView {
        match *self {
            UserEvent::Navigate(url) => UserEventView::Navigate(url@),
            UserEvent::Favicon(bytes) => UserEventView::Favicon(bytes@),
        }
    }
}

/// A decoded image: its size and its pixels, four bytes each, row by row.
#[derive(Debug, Clone)]
pub struct IconPixels {
    pub width: u32,
    pub height: u32,
    pub rgba: Vec<u8>,
}

/// The mathematical value of an [`IconPixels`].
pub struct IconPixelsView {
    pub width: u32,
    pub height: u32,
    pub rgba: Seq<u8>,
}

impl View for IconPixels {
    type V = IconPixelsView;

    open spec fn view(&self) -> IconPixelsView {
        IconPixelsView { width: self.width, height: self.height, rgba: self.rgba@ }
    }
}

/// The model of an optional decoded image.
pub open spec fn opt_pixels(p: Option<IconPixels>) -> Option<IconPixelsView> {
    match p {
        Some(x) => Some(x@),
        None => None,
    }
}

/// Calls `image::load_from_memory`, converts the image with
/// `DynamicImage::to_rgba8` and copies out its `width`, `height` and raw
/// buffer (`into_raw`). Nothing is claimed of the outcome: which decoder the
/// payload meets is for the process to say, as formats and decoders can be
/// registered with `image` at run time, so the same bytes need not decode
/// alike twice.
#[verifier::external_body]
pub(crate) fn decode_image(bytes: &Vec<u8>) -> Option<IconPixels> {
    match image::load_from_memory(bytes.as_slice()) {
        Ok(img) => {
            let rgba = img.to_rgba8();
            Some(IconPixels { width: rgba.width(), height: rgba.height(), rgba: rgba.into_raw() })
        },
        Err(_) => None,
    }
}

/// The pixels fill the stated size exactly: four bytes for each of
/// `width * height` pixels.
pub open spec fn fits_size(p: IconPixelsView) -> bool {
    p.rgba.len() == 4 * (p.width * p.height)
}

/// The image that can serve as a window icon: the decoded one, if its
/// pixels fill its size.
pub open spec fn usable_icon(decoded: Option<IconPixelsView>) -> Option<IconPixelsView> {
    match decoded {
        Some(p) => if fits_size(p) {
            Some(p)
        } else {
            None
        },
        None => None,
    }
}

/// Keeps a decoded image only if its pixels fill its size.
pub fn check_icon(decoded: Option<IconPixels>) -> (r: Option<IconPixels>)
    ensures
        opt_pixels(r) == usable_icon(opt_pixels(decoded)),
{
    match decoded {
        Some(p) => {
            assert((p.width as u64) * (p.height as u64) <= 0xffff_ffff * 0xffff_ffff)
                by (nonlinear_arith)
                requires
                    p.width <= 0xffff_ffff,
                    p.height <= 0xffff_ffff,
            ;
            let pixels: u64 = (p.width as u64) * (p.height as u64);
            let len: u64 = p.rgba.len() as u64;
            if len % 4 == 0 && len / 4 == pixels {
                Some(p)
            } else {
                None
            }
        },
        None => None,
    }
}

/// What the surface's event loop is told.
#[derive(Debug, Clone)]
pub enum LoopEvent {
    /// A command arrived from the queue.
    User(UserEvent),
    /// The view finished the attempt to load an address.
    Loaded { url: String, ok: bool },
    /// The user asked to close the window.
    CloseRequested,
    /// Any other event of the window system.
    Other,
}

/// The mathematical value of a [`LoopEvent`].
pub enum LoopEventView {
    User(UserEventView),
    Loaded { url: Seq<char>, ok: bool },
    CloseRequested,
    Other,
}

impl View for LoopEvent {
    type V = LoopEventView;

    open spec fn view(&self) -> LoopEventView {
        match *self {
            LoopEvent::User(ev) => LoopEventView::User(ev@),
            LoopEvent::Loaded { url, ok } => LoopEventView::Loaded { url: url@, ok },
            LoopEvent::CloseRequested => LoopEventView::CloseRequested,
            LoopEvent::Other => LoopEventView::Other,
        }
    }
}

/// What the loop's thread is to do to the native surface.
#[derive(Debug, Clone)]
pub enum SurfaceAction {
    /// Load this address into the view.
    Load(String),
    /// Show or hide the window.
    SetVisible(bool),
    /// Give the window the focus.
    Focus,
    /// Start one enrichment run for this address, without waiting for it.
    Enrich(String),
    /// Make this image the window's icon.
    SetIcon(IconPixels),
}

/// The mathematical value of a [`SurfaceAction`].
pub enum SurfaceActionView {
    Load(Seq<char>),
    SetVisible(bool),
    Focus,
    Enrich(Seq<char>),
    SetIcon(IconPixelsView),
}

impl View for SurfaceAction {
    type V = SurfaceActionView;

    open spec fn view(&self) -> SurfaceActionView {
        match *self {
            SurfaceAction::Load(url) => SurfaceActionView::Load(url@),
            SurfaceAction::SetVisible(v) => SurfaceActionView::SetVisible(v),
            SurfaceAction::Focus => SurfaceActionView::Focus,
            SurfaceAction::Enrich(url) => SurfaceActionView::Enrich(url@),
            SurfaceAction::SetIcon(p) => SurfaceActionView::SetIcon(p@),
        }
    }
}

/// The models of a run of actions.
pub open spec fn actions_view(actions: Seq<SurfaceAction>) -> Seq<SurfaceActionView> {
    actions.map_values(|a: SurfaceAction| a@)
}

/// What is known of the native surface: whether its window shows, the
/// address it loaded last, and its icon.
pub struct SurfaceView {
    pub visible: bool,
    pub location: Option<Seq<char>>,
    pub icon: Option<IconPixelsView>,
}

impl SurfaceView {
    /// The surface as it is built: hidden, on a blank page, without icon.
    pub open spec fn blank() -> SurfaceView {
        SurfaceView { visible: false, location: None, icon: None }
    }

    /// The surface after an event of its loop, and what the loop does to
    /// the native window on it, given what decoding gave where the event
    /// carries an icon.
    ///
    /// A command to navigate has the address loaded. A load that succeeded
    /// shows and focuses the window and starts one enrichment run; one that
    /// failed changes nothing. An icon that decodes to a usable image is
    /// applied; any other is dropped. A request to close hides the window
    /// and keeps the loop running.
    pub open spec fn step(self, ev: LoopEventView, decoded: Option<IconPixelsView>) -> (
        SurfaceView,
        Seq<SurfaceActionView>,
    ) {
        match ev {
            LoopEventView::User(UserEventView::Navigate(url)) => (
                self,
                seq![SurfaceActionView::Load(url)],
            ),
            LoopEventView::User(UserEventView::Favicon(_)) => match usable_icon(decoded) {
                Some(p) => (
                    SurfaceView { icon: Some(p), ..self },
                    seq![SurfaceActionView::SetIcon(p)],
                ),
                None => (self, Seq::empty()),
            },
            LoopEventView::Loaded { url, ok } => if ok {
                (
                    SurfaceView { visible: true, location: Some(url), ..self },
                    seq![
                        SurfaceActionView::SetVisible(true),
                        SurfaceActionView::Focus,
                        SurfaceActionView::Enrich(url),
                    ],
                )
            } else {
                (self, Seq::empty())
            },
            LoopEventView::CloseRequested => (
                SurfaceView { visible: false, ..self },
                seq![SurfaceActionView::SetVisible(false)],
            ),
            LoopEventView::Other => (self, Seq::empty()),
        }
    }

    /// The surface after an event that carries no icon, and what the loop
    /// does on it.
    pub open spec fn on_event(self, ev: LoopEventView) -> (SurfaceView, Seq<SurfaceActionView>) {
        self.step(ev, None)
    }

    /// The loop took the surface from `self` to `post` on an event and did
    /// `actions`: the step on the event, for what decoding the event's icon
    /// came to, whatever that was. Only an event that carries an icon
    /// leaves anything open.
    pub open spec fn handles(
        self,
        ev: LoopEventView,
        post: SurfaceView,
        actions: Seq<SurfaceActionView>,
    ) -> bool {
        exists|decoded: Option<IconPixelsView>|
            post == self.step(ev, decoded).0 && actions == (#[trigger] self.step(ev, decoded)).1
    }
}

/// The event carries an icon to decode.
pub open spec fn carries_icon(ev: LoopEventView) -> bool {
    ev matches LoopEventView::User(UserEventView::Favicon(_))
}

/// The state of the native surface, as its loop tracks it.
pub struct Surface {
    visible: bool,
    location: Option<String>,
    icon: Option<IconPixels>,
}

impl View for Surface {
    type V = SurfaceView;

    closed spec fn view(&self) -> SurfaceView {
        SurfaceView {
            visible: self.visible,
            location: opt_text(self.location),
            icon: opt_pixels(self.icon),
        }
    }
}

/// Copies a decoded image.
fn copy_pixels(p: &IconPixels) -> (r: IconPixels)
    ensures
        r@ == p@,
{
    IconPixels { width: p.width, height: p.height, rgba: crate::db::copy_bytes(&p.rgba) }
}

impl Surface {
    /// The surface as it is built: hidden, on a blank page, without icon.
    pub fn new() -> (s: Surface)
        ensures
            s@ == SurfaceView::blank(),
    {
        Surface { visible: false, location: None, icon: None }
    }

    /// Whether the window shows.
    pub fn is_visible(&self) -> (r: bool)
        ensures
            r == self@.visible,
    {
        self.visible
    }

    /// Decides what the loop does on an event, given what decoding gave
    /// where the event carries an icon.
    pub fn handle_decoded(&mut self, ev: LoopEvent, decoded: Option<IconPixels>) -> (actions: Vec<
        SurfaceAction,
    >)
        ensures
            final(self)@ == old(self)@.step(ev@, opt_pixels(decoded)).0,
            actions_view(actions@) == old(self)@.step(ev@, opt_pixels(decoded)).1,
    {
        let mut actions: Vec<SurfaceAction> = Vec::new();
        match ev {
            LoopEvent::User(UserEvent::Navigate(url)) => {
                actions.push(SurfaceAction::Load(url));
            },
            LoopEvent::User(UserEvent::Favicon(_)) => {
                match check_icon(decoded) {
                    Some(p) => {
                        self.icon = Some(copy_pixels(&p));
                        actions.push(SurfaceAction::SetIcon(p));
                    },
                    None => {},
                }
            },
            LoopEvent::Loaded { url, ok } => {
                if ok {
                    self.visible = true;
                    self.location = Some(url.clone());
                    actions.push(SurfaceAction::SetVisible(true));
                    actions.push(SurfaceAction::Focus);
                    actions.push(SurfaceAction::Enrich(url));
                }
            },
            LoopEvent::CloseRequested => {
                self.visible = false;
                actions.push(SurfaceAction::SetVisible(false));
            },
            LoopEvent::Other => {},
        }
        proof {
            assert(actions_view(actions@) =~= old(self)@.step(ev@, opt_pixels(decoded)).1);
        }
        actions
    }

    /// Decides what the loop does on an event. The bytes of an icon are
    /// handed to the decoder as they came; what follows is the step on what
    /// the decoder gave, whatever it gave. An event without icon has its
    /// step exactly.
    pub fn handle(&mut self, ev: LoopEvent) -> (actions: Vec<SurfaceAction>)
        ensures
            old(self)@.handles(ev@, final(self)@, actions_view(actions@)),
            !carries_icon(ev@) ==> final(self)@ == old(self)@.on_event(ev@).0 && actions_view(
                actions@,
            ) == old(self)@.on_event(ev@).1,
    {
        let decoded = match &ev {
            LoopEvent::User(UserEvent::Favicon(bytes)) => decode_image(bytes),
            _ => None,
        };
        let ghost given = opt_pixels(decoded);
        let actions = self.handle_decoded(ev, decoded);
        proof {
            assert(final(self)@ == old(self)@.step(ev@, given).0 && actions_view(actions@)
                == old(self)@.step(ev@, given).1);
        }
        actions
    }
}

/// The surface actor: the queue of commands that wait for its loop, oldest
/// first, and the surface that the loop owns.
pub struct ActorView {
    pub inbox: Seq<UserEventView>,
    pub surface: SurfaceView,
}

impl ActorView {
    /// The actor as it starts: nothing queued, the surface just built.
    pub open spec fn fresh() -> ActorView {
        ActorView { inbox: Seq::empty(), surface: SurfaceView::blank() }
    }

    /// The actor behind a manager: the one that runs, or the one that the
    /// first use starts.
    pub open spec fn of(m: Option<ActorView>) -> ActorView {
        match m {
            Some(a) => a,
            None => Self::fresh(),
        }
    }

    /// The actor after a command joined its queue.
    pub open spec fn with(self, ev: UserEventView) -> ActorView {
        ActorView { inbox: self.inbox.push(ev), ..self }
    }

    /// The actor after its loop took the oldest command and acted on it,
    /// and what the loop did, given what decoding gave where the command
    /// carries an icon.
    pub open spec fn dispatched_with(self, decoded: Option<IconPixelsView>) -> (
        ActorView,
        Seq<SurfaceActionView>,
    ) {
        if self.inbox.len() == 0 {
            (self, Seq::empty())
        } else {
            let (surface, actions) = self.surface.step(LoopEventView::User(self.inbox[0]), decoded);
            (ActorView { inbox: self.inbox.drop_first(), surface }, actions)
        }
    }

    /// The actor after its loop took the oldest command, where that carries
    /// no icon, and what the loop did.
    pub open spec fn dispatched(self) -> (ActorView, Seq<SurfaceActionView>) {
        self.dispatched_with(None)
    }

    /// The oldest command that waits carries an icon.
    pub open spec fn icon_waits(self) -> bool {
        self.inbox.len() > 0 && self.inbox[0] is Favicon
    }

    /// One turn of the loop on the queue took the actor from `self` to
    /// `post` and did `actions`, whatever decoding came to.
    pub open spec fn turns_to(self, post: ActorView, actions: Seq<SurfaceActionView>) -> bool {
        exists|decoded: Option<IconPixelsView>|
            post == self.dispatched_with(decoded).0 && actions == (#[trigger] self.dispatched_with(
                decoded,
            )).1
    }

    /// The loop was told of an event and took the actor from `self` to
    /// `post` and did `actions`, whatever decoding came to.
    pub open spec fn told(
        self,
        ev: LoopEventView,
        post: ActorView,
        actions: Seq<SurfaceActionView>,
    ) -> bool {
        post.inbox == self.inbox && self.surface.handles(ev, post.surface, actions)
    }
}

/// The manager of the surface actor. The actor is started by the first use
/// and kept for the life of the process: every later use reaches the same
/// queue and the same surface.
pub struct SurfaceManager {
    inbox: Vec<UserEvent>,
    surface: Surface,
    started: bool,
}

impl View for SurfaceManager {
    type V = Option<ActorView>;

    /// The running actor, or nothing before the first use.
    closed spec fn view(&self) -> Option<ActorView> {
        if self.started {
            Some(
                ActorView {
                    inbox: self.inbox@.map_values(|e: UserEvent| e@),
                    surface: self.surface@,
                },
            )
        } else {
            None
        }
    }
}

impl SurfaceManager {
    #[verifier::type_invariant]
    spec fn inv(self) -> bool {
        !self.started ==> self.inbox@.len() == 0 && self.surface@ == SurfaceView::blank()
    }

    /// The manager before the first use: no actor runs.
    pub fn new() -> (m: SurfaceManager)
        ensures
            m@ is None,
    {
        SurfaceManager { inbox: Vec::new(), surface: Surface::new(), started: false }
    }

    /// Whether the actor runs.
    pub fn is_started(&self) -> (r: bool)
        ensures
            r == (self@ is Some),
    {
        self.started
    }

    /// One turn of the actor's loop on its queue: takes the oldest command,
    /// if one waits, and decides what to do on it.
    pub fn dispatch(&mut self) -> (actions: Vec<SurfaceAction>)
        ensures
            match old(self)@ {
                Some(a) => final(self)@ matches Some(post) && a.turns_to(post, actions_view(actions@))
                    && (!a.icon_waits() ==> post == a.dispatched().0 && actions_view(actions@)
                    == a.dispatched().1),
                None => final(self)@ is None && actions@.len() == 0,
            },
    {
        proof {
            use_type_invariant(&*self);
        }
        if !self.started || self.inbox.len() == 0 {
            let actions: Vec<SurfaceAction> = Vec::new();
            proof {
                if self.started {
                    let a = self@->0;
                    assert(actions_view(actions@) =~= a.dispatched_with(None).1);
                    assert(a == a.dispatched_with(None).0);
                }
            }
            return actions;
        }
        let mut taken = SurfaceManager::new();
        std::mem::swap(self, &mut taken);
        let SurfaceManager { mut inbox, mut surface, started } = taken;
        let ghost before = old(self)@->0;
        let ev = inbox.remove(0);
        let ghost told = LoopEventView::User(ev@);
        let actions = surface.handle(LoopEvent::User(ev));
        proof {
            assert(inbox@.map_values(|e: UserEvent| e@) =~= before.inbox.drop_first());
            let decoded = choose|decoded: Option<IconPixelsView>|
                surface@ == before.surface.step(told, decoded).0 && actions_view(actions@) == (
                #[trigger] before.surface.step(told, decoded)).1;
            let post = ActorView { inbox: inbox@.map_values(|e: UserEvent| e@), surface: surface@ };
            assert(post == before.dispatched_with(decoded).0 && actions_view(actions@)
                == before.dispatched_with(decoded).1);
        }
        *self = SurfaceManager { inbox, surface, started };
        actions
    }

    /// Tells the actor's loop of an event of the window system and decides
    /// what to do on it. Before the actor runs there is no loop to tell.
    pub fn notify(&mut self, ev: LoopEvent) -> (actions: Vec<SurfaceAction>)
        ensures
            match old(self)@ {
                Some(a) => final(self)@ matches Some(post) && a.told(ev@, post, actions_view(actions@))
                    && (!carries_icon(ev@) ==> post.surface == a.surface.on_event(ev@).0
                    && actions_view(actions@) == a.surface.on_event(ev@).1),
                None => final(self)@ is None && actions@.len() == 0,
            },
    {
        proof {
            use_type_invariant(&*self);
        }
        if !self.started {
            return Vec::new();
        }
        let mut taken = SurfaceManager::new();
        std::mem::swap(self, &mut taken);
        let SurfaceManager { inbox, mut surface, started } = taken;
        let actions = surface.handle(ev);
        *self = SurfaceManager { inbox, surface, started };
        actions
    }
}

/// Starts the surface actor unless it runs: the first call builds the one
/// surface, every later call finds it as it is.
pub fn start_manager(mgr: &mut SurfaceManager)
    ensures
        final(mgr)@ == Some(ActorView::of(old(mgr)@)),
{
    proof {
        use_type_invariant(&*mgr);
    }
    if !mgr.started {
        let mut taken = SurfaceManager::new();
        std::mem::swap(mgr, &mut taken);
        let SurfaceManager { inbox, surface, started } = taken;
        proof {
            assert(inbox@.map_values(|e: UserEvent| e@) =~= Seq::<UserEventView>::empty());
        }
        *mgr = SurfaceManager { inbox, surface, started: true };
    }
}

/// Puts a command on the actor's queue, behind those that wait, starting
/// the actor if need be.
pub fn enqueue(mgr: &mut SurfaceManager, ev: UserEvent)
    ensures
        final(mgr)@ == Some(ActorView::of(old(mgr)@).with(ev@)),
{
    start_manager(mgr);
    proof {
        use_type_invariant(&*mgr);
    }
    let mut taken = SurfaceManager::new();
    std::mem::swap(mgr, &mut taken);
    let SurfaceManager { mut inbox, surface, started } = taken;
    inbox.push(ev);
    proof {
        assert(inbox@.map_values(|e: UserEvent| e@) =~= ActorView::of(old(mgr)@).inbox.push(ev@));
    }
    *mgr = SurfaceManager { inbox, surface, started };
}

/// Puts a command to navigate on the actor's queue, starting the actor if
/// need be.
pub fn enqueue_navigate(mgr: &mut SurfaceManager, target: String)
    ensures
        final(mgr)@ == Some(ActorView::of(old(mgr)@).with(UserEventView::Navigate(target@))),
{
    enqueue(mgr, UserEvent::Navigate(target));
}

/// Opens an address on the surface: puts the normal form of the target on
/// the actor's queue and returns, without waiting for the navigation. A
/// target without a normal form is refused and changes nothing.
pub fn open_url(mgr: &mut SurfaceManager, url: String) -> (res: Result<(), UrlError>)
    ensures
        final(mgr)@ == opened(old(mgr)@, url@),
        match normal_target(url@) {
            Ok(_) => res is Ok,
            Err(e) => res == Err::<(), UrlError>(e),
        },
{
    match normalize_url(url.as_str()) {
        Ok(target) => {
            enqueue_navigate(mgr, target);
            Ok(())
        },
        Err(e) => Err(e),
    }
}


/// The manager after a target was opened on it: with the target's normal
/// form queued behind what waits, or unchanged where the target has none.
pub open spec fn opened(m: Option<ActorView>, raw: Seq<char>) -> Option<ActorView> {
    match normal_target(raw) {
        Ok(target) => Some(ActorView::of(m).with(UserEventView::Navigate(target))),
        Err(_) => m,
    }
}

/// The actor after its loop took one turn on its queue for each entry of
/// `decodings`, where the entry says what decoding gave on that turn.
pub open spec fn after_turns(a: ActorView, decodings: Seq<Option<IconPixelsView>>) -> ActorView
    decreases decodings.len(),
{
    if decodings.len() == 0 {
        a
    } else {
        after_turns(a, decodings.drop_last()).dispatched_with(decodings.last()).0
    }
}

/// The loop takes the queue from the front: after some turns the commands
/// that wait are those behind as many as there were turns, whatever
/// decoding came to on the way.
pub proof fn law_queue_is_fifo(a: ActorView, decodings: Seq<Option<IconPixelsView>>)
    requires
        decodings.len() <= a.inbox.len(),
    ensures
        after_turns(a, decodings).inbox == a.inbox.skip(decodings.len() as int),
    decreases decodings.len(),
{
    if decodings.len() == 0 {
        assert(a.inbox.skip(0) =~= a.inbox);
    } else {
        law_queue_is_fifo(a, decodings.drop_last());
        let before = after_turns(a, decodings.drop_last());
        assert(before.inbox.drop_first() =~= a.inbox.skip(decodings.len() as int));
    }
}

/// Two targets opened one after the other, before the loop got to the
/// first, are both queued, in the order of the calls, for one and the same
/// surface: the first call starts the actor if need be, the second finds it
/// running and builds nothing. Once the loop has worked off what waited
/// before them, whatever decoding came to on those turns, its next turn
/// loads the first target and the turn after that loads the second.
pub proof fn law_two_opens_in_order(
    m: Option<ActorView>,
    first: Seq<char>,
    second: Seq<char>,
    decodings: Seq<Option<IconPixelsView>>,
)
    requires
        normal_target(first) is Ok,
        normal_target(second) is Ok,
        decodings.len() == ActorView::of(m).inbox.len(),
    ensures
        ({
            let a = normal_target(first)->Ok_0;
            let b = normal_target(second)->Ok_0;
            let start = ActorView::of(m);
            let once = opened(m, first);
            let twice = opened(once, second);
            let ready = after_turns(twice->0, decodings);
            &&& once is Some
            &&& twice is Some
            &&& once->0.surface == start.surface
            &&& twice->0.surface == start.surface
            &&& twice->0.inbox == start.inbox + seq![
                UserEventView::Navigate(a),
                UserEventView::Navigate(b),
            ]
            &&& ready.inbox == seq![UserEventView::Navigate(a), UserEventView::Navigate(b)]
            &&& !ready.icon_waits()
            &&& ready.dispatched().1 == seq![SurfaceActionView::Load(a)]
            &&& ready.dispatched().0.surface == ready.surface
            &&& !ready.dispatched().0.icon_waits()
            &&& ready.dispatched().0.dispatched().1 == seq![SurfaceActionView::Load(b)]
            &&& ready.dispatched().0.dispatched().0.surface == ready.surface
            &&& ready.dispatched().0.dispatched().0.inbox.len() == 0
        }),
{
    let a = normal_target(first)->Ok_0;
    let b = normal_target(second)->Ok_0;
    let start = ActorView::of(m);
    let twice = opened(opened(m, first), second);
    let pair = seq![UserEventView::Navigate(a), UserEventView::Navigate(b)];
    assert(twice->0.inbox =~= start.inbox + pair);
    law_queue_is_fifo(twice->0, decodings);
    let ready = after_turns(twice->0, decodings);
    assert(ready.inbox =~= pair);
    assert(ready.inbox[0] == UserEventView::Navigate(a));
    let next = ready.dispatched().0;
    assert(next.inbox =~= seq![UserEventView::Navigate(b)]);
    assert(next.inbox[0] == UserEventView::Navigate(b));
    assert(next.dispatched().0.inbox =~= Seq::<UserEventView>::empty());
}

/// Closing the window hides it and ends nothing: the actor keeps its queue,
/// and a target opened afterwards is loaded by the same actor and shows the
/// window again.
pub proof fn law_close_hides_and_keeps(a: ActorView, url: Seq<char>)
    ensures
        a.surface.on_event(LoopEventView::CloseRequested).0.visible == false,
        a.surface.on_event(LoopEventView::CloseRequested).1 == seq![
            SurfaceActionView::SetVisible(false),
        ],
        a.surface.on_event(LoopEventView::CloseRequested).0.on_event(
            LoopEventView::Loaded { url, ok: true },
        ).0.visible,
{
}

} // verus!
