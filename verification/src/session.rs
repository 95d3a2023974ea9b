//! The session of one connection: its state machine, and what each
//! incoming frame does to the registry and the telemetry bus.

use vstd::prelude::*;
use crate::device::{
    clock_seconds, has_id, ids_distinct, index_of_id, lemma_index_of_id, lemma_with_status_commutes,
    lemma_with_status_follows_graph, lemma_with_status_keeps_others, lookup, with_status,
    DeviceManager, DeviceStatus, DeviceView,
};
use crate::protocol::{
    classify, decoded, encoded, kind_of, response_to, Envelope, EnvelopeView, MessageKind,
    Response, ResponseView,
};
use crate::telemetry::{
    bus_ok, publish_to_all, BusView, EventKind, EventView, TelemetryBus, TelemetryEvent,
};
use crate::text::{clone_opt_text, opt_text};

verus! {

/// Where a session stands.
#[derive(Debug, Clone, Copy, PartialEq, Eq, Structural)]
pub enum SessionState {
    /// Connected, welcome sent, no handshake seen yet.
    AwaitingHandshake,
    /// A handshake was accepted.
    Active,
    /// The peer closed or the transport failed; the registry is told.
    Closing,
    /// The session is over.
    Closed,
}

/// What the transport hands to the session.
#[derive(Debug, PartialEq, Eq)]
pub enum Inbound {
    /// A text frame.
    Text(String),
    /// A binary frame: taken, and not looked into.
    Binary(Vec<u8>),
    /// A close frame.
    Close,
    /// Any other frame, such as a ping.
    Other,
    /// The transport failed to read.
    Failed,
}

/// What the registry is to be told after a frame.
#[derive(Debug, PartialEq, Eq)]
pub enum RegistryNote {
    /// Nothing.
    Nothing,
    /// The device completed its handshake.
    Connected(String),
    /// The device's session ended.
    Disconnected(String),
}

/// The mathematical value of a `RegistryNote`.
pub enum RegistryNoteView {
    Nothing,
    Connected(Seq<char>),
    Disconnected(Seq<char>),
}

impl View for RegistryNote {
    type V = RegistryNoteView;

    open spec fn view(&self) -> RegistryNoteView {
        match *self {
            RegistryNote::Nothing => RegistryNoteView::Nothing,
            RegistryNote::Connected(id) => RegistryNoteView::Connected(id@),
            RegistryNote::Disconnected(id) => RegistryNoteView::Disconnected(id@),
        }
    }
}

/// What a frame calls for: a reply to the peer, an event for the bus, a
/// note for the registry.
#[derive(Debug, PartialEq, Eq)]
pub struct Reaction {
    pub reply: Option<Response>,
    pub publish: Option<TelemetryEvent>,
    pub registry: RegistryNote,
}

/// The mathematical value of a `Reaction`.
pub struct ReactionView {
    pub reply: Option<ResponseView>,
    pub publish: Option<EventView>,
    pub registry: RegistryNoteView,
}

impl View for Reaction {
    type V = ReactionView;

    open spec fn view(&self) -> ReactionView {
        ReactionView {
            reply: match self.reply {
                Some(r) => Some(r@),
                None => None,
            },
            publish: match self.publish {
                Some(e) => Some(e@),
                None => None,
            },
            registry: self.registry@,
        }
    }
}

/// The reaction that calls for nothing.
pub open spec fn no_reaction() -> ReactionView {
    ReactionView { reply: None, publish: None, registry: RegistryNoteView::Nothing }
}

/// The mathematical value of a `Session`.
pub struct SessionView {
    pub state: SessionState,
    /// The device that the session is bound to, once a handshake named one.
    pub device_id: Option<Seq<char>>,
}

/// A session takes frames while it awaits its handshake or is active.
pub open spec fn is_open(state: SessionState) -> bool {
    state == SessionState::AwaitingHandshake || state == SessionState::Active
}

/// The session as it starts.
pub open spec fn initial_session() -> SessionView {
    SessionView { state: SessionState::AwaitingHandshake, device_id: None }
}

/// The device that a session is bound to after a handshake: the one it
/// was bound to before, else the one that the handshake names.
pub open spec fn bound_after(s: SessionView, env: EnvelopeView) -> Option<Seq<char>> {
    match s.device_id {
        Some(id) => Some(id),
        None => env.device_id,
    }
}

/// The session after a decoded frame: a handshake makes an open session
/// active and binds it; nothing else moves it.
pub open spec fn session_after(s: SessionView, env: EnvelopeView) -> SessionView {
    if is_open(s.state) && kind_of(env.msg_type) == MessageKind::Handshake {
        SessionView { state: SessionState::Active, device_id: bound_after(s, env) }
    } else {
        s
    }
}

/// The kind of event that a kind of message is published as.
pub open spec fn event_kind_of(kind: MessageKind) -> Option<EventKind> {
    match kind {
        MessageKind::RealtimeMonitor => Some(EventKind::RealtimeMonitor),
        MessageKind::BenchmarkResult => Some(EventKind::BenchmarkResult),
        MessageKind::StressTestResult => Some(EventKind::StressTestResult),
        MessageKind::GamePerformanceResult => Some(EventKind::GamePerformanceResult),
        MessageKind::SocInfo => Some(EventKind::SocInfo),
        MessageKind::Handshake => None,
        MessageKind::Other => None,
    }
}

/// The event that a decoded frame is published as: only an active session
/// publishes, and only telemetry and results. The event is tied to the
/// session's device, else to the one that the frame names, and stamped
/// with the frame's time, else with `now`.
pub open spec fn event_for(s: SessionView, env: EnvelopeView, payload: Seq<char>, now: u64) -> Option<
    EventView,
> {
    if s.state == SessionState::Active {
        match event_kind_of(kind_of(env.msg_type)) {
            Some(kind) => Some(
                EventView {
                    kind,
                    device_id: bound_after(s, env),
                    timestamp: match env.timestamp {
                        Some(t) => t,
                        None => now,
                    },
                    payload,
                },
            ),
            None => None,
        }
    } else {
        None
    }
}

/// The note for the registry after a decoded frame: a handshake on an
/// open session reports its device as connected.
pub open spec fn note_for(s: SessionView, env: EnvelopeView) -> RegistryNoteView {
    if is_open(s.state) && kind_of(env.msg_type) == MessageKind::Handshake {
        match bound_after(s, env) {
            Some(id) => RegistryNoteView::Connected(id),
            None => RegistryNoteView::Nothing,
        }
    } else {
        RegistryNoteView::Nothing
    }
}

/// What a decoded frame calls for. An open session answers every frame by
/// its type; a session that is closing or closed answers nothing.
pub open spec fn reaction_to(s: SessionView, env: EnvelopeView, payload: Seq<char>, now: u64) -> ReactionView {
    if is_open(s.state) {
        ReactionView {
            reply: Some(response_to(env.msg_type)),
            publish: event_for(s, env, payload, now),
            registry: note_for(s, env),
        }
    } else {
        no_reaction()
    }
}

/// The session after the peer closed or the transport failed.
pub open spec fn session_closing(s: SessionView) -> SessionView {
    if is_open(s.state) {
        SessionView { state: SessionState::Closing, device_id: s.device_id }
    } else {
        s
    }
}

/// What the end of an open session calls for: its device, if it has one,
/// is reported as disconnected.
pub open spec fn reaction_to_close(s: SessionView) -> ReactionView {
    if is_open(s.state) {
        ReactionView {
            reply: None,
            publish: None,
            registry: match s.device_id {
                Some(id) => RegistryNoteView::Disconnected(id),
                None => RegistryNoteView::Nothing,
            },
        }
    } else {
        no_reaction()
    }
}

/// The session after a text frame: text that is no JSON document leaves
/// it as it is.
pub open spec fn session_after_text(s: SessionView, text: Seq<char>) -> SessionView {
    match decoded(text) {
        Some(env) => session_after(s, env),
        None => s,
    }
}

/// What a text frame calls for: text that is no JSON document calls for
/// nothing.
pub open spec fn reaction_to_text(s: SessionView, text: Seq<char>, now: u64) -> ReactionView {
    match decoded(text) {
        Some(env) => reaction_to(s, env, text, now),
        None => no_reaction(),
    }
}

/// The mathematical value of an `Inbound`: only the text of a text frame
/// matters.
pub enum InboundView {
    Text(Seq<char>),
    Binary,
    Close,
    Other,
    Failed,
}

impl View for Inbound {
    type V = InboundView;

    open spec fn view(&self) -> InboundView {
        match *self {
            Inbound::Text(t) => InboundView::Text(t@),
            Inbound::Binary(_) => InboundView::Binary,
            Inbound::Close => InboundView::Close,
            Inbound::Other => InboundView::Other,
            Inbound::Failed => InboundView::Failed,
        }
    }
}

/// The session after anything that the transport hands it.
pub open spec fn session_after_inbound(s: SessionView, inbound: InboundView) -> SessionView {
    match inbound {
        InboundView::Text(text) => session_after_text(s, text),
        InboundView::Binary => s,
        InboundView::Other => s,
        InboundView::Close => session_closing(s),
        InboundView::Failed => session_closing(s),
    }
}

/// What anything that the transport hands to the session calls for.
pub open spec fn reaction_to_inbound(s: SessionView, inbound: InboundView, now: u64) -> ReactionView {
    match inbound {
        InboundView::Text(text) => reaction_to_text(s, text, now),
        InboundView::Binary => no_reaction(),
        InboundView::Other => no_reaction(),
        InboundView::Close => reaction_to_close(s),
        InboundView::Failed => reaction_to_close(s),
    }
}

/// The registry after a note was delivered at the time `now`. A device
/// that completed its handshake is moved towards `Connected` by way of
/// `Pairing`; one whose session ended is moved to `Disconnected`. A note
/// on an unknown device changes nothing.
pub open spec fn registry_after(s: Seq<DeviceView>, note: RegistryNoteView, now: u64) -> Seq<
    DeviceView,
> {
    match note {
        RegistryNoteView::Nothing => s,
        RegistryNoteView::Connected(id) => with_status(
            with_status(s, id, DeviceStatus::Pairing, now),
            id,
            DeviceStatus::Connected,
            now,
        ),
        RegistryNoteView::Disconnected(id) => with_status(s, id, DeviceStatus::Disconnected, now),
    }
}

/// The queues of the bus after a reaction's event, if it has one, was
/// published.
pub open spec fn bus_after(bus: BusView, publish: Option<EventView>) -> BusView {
    match publish {
        Some(e) => BusView {
            capacity: bus.capacity,
            next_id: bus.next_id,
            queues: publish_to_all(bus.queues, e, bus.capacity),
        },
        None => bus,
    }
}

/// The session after a frame was served: as after the frame, and a
/// session that the frame set closing is closed.
pub open spec fn session_served(s: SessionView, inbound: InboundView) -> SessionView {
    let next = session_after_inbound(s, inbound);
    if next.state == SessionState::Closing {
        SessionView { state: SessionState::Closed, device_id: next.device_id }
    } else {
        next
    }
}

/// The text that goes back to the peer for a reply, if there is one.
pub open spec fn reply_text(reply: Option<ResponseView>) -> Option<Seq<char>> {
    match reply {
        Some(r) => Some(encoded(r)),
        None => None,
    }
}

/// Everything after a frame was served at the time `now`: the session,
/// the registry, the bus, and the text that goes back to the peer.
pub open spec fn served(
    s: SessionView,
    inbound: InboundView,
    registry: Seq<DeviceView>,
    bus: BusView,
    now: u64,
) -> (SessionView, Seq<DeviceView>, BusView, Option<Seq<char>>) {
    let reaction = reaction_to_inbound(s, inbound, now);
    (
        session_served(s, inbound),
        registry_after(registry, reaction.registry, now),
        bus_after(bus, reaction.publish),
        reply_text(reaction.reply),
    )
}

/// The session of one connection.
pub struct Session {
    state: SessionState,
    device_id: Option<String>,
}

impl View for Session {
    type V = SessionView;

    closed spec fn view(&self) -> SessionView {
        SessionView { state: self.state, device_id: opt_text(self.device_id) }
    }
}

fn event_kind(kind: MessageKind) -> (r: Option<EventKind>)
    ensures
        r == event_kind_of(kind),
{
    match kind {
        MessageKind::RealtimeMonitor => Some(EventKind::RealtimeMonitor),
        MessageKind::BenchmarkResult => Some(EventKind::BenchmarkResult),
        MessageKind::StressTestResult => Some(EventKind::StressTestResult),
        MessageKind::GamePerformanceResult => Some(EventKind::GamePerformanceResult),
        MessageKind::SocInfo => Some(EventKind::SocInfo),
        MessageKind::Handshake => None,
        MessageKind::Other => None,
    }
}

impl Reaction {
    /// The reaction that calls for nothing.
    pub fn none() -> (r: Reaction)
        ensures
            r@ == no_reaction(),
    {
        Reaction { reply: None, publish: None, registry: RegistryNote::Nothing }
    }

    /// Carries the reaction out: tells the registry, publishes the event,
    /// and hands back the reply for the peer.
    pub fn apply(self, registry: &mut DeviceManager, bus: &mut TelemetryBus, now: u64) -> (reply:
        Option<Response>)
        ensures
            final(registry)@ == registry_after(old(registry)@, self@.registry, now),
            ids_distinct(final(registry)@),
            final(bus)@ == bus_after(old(bus)@, self@.publish),
            bus_ok(final(bus)@),
            reply == self.reply,
    {
        proof {
            use_type_invariant(&*registry);
            use_type_invariant(&*bus);
            registry.lemma_well_formed();
            bus.lemma_well_formed();
        }
        let Reaction { reply, publish, registry: note } = self;
        match note {
            RegistryNote::Nothing => {},
            RegistryNote::Connected(id) => {
                registry.update_device_status_at(id.as_str(), DeviceStatus::Pairing, now);
                registry.update_device_status_at(id.as_str(), DeviceStatus::Connected, now);
            },
            RegistryNote::Disconnected(id) => {
                registry.update_device_status_at(id.as_str(), DeviceStatus::Disconnected, now);
            },
        }
        match publish {
            Some(event) => {
                bus.publish(event);
            },
            None => {},
        }
        reply
    }
}

impl Session {
    #[verifier::type_invariant]
    spec fn bound_only_after_handshake(self) -> bool {
        self.state == SessionState::AwaitingHandshake ==> self.device_id is None
    }

    /// Opens a session. It awaits its handshake, and the welcome frame is
    /// to be sent at once.
    pub fn open() -> (r: (Session, Response))
        ensures
            r.0@ == initial_session(),
            r.1@ == ResponseView::Welcome,
    {
        (Session { state: SessionState::AwaitingHandshake, device_id: None }, Response::Welcome)
    }

    /// Where the session stands.
    pub fn state(&self) -> (state: SessionState)
        ensures
            state == self@.state,
            state == SessionState::AwaitingHandshake ==> self@.device_id is None,
    {
        proof {
            use_type_invariant(self);
        }
        self.state
    }

    /// The device that the session is bound to, if any.
    pub fn device_id(&self) -> (id: Option<&String>)
        ensures
            match id {
                Some(d) => self@.device_id == Some(d@),
                None => self@.device_id is None,
            },
    {
        self.device_id.as_ref()
    }

    /// Takes a decoded frame, of which `payload` is the text, at the time
    /// `now`.
    pub fn on_envelope(&mut self, env: &Envelope, payload: &str, now: u64) -> (r: Reaction)
        ensures
            final(self)@ == session_after(old(self)@, env@),
            r@ == reaction_to(old(self)@, env@, payload@, now),
    {
        proof {
            use_type_invariant(&*self);
        }
        match self.state {
            SessionState::Closing => {
                return Reaction::none();
            },
            SessionState::Closed => {
                return Reaction::none();
            },
            _ => {},
        }
        let kind = classify(env.msg_type.as_str());
        let reply = Response::respond(env.msg_type.as_str());
        let bound = match &self.device_id {
            Some(id) => Some(id.clone()),
            None => clone_opt_text(&env.device_id),
        };
        match kind {
            MessageKind::Handshake => {
                let note = match &bound {
                    Some(id) => RegistryNote::Connected(id.clone()),
                    None => RegistryNote::Nothing,
                };
                self.state = SessionState::Active;
                self.device_id = bound;
                Reaction { reply: Some(reply), publish: None, registry: note }
            },
            _ => {
                let publish = match (self.state, event_kind(kind)) {
                    (SessionState::Active, Some(event_kind)) => Some(
                        TelemetryEvent {
                            kind: event_kind,
                            device_id: bound,
                            timestamp: match env.timestamp {
                                Some(t) => t,
                                None => now,
                            },
                            payload: payload.to_owned(),
                        },
                    ),
                    _ => None,
                };
                Reaction { reply: Some(reply), publish, registry: RegistryNote::Nothing }
            },
        }
    }

    /// Takes a text frame at the time `now`. Text that is no JSON document
    /// is dropped: no reply, no change.
    pub fn on_text(&mut self, text: &str, now: u64) -> (r: Reaction)
        ensures
            final(self)@ == session_after_text(old(self)@, text@),
            r@ == reaction_to_text(old(self)@, text@, now),
    {
        match Envelope::decode(text) {
            Some(env) => self.on_envelope(&env, text, now),
            None => Reaction::none(),
        }
    }

    /// Takes note that the peer closed or the transport failed: an open
    /// session is closing from now on, and its device is to be reported
    /// as disconnected.
    pub fn on_close(&mut self) -> (r: Reaction)
        ensures
            final(self)@ == session_closing(old(self)@),
            r@ == reaction_to_close(old(self)@),
    {
        proof {
            use_type_invariant(&*self);
        }
        match self.state {
            SessionState::Closing => Reaction::none(),
            SessionState::Closed => Reaction::none(),
            _ => {
                self.state = SessionState::Closing;
                Reaction {
                    reply: None,
                    publish: None,
                    registry: match &self.device_id {
                        Some(id) => RegistryNote::Disconnected(id.clone()),
                        None => RegistryNote::Nothing,
                    },
                }
            },
        }
    }

    /// Ends a closing session. A session in any other state stays as it
    /// is.
    pub fn finish_close(&mut self)
        ensures
            final(self)@.device_id == old(self)@.device_id,
            final(self)@.state == if old(self)@.state == SessionState::Closing {
                SessionState::Closed
            } else {
                old(self)@.state
            },
    {
        proof {
            use_type_invariant(&*self);
        }
        match self.state {
            SessionState::Closing => {
                self.state = SessionState::Closed;
            },
            _ => {},
        }
    }

    /// Takes whatever the transport hands over, at the time `now`.
    pub fn on_inbound(&mut self, inbound: &Inbound, now: u64) -> (r: Reaction)
        ensures
            final(self)@ == session_after_inbound(old(self)@, inbound@),
            r@ == reaction_to_inbound(old(self)@, inbound@, now),
    {
        match inbound {
            Inbound::Text(text) => self.on_text(text.as_str(), now),
            Inbound::Binary(_) => Reaction::none(),
            Inbound::Other => Reaction::none(),
            Inbound::Close => self.on_close(),
            Inbound::Failed => self.on_close(),
        }
    }
    /// Serves one thing that the transport hands over, at the time `now`:
    /// moves the session, tells the registry, publishes to the bus, and
    /// returns the text to send back, if any. A session that the peer
    /// closed, or whose transport failed, is closed when this returns.
    pub fn serve(
        &mut self,
        inbound: &Inbound,
        registry: &mut DeviceManager,
        bus: &mut TelemetryBus,
        now: u64,
    ) -> (frame: Option<String>)
        ensures
            (final(self)@, final(registry)@, final(bus)@, opt_text(frame)) == served(
                old(self)@,
                inbound@,
                old(registry)@,
                old(bus)@,
                now,
            ),
            ids_distinct(final(registry)@),
            bus_ok(final(bus)@),
    {
        let reaction = self.on_inbound(inbound, now);
        let reply = reaction.apply(registry, bus, now);
        self.finish_close();
        match reply {
            Some(r) => Some(r.to_json()),
            None => None,
        }
    }

    /// Serves one thing that the transport hands over, at the time of the
    /// call.
    pub fn serve_now(
        &mut self,
        inbound: &Inbound,
        registry: &mut DeviceManager,
        bus: &mut TelemetryBus,
    ) -> (frame: Option<String>)
        ensures
            exists|now: u64|
                (final(self)@, final(registry)@, final(bus)@, opt_text(frame)) == #[trigger] served(
                    old(self)@,
                    inbound@,
                    old(registry)@,
                    old(bus)@,
                    now,
                ),
            ids_distinct(final(registry)@),
            bus_ok(final(bus)@),
    {
        let now = clock_seconds();
        self.serve(inbound, registry, bus, now)
    }
}

/// A handshake followed by a telemetry frame, on a fresh session, is
/// answered with `handshake_ack` and then `ack`; the handshake makes the
/// session active, and the telemetry is published.
pub proof fn lemma_handshake_then_telemetry(
    handshake: EnvelopeView,
    sample: EnvelopeView,
    payload: Seq<char>,
    now: u64,
)
    requires
        kind_of(handshake.msg_type) == MessageKind::Handshake,
        kind_of(sample.msg_type) == MessageKind::RealtimeMonitor,
    ensures
        reaction_to(initial_session(), handshake, payload, now).reply == Some(
            ResponseView::HandshakeAck,
        ),
        session_after(initial_session(), handshake).state == SessionState::Active,
        reaction_to(session_after(initial_session(), handshake), sample, payload, now).reply
            == Some(ResponseView::Ack { stored: false }),
        reaction_to(session_after(initial_session(), handshake), sample, payload, now).publish
            is Some,
{
}

/// A frame of a type that the protocol does not know is answered with
/// `unknown`, which echoes the type, and changes nothing: not the session,
/// not the registry, not the bus.
pub proof fn lemma_unknown_type_is_echoed(s: SessionView, env: EnvelopeView, payload: Seq<char>, now: u64)
    requires
        is_open(s.state),
        kind_of(env.msg_type) == MessageKind::Other,
    ensures
        session_after(s, env) == s,
        reaction_to(s, env, payload, now) == (ReactionView {
            reply: Some(ResponseView::Unknown { original_type: env.msg_type }),
            publish: None,
            registry: RegistryNoteView::Nothing,
        }),
{
}

/// Text that is no JSON document gets no reply and leaves the session as
/// it is, so the frames that follow are served as if it had not come.
pub proof fn lemma_malformed_text_is_dropped(s: SessionView, text: Seq<char>, now: u64)
    requires
        decoded(text) is None,
    ensures
        session_after_inbound(s, InboundView::Text(text)) == s,
        is_open(s.state) ==> session_served(s, InboundView::Text(text)) == s,
        reaction_to_inbound(s, InboundView::Text(text), now) == no_reaction(),
{
}

/// When the peer closes, or the transport fails, the device that the
/// session is bound to stands as `Disconnected` in the registry, whatever
/// its status was and without any message from the peer.
pub proof fn lemma_close_disconnects_device(
    s: SessionView,
    registry: Seq<DeviceView>,
    id: Seq<char>,
    closed_by_peer: bool,
    now: u64,
)
    requires
        ids_distinct(registry),
        is_open(s.state),
        s.device_id == Some(id),
        has_id(registry, id),
    ensures
        ({
            let inbound = if closed_by_peer {
                InboundView::Close
            } else {
                InboundView::Failed
            };
            let after = registry_after(registry, reaction_to_inbound(s, inbound, now).registry, now);
            &&& session_served(s, inbound).state == SessionState::Closed
            &&& lookup(after, id) matches Some(d) && d.status == DeviceStatus::Disconnected
        }),
{
    let after = with_status(registry, id, DeviceStatus::Disconnected, now);
    let i = index_of_id(registry, id);
    lemma_with_status_follows_graph(registry, id, DeviceStatus::Disconnected, now);
    assert(after[i].id == id);
    lemma_index_of_id(after, i);
}

/// After a handshake, the device that the session is bound to stands as
/// `Connected` in the registry, if the registry knows it.
pub proof fn lemma_handshake_connects_device(
    registry: Seq<DeviceView>,
    id: Seq<char>,
    now: u64,
)
    requires
        ids_distinct(registry),
        has_id(registry, id),
    ensures
        lookup(registry_after(registry, RegistryNoteView::Connected(id), now), id) matches Some(d)
            && d.status == DeviceStatus::Connected,
{
    let i = index_of_id(registry, id);
    let paired = with_status(registry, id, DeviceStatus::Pairing, now);
    lemma_with_status_follows_graph(registry, id, DeviceStatus::Pairing, now);
    assert(paired[i].id == id);
    lemma_index_of_id(paired, i);
    let after = with_status(paired, id, DeviceStatus::Connected, now);
    lemma_with_status_follows_graph(paired, id, DeviceStatus::Connected, now);
    assert(after[i].id == id);
    lemma_index_of_id(after, i);
}

/// What one session does to the registry touches no other device: every
/// entry with another id than the note's stays as it is, in its place.
pub proof fn lemma_other_devices_untouched(registry: Seq<DeviceView>, note: RegistryNoteView, now: u64)
    requires
        ids_distinct(registry),
    ensures
        ids_distinct(registry_after(registry, note, now)),
        registry_after(registry, note, now).len() == registry.len(),
        forall|i: int|
            0 <= i < registry.len() ==> {
                let before = registry[i];
                let after = #[trigger] registry_after(registry, note, now)[i];
                &&& after.id == before.id
                &&& match note {
                    RegistryNoteView::Nothing => after == before,
                    RegistryNoteView::Connected(id) => before.id != id ==> after == before,
                    RegistryNoteView::Disconnected(id) => before.id != id ==> after == before,
                }
            },
{
    match note {
        RegistryNoteView::Nothing => {},
        RegistryNoteView::Connected(id) => {
            let paired = with_status(registry, id, DeviceStatus::Pairing, now);
            lemma_with_status_follows_graph(registry, id, DeviceStatus::Pairing, now);
            lemma_with_status_follows_graph(paired, id, DeviceStatus::Connected, now);
            assert forall|i: int| 0 <= i < registry.len() implies ({
                let before = registry[i];
                let after = #[trigger] registry_after(registry, note, now)[i];
                after.id == before.id && (before.id != id ==> after == before)
            }) by {
                assert(paired[i].id == registry[i].id);
            }
        },
        RegistryNoteView::Disconnected(id) => {
            lemma_with_status_follows_graph(registry, id, DeviceStatus::Disconnected, now);
        },
    }
}

/// The device that a note is about, if it is about one.
pub open spec fn noted_device(note: RegistryNoteView) -> Option<Seq<char>> {
    match note {
        RegistryNoteView::Nothing => None,
        RegistryNoteView::Connected(id) => Some(id),
        RegistryNoteView::Disconnected(id) => Some(id),
    }
}

/// Sessions of different devices do not interfere in the registry: what
/// two of them tell it has the same effect in either order, and neither
/// changes what the registry holds of the other's device.
pub proof fn lemma_sessions_do_not_interfere(
    registry: Seq<DeviceView>,
    first: RegistryNoteView,
    first_now: u64,
    second: RegistryNoteView,
    second_now: u64,
)
    requires
        ids_distinct(registry),
        noted_device(first) != noted_device(second) || noted_device(first) is None,
    ensures
        registry_after(registry_after(registry, first, first_now), second, second_now)
            == registry_after(registry_after(registry, second, second_now), first, first_now),
        noted_device(second) matches Some(id) ==> lookup(
            registry_after(registry, first, first_now),
            id,
        ) == lookup(registry, id),
{
    let pairing = DeviceStatus::Pairing;
    let connected = DeviceStatus::Connected;
    let gone = DeviceStatus::Disconnected;
    match (first, second) {
        (RegistryNoteView::Nothing, _) => {},
        (_, RegistryNoteView::Nothing) => {},
        (RegistryNoteView::Connected(a), RegistryNoteView::Connected(b)) => {
            let a1 = with_status(registry, a, pairing, first_now);
            let b1 = with_status(registry, b, pairing, second_now);
            lemma_with_status_follows_graph(registry, a, pairing, first_now);
            lemma_with_status_follows_graph(registry, b, pairing, second_now);
            lemma_with_status_follows_graph(a1, a, connected, first_now);
            lemma_with_status_follows_graph(b1, b, connected, second_now);
            lemma_with_status_follows_graph(a1, b, pairing, second_now);
            lemma_with_status_commutes(registry, a, pairing, first_now, b, pairing, second_now);
            lemma_with_status_commutes(a1, a, connected, first_now, b, pairing, second_now);
            lemma_with_status_commutes(b1, a, pairing, first_now, b, connected, second_now);
            lemma_with_status_commutes(
                with_status(a1, b, pairing, second_now),
                a,
                connected,
                first_now,
                b,
                connected,
                second_now,
            );
            lemma_with_status_keeps_others(registry, a, pairing, first_now, b);
            lemma_with_status_keeps_others(a1, a, connected, first_now, b);
        },
        (RegistryNoteView::Connected(a), RegistryNoteView::Disconnected(b)) => {
            let a1 = with_status(registry, a, pairing, first_now);
            lemma_with_status_follows_graph(registry, a, pairing, first_now);
            lemma_with_status_commutes(registry, a, pairing, first_now, b, gone, second_now);
            lemma_with_status_commutes(a1, a, connected, first_now, b, gone, second_now);
            lemma_with_status_keeps_others(registry, a, pairing, first_now, b);
            lemma_with_status_keeps_others(a1, a, connected, first_now, b);
        },
        (RegistryNoteView::Disconnected(a), RegistryNoteView::Connected(b)) => {
            let b1 = with_status(registry, b, pairing, second_now);
            lemma_with_status_follows_graph(registry, b, pairing, second_now);
            lemma_with_status_commutes(registry, a, gone, first_now, b, pairing, second_now);
            lemma_with_status_commutes(b1, a, gone, first_now, b, connected, second_now);
            lemma_with_status_keeps_others(registry, a, gone, first_now, b);
        },
        (RegistryNoteView::Disconnected(a), RegistryNoteView::Disconnected(b)) => {
            lemma_with_status_commutes(registry, a, gone, first_now, b, gone, second_now);
            lemma_with_status_keeps_others(registry, a, gone, first_now, b);
        },
    }
}

} // verus!
