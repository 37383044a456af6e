//! The life of one client connection on the hub, as a state machine: the
//! caller performs each action and reports what came of it as an event.
//!
//! A connection is greeted, then must log in with its first frame; a client
//! that logs in is registered under its id, and its frames are forwarded
//! until the connection fails, when it is unregistered again.

use vstd::prelude::*;

use crate::hub::{InitClient, RPCErrorKind};

verus! {

/// Where a connection stands.
#[derive(Debug)]
pub enum SessionState {
    /// The greeting is being sent.
    Greeting,
    /// Waiting for the login frame.
    LoggingIn,
    /// Logged in as `id`, waiting for the next frame.
    Serving { id: String },
    /// Logged in as `id`, the received frame `frame` is being forwarded.
    Forwarding { id: String, frame: String },
    /// The connection is over.
    Closed,
}

/// What came of the last action.
#[derive(Debug)]
pub enum SessionEvent {
    /// The greeting was sent (`true`) or could not be (`false`).
    GreetingSent(bool),
    /// No login frame arrived in time.
    LoginTimedOut,
    /// The login frame: a read error, a frame that is not a login
    /// (`Ok(None)`), or the client's login.
    LoginFrame(Result<Option<InitClient>, RPCErrorKind>),
    /// A frame while logged in: its JSON text (`Ok`), or a read error.
    Frame(Result<String, RPCErrorKind>),
    /// The received frame was forwarded (`true`) or could not be (`false`).
    Forwarded(bool),
}

/// What the caller does next.
#[derive(Debug, PartialEq, Eq)]
pub enum SessionAction {
    /// Send the greeting; report `GreetingSent`.
    Greet,
    /// Read the login frame under the login timeout; report `LoginFrame`
    /// or `LoginTimedOut`.
    ReadLogin,
    /// Register the client under `id` with project `path`, then read the
    /// next frame; report `Frame`.
    Register { id: String, path: String },
    /// Read the next frame; report `Frame`.
    ReadFrame,
    /// Forward the JSON text `frame` just received from the client `id`;
    /// report `Forwarded`.
    Forward { id: String, frame: String },
    /// Remove the client `id` from the registry and close the connection.
    Unregister { id: String },
    /// Close the connection; nothing was registered.
    Close,
    /// Nothing is left to do.
    Idle,
}

/// The mathematical state of a connection.
pub enum Stage {
    Greeting,
    LoggingIn,
    Serving(Seq<char>),
    Forwarding(Seq<char>, Seq<char>),
    Closed,
}

/// The mathematical form of an event.
pub enum EventView {
    GreetingSent(bool),
    LoginTimedOut,
    LoginFrame(Result<Option<(Seq<char>, Seq<char>)>, RPCErrorKind>),
    Frame(Result<Seq<char>, RPCErrorKind>),
    Forwarded(bool),
}

/// The mathematical form of an action.
pub enum ActionView {
    Greet,
    ReadLogin,
    Register(Seq<char>, Seq<char>),
    ReadFrame,
    Forward(Seq<char>, Seq<char>),
    Unregister(Seq<char>),
    Close,
    Idle,
}

impl View for SessionState {
    type V = Stage;

    open spec fn view(&self) -> Stage {
        match self {
            SessionState::Greeting => Stage::Greeting,
            SessionState::LoggingIn => Stage::LoggingIn,
            SessionState::Serving { id } => Stage::Serving(id@),
            SessionState::Forwarding { id, frame } => Stage::Forwarding(id@, frame@),
            SessionState::Closed => Stage::Closed,
        }
    }
}

impl View for SessionEvent {
    type V = EventView;

    open spec fn view(&self) -> EventView {
        match self {
            SessionEvent::GreetingSent(ok) => EventView::GreetingSent(*ok),
            SessionEvent::LoginTimedOut => EventView::LoginTimedOut,
            SessionEvent::LoginFrame(r) => EventView::LoginFrame(
                match r {
                    Ok(Some(c)) => Ok(Some((c.id@, c.path@))),
                    Ok(None) => Ok(None),
                    Err(k) => Err(*k),
                },
            ),
            SessionEvent::Frame(r) => EventView::Frame(
                match r {
                    Ok(f) => Ok(f@),
                    Err(k) => Err(*k),
                },
            ),
            SessionEvent::Forwarded(ok) => EventView::Forwarded(*ok),
        }
    }
}

impl View for SessionAction {
    type V = ActionView;

    open spec fn view(&self) -> ActionView {
        match self {
            SessionAction::Greet => ActionView::Greet,
            SessionAction::ReadLogin => ActionView::ReadLogin,
            SessionAction::Register { id, path } => ActionView::Register(id@, path@),
            SessionAction::ReadFrame => ActionView::ReadFrame,
            SessionAction::Forward { id, frame } => ActionView::Forward(id@, frame@),
            SessionAction::Unregister { id } => ActionView::Unregister(id@),
            SessionAction::Close => ActionView::Close,
            SessionAction::Idle => ActionView::Idle,
        }
    }
}

/// One step of a connection: the next stage and action after event `e` in
/// stage `s`. An event that does not belong to the stage changes nothing and
/// repeats the action the stage waits on.
pub open spec fn session_next(s: Stage, e: EventView) -> (Stage, ActionView) {
    match s {
        Stage::Greeting => match e {
            EventView::GreetingSent(true) => (Stage::LoggingIn, ActionView::ReadLogin),
            EventView::GreetingSent(false) => (Stage::Closed, ActionView::Close),
            _ => (Stage::Greeting, ActionView::Greet),
        },
        Stage::LoggingIn => match e {
            EventView::LoginFrame(Ok(Some((id, path)))) => (
                Stage::Serving(id),
                ActionView::Register(id, path),
            ),
            EventView::LoginFrame(_) => (Stage::Closed, ActionView::Close),
            EventView::LoginTimedOut => (Stage::Closed, ActionView::Close),
            _ => (Stage::LoggingIn, ActionView::ReadLogin),
        },
        Stage::Serving(id) => match e {
            EventView::Frame(Ok(f)) => (Stage::Forwarding(id, f), ActionView::Forward(id, f)),
            EventView::Frame(Err(RPCErrorKind::Parse)) => (Stage::Serving(id), ActionView::ReadFrame),
            EventView::Frame(Err(_)) => (Stage::Closed, ActionView::Unregister(id)),
            _ => (Stage::Serving(id), ActionView::ReadFrame),
        },
        Stage::Forwarding(id, f) => match e {
            EventView::Forwarded(true) => (Stage::Serving(id), ActionView::ReadFrame),
            EventView::Forwarded(false) => (Stage::Closed, ActionView::Unregister(id)),
            _ => (Stage::Forwarding(id, f), ActionView::Forward(id, f)),
        },
        Stage::Closed => (Stage::Closed, ActionView::Idle),
    }
}

/// One connection between the hub and a client.
#[derive(Debug)]
pub struct Session {
    state: SessionState,
}

impl View for Session {
    type V = Stage;

    closed spec fn view(&self) -> Stage {
        self.state@
    }
}

impl Session {
    /// A new connection, with the first thing to do: greet the client.
    pub fn start() -> (r: (Session, SessionAction))
        ensures
            r.0@ == Stage::Greeting,
            r.1@ == ActionView::Greet,
    {
        (Session { state: SessionState::Greeting }, SessionAction::Greet)
    }

    /// Whether the connection is over.
    pub fn is_closed(&self) -> (r: bool)
        ensures
            r == (self@ is Closed),
    {
        match self.state {
            SessionState::Closed => true,
            _ => false,
        }
    }

    /// Takes in what came of the last action and gives the next one.
    pub fn step(&mut self, event: SessionEvent) -> (r: SessionAction)
        ensures
            (final(self)@, r@) == session_next(old(self)@, event@),
    {
        let mut state = SessionState::Closed;
        std::mem::swap(&mut state, &mut self.state);
        let (next, action) = match state {
            SessionState::Greeting => match event {
                SessionEvent::GreetingSent(true) => (SessionState::LoggingIn, SessionAction::ReadLogin),
                SessionEvent::GreetingSent(false) => (SessionState::Closed, SessionAction::Close),
                _ => (SessionState::Greeting, SessionAction::Greet),
            },
            SessionState::LoggingIn => match event {
                SessionEvent::LoginFrame(Ok(Some(conf))) => {
                    let id = conf.id.clone();
                    (
                        SessionState::Serving { id },
                        SessionAction::Register { id: conf.id, path: conf.path },
                    )
                },
                SessionEvent::LoginFrame(_) => (SessionState::Closed, SessionAction::Close),
                SessionEvent::LoginTimedOut => (SessionState::Closed, SessionAction::Close),
                _ => (SessionState::LoggingIn, SessionAction::ReadLogin),
            },
            SessionState::Serving { id } => match event {
                SessionEvent::Frame(Ok(frame)) => (
                    SessionState::Forwarding { id: id.clone(), frame: frame.clone() },
                    SessionAction::Forward { id, frame },
                ),
                SessionEvent::Frame(Err(RPCErrorKind::Parse)) => (
                    SessionState::Serving { id },
                    SessionAction::ReadFrame,
                ),
                SessionEvent::Frame(Err(_)) => (SessionState::Closed, SessionAction::Unregister { id }),
                _ => (SessionState::Serving { id }, SessionAction::ReadFrame),
            },
            SessionState::Forwarding { id, frame } => match event {
                SessionEvent::Forwarded(true) => (SessionState::Serving { id }, SessionAction::ReadFrame),
                SessionEvent::Forwarded(false) => (
                    SessionState::Closed,
                    SessionAction::Unregister { id },
                ),
                _ => (
                    SessionState::Forwarding { id: id.clone(), frame: frame.clone() },
                    SessionAction::Forward { id, frame },
                ),
            },
            SessionState::Closed => (SessionState::Closed, SessionAction::Idle),
        };
        self.state = next;
        action
    }
}

/// The stages and actions of a connection that starts in `s` and meets the
/// events `events` in order.
pub open spec fn session_run(s: Stage, events: Seq<EventView>) -> (Stage, Seq<ActionView>)
    decreases events.len(),
{
    if events.len() == 0 {
        (s, Seq::empty())
    } else {
        let (mid, acts) = session_run(s, events.drop_last());
        let (last, a) = session_next(mid, events.last());
        (last, acts.push(a))
    }
}

/// The ids registered by the actions `acts`, in order.
pub open spec fn registrations(acts: Seq<ActionView>) -> Seq<Seq<char>>
    decreases acts.len(),
{
    if acts.len() == 0 {
        Seq::empty()
    } else {
        match acts.last() {
            ActionView::Register(id, _) => registrations(acts.drop_last()).push(id),
            _ => registrations(acts.drop_last()),
        }
    }
}

/// The ids unregistered by the actions `acts`, in order.
pub open spec fn unregistrations(acts: Seq<ActionView>) -> Seq<Seq<char>>
    decreases acts.len(),
{
    if acts.len() == 0 {
        Seq::empty()
    } else {
        match acts.last() {
            ActionView::Unregister(id) => unregistrations(acts.drop_last()).push(id),
            _ => unregistrations(acts.drop_last()),
        }
    }
}

/// What holds after any run from the greeting, by stage.
spec fn run_invariant(s: Stage, acts: Seq<ActionView>) -> bool {
    match s {
        Stage::Greeting => registrations(acts).len() == 0 && unregistrations(acts).len() == 0,
        Stage::LoggingIn => registrations(acts).len() == 0 && unregistrations(acts).len() == 0,
        Stage::Serving(id) => registrations(acts) == seq![id] && unregistrations(acts).len() == 0,
        Stage::Forwarding(id, _) => registrations(acts) == seq![id] && unregistrations(acts).len()
            == 0,
        Stage::Closed => registrations(acts).len() <= 1 && unregistrations(acts) == registrations(
            acts,
        ),
    }
}

proof fn lemma_run_invariant(events: Seq<EventView>)
    ensures
        run_invariant(session_run(Stage::Greeting, events).0, session_run(Stage::Greeting, events).1),
    decreases events.len(),
{
    if events.len() > 0 {
        lemma_run_invariant(events.drop_last());
        let (mid, acts) = session_run(Stage::Greeting, events.drop_last());
        let (last, a) = session_next(mid, events.last());
        let all = acts.push(a);
        assert(all.drop_last() =~= acts);
        assert(all.last() == a);
        assert(session_run(Stage::Greeting, events) == (last, all));
        assert(registrations(all) == match a {
            ActionView::Register(id, _) => registrations(acts).push(id),
            _ => registrations(acts),
        });
        assert(unregistrations(all) == match a {
            ActionView::Unregister(id) => unregistrations(acts).push(id),
            _ => unregistrations(acts),
        });
        match mid {
            Stage::Serving(id) => {
                assert(registrations(acts) == seq![id]);
                if a is Unregister {
                    assert(unregistrations(all) =~= seq![id]);
                }
            },
            Stage::Forwarding(id, _) => {
                assert(registrations(acts) == seq![id]);
                if a is Unregister {
                    assert(unregistrations(all) =~= seq![id]);
                }
            },
            Stage::LoggingIn => {
                if a is Register {
                    assert(registrations(all) =~= seq![a->Register_0]);
                } else {
                    assert(unregistrations(all) =~= registrations(all));
                }
            },
            Stage::Greeting => {
                assert(unregistrations(all) =~= registrations(all));
            },
            Stage::Closed => {},
        }
        assert(run_invariant(last, all));
    } else {
        assert(registrations(Seq::<ActionView>::empty()).len() == 0);
        assert(unregistrations(Seq::<ActionView>::empty()).len() == 0);
    }
}

/// A connection registers at most one client, unregisters only the client
/// it registered and only after registering it, and a connection that
/// registered a client and has ended has unregistered it: for every run
/// from the greeting, the unregistered ids are the registered ones or none,
/// and once closed they are the registered ones.
pub proof fn law_registration_undone(events: Seq<EventView>)
    ensures
        registrations(session_run(Stage::Greeting, events).1).len() <= 1,
        unregistrations(session_run(Stage::Greeting, events).1).len() == 0 || unregistrations(
            session_run(Stage::Greeting, events).1,
        ) == registrations(session_run(Stage::Greeting, events).1),
        session_run(Stage::Greeting, events).0 is Closed ==> unregistrations(
            session_run(Stage::Greeting, events).1,
        ) == registrations(session_run(Stage::Greeting, events).1),
{
    lemma_run_invariant(events);
}

/// A closed connection stays closed and does nothing more.
pub proof fn law_closed_is_final(e: EventView)
    ensures
        session_next(Stage::Closed, e) == (Stage::Closed, ActionView::Idle),
{
}

/// A frame that is not JSON does not end a logged-in connection.
pub proof fn law_parse_error_keeps_serving(id: Seq<char>)
    ensures
        session_next(Stage::Serving(id), EventView::Frame(Err(RPCErrorKind::Parse))) == (
            Stage::Serving(id),
            ActionView::ReadFrame,
        ),
{
}


proof fn lemma_stage_follows_action(s: Stage, e: EventView)
    ensures
        (session_next(s, e).0 is Serving) == asks_for_frame(session_next(s, e).1),
        (session_next(s, e).0 is Forwarding) == (session_next(s, e).1 is Forward),
        session_next(s, e).1 is Forward ==> (s is Serving && is_received_frame(e))
            || (s is Forwarding && !(e is Forwarded)),
        s is Serving && is_received_frame(e) ==> session_next(s, e).1 is Forward,
{
}

proof fn lemma_run_prefix(events: Seq<EventView>, k: int)
    requires
        0 <= k <= events.len(),
    ensures
        session_run(Stage::Greeting, events).1.len() == events.len(),
        session_run(Stage::Greeting, events.take(k)).1 =~= session_run(Stage::Greeting, events).1.take(k),
    decreases events.len(),
{
    if events.len() > 0 {
        let prev = events.drop_last();
        if k < events.len() {
            lemma_run_prefix(prev, k);
            assert(prev.take(k) =~= events.take(k));
        } else {
            lemma_run_prefix(prev, 0);
            assert(events.take(k) =~= events);
        }
    } else {
        assert(events.take(k) =~= events);
    }
}

/// Whether `e` reports a frame received from a logged-in client.
pub open spec fn is_received_frame(e: EventView) -> bool {
    match e {
        EventView::Frame(Ok(_)) => true,
        _ => false,
    }
}

/// Whether `a` asks for the next frame of a logged-in client.
pub open spec fn asks_for_frame(a: ActionView) -> bool {
    a is Register || a is ReadFrame
}

/// A logged-in connection forwards exactly the frames it receives, each
/// right after it arrives: in every run from the greeting, a frame received
/// in answer to a request for the next frame is forwarded by the very next
/// action, and a forwarding action either answers such a frame or repeats a
/// forwarding whose outcome has not been reported yet. No frame is
/// forwarded before the login.
pub proof fn law_frames_forwarded(events: Seq<EventView>, i: int)
    requires
        0 <= i < events.len(),
    ensures
        ({
            let acts = session_run(Stage::Greeting, events).1;
            &&& i == 0 ==> !(acts[0] is Forward)
            &&& i > 0 && asks_for_frame(acts[i - 1]) && is_received_frame(events[i])
                ==> acts[i] is Forward
            &&& i > 0 && acts[i] is Forward ==> (asks_for_frame(acts[i - 1]) && is_received_frame(
                events[i],
            )) || (acts[i - 1] is Forward && !(events[i] is Forwarded))
        }),
{
    lemma_run_prefix(events, i);
    lemma_run_prefix(events, i + 1);
    let acts = session_run(Stage::Greeting, events).1;
    let (stage, before) = session_run(Stage::Greeting, events.take(i));
    let upto = events.take(i + 1);
    assert(upto.drop_last() =~= events.take(i));
    assert(upto.last() == events[i]);
    assert(session_run(Stage::Greeting, upto).1 =~= acts.take(i + 1));
    assert(acts[i] == session_run(Stage::Greeting, upto).1[i]);
    assert(acts[i] == session_next(stage, events[i]).1);
    if i == 0 {
        assert(events.take(0) =~= Seq::<EventView>::empty());
        lemma_stage_follows_action(stage, events[i]);
    } else {
        lemma_run_prefix(events.take(i), i - 1);
        let prior = events.take(i);
        assert(prior.drop_last() =~= events.take(i - 1));
        assert(before =~= acts.take(i));
        assert(acts[i - 1] == before[i - 1]);
        let (pstage, pacts) = session_run(Stage::Greeting, prior.drop_last());
        assert(session_run(Stage::Greeting, prior) == (
            session_next(pstage, prior.last()).0,
            pacts.push(session_next(pstage, prior.last()).1),
        ));
        assert(before.last() == session_next(pstage, prior.last()).1);
        assert(before.len() == i);
        assert(stage == session_next(pstage, prior.last()).0);
        lemma_stage_follows_action(pstage, prior.last());
        lemma_stage_follows_action(stage, events[i]);
    }
}

/// Whether the event `e` is an outcome of the action `a`: each action is
/// answered by the report that its documentation names, and an action that
/// ends the connection is answered by nothing.
pub open spec fn answers(a: ActionView, e: EventView) -> bool {
    match a {
        ActionView::Greet => e is GreetingSent,
        ActionView::ReadLogin => e is LoginFrame || e is LoginTimedOut,
        ActionView::Register(_, _) | ActionView::ReadFrame => e is Frame,
        ActionView::Forward(_, _) => e is Forwarded,
        _ => false,
    }
}

/// The last action of a connection from the greeting that met `events`.
pub open spec fn last_action(events: Seq<EventView>) -> ActionView {
    if events.len() == 0 {
        ActionView::Greet
    } else {
        session_run(Stage::Greeting, events).1.last()
    }
}

/// Whether every event of `events` is an outcome of the action before it,
/// for a connection from the greeting.
pub open spec fn answered(events: Seq<EventView>) -> bool
    decreases events.len(),
{
    if events.len() == 0 {
        true
    } else {
        answered(events.drop_last()) && answers(last_action(events.drop_last()), events.last())
    }
}

/// The JSON texts of the frames received while logged in, in order.
pub open spec fn received_frames(events: Seq<EventView>) -> Seq<Seq<char>>
    decreases events.len(),
{
    if events.len() == 0 {
        Seq::empty()
    } else {
        match events.last() {
            EventView::Frame(Ok(f)) => received_frames(events.drop_last()).push(f),
            _ => received_frames(events.drop_last()),
        }
    }
}

/// The client id and frame of each forwarding action of `acts`, in order.
pub open spec fn forwards(acts: Seq<ActionView>) -> Seq<(Seq<char>, Seq<char>)>
    decreases acts.len(),
{
    if acts.len() == 0 {
        Seq::empty()
    } else {
        match acts.last() {
            ActionView::Forward(id, f) => forwards(acts.drop_last()).push((id, f)),
            _ => forwards(acts.drop_last()),
        }
    }
}

/// Which action a stage is entered with.
spec fn entered_with(s: Stage, a: ActionView) -> bool {
    match s {
        Stage::Greeting => a is Greet,
        Stage::LoggingIn => a is ReadLogin,
        Stage::Serving(_) => asks_for_frame(a),
        Stage::Forwarding(id, f) => a == ActionView::Forward(id, f),
        Stage::Closed => a is Close || a is Unregister || a is Idle,
    }
}

/// The forwarding actions pair each received frame with the registered client.
spec fn forwards_match(acts: Seq<ActionView>, frames: Seq<Seq<char>>) -> bool {
    &&& forwards(acts).len() == frames.len()
    &&& frames.len() > 0 ==> registrations(acts).len() == 1
    &&& forall|k: int|
        0 <= k < frames.len() ==> #[trigger] forwards(acts)[k] == (registrations(acts)[0], frames[k])
}

proof fn lemma_forwards_match(events: Seq<EventView>)
    requires
        answered(events),
    ensures
        entered_with(session_run(Stage::Greeting, events).0, last_action(events)),
        forwards_match(session_run(Stage::Greeting, events).1, received_frames(events)),
    decreases events.len(),
{
    lemma_run_invariant(events);
    if events.len() > 0 {
        let prev = events.drop_last();
        let e = events.last();
        lemma_forwards_match(prev);
        lemma_run_invariant(prev);
        let (mid, acts) = session_run(Stage::Greeting, prev);
        let (last, a) = session_next(mid, e);
        let all = acts.push(a);
        assert(all.drop_last() =~= acts);
        assert(all.last() == a);
        assert(session_run(Stage::Greeting, events) == (last, all));
        assert(last_action(events) == a);
        let fr = received_frames(prev);
        assert(registrations(all) == match a {
            ActionView::Register(id, _) => registrations(acts).push(id),
            _ => registrations(acts),
        });
        assert(forwards(all) == match a {
            ActionView::Forward(id, f) => forwards(acts).push((id, f)),
            _ => forwards(acts),
        });
        assert(received_frames(events) == match e {
            EventView::Frame(Ok(f)) => fr.push(f),
            _ => fr,
        });
        match mid {
            Stage::Serving(id) => {
                assert(registrations(acts) == seq![id]);
                if let EventView::Frame(Ok(f)) = e {
                    assert(a == ActionView::Forward(id, f));
                    let fr2 = fr.push(f);
                    assert forall|k: int| 0 <= k < fr2.len() implies #[trigger] forwards(all)[k] == (
                        registrations(all)[0],
                        fr2[k],
                    ) by {
                        if k < fr.len() {
                            assert(forwards(all)[k] == forwards(acts)[k]);
                            assert(fr2[k] == fr[k]);
                        }
                    }
                }
            },
            Stage::LoggingIn => {
                assert(registrations(acts).len() == 0);
                assert(fr.len() == 0);
            },
            Stage::Greeting => {
                assert(registrations(acts).len() == 0);
                assert(fr.len() == 0);
            },
            _ => {},
        }
    }
}

/// A logged-in connection forwards exactly the frames it receives, in
/// order, each paired with the client that logged in: for every run from
/// the greeting in which each event is an outcome of the action before it,
/// the forwarding actions, taken in order, are the received frames, taken
/// in order, each with the id of the one client the connection registered.
pub proof fn law_forwards_received_frames(events: Seq<EventView>)
    requires
        answered(events),
    ensures
        ({
            let acts = session_run(Stage::Greeting, events).1;
            let frames = received_frames(events);
            &&& forwards(acts).len() == frames.len()
            &&& frames.len() > 0 ==> registrations(acts).len() == 1
            &&& forall|k: int|
                0 <= k < frames.len() ==> #[trigger] forwards(acts)[k] == (registrations(acts)[0], frames[k])
        }),
{
    lemma_forwards_match(events);
}

/// A connection whose greeting is sent waits for the login; one whose
/// greeting cannot be sent is closed with nothing registered.
pub proof fn law_greeting_outcome(sent: bool)
    ensures
        sent ==> session_next(Stage::Greeting, EventView::GreetingSent(sent)) == (
            Stage::LoggingIn,
            ActionView::ReadLogin,
        ),
        !sent ==> session_next(Stage::Greeting, EventView::GreetingSent(sent)) == (
            Stage::Closed,
            ActionView::Close,
        ),
{
}

/// Only a client's login registers it: a login frame that names a client
/// registers that client under its id and starts serving it, while a read
/// error (of any kind, a frame that is not JSON included), a frame that is
/// not a login, or a timeout closes the connection with nothing registered.
pub proof fn law_login_outcome(r: Result<Option<(Seq<char>, Seq<char>)>, RPCErrorKind>)
    ensures
        r matches Ok(Some((id, path))) ==> session_next(Stage::LoggingIn, EventView::LoginFrame(r))
            == (Stage::Serving(id), ActionView::Register(id, path)),
        !(r matches Ok(Some(_))) ==> session_next(Stage::LoggingIn, EventView::LoginFrame(r)) == (
            Stage::Closed,
            ActionView::Close,
        ),
        session_next(Stage::LoggingIn, EventView::LoginTimedOut) == (Stage::Closed, ActionView::Close),
{
}

/// A frame read that fails for any reason other than a frame that is not
/// JSON (a disconnection or an empty read) ends a logged-in connection and
/// unregisters its client; only a frame that is not JSON is skipped.
pub proof fn law_failed_read_unregisters(id: Seq<char>, k: RPCErrorKind)
    ensures
        k != RPCErrorKind::Parse ==> session_next(Stage::Serving(id), EventView::Frame(Err(k))) == (
            Stage::Closed,
            ActionView::Unregister(id),
        ),
        k == RPCErrorKind::Parse ==> session_next(Stage::Serving(id), EventView::Frame(Err(k))) == (
            Stage::Serving(id),
            ActionView::ReadFrame,
        ),
{
}

/// A received frame is forwarded for the client that logged in; once it is
/// forwarded the next frame is read, and when it cannot be forwarded the
/// connection ends and the client is unregistered.
pub proof fn law_forward_outcome(id: Seq<char>, f: Seq<char>, ok: bool)
    ensures
        session_next(Stage::Serving(id), EventView::Frame(Ok(f))) == (
            Stage::Forwarding(id, f),
            ActionView::Forward(id, f),
        ),
        ok ==> session_next(Stage::Forwarding(id, f), EventView::Forwarded(ok)) == (
            Stage::Serving(id),
            ActionView::ReadFrame,
        ),
        !ok ==> session_next(Stage::Forwarding(id, f), EventView::Forwarded(ok)) == (
            Stage::Closed,
            ActionView::Unregister(id),
        ),
{
}

} // verus!
