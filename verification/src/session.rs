//! The handshake state machine of the Session Manager: a strict forward
//! sequence Disconnected -> Registering -> Authenticating -> Joining ->
//! Ready, driven by inbound server events. Keepalive probes are answered
//! in every phase as a side effect, never as a transition. The loop that
//! reads events from the network and performs the emitted actions lives
//! outside this crate.
use vstd::prelude::*;

verus! {

/// Handshake progress. Ready is the terminal operational phase.
#[derive(PartialEq, Eq, Structural, Clone, Copy, Debug)]
pub enum SessionPhase {
    Disconnected,
    Registering,
    Authenticating,
    Joining,
    Ready,
}

/// An inbound protocol event, already reduced to plain values by the
/// transport layer.
pub enum SessionEvent {
    /// The server-issued welcome acknowledgment of registration.
    Welcome,
    /// A notice; its text may carry the identity service's confirmation.
    Notice { content: String },
    /// A numeric response with its argument list; the end of the channel
    /// membership list arrives as one of these.
    Response { args: Vec<String> },
    /// A keepalive probe that must be answered immediately.
    Ping { server: String },
    /// Anything else; drained and ignored.
    Other,
}

/// An action the transport layer must perform after a step.
pub enum SessionAction {
    /// Identify to the network's identity-verification service.
    SendIdentify,
    /// Join the configured channel.
    SendJoin,
    /// Request operator elevation (fire and forget).
    SendOper,
    /// Answer a keepalive probe.
    SendPong { server: String },
}

/// Whether a notice's text contains the recognized accepted phrase.
pub open spec fn notice_accepts(content: Seq<char>) -> bool {
    contains_sub(content, "Password accepted"@)
}

/// Whether `needle` occurs anywhere in `hay`.
pub open spec fn contains_sub(hay: Seq<char>, needle: Seq<char>) -> bool {
    exists|i: int|
        0 <= i <= hay.len() - needle.len() && #[trigger] hay.subrange(i, i + needle.len())
            == needle
}

/// Whether a response's arguments carry the end-of-membership-list marker.
pub open spec fn names_end(args: Seq<String>) -> bool {
    exists|i: int| 0 <= i < args.len() && args[i]@ == "End of /NAMES list."@
}

/// The phase after one event. Only the expected event of the current
/// phase moves the machine, and only one step forward.
pub open spec fn next_phase(phase: SessionPhase, ev: SessionEvent) -> SessionPhase {
    match (phase, ev) {
        (SessionPhase::Registering, SessionEvent::Welcome) => SessionPhase::Authenticating,
        (SessionPhase::Authenticating, SessionEvent::Notice { content }) => if notice_accepts(
            content@,
        ) {
            SessionPhase::Joining
        } else {
            SessionPhase::Authenticating
        },
        (SessionPhase::Joining, SessionEvent::Response { args }) => if names_end(args@) {
            SessionPhase::Ready
        } else {
            SessionPhase::Joining
        },
        _ => phase,
    }
}

/// The actions one event demands: a pong for every keepalive, and the
/// submission that opens the next handshake phase.
pub open spec fn actions_for(phase: SessionPhase, ev: SessionEvent, oper: bool) -> Seq<
    SessionAction,
> {
    match (phase, ev) {
        (_, SessionEvent::Ping { server }) => seq![SessionAction::SendPong { server }],
        (SessionPhase::Registering, SessionEvent::Welcome) => seq![SessionAction::SendIdentify],
        (SessionPhase::Authenticating, SessionEvent::Notice { content }) => if notice_accepts(
            content@,
        ) {
            seq![SessionAction::SendJoin]
        } else {
            Seq::empty()
        },
        (SessionPhase::Joining, SessionEvent::Response { args }) => if names_end(args@) && oper {
            seq![SessionAction::SendOper]
        } else {
            Seq::empty()
        },
        _ => Seq::empty(),
    }
}

fn match_at(hay: &str, needle: &str, i: usize) -> (b: bool)
    requires
        i + needle@.len() <= hay@.len(),
    ensures
        b == (hay@.subrange(i as int, i + needle@.len()) == needle@),
{
    let m = hay.unicode_len();
    let n = needle.unicode_len();
    let mut j: usize = 0;
    while j < n
        invariant
            i + n <= m,
            m == hay@.len(),
            n == needle@.len(),
            j <= n,
            forall|j0: int| 0 <= j0 < j ==> hay@[i + j0] == needle@[j0],
        decreases n - j,
    {
        if hay.get_char(i + j) != needle.get_char(j) {
            proof {
                assert(hay@.subrange(i as int, i + n as int)[j as int] != needle@[j as int]);
            }
            return false;
        }
        j = j + 1;
    }
    proof {
        assert(hay@.subrange(i as int, i + n as int) =~= needle@);
    }
    true
}

fn contains_str(hay: &str, needle: &str) -> (b: bool)
    requires
        needle@.len() >= 1,
    ensures
        b == contains_sub(hay@, needle@),
{
    let m = hay.unicode_len();
    let n = needle.unicode_len();
    if m < n {
        return false;
    }
    let mut i: usize = 0;
    while i <= m - n
        invariant
            1 <= n <= m,
            m == hay@.len(),
            n == needle@.len(),
            i <= m - n + 1,
            forall|i0: int| 0 <= i0 < i ==> #[trigger] hay@.subrange(i0, i0 + n as int)
                != needle@,
        decreases m - i,
    {
        if match_at(hay, needle, i) {
            return true;
        }
        i = i + 1;
    }
    false
}

fn args_carry_names_end(args: &Vec<String>) -> (b: bool)
    ensures
        b == names_end(args@),
{
    let marker = String::from_str("End of /NAMES list.");
    let mut i: usize = 0;
    while i < args.len()
        invariant
            marker@ == "End of /NAMES list."@,
            i <= args@.len(),
            forall|j: int| 0 <= j < i ==> (#[trigger] args@[j])@ != "End of /NAMES list."@,
        decreases args@.len() - i,
    {
        if args[i] == marker {
            return true;
        }
        i = i + 1;
    }
    false
}

/// The Session Manager's handshake state: the phase reached so far and
/// whether operator elevation is configured.
pub struct SessionMachine {
    pub phase: SessionPhase,
    pub oper: bool,
}

impl SessionMachine {
    /// A fresh machine, not yet connected.
    pub fn new(oper: bool) -> (m: Self)
        ensures
            m.phase == SessionPhase::Disconnected,
            m.oper == oper,
    {
        SessionMachine { phase: SessionPhase::Disconnected, oper }
    }

    /// Opening the connection and submitting identity credentials moves
    /// the machine into Registering, where it waits for the welcome.
    pub fn start_registration(&mut self)
        requires
            old(self).phase == SessionPhase::Disconnected,
        ensures
            final(self).phase == SessionPhase::Registering,
            final(self).oper == old(self).oper,
    {
        self.phase = SessionPhase::Registering;
    }

    /// Feeds one inbound event to the machine: the phase advances exactly
    /// as `next_phase` states, and the returned actions are exactly those
    /// `actions_for` demands, in order.
    pub fn handle_event(&mut self, ev: SessionEvent) -> (actions: Vec<SessionAction>)
        ensures
            final(self).oper == old(self).oper,
            final(self).phase == next_phase(old(self).phase, ev),
            actions@ == actions_for(old(self).phase, ev, old(self).oper),
    {
        let mut actions: Vec<SessionAction> = Vec::new();
        match ev {
            SessionEvent::Ping { server } => {
                actions.push(SessionAction::SendPong { server });
            },
            SessionEvent::Welcome => {
                if self.phase == SessionPhase::Registering {
                    self.phase = SessionPhase::Authenticating;
                    actions.push(SessionAction::SendIdentify);
                }
            },
            SessionEvent::Notice { content } => {
                if self.phase == SessionPhase::Authenticating {
                    proof {
                        reveal_strlit("Password accepted");
                    }
                    if contains_str(content.as_str(), "Password accepted") {
                        self.phase = SessionPhase::Joining;
                        actions.push(SessionAction::SendJoin);
                    }
                }
            },
            SessionEvent::Response { args } => {
                if self.phase == SessionPhase::Joining {
                    if args_carry_names_end(&args) {
                        self.phase = SessionPhase::Ready;
                        if self.oper {
                            actions.push(SessionAction::SendOper);
                        }
                    }
                }
            },
            SessionEvent::Other => {},
        }
        actions
    }
}

/// The phase after a whole sequence of events, first event first.
pub open spec fn run_phases(phase: SessionPhase, evs: Seq<SessionEvent>) -> SessionPhase
    decreases evs.len(),
{
    if evs.len() == 0 {
        phase
    } else {
        run_phases(next_phase(phase, evs[0]), evs.skip(1))
    }
}

/// The scripted handshake: welcome, then an accepted notice, then the
/// end-of-membership marker, reaches Ready from Registering — and after
/// any proper prefix of the script the machine has not yet reached Ready.
pub proof fn lemma_handshake_in_order(content: String, args: Vec<String>)
    requires
        notice_accepts(content@),
        names_end(args@),
    ensures
        ({
            let evs = seq![
                SessionEvent::Welcome,
                SessionEvent::Notice { content },
                SessionEvent::Response { args },
            ];
            &&& run_phases(SessionPhase::Registering, evs) == SessionPhase::Ready
            &&& forall|k: int|
                0 <= k < 3 ==> run_phases(SessionPhase::Registering, evs.take(k))
                    != SessionPhase::Ready
        }),
{
    let e0 = SessionEvent::Welcome;
    let e1 = SessionEvent::Notice { content };
    let e2 = SessionEvent::Response { args };
    let evs = seq![e0, e1, e2];
    let nil = Seq::<SessionEvent>::empty();
    assert(evs[0] == e0 && evs[1] == e1 && evs[2] == e2);
    assert(next_phase(SessionPhase::Registering, e0) == SessionPhase::Authenticating);
    assert(next_phase(SessionPhase::Authenticating, e1) == SessionPhase::Joining);
    assert(next_phase(SessionPhase::Joining, e2) == SessionPhase::Ready);
    assert(evs.take(0) =~= nil);
    lemma_run_nil(SessionPhase::Registering);
    let t1 = evs.take(1);
    assert(t1.len() == 1 && t1[0] == e0);
    assert(t1.skip(1) =~= nil);
    lemma_run_cons(SessionPhase::Registering, t1);
    lemma_run_nil(SessionPhase::Authenticating);
    assert(run_phases(SessionPhase::Registering, t1) == SessionPhase::Authenticating);
    let t2 = evs.take(2);
    assert(t2.len() == 2 && t2[0] == e0 && t2[1] == e1);
    assert(t2.skip(1).len() == 1 && t2.skip(1)[0] == e1);
    assert(t2.skip(1).skip(1) =~= nil);
    lemma_run_cons(SessionPhase::Registering, t2);
    lemma_run_cons(SessionPhase::Authenticating, t2.skip(1));
    lemma_run_nil(SessionPhase::Joining);
    assert(run_phases(SessionPhase::Registering, t2) == SessionPhase::Joining);
    assert(evs.skip(1).len() == 2 && evs.skip(1)[0] == e1);
    assert(evs.skip(1).skip(1).len() == 1 && evs.skip(1).skip(1)[0] == e2);
    assert(evs.skip(1).skip(1).skip(1) =~= nil);
    lemma_run_cons(SessionPhase::Registering, evs);
    lemma_run_cons(SessionPhase::Authenticating, evs.skip(1));
    lemma_run_cons(SessionPhase::Joining, evs.skip(1).skip(1));
    lemma_run_nil(SessionPhase::Ready);
    assert(run_phases(SessionPhase::Registering, evs) == SessionPhase::Ready);
}

/// A run over no events stays where it is.
pub proof fn lemma_run_nil(phase: SessionPhase)
    ensures
        run_phases(phase, Seq::<SessionEvent>::empty()) == phase,
{
}

/// A run over a non-empty sequence takes one step, then runs the rest.
pub proof fn lemma_run_cons(phase: SessionPhase, evs: Seq<SessionEvent>)
    requires
        evs.len() > 0,
    ensures
        run_phases(phase, evs) == run_phases(next_phase(phase, evs[0]), evs.skip(1)),
{
}

/// A keepalive probe is answered in every phase, and answering one is
/// never a transition: it is a side effect applied to every inbound
/// event stream position regardless of handshake progress.
pub proof fn lemma_keepalive_everywhere(phase: SessionPhase, server: String, oper: bool)
    ensures
        next_phase(phase, SessionEvent::Ping { server }) == phase,
        actions_for(phase, SessionEvent::Ping { server }, oper) == seq![
            SessionAction::SendPong { server },
        ],
{
}

/// The server-issued welcome acknowledgment.
pub open spec fn is_welcome_event(ev: SessionEvent) -> bool {
    ev matches SessionEvent::Welcome
}

/// An event that completes authentication: a notice carrying the
/// recognized accepted phrase.
pub open spec fn is_accept_event(ev: SessionEvent) -> bool {
    ev matches SessionEvent::Notice { content } && notice_accepts(content@)
}

/// An event that completes the join: a response carrying the
/// end-of-membership-list marker.
pub open spec fn is_names_end_event(ev: SessionEvent) -> bool {
    ev matches SessionEvent::Response { args } && names_end(args@)
}

/// From Joining, the handshake completes only through an
/// end-of-membership marker.
pub proof fn lemma_ready_from_joining(evs: Seq<SessionEvent>)
    requires
        run_phases(SessionPhase::Joining, evs) == SessionPhase::Ready,
    ensures
        exists|k: int| 0 <= k < evs.len() && is_names_end_event(#[trigger] evs[k]),
    decreases evs.len(),
{
    assert(evs.len() > 0);
    let e0 = evs[0];
    lemma_run_cons(SessionPhase::Joining, evs);
    if is_names_end_event(e0) {
        assert(0 <= 0 < evs.len() && is_names_end_event(evs[0]));
    } else {
        assert(next_phase(SessionPhase::Joining, e0) == SessionPhase::Joining);
        lemma_ready_from_joining(evs.skip(1));
        let k = choose|k: int| 0 <= k < evs.skip(1).len() && is_names_end_event(
            #[trigger] evs.skip(1)[k],
        );
        assert(evs.skip(1)[k] == evs[k + 1]);
        assert(0 <= k + 1 < evs.len() && is_names_end_event(evs[k + 1]));
    }
}

/// From Authenticating, the handshake completes only through an accepted
/// notice followed, strictly later, by the end-of-membership marker.
pub proof fn lemma_ready_from_authenticating(evs: Seq<SessionEvent>)
    requires
        run_phases(SessionPhase::Authenticating, evs) == SessionPhase::Ready,
    ensures
        exists|j: int, k: int|
            0 <= j < k < evs.len() && is_accept_event(#[trigger] evs[j]) && is_names_end_event(
                #[trigger] evs[k],
            ),
    decreases evs.len(),
{
    assert(evs.len() > 0);
    let e0 = evs[0];
    lemma_run_cons(SessionPhase::Authenticating, evs);
    if is_accept_event(e0) {
        lemma_ready_from_joining(evs.skip(1));
        let k = choose|k: int| 0 <= k < evs.skip(1).len() && is_names_end_event(
            #[trigger] evs.skip(1)[k],
        );
        assert(evs.skip(1)[k] == evs[k + 1]);
        assert(0 <= 0 < k + 1 < evs.len() && is_accept_event(evs[0]) && is_names_end_event(
            evs[k + 1],
        ));
    } else {
        assert(next_phase(SessionPhase::Authenticating, e0) == SessionPhase::Authenticating);
        lemma_ready_from_authenticating(evs.skip(1));
        let (j, k): (int, int) = choose|j: int, k: int|
            0 <= j < k < evs.skip(1).len() && is_accept_event(#[trigger] evs.skip(1)[j])
                && is_names_end_event(#[trigger] evs.skip(1)[k]);
        assert(evs.skip(1)[j] == evs[j + 1]);
        assert(evs.skip(1)[k] == evs[k + 1]);
        assert(0 <= j + 1 < k + 1 < evs.len() && is_accept_event(evs[j + 1])
            && is_names_end_event(evs[k + 1]));
    }
}

/// The converse of the scripted run: a machine in Registering reaches
/// Ready only when the welcome, an accepted notice and the
/// end-of-membership marker all occur, strictly in that order. Missing
/// or out-of-order events never produce Ready.
pub proof fn lemma_ready_only_in_order(evs: Seq<SessionEvent>)
    requires
        run_phases(SessionPhase::Registering, evs) == SessionPhase::Ready,
    ensures
        exists|i: int, j: int, k: int|
            0 <= i < j < k < evs.len() && is_welcome_event(#[trigger] evs[i])
                && is_accept_event(#[trigger] evs[j]) && is_names_end_event(#[trigger] evs[k]),
    decreases evs.len(),
{
    assert(evs.len() > 0);
    let e0 = evs[0];
    lemma_run_cons(SessionPhase::Registering, evs);
    if is_welcome_event(e0) {
        lemma_ready_from_authenticating(evs.skip(1));
        let (j, k): (int, int) = choose|j: int, k: int|
            0 <= j < k < evs.skip(1).len() && is_accept_event(#[trigger] evs.skip(1)[j])
                && is_names_end_event(#[trigger] evs.skip(1)[k]);
        assert(evs.skip(1)[j] == evs[j + 1]);
        assert(evs.skip(1)[k] == evs[k + 1]);
        assert(0 <= 0 < j + 1 < k + 1 < evs.len() && is_welcome_event(evs[0])
            && is_accept_event(evs[j + 1]) && is_names_end_event(evs[k + 1]));
    } else {
        assert(next_phase(SessionPhase::Registering, e0) == SessionPhase::Registering);
        lemma_ready_only_in_order(evs.skip(1));
        let (i, j, k): (int, int, int) = choose|i: int, j: int, k: int|
            0 <= i < j < k < evs.skip(1).len() && is_welcome_event(#[trigger] evs.skip(1)[i])
                && is_accept_event(#[trigger] evs.skip(1)[j])
                && is_names_end_event(#[trigger] evs.skip(1)[k]);
        assert(evs.skip(1)[i] == evs[i + 1]);
        assert(evs.skip(1)[j] == evs[j + 1]);
        assert(evs.skip(1)[k] == evs[k + 1]);
        assert(0 <= i + 1 < j + 1 < k + 1 < evs.len() && is_welcome_event(evs[i + 1])
            && is_accept_event(evs[j + 1]) && is_names_end_event(evs[k + 1]));
    }
}

/// A rank that orders the phases along the handshake.
pub open spec fn phase_rank(p: SessionPhase) -> int {
    match p {
        SessionPhase::Disconnected => 0,
        SessionPhase::Registering => 1,
        SessionPhase::Authenticating => 2,
        SessionPhase::Joining => 3,
        SessionPhase::Ready => 4,
    }
}

/// No single event moves the machine more than one step forward, the
/// machine never moves backward, and each forward step happens only on
/// the one event its phase expects: welcome out of Registering, an
/// accepted notice out of Authenticating, the end-of-membership marker
/// out of Joining. Ready is reached from Joining alone.
pub proof fn lemma_never_early(phase: SessionPhase, ev: SessionEvent)
    ensures
        phase_rank(phase) <= phase_rank(next_phase(phase, ev)) <= phase_rank(phase) + 1,
        next_phase(phase, ev) == SessionPhase::Ready ==> phase == SessionPhase::Ready || (phase
            == SessionPhase::Joining && (ev matches SessionEvent::Response { args }
            && names_end(args@))),
        phase == SessionPhase::Registering && next_phase(phase, ev) != phase ==> ev
            matches SessionEvent::Welcome,
        phase == SessionPhase::Authenticating && next_phase(phase, ev) != phase ==> (ev
            matches SessionEvent::Notice { content } && notice_accepts(content@)),
        phase == SessionPhase::Disconnected ==> next_phase(phase, ev) == phase,
{
}

} // verus!
