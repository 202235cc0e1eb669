//! Offer/answer negotiation for the peer transport. Each side holds its own
//! session, one per transfer; the peer connection itself stays with the
//! caller, who reports each event and is told whether it was in sequence.
use vstd::prelude::*;
use crate::error::{FailureCause, TransferError};
use crate::naming::{received_file_name, received_name};
use crate::transport::TransportKind;

verus! {

/// How long a sender waits for the connection after applying the answer.
pub const NEGOTIATION_TIMEOUT_MS: u64 = 15000;

/// How often a waiting sender looks at the connection state.
pub const POLL_INTERVAL_MS: u64 = 500;

/// Why a session ended without delivering the file.
#[derive(Clone, Copy, Debug, PartialEq, Eq, Structural)]
pub enum FailReason {
    /// The connection was not established within the bound.
    NegotiationTimeout,
    /// The peer's offer or answer could not be read.
    MalformedDescription,
    /// The peer connection or its data channel could not be set up.
    ChannelSetup,
    /// Sending or storing the file failed.
    TransferFailed,
}

/// Where a sending session stands.
#[derive(Clone, Copy, Debug, PartialEq, Eq, Structural)]
pub enum SenderState {
    Idle,
    OfferCreated,
    AwaitingAnswer,
    Connected,
    Transferring,
    Closed,
    Failed(FailReason),
}

/// Where a receiving session stands.
#[derive(Clone, Copy, Debug, PartialEq, Eq, Structural)]
pub enum ReceiverState {
    Idle,
    OfferApplied,
    AnswerCreated,
    Connected,
    Transferring,
    Closed,
    Failed(FailReason),
}

/// What a waiting sender does after looking at the connection.
#[derive(Clone, Copy, Debug, PartialEq, Eq, Structural)]
pub enum PollAction {
    /// Not connected yet: look again after this many milliseconds.
    Wait { ms: u64 },
    /// Connected: the file can be sent.
    Proceed,
}

/// A session as the contracts see it: its state and the session
/// descriptions it holds.
pub struct SessionView<S> {
    pub state: S,
    pub local: Option<Seq<char>>,
    pub remote: Option<Seq<char>>,
}

/// The session holds no description any more.
pub open spec fn released<S>(v: SessionView<S>) -> bool {
    v.local is None && v.remote is None
}

/// A session in `state` that holds no description.
pub open spec fn empty_view<S>(state: S) -> SessionView<S> {
    SessionView { state, local: None, remote: None }
}

pub open spec fn with_state<S>(v: SessionView<S>, state: S) -> SessionView<S> {
    SessionView { state, ..v }
}

/// A failed transfer over the peer transport, with `detail` as its cause.
pub open spec fn is_peer_failure(e: TransferError, detail: Seq<char>) -> bool {
    match e {
        TransferError::TransferFailed { transport, cause: FailureCause::Io(m) } => {
            transport == TransportKind::PeerNegotiated && m@ == detail
        },
        _ => false,
    }
}

/// The error a caller sees when a session fails for `reason`.
pub open spec fn is_reason_error(e: TransferError, reason: FailReason, detail: Seq<char>) -> bool {
    match reason {
        FailReason::NegotiationTimeout => e == (TransferError::NegotiationTimeout {
            transport: TransportKind::PeerNegotiated,
        }),
        FailReason::MalformedDescription => match e {
            TransferError::MalformedDescription { transport, detail: d } => {
                transport == TransportKind::PeerNegotiated && d@ == detail
            },
            _ => false,
        },
        _ => is_peer_failure(e, detail),
    }
}

fn reason_to_error(reason: FailReason, detail: String) -> (r: TransferError)
    ensures
        is_reason_error(r, reason, detail@),
{
    match reason {
        FailReason::NegotiationTimeout => TransferError::NegotiationTimeout {
            transport: TransportKind::PeerNegotiated,
        },
        FailReason::MalformedDescription => TransferError::MalformedDescription {
            transport: TransportKind::PeerNegotiated,
            detail,
        },
        _ => TransferError::TransferFailed {
            transport: TransportKind::PeerNegotiated,
            cause: FailureCause::Io(detail),
        },
    }
}

pub open spec fn sender_active(s: SenderState) -> bool {
    !(s is Closed) && !(s is Failed)
}

/// The sender after one look at the connection.
pub open spec fn sender_polled(v: SessionView<SenderState>, connected: bool, elapsed_ms: u64) -> SessionView<
    SenderState,
> {
    if !(v.state is AwaitingAnswer) {
        v
    } else if connected {
        with_state(v, SenderState::Connected)
    } else if elapsed_ms > NEGOTIATION_TIMEOUT_MS {
        empty_view(SenderState::Failed(FailReason::NegotiationTimeout))
    } else {
        v
    }
}

/// The sender after a run of looks, each a pair of "connected" and the
/// milliseconds elapsed since the answer was applied.
pub open spec fn sender_after_polls(
    v: SessionView<SenderState>,
    looks: Seq<(bool, u64)>,
) -> SessionView<SenderState>
    decreases looks.len(),
{
    if looks.len() == 0 {
        v
    } else {
        sender_after_polls(sender_polled(v, looks[0].0, looks[0].1), looks.drop_first())
    }
}

proof fn lemma_polls_leave_other_states(v: SessionView<SenderState>, looks: Seq<(bool, u64)>)
    requires
        !(v.state is AwaitingAnswer),
    ensures
        sender_after_polls(v, looks) == v,
    decreases looks.len(),
{
    if looks.len() > 0 {
        lemma_polls_leave_other_states(v, looks.drop_first());
    }
}

/// A sender awaiting the connection that never sees it connected, while
/// the time since the answer passes the bound, ends failed with a
/// negotiation timeout and holds no description any more.
pub proof fn lemma_unanswered_negotiation_times_out(
    v: SessionView<SenderState>,
    looks: Seq<(bool, u64)>,
)
    requires
        v.state is AwaitingAnswer,
        forall|i: int| 0 <= i < looks.len() ==> !(#[trigger] looks[i]).0,
        exists|i: int| 0 <= i < looks.len() && (#[trigger] looks[i]).1 > NEGOTIATION_TIMEOUT_MS,
    ensures
        sender_after_polls(v, looks).state == SenderState::Failed(FailReason::NegotiationTimeout),
        released(sender_after_polls(v, looks)),
    decreases looks.len(),
{
    let first = looks[0];
    assert(!first.0);
    let next = sender_polled(v, first.0, first.1);
    if first.1 > NEGOTIATION_TIMEOUT_MS {
        lemma_polls_leave_other_states(next, looks.drop_first());
    } else {
        let k = choose|i: int| 0 <= i < looks.len() && (#[trigger] looks[i]).1 > NEGOTIATION_TIMEOUT_MS;
        assert(looks.drop_first()[k - 1] == looks[k]);
        assert forall|i: int| 0 <= i < looks.drop_first().len() implies !(
        #[trigger] looks.drop_first()[i]).0 by {
            assert(looks.drop_first()[i] == looks[i + 1]);
        }
        lemma_unanswered_negotiation_times_out(next, looks.drop_first());
    }
}

/// The sending side of one negotiated transfer.
pub struct SenderSession {
    state: SenderState,
    local_description: Option<String>,
    remote_description: Option<String>,
}

pub open spec fn opt_view(o: Option<String>) -> Option<Seq<char>> {
    match o {
        Some(s) => Some(s@),
        None => None,
    }
}

impl View for SenderSession {
    type V = SessionView<SenderState>;

    closed spec fn view(&self) -> SessionView<SenderState> {
        SessionView {
            state: self.state,
            local: opt_view(self.local_description),
            remote: opt_view(self.remote_description),
        }
    }
}

impl SenderSession {
    /// A session before any offer.
    pub fn new() -> (r: SenderSession)
        ensures
            r@ == empty_view(SenderState::Idle),
    {
        SenderSession { state: SenderState::Idle, local_description: None, remote_description: None }
    }

    /// Where the session stands.
    pub fn state(&self) -> (r: SenderState)
        ensures
            r == self@.state,
    {
        self.state
    }

    /// The offer that was created and set as the local description.
    pub fn offer_created(&mut self, offer: String) -> (r: Result<(), TransferError>)
        ensures
            old(self)@.state is Idle ==> r is Ok && final(self)@ == (SessionView {
                state: SenderState::OfferCreated,
                local: Some(offer@),
                remote: None::<Seq<char>>,
            }),
            !(old(self)@.state is Idle) ==> r == Err::<(), TransferError>(
                TransferError::InvalidSessionState,
            ) && final(self)@ == old(self)@,
    {
        if self.state != SenderState::Idle {
            return Err(TransferError::InvalidSessionState);
        }
        self.state = SenderState::OfferCreated;
        self.local_description = Some(offer);
        self.remote_description = None;
        Ok(())
    }

    /// The peer's answer, read and applied as the remote description.
    pub fn answer_applied(&mut self, answer: String) -> (r: Result<(), TransferError>)
        ensures
            old(self)@.state is OfferCreated ==> r is Ok && final(self)@ == (SessionView {
                state: SenderState::AwaitingAnswer,
                remote: Some(answer@),
                ..old(self)@
            }),
            !(old(self)@.state is OfferCreated) ==> r == Err::<(), TransferError>(
                TransferError::InvalidSessionState,
            ) && final(self)@ == old(self)@,
    {
        if self.state != SenderState::OfferCreated {
            return Err(TransferError::InvalidSessionState);
        }
        self.state = SenderState::AwaitingAnswer;
        self.remote_description = Some(answer);
        Ok(())
    }

    /// One look at the connection, `elapsed_ms` after the answer was applied.
    pub fn poll(&mut self, connected: bool, elapsed_ms: u64) -> (r: Result<PollAction, TransferError>)
        ensures
            final(self)@ == sender_polled(old(self)@, connected, elapsed_ms),
            !(old(self)@.state is AwaitingAnswer) ==> r == Err::<PollAction, TransferError>(
                TransferError::InvalidSessionState,
            ),
            old(self)@.state is AwaitingAnswer && connected ==> r == Ok::<PollAction, TransferError>(
                PollAction::Proceed,
            ),
            old(self)@.state is AwaitingAnswer && !connected && elapsed_ms > NEGOTIATION_TIMEOUT_MS
                ==> r == Err::<PollAction, TransferError>(
                (TransferError::NegotiationTimeout { transport: TransportKind::PeerNegotiated }),
            ),
            old(self)@.state is AwaitingAnswer && !connected && elapsed_ms <= NEGOTIATION_TIMEOUT_MS
                ==> r == Ok::<PollAction, TransferError>(PollAction::Wait { ms: POLL_INTERVAL_MS }),
    {
        if self.state != SenderState::AwaitingAnswer {
            return Err(TransferError::InvalidSessionState);
        }
        if connected {
            self.state = SenderState::Connected;
            Ok(PollAction::Proceed)
        } else if elapsed_ms > NEGOTIATION_TIMEOUT_MS {
            self.release(SenderState::Failed(FailReason::NegotiationTimeout));
            Err(TransferError::NegotiationTimeout { transport: TransportKind::PeerNegotiated })
        } else {
            Ok(PollAction::Wait { ms: POLL_INTERVAL_MS })
        }
    }

    fn release(&mut self, state: SenderState)
        ensures
            final(self)@ == empty_view(state),
    {
        self.state = state;
        self.local_description = None;
        self.remote_description = None;
    }

    /// Asks to send the file; only a connected session may.
    pub fn begin_send(&mut self) -> (r: Result<(), TransferError>)
        ensures
            old(self)@.state is Connected ==> r is Ok && final(self)@ == with_state(
                old(self)@,
                SenderState::Transferring,
            ),
            !(old(self)@.state is Connected) ==> r == Err::<(), TransferError>(
                TransferError::InvalidSessionState,
            ) && final(self)@ == old(self)@,
    {
        if self.state != SenderState::Connected {
            return Err(TransferError::InvalidSessionState);
        }
        self.state = SenderState::Transferring;
        Ok(())
    }

    /// How writing the file to the channel went. Either way the session
    /// ends and gives up its descriptions.
    pub fn send_finished(&mut self, outcome: Result<(), String>) -> (r: Result<(), TransferError>)
        ensures
            !(old(self)@.state is Transferring) ==> r == Err::<(), TransferError>(
                TransferError::InvalidSessionState,
            ) && final(self)@ == old(self)@,
            old(self)@.state is Transferring && outcome is Ok ==> r is Ok && final(self)@
                == empty_view(SenderState::Closed),
            old(self)@.state is Transferring && outcome is Err ==> final(self)@ == empty_view(
                SenderState::Failed(FailReason::TransferFailed),
            ) && r is Err && is_peer_failure(r->Err_0, outcome->Err_0@),
    {
        if self.state != SenderState::Transferring {
            return Err(TransferError::InvalidSessionState);
        }
        match outcome {
            Ok(()) => {
                self.release(SenderState::Closed);
                Ok(())
            },
            Err(m) => {
                self.release(SenderState::Failed(FailReason::TransferFailed));
                Err(
                    TransferError::TransferFailed {
                        transport: TransportKind::PeerNegotiated,
                        cause: FailureCause::Io(m),
                    },
                )
            },
        }
    }

    /// A failure the caller met on the way (an answer it could not read, a
    /// channel it could not set up). An active session ends with `reason`
    /// and gives up its descriptions; an ended one is left alone.
    pub fn fail(&mut self, reason: FailReason, detail: String) -> (r: TransferError)
        ensures
            sender_active(old(self)@.state) ==> final(self)@ == empty_view(
                SenderState::Failed(reason),
            ),
            sender_active(old(self)@.state) ==> is_reason_error(r, reason, detail@),
            !sender_active(old(self)@.state) ==> r == TransferError::InvalidSessionState
                && final(self)@ == old(self)@,
    {
        match self.state {
            SenderState::Closed | SenderState::Failed(_) => TransferError::InvalidSessionState,
            _ => {
                self.release(SenderState::Failed(reason));
                reason_to_error(reason, detail)
            },
        }
    }
}

pub open spec fn receiver_active(s: ReceiverState) -> bool {
    !(s is Closed) && !(s is Failed)
}

/// A received message and the name to store it under.
pub struct Delivery {
    pub file_name: String,
    pub data: Vec<u8>,
}

/// The receiving side of one negotiated transfer.
pub struct ReceiverSession {
    state: ReceiverState,
    local_description: Option<String>,
    remote_description: Option<String>,
}

impl View for ReceiverSession {
    type V = SessionView<ReceiverState>;

    closed spec fn view(&self) -> SessionView<ReceiverState> {
        SessionView {
            state: self.state,
            local: opt_view(self.local_description),
            remote: opt_view(self.remote_description),
        }
    }
}

impl ReceiverSession {
    /// A session before any offer.
    pub fn new() -> (r: ReceiverSession)
        ensures
            r@ == empty_view(ReceiverState::Idle),
    {
        ReceiverSession {
            state: ReceiverState::Idle,
            local_description: None,
            remote_description: None,
        }
    }

    /// Where the session stands.
    pub fn state(&self) -> (r: ReceiverState)
        ensures
            r == self@.state,
    {
        self.state
    }

    fn release(&mut self, state: ReceiverState)
        ensures
            final(self)@ == empty_view(state),
    {
        self.state = state;
        self.local_description = None;
        self.remote_description = None;
    }

    /// The sender's offer, read and applied as the remote description.
    pub fn offer_applied(&mut self, offer: String) -> (r: Result<(), TransferError>)
        ensures
            old(self)@.state is Idle ==> r is Ok && final(self)@ == (SessionView {
                state: ReceiverState::OfferApplied,
                local: None::<Seq<char>>,
                remote: Some(offer@),
            }),
            !(old(self)@.state is Idle) ==> r == Err::<(), TransferError>(
                TransferError::InvalidSessionState,
            ) && final(self)@ == old(self)@,
    {
        if self.state != ReceiverState::Idle {
            return Err(TransferError::InvalidSessionState);
        }
        self.state = ReceiverState::OfferApplied;
        self.local_description = None;
        self.remote_description = Some(offer);
        Ok(())
    }

    /// The answer that was created and set as the local description.
    pub fn answer_created(&mut self, answer: String) -> (r: Result<(), TransferError>)
        ensures
            old(self)@.state is OfferApplied ==> r is Ok && final(self)@ == (SessionView {
                state: ReceiverState::AnswerCreated,
                local: Some(answer@),
                ..old(self)@
            }),
            !(old(self)@.state is OfferApplied) ==> r == Err::<(), TransferError>(
                TransferError::InvalidSessionState,
            ) && final(self)@ == old(self)@,
    {
        if self.state != ReceiverState::OfferApplied {
            return Err(TransferError::InvalidSessionState);
        }
        self.state = ReceiverState::AnswerCreated;
        self.local_description = Some(answer);
        Ok(())
    }

    /// The sender opened the data channel.
    pub fn channel_opened(&mut self) -> (r: Result<(), TransferError>)
        ensures
            old(self)@.state is AnswerCreated ==> r is Ok && final(self)@ == with_state(
                old(self)@,
                ReceiverState::Connected,
            ),
            !(old(self)@.state is AnswerCreated) ==> r == Err::<(), TransferError>(
                TransferError::InvalidSessionState,
            ) && final(self)@ == old(self)@,
    {
        if self.state != ReceiverState::AnswerCreated {
            return Err(TransferError::InvalidSessionState);
        }
        self.state = ReceiverState::Connected;
        Ok(())
    }

    /// A complete message arrived on the channel at `timestamp` (seconds
    /// since the Unix epoch): it is to be stored, whole, under the name that
    /// time gives.
    pub fn message_received(&mut self, data: Vec<u8>, timestamp: i64) -> (r: Result<
        Delivery,
        TransferError,
    >)
        ensures
            old(self)@.state is Connected ==> r is Ok && final(self)@ == with_state(
                old(self)@,
                ReceiverState::Transferring,
            ),
            old(self)@.state is Connected ==> r->Ok_0.data@ == data@,
            old(self)@.state is Connected ==> r->Ok_0.file_name@ == received_name(
                TransportKind::PeerNegotiated,
                timestamp as int,
            ),
            !(old(self)@.state is Connected) ==> r is Err && r->Err_0
                == TransferError::InvalidSessionState && final(self)@ == old(self)@,
    {
        if self.state != ReceiverState::Connected {
            return Err(TransferError::InvalidSessionState);
        }
        self.state = ReceiverState::Transferring;
        let file_name = received_file_name(TransportKind::PeerNegotiated, timestamp);
        Ok(Delivery { file_name, data })
    }

    /// How storing the message went. Either way the session ends and gives
    /// up its descriptions.
    pub fn persisted(&mut self, outcome: Result<(), String>) -> (r: Result<(), TransferError>)
        ensures
            !(old(self)@.state is Transferring) ==> r == Err::<(), TransferError>(
                TransferError::InvalidSessionState,
            ) && final(self)@ == old(self)@,
            old(self)@.state is Transferring && outcome is Ok ==> r is Ok && final(self)@
                == empty_view(ReceiverState::Closed),
            old(self)@.state is Transferring && outcome is Err ==> final(self)@ == empty_view(
                ReceiverState::Failed(FailReason::TransferFailed),
            ) && r is Err && is_peer_failure(r->Err_0, outcome->Err_0@),
    {
        if self.state != ReceiverState::Transferring {
            return Err(TransferError::InvalidSessionState);
        }
        match outcome {
            Ok(()) => {
                self.release(ReceiverState::Closed);
                Ok(())
            },
            Err(m) => {
                self.release(ReceiverState::Failed(FailReason::TransferFailed));
                Err(
                    TransferError::TransferFailed {
                        transport: TransportKind::PeerNegotiated,
                        cause: FailureCause::Io(m),
                    },
                )
            },
        }
    }

    /// A failure the caller met on the way (an offer it could not read, a
    /// channel it could not set up). An active session ends with `reason`
    /// and gives up its descriptions; an ended one is left alone.
    pub fn fail(&mut self, reason: FailReason, detail: String) -> (r: TransferError)
        ensures
            receiver_active(old(self)@.state) ==> final(self)@ == empty_view(
                ReceiverState::Failed(reason),
            ),
            receiver_active(old(self)@.state) ==> is_reason_error(r, reason, detail@),
            !receiver_active(old(self)@.state) ==> r == TransferError::InvalidSessionState
                && final(self)@ == old(self)@,
    {
        match self.state {
            ReceiverState::Closed | ReceiverState::Failed(_) => TransferError::InvalidSessionState,
            _ => {
                self.release(ReceiverState::Failed(reason));
                reason_to_error(reason, detail)
            },
        }
    }
}

/// The transports with a negotiation in flight. A second negotiation on a
/// transport is refused until the first has ended.
pub struct InFlight {
    kinds: Vec<TransportKind>,
}

impl View for InFlight {
    type V = Set<TransportKind>;

    closed spec fn view(&self) -> Set<TransportKind> {
        self.kinds@.to_set()
    }
}

impl InFlight {
    pub closed spec fn wf(&self) -> bool {
        self.kinds@.no_duplicates()
    }

    /// No negotiation in flight.
    pub fn new() -> (r: InFlight)
        ensures
            r.wf(),
            r@ == Set::<TransportKind>::empty(),
    {
        let r = InFlight { kinds: Vec::new() };
        assert(r.kinds@.to_set() =~= Set::<TransportKind>::empty());
        r
    }

    /// Whether a negotiation on `kind` is in flight.
    pub fn is_active(&self, kind: TransportKind) -> (r: bool)
        ensures
            r == self@.contains(kind),
    {
        let mut i: usize = 0;
        while i < self.kinds.len()
            invariant
                i <= self.kinds@.len(),
                forall|j: int| 0 <= j < i ==> self.kinds@[j] != kind,
            decreases self.kinds@.len() - i,
        {
            if self.kinds[i] == kind {
                assert(self.kinds@.to_set().contains(self.kinds@[i as int]));
                return true;
            }
            i = i + 1;
        }
        false
    }

    /// Starts a negotiation on `kind`, unless one is in flight there.
    pub fn begin(&mut self, kind: TransportKind) -> (r: Result<(), TransferError>)
        requires
            old(self).wf(),
        ensures
            final(self).wf(),
            old(self)@.contains(kind) ==> r == Err::<(), TransferError>(
                TransferError::InvalidSessionState,
            ) && final(self)@ == old(self)@,
            !old(self)@.contains(kind) ==> r is Ok && final(self)@ == old(self)@.insert(kind),
    {
        if self.is_active(kind) {
            return Err(TransferError::InvalidSessionState);
        }
        let ghost before = self.kinds@;
        self.kinds.push(kind);
        proof {
            before.lemma_push_to_set_commute(kind);
            assert(!before.contains(kind));
        }
        Ok(())
    }
    /// Ends the negotiation on `kind`, if one is in flight.
    pub fn end(&mut self, kind: TransportKind)
        requires
            old(self).wf(),
        ensures
            final(self).wf(),
            final(self)@ == old(self)@.remove(kind),
    {
        let n = self.kinds.len();
        let mut i: usize = 0;
        while i < n
            invariant
                n == self.kinds@.len(),
                i <= n,
                self.kinds@ == old(self).kinds@,
                old(self).wf(),
                forall|j: int| 0 <= j < i ==> self.kinds@[j] != kind,
            decreases n - i,
        {
            if self.kinds[i] == kind {
                let ghost before = self.kinds@;
                self.kinds.remove(i);
                proof {
                    let after = self.kinds@;
                    assert(after == before.remove(i as int));
                    assert forall|a: int, b: int| 0 <= a < b < after.len() implies after[a]
                        != after[b] by {
                        let a2 = if a < i { a } else { a + 1 };
                        let b2 = if b < i { b } else { b + 1 };
                        assert(after[a] == before[a2] && after[b] == before[b2]);
                        assert(a2 < b2);
                    }
                    assert forall|k: TransportKind| #[trigger] after.to_set().contains(k)
                        == before.to_set().remove(kind).contains(k) by {
                        if after.to_set().contains(k) {
                            let j = choose|j: int| 0 <= j < after.len() && after[j] == k;
                            let j2 = if j < i { j } else { j + 1 };
                            assert(before[j2] == k);
                            assert(j2 != i);
                        }
                        if before.to_set().remove(kind).contains(k) {
                            let j = choose|j: int| 0 <= j < before.len() && before[j] == k;
                            assert(j != i);
                            let j2 = if j < i { j } else { j - 1 };
                            assert(after[j2] == k);
                        }
                    }
                    assert(after.to_set() =~= before.to_set().remove(kind));
                }
                return;
            }
            i = i + 1;
        }
        proof {
            assert(!self.kinds@.to_set().contains(kind));
            assert(self.kinds@.to_set().remove(kind) =~= self.kinds@.to_set());
        }
    }
}

} // verus!
