use unishare::error::{FailureCause, TransferError};
use unishare::negotiation::{
    FailReason, InFlight, PollAction, ReceiverSession, ReceiverState, SenderSession, SenderState,
    NEGOTIATION_TIMEOUT_MS, POLL_INTERVAL_MS,
};
use unishare::transport::TransportKind;

fn awaiting_sender() -> SenderSession {
    let mut s = SenderSession::new();
    s.offer_created("offer".to_string()).unwrap();
    s.answer_applied("answer".to_string()).unwrap();
    s
}

#[test]
fn offer_answer_exchange_delivers_the_file() {
    let file = b"bytes at the sender's path".to_vec();
    let mut sender = SenderSession::new();
    let offer = r#"{"type":"offer","sdp":"v=0"}"#.to_string();
    assert_eq!(sender.offer_created(offer.clone()), Ok(()));
    assert_eq!(sender.state(), SenderState::OfferCreated);

    let mut receiver = ReceiverSession::new();
    assert_eq!(receiver.offer_applied(offer), Ok(()));
    let answer = r#"{"type":"answer","sdp":"v=0"}"#.to_string();
    assert_eq!(receiver.answer_created(answer.clone()), Ok(()));
    assert_eq!(receiver.state(), ReceiverState::AnswerCreated);

    assert_eq!(sender.answer_applied(answer), Ok(()));
    assert_eq!(sender.state(), SenderState::AwaitingAnswer);
    assert_eq!(sender.poll(false, 0), Ok(PollAction::Wait { ms: POLL_INTERVAL_MS }));
    assert_eq!(sender.poll(true, 500), Ok(PollAction::Proceed));
    assert_eq!(sender.state(), SenderState::Connected);
    assert_eq!(receiver.channel_opened(), Ok(()));

    assert_eq!(sender.begin_send(), Ok(()));
    let delivery = match receiver.message_received(file.clone(), 1_700_000_000) {
        Ok(d) => d,
        Err(e) => panic!("unexpected {:?}", e),
    };
    assert_eq!(delivery.data, file);
    assert_eq!(delivery.file_name, "webrtc_received_1700000000.bin");
    assert_eq!(receiver.persisted(Ok(())), Ok(()));
    assert_eq!(receiver.state(), ReceiverState::Closed);
    assert_eq!(sender.send_finished(Ok(())), Ok(()));
    assert_eq!(sender.state(), SenderState::Closed);
}

#[test]
fn sending_from_idle_is_out_of_sequence() {
    let mut s = SenderSession::new();
    assert_eq!(s.begin_send(), Err(TransferError::InvalidSessionState));
    assert_eq!(s.state(), SenderState::Idle);
}

#[test]
fn unanswered_negotiation_times_out() {
    let mut s = awaiting_sender();
    let mut elapsed = 0;
    loop {
        match s.poll(false, elapsed) {
            Ok(PollAction::Wait { ms }) => elapsed += ms,
            Ok(PollAction::Proceed) => panic!("never connected"),
            Err(e) => {
                assert_eq!(e, TransferError::NegotiationTimeout { transport: TransportKind::PeerNegotiated });
                break;
            }
        }
    }
    assert!(elapsed > NEGOTIATION_TIMEOUT_MS);
    assert_eq!(s.state(), SenderState::Failed(FailReason::NegotiationTimeout));
    assert_eq!(s.poll(true, 0), Err(TransferError::InvalidSessionState));
    assert_eq!(s.begin_send(), Err(TransferError::InvalidSessionState));
}

#[test]
fn timeout_bound_itself_still_waits() {
    let mut s = awaiting_sender();
    assert_eq!(s.poll(false, NEGOTIATION_TIMEOUT_MS), Ok(PollAction::Wait { ms: 500 }));
    assert_eq!(s.poll(false, NEGOTIATION_TIMEOUT_MS + 1), Err(TransferError::NegotiationTimeout { transport: TransportKind::PeerNegotiated }));
}

#[test]
fn second_offer_on_one_session_is_refused() {
    let mut s = SenderSession::new();
    assert_eq!(s.offer_created("one".to_string()), Ok(()));
    assert_eq!(s.offer_created("two".to_string()), Err(TransferError::InvalidSessionState));
    let mut r = ReceiverSession::new();
    assert_eq!(r.offer_applied("one".to_string()), Ok(()));
    assert_eq!(r.offer_applied("two".to_string()), Err(TransferError::InvalidSessionState));
}

#[test]
fn out_of_order_steps_are_refused() {
    let mut s = SenderSession::new();
    assert_eq!(s.answer_applied("a".to_string()), Err(TransferError::InvalidSessionState));
    assert_eq!(s.poll(true, 0), Err(TransferError::InvalidSessionState));
    assert_eq!(s.send_finished(Ok(())), Err(TransferError::InvalidSessionState));
    let mut r = ReceiverSession::new();
    assert_eq!(r.answer_created("a".to_string()), Err(TransferError::InvalidSessionState));
    assert_eq!(r.channel_opened(), Err(TransferError::InvalidSessionState));
    assert!(matches!(r.message_received(vec![1], 0), Err(TransferError::InvalidSessionState)));
    assert_eq!(r.persisted(Ok(())), Err(TransferError::InvalidSessionState));
}

#[test]
fn malformed_answer_fails_the_session() {
    let mut s = SenderSession::new();
    s.offer_created("offer".to_string()).unwrap();
    assert_eq!(
        s.fail(FailReason::MalformedDescription, "bad json".to_string()),
        TransferError::MalformedDescription {
            transport: TransportKind::PeerNegotiated,
            detail: "bad json".to_string()
        }
    );
    assert_eq!(s.state(), SenderState::Failed(FailReason::MalformedDescription));
    assert_eq!(s.fail(FailReason::ChannelSetup, "x".to_string()), TransferError::InvalidSessionState);
}

#[test]
fn channel_failure_names_the_peer_transport() {
    let mut r = ReceiverSession::new();
    assert_eq!(
        r.fail(FailReason::ChannelSetup, "no route".to_string()),
        TransferError::TransferFailed {
            transport: TransportKind::PeerNegotiated,
            cause: FailureCause::Io("no route".to_string())
        }
    );
    assert_eq!(r.state(), ReceiverState::Failed(FailReason::ChannelSetup));
}

#[test]
fn failed_send_ends_the_session() {
    let mut s = awaiting_sender();
    s.poll(true, 10).unwrap();
    s.begin_send().unwrap();
    assert_eq!(
        s.send_finished(Err("channel closed".to_string())),
        Err(TransferError::TransferFailed {
            transport: TransportKind::PeerNegotiated,
            cause: FailureCause::Io("channel closed".to_string())
        })
    );
    assert_eq!(s.state(), SenderState::Failed(FailReason::TransferFailed));
}

#[test]
fn one_negotiation_per_transport_at_a_time() {
    let mut active = InFlight::new();
    assert!(!active.is_active(TransportKind::PeerNegotiated));
    assert_eq!(active.begin(TransportKind::PeerNegotiated), Ok(()));
    assert!(active.is_active(TransportKind::PeerNegotiated));
    assert_eq!(active.begin(TransportKind::PeerNegotiated), Err(TransferError::InvalidSessionState));
    assert_eq!(active.begin(TransportKind::DirectLink), Ok(()));
    active.end(TransportKind::PeerNegotiated);
    assert!(!active.is_active(TransportKind::PeerNegotiated));
    assert!(active.is_active(TransportKind::DirectLink));
    assert_eq!(active.begin(TransportKind::PeerNegotiated), Ok(()));
    active.end(TransportKind::CellularRelay);
    assert!(active.is_active(TransportKind::PeerNegotiated));
}
