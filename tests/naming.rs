use unishare::coordinator::{
    conclude_receive, conclude_send, listening_message, received_payload, sent_message,
};
use unishare::error::{FailureCause, FrameError, TransferError};
use unishare::naming::{received_file_name, signed_decimal_string};
use unishare::transport::TransportKind;

#[test]
fn decimal_strings() {
    assert_eq!(signed_decimal_string(0), "0");
    assert_eq!(signed_decimal_string(7), "7");
    assert_eq!(signed_decimal_string(1_700_000_000), "1700000000");
    assert_eq!(signed_decimal_string(-42), "-42");
    assert_eq!(signed_decimal_string(i64::MIN), "-9223372036854775808");
    assert_eq!(signed_decimal_string(i64::MAX), "9223372036854775807");
}

#[test]
fn received_file_names() {
    assert_eq!(received_file_name(TransportKind::DirectLink, 1_700_000_000), "received_file_1700000000.bin");
    assert_eq!(received_file_name(TransportKind::ShortRangeRadio, 5), "received_bt_file_5.bin");
    assert_eq!(received_file_name(TransportKind::PeerNegotiated, 12), "webrtc_received_12.bin");
}

#[test]
fn status_messages() {
    assert_eq!(sent_message(TransportKind::DirectLink), "File sent via Wi\u{2011}Fi Direct");
    assert_eq!(listening_message(TransportKind::CellularRelay), "Receiver started using Mobile Data");
    assert_eq!(listening_message(TransportKind::DirectLink), "Receiver started using Wi\u{2011}Fi Direct");
    assert_eq!(conclude_send(TransportKind::PeerNegotiated, Ok(())), Ok("File sent via WebRTC".to_string()));
    assert_eq!(
        conclude_receive(TransportKind::ShortRangeRadio, Ok(())),
        Ok("Receiver started using Bluetooth".to_string())
    );
}

#[test]
fn failure_on_the_chosen_transport_is_surfaced() {
    let cause = || FailureCause::Io("connection refused".to_string());
    assert_eq!(
        conclude_send(TransportKind::DirectLink, Err(cause())),
        Err(TransferError::TransferFailed { transport: TransportKind::DirectLink, cause: cause() })
    );
}

#[test]
fn incomplete_frame_is_a_failed_transfer() {
    let e = FrameError::ShortPayload { expected: 10, received: 4 };
    assert_eq!(
        received_payload(TransportKind::ShortRangeRadio, Err(e)),
        Err(TransferError::TransferFailed {
            transport: TransportKind::ShortRangeRadio,
            cause: FailureCause::Frame(e)
        })
    );
    assert_eq!(received_payload(TransportKind::DirectLink, Ok(vec![1, 2])), Ok(vec![1, 2]));
}
