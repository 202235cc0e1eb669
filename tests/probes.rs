use unishare::protocols::{mobiledata, webrtc, wifi_direct};
use unishare::tools::connectivity::check_wifi_direct;

#[test]
fn built_in_probes() {
    assert!(wifi_direct::is_available());
    assert!(!webrtc::is_available());
    assert!(mobiledata::is_available());
    assert_eq!(check_wifi_direct(), Some(false));
}
