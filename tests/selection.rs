use unishare::selector::{SelectStep, Selection};
use unishare::transport::{
    ChannelStyle, RegistrationError, TransportDescriptor, TransportKind, TransportTable,
};

/// Runs a selection, answering each probe from `avail`; returns the
/// transports probed and the final step.
fn run(table: &TransportTable, avail: &[bool]) -> (Vec<TransportKind>, SelectStep) {
    let mut sel = Selection::new();
    let mut probed = Vec::new();
    loop {
        match sel.next_step(table) {
            SelectStep::Probe(kind) => {
                let i = (0..table.len()).find(|&i| table.get(i).kind == kind).unwrap();
                probed.push(kind);
                sel.record(table, avail[i]);
            }
            step => return (probed, step),
        }
    }
}

#[test]
fn lowest_ordinal_available_transport_is_chosen_for_every_combination() {
    let table = TransportTable::standard();
    for mask in 0u32..16 {
        let avail: Vec<bool> = (0..4).map(|i| mask & (1 << i) != 0).collect();
        let (probed, step) = run(&table, &avail);
        match avail.iter().position(|&a| a) {
            Some(first) => {
                assert_eq!(step, SelectStep::Use(table.get(first).kind));
                let expected: Vec<TransportKind> = (0..=first).map(|i| table.get(i).kind).collect();
                assert_eq!(probed, expected);
            }
            None => {
                assert_eq!(step, SelectStep::Exhausted);
                assert_eq!(probed.len(), 4);
            }
        }
    }
}

#[test]
fn no_probe_succeeds_means_no_transport() {
    let table = TransportTable::standard();
    let (probed, step) = run(&table, &[false, false, false, false]);
    assert_eq!(step, SelectStep::Exhausted);
    assert_eq!(
        probed,
        vec![
            TransportKind::DirectLink,
            TransportKind::PeerNegotiated,
            TransportKind::ShortRangeRadio,
            TransportKind::CellularRelay
        ]
    );
}

#[test]
fn empty_table_is_exhausted_at_once() {
    let table = TransportTable::new();
    assert_eq!(run(&table, &[]), (vec![], SelectStep::Exhausted));
}

#[test]
fn usual_fallback_order_picks_the_direct_link() {
    let table = TransportTable::standard();
    let avail = [
        unishare::protocols::wifi_direct::is_available(),
        unishare::protocols::webrtc::is_available(),
        true,
        unishare::protocols::mobiledata::is_available(),
    ];
    let (probed, step) = run(&table, &avail);
    assert_eq!(step, SelectStep::Use(TransportKind::DirectLink));
    assert_eq!(probed, vec![TransportKind::DirectLink]);
}

#[test]
fn registration_orders_by_ordinal() {
    let mut table = TransportTable::new();
    let radio = TransportDescriptor { kind: TransportKind::ShortRangeRadio, priority: 20 };
    let link = TransportDescriptor { kind: TransportKind::DirectLink, priority: 5 };
    let relay = TransportDescriptor { kind: TransportKind::CellularRelay, priority: 30 };
    assert_eq!(table.register(radio), Ok(()));
    assert_eq!(table.register(relay), Ok(()));
    assert_eq!(table.register(link), Ok(()));
    assert_eq!(table.len(), 3);
    assert_eq!(table.get(0), link);
    assert_eq!(table.get(1), radio);
    assert_eq!(table.get(2), relay);
    let (probed, step) = run(&table, &[false, true, true]);
    assert_eq!(probed, vec![TransportKind::DirectLink, TransportKind::ShortRangeRadio]);
    assert_eq!(step, SelectStep::Use(TransportKind::ShortRangeRadio));
}

#[test]
fn registration_rejects_duplicates() {
    let mut table = TransportTable::new();
    let link = TransportDescriptor { kind: TransportKind::DirectLink, priority: 1 };
    assert_eq!(table.register(link), Ok(()));
    assert_eq!(
        table.register(TransportDescriptor { kind: TransportKind::DirectLink, priority: 9 }),
        Err(RegistrationError::DuplicateTransport)
    );
    assert_eq!(
        table.register(TransportDescriptor { kind: TransportKind::CellularRelay, priority: 1 }),
        Err(RegistrationError::DuplicatePriority)
    );
    assert_eq!(table.len(), 1);
}

#[test]
fn channels_and_names() {
    assert_eq!(TransportKind::DirectLink.channel(), ChannelStyle::Stream { port: 9000 });
    assert_eq!(TransportKind::ShortRangeRadio.channel(), ChannelStyle::Stream { port: 9001 });
    assert_eq!(TransportKind::PeerNegotiated.channel(), ChannelStyle::Negotiated);
    assert_eq!(TransportKind::CellularRelay.channel(), ChannelStyle::Relay);
    assert_eq!(TransportKind::DirectLink.name(), "Wi\u{2011}Fi Direct");
    assert_eq!(TransportKind::ShortRangeRadio.file_prefix(), "received_bt_file");
}
