use vstd::prelude::*;

verus! {

/// Port of the stream carried by the direct local link.
pub const DIRECT_LINK_PORT: u16 = 9000;

/// Port of the stream carried by the short-range radio link.
pub const RADIO_LINK_PORT: u16 = 9001;

/// The transports a file can travel over.
#[derive(Clone, Copy, Debug, PartialEq, Eq, Structural)]
pub enum TransportKind {
    /// A direct local link (Wi-Fi Direct).
    DirectLink,
    /// A peer channel set up by an offer/answer exchange (WebRTC).
    PeerNegotiated,
    /// A short-range radio link (Bluetooth).
    ShortRangeRadio,
    /// A relay over the cellular network (mobile data).
    CellularRelay,
}

/// How the bytes of a transfer travel once a transport has been chosen.
#[derive(Clone, Copy, Debug, PartialEq, Eq, Structural)]
pub enum ChannelStyle {
    /// A reliable byte stream to a fixed port, carrying one length-prefixed frame.
    Stream { port: u16 },
    /// A data channel opened by an offer/answer negotiation.
    Negotiated,
    /// A hand-off to the relay service.
    Relay,
}

impl TransportKind {
    pub open spec fn spec_channel(self) -> ChannelStyle {
        match self {
            TransportKind::DirectLink => ChannelStyle::Stream { port: DIRECT_LINK_PORT },
            TransportKind::PeerNegotiated => ChannelStyle::Negotiated,
            TransportKind::ShortRangeRadio => ChannelStyle::Stream { port: RADIO_LINK_PORT },
            TransportKind::CellularRelay => ChannelStyle::Relay,
        }
    }

    /// How this transport carries a payload.
    pub fn channel(self) -> (r: ChannelStyle)
        ensures
            r == self.spec_channel(),
    {
        match self {
            TransportKind::DirectLink => ChannelStyle::Stream { port: DIRECT_LINK_PORT },
            TransportKind::PeerNegotiated => ChannelStyle::Negotiated,
            TransportKind::ShortRangeRadio => ChannelStyle::Stream { port: RADIO_LINK_PORT },
            TransportKind::CellularRelay => ChannelStyle::Relay,
        }
    }

    pub open spec fn spec_name(self) -> Seq<char> {
        match self {
            TransportKind::DirectLink => "Wi\u{2011}Fi Direct"@,
            TransportKind::PeerNegotiated => "WebRTC"@,
            TransportKind::ShortRangeRadio => "Bluetooth"@,
            TransportKind::CellularRelay => "Mobile Data"@,
        }
    }

    /// The name shown to people.
    pub fn name(self) -> (r: &'static str)
        ensures
            r@ == self.spec_name(),
    {
        match self {
            TransportKind::DirectLink => "Wi\u{2011}Fi Direct",
            TransportKind::PeerNegotiated => "WebRTC",
            TransportKind::ShortRangeRadio => "Bluetooth",
            TransportKind::CellularRelay => "Mobile Data",
        }
    }

    pub open spec fn spec_file_prefix(self) -> Seq<char> {
        match self {
            TransportKind::DirectLink => "received_file"@,
            TransportKind::PeerNegotiated => "webrtc_received"@,
            TransportKind::ShortRangeRadio => "received_bt_file"@,
            TransportKind::CellularRelay => "received_relay_file"@,
        }
    }

    /// The start of the name under which a payload received over this
    /// transport is stored.
    pub fn file_prefix(self) -> (r: &'static str)
        ensures
            r@ == self.spec_file_prefix(),
    {
        match self {
            TransportKind::DirectLink => "received_file",
            TransportKind::PeerNegotiated => "webrtc_received",
            TransportKind::ShortRangeRadio => "received_bt_file",
            TransportKind::CellularRelay => "received_relay_file",
        }
    }
}

/// A registered transport: its identity and its place in the fallback order
/// (a lower ordinal is tried first).
#[derive(Clone, Copy, Debug, PartialEq, Eq, Structural)]
pub struct TransportDescriptor {
    pub kind: TransportKind,
    pub priority: u32,
}

/// Why a transport could not be registered.
#[derive(Clone, Copy, Debug, PartialEq, Eq, Structural)]
pub enum RegistrationError {
    /// The transport is registered already.
    DuplicateTransport,
    /// Another transport holds the same ordinal.
    DuplicatePriority,
}

/// The registered transports, kept in ascending order of priority.
pub struct TransportTable {
    entries: Vec<TransportDescriptor>,
}

/// Ordinals strictly ascending and each transport at most once.
pub open spec fn table_ordered(s: Seq<TransportDescriptor>) -> bool {
    &&& forall|i: int, j: int|
        0 <= i < j < s.len() ==> #[trigger] s[i].priority < #[trigger] s[j].priority
    &&& forall|i: int, j: int|
        0 <= i < j < s.len() ==> #[trigger] s[i].kind != #[trigger] s[j].kind
}

impl View for TransportTable {
    type V = Seq<TransportDescriptor>;

    closed spec fn view(&self) -> Seq<TransportDescriptor> {
        self.entries@
    }
}

impl TransportTable {
    pub open spec fn wf(&self) -> bool {
        table_ordered(self@)
    }

    /// A table with no transport.
    pub fn new() -> (r: TransportTable)
        ensures
            r.wf(),
            r@ == Seq::<TransportDescriptor>::empty(),
    {
        TransportTable { entries: Vec::new() }
    }

    /// The four transports in their usual order: direct link, negotiated
    /// peer channel, short-range radio, cellular relay.
    pub fn standard() -> (r: TransportTable)
        ensures
            r.wf(),
            r@ == seq![
                TransportDescriptor { kind: TransportKind::DirectLink, priority: 1 },
                TransportDescriptor { kind: TransportKind::PeerNegotiated, priority: 2 },
                TransportDescriptor { kind: TransportKind::ShortRangeRadio, priority: 3 },
                TransportDescriptor { kind: TransportKind::CellularRelay, priority: 4 },
            ],
    {
        let mut entries: Vec<TransportDescriptor> = Vec::new();
        entries.push(TransportDescriptor { kind: TransportKind::DirectLink, priority: 1 });
        entries.push(TransportDescriptor { kind: TransportKind::PeerNegotiated, priority: 2 });
        entries.push(TransportDescriptor { kind: TransportKind::ShortRangeRadio, priority: 3 });
        entries.push(TransportDescriptor { kind: TransportKind::CellularRelay, priority: 4 });
        TransportTable { entries }
    }

    /// Number of registered transports.
    pub fn len(&self) -> (r: usize)
        ensures
            r == self@.len(),
    {
        self.entries.len()
    }

    /// The descriptor at position `i` of the fallback order.
    pub fn get(&self, i: usize) -> (r: TransportDescriptor)
        requires
            i < self@.len(),
        ensures
            r == self@[i as int],
    {
        self.entries[i]
    }

    /// Adds a transport at the place its ordinal gives it. A transport that
    /// is there already, or an ordinal that is taken, leaves the table as it
    /// was.
    pub fn register(&mut self, d: TransportDescriptor) -> (r: Result<(), RegistrationError>)
        requires
            old(self).wf(),
        ensures
            final(self).wf(),
            (exists|i: int| 0 <= i < old(self)@.len() && #[trigger] old(self)@[i].kind == d.kind)
                ==> r == Err::<(), RegistrationError>(RegistrationError::DuplicateTransport),
            !(exists|i: int| 0 <= i < old(self)@.len() && #[trigger] old(self)@[i].kind == d.kind)
                && (exists|i: int|
                0 <= i < old(self)@.len() && #[trigger] old(self)@[i].priority == d.priority)
                ==> r == Err::<(), RegistrationError>(RegistrationError::DuplicatePriority),
            !(exists|i: int| 0 <= i < old(self)@.len() && #[trigger] old(self)@[i].kind == d.kind)
                && !(exists|i: int|
                0 <= i < old(self)@.len() && #[trigger] old(self)@[i].priority == d.priority)
                ==> r is Ok,
            r is Err ==> final(self)@ == old(self)@,
            r is Ok ==> (forall|i: int|
                0 <= i < old(self)@.len() ==> #[trigger] old(self)@[i].kind != d.kind) && (forall|
                i: int,
            |
                0 <= i < old(self)@.len() ==> #[trigger] old(self)@[i].priority != d.priority),
            r is Ok ==> exists|k: int|
                0 <= k <= old(self)@.len() && final(self)@ == old(self)@.insert(k, d),
    {
        let n = self.entries.len();
        let mut i: usize = 0;
        while i < n
            invariant
                n == self@.len(),
                i <= n,
                self@ == old(self)@,
                old(self).wf(),
                forall|j: int| 0 <= j < i ==> #[trigger] self@[j].kind != d.kind,
            decreases n - i,
        {
            if self.entries[i].kind == d.kind {
                return Err(RegistrationError::DuplicateTransport);
            }
            i = i + 1;
        }
        let mut pos: usize = 0;
        while pos < n && self.entries[pos].priority < d.priority
            invariant
                n == self@.len(),
                pos <= n,
                self@ == old(self)@,
                old(self).wf(),
                forall|j: int| 0 <= j < pos ==> #[trigger] self@[j].priority < d.priority,
            decreases n - pos,
        {
            pos = pos + 1;
        }
        if pos < n && self.entries[pos].priority == d.priority {
            return Err(RegistrationError::DuplicatePriority);
        }
        proof {
            assert forall|j: int| 0 <= j < n implies #[trigger] self@[j].priority != d.priority by {
                if j >= pos {
                    if j > pos {
                        assert(self@[pos as int].priority < self@[j].priority);
                    }
                }
            }
        }
        self.entries.insert(pos, d);
        proof {
            let s = old(self)@;
            let t = self@;
            assert(t == s.insert(pos as int, d));
            assert forall|a: int, b: int| 0 <= a < b < t.len() implies #[trigger] t[a].priority
                < #[trigger] t[b].priority by {
                if b < pos {
                } else if b == pos {
                } else if a < pos {
                    assert(s[b - 1].priority != d.priority);
                    if (b - 1) > pos {
                        assert(s[pos as int].priority < s[b - 1].priority);
                    }
                } else if a == pos {
                    assert(s[b - 1].priority != d.priority);
                    if (b - 1) > pos {
                        assert(s[pos as int].priority < s[b - 1].priority);
                    }
                } else {
                }
            }
            assert forall|a: int, b: int| 0 <= a < b < t.len() implies #[trigger] t[a].kind
                != #[trigger] t[b].kind by {
                if b < pos {
                } else if b == pos {
                } else if a < pos {
                } else if a == pos {
                } else {
                }
            }
        }
        Ok(())
    }
}

} // verus!
