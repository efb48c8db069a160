use wayland_server::sources::{
    FdInterest, Ready, Source, SourceCall, SourceEvent, SourceId, SourceKind, SourceRegistry, READ,
    WRITE,
};
use wayland_server::table::ClientId;

const BOTH: FdInterest = FdInterest { read: true, write: true };
const READS: FdInterest = FdInterest { read: true, write: false };
const WRITES: FdInterest = FdInterest { read: false, write: true };
const NEITHER: FdInterest = FdInterest { read: false, write: false };

#[test]
fn interest_is_a_mask_of_read_and_write() {
    assert_eq!(READ, 1);
    assert_eq!(WRITE, 2);
    assert_eq!(NEITHER.bits(), 0);
    assert_eq!(READS.bits(), 1);
    assert_eq!(WRITES.bits(), 2);
    assert_eq!(BOTH.bits(), 3);
    assert_eq!(FdInterest::from_bits(0), Some(NEITHER));
    assert_eq!(FdInterest::from_bits(1), Some(READS));
    assert_eq!(FdInterest::from_bits(2), Some(WRITES));
    assert_eq!(FdInterest::from_bits(3), Some(BOTH));
    assert_eq!(FdInterest::from_bits(4), None);
    assert_eq!(FdInterest::from_bits(0x11), None);
    assert_eq!(BOTH.intersection(&READS), READS);
    assert_eq!(READS.intersection(&WRITES), NEITHER);
    assert!(NEITHER.is_empty());
    assert!(!WRITES.is_empty());
}

#[test]
fn sources_stay_until_removed() {
    let mut registry = SourceRegistry::new();
    let timer = Source { kind: SourceKind::Timer, callback: 5, data: 50 };
    let signal = Source { kind: SourceKind::Signal { signal: 15 }, callback: 6, data: 60 };
    assert_eq!(registry.add(timer), SourceId(0));
    assert_eq!(registry.add(signal), SourceId(1));
    assert_eq!(registry.get(SourceId(0)), Some(timer));
    assert_eq!(registry.get(SourceId(1)), Some(signal));
    assert_eq!(registry.get(SourceId(2)), None);
    assert_eq!(registry.remove(SourceId(0)), Some(timer));
    assert_eq!(registry.remove(SourceId(0)), None);
    assert_eq!(registry.remove(SourceId(9)), None);
    assert_eq!(registry.get(SourceId(0)), None);
    assert_eq!(registry.get(SourceId(1)), Some(signal));
    assert_eq!(registry.add(timer), SourceId(2));
    assert_eq!(registry.len(), 3);
}

#[test]
fn fd_source_is_told_what_it_asked_for() {
    let mut registry = SourceRegistry::new();
    let id = registry.add(Source {
        kind: SourceKind::Fd { fd: 8, interest: READS },
        callback: 1,
        data: 2,
    });
    assert_eq!(
        registry.resolve(&Ready::Fd { source: id, mask: BOTH }),
        Some(SourceCall {
            callback: 1,
            data: 2,
            source: id,
            event: SourceEvent::Fd { fd: 8, mask: READS },
        })
    );
    assert_eq!(registry.resolve(&Ready::Fd { source: id, mask: WRITES }), None);
    assert_eq!(registry.resolve(&Ready::Fd { source: id, mask: NEITHER }), None);
    assert_eq!(registry.resolve(&Ready::Timer { source: id, expirations: 1 }), None);
    assert_eq!(registry.resolve(&Ready::Signal { source: id, signal: 8 }), None);
}

#[test]
fn signal_and_timer_sources_get_their_payload() {
    let mut registry = SourceRegistry::new();
    let signal = registry.add(Source { kind: SourceKind::Signal { signal: 2 }, callback: 3, data: 4 });
    let timer = registry.add(Source { kind: SourceKind::Timer, callback: 5, data: 6 });
    assert_eq!(
        registry.resolve(&Ready::Signal { source: signal, signal: 2 }),
        Some(SourceCall { callback: 3, data: 4, source: signal, event: SourceEvent::Signal { signal: 2 } })
    );
    assert_eq!(registry.resolve(&Ready::Signal { source: signal, signal: 15 }), None);
    assert_eq!(
        registry.resolve(&Ready::Timer { source: timer, expirations: 3 }),
        Some(SourceCall {
            callback: 5,
            data: 6,
            source: timer,
            event: SourceEvent::Timer { expirations: 3 },
        })
    );
    assert_eq!(registry.resolve(&Ready::Timer { source: timer, expirations: 0 }), None);
    assert_eq!(registry.resolve(&Ready::Timer { source: SourceId(7), expirations: 1 }), None);
    assert_eq!(registry.resolve(&Ready::Client(ClientId(0))), None);
    registry.remove(timer);
    assert_eq!(registry.resolve(&Ready::Timer { source: timer, expirations: 3 }), None);
}
