use std::sync::Arc;
use wayland_server::dispatch::{ProtocolError, Request, Step};
use wayland_server::event_loop::{EventLoop, EventLoopHandle, Implementable, RegisterStatus, Serviced};
use wayland_server::interface::{ArgKind, Interface, MessageDesc};
use wayland_server::journal::{Invocation, Journal};
use wayland_server::liveness::{EventResult, Liveness};
use wayland_server::table::Message;
use wayland_server::resource::{Handle, Resource};
use wayland_server::sources::{FdInterest, Ready, Source, SourceCall, SourceEvent, SourceId, SourceKind};
use wayland_server::table::{ClientId, Implementation, ResourcePtr};
use wayland_server::wire::{DISPLAY_ID, IMPLEMENTATION, INVALID_METHOD, INVALID_OBJECT};
use wayland_server::wire::Argument;

fn surface() -> Arc<Interface> {
    Arc::new(Interface {
        name: String::from("surface"),
        version: 4,
        requests: vec![
            MessageDesc { since: 1, signature: vec![], destructor: true },
            MessageDesc { since: 1, signature: vec![ArgKind::Uint], destructor: false },
            MessageDesc { since: 3, signature: vec![ArgKind::Int, ArgKind::Str], destructor: false },
            MessageDesc { since: 1, signature: vec![], destructor: false },
        ],
    })
}

fn message(object: u32, opcode: u32, block: &[u8]) -> Vec<u8> {
    let size = 8 + block.len() as u32;
    let mut bytes = object.to_le_bytes().to_vec();
    bytes.extend_from_slice(&((size << 16) | opcode).to_le_bytes());
    bytes.extend_from_slice(block);
    bytes
}

struct Seen {
    callback: u64,
    data: u64,
    client: ClientId,
    ptr: ResourcePtr,
    opcode: u32,
    args: Vec<Argument>,
    alive_during: bool,
}

struct Recorder {
    seen: Vec<Seen>,
    sources: Vec<SourceCall>,
    reject: bool,
}

impl Recorder {
    fn new() -> Recorder {
        Recorder { seen: Vec::new(), sources: Vec::new(), reject: false }
    }
}

impl Implementable<u32> for Recorder {
    fn dispatch_msg(&mut self, evlh: &mut EventLoopHandle<u32>, request: &Request) -> Result<(), ()> {
        self.seen.push(Seen {
            callback: request.callback,
            data: request.data,
            client: request.client,
            ptr: request.resource.ptr,
            opcode: request.opcode,
            args: request.args.clone(),
            alive_during: request.resource.status(&evlh.objects) == Liveness::Alive,
        });
        if self.reject {
            Err(())
        } else {
            Ok(())
        }
    }

    fn dispatch_source(&mut self, _evlh: &mut EventLoopHandle<u32>, call: &SourceCall) {
        self.sources.push(*call);
    }
}

fn setup() -> (EventLoop<u32>, ClientId, Handle) {
    let mut event_loop: EventLoop<u32> = EventLoop::new(1);
    let client = event_loop.handle.objects.add_client();
    let ptr = event_loop.handle.objects.create_object(client, 42, surface(), 2).unwrap();
    let handle = Handle::from_ptr_new(ptr, &event_loop.handle.objects);
    (event_loop, client, handle)
}

#[test]
fn dispatch_with_nothing_ready_does_nothing() {
    let (mut event_loop, client, handle) = setup();
    event_loop.handle.register(&handle, vec![10, 11, 12, 13], 5);
    event_loop.handle.objects.feed(client, &message(42, 3, &[]));
    let mut recorder = Recorder::new();
    assert_eq!(event_loop.dispatch(&Vec::new(), &mut recorder), 0);
    assert!(recorder.seen.is_empty());
    // the message is still there for the next cycle
    assert_eq!(event_loop.dispatch(&vec![Ready::Client(client)], &mut recorder), 1);
    assert_eq!(recorder.seen.len(), 1);
}

#[test]
fn dispatch_counts_only_sources_with_work() {
    let (mut event_loop, client, handle) = setup();
    event_loop.handle.register(&handle, vec![10, 11, 12, 13], 5);
    let idle = event_loop.handle.objects.add_client();
    event_loop.handle.objects.feed(client, &message(42, 3, &[]));
    let mut recorder = Recorder::new();
    let ready = vec![
        Ready::Client(idle),
        Ready::Client(ClientId(99)),
        Ready::Client(client),
        Ready::Timer { source: SourceId(0), expirations: 1 },
    ];
    assert_eq!(event_loop.dispatch(&ready, &mut recorder), 1);
    assert_eq!(recorder.seen.len(), 1);
    assert_eq!(event_loop.dispatch(&ready, &mut recorder), 0);
}

#[test]
fn message_without_implementation_disconnects_the_client() {
    let (mut event_loop, client, handle) = setup();
    event_loop.handle.objects.feed(client, &message(42, 3, &[]));
    let mut recorder = Recorder::new();
    assert_eq!(event_loop.dispatch(&vec![Ready::Client(client)], &mut recorder), 1);
    assert!(recorder.seen.is_empty());
    assert!(!event_loop.handle.objects.is_open(client));
    assert!(handle.status(&event_loop.handle.objects) == Liveness::Dead);
    // the loop goes on
    assert_eq!(event_loop.dispatch(&vec![Ready::Client(client)], &mut recorder), 0);
    // the client is told why at the next flush
    let outboxes = event_loop.handle.objects.flush_clients();
    assert_eq!(outboxes[0].messages.len(), 1);
    assert!(matches!(
        &outboxes[0].messages[0],
        Message::Error { object: 42, code: IMPLEMENTATION, text } if text.is_empty()
    ));
}

#[test]
fn each_violation_has_its_code() {
    assert_eq!(INVALID_OBJECT, 0);
    assert_eq!(INVALID_METHOD, 1);
    assert_eq!(IMPLEMENTATION, 3);
    assert_eq!(ProtocolError::UnknownObject.code(), 0);
    assert_eq!(ProtocolError::MalformedHeader.code(), 1);
    assert_eq!(ProtocolError::BadOpcode.code(), 1);
    assert_eq!(ProtocolError::BadArguments.code(), 1);
    assert_eq!(ProtocolError::NoImplementation.code(), 3);
    assert_eq!(ProtocolError::Rejected.code(), 3);
}

#[test]
fn violations_are_told_under_the_id_at_fault() {
    let (mut event_loop, client, handle) = setup();
    event_loop.handle.register(&handle, vec![10, 11, 12, 13], 5);
    event_loop.handle.objects.feed(client, &message(43, 1, &[1, 0, 0, 0]));
    let mut recorder = Recorder::new();
    event_loop.service_client(client, &mut recorder);
    let sent = event_loop.handle.objects.take_outgoing(client);
    assert_eq!(sent.len(), 1);
    assert!(matches!(&sent[0], Message::Error { object: 43, code: 0, .. }));

    let (mut event_loop, client, _handle) = setup();
    event_loop.handle.objects.feed(client, &[42, 0, 0, 0, 3, 0, 5, 0]);
    event_loop.service_client(client, &mut recorder);
    let sent = event_loop.handle.objects.take_outgoing(client);
    assert_eq!(sent.len(), 1);
    assert!(matches!(&sent[0], Message::Error { object: DISPLAY_ID, code: 1, .. }));

    let (mut event_loop, client, handle) = setup();
    event_loop.handle.register(&handle, vec![10, 11, 12, 13], 5);
    event_loop.handle.objects.feed(client, &message(42, 3, &[]));
    recorder.reject = true;
    event_loop.service_client(client, &mut recorder);
    let sent = event_loop.handle.objects.take_outgoing(client);
    assert_eq!(sent.len(), 1);
    assert!(matches!(&sent[0], Message::Error { object: 42, code: 3, .. }));
}

#[test]
fn service_client_names_the_violation() {
    let (mut event_loop, client, _handle) = setup();
    event_loop.handle.objects.feed(client, &message(42, 3, &[]));
    let mut recorder = Recorder::new();
    assert_eq!(
        event_loop.service_client(client, &mut recorder),
        Serviced::Violation(ProtocolError::NoImplementation)
    );
    assert_eq!(event_loop.service_client(client, &mut recorder), Serviced::Nothing);
    assert_eq!(event_loop.service_client(ClientId(8), &mut recorder), Serviced::Nothing);
}

#[test]
fn messages_of_one_client_keep_their_order() {
    let (mut event_loop, client, handle) = setup();
    event_loop.handle.register(&handle, vec![10, 11, 12, 13], 5);
    let mut bytes = message(42, 1, &[7, 0, 0, 0]);
    bytes.extend_from_slice(&message(42, 3, &[]));
    bytes.extend_from_slice(&message(42, 1, &[8, 0, 0, 0]));
    event_loop.handle.objects.feed(client, &bytes);
    let mut recorder = Recorder::new();
    // one message for each time the connection is reported ready
    assert_eq!(event_loop.dispatch(&vec![Ready::Client(client)], &mut recorder), 1);
    assert_eq!(recorder.seen.len(), 1);
    assert_eq!(event_loop.dispatch(&vec![Ready::Client(client), Ready::Client(client)], &mut recorder), 2);
    assert_eq!(recorder.seen.len(), 3);
    assert_eq!(recorder.seen[0].opcode, 1);
    assert_eq!(recorder.seen[0].callback, 11);
    assert_eq!(recorder.seen[0].args, vec![Argument::Uint(7)]);
    assert_eq!(recorder.seen[1].opcode, 3);
    assert_eq!(recorder.seen[1].callback, 13);
    assert!(recorder.seen[1].args.is_empty());
    assert_eq!(recorder.seen[2].opcode, 1);
    assert_eq!(recorder.seen[2].args, vec![Argument::Uint(8)]);
    for seen in &recorder.seen {
        assert_eq!(seen.data, 5);
        assert_eq!(seen.client, client);
        assert_eq!(seen.ptr, handle.ptr);
    }
    assert_eq!(event_loop.service_client(client, &mut recorder), Serviced::Suspended);
}

#[test]
fn incomplete_message_waits_for_its_bytes() {
    let (mut event_loop, client, handle) = setup();
    event_loop.handle.register(&handle, vec![10, 11, 12, 13], 5);
    let bytes = message(42, 1, &[7, 0, 0, 0]);
    event_loop.handle.objects.feed(client, &bytes[..9]);
    let mut recorder = Recorder::new();
    assert_eq!(event_loop.service_client(client, &mut recorder), Serviced::Suspended);
    assert_eq!(event_loop.dispatch(&vec![Ready::Client(client)], &mut recorder), 0);
    assert!(recorder.seen.is_empty());
    assert!(event_loop.handle.objects.is_open(client));
    event_loop.handle.objects.feed(client, &bytes[9..]);
    assert_eq!(event_loop.service_client(client, &mut recorder), Serviced::Dispatched);
    assert_eq!(recorder.seen[0].args, vec![Argument::Uint(7)]);
}

#[test]
fn destructor_kills_the_object_after_the_callback() {
    let (mut event_loop, client, handle) = setup();
    event_loop.handle.register(&handle, vec![10, 11, 12, 13], 5);
    let copy = handle.clone(&event_loop.handle.objects).unwrap();
    event_loop.handle.objects.feed(client, &message(42, 0, &[]));
    let mut recorder = Recorder::new();
    assert_eq!(event_loop.service_client(client, &mut recorder), Serviced::Dispatched);
    assert_eq!(recorder.seen.len(), 1);
    assert_eq!(recorder.seen[0].callback, 10);
    assert!(recorder.seen[0].alive_during);
    assert!(handle.status(&event_loop.handle.objects) == Liveness::Dead);
    assert!(copy.status(&event_loop.handle.objects) == Liveness::Dead);
    assert!(matches!(
        copy.send_event(&mut event_loop.handle.objects, 0, &[]),
        EventResult::Destroyed
    ));
    assert!(matches!(
        handle.send_event(&mut event_loop.handle.objects, 0, &[]),
        EventResult::Destroyed
    ));
    assert!(event_loop.handle.objects.is_open(client));
    // the id is free again, and the old handles stay dead
    let again = event_loop.handle.objects.create_object(client, 42, surface(), 1).unwrap();
    assert!(again != handle.ptr);
    assert!(handle.status(&event_loop.handle.objects) == Liveness::Dead);
    assert_eq!(
        event_loop.handle.register(&handle, vec![1], 1),
        RegisterStatus::Dead
    );
}

#[test]
fn second_registration_replaces_the_first() {
    let (mut event_loop, client, handle) = setup();
    assert_eq!(
        event_loop.handle.register(&handle, vec![10, 11, 12, 13], 5),
        RegisterStatus::Registered
    );
    assert_eq!(
        event_loop.handle.register(&handle, vec![20, 21, 22, 23], 6),
        RegisterStatus::Registered
    );
    assert!(event_loop
        .handle
        .is_registered(&handle, &Implementation { callbacks: vec![20, 21, 22, 23], data: 6 }));
    assert!(!event_loop
        .handle
        .is_registered(&handle, &Implementation { callbacks: vec![10, 11, 12, 13], data: 5 }));
    event_loop.handle.objects.feed(client, &message(42, 1, &[1, 0, 0, 0]));
    event_loop.handle.objects.feed(client, &message(42, 3, &[]));
    let mut recorder = Recorder::new();
    assert_eq!(
        event_loop.dispatch(&vec![Ready::Client(client), Ready::Client(client)], &mut recorder),
        2
    );
    assert_eq!(recorder.seen[0].callback, 21);
    assert_eq!(recorder.seen[0].data, 6);
    assert_eq!(recorder.seen[1].callback, 23);
    assert_eq!(recorder.seen[1].data, 6);
}

#[test]
fn register_reports_what_it_could_not_do() {
    let (mut event_loop, _client, handle) = setup();
    let stranger = Handle::from_ptr_initialized(ResourcePtr(31), &event_loop.handle.objects);
    assert_eq!(event_loop.handle.register(&stranger, vec![1], 1), RegisterStatus::Unmanaged);
    assert!(!event_loop.handle.is_registered(&stranger, &Implementation { callbacks: vec![1], data: 1 }));
    event_loop.handle.objects.destroy_object(handle.ptr);
    assert_eq!(event_loop.handle.register(&handle, vec![1], 1), RegisterStatus::Dead);
    assert!(!event_loop.handle.is_registered(&handle, &Implementation { callbacks: vec![1], data: 1 }));
}

#[test]
fn unknown_object_is_a_protocol_error() {
    let (mut event_loop, client, handle) = setup();
    event_loop.handle.register(&handle, vec![10, 11, 12, 13], 5);
    event_loop.handle.objects.feed(client, &message(43, 1, &[1, 0, 0, 0]));
    let mut recorder = Recorder::new();
    assert_eq!(
        event_loop.service_client(client, &mut recorder),
        Serviced::Violation(ProtocolError::UnknownObject)
    );
    assert!(recorder.seen.is_empty());
    assert!(!event_loop.handle.objects.is_open(client));
}

#[test]
fn opcode_out_of_range_is_a_protocol_error() {
    // beyond the interface
    let (mut event_loop, client, handle) = setup();
    event_loop.handle.register(&handle, vec![10, 11, 12, 13, 14], 5);
    event_loop.handle.objects.feed(client, &message(42, 4, &[]));
    let mut recorder = Recorder::new();
    assert_eq!(
        event_loop.service_client(client, &mut recorder),
        Serviced::Violation(ProtocolError::BadOpcode)
    );
    // in the interface, but not at the version of the object
    let (mut event_loop, client, handle) = setup();
    event_loop.handle.register(&handle, vec![10, 11, 12, 13], 5);
    event_loop.handle.objects.feed(client, &message(42, 2, &[1, 0, 0, 0, 1, 0, 0, 0, 0, 0, 0, 0]));
    assert_eq!(
        event_loop.service_client(client, &mut recorder),
        Serviced::Violation(ProtocolError::BadOpcode)
    );
    // the implementation has no callback for it
    let (mut event_loop, client, handle) = setup();
    event_loop.handle.register(&handle, vec![10, 11], 5);
    event_loop.handle.objects.feed(client, &message(42, 3, &[]));
    assert_eq!(
        event_loop.service_client(client, &mut recorder),
        Serviced::Violation(ProtocolError::BadOpcode)
    );
    assert!(recorder.seen.is_empty());
}

#[test]
fn request_of_a_later_version_reaches_a_later_object() {
    let mut event_loop: EventLoop<u32> = EventLoop::new(1);
    let client = event_loop.handle.objects.add_client();
    let ptr = event_loop.handle.objects.create_object(client, 4, surface(), 3).unwrap();
    let handle = Handle::from_ptr_new(ptr, &event_loop.handle.objects);
    event_loop.handle.register(&handle, vec![10, 11, 12, 13], 5);
    event_loop
        .handle
        .objects
        .feed(client, &message(4, 2, &[0xfe, 0xff, 0xff, 0xff, 3, 0, 0, 0, b'o', b'k', 0, 0]));
    match event_loop.handle.objects.next_request(client) {
        Step::Invoke(request) => {
            assert_eq!(request.callback, 12);
            assert_eq!(request.data, 5);
            assert_eq!(request.client, client);
            assert_eq!(request.resource.ptr, ptr);
            assert!(request.resource.managed);
            assert_eq!(request.object, 4);
            assert_eq!(request.opcode, 2);
            assert!(!request.destructor);
            assert_eq!(
                request.args,
                vec![Argument::Int(-2), Argument::Str { offset: 8, len: 2 }]
            );
            assert_eq!(request.block, vec![0xfe, 0xff, 0xff, 0xff, 3, 0, 0, 0, b'o', b'k', 0, 0]);
            assert_eq!(event_loop.handle.objects.complete_request(&request, true), None);
            assert!(event_loop.handle.objects.is_alive(ptr));
        }
        _ => panic!("the request resolves to a callback"),
    }
}

#[test]
fn arguments_that_do_not_match_are_a_protocol_error() {
    let (mut event_loop, client, handle) = setup();
    event_loop.handle.register(&handle, vec![10, 11, 12, 13], 5);
    event_loop.handle.objects.feed(client, &message(42, 1, &[]));
    let mut recorder = Recorder::new();
    assert_eq!(
        event_loop.service_client(client, &mut recorder),
        Serviced::Violation(ProtocolError::BadArguments)
    );
    let (mut event_loop, client, handle) = setup();
    event_loop.handle.register(&handle, vec![10, 11, 12, 13], 5);
    event_loop.handle.objects.feed(client, &message(42, 3, &[0, 0, 0, 0]));
    assert_eq!(
        event_loop.service_client(client, &mut recorder),
        Serviced::Violation(ProtocolError::BadArguments)
    );
    assert!(recorder.seen.is_empty());
}

#[test]
fn malformed_header_is_a_protocol_error() {
    let (mut event_loop, client, handle) = setup();
    event_loop.handle.register(&handle, vec![10, 11, 12, 13], 5);
    event_loop.handle.objects.feed(client, &[42, 0, 0, 0, 3, 0, 5, 0]);
    let mut recorder = Recorder::new();
    assert_eq!(
        event_loop.service_client(client, &mut recorder),
        Serviced::Violation(ProtocolError::MalformedHeader)
    );
    assert!(!event_loop.handle.objects.is_open(client));
    assert!(handle.status(&event_loop.handle.objects) == Liveness::Dead);
}

#[test]
fn rejected_request_ends_the_connection() {
    let (mut event_loop, client, handle) = setup();
    event_loop.handle.register(&handle, vec![10, 11, 12, 13], 5);
    event_loop.handle.objects.feed(client, &message(42, 3, &[]));
    let mut recorder = Recorder::new();
    recorder.reject = true;
    assert_eq!(
        event_loop.service_client(client, &mut recorder),
        Serviced::Violation(ProtocolError::Rejected)
    );
    assert_eq!(recorder.seen.len(), 1);
    assert!(!event_loop.handle.objects.is_open(client));
    assert!(handle.status(&event_loop.handle.objects) == Liveness::Dead);
}

#[test]
fn protocol_error_of_one_client_spares_the_others() {
    let (mut event_loop, client, handle) = setup();
    event_loop.handle.register(&handle, vec![10, 11, 12, 13], 5);
    let bad = event_loop.handle.objects.add_client();
    event_loop.handle.objects.feed(bad, &message(1, 0, &[]));
    event_loop.handle.objects.feed(client, &message(42, 3, &[]));
    let mut recorder = Recorder::new();
    assert_eq!(
        event_loop.dispatch(&vec![Ready::Client(bad), Ready::Client(client)], &mut recorder),
        2
    );
    assert!(!event_loop.handle.objects.is_open(bad));
    assert!(event_loop.handle.objects.is_open(client));
    assert_eq!(recorder.seen.len(), 1);
    assert_eq!(recorder.seen[0].client, client);
}

#[test]
fn doomed_client_is_not_dispatched() {
    let (mut event_loop, client, handle) = setup();
    event_loop.handle.register(&handle, vec![10, 11, 12, 13], 5);
    event_loop.handle.objects.feed(client, &message(42, 3, &[]));
    handle.post_error(&mut event_loop.handle.objects, 1, String::from("enough"));
    let mut recorder = Recorder::new();
    assert_eq!(event_loop.service_client(client, &mut recorder), Serviced::Nothing);
    assert_eq!(event_loop.dispatch(&vec![Ready::Client(client)], &mut recorder), 0);
    assert!(recorder.seen.is_empty());
}

#[test]
fn ready_sources_reach_their_callbacks() {
    let mut event_loop: EventLoop<u32> = EventLoop::new(1);
    let reads = FdInterest { read: true, write: false };
    let both = FdInterest { read: true, write: true };
    let fd = event_loop.handle.sources.add(Source {
        kind: SourceKind::Fd { fd: 4, interest: reads },
        callback: 1,
        data: 2,
    });
    let timer = event_loop.handle.sources.add(Source { kind: SourceKind::Timer, callback: 3, data: 4 });
    let mut recorder = Recorder::new();
    let ready = vec![
        Ready::Timer { source: timer, expirations: 2 },
        Ready::Fd { source: fd, mask: both },
        Ready::Signal { source: timer, signal: 1 },
    ];
    assert_eq!(event_loop.dispatch(&ready, &mut recorder), 2);
    assert_eq!(
        recorder.sources,
        vec![
            SourceCall { callback: 3, data: 4, source: timer, event: SourceEvent::Timer { expirations: 2 } },
            SourceCall { callback: 1, data: 2, source: fd, event: SourceEvent::Fd { fd: 4, mask: reads } },
        ]
    );
    assert_eq!(
        event_loop.service(&Ready::Timer { source: timer, expirations: 0 }, &mut recorder),
        Serviced::Nothing
    );
    assert_eq!(
        event_loop.service_source(&Ready::Timer { source: timer, expirations: 1 }, &mut recorder),
        Serviced::Dispatched
    );
    assert!(Serviced::Dispatched.counted());
    assert!(Serviced::Violation(ProtocolError::BadOpcode).counted());
    assert!(!Serviced::Nothing.counted());
    assert!(!Serviced::Suspended.counted());
}

struct Spawner {
    made: Vec<ResourcePtr>,
}

impl Implementable<u32> for Spawner {
    fn dispatch_msg(&mut self, evlh: &mut EventLoopHandle<u32>, request: &Request) -> Result<(), ()> {
        // every request creates an object named by its argument, and counts it
        let id = match request.args.first() {
            Some(Argument::Uint(id)) => *id,
            _ => return Err(()),
        };
        let ptr = evlh.objects.create_object(request.client, id, surface(), 1).map_err(|_| ())?;
        let handle = Handle::from_ptr_new(ptr, &evlh.objects);
        evlh.register(&handle, vec![0, request.callback, 0, 0], request.data + 1);
        let token = evlh.state.insert(id);
        assert!(evlh.state.accepts(&token));
        self.made.push(ptr);
        Ok(())
    }

    fn dispatch_source(&mut self, _evlh: &mut EventLoopHandle<u32>, _call: &SourceCall) {}
}

#[test]
fn callbacks_register_through_the_handle() {
    let (mut event_loop, client, handle) = setup();
    event_loop.handle.register(&handle, vec![10, 11, 12, 13], 5);
    let mut bytes = message(42, 1, &[50, 0, 0, 0]);
    bytes.extend_from_slice(&message(50, 1, &[51, 0, 0, 0]));
    bytes.extend_from_slice(&message(51, 1, &[50, 0, 0, 0]));
    event_loop.handle.objects.feed(client, &bytes);
    let mut spawner = Spawner { made: Vec::new() };
    let ready = vec![Ready::Client(client), Ready::Client(client), Ready::Client(client)];
    // the third request asks for an id in use and is rejected
    assert_eq!(event_loop.dispatch(&ready, &mut spawner), 3);
    assert_eq!(spawner.made.len(), 2);
    assert_eq!(event_loop.handle.state.len(), 2);
    assert!(!event_loop.handle.objects.is_open(client));
    assert!(!event_loop.handle.objects.is_alive(spawner.made[0]));
}

#[test]
fn journal_records_what_the_loop_invokes() {
    let (mut event_loop, client, handle) = setup();
    event_loop.handle.register(&handle, vec![10, 11, 12, 13], 5);
    let timer = event_loop.handle.sources.add(Source { kind: SourceKind::Timer, callback: 3, data: 4 });
    let mut bytes = message(42, 3, &[]);
    bytes.extend_from_slice(&message(42, 1, &[6, 0, 0, 0]));
    event_loop.handle.objects.feed(client, &bytes);
    let mut journal = Journal::new();
    let ready = vec![
        Ready::Client(client),
        Ready::Timer { source: timer, expirations: 1 },
        Ready::Client(client),
        Ready::Client(client),
    ];
    assert_eq!(event_loop.dispatch(&ready, &mut journal), 3);
    assert_eq!(
        journal.entries,
        vec![
            Invocation::Request { callback: 13, data: 5, client, resource: handle.ptr, opcode: 3 },
            Invocation::Source(SourceCall {
                callback: 3,
                data: 4,
                source: timer,
                event: SourceEvent::Timer { expirations: 1 },
            }),
            Invocation::Request { callback: 11, data: 5, client, resource: handle.ptr, opcode: 1 },
        ]
    );
}

#[test]
fn poll_waits_only_when_nothing_is_buffered() {
    let (mut event_loop, client, _handle) = setup();
    assert_eq!(event_loop.poll_timeout(None), -1);
    assert_eq!(event_loop.poll_timeout(Some(0)), 0);
    assert_eq!(event_loop.poll_timeout(Some(10)), 10);
    assert_eq!(event_loop.poll_timeout(Some(i32::MAX as u32)), i32::MAX);
    assert_eq!(event_loop.poll_timeout(Some(u32::MAX)), i32::MAX);
    event_loop.handle.objects.feed(client, &message(42, 3, &[]));
    assert_eq!(event_loop.poll_timeout(None), 0);
    assert_eq!(event_loop.poll_timeout(Some(10)), 0);
}
