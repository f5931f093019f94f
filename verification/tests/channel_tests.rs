use c_ares::channel::{
    Channel, ChannelOptions, CreateEvent, CreateStep, EngineEvent, Notification, PendingQuery,
    QueryRequest, Reservation,
};
use c_ares::error::AresError;
use c_ares::library::Library;
use c_ares::types::QueryType;

fn counted(lib: &mut Library) -> Reservation {
    let first = match Channel::new(lib, CreateEvent::Start) {
        CreateStep::InitLibrary(_) => Channel::new(lib, CreateEvent::LibraryReady(0)),
        step => step,
    };
    match first {
        CreateStep::InitInstance(_, reservation) => reservation,
        other => panic!("unexpected step {:?}", other),
    }
}

fn ready_channel(lib: &mut Library) -> Channel {
    let reservation = counted(lib);
    match Channel::new(lib, CreateEvent::InstanceReady(0, reservation)) {
        CreateStep::Ready(channel) => channel,
        other => panic!("unexpected step {:?}", other),
    }
}

#[test]
fn creation_starts_with_the_library() {
    let mut lib = Library::new();
    match Channel::new(&mut lib, CreateEvent::Start) {
        CreateStep::InitLibrary(flags) => assert_eq!(flags, 1),
        other => panic!("unexpected step {:?}", other),
    }
    assert_eq!(lib.live(), 0);
}

#[test]
fn creation_asks_for_the_fixed_configuration() {
    let mut lib = Library::new();
    match Channel::new(&mut lib, CreateEvent::LibraryReady(0)) {
        CreateStep::InitInstance(options, _) => {
            assert_eq!(
                options,
                ChannelOptions { flags: 16, timeout: 500, tries: 3, optmask: 1 | 4 | 512 | 8192 }
            );
        }
        other => panic!("unexpected step {:?}", other),
    }
    assert_eq!(lib.live(), 1);
}

#[test]
fn failed_library_init_changes_nothing() {
    let mut lib = Library::new();
    match Channel::new(&mut lib, CreateEvent::LibraryReady(22)) {
        CreateStep::Failed { error, cleanup } => {
            assert_eq!(error, AresError::LibraryInitFailure);
            assert!(!cleanup);
        }
        other => panic!("unexpected step {:?}", other),
    }
    assert_eq!(lib.live(), 0);
}

#[test]
fn failed_instance_creation_rolls_back() {
    let mut lib = Library::new();
    let reservation = counted(&mut lib);
    assert_eq!(lib.live(), 1);
    match Channel::new(&mut lib, CreateEvent::InstanceReady(15, reservation)) {
        CreateStep::Failed { error, cleanup } => {
            assert_eq!(error, AresError::ChannelCreationFailure);
            assert!(cleanup);
        }
        other => panic!("unexpected step {:?}", other),
    }
    assert_eq!(lib.live(), 0);
}

#[test]
fn a_failed_second_channel_leaves_the_global_state() {
    let mut lib = Library::new();
    let first = ready_channel(&mut lib);
    let reservation = counted(&mut lib);
    assert_eq!(lib.live(), 2);
    match Channel::new(&mut lib, CreateEvent::InstanceReady(15, reservation)) {
        CreateStep::Failed { error, cleanup } => {
            assert_eq!(error, AresError::ChannelCreationFailure);
            assert!(!cleanup);
        }
        other => panic!("unexpected step {:?}", other),
    }
    assert_eq!(lib.live(), 1);
    assert!(first.destroy(&mut lib).last);
}

#[test]
fn a_second_channel_asks_for_no_second_initialisation() {
    let mut lib = Library::new();
    let first = ready_channel(&mut lib);
    match Channel::new(&mut lib, CreateEvent::Start) {
        CreateStep::InitInstance(options, reservation) => {
            assert_eq!(options.timeout, 500);
            assert_eq!(lib.live(), 2);
            match Channel::new(&mut lib, CreateEvent::InstanceReady(0, reservation)) {
                CreateStep::Ready(second) => {
                    assert_eq!(lib.live(), 2);
                    assert!(!second.destroy(&mut lib).last);
                }
                other => panic!("unexpected step {:?}", other),
            }
        }
        other => panic!("unexpected step {:?}", other),
    }
    assert!(first.destroy(&mut lib).last);
    assert_eq!(lib.live(), 0);
}

#[test]
fn channels_in_any_order_set_up_once_and_tear_down_once() {
    let mut lib = Library::new();
    let mut inits: usize = 0;
    let mut cleanups: usize = 0;
    let mut alive: Vec<Channel> = Vec::new();
    let plan: [bool; 10] = [true, true, false, true, true, false, false, true, false, false];
    for create in plan {
        if create {
            let step = match Channel::new(&mut lib, CreateEvent::Start) {
                CreateStep::InitLibrary(_) => {
                    inits += 1;
                    Channel::new(&mut lib, CreateEvent::LibraryReady(0))
                }
                step => step,
            };
            let reservation = match step {
                CreateStep::InitInstance(_, reservation) => reservation,
                other => panic!("unexpected step {:?}", other),
            };
            match Channel::new(&mut lib, CreateEvent::InstanceReady(0, reservation)) {
                CreateStep::Ready(channel) => alive.push(channel),
                other => panic!("unexpected step {:?}", other),
            }
        } else {
            let channel = alive.remove(0);
            if channel.destroy(&mut lib).last {
                cleanups += 1;
            }
        }
    }
    assert_eq!(lib.live(), 0);
    assert_eq!(inits, 1);
    assert_eq!(cleanups, 1);
}

#[test]
fn a_ready_channel_has_nothing_pending() {
    let mut lib = Library::new();
    let channel = ready_channel(&mut lib);
    assert_eq!(channel.pending_count(), 0);
    assert_eq!(channel.next_id(), 0);
    assert_eq!(lib.live(), 1);
}

#[test]
fn queries_get_identifiers_in_order() {
    let mut lib = Library::new();
    let mut channel = ready_channel(&mut lib);
    assert_eq!(
        channel.query_a("example.com"),
        Ok(QueryRequest { id: 0, dns_class: 1, query_type: 1 })
    );
    assert_eq!(
        channel.query_aaaa("example.com"),
        Ok(QueryRequest { id: 1, dns_class: 1, query_type: 28 })
    );
    assert_eq!(
        channel.query_soa("example.com"),
        Ok(QueryRequest { id: 2, dns_class: 1, query_type: 6 })
    );
    assert_eq!(channel.pending_count(), 3);
    assert!(channel.is_pending(0));
    assert!(channel.is_pending(1));
    assert!(channel.is_pending(2));
    assert!(!channel.is_pending(3));
}

#[test]
fn a_name_with_a_zero_byte_is_refused_at_once() {
    let mut lib = Library::new();
    let mut channel = ready_channel(&mut lib);
    assert_eq!(channel.query_a("exa\0mple.com"), Err(AresError::ValidationFailure));
    assert_eq!(channel.query_aaaa("\0"), Err(AresError::ValidationFailure));
    assert_eq!(channel.query_soa("example.com\0"), Err(AresError::ValidationFailure));
    assert_eq!(channel.pending_count(), 0);
    assert_eq!(channel.next_id(), 0);
    // Nothing is pending, so nothing is ever delivered for it.
    let out = channel.process_fd(&vec![EngineEvent::Completed { id: 0, status: 0 }]);
    assert_eq!(out, Vec::<Notification>::new());
}

#[test]
fn an_empty_name_is_accepted() {
    let mut lib = Library::new();
    let mut channel = ready_channel(&mut lib);
    assert!(channel.query_a("").is_ok());
    assert_eq!(channel.pending_count(), 1);
}

#[test]
fn one_drive_delivers_a_completed_query_once() {
    let mut lib = Library::new();
    let mut channel = ready_channel(&mut lib);
    let request = channel.query_a("example.com").unwrap();
    let out = channel.process_fd(&vec![EngineEvent::Completed { id: request.id, status: 0 }]);
    assert_eq!(out, vec![Notification::Deliver { id: request.id, kind: QueryType::A, status: 0 }]);
    assert_eq!(channel.pending_count(), 0);
    assert!(!channel.is_pending(request.id));
}

#[test]
fn a_second_completion_of_the_same_query_is_ignored() {
    let mut lib = Library::new();
    let mut channel = ready_channel(&mut lib);
    let request = channel.query_aaaa("example.com").unwrap();
    let out = channel.process_fd(&vec![
        EngineEvent::Completed { id: request.id, status: 12 },
        EngineEvent::Completed { id: request.id, status: 0 },
    ]);
    assert_eq!(
        out,
        vec![Notification::Deliver { id: request.id, kind: QueryType::AAAA, status: 12 }]
    );
    let again = channel.process_fd(&vec![EngineEvent::Completed { id: request.id, status: 0 }]);
    assert_eq!(again, Vec::<Notification>::new());
}

#[test]
fn a_drive_without_events_does_nothing() {
    let mut lib = Library::new();
    let mut channel = ready_channel(&mut lib);
    let _ = channel.query_a("example.com");
    let out = channel.process_fd(&Vec::new());
    assert_eq!(out, Vec::<Notification>::new());
    assert_eq!(channel.pending_count(), 1);
}

#[test]
fn completions_out_of_order_keep_the_others_pending() {
    let mut lib = Library::new();
    let mut channel = ready_channel(&mut lib);
    let a = channel.query_a("a.example").unwrap();
    let b = channel.query_aaaa("b.example").unwrap();
    let c = channel.query_soa("c.example").unwrap();
    let out = channel.process_fd(&vec![EngineEvent::Completed { id: b.id, status: 4 }]);
    assert_eq!(out, vec![Notification::Deliver { id: b.id, kind: QueryType::AAAA, status: 4 }]);
    assert!(channel.is_pending(a.id));
    assert!(!channel.is_pending(b.id));
    assert!(channel.is_pending(c.id));
    let out = channel.process_fd(&vec![
        EngineEvent::Completed { id: c.id, status: 0 },
        EngineEvent::Completed { id: a.id, status: 0 },
    ]);
    assert_eq!(
        out,
        vec![
            Notification::Deliver { id: c.id, kind: QueryType::SOA, status: 0 },
            Notification::Deliver { id: a.id, kind: QueryType::A, status: 0 },
        ]
    );
    assert_eq!(channel.pending_count(), 0);
}

#[test]
fn a_closed_descriptor_is_reported_each_time() {
    let mut lib = Library::new();
    let mut channel = ready_channel(&mut lib);
    let closed = EngineEvent::SocketState { fd: 7, readable: false, writable: false };
    let out = channel.process_fd(&vec![closed]);
    assert_eq!(out, vec![Notification::Socket { fd: 7, readable: false, writable: false }]);
    let out = channel.process_fd(&vec![closed, closed]);
    assert_eq!(
        out,
        vec![
            Notification::Socket { fd: 7, readable: false, writable: false },
            Notification::Socket { fd: 7, readable: false, writable: false },
        ]
    );
}

#[test]
fn socket_states_and_deliveries_keep_their_order() {
    let mut lib = Library::new();
    let mut channel = ready_channel(&mut lib);
    let request = channel.query_a("example.com").unwrap();
    let out = channel.process_fd(&vec![
        EngineEvent::SocketState { fd: 5, readable: true, writable: false },
        EngineEvent::Completed { id: request.id, status: 0 },
        EngineEvent::SocketState { fd: 5, readable: false, writable: true },
        EngineEvent::Completed { id: 99, status: 0 },
        EngineEvent::SocketState { fd: 5, readable: false, writable: false },
    ]);
    assert_eq!(
        out,
        vec![
            Notification::Socket { fd: 5, readable: true, writable: false },
            Notification::Deliver { id: request.id, kind: QueryType::A, status: 0 },
            Notification::Socket { fd: 5, readable: false, writable: true },
            Notification::Socket { fd: 5, readable: false, writable: false },
        ]
    );
}

#[test]
fn on_event_handles_one_report() {
    let mut lib = Library::new();
    let mut channel = ready_channel(&mut lib);
    let request = channel.query_soa("example.com").unwrap();
    assert_eq!(channel.on_event(EngineEvent::Completed { id: 41, status: 0 }), None);
    assert_eq!(
        channel.on_event(EngineEvent::Completed { id: request.id, status: 1 }),
        Some(Notification::Deliver { id: request.id, kind: QueryType::SOA, status: 1 })
    );
    assert_eq!(channel.on_event(EngineEvent::Completed { id: request.id, status: 1 }), None);
}

#[test]
fn destroying_a_channel_cancels_what_is_pending() {
    let mut lib = Library::new();
    let mut channel = ready_channel(&mut lib);
    let request = channel.query_a("example.com").unwrap();
    let teardown = channel.destroy(&mut lib);
    assert_eq!(teardown.cancelled, vec![PendingQuery { id: request.id, kind: QueryType::A }]);
    assert!(teardown.last);
    assert_eq!(lib.live(), 0);
}

#[test]
fn destroying_one_of_two_channels_keeps_the_library() {
    let mut lib = Library::new();
    let first = ready_channel(&mut lib);
    let second = ready_channel(&mut lib);
    assert_eq!(lib.live(), 2);
    let teardown = second.destroy(&mut lib);
    assert!(!teardown.last);
    assert_eq!(teardown.cancelled, Vec::<PendingQuery>::new());
    assert_eq!(lib.live(), 1);
    let teardown = first.destroy(&mut lib);
    assert!(teardown.last);
    assert_eq!(lib.live(), 0);
}

#[test]
fn identifiers_are_not_given_out_again() {
    let mut lib = Library::new();
    let mut channel = ready_channel(&mut lib);
    let first = channel.query_a("example.com").unwrap();
    let _ = channel.process_fd(&vec![EngineEvent::Completed { id: first.id, status: 0 }]);
    let second = channel.query_a("example.com").unwrap();
    assert_ne!(first.id, second.id);
    assert_eq!(second.id, 1);
}
