//! A channel: the bookkeeping around one instance of the resolver engine.
//!
//! The engine is driven from outside. What it reports comes in as plain
//! events, and what has to be done with them goes out as plain actions.

use vstd::prelude::*;
use vstd::string::StringSliceAdditionalSpecFns;
use crate::error::{AresError, ARES_SUCCESS};
use crate::library::{creates_state, destroys_state, Library};
use crate::types::{DnsClass, QueryType};

verus! {

/// The flag that asks the engine for its whole global initialisation.
pub const ARES_LIB_INIT_ALL: i32 = 1;

/// The flag that keeps sockets open between queries.
pub const ARES_FLAG_STAYOPEN: i32 = 16;

/// Marks the flags as set in a channel's options.
pub const ARES_OPT_FLAGS: i32 = 1;

/// Marks the number of tries as set in a channel's options.
pub const ARES_OPT_TRIES: i32 = 4;

/// Marks the socket state callback as set in a channel's options.
pub const ARES_OPT_SOCK_STATE_CB: i32 = 512;

/// Marks the timeout in milliseconds as set in a channel's options.
pub const ARES_OPT_TIMEOUTMS: i32 = 8192;

/// The descriptor that stands for "no descriptor".
pub const INVALID_FD: i32 = -1;

/// The timeout of every query, in milliseconds.
pub const TIMEOUT_MS: i32 = 500;

/// The number of times a query is tried.
pub const TRIES: i32 = 3;

/// The configuration that an engine instance is built with.
#[derive(Clone, Copy, Debug, PartialEq, Eq, Structural)]
pub struct ChannelOptions {
    pub flags: i32,
    pub timeout: i32,
    pub tries: i32,
    /// Which of the options are set, one bit each.
    pub optmask: i32,
}

/// The one configuration that channels are built with: sockets stay open,
/// a query times out after 500 ms and is tried 3 times, and socket state
/// changes are reported.
pub open spec fn fixed_options() -> ChannelOptions {
    ChannelOptions { flags: ARES_FLAG_STAYOPEN, timeout: TIMEOUT_MS, tries: TRIES, optmask: 8709 }
}

/// The mask of the fixed configuration marks exactly the four options that
/// it sets.
pub proof fn lemma_fixed_optmask()
    ensures
        fixed_options().optmask == ARES_OPT_FLAGS | ARES_OPT_TIMEOUTMS | ARES_OPT_TRIES
            | ARES_OPT_SOCK_STATE_CB,
{
    assert(8709i32 == 1i32 | 8192i32 | 4i32 | 512i32) by (bit_vector);
}

/// A query that was handed to the engine and has not completed.
#[derive(Clone, Copy, Debug, PartialEq, Eq, Structural)]
pub struct PendingQuery {
    pub id: u64,
    pub kind: QueryType,
}

/// What is handed to the engine to start a query. The completion belongs to
/// `id`: the engine's one report for this query carries it back.
#[derive(Clone, Copy, Debug, PartialEq, Eq, Structural)]
pub struct QueryRequest {
    pub id: u64,
    pub dns_class: i32,
    pub query_type: i32,
}

/// What the engine reports while it is driven.
#[derive(Clone, Copy, Debug, PartialEq, Eq, Structural)]
pub enum EngineEvent {
    /// The query `id` completed with `status`.
    Completed { id: u64, status: i32 },
    /// The descriptor `fd` changed what it waits for.
    SocketState { fd: i32, readable: bool, writable: bool },
}

/// What the caller of a drive has to do, in order.
#[derive(Clone, Copy, Debug, PartialEq, Eq, Structural)]
pub enum Notification {
    /// Hand the result of query `id`, which asked for `kind` and ended
    /// with `status`, to its completion.
    Deliver { id: u64, kind: QueryType, status: i32 },
    /// Tell the readiness callback what `fd` waits for.
    Socket { fd: i32, readable: bool, writable: bool },
}

/// The place in the count of live channels that a channel under
/// construction holds. It is handed out when the channel is counted and
/// taken back when the channel is ready or has failed, so that one count
/// stands for one channel.
#[derive(Debug)]
pub struct Reservation {
    counted: bool,
}

/// A step in the making of a channel, as the engine reports it.
#[derive(Debug)]
pub enum CreateEvent {
    /// Nothing has been done yet.
    Start,
    /// The engine's global initialisation returned this status.
    LibraryReady(i32),
    /// The engine's instance creation returned this status, for the
    /// channel that holds this place in the count.
    InstanceReady(i32, Reservation),
}

/// What to do next in the making of a channel.
#[derive(Debug)]
pub enum CreateStep {
    /// Run the engine's global initialisation with these flags.
    InitLibrary(i32),
    /// Build the engine instance with this configuration. The channel is
    /// counted; its place goes back in with the outcome.
    InitInstance(ChannelOptions, Reservation),
    /// The channel is made.
    Ready(Channel),
    /// The channel cannot be made. If `cleanup` is set, no channel is
    /// alive any more and the engine's global state is to be torn down.
    Failed { error: AresError, cleanup: bool },
}

/// What is left to do when a channel is gone.
#[derive(Debug)]
pub struct Teardown {
    /// The queries that never completed, in the order they were made.
    /// Their completions are dropped without being called.
    pub cancelled: Vec<PendingQuery>,
    /// Whether this was the last channel alive, which is when the
    /// engine's global state is to be torn down.
    pub last: bool,
}

/// A channel for name service lookups.
#[derive(Debug)]
pub struct Channel {
    pending: Vec<PendingQuery>,
    next_id: u64,
}

/// Whether a name can be handed to the engine: it holds no zero byte.
pub open spec fn valid_name(name: Seq<u8>) -> bool {
    forall|i: int| 0 <= i < name.len() ==> name[i] != 0u8
}

/// The place of the query `id` among the pending ones, or their number if
/// it is not there.
pub open spec fn position(pending: Seq<PendingQuery>, id: u64) -> int
    decreases pending.len(),
{
    if pending.len() == 0 {
        0
    } else if pending[0].id == id {
        0
    } else {
        1 + position(pending.subrange(1, pending.len() as int), id)
    }
}

/// Whether the query `id` is pending.
pub open spec fn is_pending(pending: Seq<PendingQuery>, id: u64) -> bool {
    exists|i: int| 0 <= i < pending.len() && pending[i].id == id
}

/// Whether no two pending queries share an identifier.
pub open spec fn distinct_ids(pending: Seq<PendingQuery>) -> bool {
    forall|i: int, j: int|
        0 <= i < pending.len() && 0 <= j < pending.len() && i != j ==> pending[i].id
            != pending[j].id
}

/// The pending queries after one event, and what the event asks for.
pub open spec fn react(pending: Seq<PendingQuery>, event: EngineEvent) -> (
    Seq<PendingQuery>,
    Option<Notification>,
) {
    match event {
        EngineEvent::Completed { id, status } => {
            let at = position(pending, id);
            if at < pending.len() {
                (
                    pending.remove(at),
                    Some(Notification::Deliver { id, kind: pending[at].kind, status }),
                )
            } else {
                (pending, None)
            }
        },
        EngineEvent::SocketState { fd, readable, writable } => (
            pending,
            Some(Notification::Socket { fd, readable, writable }),
        ),
    }
}

/// The pending queries after a run of events, and what the run asks for.
pub open spec fn drive(pending: Seq<PendingQuery>, events: Seq<EngineEvent>) -> (
    Seq<PendingQuery>,
    Seq<Notification>,
)
    decreases events.len(),
{
    if events.len() == 0 {
        (pending, Seq::empty())
    } else {
        let before = drive(pending, events.drop_last());
        let now = react(before.0, events.last());
        match now.1 {
            Some(n) => (now.0, before.1.push(n)),
            None => (now.0, before.1),
        }
    }
}

/// What a channel holds.
pub struct ChannelState {
    /// The queries that have not completed, in the order they were made.
    pub pending: Seq<PendingQuery>,
    /// The identifier that the next query gets.
    pub next_id: u64,
}

impl View for Channel {
    type V = ChannelState;

    closed spec fn view(&self) -> ChannelState {
        ChannelState { pending: self.pending@, next_id: self.next_id }
    }
}

/// Whether the bookkeeping of a channel is sound: no two pending queries
/// share an identifier, and none has one that is still to be given out.
pub open spec fn sound(state: ChannelState) -> bool {
    &&& distinct_ids(state.pending)
    &&& forall|i: int|
        0 <= i < state.pending.len() ==> (#[trigger] state.pending[i]).id < state.next_id
}

/// What a query of `kind` for `name` does to a channel: a name that can be
/// handed to the engine makes the query pending under the next identifier;
/// any other name changes nothing.
pub open spec fn submitted(state: ChannelState, name: Seq<u8>, kind: QueryType) -> ChannelState {
    if valid_name(name) {
        ChannelState {
            pending: state.pending.push(PendingQuery { id: state.next_id, kind }),
            next_id: (state.next_id + 1) as u64,
        }
    } else {
        state
    }
}

/// What a query of `kind` for `name` returns: the request for the engine,
/// or `ValidationFailure` for a name that holds a zero byte.
pub open spec fn requested(state: ChannelState, name: Seq<u8>, kind: QueryType) -> Result<
    QueryRequest,
    AresError,
> {
    if valid_name(name) {
        Ok(
            QueryRequest {
                id: state.next_id,
                dns_class: DnsClass::IN.spec_code(),
                query_type: kind.spec_code(),
            },
        )
    } else {
        Err(AresError::ValidationFailure)
    }
}

impl Channel {
    /// Whether the channel's bookkeeping is sound.
    pub open spec fn wf(&self) -> bool {
        sound(self@)
    }

    /// The identifier that the next query gets.
    pub fn next_id(&self) -> (id: u64)
        ensures
            id == self@.next_id,
    {
        self.next_id
    }

    /// The number of queries that have not completed.
    pub fn pending_count(&self) -> (n: usize)
        ensures
            n == self@.pending.len(),
    {
        self.pending.len()
    }

    /// Whether the query `id` has not completed.
    pub fn is_pending(&self, id: u64) -> (b: bool)
        ensures
            b == is_pending(self@.pending, id),
    {
        let at = self.find(id);
        proof {
            lemma_position(self@.pending, id);
        }
        at < self.pending.len()
    }

    /// Takes the making of a channel one step on.
    ///
    /// At the start, the first channel asks for the engine's global
    /// initialisation; while other channels are alive the global state is
    /// there already, so the channel is counted and its engine instance is
    /// asked for at once. When the initialisation has succeeded the
    /// channel is counted and the instance is asked for, with the fixed
    /// configuration; when it has failed nothing has changed and the
    /// failure is `LibraryInitFailure`. When the instance is there the
    /// channel is ready, with no query pending; when it could not be built
    /// the channel leaves the count again, the failure is
    /// `ChannelCreationFailure`, and the global state is to be torn down
    /// if no other channel is alive.
    pub fn new(lib: &mut Library, event: CreateEvent) -> (step: CreateStep)
        requires
            match event {
                CreateEvent::Start => !creates_state(old(lib)@) ==> old(lib)@ < usize::MAX,
                CreateEvent::LibraryReady(status) => status == ARES_SUCCESS ==> old(lib)@
                    < usize::MAX,
                CreateEvent::InstanceReady(status, _) => status != ARES_SUCCESS ==> old(lib)@ > 0,
            },
        ensures
            match event {
                CreateEvent::Start => if creates_state(old(lib)@) {
                    &&& step matches CreateStep::InitLibrary(flags)
                    &&& flags == ARES_LIB_INIT_ALL
                    &&& final(lib)@ == old(lib)@
                } else {
                    &&& step matches CreateStep::InitInstance(options, _)
                    &&& options == fixed_options()
                    &&& final(lib)@ == old(lib)@ + 1
                },
                CreateEvent::LibraryReady(status) => if status == ARES_SUCCESS {
                    &&& step matches CreateStep::InitInstance(options, _)
                    &&& options == fixed_options()
                    &&& final(lib)@ == old(lib)@ + 1
                } else {
                    &&& step matches CreateStep::Failed { error, cleanup }
                    &&& error == AresError::LibraryInitFailure
                    &&& !cleanup
                    &&& final(lib)@ == old(lib)@
                },
                CreateEvent::InstanceReady(status, _) => if status == ARES_SUCCESS {
                    &&& step matches CreateStep::Ready(channel)
                    &&& channel.wf()
                    &&& channel@.pending == Seq::<PendingQuery>::empty()
                    &&& channel@.next_id == 0
                    &&& final(lib)@ == old(lib)@
                } else {
                    &&& step matches CreateStep::Failed { error, cleanup }
                    &&& error == AresError::ChannelCreationFailure
                    &&& cleanup == destroys_state(old(lib)@)
                    &&& final(lib)@ == old(lib)@ - 1
                },
            },
    {
        match event {
            CreateEvent::Start => {
                if lib.is_initialized() {
                    Channel::count_in(lib)
                } else {
                    CreateStep::InitLibrary(ARES_LIB_INIT_ALL)
                }
            },
            CreateEvent::LibraryReady(status) => {
                if status != ARES_SUCCESS {
                    return CreateStep::Failed {
                        error: AresError::LibraryInitFailure,
                        cleanup: false,
                    };
                }
                Channel::count_in(lib)
            },
            CreateEvent::InstanceReady(status, _) => {
                if status != ARES_SUCCESS {
                    let cleanup = lib.release();
                    return CreateStep::Failed {
                        error: AresError::ChannelCreationFailure,
                        cleanup,
                    };
                }
                CreateStep::Ready(Channel { pending: Vec::new(), next_id: 0 })
            },
        }
    }

    /// Counts a channel under construction and asks for its engine
    /// instance.
    fn count_in(lib: &mut Library) -> (step: CreateStep)
        requires
            old(lib)@ < usize::MAX,
        ensures
            step matches CreateStep::InitInstance(options, _) && options == fixed_options(),
            final(lib)@ == old(lib)@ + 1,
    {
        let _ = lib.acquire();
        CreateStep::InitInstance(
            ChannelOptions {
                flags: ARES_FLAG_STAYOPEN,
                timeout: TIMEOUT_MS,
                tries: TRIES,
                optmask: 8709,
            },
            Reservation { counted: true },
        )
    }

    /// Takes the channel down. The queries that never completed are handed
    /// back as cancelled, none of them delivered, and the channel leaves
    /// the count of `lib`.
    pub fn destroy(self, lib: &mut Library) -> (teardown: Teardown)
        requires
            old(lib)@ > 0,
        ensures
            teardown.cancelled@ == self@.pending,
            final(lib)@ == old(lib)@ - 1,
            teardown.last == destroys_state(old(lib)@),
    {
        let last = lib.release();
        Teardown { cancelled: self.pending, last }
    }

    /// The place of the query `id` among the pending ones, or their number.
    fn find(&self, id: u64) -> (at: usize)
        ensures
            at == position(self@.pending, id),
            at <= self@.pending.len(),
    {
        let mut i: usize = 0;
        proof {
            assert(self.pending@.subrange(0, self.pending@.len() as int) =~= self.pending@);
        }
        while i < self.pending.len() && self.pending[i].id != id
            invariant
                i <= self.pending@.len(),
                position(self.pending@, id) == i + position(
                    self.pending@.subrange(i as int, self.pending@.len() as int),
                    id,
                ),
            decreases self.pending@.len() - i,
        {
            proof {
                let rest = self.pending@.subrange(i as int, self.pending@.len() as int);
                assert(rest.subrange(1, rest.len() as int) =~= self.pending@.subrange(
                    i + 1,
                    self.pending@.len() as int,
                ));
            }
            i = i + 1;
        }
        i
    }

    /// Starts a query of the given kind for `name`.
    fn submit(&mut self, name: &str, kind: QueryType) -> (r: Result<QueryRequest, AresError>)
        requires
            old(self).wf(),
            valid_name(name.spec_bytes()) ==> old(self)@.next_id < u64::MAX,
        ensures
            final(self).wf(),
            final(self)@ == submitted(old(self)@, name.spec_bytes(), kind),
            r == requested(old(self)@, name.spec_bytes(), kind),
    {
        let bytes = name.as_bytes();
        let mut i: usize = 0;
        while i < bytes.len()
            invariant
                *self == *old(self),
                self.wf(),
                i <= bytes@.len(),
                bytes@ == name.spec_bytes(),
                forall|k: int| 0 <= k < i ==> bytes@[k] != 0u8,
            decreases bytes@.len() - i,
        {
            if bytes[i] == 0 {
                return Err(AresError::ValidationFailure);
            }
            i = i + 1;
        }
        let id = self.next_id;
        self.pending.push(PendingQuery { id, kind });
        self.next_id = id + 1;
        Ok(QueryRequest { id, dns_class: DnsClass::IN.code(), query_type: kind.code() })
    }

    /// Looks up the A record associated with `name`.
    ///
    /// A name that holds a zero byte is refused with `ValidationFailure`
    /// by the call itself and nothing is changed: no query is pending for
    /// it, so no completion will ever be called. Otherwise the query is
    /// pending under a new identifier, and the request for the engine is
    /// returned.
    pub fn query_a(&mut self, name: &str) -> (r: Result<QueryRequest, AresError>)
        requires
            old(self).wf(),
            valid_name(name.spec_bytes()) ==> old(self)@.next_id < u64::MAX,
        ensures
            final(self).wf(),
            final(self)@ == submitted(old(self)@, name.spec_bytes(), QueryType::A),
            r == requested(old(self)@, name.spec_bytes(), QueryType::A),
    {
        self.submit(name, QueryType::A)
    }

    /// Looks up the AAAA record associated with `name`.
    ///
    /// A name that holds a zero byte is refused with `ValidationFailure`
    /// and nothing is changed. Otherwise the query is pending under a new
    /// identifier, and the request for the engine is returned.
    pub fn query_aaaa(&mut self, name: &str) -> (r: Result<QueryRequest, AresError>)
        requires
            old(self).wf(),
            valid_name(name.spec_bytes()) ==> old(self)@.next_id < u64::MAX,
        ensures
            final(self).wf(),
            final(self)@ == submitted(old(self)@, name.spec_bytes(), QueryType::AAAA),
            r == requested(old(self)@, name.spec_bytes(), QueryType::AAAA),
    {
        self.submit(name, QueryType::AAAA)
    }

    /// Looks up the SOA record associated with `name`.
    ///
    /// A name that holds a zero byte is refused with `ValidationFailure`
    /// and nothing is changed. Otherwise the query is pending under a new
    /// identifier, and the request for the engine is returned.
    pub fn query_soa(&mut self, name: &str) -> (r: Result<QueryRequest, AresError>)
        requires
            old(self).wf(),
            valid_name(name.spec_bytes()) ==> old(self)@.next_id < u64::MAX,
        ensures
            final(self).wf(),
            final(self)@ == submitted(old(self)@, name.spec_bytes(), QueryType::SOA),
            r == requested(old(self)@, name.spec_bytes(), QueryType::SOA),
    {
        self.submit(name, QueryType::SOA)
    }

    /// Takes in one report of the engine.
    ///
    /// A completion of a pending query takes the query out of the pending
    /// ones and asks for its delivery. A completion of a query that is not
    /// pending asks for nothing: no query is delivered twice. A socket
    /// state change is handed on as it is.
    pub fn on_event(&mut self, event: EngineEvent) -> (n: Option<Notification>)
        requires
            old(self).wf(),
        ensures
            final(self).wf(),
            final(self)@.next_id == old(self)@.next_id,
            (final(self)@.pending, n) == react(old(self)@.pending, event),
    {
        match event {
            EngineEvent::Completed { id, status } => {
                let at = self.find(id);
                if at < self.pending.len() {
                    proof {
                        lemma_remove_keeps_distinct(self.pending@, at as int);
                    }
                    let query = self.pending.remove(at);
                    Some(Notification::Deliver { id, kind: query.kind, status })
                } else {
                    None
                }
            },
            EngineEvent::SocketState { fd, readable, writable } => Some(
                Notification::Socket { fd, readable, writable },
            ),
        }
    }

    /// Takes in what the engine reported while it handled input, output
    /// and timeouts for the descriptors it was given.
    ///
    /// The reports are taken in order. What comes back is what the caller
    /// has to do, in the same order: a delivery for each completion of a
    /// query that was still pending, and every socket state change as it
    /// was reported.
    pub fn process_fd(&mut self, events: &Vec<EngineEvent>) -> (out: Vec<Notification>)
        requires
            old(self).wf(),
        ensures
            final(self).wf(),
            final(self)@.next_id == old(self)@.next_id,
            (final(self)@.pending, out@) == drive(old(self)@.pending, events@),
    {
        let mut out: Vec<Notification> = Vec::new();
        let mut i: usize = 0;
        while i < events.len()
            invariant
                i <= events@.len(),
                self.wf(),
                self@.next_id == old(self)@.next_id,
                (self@.pending, out@) == drive(old(self)@.pending, events@.take(i as int)),
            decreases events@.len() - i,
        {
            proof {
                assert(events@.take(i + 1).drop_last() =~= events@.take(i as int));
            }
            match self.on_event(events[i]) {
                Some(n) => {
                    out.push(n);
                },
                None => {},
            }
            i = i + 1;
        }
        proof {
            assert(events@.take(i as int) =~= events@);
        }
        out
    }
}

/// A query that is made and then completes is delivered exactly once. On
/// a sound channel, after a query with a name that can be handed to the
/// engine, one completion for its identifier asks for one delivery, of
/// that query with the status of the completion, and leaves pending what
/// was pending before the query.
pub proof fn lemma_query_then_completion(
    state: ChannelState,
    name: Seq<u8>,
    kind: QueryType,
    status: i32,
)
    requires
        sound(state),
        valid_name(name),
    ensures
        requested(state, name, kind) is Ok,
        drive(
            submitted(state, name, kind).pending,
            seq![EngineEvent::Completed { id: state.next_id, status }],
        ) == (state.pending, seq![Notification::Deliver { id: state.next_id, kind, status }]),
{
    let id = state.next_id;
    let after = submitted(state, name, kind).pending;
    let events = seq![EngineEvent::Completed { id, status }];
    lemma_position(after, id);
    assert(after[state.pending.len() as int].id == id);
    assert(is_pending(after, id));
    let at = position(after, id);
    if at < state.pending.len() {
        assert(after[at] == state.pending[at]);
    }
    assert(at == state.pending.len());
    assert(after.remove(at) =~= state.pending);
    assert(events.drop_last() =~= Seq::<EngineEvent>::empty());
    assert(drive(after, events.drop_last()) == (after, Seq::<Notification>::empty()));
    assert(Seq::<Notification>::empty().push(Notification::Deliver { id, kind, status })
        =~= seq![Notification::Deliver { id, kind, status }]);
}

/// A query that is not pending is never delivered. So a name that was
/// refused, which left nothing pending, has no delivery in any later run
/// of events, and neither has a query that was delivered before.
pub proof fn lemma_not_pending_not_delivered(
    pending: Seq<PendingQuery>,
    events: Seq<EngineEvent>,
    id: u64,
)
    requires
        distinct_ids(pending),
        !is_pending(pending, id),
    ensures
        !delivered_ids(drive(pending, events).1).contains(id),
        !is_pending(drive(pending, events).0, id),
{
    lemma_delivered_once(pending, events);
}

/// The identifiers of the queries that a run of notifications delivers, in
/// order.
pub open spec fn delivered_ids(out: Seq<Notification>) -> Seq<u64>
    decreases out.len(),
{
    if out.len() == 0 {
        Seq::empty()
    } else {
        let before = delivered_ids(out.drop_last());
        match out.last() {
            Notification::Deliver { id, .. } => before.push(id),
            Notification::Socket { .. } => before,
        }
    }
}

/// The socket state changes that a run of notifications hands on, in order.
pub open spec fn socket_notices(out: Seq<Notification>) -> Seq<(i32, bool, bool)>
    decreases out.len(),
{
    if out.len() == 0 {
        Seq::empty()
    } else {
        let before = socket_notices(out.drop_last());
        match out.last() {
            Notification::Deliver { .. } => before,
            Notification::Socket { fd, readable, writable } => before.push(
                (fd, readable, writable),
            ),
        }
    }
}

/// The socket state changes that the engine reports in a run of events, in
/// order.
pub open spec fn socket_reports(events: Seq<EngineEvent>) -> Seq<(i32, bool, bool)>
    decreases events.len(),
{
    if events.len() == 0 {
        Seq::empty()
    } else {
        let before = socket_reports(events.drop_last());
        match events.last() {
            EngineEvent::Completed { .. } => before,
            EngineEvent::SocketState { fd, readable, writable } => before.push(
                (fd, readable, writable),
            ),
        }
    }
}

/// Every socket state change that the engine reports is handed on exactly
/// as it came and exactly as often as it came, in the order of the reports:
/// nothing is held back, merged or added, whatever queries are pending.
pub proof fn lemma_socket_states_forwarded(pending: Seq<PendingQuery>, events: Seq<EngineEvent>)
    ensures
        socket_notices(drive(pending, events).1) == socket_reports(events),
    decreases events.len(),
{
    if events.len() > 0 {
        lemma_socket_states_forwarded(pending, events.drop_last());
        let before = drive(pending, events.drop_last());
        let now = react(before.0, events.last());
        match now.1 {
            Some(n) => {
                assert(before.1.push(n).drop_last() =~= before.1);
            },
            None => {},
        }
    }
}

/// Over a whole run of events no query is delivered twice. Each delivery
/// is of a query that was pending before the run and is pending no more
/// after it; a query that was pending and is not delivered is still
/// pending; and none comes into being.
pub proof fn lemma_delivered_once(pending: Seq<PendingQuery>, events: Seq<EngineEvent>)
    requires
        distinct_ids(pending),
    ensures
        distinct_ids(drive(pending, events).0),
        delivered_ids(drive(pending, events).1).no_duplicates(),
        drive(pending, events).0.len() + delivered_ids(drive(pending, events).1).len()
            == pending.len(),
        forall|id: u64| #[trigger]
            delivered_ids(drive(pending, events).1).contains(id) ==> is_pending(pending, id)
                && !is_pending(drive(pending, events).0, id),
        forall|id: u64| #[trigger]
            is_pending(drive(pending, events).0, id) <==> is_pending(pending, id)
                && !delivered_ids(drive(pending, events).1).contains(id),
    decreases events.len(),
{
    if events.len() == 0 {
        assert(delivered_ids(Seq::<Notification>::empty()) =~= Seq::<u64>::empty());
    } else {
        lemma_delivered_once(pending, events.drop_last());
        let before = drive(pending, events.drop_last());
        let now = react(before.0, events.last());
        match events.last() {
            EngineEvent::Completed { id, status } => {
                let at = position(before.0, id);
                lemma_position(before.0, id);
                if at < before.0.len() {
                    let n = Notification::Deliver { id, kind: before.0[at].kind, status };
                    let out = before.1.push(n);
                    assert(out.drop_last() =~= before.1);
                    let ids = delivered_ids(before.1);
                    assert(delivered_ids(out) == ids.push(id));
                    lemma_remove_keeps_distinct(before.0, at);
                    lemma_remove_pending(before.0, at);
                    assert(!ids.contains(id));
                    assert forall|x: u64| #[trigger] ids.push(id).contains(x) <==> ids.contains(x)
                        || x == id by {
                        if ids.contains(x) {
                            let k = choose|k: int| 0 <= k < ids.len() && ids[k] == x;
                            assert(ids.push(id)[k] == x);
                        }
                        if x == id {
                            assert(ids.push(id)[ids.len() as int] == x);
                        }
                    }
                    assert(ids.push(id).no_duplicates()) by {
                        assert forall|i: int, j: int|
                            0 <= i < ids.push(id).len() && 0 <= j < ids.push(id).len() && i
                                != j implies ids.push(id)[i] != ids.push(id)[j] by {
                            if i < ids.len() {
                                assert(ids.contains(ids[i]));
                            }
                            if j < ids.len() {
                                assert(ids.contains(ids[j]));
                            }
                        }
                    }
                }
            },
            EngineEvent::SocketState { fd, readable, writable } => {
                let n = Notification::Socket { fd, readable, writable };
                assert(before.1.push(n).drop_last() =~= before.1);
            },
        }
    }
}

/// After one query is taken out of pending ones with distinct identifiers,
/// the pending queries are the others.
pub proof fn lemma_remove_pending(pending: Seq<PendingQuery>, at: int)
    requires
        distinct_ids(pending),
        0 <= at < pending.len(),
    ensures
        forall|id: u64| #[trigger]
            is_pending(pending.remove(at), id) <==> is_pending(pending, id) && id
                != pending[at].id,
{
    let after = pending.remove(at);
    lemma_remove_keeps_distinct(pending, at);
    assert forall|id: u64| #[trigger]
        is_pending(after, id) <==> is_pending(pending, id) && id != pending[at].id by {
        if is_pending(after, id) {
            let k = choose|k: int| 0 <= k < after.len() && after[k].id == id;
            let pk = if k < at {
                k
            } else {
                k + 1
            };
            assert(after[k] == pending[pk]);
        }
        if is_pending(pending, id) && id != pending[at].id {
            let k = choose|k: int| 0 <= k < pending.len() && pending[k].id == id;
            let ak = if k < at {
                k
            } else {
                k - 1
            };
            assert(after[ak] == pending[k]);
        }
    }
}

/// Taking one query out leaves the others as they were: still distinct,
/// and each of them one that was there before.
pub proof fn lemma_remove_keeps_distinct(pending: Seq<PendingQuery>, at: int)
    requires
        0 <= at < pending.len(),
    ensures
        distinct_ids(pending) ==> distinct_ids(pending.remove(at)),
        forall|k: int|
            0 <= k < pending.remove(at).len() ==> #[trigger] pending.remove(at)[k] == pending[if k
                < at {
                k
            } else {
                k + 1
            }],
{
    let after = pending.remove(at);
    assert forall|k: int| 0 <= k < after.len() implies #[trigger] after[k] == pending[if k < at {
        k
    } else {
        k + 1
    }] by {}
    if distinct_ids(pending) {
        assert forall|i: int, j: int|
            0 <= i < after.len() && 0 <= j < after.len() && i != j implies after[i].id
            != after[j].id by {
            let pi = if i < at {
                i
            } else {
                i + 1
            };
            let pj = if j < at {
                j
            } else {
                j + 1
            };
            assert(after[i] == pending[pi]);
            assert(after[j] == pending[pj]);
        }
    }
}

/// The place of a query is within the pending ones exactly when the query
/// is pending, and then it is the first place that holds its identifier.
pub proof fn lemma_position(pending: Seq<PendingQuery>, id: u64)
    ensures
        0 <= position(pending, id) <= pending.len(),
        position(pending, id) < pending.len() <==> is_pending(pending, id),
        position(pending, id) < pending.len() ==> pending[position(pending, id)].id == id,
        forall|k: int| 0 <= k < position(pending, id) ==> pending[k].id != id,
    decreases pending.len(),
{
    if pending.len() > 0 && pending[0].id != id {
        let rest = pending.subrange(1, pending.len() as int);
        lemma_position(rest, id);
        if position(rest, id) < rest.len() {
            assert(pending[position(rest, id) + 1] == rest[position(rest, id)]);
        }
        if is_pending(pending, id) {
            let i = choose|i: int| 0 <= i < pending.len() && pending[i].id == id;
            assert(rest[i - 1].id == id);
        }
        assert forall|k: int| 0 <= k < position(pending, id) implies pending[k].id != id by {
            if k > 0 {
                assert(pending[k] == rest[k - 1]);
            }
        }
    }
}

} // verus!
