//! Service lifecycle and dispatch.
//!
//! A service owns its state and handles one ABI message at a time. The
//! registry keeps services under unique names, starts and stops them
//! together, and routes each request to the service it names.
use vstd::prelude::*;
use crate::sdk::error::{Error, ErrorCode, err};
use crate::sdk::ipc::Message;
use crate::sdk::ipc::message_type;

verus! {

/// A Rootware userspace service.
///
/// A service's name is stable: none of its operations changes it. Each
/// service says, through its `*_outcome` specifications, how each operation
/// may leave it and what it may return.
pub trait Service {
    /// The name the service registers and is dispatched under.
    spec fn service_name(&self) -> Seq<char>;

    /// Whether `self` is a state that `init` may leave `before` in, returning `r`.
    spec fn init_outcome(&self, before: &Self, r: Result<(), Error>) -> bool;

    /// Whether `self` is a state that `handle` of `request` may leave `before`
    /// in, returning `r`.
    spec fn handle_outcome(&self, before: &Self, request: Message, r: Result<Option<Message>, Error>) -> bool;

    /// Whether `self` is a state that `stop` may leave `before` in.
    spec fn stop_outcome(&self, before: &Self) -> bool;

    /// Stable service name used during registration and dispatch.
    fn name(&self) -> (r: &str)
        ensures
            r@ == self.service_name(),
    ;

    /// Initializes service state before it accepts messages.
    fn init(&mut self) -> (r: Result<(), Error>)
        ensures
            final(self).service_name() == old(self).service_name(),
            final(self).init_outcome(old(self), r),
    ;

    /// Handles one request and optionally returns a response message.
    fn handle(&mut self, request: &Message) -> (r: Result<Option<Message>, Error>)
        ensures
            final(self).service_name() == old(self).service_name(),
            final(self).handle_outcome(old(self), *request, r),
    ;

    /// Stops the service and releases service-owned state.
    fn stop(&mut self)
        ensures
            final(self).service_name() == old(self).service_name(),
            final(self).stop_outcome(old(self)),
    ;
}

/// Whether two names are the same text.
fn same_name(a: &str, b: &str) -> (r: bool)
    ensures
        r == (a@ == b@),
{
    let a = a.to_owned();
    let b = b.to_owned();
    a == b
}

/// The response an echo service gives to `request`: back to its sender,
/// with the same capability and payload.
pub open spec fn echo_response(request: Message) -> Message {
    Message {
        sender: request.receiver,
        receiver: request.sender,
        message_type: message_type::RESPONSE,
        capability: request.capability,
        payload: request.payload,
    }
}

/// Minimal service that echoes requests back to their sender.
#[derive(Debug)]
pub struct EchoService {
    initialized: bool,
}

impl EchoService {
    /// Whether the service has been initialized and not stopped since.
    pub closed spec fn is_initialized(&self) -> bool {
        self.initialized
    }

    /// Creates an uninitialized echo service.
    pub fn new() -> (s: Self)
        ensures
            !s.is_initialized(),
    {
        EchoService { initialized: false }
    }
}

impl Default for EchoService {
    fn default() -> (s: Self)
        ensures
            !s.is_initialized(),
    {
        EchoService::new()
    }
}

impl Service for EchoService {
    open spec fn service_name(&self) -> Seq<char> {
        "echo"@
    }

    /// Initialization always succeeds and leaves the service initialized.
    open spec fn init_outcome(&self, before: &Self, r: Result<(), Error>) -> bool {
        self.is_initialized() && r is Ok
    }

    /// An initialized service answers a request that names its sender and
    /// receiver with the echo response; anything else is refused.
    open spec fn handle_outcome(&self, before: &Self, request: Message, r: Result<Option<Message>, Error>) -> bool {
        &&& self.is_initialized() == before.is_initialized()
        &&& r == if !before.is_initialized() || request.sender == 0 || request.receiver == 0 {
            Err::<Option<Message>, Error>(err(ErrorCode::InvalidArgument))
        } else {
            Ok::<Option<Message>, Error>(Some(echo_response(request)))
        }
    }

    /// Stopping leaves the service uninitialized.
    open spec fn stop_outcome(&self, before: &Self) -> bool {
        !self.is_initialized()
    }

    fn name(&self) -> (r: &str) {
        "echo"
    }

    fn init(&mut self) -> (r: Result<(), Error>) {
        self.initialized = true;
        Ok(())
    }

    fn handle(&mut self, request: &Message) -> (r: Result<Option<Message>, Error>)
        ensures
            old(self).is_initialized() && request.sender != 0 && request.receiver != 0 ==> {
                &&& r is Ok
                &&& r->Ok_0 is Some
                &&& r->Ok_0->Some_0.payload == request.payload
                &&& r->Ok_0->Some_0.sender == request.receiver
                &&& r->Ok_0->Some_0.receiver == request.sender
                &&& r->Ok_0->Some_0.message_type == message_type::RESPONSE
                &&& r->Ok_0->Some_0.capability == request.capability
            },
    {
        if !self.initialized || request.sender == 0 || request.receiver == 0 {
            return Err(Error::new(ErrorCode::InvalidArgument));
        }
        Ok(
            Some(
                Message::new(
                    request.receiver,
                    request.sender,
                    message_type::RESPONSE,
                    request.capability,
                    request.payload,
                ),
            ),
        )
    }

    fn stop(&mut self) {
        self.initialized = false;
    }
}

/// Lifecycle state of a registry.
#[derive(Clone, Copy, Debug, PartialEq, Eq, Structural)]
pub enum ServiceState {
    /// The registry has not initialized its services.
    Stopped,
    /// All registered services have been initialized.
    Running,
}

/// Whether no two of `names` are equal.
pub open spec fn distinct_names(names: Seq<Seq<char>>) -> bool {
    forall|i: int, j: int| 0 <= i < names.len() && 0 <= j < names.len() && i != j ==> names[i] != names[j]
}

/// The names of a sequence of services, in order.
pub open spec fn names_of<S: Service>(services: Seq<Box<S>>) -> Seq<Seq<char>> {
    services.map_values(|s: Box<S>| s.service_name())
}

/// Whether `i` is the position of the first of `names` equal to `name`.
pub open spec fn first_named(names: Seq<Seq<char>>, name: Seq<char>, i: int) -> bool {
    &&& 0 <= i < names.len()
    &&& names[i] == name
    &&& forall|j: int| 0 <= j < i ==> names[j] != name
}

/// Appending a service appends its name.
proof fn lemma_names_push<S: Service>(services: Seq<Box<S>>, service: Box<S>)
    ensures
        names_of(services.push(service)) == names_of(services).push(service.service_name()),
{
    assert(names_of(services.push(service)) =~= names_of(services).push(service.service_name()));
}

/// Appending a name not yet present keeps names distinct.
proof fn lemma_distinct_push(names: Seq<Seq<char>>, name: Seq<char>)
    requires
        distinct_names(names),
        !names.contains(name),
    ensures
        distinct_names(names.push(name)),
{
    assert forall|i: int, j: int|
        0 <= i < names.push(name).len() && 0 <= j < names.push(name).len() && i != j implies
            names.push(name)[i] != names.push(name)[j] by {
        if i < names.len() && j < names.len() {
        } else if i < names.len() {
            assert(names.contains(names[i]));
        } else {
            assert(names.contains(names[j]));
        }
    }
}

/// Service registry and lifecycle manager.
///
/// Services are kept in registration order under distinct names.
pub struct ServiceRegistry<S: Service> {
    services: Vec<Box<S>>,
    state: ServiceState,
}

impl<S: Service> ServiceRegistry<S> {
    /// The registered services, in registration order.
    pub closed spec fn services(&self) -> Seq<Box<S>> {
        self.services@
    }

    /// The names of the registered services, in registration order.
    pub open spec fn names(&self) -> Seq<Seq<char>> {
        names_of(self.services())
    }

    /// The lifecycle state.
    pub closed spec fn lifecycle(&self) -> ServiceState {
        self.state
    }

    #[verifier::type_invariant]
    closed spec fn unique_names(&self) -> bool {
        distinct_names(names_of(self.services@))
    }

    /// Creates an empty, stopped registry.
    pub fn new() -> (r: Self)
        ensures
            r.services() == Seq::<Box<S>>::empty(),
            r.lifecycle() == ServiceState::Stopped,
            distinct_names(r.names()),
    {
        let services: Vec<Box<S>> = Vec::new();
        proof {
            assert(names_of(services@) =~= Seq::<Seq<char>>::empty());
        }
        ServiceRegistry { services, state: ServiceState::Stopped }
    }

    /// Moves the registry's contents out, leaving an empty, stopped one.
    fn take(&mut self) -> (r: Self)
        ensures
            r == *old(self),
            final(self).services() == Seq::<Box<S>>::empty(),
            final(self).lifecycle() == ServiceState::Stopped,
    {
        let mut r = ServiceRegistry::new();
        std::mem::swap(self, &mut r);
        r
    }

    /// Position of the first registered service named `name`, if any.
    fn position(&self, name: &str) -> (r: Option<usize>)
        ensures
            match r {
                Some(i) => first_named(self.names(), name@, i as int),
                None => !self.names().contains(name@),
            },
    {
        let mut i: usize = 0;
        while i < self.services.len()
            invariant
                0 <= i <= self.services@.len(),
                forall|j: int| 0 <= j < i ==> self.names()[j] != name@,
            decreases self.services@.len() - i,
        {
            if same_name(self.services[i].name(), name) {
                return Some(i);
            }
            i += 1;
        }
        proof {
            assert(!self.names().contains(name@));
        }
        None
    }

    /// Registers a service before the registry is started. Refused while
    /// running, or when a service of the same name is registered.
    pub fn register(&mut self, service: Box<S>) -> (r: Result<(), Error>)
        ensures
            final(self).lifecycle() == old(self).lifecycle(),
            old(self).lifecycle() == ServiceState::Running || old(self).names().contains(
                service.service_name(),
            ) ==> r == Err::<(), Error>(err(ErrorCode::InvalidArgument)) && final(self).services()
                == old(self).services(),
            !(old(self).lifecycle() == ServiceState::Running || old(self).names().contains(
                service.service_name(),
            )) ==> r is Ok && final(self).services() == old(self).services().push(service),
            distinct_names(final(self).names()),
    {
        proof { use_type_invariant(&*self); }
        if self.state == ServiceState::Running {
            return Err(Error::new(ErrorCode::InvalidArgument));
        }
        if self.position(service.name()).is_some() {
            return Err(Error::new(ErrorCode::InvalidArgument));
        }
        proof {
            lemma_names_push(self.services@, service);
            lemma_distinct_push(self.names(), service.service_name());
        }
        let ServiceRegistry { mut services, state } = self.take();
        services.push(service);
        *self = ServiceRegistry { services, state };
        Ok(())
    }

    /// What `start` does: refused while running; else `init` runs on each
    /// service in registration order up to the first that fails. When all
    /// succeed the registry runs; when one fails its error is returned, the
    /// services after it are untouched and the registry stays stopped.
    pub open spec fn start_outcome(self, post: Self, r: Result<(), Error>) -> bool {
        let before = self.services();
        let after = post.services();
        &&& post.names() == self.names()
        &&& after.len() == before.len()
        &&& if self.lifecycle() == ServiceState::Running {
            &&& r == Err::<(), Error>(err(ErrorCode::InvalidArgument))
            &&& after == before
            &&& post.lifecycle() == ServiceState::Running
        } else if r is Ok {
            &&& post.lifecycle() == ServiceState::Running
            &&& forall|i: int| 0 <= i < before.len() ==> (#[trigger] after[i]).init_outcome(&before[i], Ok(()))
        } else {
            &&& post.lifecycle() == ServiceState::Stopped
            &&& exists|k: int|
                #![trigger after[k]]
                0 <= k < before.len() && after[k].init_outcome(&before[k], r) && (forall|i: int|
                    0 <= i < k ==> (#[trigger] after[i]).init_outcome(&before[i], Ok(()))) && (forall|i: int|
                    k < i < before.len() ==> #[trigger] after[i] == before[i])
        }
    }

    /// What `stop` does: when running, `stop` runs on each service in
    /// registration order and the registry stops; when stopped, nothing
    /// changes.
    pub open spec fn stop_outcome(self, post: Self) -> bool {
        let before = self.services();
        let after = post.services();
        &&& post.lifecycle() == ServiceState::Stopped
        &&& post.names() == self.names()
        &&& after.len() == before.len()
        &&& if self.lifecycle() == ServiceState::Running {
            forall|i: int| 0 <= i < before.len() ==> (#[trigger] after[i]).stop_outcome(&before[i])
        } else {
            after == before
        }
    }

    /// What `dispatch` does: refused unless running and some service has
    /// `name`; else the first service with that name handles `request`, its
    /// result is returned, and no other service changes.
    pub open spec fn dispatch_outcome(
        self,
        name: Seq<char>,
        request: Message,
        post: Self,
        r: Result<Option<Message>, Error>,
    ) -> bool {
        let before = self.services();
        let after = post.services();
        &&& post.names() == self.names()
        &&& post.lifecycle() == self.lifecycle()
        &&& after.len() == before.len()
        &&& if self.lifecycle() != ServiceState::Running {
            r == Err::<Option<Message>, Error>(err(ErrorCode::Transport)) && after == before
        } else if !self.names().contains(name) {
            r == Err::<Option<Message>, Error>(err(ErrorCode::NotFound)) && after == before
        } else {
            exists|i: int|
                #![trigger after[i]]
                first_named(self.names(), name, i) && after[i].handle_outcome(&before[i], request, r) && (
                forall|j: int| 0 <= j < before.len() && j != i ==> #[trigger] after[j] == before[j])
        }
    }

    /// Initializes all registered services, in registration order, then
    /// runs. Refused when already running; stops at the first service whose
    /// initialization fails, returning its error and staying stopped.
    pub fn start(&mut self) -> (r: Result<(), Error>)
        ensures
            old(self).start_outcome(*final(self), r),
            old(self).lifecycle() == ServiceState::Stopped && old(self).services().len() == 0 ==> r is Ok,
    {
        proof { use_type_invariant(&*self); }
        if self.state == ServiceState::Running {
            return Err(Error::new(ErrorCode::InvalidArgument));
        }
        let ghost names0 = self.names();
        let ghost orig = self.services();
        let ServiceRegistry { mut services, state } = self.take();
        let mut i: usize = 0;
        while i < services.len()
            invariant
                0 <= i <= services@.len(),
                services@.len() == orig.len(),
                names_of(services@) == names0,
                names0 == old(self).names(),
                orig == old(self).services(),
                distinct_names(names0),
                state == ServiceState::Stopped,
                old(self).lifecycle() == ServiceState::Stopped,
                forall|j: int| 0 <= j < i ==> (#[trigger] services@[j]).init_outcome(&orig[j], Ok(())),
                forall|j: int| i <= j < orig.len() ==> #[trigger] services@[j] == orig[j],
            decreases services@.len() - i,
        {
            let ghost before = services@;
            let result = services[i].init();
            proof {
                assert(names_of(services@) =~= names_of(before));
            }
            match result {
                Err(e) => {
                    proof {
                        assert(result == Err::<(), Error>(e));
                        assert(services@[i as int].init_outcome(&orig[i as int], Err::<(), Error>(e)));
                        assert forall|j: int| 0 <= j < i implies (#[trigger] services@[j]).init_outcome(&orig[j], Ok(())) by {
                            assert(services@[j] == before[j]);
                        }
                        assert forall|j: int| i < j < orig.len() implies #[trigger] services@[j] == orig[j] by {
                            assert(services@[j] == before[j]);
                        }
                    }
                    *self = ServiceRegistry { services, state };
                    proof {
                        let after = self.services();
                        let k = i as int;
                        assert(after[k].init_outcome(&orig[k], Err::<(), Error>(e)));
                        assert(0 <= k < orig.len() && after[k].init_outcome(&orig[k], Err::<(), Error>(e)) && (forall|j: int|
                            0 <= j < k ==> (#[trigger] after[j]).init_outcome(&orig[j], Ok(()))) && (forall|j: int|
                            k < j < orig.len() ==> #[trigger] after[j] == orig[j]));
                    }
                    return Err(e);
                },
                Ok(u) => {
                    assert(result == Ok::<(), Error>(u));
                    assert(u == ());
                },
            }
            proof {
                assert(result == Ok::<(), Error>(()));
                assert(services@[i as int].init_outcome(&orig[i as int], Ok(())));
                assert forall|j: int| 0 <= j < i + 1 implies (#[trigger] services@[j]).init_outcome(&orig[j], Ok(())) by {
                    if j < i {
                        assert(services@[j] == before[j]);
                    }
                }
            }
            i += 1;
        }
        *self = ServiceRegistry { services, state: ServiceState::Running };
        Ok(())
    }

    /// Stops all services, in registration order, and returns to the
    /// stopped state; does nothing when already stopped.
    pub fn stop(&mut self)
        ensures
            old(self).stop_outcome(*final(self)),
    {
        proof { use_type_invariant(&*self); }
        if self.state == ServiceState::Running {
            let ghost names0 = self.names();
            let ghost orig = self.services();
            let ServiceRegistry { mut services, state } = self.take();
            let mut i: usize = 0;
            while i < services.len()
                invariant
                    0 <= i <= services@.len(),
                    services@.len() == orig.len(),
                    names_of(services@) == names0,
                    names0 == old(self).names(),
                    orig == old(self).services(),
                    distinct_names(names0),
                    forall|j: int| 0 <= j < i ==> (#[trigger] services@[j]).stop_outcome(&orig[j]),
                    forall|j: int| i <= j < orig.len() ==> #[trigger] services@[j] == orig[j],
                decreases services@.len() - i,
            {
                let ghost before = services@;
                services[i].stop();
                proof {
                    assert(names_of(services@) =~= names_of(before));
                }
                i += 1;
            }
            *self = ServiceRegistry { services, state: ServiceState::Stopped };
        }
    }

    /// Returns the current lifecycle state.
    pub fn state(&self) -> (r: ServiceState)
        ensures
            r == self.lifecycle(),
    {
        self.state
    }

    /// Dispatches a message to the registered service named `name`, and
    /// returns what that service's `handle` returns. Refused when the
    /// registry is not running or no service has that name.
    pub fn dispatch(&mut self, name: &str, request: &Message) -> (r: Result<
        Option<Message>,
        Error,
    >)
        ensures
            old(self).dispatch_outcome(name@, *request, *final(self), r),
    {
        proof { use_type_invariant(&*self); }
        if self.state != ServiceState::Running {
            return Err(Error::new(ErrorCode::Transport));
        }
        match self.position(name) {
            None => Err(Error::new(ErrorCode::NotFound)),
            Some(i) => {
                let ghost orig = self.services();
                let ServiceRegistry { mut services, state } = self.take();
                let ghost before = services@;
                let result = services[i].handle(request);
                proof {
                    assert(names_of(services@) =~= names_of(before));
                    assert(services@[i as int].handle_outcome(&orig[i as int], *request, result));
                }
                *self = ServiceRegistry { services, state };
                result
            },
        }
    }
}

impl<S: Service> Default for ServiceRegistry<S> {
    fn default() -> (r: Self)
        ensures
            r.services() == Seq::<Box<S>>::empty(),
            r.lifecycle() == ServiceState::Stopped,
    {
        ServiceRegistry::new()
    }
}

/// A stopped registry of echo services always starts: every echo service's
/// initialization succeeds, so `start` returns `Ok` and every service is left
/// initialized.
pub proof fn law_echo_registry_starts(
    before: ServiceRegistry<EchoService>,
    after: ServiceRegistry<EchoService>,
    r: Result<(), Error>,
)
    requires
        before.lifecycle() == ServiceState::Stopped,
        before.start_outcome(after, r),
    ensures
        r is Ok,
        after.lifecycle() == ServiceState::Running,
        forall|i: int| 0 <= i < after.services().len() ==> (#[trigger] after.services()[i]).is_initialized(),
{
    if r is Err {
        let k = choose|k: int|
            #![trigger after.services()[k]]
            0 <= k < before.services().len() && after.services()[k].init_outcome(&before.services()[k], r)
                && (forall|i: int| 0 <= i < k ==> (#[trigger] after.services()[i]).init_outcome(&before.services()[i], Ok(())))
                && (forall|i: int| k < i < before.services().len() ==> #[trigger] after.services()[i] == before.services()[i]);
        assert(after.services()[k].init_outcome(&before.services()[k], r));
    }
    assert forall|i: int| 0 <= i < after.services().len() implies (#[trigger] after.services()[i]).is_initialized() by {
        assert(after.services()[i].init_outcome(&before.services()[i], Ok(())));
    }
}

/// A running registry whose echo services are initialized answers a request
/// that names its sender and receiver, dispatched to an echo service, with
/// the echo response.
pub proof fn law_echo_dispatch_answers(
    before: ServiceRegistry<EchoService>,
    request: Message,
    after: ServiceRegistry<EchoService>,
    r: Result<Option<Message>, Error>,
)
    requires
        before.lifecycle() == ServiceState::Running,
        forall|i: int| 0 <= i < before.services().len() ==> (#[trigger] before.services()[i]).is_initialized(),
        before.names().contains("echo"@),
        request.sender != 0,
        request.receiver != 0,
        before.dispatch_outcome("echo"@, request, after, r),
    ensures
        r == Ok::<Option<Message>, Error>(Some(echo_response(request))),
        r->Ok_0->Some_0.payload == request.payload,
        r->Ok_0->Some_0.sender == request.receiver,
        r->Ok_0->Some_0.receiver == request.sender,
        r->Ok_0->Some_0.message_type == message_type::RESPONSE,
        r->Ok_0->Some_0.capability == request.capability,
{
    let i = choose|i: int|
        #![trigger after.services()[i]]
        first_named(before.names(), "echo"@, i) && after.services()[i].handle_outcome(&before.services()[i], request, r)
            && (forall|j: int| 0 <= j < before.services().len() && j != i ==> #[trigger] after.services()[j] == before.services()[j]);
    assert(before.services()[i].is_initialized());
}

/// Stopping twice does what stopping once does: the second stop changes
/// nothing.
pub proof fn law_stop_idempotent<S: Service>(
    first: ServiceRegistry<S>,
    second: ServiceRegistry<S>,
    third: ServiceRegistry<S>,
)
    requires
        first.stop_outcome(second),
        second.stop_outcome(third),
    ensures
        third.services() == second.services(),
        third.lifecycle() == ServiceState::Stopped,
{
}

/// An initialized echo service answers a request that names its sender and
/// receiver with a response back to the sender, from the receiver, of type
/// response, carrying the request's capability and, byte for byte, its
/// payload; the service stays initialized.
pub proof fn law_echo_answers_with_request_payload(
    before: EchoService,
    after: EchoService,
    request: Message,
    r: Result<Option<Message>, Error>,
)
    requires
        after.handle_outcome(&before, request, r),
        before.is_initialized(),
        request.sender != 0,
        request.receiver != 0,
    ensures
        r is Ok,
        r->Ok_0 is Some,
        r->Ok_0->Some_0.payload == request.payload,
        r->Ok_0->Some_0.payload@ == request.payload@,
        r->Ok_0->Some_0.sender == request.receiver,
        r->Ok_0->Some_0.receiver == request.sender,
        r->Ok_0->Some_0.message_type == message_type::RESPONSE,
        r->Ok_0->Some_0.capability == request.capability,
        after.is_initialized(),
{
}

/// An echo service that is not initialized, or a request missing its sender
/// or receiver, is refused with an invalid argument.
pub proof fn law_echo_refuses(
    before: EchoService,
    after: EchoService,
    request: Message,
    r: Result<Option<Message>, Error>,
)
    requires
        after.handle_outcome(&before, request, r),
        !before.is_initialized() || request.sender == 0 || request.receiver == 0,
    ensures
        r == Err::<Option<Message>, Error>(Error { code: ErrorCode::InvalidArgument }),
{
}

} // verus!
