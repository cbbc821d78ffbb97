use vstd::prelude::*;

use crate::config::BasePathBehaviour;

verus! {

/// The one-time lifecycle of the dispatch handle: it starts as the
/// application definition and transitions exactly once, under exclusive
/// access, to the built handle. The transition is never reversed.
pub enum ClientLifecycle<A, C> {
    /// The application as defined, before any invocation reached it.
    Uninitialized(A),
    /// The dispatch handle, stable for the remainder of the process.
    Ready(C),
}

impl<A, C> ClientLifecycle<A, C> {
    /// The initial state, holding the application definition.
    pub fn new(app: A) -> (r: Self)
        ensures
            r == ClientLifecycle::<A, C>::Uninitialized(app),
    {
        ClientLifecycle::Uninitialized(app)
    }

    pub fn is_ready(&self) -> (r: bool)
        ensures
            r == (self is Ready),
    {
        match self {
            ClientLifecycle::Ready(_) => true,
            ClientLifecycle::Uninitialized(_) => false,
        }
    }

    /// The handle once the transition has completed, and nothing before.
    pub fn client(&self) -> (r: Option<&C>)
        ensures
            self is Ready <==> (r matches Some(c) && *c == self->Ready_0),
            self is Uninitialized <==> r is None,
    {
        match self {
            ClientLifecycle::Ready(c) => Some(c),
            ClientLifecycle::Uninitialized(_) => None,
        }
    }

    /// Takes the application definition out to build the handle from it;
    /// callers hold exclusive access and must store `Ready` before letting
    /// anyone else look.
    pub fn take_app(self) -> (a: A)
        requires
            self is Uninitialized,
        ensures
            a == self->Uninitialized_0,
    {
        match self {
            ClientLifecycle::Uninitialized(a) => a,
            ClientLifecycle::Ready(_) => unreached(),
        }
    }

    /// Completes the one-time transition.
    pub fn install(&mut self, client: C)
        requires
            *old(self) is Uninitialized,
        ensures
            *final(self) == ClientLifecycle::<A, C>::Ready(client),
    {
        *self = ClientLifecycle::Ready(client);
    }
}

/// Whether the transition must remount the application's routes under the
/// base path resolved from the triggering (first) request.
pub fn needs_remount(behaviour: BasePathBehaviour, base_path: &str) -> (r: bool)
    ensures
        r == (behaviour is RemountAndInclude && base_path@.len() != 0),
{
    matches!(behaviour, BasePathBehaviour::RemountAndInclude) && !base_path.is_empty()
}

/// One invocation's step against the lifecycle cell, taken under exclusive
/// access: a `Ready` state hands its handle out unchanged; an
/// `Uninitialized` state transitions to `Ready` around whatever handle that
/// single build produced.
pub open spec fn lifecycle_step<A, C>(
    pre: ClientLifecycle<A, C>,
    post: ClientLifecycle<A, C>,
    out: C,
) -> bool {
    match pre {
        ClientLifecycle::Ready(c) => post == pre && out == c,
        ClientLifecycle::Uninitialized(_) => post == ClientLifecycle::<A, C>::Ready(out),
    }
}

/// Under any number of serialized first invocations starting from
/// `Uninitialized`, the transition to `Ready` executes exactly once — every
/// state after the first step is `Ready` with the handle the first step
/// built — and all invocations observe that identical handle.
pub proof fn lemma_lifecycle_exactly_once<A, C>(
    states: Seq<ClientLifecycle<A, C>>,
    outs: Seq<C>,
)
    requires
        states.len() == outs.len() + 1,
        outs.len() >= 1,
        states[0] is Uninitialized,
        forall|i: int| 0 <= i < outs.len() ==> lifecycle_step(states[i], states[i + 1], outs[i]),
    ensures
        forall|i: int|
            1 <= i < states.len() ==> states[i] == ClientLifecycle::<A, C>::Ready(outs[0]),
        forall|i: int| 0 <= i < outs.len() ==> #[trigger] outs[i] == outs[0],
{
    assert forall|i: int|
        1 <= i < states.len() implies states[i] == ClientLifecycle::<A, C>::Ready(
        outs[0],
    ) by {
        lemma_lifecycle_ready_from(states, outs, i);
    }
    assert forall|i: int| 0 <= i < outs.len() implies #[trigger] outs[i] == outs[0] by {
        if i > 0 {
            lemma_lifecycle_ready_from(states, outs, i);
            assert(lifecycle_step(states[i], states[i + 1], outs[i]));
        }
    }
}

proof fn lemma_lifecycle_ready_from<A, C>(
    states: Seq<ClientLifecycle<A, C>>,
    outs: Seq<C>,
    i: int,
)
    requires
        states.len() == outs.len() + 1,
        states[0] is Uninitialized,
        forall|j: int| 0 <= j < outs.len() ==> lifecycle_step(states[j], states[j + 1], outs[j]),
        1 <= i < states.len(),
    ensures
        states[i] == ClientLifecycle::<A, C>::Ready(outs[0]),
    decreases i,
{
    if i == 1 {
        assert(lifecycle_step(states[0], states[1], outs[0]));
    } else {
        lemma_lifecycle_ready_from(states, outs, i - 1);
        assert(lifecycle_step(states[i - 1], states[i], outs[i - 1]));
    }
}

} // verus!
