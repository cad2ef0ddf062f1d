//! The machine itself: the handler a user supplies and the engine that runs it.

use vstd::prelude::*;

verus! {

/// Everything a user supplies to describe one machine.
///
/// The methods carry no contract of their own. Whatever the library states
/// about a machine, it states about the values these methods returned when
/// it called them, through `call_ensures`; an implementation that is verified
/// may give its methods `ensures` clauses, and callers then learn from them.
///
/// Every method is expected to be pure: it reads its arguments, returns its
/// result, and has no other effect.
pub trait FsmHandler {
    /// The record a machine owns.
    type Context;

    /// An input event.
    type Msg;

    /// A request for a side effect, handed back to the caller.
    type Output;

    /// A state function: a value that has a name and a transition rule.
    type State;

    /// A condition on a context.
    type Predicate;

    /// A condition on one transition.
    type Rule;

    /// The name of a state function, by which contracts are registered for it.
    fn name(state: &Self::State) -> &'static str;

    /// Runs the state function `state` on `msg` in context `ctx`. Returns the
    /// state function that follows, the context as the transition leaves it,
    /// and the outputs in order.
    fn apply(state: &Self::State, ctx: &Self::Context, msg: &Self::Msg) -> (
        Self::State,
        Self::Context,
        Vec<Self::Output>,
    );

    /// Evaluates a condition on a context.
    fn eval(pred: &Self::Predicate, ctx: &Self::Context) -> bool;

    /// Evaluates a condition on a transition: the context before and after
    /// it, the message that caused it and the outputs it produced.
    fn judge(
        rule: &Self::Rule,
        before: &Self::Context,
        after: &Self::Context,
        msg: &Self::Msg,
        outputs: &Vec<Self::Output>,
    ) -> bool;

    /// Shows a context as text, for diagnostics.
    fn render(ctx: &Self::Context) -> String;
}

/// `name` is a name that `state` reports.
pub open spec fn reports<T: FsmHandler>(state: T::State, name: &'static str) -> bool {
    call_ensures(T::name, (&state,), name)
}

/// The state function `from`, run on `msg` in context `before`, can lead to
/// `to` and `after` and produce `outputs`.
pub open spec fn transits<T: FsmHandler>(
    from: T::State,
    before: T::Context,
    msg: T::Msg,
    to: T::State,
    after: T::Context,
    outputs: Vec<T::Output>,
) -> bool {
    call_ensures(T::apply, (&from, &before, &msg), (to, after, outputs))
}

/// A synchronous machine: the current state function and the context it works on.
pub struct Fsm<T: FsmHandler> {
    state: T::State,
    ctx: T::Context,
}

impl<T: FsmHandler> Fsm<T> {
    /// The state function that the next message will run.
    pub closed spec fn state(&self) -> T::State {
        self.state
    }

    /// The context as it stands.
    pub closed spec fn context(&self) -> T::Context {
        self.ctx
    }

    /// A machine that starts in `state` with context `ctx`.
    pub fn new(ctx: T::Context, state: T::State) -> (fsm: Self)
        ensures
            fsm.state() == state,
            fsm.context() == ctx,
    {
        Fsm { state, ctx }
    }

    /// The name of the current state function, and the context.
    pub fn get_state(&self) -> (r: (&'static str, &T::Context))
        ensures
            reports::<T>(self.state(), r.0),
            *r.1 == self.context(),
    {
        (T::name(&self.state), &self.ctx)
    }

    /// Applies one message: runs the current state function on it, keeps the
    /// state function and the context that it returns, and hands back the
    /// context as it was before together with the outputs.
    pub fn step(&mut self, msg: &T::Msg) -> (r: (T::Context, Vec<T::Output>))
        ensures
            r.0 == old(self).context(),
            transits::<T>(
                old(self).state(),
                old(self).context(),
                *msg,
                final(self).state(),
                final(self).context(),
                r.1,
            ),
    {
        let (state, ctx, outputs) = T::apply(&self.state, &self.ctx, msg);
        let mut previous = ctx;
        core::mem::swap(&mut self.ctx, &mut previous);
        self.state = state;
        (previous, outputs)
    }

    /// Applies one message and returns the outputs of the transition.
    pub fn send(&mut self, msg: T::Msg) -> (outputs: Vec<T::Output>)
        ensures
            transits::<T>(
                old(self).state(),
                old(self).context(),
                msg,
                final(self).state(),
                final(self).context(),
                outputs,
            ),
    {
        let (_, outputs) = self.step(&msg);
        outputs
    }
}

/// One application of a message: the state function that ran and the context
/// it found, the message, and the state function, context and outputs that
/// came of it. The two names are those that an observer was given for the
/// state functions, where there was one.
pub struct Step<T: FsmHandler> {
    pub from: T::State,
    pub from_name: &'static str,
    pub before: T::Context,
    pub msg: T::Msg,
    pub to: T::State,
    pub to_name: &'static str,
    pub after: T::Context,
    pub outputs: Vec<T::Output>,
}

impl<T: FsmHandler> Step<T> {
    /// The step is one that the state function `from` can make.
    pub open spec fn is_transition(self) -> bool {
        transits::<T>(self.from, self.before, self.msg, self.to, self.after, self.outputs)
    }

    /// The two names are names that the two state functions report.
    pub open spec fn is_named(self) -> bool {
        &&& reports::<T>(self.from, self.from_name)
        &&& reports::<T>(self.to, self.to_name)
    }
}

/// `steps` is a run of a machine that starts with state function `state` and
/// context `ctx` and is sent `msgs` in order: one step for each message, each
/// one a transition of the machine, each taking up where the one before it
/// left off.
pub open spec fn is_run<T: FsmHandler>(
    state: T::State,
    ctx: T::Context,
    msgs: Seq<T::Msg>,
    steps: Seq<Step<T>>,
) -> bool {
    &&& steps.len() == msgs.len()
    &&& steps.len() > 0 ==> steps[0].from == state && steps[0].before == ctx
    &&& forall|i: int|
        0 <= i < steps.len() ==> (#[trigger] steps[i]).is_transition() && steps[i].msg == msgs[i]
    &&& forall|i: int, j: int|
        0 <= i && j == i + 1 && j < steps.len() ==> (#[trigger] steps[j]).from == (
        #[trigger] steps[i]).to && steps[j].before == steps[i].after
}

/// The state function that a machine started with `state` holds after `steps`.
pub open spec fn state_after<T: FsmHandler>(state: T::State, steps: Seq<Step<T>>) -> T::State {
    if steps.len() == 0 {
        state
    } else {
        steps.last().to
    }
}

/// The context that a machine started with `ctx` holds after `steps`.
pub open spec fn context_after<T: FsmHandler>(ctx: T::Context, steps: Seq<Step<T>>) -> T::Context {
    if steps.len() == 0 {
        ctx
    } else {
        steps.last().after
    }
}

/// The handler is deterministic: a state function reports one name, and run
/// on one message in one context it leads to one state function and one
/// context, with one sequence of outputs.
pub open spec fn deterministic<T: FsmHandler>() -> bool {
    &&& forall|state: T::State, a: &'static str, b: &'static str|
        #[trigger] reports::<T>(state, a) && #[trigger] reports::<T>(state, b) ==> a@ == b@
    &&& forall|
        from: T::State,
        before: T::Context,
        msg: T::Msg,
        to_a: T::State,
        after_a: T::Context,
        outputs_a: Vec<T::Output>,
        to_b: T::State,
        after_b: T::Context,
        outputs_b: Vec<T::Output>,
    |
        #[trigger] transits::<T>(from, before, msg, to_a, after_a, outputs_a)
            && #[trigger] transits::<T>(from, before, msg, to_b, after_b, outputs_b) ==> to_a
            == to_b && after_a == after_b && outputs_a@ == outputs_b@
}

/// Determinism of replay, step by step: two runs of a deterministic machine
/// from the same start on the same messages agree at every step on the state
/// function reached, the context and the outputs.
pub proof fn lemma_runs_agree_at<T: FsmHandler>(
    state: T::State,
    ctx: T::Context,
    msgs: Seq<T::Msg>,
    first: Seq<Step<T>>,
    second: Seq<Step<T>>,
    i: int,
)
    requires
        deterministic::<T>(),
        is_run::<T>(state, ctx, msgs, first),
        is_run::<T>(state, ctx, msgs, second),
        0 <= i < msgs.len(),
    ensures
        first[i].from == second[i].from,
        first[i].before == second[i].before,
        first[i].to == second[i].to,
        first[i].after == second[i].after,
        first[i].outputs@ == second[i].outputs@,
    decreases i,
{
    if i > 0 {
        lemma_runs_agree_at::<T>(state, ctx, msgs, first, second, i - 1);
    }
}

/// Determinism of replay: two machines of a deterministic handler that start
/// with the same state function and the same context and are sent the same
/// messages in the same order end with the same state function and the same
/// context, and report the same name for it.
pub proof fn lemma_replay_is_deterministic<T: FsmHandler>(
    state: T::State,
    ctx: T::Context,
    msgs: Seq<T::Msg>,
    first: Seq<Step<T>>,
    second: Seq<Step<T>>,
)
    requires
        deterministic::<T>(),
        is_run::<T>(state, ctx, msgs, first),
        is_run::<T>(state, ctx, msgs, second),
    ensures
        state_after::<T>(state, first) == state_after::<T>(state, second),
        context_after::<T>(ctx, first) == context_after::<T>(ctx, second),
        forall|a: &'static str, b: &'static str|
            #[trigger] reports::<T>(state_after::<T>(state, first), a) && #[trigger] reports::<T>(
                state_after::<T>(state, second),
                b,
            ) ==> a@ == b@,
{
    if msgs.len() > 0 {
        lemma_runs_agree_at::<T>(state, ctx, msgs, first, second, msgs.len() - 1);
    }
}

} // verus!
