//! The checker: one machine, one registry, one pass over a message sequence.

use vstd::prelude::*;
use crate::constraints::{holds, Constraints, ConstraintsView, ContractViolation};
use crate::fsm::{context_after, is_run, reports, state_after, Fsm, FsmHandler, Step};

verus! {

/// Every check on `step` passed: the precondition of the state it left, then,
/// on the context it arrived at, that state's postcondition, the invariants,
/// and the rule for the transition it made.
pub open spec fn accepts<T: FsmHandler>(reg: ConstraintsView<T>, step: Step<T>) -> bool {
    &&& reg.precondition_met(step.from_name@, step.before)
    &&& reg.postcondition_met(step.from_name@, step.after)
    &&& reg.invariants_met(step.after)
    &&& reg.transition_met(
        step.from_name@,
        step.to_name@,
        step.before,
        step.after,
        step.msg,
        step.outputs,
    )
}

/// `step` passed the precondition of the state it left and then failed a
/// check on the context it arrived at, and `violation` reports the first
/// check that failed: the postcondition of the state it left, else an
/// invariant, else the rule for the transition.
pub open spec fn rejects<T: FsmHandler>(
    reg: ConstraintsView<T>,
    step: Step<T>,
    violation: ContractViolation,
) -> bool {
    &&& reg.precondition_met(step.from_name@, step.before)
    &&& {
        ||| reg.postcondition_broken(step.from_name@, step.after, violation)
        ||| {
            &&& reg.postcondition_met(step.from_name@, step.after)
            &&& reg.invariant_broken(step.after, violation)
        }
        ||| {
            &&& reg.postcondition_met(step.from_name@, step.after)
            &&& reg.invariants_met(step.after)
            &&& reg.transition_broken(
                step.from_name@,
                step.to_name@,
                step.before,
                step.after,
                step.msg,
                step.outputs,
                violation,
            )
        }
    }
}

/// A machine with state function `state` and context `ctx` was not sent the
/// message that was next, because the precondition of `state` failed, and
/// `violation` reports that.
pub open spec fn refuses<T: FsmHandler>(
    reg: ConstraintsView<T>,
    state: T::State,
    ctx: T::Context,
    violation: ContractViolation,
) -> bool {
    exists|name: &'static str| #[trigger]
        reports::<T>(state, name) && reg.precondition_broken(name@, ctx, violation)
}

/// The first `count` of `steps` passed every check.
pub open spec fn accepts_first<T: FsmHandler>(
    reg: ConstraintsView<T>,
    steps: Seq<Step<T>>,
    count: int,
) -> bool {
    forall|i: int| 0 <= i < count ==> accepts(reg, #[trigger] steps[i])
}

/// `steps` is what a check of `msgs` did, and `result` what it found.
///
/// The check started a machine with state function `state` and context `ctx`
/// under the contracts `reg`, and left it with `end_state` and `end_ctx`. It
/// sent the machine a prefix of `msgs`, one step each, and observed the names
/// of the state functions.
///
/// Where `result` is `Ok`, every message was sent and every step passed every
/// check. Where it is a violation of a precondition, every step passed, and
/// the message after them was not sent. Where it is another violation, the
/// last step failed as the violation says, and the steps before it passed.
pub open spec fn explains<T: FsmHandler>(
    reg: ConstraintsView<T>,
    state: T::State,
    ctx: T::Context,
    msgs: Seq<T::Msg>,
    steps: Seq<Step<T>>,
    result: Result<(), ContractViolation>,
    end_state: T::State,
    end_ctx: T::Context,
) -> bool {
    &&& steps.len() <= msgs.len()
    &&& is_run::<T>(state, ctx, msgs.take(steps.len() as int), steps)
    &&& forall|i: int| 0 <= i < steps.len() ==> (#[trigger] steps[i]).is_named()
    &&& end_state == state_after::<T>(state, steps)
    &&& end_ctx == context_after::<T>(ctx, steps)
    &&& match result {
        Ok(()) => steps.len() == msgs.len() && accepts_first(reg, steps, steps.len() as int),
        Err(violation) => if violation is Precondition {
            &&& steps.len() < msgs.len()
            &&& accepts_first(reg, steps, steps.len() as int)
            &&& refuses(reg, end_state, end_ctx, violation)
        } else {
            &&& steps.len() >= 1
            &&& accepts_first(reg, steps, steps.len() - 1)
            &&& rejects(reg, steps.last(), violation)
        },
    }
}

/// How many of the messages a check looked at before it stopped on
/// `violation`, after `steps`: those that it sent, and the one that it
/// refused, if the violation is of a precondition.
pub open spec fn examined<T: FsmHandler>(steps: Seq<Step<T>>, violation: ContractViolation) -> int {
    if violation is Precondition {
        steps.len() as int + 1
    } else {
        steps.len() as int
    }
}

/// A check can be taken up where an accepted one ended: what the first did on
/// `done` and the second on `rest`, one after the other, is what one check
/// does on `done` followed by `rest`.
pub proof fn lemma_check_continues<T: FsmHandler>(
    reg: ConstraintsView<T>,
    state: T::State,
    ctx: T::Context,
    done: Seq<T::Msg>,
    first: Seq<Step<T>>,
    mid_state: T::State,
    mid_ctx: T::Context,
    rest: Seq<T::Msg>,
    second: Seq<Step<T>>,
    result: Result<(), ContractViolation>,
    end_state: T::State,
    end_ctx: T::Context,
)
    requires
        explains(reg, state, ctx, done, first, Ok::<(), ContractViolation>(()), mid_state, mid_ctx),
        explains(reg, mid_state, mid_ctx, rest, second, result, end_state, end_ctx),
    ensures
        explains(reg, state, ctx, done + rest, first + second, result, end_state, end_ctx),
{
}

/// No overrun: a check that stopped on a violation looked at no message
/// after the one that failed, so what it did and found is also what a check
/// does and finds on any sequence that starts with the same messages up to
/// that one.
pub proof fn lemma_later_messages_play_no_part<T: FsmHandler>(
    reg: ConstraintsView<T>,
    state: T::State,
    ctx: T::Context,
    msgs: Seq<T::Msg>,
    steps: Seq<Step<T>>,
    violation: ContractViolation,
    end_state: T::State,
    end_ctx: T::Context,
    other: Seq<T::Msg>,
)
    requires
        explains(
            reg,
            state,
            ctx,
            msgs,
            steps,
            Err::<(), ContractViolation>(violation),
            end_state,
            end_ctx,
        ),
        examined(steps, violation) <= other.len(),
        other.take(examined(steps, violation)) == msgs.take(examined(steps, violation)),
    ensures
        explains(
            reg,
            state,
            ctx,
            other,
            steps,
            Err::<(), ContractViolation>(violation),
            end_state,
            end_ctx,
        ),
{
    let count = examined(steps, violation);
    let sent = msgs.take(steps.len() as int);
    assert(other.take(steps.len() as int) =~= sent) by {
        assert forall|i: int| 0 <= i < steps.len() implies other[i] == msgs[i] by {
            assert(other.take(count)[i] == msgs.take(count)[i]);
        }
    }
}

/// Fail-fast: a check that stopped on a violation other than that of a
/// precondition sent the machine the message that failed and those before
/// it, and no other. The steps before the last passed every check, the last
/// one failed as the violation says, and the machine is left as the last
/// step left it.
pub proof fn lemma_fail_fast<T: FsmHandler>(
    reg: ConstraintsView<T>,
    state: T::State,
    ctx: T::Context,
    msgs: Seq<T::Msg>,
    steps: Seq<Step<T>>,
    violation: ContractViolation,
    end_state: T::State,
    end_ctx: T::Context,
)
    requires
        explains(
            reg,
            state,
            ctx,
            msgs,
            steps,
            Err::<(), ContractViolation>(violation),
            end_state,
            end_ctx,
        ),
        !(violation is Precondition),
    ensures
        1 <= steps.len() <= msgs.len(),
        is_run::<T>(state, ctx, msgs.take(steps.len() as int), steps),
        accepts_first(reg, steps, steps.len() - 1),
        rejects(reg, steps.last(), violation),
        end_state == steps.last().to,
        end_ctx == steps.last().after,
{
}

/// A check that stopped on the violation of a precondition sent the machine
/// the messages before the one that failed, and not that one. The steps all
/// passed every check, and the machine is left as the last of them left it,
/// in the state whose precondition failed.
pub proof fn lemma_refused_message_is_not_sent<T: FsmHandler>(
    reg: ConstraintsView<T>,
    state: T::State,
    ctx: T::Context,
    msgs: Seq<T::Msg>,
    steps: Seq<Step<T>>,
    violation: ContractViolation,
    end_state: T::State,
    end_ctx: T::Context,
)
    requires
        explains(
            reg,
            state,
            ctx,
            msgs,
            steps,
            Err::<(), ContractViolation>(violation),
            end_state,
            end_ctx,
        ),
        violation is Precondition,
    ensures
        steps.len() < msgs.len(),
        is_run::<T>(state, ctx, msgs.take(steps.len() as int), steps),
        accepts_first(reg, steps, steps.len() as int),
        refuses(reg, end_state, end_ctx, violation),
        end_state == state_after::<T>(state, steps),
        end_ctx == context_after::<T>(ctx, steps),
{
}

/// Invariants hold throughout: where a check accepted a message sequence,
/// every invariant came out true of the context after every single message.
pub proof fn lemma_invariants_hold_after_every_message<T: FsmHandler>(
    reg: ConstraintsView<T>,
    state: T::State,
    ctx: T::Context,
    msgs: Seq<T::Msg>,
    steps: Seq<Step<T>>,
    end_state: T::State,
    end_ctx: T::Context,
)
    requires
        explains(reg, state, ctx, msgs, steps, Ok::<(), ContractViolation>(()), end_state, end_ctx),
    ensures
        steps.len() == msgs.len(),
        forall|i: int, j: int|
            0 <= i < msgs.len() && 0 <= j < reg.invariants.len() ==> holds::<T>(
                (#[trigger] reg.invariants[j]).pred,
                (#[trigger] steps[i]).after,
            ),
        forall|i: int|
            0 <= i < msgs.len() ==> context_after::<T>(ctx, steps.take(i + 1)) == (
            #[trigger] steps[i]).after,
{
}

/// Nothing to violate: under a registry that holds nothing, a check accepts
/// whatever it is given.
pub proof fn lemma_empty_registry_accepts<T: FsmHandler>(
    reg: ConstraintsView<T>,
    state: T::State,
    ctx: T::Context,
    msgs: Seq<T::Msg>,
    steps: Seq<Step<T>>,
    result: Result<(), ContractViolation>,
    end_state: T::State,
    end_ctx: T::Context,
)
    requires
        reg.is_empty(),
        explains(reg, state, ctx, msgs, steps, result, end_state, end_ctx),
    ensures
        result is Ok,
{
}

/// Couples one machine with one registry, and checks the registry's
/// contracts on every message that it sends to the machine.
pub struct Checker<T: FsmHandler> {
    fsm: Fsm<T>,
    constraints: Constraints<T>,
}

impl<T: FsmHandler> Checker<T> {
    /// The state function that the machine holds.
    pub closed spec fn state(&self) -> T::State {
        self.fsm.state()
    }

    /// The context that the machine holds.
    pub closed spec fn context(&self) -> T::Context {
        self.fsm.context()
    }

    /// The contracts that are checked.
    pub closed spec fn contracts(&self) -> ConstraintsView<T> {
        self.constraints@
    }

    /// A checker for a new machine, which starts in `state` with context
    /// `ctx`, under the contracts in `constraints`.
    pub fn new(ctx: T::Context, state: T::State, constraints: Constraints<T>) -> (checker: Self)
        ensures
            checker.state() == state,
            checker.context() == ctx,
            checker.contracts() == constraints@,
    {
        Checker { fsm: Fsm::new(ctx, state), constraints }
    }

    /// The machine.
    pub fn fsm(&self) -> (fsm: &Fsm<T>)
        ensures
            fsm.state() == self.state(),
            fsm.context() == self.context(),
    {
        &self.fsm
    }

    /// The registry.
    pub fn constraints(&self) -> (constraints: &Constraints<T>)
        ensures
            constraints@ == self.contracts(),
    {
        &self.constraints
    }

    /// Checks one message: the precondition of the current state, and if it
    /// holds, sends the message and checks what came of it.
    pub fn check_one(&mut self, msg: &T::Msg) -> (r: Result<(), ContractViolation>)
        ensures
            final(self).contracts() == old(self).contracts(),
            old(self).contracts().is_empty() ==> r is Ok,
            exists|steps: Seq<Step<T>>| #[trigger]
                explains(
                    old(self).contracts(),
                    old(self).state(),
                    old(self).context(),
                    seq![*msg],
                    steps,
                    r,
                    final(self).state(),
                    final(self).context(),
                ),
    {
        let ghost from_state = self.state();
        let (from, ctx) = self.fsm.get_state();
        match self.constraints.check_preconditions(from, ctx) {
            Err(violation) => {
                proof {
                    assert(explains(
                        self.contracts(),
                        self.state(),
                        self.context(),
                        seq![*msg],
                        Seq::<Step<T>>::empty(),
                        Err::<(), ContractViolation>(violation),
                        self.state(),
                        self.context(),
                    ));
                }
                return Err(violation);
            },
            Ok(()) => {},
        }
        let (before, outputs) = self.fsm.step(msg);
        let (to, after) = self.fsm.get_state();
        let ghost step = Step::<T> {
            from: from_state,
            from_name: from,
            before,
            msg: *msg,
            to: self.state(),
            to_name: to,
            after: *after,
            outputs,
        };
        let ghost steps = seq![step];
        let mut result = self.constraints.check_postconditions(from, after);
        if result.is_ok() {
            result = self.constraints.check_invariants(after);
        }
        if result.is_ok() {
            result = self.constraints.check_transitions(from, to, &before, after, msg, &outputs);
        }
        proof {
            assert(explains(
                old(self).contracts(),
                old(self).state(),
                old(self).context(),
                seq![*msg],
                steps,
                result,
                self.state(),
                self.context(),
            ));
        }
        result
    }

    /// Checks a message sequence in order, and stops at the first violation.
    ///
    /// For each message: checks the precondition of the current state on the
    /// context; sends the message to the machine; then checks, on the context
    /// that the machine arrived at, the postcondition of the state that it
    /// left, the invariants, and the rule for the transition that it made.
    /// The first check that fails ends the pass, and its violation is
    /// returned: no message after it is sent.
    pub fn check(&mut self, msgs: Vec<T::Msg>) -> (r: Result<(), ContractViolation>)
        ensures
            final(self).contracts() == old(self).contracts(),
            old(self).contracts().is_empty() ==> r is Ok,
            exists|steps: Seq<Step<T>>| #[trigger]
                explains(
                    old(self).contracts(),
                    old(self).state(),
                    old(self).context(),
                    msgs@,
                    steps,
                    r,
                    final(self).state(),
                    final(self).context(),
                ),
    {
        let ghost reg = self.contracts();
        let ghost state = self.state();
        let ghost ctx = self.context();
        let ghost mut steps = Seq::<Step<T>>::empty();
        let mut i: usize = 0;
        while i < msgs.len()
            invariant
                i <= msgs.len(),
                reg == old(self).contracts(),
                state == old(self).state(),
                ctx == old(self).context(),
                self.contracts() == reg,
                explains(
                    reg,
                    state,
                    ctx,
                    msgs@.take(i as int),
                    steps,
                    Ok::<(), ContractViolation>(()),
                    self.state(),
                    self.context(),
                ),
            decreases msgs.len() - i,
        {
            let ghost mid_state = self.state();
            let ghost mid_ctx = self.context();
            let result = self.check_one(&msgs[i]);
            proof {
                let next = seq![msgs@[i as int]];
                let one = choose|one: Seq<Step<T>>|
                    explains(
                        reg,
                        mid_state,
                        mid_ctx,
                        next,
                        one,
                        result,
                        self.state(),
                        self.context(),
                    );
                lemma_check_continues(
                    reg,
                    state,
                    ctx,
                    msgs@.take(i as int),
                    steps,
                    mid_state,
                    mid_ctx,
                    next,
                    one,
                    result,
                    self.state(),
                    self.context(),
                );
                steps = steps + one;
                if result is Err {
                    let violation = result->Err_0;
                    assert(msgs@.take(examined(steps, violation)) =~= msgs@.take(i + 1).take(
                        examined(steps, violation),
                    ));
                    lemma_later_messages_play_no_part(
                        reg,
                        state,
                        ctx,
                        msgs@.take(i + 1),
                        steps,
                        violation,
                        self.state(),
                        self.context(),
                        msgs@,
                    );
                    if reg.is_empty() {
                        lemma_empty_registry_accepts(
                            reg,
                            state,
                            ctx,
                            msgs@,
                            steps,
                            result,
                            self.state(),
                            self.context(),
                        );
                    }
                }
            }
            if result.is_err() {
                return result;
            }
            i = i + 1;
        }
        proof {
            assert(msgs@.take(i as int) =~= msgs@);
        }
        Ok(())
    }
}

} // verus!
