//! The registry of contracts: conditions keyed by state name, invariants,
//! and rules keyed by a pair of state names.

use vstd::prelude::*;
use vstd::string::{StringExecFns, StringSliceAdditionalSpecFns};
use crate::fsm::FsmHandler;

verus! {

/// `pred`, evaluated on `ctx`, can come out true.
pub open spec fn holds<T: FsmHandler>(pred: T::Predicate, ctx: T::Context) -> bool {
    call_ensures(T::eval, (&pred, &ctx), true)
}

/// `pred`, evaluated on `ctx`, can come out false.
pub open spec fn fails<T: FsmHandler>(pred: T::Predicate, ctx: T::Context) -> bool {
    call_ensures(T::eval, (&pred, &ctx), false)
}

/// `rule`, evaluated on a transition, can come out true.
pub open spec fn permits<T: FsmHandler>(
    rule: T::Rule,
    before: T::Context,
    after: T::Context,
    msg: T::Msg,
    outputs: Vec<T::Output>,
) -> bool {
    call_ensures(T::judge, (&rule, &before, &after, &msg, &outputs), true)
}

/// `rule`, evaluated on a transition, can come out false.
pub open spec fn forbids<T: FsmHandler>(
    rule: T::Rule,
    before: T::Context,
    after: T::Context,
    msg: T::Msg,
    outputs: Vec<T::Output>,
) -> bool {
    call_ensures(T::judge, (&rule, &before, &after, &msg, &outputs), false)
}

/// `text` is a rendering of `ctx`.
pub open spec fn renders<T: FsmHandler>(ctx: T::Context, text: String) -> bool {
    call_ensures(T::render, (&ctx,), text)
}

/// A contract that a checked step did not keep.
#[derive(Debug, PartialEq, Eq)]
pub enum ContractViolation {
    /// The precondition of `state` was false of the context before a message.
    Precondition { state: String, label: String, context: String },
    /// The postcondition of `state` was false of the context after a message.
    Postcondition { state: String, label: String, context: String },
    /// The invariant registered at position `index` was false of the context
    /// after a message.
    Invariant { index: usize, label: String, context: String },
    /// The rule for the transition from `from` to `to` rejected it.
    Transition { from: String, to: String, label: String, context: String },
}

/// A condition as it was registered: the label given for it and the condition.
pub struct Condition<T: FsmHandler> {
    pub label: Seq<char>,
    pub pred: T::Predicate,
}

/// A transition rule as it was registered: the label given for it and the rule.
pub struct TransitionRule<T: FsmHandler> {
    pub label: Seq<char>,
    pub rule: T::Rule,
}

/// What a registry holds.
///
/// A state name has at most one precondition and at most one postcondition,
/// and a pair of state names at most one transition rule. The invariants
/// stand in the order in which they were registered.
pub struct ConstraintsView<T: FsmHandler> {
    pub preconditions: Map<Seq<char>, Condition<T>>,
    pub postconditions: Map<Seq<char>, Condition<T>>,
    pub invariants: Seq<Condition<T>>,
    pub transitions: Map<(Seq<char>, Seq<char>), TransitionRule<T>>,
}

impl<T: FsmHandler> ConstraintsView<T> {
    /// Nothing is registered.
    pub open spec fn is_empty(self) -> bool {
        &&& self.preconditions.dom() =~= Set::<Seq<char>>::empty()
        &&& self.postconditions.dom() =~= Set::<Seq<char>>::empty()
        &&& self.invariants.len() == 0
        &&& self.transitions.dom() =~= Set::<(Seq<char>, Seq<char>)>::empty()
    }

    /// The state named `state` has no precondition, or its precondition came
    /// out true of `ctx`.
    pub open spec fn precondition_met(self, state: Seq<char>, ctx: T::Context) -> bool {
        self.preconditions.contains_key(state) ==> holds::<T>(self.preconditions[state].pred, ctx)
    }

    /// The precondition of the state named `state` came out false of `ctx`,
    /// and `violation` reports that.
    pub open spec fn precondition_broken(
        self,
        state: Seq<char>,
        ctx: T::Context,
        violation: ContractViolation,
    ) -> bool {
        &&& self.preconditions.contains_key(state)
        &&& fails::<T>(self.preconditions[state].pred, ctx)
        &&& violation matches ContractViolation::Precondition { state: name, label, context }
        &&& name@ == state
        &&& label@ == self.preconditions[state].label
        &&& renders::<T>(ctx, context)
    }

    /// The state named `state` has no postcondition, or its postcondition
    /// came out true of `ctx`.
    pub open spec fn postcondition_met(self, state: Seq<char>, ctx: T::Context) -> bool {
        self.postconditions.contains_key(state) ==> holds::<T>(
            self.postconditions[state].pred,
            ctx,
        )
    }

    /// The postcondition of the state named `state` came out false of `ctx`,
    /// and `violation` reports that.
    pub open spec fn postcondition_broken(
        self,
        state: Seq<char>,
        ctx: T::Context,
        violation: ContractViolation,
    ) -> bool {
        &&& self.postconditions.contains_key(state)
        &&& fails::<T>(self.postconditions[state].pred, ctx)
        &&& violation matches ContractViolation::Postcondition { state: name, label, context }
        &&& name@ == state
        &&& label@ == self.postconditions[state].label
        &&& renders::<T>(ctx, context)
    }

    /// The first `count` invariants came out true of `ctx`.
    pub open spec fn invariants_met_up_to(self, count: int, ctx: T::Context) -> bool {
        forall|i: int| 0 <= i < count ==> holds::<T>((#[trigger] self.invariants[i]).pred, ctx)
    }

    /// Every invariant came out true of `ctx`.
    pub open spec fn invariants_met(self, ctx: T::Context) -> bool {
        self.invariants_met_up_to(self.invariants.len() as int, ctx)
    }

    /// Some invariant came out false of `ctx` after all those before it had
    /// come out true, and `violation` reports that one.
    pub open spec fn invariant_broken(self, ctx: T::Context, violation: ContractViolation) -> bool {
        &&& violation matches ContractViolation::Invariant { index, label, context }
        &&& index < self.invariants.len()
        &&& self.invariants_met_up_to(index as int, ctx)
        &&& fails::<T>(self.invariants[index as int].pred, ctx)
        &&& label@ == self.invariants[index as int].label
        &&& renders::<T>(ctx, context)
    }

    /// There is no rule for transitions from `from` to `to`, or that rule
    /// came out true of the transition.
    pub open spec fn transition_met(
        self,
        from: Seq<char>,
        to: Seq<char>,
        before: T::Context,
        after: T::Context,
        msg: T::Msg,
        outputs: Vec<T::Output>,
    ) -> bool {
        self.transitions.contains_key((from, to)) ==> permits::<T>(
            self.transitions[(from, to)].rule,
            before,
            after,
            msg,
            outputs,
        )
    }

    /// The rule for transitions from `from` to `to` came out false of the
    /// transition, and `violation` reports that, with the context that the
    /// transition arrived at.
    pub open spec fn transition_broken(
        self,
        from: Seq<char>,
        to: Seq<char>,
        before: T::Context,
        after: T::Context,
        msg: T::Msg,
        outputs: Vec<T::Output>,
        violation: ContractViolation,
    ) -> bool {
        &&& self.transitions.contains_key((from, to))
        &&& forbids::<T>(self.transitions[(from, to)].rule, before, after, msg, outputs)
        &&& violation matches ContractViolation::Transition {
            from: source,
            to: target,
            label,
            context,
        }
        &&& source@ == from
        &&& target@ == to
        &&& label@ == self.transitions[(from, to)].label
        &&& renders::<T>(after, context)
    }
}

struct StateEntry<T: FsmHandler> {
    state: String,
    label: String,
    pred: T::Predicate,
}

struct InvariantEntry<T: FsmHandler> {
    label: String,
    pred: T::Predicate,
}

struct TransitionEntry<T: FsmHandler> {
    from: String,
    to: String,
    label: String,
    rule: T::Rule,
}

impl<T: FsmHandler> StateEntry<T> {
    spec fn condition(self) -> Condition<T> {
        Condition { label: self.label@, pred: self.pred }
    }
}

impl<T: FsmHandler> InvariantEntry<T> {
    spec fn condition(self) -> Condition<T> {
        Condition { label: self.label@, pred: self.pred }
    }
}

impl<T: FsmHandler> TransitionEntry<T> {
    spec fn pair(self) -> (Seq<char>, Seq<char>) {
        (self.from@, self.to@)
    }

    spec fn transition_rule(self) -> TransitionRule<T> {
        TransitionRule { label: self.label@, rule: self.rule }
    }
}

/// The conditions that `entries` assign to state names: a later entry for a
/// name replaces an earlier one.
spec fn conditions_by_state<T: FsmHandler>(entries: Seq<StateEntry<T>>) -> Map<
    Seq<char>,
    Condition<T>,
>
    decreases entries.len(),
{
    if entries.len() == 0 {
        Map::empty()
    } else {
        conditions_by_state(entries.drop_last()).insert(
            entries.last().state@,
            entries.last().condition(),
        )
    }
}

/// The rules that `entries` assign to pairs of state names: a later entry for
/// a pair replaces an earlier one.
spec fn rules_by_pair<T: FsmHandler>(entries: Seq<TransitionEntry<T>>) -> Map<
    (Seq<char>, Seq<char>),
    TransitionRule<T>,
>
    decreases entries.len(),
{
    if entries.len() == 0 {
        Map::empty()
    } else {
        rules_by_pair(entries.drop_last()).insert(
            entries.last().pair(),
            entries.last().transition_rule(),
        )
    }
}

/// An append-only store of contracts for one kind of machine.
pub struct Constraints<T: FsmHandler> {
    preconditions: Vec<StateEntry<T>>,
    postconditions: Vec<StateEntry<T>>,
    invariants: Vec<InvariantEntry<T>>,
    transitions: Vec<TransitionEntry<T>>,
}

impl<T: FsmHandler> View for Constraints<T> {
    type V = ConstraintsView<T>;

    closed spec fn view(&self) -> ConstraintsView<T> {
        ConstraintsView {
            preconditions: conditions_by_state(self.preconditions@),
            postconditions: conditions_by_state(self.postconditions@),
            invariants: Seq::new(
                self.invariants@.len(),
                |i: int| self.invariants@[i].condition(),
            ),
            transitions: rules_by_pair(self.transitions@),
        }
    }
}

impl<T: FsmHandler> Constraints<T> {
    /// A registry that holds nothing.
    pub fn new() -> (constraints: Self)
        ensures
            constraints@.is_empty(),
            constraints@.preconditions == Map::<Seq<char>, Condition<T>>::empty(),
            constraints@.postconditions == Map::<Seq<char>, Condition<T>>::empty(),
            constraints@.invariants == Seq::<Condition<T>>::empty(),
            constraints@.transitions == Map::<(Seq<char>, Seq<char>), TransitionRule<T>>::empty(),
    {
        Constraints {
            preconditions: Vec::new(),
            postconditions: Vec::new(),
            invariants: Vec::new(),
            transitions: Vec::new(),
        }
    }

    /// Makes `pred` the precondition of the state named `state`, in place of
    /// the one it had, if any.
    pub fn register_precondition(&mut self, state: &str, label: &str, pred: T::Predicate)
        ensures
            final(self)@ == (ConstraintsView {
                preconditions: old(self)@.preconditions.insert(
                    state@,
                    Condition { label: label@, pred },
                ),
                ..old(self)@
            }),
    {
        let ghost before = self.preconditions@;
        self.preconditions.push(
            StateEntry { state: state.to_owned(), label: label.to_owned(), pred },
        );
        assert(self.preconditions@.drop_last() =~= before);
    }

    /// Makes `pred` the postcondition of the state named `state`, in place of
    /// the one it had, if any.
    pub fn register_postcondition(&mut self, state: &str, label: &str, pred: T::Predicate)
        ensures
            final(self)@ == (ConstraintsView {
                postconditions: old(self)@.postconditions.insert(
                    state@,
                    Condition { label: label@, pred },
                ),
                ..old(self)@
            }),
    {
        let ghost before = self.postconditions@;
        self.postconditions.push(
            StateEntry { state: state.to_owned(), label: label.to_owned(), pred },
        );
        assert(self.postconditions@.drop_last() =~= before);
    }

    /// Adds `pred` to the invariants, after those registered so far.
    pub fn register_invariant(&mut self, label: &str, pred: T::Predicate)
        ensures
            final(self)@ == (ConstraintsView {
                invariants: old(self)@.invariants.push(Condition { label: label@, pred }),
                ..old(self)@
            }),
    {
        self.invariants.push(InvariantEntry { label: label.to_owned(), pred });
        assert(self@.invariants =~= old(self)@.invariants.push(Condition { label: label@, pred }));
    }

    /// Makes `rule` the rule for transitions from the state named `from` to
    /// the state named `to`, in place of the one that pair had, if any.
    pub fn register_transition(&mut self, from: &str, to: &str, label: &str, rule: T::Rule)
        ensures
            final(self)@ == (ConstraintsView {
                transitions: old(self)@.transitions.insert(
                    (from@, to@),
                    TransitionRule { label: label@, rule },
                ),
                ..old(self)@
            }),
    {
        let ghost before = self.transitions@;
        self.transitions.push(
            TransitionEntry {
                from: from.to_owned(),
                to: to.to_owned(),
                label: label.to_owned(),
                rule,
            },
        );
        assert(self.transitions@.drop_last() =~= before);
    }

    /// Checks the precondition of the state named `state` on `ctx`. A state
    /// without a precondition passes.
    pub fn check_preconditions(&self, state: &str, ctx: &T::Context) -> (r: Result<
        (),
        ContractViolation,
    >)
        ensures
            !self@.preconditions.contains_key(state@) ==> r is Ok,
            match r {
                Ok(()) => self@.precondition_met(state@, *ctx),
                Err(violation) => self@.precondition_broken(state@, *ctx, violation),
            },
    {
        match find_condition(&self.preconditions, state) {
            None => Ok(()),
            Some(i) => {
                let entry = &self.preconditions[i];
                if T::eval(&entry.pred, ctx) {
                    Ok(())
                } else {
                    Err(
                        ContractViolation::Precondition {
                            state: state.to_owned(),
                            label: entry.label.clone(),
                            context: T::render(ctx),
                        },
                    )
                }
            },
        }
    }

    /// Checks the postcondition of the state named `state` on `ctx`. A state
    /// without a postcondition passes.
    pub fn check_postconditions(&self, state: &str, ctx: &T::Context) -> (r: Result<
        (),
        ContractViolation,
    >)
        ensures
            !self@.postconditions.contains_key(state@) ==> r is Ok,
            match r {
                Ok(()) => self@.postcondition_met(state@, *ctx),
                Err(violation) => self@.postcondition_broken(state@, *ctx, violation),
            },
    {
        match find_condition(&self.postconditions, state) {
            None => Ok(()),
            Some(i) => {
                let entry = &self.postconditions[i];
                if T::eval(&entry.pred, ctx) {
                    Ok(())
                } else {
                    Err(
                        ContractViolation::Postcondition {
                            state: state.to_owned(),
                            label: entry.label.clone(),
                            context: T::render(ctx),
                        },
                    )
                }
            },
        }
    }

    /// Checks the invariants on `ctx` in the order of their registration, and
    /// stops at the first that is false.
    pub fn check_invariants(&self, ctx: &T::Context) -> (r: Result<(), ContractViolation>)
        ensures
            self@.invariants.len() == 0 ==> r is Ok,
            match r {
                Ok(()) => self@.invariants_met(*ctx),
                Err(violation) => self@.invariant_broken(*ctx, violation),
            },
    {
        let mut i: usize = 0;
        while i < self.invariants.len()
            invariant
                i <= self.invariants.len(),
                self@.invariants.len() == self.invariants.len(),
                self@.invariants_met_up_to(i as int, *ctx),
            decreases self.invariants.len() - i,
        {
            let entry = &self.invariants[i];
            if !T::eval(&entry.pred, ctx) {
                return Err(
                    ContractViolation::Invariant {
                        index: i,
                        label: entry.label.clone(),
                        context: T::render(ctx),
                    },
                );
            }
            i = i + 1;
        }
        Ok(())
    }

    /// Checks the rule for transitions from the state named `from` to the
    /// state named `to` on one such transition. A pair without a rule passes.
    pub fn check_transitions(
        &self,
        from: &str,
        to: &str,
        before: &T::Context,
        after: &T::Context,
        msg: &T::Msg,
        outputs: &Vec<T::Output>,
    ) -> (r: Result<(), ContractViolation>)
        ensures
            !self@.transitions.contains_key((from@, to@)) ==> r is Ok,
            match r {
                Ok(()) => self@.transition_met(from@, to@, *before, *after, *msg, *outputs),
                Err(violation) => self@.transition_broken(
                    from@,
                    to@,
                    *before,
                    *after,
                    *msg,
                    *outputs,
                    violation,
                ),
            },
    {
        match find_rule(&self.transitions, from, to) {
            None => Ok(()),
            Some(i) => {
                let entry = &self.transitions[i];
                if T::judge(&entry.rule, before, after, msg, outputs) {
                    Ok(())
                } else {
                    Err(
                        ContractViolation::Transition {
                            from: from.to_owned(),
                            to: to.to_owned(),
                            label: entry.label.clone(),
                            context: T::render(after),
                        },
                    )
                }
            },
        }
    }
}

/// The position of the entry that decides for the state named `state`: the
/// last one registered for that name.
fn find_condition<T: FsmHandler>(entries: &Vec<StateEntry<T>>, state: &str) -> (found: Option<
    usize,
>)
    ensures
        match found {
            Some(i) => {
                &&& i < entries.len()
                &&& conditions_by_state(entries@).contains_key(state@)
                &&& conditions_by_state(entries@)[state@] == entries[i as int].condition()
            },
            None => !conditions_by_state(entries@).contains_key(state@),
        },
{
    let mut i: usize = entries.len();
    assert(entries@.take(i as int) =~= entries@);
    while i > 0
        invariant
            i <= entries.len(),
            conditions_by_state(entries@).contains_key(state@) == conditions_by_state(
                entries@.take(i as int),
            ).contains_key(state@),
            conditions_by_state(entries@).contains_key(state@) ==> conditions_by_state(
                entries@,
            )[state@] == conditions_by_state(entries@.take(i as int))[state@],
        decreases i,
    {
        proof {
            let prefix = entries@.take(i as int);
            assert(prefix.drop_last() =~= entries@.take(i - 1));
        }
        if same_text(entries[i - 1].state.as_str(), state) {
            return Some(i - 1);
        }
        i = i - 1;
    }
    None
}

/// The position of the entry that decides for transitions from the state
/// named `from` to the state named `to`: the last one registered for that
/// pair.
fn find_rule<T: FsmHandler>(entries: &Vec<TransitionEntry<T>>, from: &str, to: &str) -> (found:
    Option<usize>)
    ensures
        match found {
            Some(i) => {
                &&& i < entries.len()
                &&& rules_by_pair(entries@).contains_key((from@, to@))
                &&& rules_by_pair(entries@)[(from@, to@)] == entries[i as int].transition_rule()
            },
            None => !rules_by_pair(entries@).contains_key((from@, to@)),
        },
{
    let mut i: usize = entries.len();
    assert(entries@.take(i as int) =~= entries@);
    while i > 0
        invariant
            i <= entries.len(),
            rules_by_pair(entries@).contains_key((from@, to@)) == rules_by_pair(
                entries@.take(i as int),
            ).contains_key((from@, to@)),
            rules_by_pair(entries@).contains_key((from@, to@)) ==> rules_by_pair(entries@)[(
                from@,
                to@,
            )] == rules_by_pair(entries@.take(i as int))[(from@, to@)],
        decreases i,
    {
        proof {
            let prefix = entries@.take(i as int);
            assert(prefix.drop_last() =~= entries@.take(i - 1));
        }
        let entry = &entries[i - 1];
        if same_text(entry.from.as_str(), from) && same_text(entry.to.as_str(), to) {
            return Some(i - 1);
        }
        i = i - 1;
    }
    None
}

impl Clone for ContractViolation {
    fn clone(&self) -> (copy: Self)
        ensures
            copy == *self,
    {
        match self {
            ContractViolation::Precondition { state, label, context } => {
                ContractViolation::Precondition {
                    state: state.clone(),
                    label: label.clone(),
                    context: context.clone(),
                }
            },
            ContractViolation::Postcondition { state, label, context } => {
                ContractViolation::Postcondition {
                    state: state.clone(),
                    label: label.clone(),
                    context: context.clone(),
                }
            },
            ContractViolation::Invariant { index, label, context } => {
                ContractViolation::Invariant {
                    index: *index,
                    label: label.clone(),
                    context: context.clone(),
                }
            },
            ContractViolation::Transition { from, to, label, context } => {
                ContractViolation::Transition {
                    from: from.clone(),
                    to: to.clone(),
                    label: label.clone(),
                    context: context.clone(),
                }
            },
        }
    }
}

impl ContractViolation {
    /// The label that the broken contract was registered with.
    pub open spec fn label_text(self) -> Seq<char> {
        match self {
            ContractViolation::Precondition { label, .. } => label@,
            ContractViolation::Postcondition { label, .. } => label@,
            ContractViolation::Invariant { label, .. } => label@,
            ContractViolation::Transition { label, .. } => label@,
        }
    }

    /// The rendering of the context that broke the contract.
    pub open spec fn context_text(self) -> Seq<char> {
        match self {
            ContractViolation::Precondition { context, .. } => context@,
            ContractViolation::Postcondition { context, .. } => context@,
            ContractViolation::Invariant { context, .. } => context@,
            ContractViolation::Transition { context, .. } => context@,
        }
    }

    /// What was checked, and of which state or transition.
    pub open spec fn subject_text(self) -> Seq<char> {
        match self {
            ContractViolation::Precondition { state, .. } => "precondition of state "@ + state@,
            ContractViolation::Postcondition { state, .. } => "postcondition of state "@ + state@,
            ContractViolation::Invariant { .. } => "invariant"@,
            ContractViolation::Transition { from, to, .. } => "transition from "@ + from@ + " to "@
                + to@,
        }
    }

    /// The violation in one line: the subject, the label and the context.
    pub open spec fn message_text(self) -> Seq<char> {
        self.subject_text() + " violated: "@ + self.label_text() + "; context: "@
            + self.context_text()
    }

    /// The label that the broken contract was registered with.
    pub fn label(&self) -> (label: &str)
        ensures
            label@ == self.label_text(),
    {
        match self {
            ContractViolation::Precondition { label, .. } => label.as_str(),
            ContractViolation::Postcondition { label, .. } => label.as_str(),
            ContractViolation::Invariant { label, .. } => label.as_str(),
            ContractViolation::Transition { label, .. } => label.as_str(),
        }
    }

    /// The rendering of the context that broke the contract.
    pub fn context(&self) -> (context: &str)
        ensures
            context@ == self.context_text(),
    {
        match self {
            ContractViolation::Precondition { context, .. } => context.as_str(),
            ContractViolation::Postcondition { context, .. } => context.as_str(),
            ContractViolation::Invariant { context, .. } => context.as_str(),
            ContractViolation::Transition { context, .. } => context.as_str(),
        }
    }

    /// The violation as one line of text.
    pub fn message(&self) -> (text: String)
        ensures
            text@ == self.message_text(),
    {
        let mut text = match self {
            ContractViolation::Precondition { state, .. } => {
                let mut subject = String::from_str("precondition of state ");
                subject.append(state.as_str());
                subject
            },
            ContractViolation::Postcondition { state, .. } => {
                let mut subject = String::from_str("postcondition of state ");
                subject.append(state.as_str());
                subject
            },
            ContractViolation::Invariant { .. } => String::from_str("invariant"),
            ContractViolation::Transition { from, to, .. } => {
                let mut subject = String::from_str("transition from ");
                subject.append(from.as_str());
                subject.append(" to ");
                subject.append(to.as_str());
                subject
            },
        };
        text.append(" violated: ");
        text.append(self.label());
        text.append("; context: ");
        text.append(self.context());
        text
    }
}

/// Whether two pieces of text are the same.
pub fn same_text(a: &str, b: &str) -> (same: bool)
    ensures
        same == (a@ == b@),
{
    let x = a.as_bytes();
    let y = b.as_bytes();
    proof {
        vstd::utf8::encode_utf8_decode_utf8(a@);
        vstd::utf8::encode_utf8_decode_utf8(b@);
    }
    if x.len() != y.len() {
        return false;
    }
    let mut i: usize = 0;
    while i < x.len()
        invariant
            i <= x.len(),
            x.len() == y.len(),
            x@ == a.spec_bytes(),
            y@ == b.spec_bytes(),
            vstd::utf8::decode_utf8(a.spec_bytes()) == a@,
            vstd::utf8::decode_utf8(b.spec_bytes()) == b@,
            forall|j: int| 0 <= j < i ==> x@[j] == y@[j],
        decreases x.len() - i,
    {
        if x[i] != y[i] {
            return false;
        }
        i = i + 1;
    }
    assert(x@ =~= y@);
    true
}

} // verus!
