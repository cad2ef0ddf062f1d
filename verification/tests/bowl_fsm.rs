//! A machine for feeding a cat. Its states are those of the food bowl. The cat
//! is fed whenever the bowl is empty and she meows; while there is food in the
//! bowl she has to eat it before she gets more.

use funfsm::constraints::Constraints;
use funfsm::fsm_check::Checker;
use funfsm::{Fsm, FsmHandler};

const MAX_RESERVES: u8 = 10;
const REFILL_THRESHOLD: u8 = 9;

#[derive(Debug, Clone, Default, PartialEq, Eq)]
pub struct Context {
    pub contents: u8, // % of the bowl that is full
    pub reserves: u8, // bowls of food left in the bag
}

impl Context {
    pub fn new() -> Context {
        Context {
            contents: 0, // the bowl starts off empty
            reserves: MAX_RESERVES,
        }
    }
}

#[derive(Debug, Clone)]
pub enum CatMsg {
    Meow,
    Eat(u8), // % of food to eat
}

#[derive(Debug, Clone, PartialEq, Eq)]
pub enum StoreReq {
    Buy(u8),
}

#[derive(Debug, Clone)]
pub enum StoreRpy {
    Bowls(u8),
}

#[derive(Debug, Clone)]
pub enum BowlMsg {
    CatMsg(CatMsg),
    StoreRpy(StoreRpy),
}

#[derive(Debug, Clone, Copy, PartialEq, Eq)]
pub enum BowlState {
    Empty,
    Full,
}

type Next = (BowlState, Context, Vec<StoreReq>);
type Predicate = fn(&Context) -> bool;
type Rule = fn(&Context, &Context, &BowlMsg, &[StoreReq]) -> bool;

fn next(state: BowlState, ctx: Context) -> Next {
    (state, ctx, Vec::new())
}

pub fn empty(ctx: &Context, msg: &BowlMsg) -> Next {
    let mut ctx = ctx.clone();
    if let BowlMsg::CatMsg(CatMsg::Meow) = *msg {
        if ctx.reserves > 0 {
            // Fill the bowl
            ctx.contents = 100;
            ctx.reserves -= 1;
            if ctx.reserves <= REFILL_THRESHOLD {
                let output = vec![StoreReq::Buy(10)];
                return (BowlState::Full, ctx, output);
            }
            return next(BowlState::Full, ctx);
        } else {
            return next(BowlState::Empty, ctx);
        }
    }

    if let BowlMsg::StoreRpy(StoreRpy::Bowls(num)) = *msg {
        ctx.reserves += num - 1;
        ctx.contents = 100;
        return next(BowlState::Full, ctx);
    }

    next(BowlState::Empty, ctx)
}

pub fn full(ctx: &Context, msg: &BowlMsg) -> Next {
    let mut ctx = ctx.clone();
    if let BowlMsg::CatMsg(CatMsg::Eat(pct)) = *msg {
        if pct >= ctx.contents {
            ctx.contents = 0;
            return next(BowlState::Empty, ctx);
        } else {
            ctx.contents -= pct;
            return next(BowlState::Full, ctx);
        }
    }

    if let BowlMsg::StoreRpy(StoreRpy::Bowls(num)) = *msg {
        ctx.reserves += num;
    }
    next(BowlState::Full, ctx)
}

#[derive(Debug)]
pub struct BowlTypes;

impl FsmHandler for BowlTypes {
    type Context = Context;
    type Msg = BowlMsg;
    type Output = StoreReq;
    type State = BowlState;
    type Predicate = Predicate;
    type Rule = Rule;

    fn name(state: &BowlState) -> &'static str {
        match state {
            BowlState::Empty => "empty",
            BowlState::Full => "full",
        }
    }

    fn apply(state: &BowlState, ctx: &Context, msg: &BowlMsg) -> Next {
        match state {
            BowlState::Empty => empty(ctx, msg),
            BowlState::Full => full(ctx, msg),
        }
    }

    fn eval(pred: &Predicate, ctx: &Context) -> bool {
        pred(ctx)
    }

    fn judge(
        rule: &Rule,
        before: &Context,
        after: &Context,
        msg: &BowlMsg,
        outputs: &Vec<StoreReq>,
    ) -> bool {
        rule(before, after, msg, outputs)
    }

    fn render(ctx: &Context) -> String {
        format!("{:?}", ctx)
    }
}

fn meow() -> BowlMsg {
    BowlMsg::CatMsg(CatMsg::Meow)
}

fn eat(pct: u8) -> BowlMsg {
    BowlMsg::CatMsg(CatMsg::Eat(pct))
}

fn snapshot(fsm: &Fsm<BowlTypes>) -> (&'static str, Context) {
    let (name, ctx) = fsm.get_state();
    (name, ctx.clone())
}

#[test]
/// The blocks keep each borrow of the context that `get_state` returns short.
fn test_state_transitions() {
    let mut fsm = Fsm::<BowlTypes>::new(Context::new(), BowlState::Empty);
    {
        let (name, ctx) = fsm.get_state();
        assert_eq!(name, "empty");
        assert_eq!(ctx.contents, 0);
    }
    fsm.send(BowlMsg::CatMsg(CatMsg::Meow));
    {
        let (name, ctx) = fsm.get_state();
        assert_eq!(name, "full");
        assert_eq!(ctx.contents, 100);
    }
    fsm.send(BowlMsg::CatMsg(CatMsg::Eat(30)));
    {
        let (name, ctx) = fsm.get_state();
        assert_eq!(name, "full");
        assert_eq!(ctx.contents, 70);
    }
    fsm.send(BowlMsg::CatMsg(CatMsg::Meow));
    {
        let (name, ctx) = fsm.get_state();
        assert_eq!(name, "full");
        assert_eq!(ctx.contents, 70);
    }
    fsm.send(BowlMsg::CatMsg(CatMsg::Eat(75)));
    {
        let (name, ctx) = fsm.get_state();
        assert_eq!(name, "empty");
        assert_eq!(ctx.contents, 0);
    }
}

#[test]
fn test_check() {
    let msgs = vec![
        BowlMsg::CatMsg(CatMsg::Meow),
        BowlMsg::CatMsg(CatMsg::Eat(30)),
        BowlMsg::CatMsg(CatMsg::Eat(70)),
        BowlMsg::CatMsg(CatMsg::Meow),
        BowlMsg::CatMsg(CatMsg::Eat(50)),
        BowlMsg::CatMsg(CatMsg::Meow),
    ];
    check_constraints(msgs);
}

fn bowl_constraints() -> Constraints<BowlTypes> {
    let bowl_is_empty: Predicate = |ctx: &Context| ctx.contents == 0;
    let bowl_has_food: Predicate = |ctx: &Context| ctx.contents > 0 && ctx.contents <= 100;
    let bowl_holds_it: Predicate = |ctx: &Context| ctx.contents <= 100;

    let mut c = Constraints::new();
    c.register_precondition("empty", "ctx.contents == 0", bowl_is_empty);
    c.register_precondition("full", "ctx.contents > 0 && ctx.contents <= 100", bowl_has_food);

    c.register_invariant("ctx.contents <= 100", bowl_holds_it);

    c.register_transition("empty", "full", "Transition from empty to full", empty_to_full as Rule);
    c.register_transition("full", "empty", "Transition from full to empty", full_to_empty as Rule);
    c
}

fn check_constraints(msgs: Vec<BowlMsg>) {
    let mut checker = Checker::<BowlTypes>::new(Context::new(), BowlState::Empty, bowl_constraints());
    for msg in msgs {
        assert!(matches!(checker.check(vec![msg]), Ok(_)));
    }
}

fn empty_to_full(
    init_ctx: &Context,
    final_ctx: &Context,
    msg: &BowlMsg,
    _output: &[StoreReq],
) -> bool {
    init_ctx.contents == 0
        && final_ctx.contents == 100
        && match *msg {
            BowlMsg::StoreRpy(_) | BowlMsg::CatMsg(CatMsg::Meow) => true,
            _ => false,
        }
}

fn full_to_empty(
    init_ctx: &Context,
    final_ctx: &Context,
    msg: &BowlMsg,
    _output: &[StoreReq],
) -> bool {
    init_ctx.contents > 0 && final_ctx.contents == 0 && {
        if let BowlMsg::CatMsg(CatMsg::Eat(_)) = *msg {
            true
        } else {
            false
        }
    }
}

#[test]
fn scenario_follows_the_expected_trajectory() {
    let mut fsm = Fsm::<BowlTypes>::new(Context::new(), BowlState::Empty);
    assert_eq!(snapshot(&fsm), ("empty", Context { contents: 0, reserves: 10 }));

    let out = fsm.send(meow());
    assert_eq!(out, vec![StoreReq::Buy(10)]);
    assert_eq!(snapshot(&fsm), ("full", Context { contents: 100, reserves: 9 }));

    let out = fsm.send(eat(30));
    assert_eq!(out, vec![]);
    assert_eq!(snapshot(&fsm), ("full", Context { contents: 70, reserves: 9 }));

    let out = fsm.send(eat(70));
    assert_eq!(out, vec![]);
    assert_eq!(snapshot(&fsm), ("empty", Context { contents: 0, reserves: 9 }));

    let out = fsm.send(meow());
    assert_eq!(out, vec![StoreReq::Buy(10)]);
    assert_eq!(snapshot(&fsm), ("full", Context { contents: 100, reserves: 8 }));

    let out = fsm.send(eat(50));
    assert_eq!(out, vec![]);
    assert_eq!(snapshot(&fsm), ("full", Context { contents: 50, reserves: 8 }));

    let out = fsm.send(meow());
    assert_eq!(out, vec![]);
    assert_eq!(snapshot(&fsm), ("full", Context { contents: 50, reserves: 8 }));
}

#[test]
fn scenario_checks_out_as_one_sequence() {
    let mut checker = Checker::<BowlTypes>::new(Context::new(), BowlState::Empty, bowl_constraints());
    let msgs = vec![meow(), eat(30), eat(70), meow(), eat(50), meow()];
    assert_eq!(checker.check(msgs), Ok(()));
    assert_eq!(snapshot(checker.fsm()), ("full", Context { contents: 50, reserves: 8 }));
}

#[test]
fn scenario_checks_out_step_by_step() {
    let mut checker = Checker::<BowlTypes>::new(Context::new(), BowlState::Empty, bowl_constraints());
    let expected = [
        (meow(), "full", 100, 9),
        (eat(30), "full", 70, 9),
        (eat(70), "empty", 0, 9),
        (meow(), "full", 100, 8),
        (eat(50), "full", 50, 8),
        (meow(), "full", 50, 8),
    ];
    for (msg, name, contents, reserves) in expected {
        assert_eq!(checker.check_one(&msg), Ok(()));
        assert_eq!(snapshot(checker.fsm()), (name, Context { contents, reserves }));
    }
}

#[test]
fn eating_exactly_what_is_there_empties_the_bowl() {
    let mut fsm = Fsm::<BowlTypes>::new(Context { contents: 70, reserves: 9 }, BowlState::Full);
    fsm.send(eat(70));
    assert_eq!(snapshot(&fsm), ("empty", Context { contents: 0, reserves: 9 }));
}

#[test]
fn eating_one_less_than_what_is_there_leaves_one() {
    let mut fsm = Fsm::<BowlTypes>::new(Context { contents: 70, reserves: 9 }, BowlState::Full);
    fsm.send(eat(69));
    assert_eq!(snapshot(&fsm), ("full", Context { contents: 1, reserves: 9 }));
}

#[test]
fn eating_more_than_what_is_there_empties_the_bowl() {
    let mut fsm = Fsm::<BowlTypes>::new(Context { contents: 70, reserves: 9 }, BowlState::Full);
    fsm.send(eat(71));
    assert_eq!(snapshot(&fsm), ("empty", Context { contents: 0, reserves: 9 }));

    let mut fsm = Fsm::<BowlTypes>::new(Context { contents: 1, reserves: 9 }, BowlState::Full);
    fsm.send(eat(255));
    assert_eq!(snapshot(&fsm), ("empty", Context { contents: 0, reserves: 9 }));
}

#[test]
fn replay_is_deterministic() {
    let msgs = vec![meow(), eat(30), eat(70), meow(), eat(50), meow()];
    let mut first = Fsm::<BowlTypes>::new(Context::new(), BowlState::Empty);
    let mut second = Fsm::<BowlTypes>::new(Context::new(), BowlState::Empty);
    for msg in &msgs {
        let a = first.send(msg.clone());
        let b = second.send(msg.clone());
        assert_eq!(a, b);
        assert_eq!(snapshot(&first), snapshot(&second));
    }
    assert_eq!(snapshot(&first), ("full", Context { contents: 50, reserves: 8 }));
}

#[test]
fn step_hands_back_the_context_as_it_was() {
    let mut fsm = Fsm::<BowlTypes>::new(Context::new(), BowlState::Empty);
    let (before, outputs) = fsm.step(&meow());
    assert_eq!(before, Context { contents: 0, reserves: 10 });
    assert_eq!(outputs, vec![StoreReq::Buy(10)]);
    assert_eq!(snapshot(&fsm), ("full", Context { contents: 100, reserves: 9 }));
}
