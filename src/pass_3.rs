//! Rules of attribute evaluation that decide which contributions apply, in
//! which order, and how strongly a stacking penalty weakens them.
use vstd::prelude::*;

use crate::item::{Effect, EffectCategory, EffectOperator};

verus! {

/// Evaluation of attribute values.
pub struct PassThree {}

/// The order in which operator groups are applied.
pub open spec fn operator_order() -> Seq<EffectOperator> {
    seq![
        EffectOperator::PreAssign,
        EffectOperator::PreMul,
        EffectOperator::PreDiv,
        EffectOperator::ModAdd,
        EffectOperator::ModSub,
        EffectOperator::PostMul,
        EffectOperator::PostDiv,
        EffectOperator::PostPercent,
        EffectOperator::PostAssign,
    ]
}

/// The contributions to one attribute that one operator applies, split into
/// those that take no stacking penalty and those that do.
#[derive(Debug, Clone)]
pub struct Bucket {
    pub operator: EffectOperator,
    pub plain: Vec<Effect>,
    pub penalised: Vec<Effect>,
}

/// Contribution `e` counts, given its source's state (`None`: the source is absent).
pub open spec fn counts(e: Effect, state: Option<EffectCategory>) -> bool {
    match state {
        Some(s) => e.source_category.spec_level() <= s.spec_level(),
        None => false,
    }
}

/// The contributions of operator `op` that count, in order, restricted to the
/// penalised ones or to the others.
pub open spec fn selected(
    effects: Seq<Effect>,
    states: Seq<Option<EffectCategory>>,
    op: EffectOperator,
    penalised: bool,
) -> Seq<Effect>
    decreases effects.len(),
{
    if effects.len() == 0 {
        Seq::empty()
    } else {
        let e = effects.last();
        let prev = selected(effects.drop_last(), states, op, penalised);
        if e.operator == op && counts(e, states[effects.len() - 1]) && (e.penalty
            && op.spec_penalty_eligible()) == penalised {
            prev.push(e)
        } else {
            prev
        }
    }
}

proof fn lemma_selected_unpenalised(
    effects: Seq<Effect>,
    states: Seq<Option<EffectCategory>>,
    op: EffectOperator,
)
    requires
        !op.spec_penalty_eligible(),
    ensures
        selected(effects, states, op, true).len() == 0,
    decreases effects.len(),
{
    if effects.len() > 0 {
        lemma_selected_unpenalised(effects.drop_last(), states, op);
    }
}

fn select(
    effects: &Vec<Effect>,
    states: &Vec<Option<EffectCategory>>,
    op: EffectOperator,
) -> (r: (Vec<Effect>, Vec<Effect>))
    requires
        states@.len() == effects@.len(),
    ensures
        r.0@ == selected(effects@, states@, op, false),
        r.1@ == selected(effects@, states@, op, true),
{
    let mut plain: Vec<Effect> = Vec::new();
    let mut penalised: Vec<Effect> = Vec::new();
    let mut i: usize = 0;
    while i < effects.len()
        invariant
            0 <= i <= effects@.len(),
            states@.len() == effects@.len(),
            plain@ == selected(effects@.take(i as int), states@, op, false),
            penalised@ == selected(effects@.take(i as int), states@, op, true),
        decreases effects@.len() - i,
    {
        let e = effects[i];
        proof {
            assert(effects@.take(i + 1).drop_last() =~= effects@.take(i as int));
        }
        let applies = match states[i] {
            Some(s) => PassThree::applies(&e, s),
            None => false,
        };
        if e.operator == op && applies {
            if e.penalty && op.is_penalty_eligible() {
                penalised.push(e);
            } else {
                plain.push(e);
            }
        }
        i = i + 1;
    }
    proof {
        assert(effects@.take(effects@.len() as int) =~= effects@);
    }
    (plain, penalised)
}

impl PassThree {
    /// Groups the contributions to one attribute by operator, in the order of
    /// application. `states[i]` is the state of the source of `effects[i]`
    /// (`None` when that source does not exist); a contribution whose source is
    /// less active than its category is left out. Only multiplicative
    /// operators ever hold penalised contributions.
    pub fn buckets(effects: &Vec<Effect>, states: &Vec<Option<EffectCategory>>) -> (r: Vec<Bucket>)
        requires
            states@.len() == effects@.len(),
        ensures
            r@.len() == 9,
            forall|i: int|
                0 <= i < 9 ==> {
                    &&& (#[trigger] r@[i]).operator == operator_order()[i]
                    &&& r@[i].plain@ == selected(effects@, states@, operator_order()[i], false)
                    &&& r@[i].penalised@ == selected(effects@, states@, operator_order()[i], true)
                },
            forall|i: int|
                0 <= i < 9 && !(#[trigger] r@[i]).operator.spec_penalty_eligible()
                    ==> r@[i].penalised@.len() == 0,
    {
        let operators = PassThree::operators();
        let mut r: Vec<Bucket> = Vec::new();
        let mut k: usize = 0;
        while k < operators.len()
            invariant
                0 <= k <= 9,
                operators@ == operator_order(),
                states@.len() == effects@.len(),
                r@.len() == k,
                forall|i: int|
                    0 <= i < k ==> {
                        &&& (#[trigger] r@[i]).operator == operator_order()[i]
                        &&& r@[i].plain@ == selected(effects@, states@, operator_order()[i], false)
                        &&& r@[i].penalised@ == selected(
                            effects@,
                            states@,
                            operator_order()[i],
                            true,
                        )
                    },
            decreases 9 - k,
        {
            let op = operators[k];
            let (plain, penalised) = select(effects, states, op);
            r.push(Bucket { operator: op, plain, penalised });
            k = k + 1;
        }
        proof {
            assert forall|i: int|
                0 <= i < 9 && !(#[trigger] r@[i]).operator.spec_penalty_eligible() implies r@[i].penalised@.len()
                    == 0 by {
                lemma_selected_unpenalised(effects@, states@, r@[i].operator);
            }
        }
        r
    }

    /// Every operator once, in the order of application.
    pub fn operators() -> (r: Vec<EffectOperator>)
        ensures
            r@ == operator_order(),
            forall|i: int| 0 <= i < r@.len() ==> (#[trigger] r@[i]).spec_rank() == i,
    {
        let r = vec![
            EffectOperator::PreAssign,
            EffectOperator::PreMul,
            EffectOperator::PreDiv,
            EffectOperator::ModAdd,
            EffectOperator::ModSub,
            EffectOperator::PostMul,
            EffectOperator::PostDiv,
            EffectOperator::PostPercent,
            EffectOperator::PostAssign,
        ];
        assert(r@ =~= operator_order());
        r
    }

    /// A contribution counts only when its source is at least as active as the
    /// effect's category.
    pub fn applies(effect: &Effect, source_state: EffectCategory) -> (r: bool)
        ensures
            r == (effect.source_category.spec_level() <= source_state.spec_level()),
    {
        effect.source_category.level() <= source_state.level()
    }

    /// A contribution is stacking-penalised when it is flagged so and its
    /// operator is multiplicative.
    pub fn is_penalised(effect: &Effect) -> (r: bool)
        ensures
            r == (effect.penalty && effect.operator.spec_penalty_eligible()),
    {
        effect.penalty && effect.operator.is_penalty_eligible()
    }

    /// The power of the penalty base applied to the `k`-th strongest (from 0)
    /// penalised contribution of one sign: `k²`.
    pub fn penalty_exponent(k: usize) -> (r: i32)
        requires
            k * k <= i32::MAX,
        ensures
            r == k * k,
    {
        assert(k <= 46341) by (nonlinear_arith)
            requires
                k * k <= i32::MAX,
        ;
        (k * k) as i32
    }
}

} // verus!
