use vstd::prelude::*;

verus! {

/// A native-token balance: a denomination and an amount, as the engine's
/// embedding hands them in from the funds attached to a call.
pub struct Coin {
    pub denom: String,
    pub amount: u128,
}

/// The amount carried by the first coin in `coins` bearing `denom`; zero
/// when none does.
pub open spec fn denom_amount(coins: Seq<Coin>, denom: Seq<char>) -> u128
    decreases coins.len(),
{
    if coins.len() == 0 {
        0
    } else if coins[0].denom@ == denom {
        coins[0].amount
    } else {
        denom_amount(coins.drop_first(), denom)
    }
}

proof fn lemma_denom_amount_no_match(coins: Seq<Coin>, denom: Seq<char>)
    requires
        forall|j: int| 0 <= j < coins.len() ==> (#[trigger] coins[j]).denom@ != denom,
    ensures
        denom_amount(coins, denom) == 0,
    decreases coins.len(),
{
    if coins.len() > 0 {
        lemma_denom_amount_no_match(coins.drop_first(), denom);
    }
}

proof fn lemma_denom_amount_first_match(coins: Seq<Coin>, denom: Seq<char>, i: int)
    requires
        0 <= i < coins.len(),
        coins[i].denom@ == denom,
        forall|j: int| 0 <= j < i ==> (#[trigger] coins[j]).denom@ != denom,
    ensures
        denom_amount(coins, denom) == coins[i].amount,
    decreases i,
{
    if i > 0 {
        lemma_denom_amount_first_match(coins.drop_first(), denom, i - 1);
    }
}

/// Picks the amount of the native denomination `denom` out of a list of
/// attached coins, taking the first match and zero when the denomination is
/// absent.
pub fn get_denom_amount_from_coins(coins: &Vec<Coin>, denom: &String) -> (amount: u128)
    ensures
        amount == denom_amount(coins@, denom@),
{
    let n = coins.len();
    let mut i: usize = 0;
    while i < n
        invariant
            n == coins@.len(),
            i <= n,
            forall|j: int| 0 <= j < i ==> (#[trigger] coins@[j]).denom@ != denom@,
        decreases n - i,
    {
        if coins[i].denom == *denom {
            proof {
                lemma_denom_amount_first_match(coins@, denom@, i as int);
            }
            return coins[i].amount;
        }
        i = i + 1;
    }
    proof {
        lemma_denom_amount_no_match(coins@, denom@);
    }
    0
}

} // verus!
