use vstd::prelude::*;

verus! {

/// Number of leading candles (the Donchian and KAMA warm-up) for which the
/// derived position indicators stay at their neutral value.
pub const WARM_UP: usize = 21;

/// Which price of a candle the Donchian position is measured from.
#[derive(Clone, Copy, Debug, PartialEq, Eq, Structural)]
pub enum Extreme {
    High,
    Low,
}

/// The comparisons on candle `i` and its indicator values that decide how the
/// derived positions at `i` are computed.
#[derive(Clone, Copy, Debug, PartialEq, Eq, Structural)]
pub struct StepFacts {
    /// `close[i] >= close[i - 1]`.
    pub non_down: bool,
    /// `donchian_upper[i] == donchian_lower[i]`: the channel has no range.
    pub flat_channel: bool,
    /// `atr14[i] == 0`.
    pub zero_atr: bool,
}

/// How the three derived positions at one index are formed.
#[derive(Clone, Copy, Debug, PartialEq, Eq, Structural)]
pub enum Placement {
    /// All three positions hold the neutral value `0`.
    Neutral,
    /// `donc_position` is measured from `price` within the channel,
    /// `kama_donc_position` from KAMA within the channel, and
    /// `close_kama_position` is the close-to-KAMA distance in units of twice the
    /// ATR when `scaled`, else the neutral value.
    Channel { price: Extreme, scaled: bool },
}

/// The placement at index `i` given the facts of that index.
pub open spec fn placement_at(i: int, f: StepFacts) -> Placement {
    if i < WARM_UP || f.flat_channel {
        Placement::Neutral
    } else {
        Placement::Channel {
            price: if f.non_down {
                Extreme::High
            } else {
                Extreme::Low
            },
            scaled: !f.zero_atr,
        }
    }
}

/// The placement of the derived positions at every index of a series.
pub fn place_positions(facts: &Vec<StepFacts>) -> (r: Vec<Placement>)
    ensures
        r.len() == facts.len(),
        forall|i: int| 0 <= i < r.len() ==> r@[i] == placement_at(i, #[trigger] facts@[i]),
        // undefined during the warm-up
        forall|i: int| 0 <= i < r.len() && i < WARM_UP ==> #[trigger] r@[i] == Placement::Neutral,
        // directional extreme: the high on a non-down candle, the low on a down one
        forall|i: int|
            WARM_UP <= i < r.len() && !facts@[i].flat_channel ==> #[trigger] r@[i] is Channel && (
            r@[i]->price == Extreme::High <==> facts@[i].non_down),
        // a zero ATR leaves only the close-to-KAMA position neutral
        forall|i: int|
            WARM_UP <= i < r.len() && !facts@[i].flat_channel && facts@[i].zero_atr
                ==> #[trigger] r@[i] is Channel && !r@[i]->scaled,
{
    let mut r: Vec<Placement> = Vec::new();
    let mut i: usize = 0;
    while i < facts.len()
        invariant
            i <= facts.len(),
            r.len() == i,
            forall|j: int| 0 <= j < i ==> r@[j] == placement_at(j, #[trigger] facts@[j]),
        decreases facts.len() - i,
    {
        let f = facts[i];
        let p = if i < WARM_UP || f.flat_channel {
            Placement::Neutral
        } else {
            let price = if f.non_down {
                Extreme::High
            } else {
                Extreme::Low
            };
            Placement::Channel { price, scaled: !f.zero_atr }
        };
        r.push(p);
        i = i + 1;
    }
    assert forall|i: int| 0 <= i < r.len() implies #[trigger] r@[i] == placement_at(i, facts@[i]) by {}
    r
}

/// In a flat market, where the channel has no range at every index from the
/// warm-up on, every derived position is neutral at every index.
pub proof fn lemma_flat_market_is_neutral(facts: Seq<StepFacts>)
    requires
        forall|i: int| WARM_UP <= i < facts.len() ==> #[trigger] facts[i].flat_channel,
    ensures
        forall|i: int| 0 <= i < facts.len() ==> placement_at(i, #[trigger] facts[i]) == Placement::Neutral,
{
}

/// Whether the one-step rate of change at each index is computed: at every
/// index but the first, unless the previous value is zero. `prev_is_zero[i]`
/// tells whether the value at `i - 1` is zero.
pub fn rate_defined(prev_is_zero: &Vec<bool>) -> (r: Vec<bool>)
    ensures
        r.len() == prev_is_zero.len(),
        forall|i: int| 0 <= i < r.len() ==> #[trigger] r@[i] == (i > 0 && !prev_is_zero@[i]),
{
    let mut r: Vec<bool> = Vec::new();
    let mut i: usize = 0;
    while i < prev_is_zero.len()
        invariant
            i <= prev_is_zero.len(),
            r.len() == i,
            forall|j: int| 0 <= j < i ==> #[trigger] r@[j] == (j > 0 && !prev_is_zero@[j]),
        decreases prev_is_zero.len() - i,
    {
        r.push(i > 0 && !prev_is_zero[i]);
        i = i + 1;
    }
    r
}

} // verus!
