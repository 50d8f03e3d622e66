//! Helpers of the clock configuration.

use vstd::prelude::*;
use vstd::std_specs::cmp::PartialEqSpec;
use vstd::std_specs::iter::IteratorSpec;
use vstd::std_specs::ops::DivSpec;
use crate::time::Hertz;

verus! {

/// Peripheral clock and timer clock of a bus.
///
/// The peripheral clock is the bus clock divided by the prescaler. Timers run at the peripheral
/// clock if the prescaler leaves the bus clock as it is, and at twice the peripheral clock
/// otherwise.
pub fn calc_pclk<D>(hclk: Hertz, ppre: D) -> (r: (Hertz, Hertz)) where Hertz: core::ops::Div<D, Output = Hertz>
    requires
        <Hertz as DivSpec<D>>::obeys_div_spec(),
        hclk.div_req(ppre),
        hclk.div_spec(ppre) != hclk ==> 2 * hclk.div_spec(ppre).0 <= u32::MAX,
    ensures
        r.0 == hclk.div_spec(ppre),
        r.1 == (if r.0 == hclk {
            r.0
        } else {
            Hertz((2 * r.0.0) as u32)
        }),
{
    let pclk = hclk / ppre;
    let pclk_tim = if hclk == pclk {
        pclk
    } else {
        pclk * 2u32
    };
    (pclk, pclk_tim)
}

/// Whether every item of a sequence equals the first.
pub open spec fn all_like_first<T: PartialEq>(s: Seq<T>) -> bool {
    forall|i: int| 1 <= i < s.len() ==> (#[trigger] s[i]).eq_spec(&s[0])
}

/// Whether the items that `iter` yields are all equal.
pub fn all_equal<T: Eq>(iter: impl Iterator<Item = T>) -> (r: bool)
    requires
        iter.obeys_prophetic_iter_laws(),
        iter.decrease() is Some,
        T::obeys_eq_spec(),
    ensures
        r == all_like_first(iter.remaining()),
{
    match get_equal(iter) {
        Ok(_) => true,
        Err(()) => false,
    }
}

/// The item that `iter` yields, if it always yields the same: `None` if it yields nothing, an
/// error if two items differ.
pub fn get_equal<T: Eq>(iter: impl Iterator<Item = T>) -> (r: Result<Option<T>, ()>)
    requires
        iter.obeys_prophetic_iter_laws(),
        iter.decrease() is Some,
        T::obeys_eq_spec(),
    ensures
        r is Ok <==> all_like_first(iter.remaining()),
        r matches Ok(item) ==> item == (if iter.remaining().len() == 0 {
            None
        } else {
            Some(iter.remaining()[0])
        }),
{
    let ghost items = iter.remaining();
    let mut rest = iter;
    let x = match rest.next() {
        Some(x) => x,
        None => {
            return Ok(None);
        },
    };
    let ghost mut seen: int = 1;
    loop
        invariant
            rest.obeys_prophetic_iter_laws(),
            rest.decrease() is Some,
            T::obeys_eq_spec(),
            items == iter.remaining(),
            1 <= seen <= items.len(),
            x == items[0],
            rest.remaining() == items.skip(seen),
            forall|i: int| 1 <= i < seen ==> (#[trigger] items[i]).eq_spec(&items[0]),
        decreases rest.decrease()->0,
    {
        match rest.next() {
            Some(y) => {
                assert(y == items[seen]);
                if !(y == x) {
                    return Err(());
                }
                proof {
                    assert(items.skip(seen).drop_first() =~= items.skip(seen + 1));
                    seen = seen + 1;
                }
            },
            None => {
                return Ok(Some(x));
            },
        }
    }
}

/// Items that are compared as numbers are all like the first exactly if any two are equal.
pub proof fn law_all_like_first(s: Seq<u64>)
    ensures
        all_like_first(s) <==> forall|i: int, j: int| 0 <= i < s.len() && 0 <= j < s.len() ==> s[i] == s[j],
{
    if all_like_first(s) {
        assert forall|i: int, j: int| 0 <= i < s.len() && 0 <= j < s.len() implies s[i] == s[j] by {
            assert(i >= 1 ==> s[i].eq_spec(&s[0]));
            assert(j >= 1 ==> s[j].eq_spec(&s[0]));
        }
    }
}

} // verus!
