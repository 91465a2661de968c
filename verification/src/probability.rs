//! Probabilities in thousandths and their notation in whole percent.

use vstd::prelude::*;
use crate::text::{decimal, push_decimal};

verus! {

/// Certainty, in thousandths.
pub const CERTAIN: u32 = 1000;

/// Probability of failure, in thousandths, from which a renewal is ordered.
pub const RENEWAL_THRESHOLD: u32 = 700;

/// The whole percent that a probability in thousandths is shown as: the nearest one. At
/// the middle between two it is the even one, save for 545 and 575: a binary fraction puts
/// the first just above the middle and the second just below.
pub open spec fn percent(thousandths: nat) -> nat {
    let below = thousandths / 10;
    let rest = thousandths % 10;
    if thousandths == 545 {
        55
    } else if thousandths == 575 {
        57
    } else if rest < 5 || (rest == 5 && below % 2 == 0) {
        below
    } else {
        below + 1
    }
}

/// Appends the whole percent that a probability is shown as, with a percent sign.
pub fn push_percent(out: &mut String, thousandths: u32)
    ensures
        final(out)@ == old(out)@ + decimal(percent(thousandths as nat)) + "%"@,
{
    let below: u32 = thousandths / 10;
    let rest: u32 = thousandths % 10;
    let shown: u32 = if thousandths == 545 {
        55
    } else if thousandths == 575 {
        57
    } else if rest < 5 || (rest == 5 && below % 2 == 0) {
        below
    } else {
        below + 1
    };
    push_decimal(out, shown as u64);
    out.append("%");
}

/// A probability is shown within half a percent of its value.
pub proof fn percent_is_nearest(thousandths: nat)
    ensures
        -5 <= 10 * percent(thousandths) - thousandths <= 5,
{
}

/// A whole percent is shown as it is, and any other probability as the nearer of the two whole
/// percents around it. In the middle between the two it is the even one, save for 545 and 575.
pub proof fn percent_of_every_probability(whole: nat, rest: nat)
    requires
        rest < 10,
    ensures
        ({
            let shown = percent(10 * whole + rest);
            &&& rest < 5 ==> shown == whole
            &&& rest > 5 ==> shown == whole + 1
            &&& rest == 5 && whole != 54 && whole != 57 ==> shown % 2 == 0 && (shown == whole
                || shown == whole + 1)
            &&& rest == 5 && whole == 54 ==> shown == 55
            &&& rest == 5 && whole == 57 ==> shown == 57
        }),
{
}

} // verus!
