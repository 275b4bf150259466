//! The values a chain's configuration takes when it leaves a field out.

use vstd::prelude::*;
use crate::config::RefreshPeriod;

verus! {

/// The default polling period: thirty seconds.
pub fn refresh() -> (r: RefreshPeriod)
    ensures
        r.secs == 30,
        r.nanos == 0,
{
    RefreshPeriod { secs: 30, nanos: 0 }
}

/// The default statuses to watch: all of them, codes 1 to 5.
pub fn filter_status() -> (v: Vec<i32>)
    ensures
        v@ == seq![1i32, 2, 3, 4, 5],
{
    let v = vec![1, 2, 3, 4, 5];
    assert(v@ =~= seq![1i32, 2, 3, 4, 5]);
    v
}

} // verus!
