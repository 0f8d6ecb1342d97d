//! Platform support for asynchronous executors.
use crate::port::Op;
use crate::time_driver::{start_program, TmrDriver};
use vstd::prelude::*;

verus! {

/// Bring up the platform: start the timebase. Running the program once is enough; from then on
/// there is nothing to run.
pub fn init(driver: &mut TmrDriver) -> (program: Vec<Op>)
    ensures
        final(driver).started,
        final(driver).base == old(driver).base,
        final(driver).last_boundary == old(driver).last_boundary,
        final(driver).queue == old(driver).queue,
        program@ == (if old(driver).started {
            Seq::empty()
        } else {
            start_program()
        }),
{
    crate::time_driver::init(driver)
}

} // verus!
