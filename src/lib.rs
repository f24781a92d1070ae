use vstd::prelude::*;

pub mod console;
pub mod engine;
pub mod ledger;
pub mod parse;
pub mod record;

verus! {

} // verus!
