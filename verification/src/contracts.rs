//! The contract that every discovered-service record offers its consumers:
//! each record can say what it is called, how it is identified, and which
//! scrape target it belongs to.

use vstd::prelude::*;

verus! {

/// Implemented by each kind of discovered-service record that the exporters
/// render into scrape configurations.
pub trait DataContract {
    fn get_name(&self) -> String;

    fn get_id(&self) -> String;

    fn get_target_name(&self) -> String;
}

} // verus!
