//! The VM container: the literal pool and the template pool of one program,
//! immutable once constructed and shared read-only by every activation.

use vstd::prelude::*;

use crate::value::{abs_seq, values_ok, KutFunctionTemplate, KutValue};

verus! {

/// The VM container.
pub struct KutVm {
    pub literals: Vec<KutValue>,
    pub templates: Vec<KutFunctionTemplate>,
}

/// Well-formedness of the pools a host hands over: literals carry no
/// `Reference` (the run's cell pool starts empty, so none could be live) and
/// any literal closure names a live template and captures no cell.
pub open spec fn vm_ok(vm: KutVm) -> bool {
    values_ok(abs_seq(vm.literals@), 0, vm.templates@.len() as int)
}

impl KutVm {
    /// Construct the container from the host's pools.
    pub fn new(literals: Vec<KutValue>, templates: Vec<KutFunctionTemplate>) -> (vm: KutVm)
        ensures
            vm.literals == literals,
            vm.templates == templates,
    {
        KutVm { literals, templates }
    }
}

} // verus!
