//! Starting an activation of a closure.

use vstd::prelude::*;

use crate::value::{KutClosure, KutFunction, KutValue};
use crate::vm::KutVm;

use std::rc::Rc;

verus! {

impl KutClosure {
    /// Start one invocation of the closure: a fresh activation whose
    /// register file holds `register_count` copies of `Nil` and whose
    /// operand stack is empty.
    pub fn start(closure: Rc<KutClosure>, vm: &KutVm) -> (r: KutFunction)
        requires
            (closure.template as int) < vm.templates@.len(),
        ensures
            r.closure == closure,
            r.registers@.len() == vm.templates@[closure.template as int].register_count as int,
            forall|i: int| 0 <= i < r.registers@.len() ==> r.registers@[i] == KutValue::Nil,
            r.call_stack@.len() == 0,
    {
        let count = vm.templates[closure.template].register_count;
        let registers: Vec<KutValue> = vec![KutValue::Nil; count as usize];
        proof {
            assert forall|i: int| 0 <= i < registers@.len() implies registers@[i]
                == KutValue::Nil by {
                assert(cloned::<KutValue>(KutValue::Nil, registers@[i]));
            }
        }
        KutFunction { closure, registers, call_stack: Vec::new() }
    }
}

} // verus!
