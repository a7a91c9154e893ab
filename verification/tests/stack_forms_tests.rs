//! The stack-oriented instruction variants: PushLiteral, PushCapture,
//! PopCaptureS, PushFuncStk, and the capture-slot range errors.

use std::rc::Rc;

use kut_vm::value::{
    CellPool, KutCaptureInfo, KutClosure, KutError, KutFunction, KutFunctionTemplate,
    KutInstruction, KutValue,
};
use kut_vm::vm::KutVm;

fn num(x: f64) -> KutValue {
    KutValue::Number(x.to_bits())
}

fn activation_with_capture(cell: usize) -> KutFunction {
    let closure = Rc::new(KutClosure { template: 0, captures: vec![KutValue::Reference(cell)] });
    KutFunction { closure, registers: vec![KutValue::Nil, KutValue::Nil], call_stack: vec![] }
}

#[test]
fn push_literal_and_ret_s_round_trip() {
    let vm = KutVm::new(
        vec![num(6.0)],
        vec![KutFunctionTemplate::new(
            vec![KutInstruction::PushLiteral { literal: 0 }, KutInstruction::RetfMethodS],
            vec![],
            1,
        )],
    );
    let mut cells = CellPool::new();
    let closure = Rc::new(vm.templates[0].capture_unbound(0).unwrap());
    let mut act = KutClosure::start(closure, &vm);
    assert_eq!(act.run(&vm, &mut cells), Ok(Some(num(6.0))));
}

#[test]
fn push_capture_reads_through_the_cell() {
    let vm = KutVm::new(vec![], vec![KutFunctionTemplate::new(vec![], vec![], 2)]);
    let mut cells = CellPool::new();
    cells.cells.push(num(4.0));
    let mut act = activation_with_capture(0);
    let r = KutInstruction::PushCapture { capture: 0 }.run(&mut act, &vm, &mut cells);
    assert_eq!(r, Ok(None));
    assert_eq!(act.call_stack, vec![num(4.0)]);
}

#[test]
fn pop_capture_stores_the_popped_operand() {
    let vm = KutVm::new(vec![], vec![KutFunctionTemplate::new(vec![], vec![], 2)]);
    let mut cells = CellPool::new();
    cells.cells.push(num(4.0));
    let mut act = activation_with_capture(0);
    act.call_stack.push(num(11.0));
    let r = KutInstruction::PopCaptureS { capture: 0 }.run(&mut act, &vm, &mut cells);
    assert_eq!(r, Ok(None));
    assert!(act.call_stack.is_empty());
    assert_eq!(cells.cells[0], num(11.0));
}

#[test]
fn pop_capture_on_empty_stack_underflows() {
    let vm = KutVm::new(vec![], vec![KutFunctionTemplate::new(vec![], vec![], 1)]);
    let mut cells = CellPool::new();
    cells.cells.push(num(4.0));
    let mut act = activation_with_capture(0);
    let r = KutInstruction::PopCaptureS { capture: 0 }.run(&mut act, &vm, &mut cells);
    assert_eq!(r, Err(KutError::StackUnderflow));
}

#[test]
fn get_capture_out_of_range_cites_capture_count() {
    let vm = KutVm::new(vec![], vec![KutFunctionTemplate::new(vec![], vec![], 2)]);
    let mut cells = CellPool::new();
    cells.cells.push(num(4.0));
    let mut act = activation_with_capture(0);
    let r = KutInstruction::GetCaptureR { reg: 0, capture: 3 }.run(&mut act, &vm, &mut cells);
    assert_eq!(
        r,
        Err(KutError::OutOfRangeSourceCapture { capture: 3, capture_count: 1 })
    );
}

#[test]
fn transitive_capture_out_of_range_slot_fails_capture() {
    // the inner template asks for capture slot 5 of an enclosing closure
    // that has only one
    let templates = vec![
        KutFunctionTemplate::new(
            vec![KutInstruction::CaptureFunc { reg: 0, template: 1 }],
            vec![],
            1,
        ),
        KutFunctionTemplate::new(vec![], vec![KutCaptureInfo::Capture(5)], 1),
    ];
    let vm = KutVm::new(vec![], templates);
    let mut cells = CellPool::new();
    cells.cells.push(num(4.0));
    let mut act = activation_with_capture(0);
    let r = act.run(&vm, &mut cells);
    assert_eq!(
        r,
        Err(KutError::OutOfRangeSourceCapture { capture: 5, capture_count: 1 })
    );
}

#[test]
fn push_func_stk_pushes_the_new_closure() {
    let templates = vec![
        KutFunctionTemplate::new(
            vec![
                KutInstruction::GetLiteralR { reg: 0, literal: 0 },
                KutInstruction::PushFuncStk { template: 1 },
                KutInstruction::RetfMethodS,
            ],
            vec![],
            1,
        ),
        KutFunctionTemplate::new(vec![], vec![KutCaptureInfo::Register(0)], 1),
    ];
    let vm = KutVm::new(vec![num(2.0)], templates);
    let mut cells = CellPool::new();
    let closure = Rc::new(vm.templates[0].capture_unbound(0).unwrap());
    let mut act = KutClosure::start(closure, &vm);
    let r = act.run(&vm, &mut cells);
    match r {
        Ok(Some(KutValue::Func(f))) => {
            assert_eq!(f.template, 1);
            assert_eq!(f.captures, vec![KutValue::Reference(0)]);
            assert_eq!(act.registers[0], KutValue::Reference(0));
            assert_eq!(cells.cells[0], num(2.0));
        },
        other => panic!("expected a closure to come back, found {:?}", other),
    }
}

#[test]
fn push_value_3_pushes_in_argument_order() {
    let vm = KutVm::new(
        vec![num(1.0), num(2.0), num(3.0)],
        vec![KutFunctionTemplate::new(
            vec![
                KutInstruction::GetLiteralR { reg: 0, literal: 0 },
                KutInstruction::GetLiteralR { reg: 1, literal: 1 },
                KutInstruction::GetLiteralR { reg: 2, literal: 2 },
                KutInstruction::PushValue3R { val1: 2, val2: 0, val3: 1 },
            ],
            vec![],
            3,
        )],
    );
    let mut cells = CellPool::new();
    let closure = Rc::new(vm.templates[0].capture_unbound(0).unwrap());
    let mut act = KutClosure::start(closure, &vm);
    assert_eq!(act.run(&vm, &mut cells), Ok(None));
    assert_eq!(act.call_stack, vec![num(3.0), num(1.0), num(2.0)]);
}
