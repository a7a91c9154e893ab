//! Behaviour of single instructions and whole runs, on concrete programs.

use std::rc::Rc;

use kut_vm::value::{
    CellPool, KutClosure, KutError, KutFunction, KutFunctionTemplate, KutInstruction, KutValue,
    KutValueKind,
};
use kut_vm::vm::KutVm;

fn num(x: f64) -> KutValue {
    KutValue::Number(x.to_bits())
}

fn fresh_activation(vm: &KutVm, template: usize) -> KutFunction {
    let closure = Rc::new(KutClosure { template, captures: vec![] });
    KutClosure::start(closure, vm)
}

#[test]
fn get_literal_round_trips_exact_value() {
    let vm = KutVm::new(
        vec![num(5.0)],
        vec![KutFunctionTemplate::new(vec![], vec![], 2)],
    );
    let mut cells = CellPool::new();
    let mut act = fresh_activation(&vm, 0);
    let r = KutInstruction::GetLiteralR { reg: 1, literal: 0 }.run(&mut act, &vm, &mut cells);
    assert_eq!(r, Ok(None));
    assert_eq!(act.registers[1], num(5.0));
    assert_eq!(act.registers[0], KutValue::Nil);
    assert!(act.call_stack.is_empty());
}

#[test]
fn get_literal_shares_string_allocation() {
    let text = Rc::new(String::from("zort"));
    let vm = KutVm::new(
        vec![KutValue::String(Rc::clone(&text))],
        vec![KutFunctionTemplate::new(vec![], vec![], 1)],
    );
    let mut cells = CellPool::new();
    let mut act = fresh_activation(&vm, 0);
    let r = KutInstruction::GetLiteralR { reg: 0, literal: 0 }.run(&mut act, &vm, &mut cells);
    assert_eq!(r, Ok(None));
    match &act.registers[0] {
        KutValue::String(s) => assert!(Rc::ptr_eq(s, &text)),
        other => panic!("expected a string, found {:?}", other),
    }
}

#[test]
fn get_literal_out_of_range_cites_index_and_length() {
    let vm = KutVm::new(
        vec![num(5.0)],
        vec![KutFunctionTemplate::new(vec![], vec![], 1)],
    );
    let mut cells = CellPool::new();
    let mut act = fresh_activation(&vm, 0);
    let r = KutInstruction::GetLiteralR { reg: 0, literal: 99 }.run(&mut act, &vm, &mut cells);
    assert_eq!(
        r,
        Err(KutError::OutOfRangeLiteral { literal: 99, literal_count: 1 })
    );
    assert_eq!(act.registers[0], KutValue::Nil);
}

#[test]
fn mov_register_out_of_range_source() {
    let vm = KutVm::new(vec![], vec![KutFunctionTemplate::new(vec![], vec![], 2)]);
    let mut cells = CellPool::new();
    let mut act = fresh_activation(&vm, 0);
    let r =
        KutInstruction::MovRegister { destination: 0, source: 7 }.run(&mut act, &vm, &mut cells);
    assert_eq!(
        r,
        Err(KutError::OutOfRangeSourceRegister { register: 7, register_count: 2 })
    );
}

#[test]
fn mov_register_same_register_is_noop_even_out_of_range() {
    let vm = KutVm::new(vec![], vec![KutFunctionTemplate::new(vec![], vec![], 1)]);
    let mut cells = CellPool::new();
    let mut act = fresh_activation(&vm, 0);
    let r =
        KutInstruction::MovRegister { destination: 9, source: 9 }.run(&mut act, &vm, &mut cells);
    assert_eq!(r, Ok(None));
}

#[test]
fn swap_out_of_range_cites_first_offending_register() {
    let vm = KutVm::new(vec![], vec![KutFunctionTemplate::new(vec![], vec![], 2)]);
    let mut cells = CellPool::new();
    let mut act = fresh_activation(&vm, 0);
    let r = KutInstruction::SwapValuesR { reg1: 5, reg2: 0 }.run(&mut act, &vm, &mut cells);
    assert_eq!(
        r,
        Err(KutError::OutOfRangeSwapRegister { register: 5, register_count: 2 })
    );
    let r = KutInstruction::SwapValuesR { reg1: 0, reg2: 6 }.run(&mut act, &vm, &mut cells);
    assert_eq!(
        r,
        Err(KutError::OutOfRangeSwapRegister { register: 6, register_count: 2 })
    );
}

#[test]
fn ret_s_on_empty_stack_underflows() {
    let vm = KutVm::new(vec![], vec![KutFunctionTemplate::new(vec![], vec![], 1)]);
    let mut cells = CellPool::new();
    let mut act = fresh_activation(&vm, 0);
    let r = KutInstruction::RetfMethodS.run(&mut act, &vm, &mut cells);
    assert_eq!(r, Err(KutError::StackUnderflow));
}

#[test]
fn pop_capture_pops_before_reporting_bad_capture() {
    let vm = KutVm::new(vec![num(1.0)], vec![KutFunctionTemplate::new(vec![], vec![], 1)]);
    let mut cells = CellPool::new();
    let mut act = fresh_activation(&vm, 0);
    act.call_stack.push(num(1.0));
    let r = KutInstruction::PopCaptureS { capture: 5 }.run(&mut act, &vm, &mut cells);
    assert_eq!(
        r,
        Err(KutError::OutOfRangeDestinationCapture { capture: 5, capture_count: 0 })
    );
    // the operand was already popped when the capture check failed
    assert!(act.call_stack.is_empty());
}

#[test]
fn push_value_2_keeps_partial_push_on_error() {
    let vm = KutVm::new(vec![], vec![KutFunctionTemplate::new(vec![], vec![], 1)]);
    let mut cells = CellPool::new();
    let mut act = fresh_activation(&vm, 0);
    let r = KutInstruction::PushValue2R { val1: 0, val2: 9 }.run(&mut act, &vm, &mut cells);
    assert_eq!(
        r,
        Err(KutError::OutOfRangeSourceRegister { register: 9, register_count: 1 })
    );
    // the first register was pushed before the second failed
    assert_eq!(act.call_stack, vec![KutValue::Nil]);
}

#[test]
fn get_capture_on_non_reference_slot_is_consistency_error() {
    let vm = KutVm::new(vec![], vec![KutFunctionTemplate::new(vec![], vec![], 1)]);
    let mut cells = CellPool::new();
    let closure = Rc::new(KutClosure { template: 0, captures: vec![num(3.0)] });
    let mut act = KutFunction { closure, registers: vec![KutValue::Nil], call_stack: vec![] };
    let r = KutInstruction::GetCaptureR { reg: 0, capture: 0 }.run(&mut act, &vm, &mut cells);
    assert_eq!(
        r,
        Err(KutError::NonReferenceCapture { capture: 0, capture_type: KutValueKind::Number })
    );
}

#[test]
fn run_returns_value_of_ret_instruction() {
    let vm = KutVm::new(
        vec![num(42.0)],
        vec![KutFunctionTemplate::new(
            vec![
                KutInstruction::GetLiteralR { reg: 0, literal: 0 },
                KutInstruction::RetfMethodR { value: 0 },
                // never reached: the return above halts the activation
                KutInstruction::GetLiteralR { reg: 0, literal: 99 },
            ],
            vec![],
            1,
        )],
    );
    let mut cells = CellPool::new();
    let mut act = fresh_activation(&vm, 0);
    let r = act.run(&vm, &mut cells);
    assert_eq!(r, Ok(Some(num(42.0))));
}

#[test]
fn run_without_ret_yields_no_value() {
    let vm = KutVm::new(
        vec![num(1.0)],
        vec![KutFunctionTemplate::new(
            vec![KutInstruction::GetLiteralR { reg: 0, literal: 0 }],
            vec![],
            1,
        )],
    );
    let mut cells = CellPool::new();
    let mut act = fresh_activation(&vm, 0);
    let r = act.run(&vm, &mut cells);
    assert_eq!(r, Ok(None));
    assert_eq!(act.registers[0], num(1.0));
}

#[test]
fn swap_moves_raw_reference_and_mov_dereferences() {
    // register 0 holds a promoted reference, register 1 a plain number
    let vm = KutVm::new(vec![], vec![KutFunctionTemplate::new(vec![], vec![], 2)]);
    let mut cells = CellPool::new();
    cells.cells.push(num(5.0));
    let make_act = |vm: &KutVm| {
        let closure = Rc::new(KutClosure { template: 0, captures: vec![] });
        KutFunction {
            closure,
            registers: vec![KutValue::Reference(0), num(9.0)],
            call_stack: vec![],
        }
    };

    let mut act = make_act(&vm);
    let r = KutInstruction::SwapValuesR { reg1: 0, reg2: 1 }.run(&mut act, &vm, &mut cells);
    assert_eq!(r, Ok(None));
    // the raw reference moved into register 1, no dereference
    assert_eq!(act.registers[1], KutValue::Reference(0));
    assert_eq!(act.registers[0], num(9.0));

    let mut act = make_act(&vm);
    let r = KutInstruction::MovRegister { destination: 1, source: 0 }.run(
        &mut act,
        &vm,
        &mut cells,
    );
    assert_eq!(r, Ok(None));
    // the dereferenced cell content was copied; the reference stands
    assert_eq!(act.registers[1], num(5.0));
    assert_eq!(act.registers[0], KutValue::Reference(0));
}

#[test]
fn set_register_writes_through_promoted_reference() {
    let vm = KutVm::new(vec![num(10.0)], vec![KutFunctionTemplate::new(vec![], vec![], 1)]);
    let mut cells = CellPool::new();
    cells.cells.push(num(5.0));
    let closure = Rc::new(KutClosure { template: 0, captures: vec![] });
    let mut act = KutFunction {
        closure,
        registers: vec![KutValue::Reference(0)],
        call_stack: vec![],
    };
    let r = KutInstruction::GetLiteralR { reg: 0, literal: 0 }.run(&mut act, &vm, &mut cells);
    assert_eq!(r, Ok(None));
    // the register still holds the reference; its cell took the value
    assert_eq!(act.registers[0], KutValue::Reference(0));
    assert_eq!(cells.cells[0], num(10.0));
}
