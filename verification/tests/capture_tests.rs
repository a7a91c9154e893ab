//! The closure-capture protocol: promotion, aliasing, idempotence, empty
//! captures, and the end-to-end scenario with calls.

use std::rc::Rc;

use kut_vm::value::{
    CellPool, KutCaptureInfo, KutClosure, KutError, KutFunctionTemplate, KutInstruction, KutValue,
    KutValueKind,
};
use kut_vm::vm::KutVm;

fn num(x: f64) -> KutValue {
    KutValue::Number(x.to_bits())
}

fn start_entry(vm: &KutVm, template: usize) -> kut_vm::value::KutFunction {
    let closure = Rc::new(
        vm.templates[template]
            .capture_unbound(template)
            .expect("the entry template needs no captures"),
    );
    KutClosure::start(closure, vm)
}

#[test]
fn empty_capture_list_captures_without_environment() {
    let t = KutFunctionTemplate::new(vec![], vec![], 1);
    let c = t.capture_unbound(0).unwrap();
    assert_eq!(c.template, 0);
    assert!(c.captures.is_empty());
}

#[test]
fn nonempty_capture_list_fails_without_environment() {
    let t = KutFunctionTemplate::new(
        vec![],
        vec![KutCaptureInfo::Register(0), KutCaptureInfo::Capture(1)],
        1,
    );
    let e = t.capture_unbound(0).unwrap_err();
    assert_eq!(e, KutError::CaptureEmptyEnvironment { needed_captures: 2 });
}

#[test]
fn end_to_end_capture_scenario() {
    let instructions = vec![
        KutInstruction::GetLiteralR { reg: 0, literal: 0 },
        KutInstruction::GetLiteralR { reg: 1, literal: 1 },
        KutInstruction::GetLiteralR { reg: 2, literal: 1 },
        KutInstruction::CaptureFunc { reg: 3, template: 1 },
    ];
    let inner_instructions = vec![KutInstruction::GetLiteralR { reg: 0, literal: 2 }];
    let zort = Rc::new(String::from("zort"));
    let literals = vec![num(5.0), KutValue::String(Rc::clone(&zort)), num(10.0)];
    let templates = vec![
        KutFunctionTemplate::new(instructions, vec![], 4),
        KutFunctionTemplate::new(inner_instructions, vec![KutCaptureInfo::Register(0)], 2),
    ];
    let vm = KutVm::new(literals, templates);
    let mut cells = CellPool::new();
    let mut func = start_entry(&vm, 0);
    let r = func.run(&vm, &mut cells);
    assert_eq!(r, Ok(None));

    // register 0 was promoted into a cell holding 5.0
    let cell = match func.registers[0] {
        KutValue::Reference(c) => c,
        ref other => panic!("register 0 should be a promoted reference, found {:?}", other),
    };
    assert_eq!(cells.cells[cell], num(5.0));

    // registers 1 and 2 hold independent clones sharing the "zort" string;
    // with the literal pool itself that makes three live holders
    match (&func.registers[1], &func.registers[2]) {
        (KutValue::String(a), KutValue::String(b)) => {
            assert!(Rc::ptr_eq(a, b));
            assert!(Rc::ptr_eq(a, &zort));
        },
        other => panic!("registers 1 and 2 should hold strings, found {:?}", other),
    }
    assert_eq!(Rc::strong_count(&zort), 4);

    // register 3 holds the closure whose capture aliases register 0's cell
    match &func.registers[3] {
        KutValue::Func(f) => {
            assert_eq!(f.template, 1);
            assert_eq!(f.captures, vec![KutValue::Reference(cell)]);
        },
        other => panic!("register 3 should hold a closure, found {:?}", other),
    }
}

#[test]
fn capture_aliasing_write_is_observed_by_enclosing_register() {
    // outer fetches 5.0 into register 0 and captures it; the inner
    // closure writes 7.0 through the shared cell
    let templates = vec![
        KutFunctionTemplate::new(
            vec![
                KutInstruction::GetLiteralR { reg: 0, literal: 0 },
                KutInstruction::CaptureFunc { reg: 1, template: 1 },
            ],
            vec![],
            2,
        ),
        KutFunctionTemplate::new(
            vec![
                KutInstruction::GetLiteralR { reg: 0, literal: 1 },
                KutInstruction::SetCaptureR { reg: 0, capture: 0 },
            ],
            vec![KutCaptureInfo::Register(0)],
            1,
        ),
    ];
    let vm = KutVm::new(vec![num(5.0), num(7.0)], templates);
    let mut cells = CellPool::new();
    let mut outer = start_entry(&vm, 0);
    assert_eq!(outer.run(&vm, &mut cells), Ok(None));

    let cell = match outer.registers[0] {
        KutValue::Reference(c) => c,
        ref other => panic!("register 0 should be promoted, found {:?}", other),
    };
    assert_eq!(cells.cells[cell], num(5.0));
    let inner_closure = match &outer.registers[1] {
        KutValue::Func(f) => Rc::clone(f),
        other => panic!("register 1 should hold the closure, found {:?}", other),
    };
    let mut inner = KutClosure::start(inner_closure, &vm);
    assert_eq!(inner.run(&vm, &mut cells), Ok(None));

    // the write through the capture is observed at the outer register:
    // 7.0, not 5.0
    assert_eq!(outer.registers[0], KutValue::Reference(cell));
    assert_eq!(cells.cells[cell], num(7.0));
    let r = KutInstruction::MovRegister { destination: 1, source: 0 }.run(
        &mut outer,
        &vm,
        &mut cells,
    );
    assert_eq!(r, Ok(None));
    assert_eq!(outer.registers[1], num(7.0));
}

#[test]
fn promotion_is_idempotent_across_two_captures() {
    // two different templates capture the same outer register
    let templates = vec![
        KutFunctionTemplate::new(
            vec![
                KutInstruction::GetLiteralR { reg: 0, literal: 0 },
                KutInstruction::CaptureFunc { reg: 1, template: 1 },
                KutInstruction::CaptureFunc { reg: 2, template: 2 },
            ],
            vec![],
            3,
        ),
        KutFunctionTemplate::new(vec![], vec![KutCaptureInfo::Register(0)], 1),
        KutFunctionTemplate::new(vec![], vec![KutCaptureInfo::Register(0)], 1),
    ];
    let vm = KutVm::new(vec![num(5.0)], templates);
    let mut cells = CellPool::new();
    let mut outer = start_entry(&vm, 0);
    assert_eq!(outer.run(&vm, &mut cells), Ok(None));

    let cell = match outer.registers[0] {
        KutValue::Reference(c) => c,
        ref other => panic!("register 0 should be promoted, found {:?}", other),
    };
    let cap_of = |v: &KutValue| -> usize {
        match v {
            KutValue::Func(f) => match f.captures[0] {
                KutValue::Reference(c) => c,
                ref other => panic!("capture should be a reference, found {:?}", other),
            },
            other => panic!("expected a closure, found {:?}", other),
        }
    };
    // both closures alias the one cell of the promoted register
    assert_eq!(cap_of(&outer.registers[1]), cell);
    assert_eq!(cap_of(&outer.registers[2]), cell);
    assert_eq!(cells.cells.len(), 1);
}

#[test]
fn transitive_capture_reuses_outer_cell() {
    // the middle closure captures a register; the innermost captures the
    // middle one's capture slot transitively
    let templates = vec![
        KutFunctionTemplate::new(
            vec![
                KutInstruction::GetLiteralR { reg: 0, literal: 0 },
                KutInstruction::CaptureFunc { reg: 1, template: 1 },
            ],
            vec![],
            2,
        ),
        KutFunctionTemplate::new(
            vec![KutInstruction::CaptureFunc { reg: 0, template: 2 }],
            vec![KutCaptureInfo::Register(0)],
            1,
        ),
        KutFunctionTemplate::new(vec![], vec![KutCaptureInfo::Capture(0)], 1),
    ];
    let vm = KutVm::new(vec![num(5.0)], templates);
    let mut cells = CellPool::new();
    let mut outer = start_entry(&vm, 0);
    assert_eq!(outer.run(&vm, &mut cells), Ok(None));

    let middle = match &outer.registers[1] {
        KutValue::Func(f) => Rc::clone(f),
        other => panic!("register 1 should hold the middle closure, found {:?}", other),
    };
    let mut middle_act = KutClosure::start(middle, &vm);
    assert_eq!(middle_act.run(&vm, &mut cells), Ok(None));
    let innermost = match &middle_act.registers[0] {
        KutValue::Func(f) => Rc::clone(f),
        other => panic!("register 0 should hold the innermost closure, found {:?}", other),
    };
    let outer_cell = match outer.registers[0] {
        KutValue::Reference(c) => c,
        ref other => panic!("register 0 should be promoted, found {:?}", other),
    };
    assert_eq!(innermost.captures, vec![KutValue::Reference(outer_cell)]);
}

#[test]
fn capture_out_of_range_register_aborts_with_exact_error() {
    let templates = vec![
        KutFunctionTemplate::new(
            vec![KutInstruction::CaptureFunc { reg: 0, template: 1 }],
            vec![],
            1,
        ),
        KutFunctionTemplate::new(vec![], vec![KutCaptureInfo::Register(7)], 1),
    ];
    let vm = KutVm::new(vec![], templates);
    let mut cells = CellPool::new();
    let mut outer = start_entry(&vm, 0);
    let r = outer.run(&vm, &mut cells);
    assert_eq!(
        r,
        Err(KutError::OutOfRangeDestinationRegister { register: 7, register_count: 1 })
    );
}

#[test]
fn capture_out_of_range_template_cites_pool_length() {
    let templates = vec![KutFunctionTemplate::new(
        vec![KutInstruction::CaptureFunc { reg: 0, template: 9 }],
        vec![],
        1,
    )];
    let vm = KutVm::new(vec![], templates);
    let mut cells = CellPool::new();
    let mut outer = start_entry(&vm, 0);
    let r = outer.run(&vm, &mut cells);
    assert_eq!(
        r,
        Err(KutError::OutOfRangeTemplate { template: 9, template_count: 1 })
    );
}

#[test]
fn call_method_r_binds_arguments_and_stores_result() {
    // the callee returns its first argument; the caller passes 5.0 and
    // wants the result in register 2
    let templates = vec![
        KutFunctionTemplate::new(
            vec![
                KutInstruction::GetLiteralR { reg: 0, literal: 0 },
                KutInstruction::CaptureFunc { reg: 1, template: 1 },
                KutInstruction::PushValue1R { val1: 0 },
                KutInstruction::CallMethodR { ret_position: 2, arg_count: 1, subject: 1 },
            ],
            vec![],
            3,
        ),
        KutFunctionTemplate::new(
            vec![KutInstruction::RetfMethodR { value: 0 }],
            vec![],
            1,
        ),
    ];
    let vm = KutVm::new(vec![num(5.0)], templates);
    let mut cells = CellPool::new();
    let mut outer = start_entry(&vm, 0);
    assert_eq!(outer.run(&vm, &mut cells), Ok(None));
    assert_eq!(outer.registers[2], num(5.0));
    assert!(outer.call_stack.is_empty());
}

#[test]
fn call_method_s_pushes_result_on_stack() {
    let templates = vec![
        KutFunctionTemplate::new(
            vec![
                KutInstruction::GetLiteralR { reg: 0, literal: 0 },
                KutInstruction::CaptureFunc { reg: 1, template: 1 },
                KutInstruction::PushValue1R { val1: 0 },
                KutInstruction::CallMethodS { arg_count: 1, subject: 1 },
                KutInstruction::RetfMethodS,
            ],
            vec![],
            2,
        ),
        KutFunctionTemplate::new(
            vec![KutInstruction::RetfMethodR { value: 0 }],
            vec![],
            1,
        ),
    ];
    let vm = KutVm::new(vec![num(8.0)], templates);
    let mut cells = CellPool::new();
    let mut outer = start_entry(&vm, 0);
    assert_eq!(outer.run(&vm, &mut cells), Ok(Some(num(8.0))));
}

#[test]
fn callee_without_ret_yields_nil_to_caller() {
    let templates = vec![
        KutFunctionTemplate::new(
            vec![
                KutInstruction::GetLiteralR { reg: 0, literal: 0 },
                KutInstruction::CaptureFunc { reg: 1, template: 1 },
                KutInstruction::CallMethodR { ret_position: 0, arg_count: 0, subject: 1 },
            ],
            vec![],
            2,
        ),
        KutFunctionTemplate::new(vec![KutInstruction::NoOperation], vec![], 1),
    ];
    let vm = KutVm::new(vec![num(3.0)], templates);
    let mut cells = CellPool::new();
    let mut outer = start_entry(&vm, 0);
    assert_eq!(outer.run(&vm, &mut cells), Ok(None));
    // the implicit result of the callee overwrote register 0 with Nil
    assert_eq!(outer.registers[0], KutValue::Nil);
}

#[test]
fn call_on_non_func_subject_reports_kind() {
    let templates = vec![KutFunctionTemplate::new(
        vec![
            KutInstruction::GetLiteralR { reg: 0, literal: 0 },
            KutInstruction::CallMethodR { ret_position: 1, arg_count: 0, subject: 0 },
        ],
        vec![],
        2,
    )];
    let vm = KutVm::new(vec![num(1.0)], templates);
    let mut cells = CellPool::new();
    let mut outer = start_entry(&vm, 0);
    let r = outer.run(&vm, &mut cells);
    assert_eq!(
        r,
        Err(KutError::NonFuncSubject { register: 0, subject_type: KutValueKind::Number })
    );
}

#[test]
fn call_with_too_few_operands_underflows() {
    let templates = vec![
        KutFunctionTemplate::new(
            vec![
                KutInstruction::CaptureFunc { reg: 0, template: 1 },
                KutInstruction::CallMethodR { ret_position: 1, arg_count: 2, subject: 0 },
            ],
            vec![],
            2,
        ),
        KutFunctionTemplate::new(vec![], vec![], 2),
    ];
    let vm = KutVm::new(vec![], templates);
    let mut cells = CellPool::new();
    let mut outer = start_entry(&vm, 0);
    assert_eq!(outer.run(&vm, &mut cells), Err(KutError::StackUnderflow));
}

#[test]
fn unbounded_recursion_spends_the_step_budget() {
    // the template captures itself and calls the new closure at once
    let templates = vec![KutFunctionTemplate::new(
        vec![
            KutInstruction::CaptureFunc { reg: 0, template: 0 },
            KutInstruction::CallMethodR { ret_position: 1, arg_count: 0, subject: 0 },
        ],
        vec![],
        2,
    )];
    let vm = KutVm::new(vec![], templates);
    let mut cells = CellPool::new();
    let mut outer = start_entry(&vm, 0);
    let r = outer.run_with_limit(&vm, &mut cells, 1000);
    assert_eq!(r, Err(KutError::StepLimitReached { limit: 1000 }));
}
