//! The activation driver: the fetch-decode-execute loop, including call
//! instructions, which suspend the running activation on an explicit frame
//! stack and resume it when the callee returns.
//!
//! The whole driver is pinned to the small-step machine of
//! [`crate::value::semantics`]: a run is exactly some number of
//! [`machine_step`] moves ending in the halt it reports.

use vstd::prelude::*;

use crate::value::semantics::{
    abs_out, act_state, frame_refs_ok, lemma_reaches_step, lemma_set_reg_ok, lemma_step_ok,
    machine_finish, machine_reaches, machine_step, no_calls, spec_begin_call, spec_get_reg,
    spec_run, spec_step, AbsAct, AbsFrame, AbsMachine, AbsRet, MachineHalt,
};
use crate::value::{
    abs, abs_seq, act_ok, cells_ok, closure_ok, lemma_values_ok_grows, rc_clone, value_ok,
    AbsValue, CellPool, KutError, KutFunction, KutInstruction, KutReturnType, KutValue,
};
use crate::vm::{vm_ok, KutVm};

verus! {

broadcast use crate::value::group_abs_lemmas;

/// Where a suspended caller wants its callee's produced value.
enum RetSlot {
    /// Store it into the named register (`CallMethodR`).
    Register(u8),
    /// Push it onto the caller's operand stack (`CallMethodS`).
    Stack,
}

/// A suspended activation: the caller of a call instruction, remembered
/// until its callee finishes.
struct Suspended {
    act: KutFunction,
    pc: usize,
    ret: RetSlot,
}

/// The model of an activation standing at `pc`.
pub open spec fn abs_act_of(f: KutFunction, pc: int) -> AbsAct {
    AbsAct {
        regs: abs_seq(f.registers@),
        stack: abs_seq(f.call_stack@),
        caps: f.closure@.captures,
        template: f.closure@.template,
        pc,
    }
}

/// The model of a return slot.
spec fn abs_ret_of(r: RetSlot) -> AbsRet {
    match r {
        RetSlot::Register(rr) => AbsRet::Register(rr),
        RetSlot::Stack => AbsRet::Stack,
    }
}

/// The model of a suspended caller.
spec fn abs_frame_of(s: Suspended) -> AbsFrame {
    AbsFrame { act: abs_act_of(s.act, s.pc as int), ret: abs_ret_of(s.ret) }
}

/// The model of the frame stack, bottom first.
spec fn abs_frames_of(fs: Seq<Suspended>) -> Seq<AbsFrame> {
    Seq::new(fs.len(), |i: int| abs_frame_of(fs[i]))
}

/// The model of the driver's whole state.
spec fn machine_of(
    act: KutFunction,
    pc: usize,
    frames: Seq<Suspended>,
    cells: CellPool,
    budget: u64,
) -> AbsMachine {
    AbsMachine {
        frames: abs_frames_of(frames),
        cur: abs_act_of(act, pc as int),
        cells: cells@,
        budget: budget as nat,
    }
}

/// The root activation of the driver: the oldest suspended one, or the
/// running one if nothing is suspended.
spec fn bottom_act_exec(act: KutFunction, frames: Seq<Suspended>) -> KutFunction {
    if frames.len() > 0 {
        frames[0].act
    } else {
        act
    }
}

proof fn lemma_abs_frames_push(fs: Seq<Suspended>, s: Suspended)
    ensures
        abs_frames_of(fs.push(s)) == abs_frames_of(fs).push(abs_frame_of(s)),
{
    assert(abs_frames_of(fs.push(s)) =~= abs_frames_of(fs).push(abs_frame_of(s)));
}

proof fn lemma_abs_frames_drop_last(fs: Seq<Suspended>)
    requires
        fs.len() > 0,
    ensures
        abs_frames_of(fs.drop_last()) == abs_frames_of(fs).drop_last(),
{
    assert(abs_frames_of(fs.drop_last()) =~= abs_frames_of(fs).drop_last());
}

/// An activation stays well formed as the cell pool grows.
proof fn lemma_act_ok_grows(f: KutFunction, n1: int, n2: int, nt: int)
    requires
        act_ok(f, n1, nt),
        n1 <= n2,
    ensures
        act_ok(f, n2, nt),
{
    lemma_values_ok_grows(abs_seq(f.registers@), n1, n2, nt);
    lemma_values_ok_grows(abs_seq(f.call_stack@), n1, n2, nt);
}

/// A well-formed activation's frame satisfies what instruction handlers
/// ask of it.
proof fn lemma_act_ok_refs(f: KutFunction, cells: CellPool, nt: int)
    requires
        act_ok(f, cells@.len() as int, nt),
    ensures
        frame_refs_ok(f, cells),
{
}

impl KutFunction {
    /// Prepare a nested activation for a call instruction: read the callee
    /// closure from `subject` (dereferencing one level), take the top
    /// `arg_count` operand-stack values off this activation in their
    /// original push order, and bind them into the callee's leading
    /// registers; the rest of the callee's registers start as `Nil`.
    ///
    /// Nothing is changed on any error: a subject register that cannot be
    /// read reports its own error; a subject that is not a `Func` reports
    /// `NonFuncSubject`; too few operands report `StackUnderflow`; more
    /// arguments than the callee has registers report the first register
    /// that does not exist.
    fn begin_call(
        act: &mut KutFunction,
        vm: &KutVm,
        cells: &CellPool,
        arg_count: u8,
        subject: u8,
    ) -> (r: Result<KutFunction, KutError>)
        requires
            act_ok(*old(act), cells@.len() as int, vm.templates@.len() as int),
            cells_ok(cells@, vm.templates@.len() as int),
        ensures
            final(act).closure == old(act).closure,
            final(act).registers == old(act).registers,
            ({
                let nt = vm.templates@.len() as int;
                let st0 = act_state(*old(act), *cells);
                match r {
                    Ok(callee) => {
                        let argn = arg_count as int;
                        let stack0 = old(act).call_stack@;
                        &&& spec_get_reg(st0, subject) == Ok::<AbsValue, KutError>(
                            AbsValue::Func(callee.closure@),
                        )
                        &&& act_ok(callee, cells@.len() as int, nt)
                        &&& stack0.len() >= argn
                        &&& argn <= callee.registers@.len()
                        &&& final(act).call_stack@ == stack0.subrange(0, stack0.len() - argn)
                        &&& callee.registers@.len() == vm.templates@[callee.closure@.template]
                            .register_count as int
                        &&& (forall|i: int|
                            0 <= i < argn ==> callee.registers@[i] == stack0[stack0.len() - argn
                                + i])
                        &&& (forall|i: int|
                            argn <= i < callee.registers@.len() ==> callee.registers@[i]
                                == KutValue::Nil)
                        &&& callee.call_stack@.len() == 0
                    },
                    Err(e) => {
                        &&& *final(act) == *old(act)
                        &&& match spec_get_reg(st0, subject) {
                            Err(e0) => e == e0,
                            Ok(sv) => {
                                if !(sv is Func) {
                                    e == (KutError::NonFuncSubject {
                                        register: subject,
                                        subject_type: sv.kind(),
                                    })
                                } else if old(act).call_stack@.len() < arg_count as int {
                                    e == KutError::StackUnderflow
                                } else {
                                    let rc = vm.templates@[sv->Func_0.template].register_count;
                                    &&& (rc as int) < arg_count as int
                                    &&& e == (KutError::OutOfRangeDestinationRegister {
                                        register: rc,
                                        register_count: rc as usize,
                                    })
                                }
                            },
                        }
                    },
                }
            }),
    {
        let subject_val = KutInstruction::get_register_value(act, cells, subject)?;
        match subject_val {
            KutValue::Func(callee_closure) => {
                let tmpl_idx = callee_closure.template;
                proof {
                    assert(value_ok(
                        abs(KutValue::Func(callee_closure)),
                        cells@.len() as int,
                        vm.templates@.len() as int,
                    ));
                }
                let tmpl = &vm.templates[tmpl_idx];
                if act.call_stack.len() < (arg_count as usize) {
                    return Err(KutError::StackUnderflow);
                }
                if (tmpl.register_count as usize) < (arg_count as usize) {
                    return Err(
                        KutError::OutOfRangeDestinationRegister {
                            register: tmpl.register_count,
                            register_count: tmpl.register_count as usize,
                        },
                    );
                }
                let split_at = act.call_stack.len() - (arg_count as usize);
                let mut registers = act.call_stack.split_off(split_at);
                let ghost args0 = registers@;
                while registers.len() < (tmpl.register_count as usize)
                    invariant
                        args0.len() <= registers@.len() <= tmpl.register_count as int,
                        registers@.subrange(0, args0.len() as int) == args0,
                        forall|i: int|
                            args0.len() <= i < registers@.len() ==> registers@[i] == KutValue::Nil,
                    decreases tmpl.register_count as int - registers@.len(),
                {
                    registers.push(KutValue::Nil);
                    proof {
                        assert(registers@.subrange(0, args0.len() as int) =~= args0);
                    }
                }
                proof {
                    let nt = vm.templates@.len() as int;
                    let stack0 = old(act).call_stack@;
                    let argn = arg_count as int;
                    assert forall|i: int| 0 <= i < registers@.len() implies value_ok(
                        #[trigger] abs_seq(registers@)[i],
                        cells@.len() as int,
                        nt,
                    ) by {
                        if i < args0.len() {
                            assert(registers@.subrange(0, args0.len() as int)[i]
                                == registers@[i]);
                            assert(args0[i] == stack0[stack0.len() - argn + i]);
                            assert(value_ok(
                                abs_seq(stack0)[stack0.len() - argn + i],
                                cells@.len() as int,
                                nt,
                            ));
                        }
                    }
                    assert forall|i: int| 0 <= i < argn implies registers@[i] == stack0[stack0.len()
                        - argn + i] by {
                        assert(registers@.subrange(0, args0.len() as int)[i] == registers@[i]);
                    }
                }
                Ok(KutFunction { closure: callee_closure, registers, call_stack: Vec::new() })
            },
            other => Err(
                KutError::NonFuncSubject { register: subject, subject_type: other.kind() },
            ),
        }
    }

    /// The driver proper, on an owned activation: fetch, decode and execute
    /// instructions; a call instruction suspends the running activation on
    /// a frame stack and a finished callee hands its value back to the slot
    /// its caller named.  Every iteration spends one unit of `limit`; a run
    /// that would outlive the budget is cut short with `StepLimitReached`
    /// after unwinding to the root activation.
    fn engine(act0: KutFunction, vm: &KutVm, cells: &mut CellPool, limit: u64) -> (res: (
        KutFunction,
        KutReturnType,
    ))
        requires
            act_ok(act0, old(cells)@.len() as int, vm.templates@.len() as int),
            cells_ok(old(cells)@, vm.templates@.len() as int),
            vm_ok(*vm),
        ensures
            ({
                let nt = vm.templates@.len() as int;
                &&& act_ok(res.0, final(cells)@.len() as int, nt)
                &&& cells_ok(final(cells)@, nt)
                &&& old(cells)@.len() <= final(cells)@.len()
                &&& res.0.closure == act0.closure
                &&& res.0.registers@.len() == act0.registers@.len()
                &&& (res.1 matches Ok(Some(v)) ==> value_ok(v@, final(cells)@.len() as int, nt))
                &&& (exists|n: nat|
                    (#[trigger] machine_reaches(
                        AbsMachine {
                            frames: Seq::<AbsFrame>::empty(),
                            cur: abs_act_of(act0, 0),
                            cells: old(cells)@,
                            budget: limit as nat,
                        },
                        abs_seq(vm.literals@),
                        vm.templates@,
                        limit,
                        n,
                    )) == Err::<AbsMachine, MachineHalt>(
                        MachineHalt {
                            regs: abs_seq(res.0.registers@),
                            stack: abs_seq(res.0.call_stack@),
                            cells: final(cells)@,
                            out: abs_out(res.1),
                        },
                    ))
                &&& ({
                    let insts = vm.templates@[act0.closure@.template].instructions@;
                    (no_calls(insts) && (limit as int) > insts.len()) ==> {
                        let d = spec_run(
                            insts,
                            0,
                            act_state(act0, *old(cells)),
                            act0.closure@.captures,
                            abs_seq(vm.literals@),
                            vm.templates@,
                        );
                        &&& act_state(res.0, *final(cells)) == d.st
                        &&& abs_out(res.1) == d.out
                    }
                })
            }),
    {
        let ghost nt = vm.templates@.len() as int;
        let ghost lits = abs_seq(vm.literals@);
        let ghost closure0 = act0.closure;
        let ghost rlen0 = act0.registers@.len() as int;
        let ghost insts0 = vm.templates@[act0.closure@.template].instructions@;
        let ghost caps0 = act0.closure@.captures;
        let ghost st_init = act_state(act0, *cells);
        let ghost cells_start = cells@;
        let ghost straight = no_calls(insts0) && (limit as int) > insts0.len();
        let ghost m_init = AbsMachine {
            frames: Seq::<AbsFrame>::empty(),
            cur: abs_act_of(act0, 0),
            cells: cells@,
            budget: limit as nat,
        };

        let mut act = act0;
        let mut pc: usize = 0;
        let mut frames: Vec<Suspended> = Vec::new();
        let mut budget: u64 = limit;
        let mut done: Option<KutReturnType> = None;
        let ghost mut n_steps: nat = 0;

        proof {
            assert(abs_frames_of(frames@) =~= Seq::<AbsFrame>::empty());
            assert(machine_of(act, pc, frames@, *cells, budget) == m_init);
        }

        while done.is_none()
            invariant
                vm_ok(*vm),
                nt == vm.templates@.len() as int,
                lits == abs_seq(vm.literals@),
                0 <= closure0@.template < nt,
                insts0 == vm.templates@[closure0@.template].instructions@,
                caps0 == closure0@.captures,
                straight == (no_calls(insts0) && (limit as int) > insts0.len()),
                act_ok(act, cells@.len() as int, nt),
                cells_ok(cells@, nt),
                cells_start.len() <= cells@.len(),
                forall|i: int|
                    0 <= i < frames@.len() ==> act_ok(
                        (#[trigger] frames@[i]).act,
                        cells@.len() as int,
                        nt,
                    ),
                frames@.len() > 0 ==> frames@[0].act.closure == closure0
                    && frames@[0].act.registers@.len() == rlen0,
                frames@.len() == 0 ==> act.closure == closure0 && act.registers@.len() == rlen0,
                done is None ==> machine_reaches(m_init, lits, vm.templates@, limit, n_steps)
                    == Ok::<AbsMachine, MachineHalt>(machine_of(act, pc, frames@, *cells, budget)),
                done matches Some(out) ==> machine_reaches(m_init, lits, vm.templates@, limit, n_steps)
                    == Err::<AbsMachine, MachineHalt>(
                    MachineHalt {
                        regs: abs_seq(act.registers@),
                        stack: abs_seq(act.call_stack@),
                        cells: cells@,
                        out: abs_out(out),
                    },
                ),
                straight ==> frames@.len() == 0,
                straight && done is None ==> pc <= insts0.len() && budget == limit - pc
                    && spec_run(insts0, pc as int, act_state(act, *cells), caps0, lits, vm.templates@)
                    == spec_run(insts0, 0, st_init, caps0, lits, vm.templates@),
                straight ==> (done matches Some(out) ==> ({
                    let d = spec_run(insts0, 0, st_init, caps0, lits, vm.templates@);
                    &&& act_state(act, *cells) == d.st
                    &&& abs_out(out) == d.out
                })),
                done matches Some(out) ==> frames@.len() == 0 && (out matches Ok(Some(v))
                    ==> value_ok(v@, cells@.len() as int, nt)),
            decreases budget, (if done is None { 1int } else { 0int }),
        {
            if budget == 0 {
                proof {
                    assert(!straight);
                    lemma_reaches_step(
                        m_init,
                        lits,
                        vm.templates@,
                        limit,
                        n_steps,
                        machine_of(act, pc, frames@, *cells, budget),
                    );
                    n_steps = n_steps + 1;
                }
                let ghost act_pre = act;
                let ghost frames_pre = frames@;
                while frames.len() > 0
                    invariant
                        act_ok(act, cells@.len() as int, nt),
                        forall|i: int|
                            0 <= i < frames@.len() ==> act_ok(
                                (#[trigger] frames@[i]).act,
                                cells@.len() as int,
                                nt,
                            ),
                        frames@.len() > 0 ==> frames@[0].act.closure == closure0
                            && frames@[0].act.registers@.len() == rlen0,
                        frames@.len() == 0 ==> act.closure == closure0 && act.registers@.len()
                            == rlen0,
                        bottom_act_exec(act, frames@) == bottom_act_exec(act_pre, frames_pre),
                        straight ==> frames@.len() == 0 && act == act_pre,
                    decreases frames@.len(),
                {
                    match frames.pop() {
                        Some(fr) => {
                            act = fr.act;
                        },
                        None => {},
                    }
                }
                done = Some(Err(KutError::StepLimitReached { limit }));
            } else {
                let ghost m_before = machine_of(act, pc, frames@, *cells, budget);
                proof {
                    lemma_reaches_step(m_init, lits, vm.templates@, limit, n_steps, m_before);
                    n_steps = n_steps + 1;
                }
                budget = budget - 1;
                proof {
                    assert(closure_ok(act.closure@, cells@.len() as int, nt));
                }
                let t = &vm.templates[act.closure.template];
                let ghost st_before = act_state(act, *cells);
                let ghost caps_cur = act.closure@.captures;
                // what the fetched instruction did to the current
                // activation: it finished with a value (or ran off the
                // end), it failed, or execution just goes on
                let mut finished: Option<Option<KutValue>> = None;
                let mut failed: Option<KutError> = None;
                if pc >= t.instructions.len() {
                    finished = Some(None);
                    proof {
                        if straight {
                            assert(pc == insts0.len());
                        }
                        assert(machine_step(m_before, lits, vm.templates@, limit)
                            == machine_finish(machine_of(act, pc, frames@, *cells, budget), None));
                    }
                } else {
                    let inst = t.instructions[pc];
                    pc = pc + 1;
                    match inst {
                        KutInstruction::CallMethodR { ret_position, arg_count, subject } => {
                            proof {
                                assert(!straight) by {
                                    if straight {
                                        assert(insts0[pc - 1].is_call());
                                    }
                                }
                            }
                            let ghost frames_before = frames@;
                            match Self::begin_call(&mut act, vm, cells, arg_count, subject) {
                                Ok(callee) => {
                                    frames.push(
                                        Suspended { act, pc, ret: RetSlot::Register(ret_position) },
                                    );
                                    act = callee;
                                    pc = 0;
                                    proof {
                                        lemma_abs_frames_push(frames_before, frames@.last());
                                        let curp = AbsAct {
                                            regs: m_before.cur.regs,
                                            stack: m_before.cur.stack,
                                            caps: m_before.cur.caps,
                                            template: m_before.cur.template,
                                            pc: m_before.cur.pc + 1,
                                        };
                                        let sbc = spec_begin_call(
                                            curp,
                                            cells@,
                                            vm.templates@,
                                            arg_count,
                                            subject,
                                        );
                                        if let Ok((caller, callee_spec)) = sbc {
                                            assert(abs_frame_of(frames@.last()).act.stack
                                                =~= caller.stack);
                                            assert(abs_frame_of(frames@.last()).act == caller);
                                            assert(abs_act_of(act, 0).regs =~= callee_spec.regs);
                                            assert(abs_act_of(act, 0).stack =~= callee_spec.stack);
                                            assert(abs_act_of(act, 0) == callee_spec);
                                        }
                                        assert(machine_step(m_before, lits, vm.templates@, limit)
                                            == Ok::<AbsMachine, MachineHalt>(
                                            machine_of(act, pc, frames@, *cells, budget),
                                        ));
                                    }
                                },
                                Err(e) => {
                                    failed = Some(e);
                                    proof {
                                        assert(machine_step(m_before, lits, vm.templates@, limit)
                                            == Err::<AbsMachine, MachineHalt>(
                                            MachineHalt {
                                                regs: abs_seq(
                                                    bottom_act_exec(act, frames@).registers@,
                                                ),
                                                stack: abs_seq(
                                                    bottom_act_exec(act, frames@).call_stack@,
                                                ),
                                                cells: cells@,
                                                out: Err(e),
                                            },
                                        ));
                                    }
                                },
                            }
                        },
                        KutInstruction::CallMethodS { arg_count, subject } => {
                            proof {
                                assert(!straight) by {
                                    if straight {
                                        assert(insts0[pc - 1].is_call());
                                    }
                                }
                            }
                            let ghost frames_before = frames@;
                            match Self::begin_call(&mut act, vm, cells, arg_count, subject) {
                                Ok(callee) => {
                                    frames.push(Suspended { act, pc, ret: RetSlot::Stack });
                                    act = callee;
                                    pc = 0;
                                    proof {
                                        lemma_abs_frames_push(frames_before, frames@.last());
                                        let curp = AbsAct {
                                            regs: m_before.cur.regs,
                                            stack: m_before.cur.stack,
                                            caps: m_before.cur.caps,
                                            template: m_before.cur.template,
                                            pc: m_before.cur.pc + 1,
                                        };
                                        let sbc = spec_begin_call(
                                            curp,
                                            cells@,
                                            vm.templates@,
                                            arg_count,
                                            subject,
                                        );
                                        if let Ok((caller, callee_spec)) = sbc {
                                            assert(abs_frame_of(frames@.last()).act.stack
                                                =~= caller.stack);
                                            assert(abs_frame_of(frames@.last()).act == caller);
                                            assert(abs_act_of(act, 0).regs =~= callee_spec.regs);
                                            assert(abs_act_of(act, 0).stack =~= callee_spec.stack);
                                            assert(abs_act_of(act, 0) == callee_spec);
                                        }
                                        assert(machine_step(m_before, lits, vm.templates@, limit)
                                            == Ok::<AbsMachine, MachineHalt>(
                                            machine_of(act, pc, frames@, *cells, budget),
                                        ));
                                    }
                                },
                                Err(e) => {
                                    failed = Some(e);
                                    proof {
                                        assert(machine_step(m_before, lits, vm.templates@, limit)
                                            == Err::<AbsMachine, MachineHalt>(
                                            MachineHalt {
                                                regs: abs_seq(
                                                    bottom_act_exec(act, frames@).registers@,
                                                ),
                                                stack: abs_seq(
                                                    bottom_act_exec(act, frames@).call_stack@,
                                                ),
                                                cells: cells@,
                                                out: Err(e),
                                            },
                                        ));
                                    }
                                },
                            }
                        },
                        _ => {
                            proof {
                                lemma_act_ok_refs(act, *cells, nt);
                            }
                            let r = inst.run(&mut act, vm, cells);
                            proof {
                                lemma_step_ok(inst, st_before, caps_cur, lits, vm.templates@, nt);
                                let d = spec_step(inst, st_before, caps_cur, lits, vm.templates@);
                                assert(act_state(act, *cells) == d.st);
                                assert forall|i: int| 0 <= i < frames@.len() implies act_ok(
                                    (#[trigger] frames@[i]).act,
                                    cells@.len() as int,
                                    nt,
                                ) by {
                                    lemma_act_ok_grows(
                                        frames@[i].act,
                                        st_before.cells.len() as int,
                                        cells@.len() as int,
                                        nt,
                                    );
                                }
                                assert(act_ok(act, cells@.len() as int, nt));
                                match d.out {
                                    Ok(None) => {
                                        assert(machine_step(m_before, lits, vm.templates@, limit)
                                            == Ok::<AbsMachine, MachineHalt>(
                                            machine_of(act, pc, frames@, *cells, budget),
                                        ));
                                    },
                                    Ok(Some(v)) => {
                                        assert(machine_step(m_before, lits, vm.templates@, limit)
                                            == machine_finish(
                                            machine_of(act, pc, frames@, *cells, budget),
                                            Some(v),
                                        ));
                                    },
                                    Err(e) => {
                                        assert(machine_step(m_before, lits, vm.templates@, limit)
                                            == Err::<AbsMachine, MachineHalt>(
                                            MachineHalt {
                                                regs: abs_seq(
                                                    bottom_act_exec(act, frames@).registers@,
                                                ),
                                                stack: abs_seq(
                                                    bottom_act_exec(act, frames@).call_stack@,
                                                ),
                                                cells: cells@,
                                                out: Err(e),
                                            },
                                        ));
                                    },
                                }
                            }
                            match r {
                                Ok(None) => {},
                                Ok(Some(v)) => {
                                    finished = Some(Some(v));
                                },
                                Err(e) => {
                                    failed = Some(e);
                                },
                            }
                        },
                    }
                }
                if let Some(e) = failed {
                    let ghost act_pre = act;
                    let ghost frames_pre = frames@;
                    while frames.len() > 0
                        invariant
                            act_ok(act, cells@.len() as int, nt),
                            forall|i: int|
                                0 <= i < frames@.len() ==> act_ok(
                                    (#[trigger] frames@[i]).act,
                                    cells@.len() as int,
                                    nt,
                                ),
                            frames@.len() > 0 ==> frames@[0].act.closure == closure0
                                && frames@[0].act.registers@.len() == rlen0,
                            frames@.len() == 0 ==> act.closure == closure0 && act.registers@.len()
                                == rlen0,
                            bottom_act_exec(act, frames@) == bottom_act_exec(act_pre, frames_pre),
                            straight ==> frames@.len() == 0 && act == act_pre,
                        decreases frames@.len(),
                    {
                        match frames.pop() {
                            Some(fr) => {
                                act = fr.act;
                            },
                            None => {},
                        }
                    }
                    done = Some(Err(e));
                } else if let Some(res) = finished {
                    let ghost res_abs: Option<AbsValue> = if res is Some {
                        Some(res->Some_0@)
                    } else {
                        None
                    };
                    let ghost m_fin = machine_of(act, pc, frames@, *cells, budget);
                    let ghost frames_before = frames@;
                    let popped = frames.pop();
                    match popped {
                        None => {
                            done = Some(Ok(res));
                        },
                        Some(fr) => {
                            proof {
                                assert(!straight);
                                assert(frames_before.len() > 0);
                                assert(m_fin.frames.len() == frames_before.len());
                                assert(m_fin.frames.last() == abs_frame_of(fr));
                                lemma_abs_frames_drop_last(frames_before);
                            }
                            let value = match res {
                                Some(v) => v,
                                None => KutValue::Nil,
                            };
                            act = fr.act;
                            pc = fr.pc;
                            proof {
                                lemma_act_ok_refs(act, *cells, nt);
                            }
                            match fr.ret {
                                RetSlot::Register(rr) => {
                                    let ghost st_caller = act_state(act, *cells);
                                    match KutInstruction::set_register_value(
                                        &mut act,
                                        cells,
                                        rr,
                                        value,
                                    ) {
                                        Ok(_) => {
                                            proof {
                                                lemma_set_reg_ok(st_caller, rr, value@, nt);
                                                assert(machine_finish(m_fin, res_abs) == Ok::<
                                                    AbsMachine,
                                                    MachineHalt,
                                                >(machine_of(act, pc, frames@, *cells, budget)));
                                            }
                                        },
                                        Err(e2) => {
                                            proof {
                                                assert(machine_finish(m_fin, res_abs) == Err::<
                                                    AbsMachine,
                                                    MachineHalt,
                                                >(
                                                    MachineHalt {
                                                        regs: abs_seq(
                                                            bottom_act_exec(
                                                                act,
                                                                frames@,
                                                            ).registers@,
                                                        ),
                                                        stack: abs_seq(
                                                            bottom_act_exec(
                                                                act,
                                                                frames@,
                                                            ).call_stack@,
                                                        ),
                                                        cells: cells@,
                                                        out: Err(e2),
                                                    },
                                                ));
                                            }
                                            let ghost act_pre = act;
                                            let ghost frames_pre = frames@;
                                            while frames.len() > 0
                                                invariant
                                                    act_ok(act, cells@.len() as int, nt),
                                                    forall|i: int|
                                                        0 <= i < frames@.len() ==> act_ok(
                                                            (#[trigger] frames@[i]).act,
                                                            cells@.len() as int,
                                                            nt,
                                                        ),
                                                    frames@.len() > 0 ==> frames@[0].act.closure
                                                        == closure0
                                                        && frames@[0].act.registers@.len() == rlen0,
                                                    frames@.len() == 0 ==> act.closure == closure0
                                                        && act.registers@.len() == rlen0,
                                                    bottom_act_exec(act, frames@)
                                                        == bottom_act_exec(act_pre, frames_pre),
                                                decreases frames@.len(),
                                            {
                                                match frames.pop() {
                                                    Some(fr2) => {
                                                        act = fr2.act;
                                                    },
                                                    None => {},
                                                }
                                            }
                                            done = Some(Err(e2));
                                        },
                                    }
                                },
                                RetSlot::Stack => {
                                    act.call_stack.push(value);
                                    proof {
                                        assert(machine_finish(m_fin, res_abs) == Ok::<
                                            AbsMachine,
                                            MachineHalt,
                                        >(machine_of(act, pc, frames@, *cells, budget)));
                                    }
                                },
                            }
                        },
                    }
                }
            }
        }
        let out = match done {
            Some(o) => o,
            None => {
                proof {
                    assert(false);
                }
                Ok(None)
            },
        };
        (act, out)
    }

    /// Run this activation to completion, a produced return value or an
    /// error, spending at most `limit` driver steps across it and every
    /// activation it calls; a run that would outlive the budget ends with
    /// `StepLimitReached`.
    ///
    /// The whole run — calls included — is pinned down: it is exactly some
    /// number of [`machine_step`] moves of the small-step machine from the
    /// initial state, ending in the halt whose root state and outcome this
    /// call reports.  For a template without call instructions the run
    /// also agrees with the one-activation [`spec_run`], partial effects
    /// of a failing instruction included.
    pub fn run_with_limit(&mut self, vm: &KutVm, cells: &mut CellPool, limit: u64) -> (r:
        KutReturnType)
        requires
            act_ok(*old(self), old(cells)@.len() as int, vm.templates@.len() as int),
            cells_ok(old(cells)@, vm.templates@.len() as int),
            vm_ok(*vm),
        ensures
            ({
                let nt = vm.templates@.len() as int;
                &&& act_ok(*final(self), final(cells)@.len() as int, nt)
                &&& cells_ok(final(cells)@, nt)
                &&& old(cells)@.len() <= final(cells)@.len()
                &&& final(self).closure == old(self).closure
                &&& final(self).registers@.len() == old(self).registers@.len()
                &&& (r matches Ok(Some(v)) ==> value_ok(v@, final(cells)@.len() as int, nt))
                &&& (exists|n: nat|
                    (#[trigger] machine_reaches(
                        AbsMachine {
                            frames: Seq::<AbsFrame>::empty(),
                            cur: abs_act_of(*old(self), 0),
                            cells: old(cells)@,
                            budget: limit as nat,
                        },
                        abs_seq(vm.literals@),
                        vm.templates@,
                        limit,
                        n,
                    )) == Err::<AbsMachine, MachineHalt>(
                        MachineHalt {
                            regs: abs_seq(final(self).registers@),
                            stack: abs_seq(final(self).call_stack@),
                            cells: final(cells)@,
                            out: abs_out(r),
                        },
                    ))
                &&& ({
                    let insts = vm.templates@[old(self).closure@.template].instructions@;
                    (no_calls(insts) && (limit as int) > insts.len()) ==> {
                        let d = spec_run(
                            insts,
                            0,
                            act_state(*old(self), *old(cells)),
                            old(self).closure@.captures,
                            abs_seq(vm.literals@),
                            vm.templates@,
                        );
                        &&& act_state(*final(self), *final(cells)) == d.st
                        &&& abs_out(r) == d.out
                    }
                })
            }),
    {
        let mut taken = KutFunction {
            closure: rc_clone(&self.closure),
            registers: Vec::new(),
            call_stack: Vec::new(),
        };
        core::mem::swap(self, &mut taken);
        let engine_res = Self::engine(taken, vm, cells, limit);
        let (acted, out) = engine_res;
        *self = acted;
        out
    }

    /// Run this activation to completion, a produced return value or an
    /// error.  The step budget is the largest one expressible, so on a
    /// template whose instruction count is below it the budget changes
    /// nothing; the run — calls included — is pinned to the small-step
    /// machine, and for a template without call instructions it also
    /// agrees with the one-activation [`spec_run`].
    pub fn run(&mut self, vm: &KutVm, cells: &mut CellPool) -> (r: KutReturnType)
        requires
            act_ok(*old(self), old(cells)@.len() as int, vm.templates@.len() as int),
            cells_ok(old(cells)@, vm.templates@.len() as int),
            vm_ok(*vm),
        ensures
            ({
                let nt = vm.templates@.len() as int;
                &&& act_ok(*final(self), final(cells)@.len() as int, nt)
                &&& cells_ok(final(cells)@, nt)
                &&& old(cells)@.len() <= final(cells)@.len()
                &&& final(self).closure == old(self).closure
                &&& final(self).registers@.len() == old(self).registers@.len()
                &&& (r matches Ok(Some(v)) ==> value_ok(v@, final(cells)@.len() as int, nt))
                &&& (exists|n: nat|
                    (#[trigger] machine_reaches(
                        AbsMachine {
                            frames: Seq::<AbsFrame>::empty(),
                            cur: abs_act_of(*old(self), 0),
                            cells: old(cells)@,
                            budget: u64::MAX as nat,
                        },
                        abs_seq(vm.literals@),
                        vm.templates@,
                        u64::MAX,
                        n,
                    )) == Err::<AbsMachine, MachineHalt>(
                        MachineHalt {
                            regs: abs_seq(final(self).registers@),
                            stack: abs_seq(final(self).call_stack@),
                            cells: final(cells)@,
                            out: abs_out(r),
                        },
                    ))
                &&& ({
                    let insts = vm.templates@[old(self).closure@.template].instructions@;
                    (no_calls(insts) && insts.len() < u64::MAX) ==> {
                        let d = spec_run(
                            insts,
                            0,
                            act_state(*old(self), *old(cells)),
                            old(self).closure@.captures,
                            abs_seq(vm.literals@),
                            vm.templates@,
                        );
                        &&& act_state(*final(self), *final(cells)) == d.st
                        &&& abs_out(r) == d.out
                    }
                })
            }),
    {
        self.run_with_limit(vm, cells, u64::MAX)
    }
}

} // verus!
