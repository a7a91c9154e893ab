//! The mathematical meaning of the machine: what one instruction does to an
//! activation's registers, operand stack and the shared cell pool, what the
//! capture protocol does, and what a straight run of a template computes.
//!
//! Executable handlers promise to agree with these functions exactly, so
//! every observable effect of an instruction — including which error it
//! raises and which partial effects an aborted instruction leaves behind —
//! is pinned down here.

use vstd::prelude::*;

use crate::value::{
    abs_seq, caps_ok, cells_ok, lemma_value_ok_grows, lemma_values_ok_grows, spec_deref, value_ok,
    values_ok, AbsClosure, AbsValue, CellPool, KutCaptureInfo, KutError, KutFunction,
    KutFunctionTemplate, KutInstruction, KutReturnType, KutValue,
};

verus! {

/// The model of the mutable state one instruction acts on: the current
/// activation's register file and operand stack, and the run's cell pool.
pub struct AbsState {
    pub regs: Seq<AbsValue>,
    pub stack: Seq<AbsValue>,
    pub cells: Seq<AbsValue>,
}

/// The model of the state of an activation together with the cell pool.
pub open spec fn act_state(f: KutFunction, cells: CellPool) -> AbsState {
    AbsState { regs: abs_seq(f.registers@), stack: abs_seq(f.call_stack@), cells: cells@ }
}

/// Well-formedness of a modelled state.
pub open spec fn state_ok(st: AbsState, ntemplates: int) -> bool {
    &&& values_ok(st.regs, st.cells.len() as int, ntemplates)
    &&& values_ok(st.stack, st.cells.len() as int, ntemplates)
    &&& cells_ok(st.cells, ntemplates)
}

/// What executing one instruction yields: the state it leaves behind —
/// aborted instructions leave their partial effects — and its outcome.
pub struct StepDone {
    pub st: AbsState,
    pub out: Result<Option<AbsValue>, KutError>,
}

/// The model of a [`KutReturnType`] value.
pub open spec fn abs_out(r: KutReturnType) -> Result<Option<AbsValue>, KutError> {
    match r {
        Ok(None) => Ok(None),
        Ok(Some(v)) => Ok(Some(v@)),
        Err(e) => Err(e),
    }
}

/// Reading a register, dereferencing one level: a promoted register yields
/// its cell's current content.
pub open spec fn spec_get_reg(st: AbsState, reg: u8) -> Result<AbsValue, KutError> {
    if (reg as int) < st.regs.len() {
        Ok(spec_deref(st.regs[reg as int], st.cells))
    } else {
        Err(KutError::OutOfRangeSourceRegister {
            register: reg,
            register_count: st.regs.len() as usize,
        })
    }
}

/// Writing a register, through one level of indirection: a promoted
/// register's cell is overwritten, any other register is replaced.
pub open spec fn spec_set_reg(st: AbsState, reg: u8, v: AbsValue) -> Result<AbsState, KutError> {
    if (reg as int) < st.regs.len() {
        match st.regs[reg as int] {
            AbsValue::Reference(c) => Ok(
                AbsState { regs: st.regs, stack: st.stack, cells: st.cells.update(c, v) },
            ),
            _ => Ok(
                AbsState { regs: st.regs.update(reg as int, v), stack: st.stack, cells: st.cells },
            ),
        }
    } else {
        Err(KutError::OutOfRangeDestinationRegister {
            register: reg,
            register_count: st.regs.len() as usize,
        })
    }
}

/// What the capture protocol leaves behind: the enclosing activation's
/// registers (some possibly promoted), the grown cell pool, and the new
/// closure's capture list or the error that aborted the walk.
pub struct CapDone {
    pub regs: Seq<AbsValue>,
    pub cells: Seq<AbsValue>,
    pub out: Result<Seq<AbsValue>, KutError>,
}

/// The capture protocol: walk the descriptors in order against the
/// enclosing activation's registers and the enclosing closure's captures.
///
/// A register that is not yet a `Reference` is promoted — its value moves
/// into a fresh cell and the register is overwritten in place — while an
/// already promoted register is reused unchanged, so capturing the same
/// register twice yields the same cell.  A descriptor that names an
/// out-of-range slot aborts the walk, keeping the promotions made so far.
pub open spec fn spec_capture(
    infos: Seq<KutCaptureInfo>,
    regs: Seq<AbsValue>,
    env_caps: Seq<AbsValue>,
    cells: Seq<AbsValue>,
) -> CapDone
    decreases infos.len(),
{
    if infos.len() == 0 {
        CapDone { regs, cells, out: Ok(Seq::empty()) }
    } else {
        match infos[0] {
            KutCaptureInfo::Register(r) => {
                if (r as int) < regs.len() {
                    let promoted = !(regs[r as int] is Reference);
                    let cap = if promoted {
                        AbsValue::Reference(cells.len() as int)
                    } else {
                        regs[r as int]
                    };
                    let regs1 = if promoted {
                        regs.update(r as int, cap)
                    } else {
                        regs
                    };
                    let cells1 = if promoted {
                        cells.push(regs[r as int])
                    } else {
                        cells
                    };
                    let rest = spec_capture(infos.drop_first(), regs1, env_caps, cells1);
                    CapDone {
                        regs: rest.regs,
                        cells: rest.cells,
                        out: match rest.out {
                            Ok(caps) => Ok(seq![cap] + caps),
                            Err(e) => Err(e),
                        },
                    }
                } else {
                    CapDone {
                        regs,
                        cells,
                        out: Err(KutError::OutOfRangeDestinationRegister {
                            register: r,
                            register_count: regs.len() as usize,
                        }),
                    }
                }
            },
            KutCaptureInfo::Capture(c) => {
                if (c as int) < env_caps.len() {
                    let rest = spec_capture(infos.drop_first(), regs, env_caps, cells);
                    CapDone {
                        regs: rest.regs,
                        cells: rest.cells,
                        out: match rest.out {
                            Ok(caps) => Ok(seq![env_caps[c as int]] + caps),
                            Err(e) => Err(e),
                        },
                    }
                } else {
                    CapDone {
                        regs,
                        cells,
                        out: Err(KutError::OutOfRangeSourceCapture {
                            capture: c,
                            capture_count: env_caps.len() as usize,
                        }),
                    }
                }
            },
        }
    }
}

impl KutInstruction {
    /// Whether this instruction starts a nested activation.  Call
    /// instructions suspend the running activation, so the activation
    /// driver sequences them itself rather than a single-instruction step.
    pub open spec fn is_call(self) -> bool {
        self is CallMethodR || self is CallMethodS
    }
}

/// No instruction of the sequence starts a nested activation.
pub open spec fn no_calls(insts: Seq<KutInstruction>) -> bool {
    forall|i: int| 0 <= i < insts.len() ==> !(#[trigger] insts[i]).is_call()
}

/// The meaning of one non-call instruction: the state it leaves behind and
/// its outcome.  `caps` is the running closure's capture list, `lits` and
/// `templates` are the VM container's pools.
pub open spec fn spec_step(
    inst: KutInstruction,
    st: AbsState,
    caps: Seq<AbsValue>,
    lits: Seq<AbsValue>,
    templates: Seq<KutFunctionTemplate>,
) -> StepDone
    recommends
        !inst.is_call(),
{
    match inst {
        KutInstruction::NoOperation => StepDone { st, out: Ok(None) },
        KutInstruction::MovRegister { destination, source } => {
            if destination == source {
                StepDone { st, out: Ok(None) }
            } else {
                match spec_get_reg(st, source) {
                    Ok(v) => match spec_set_reg(st, destination, v) {
                        Ok(st1) => StepDone { st: st1, out: Ok(None) },
                        Err(e) => StepDone { st, out: Err(e) },
                    },
                    Err(e) => StepDone { st, out: Err(e) },
                }
            }
        },
        KutInstruction::RetfMethodR { value } => {
            match spec_get_reg(st, value) {
                Ok(v) => StepDone { st, out: Ok(Some(v)) },
                Err(e) => StepDone { st, out: Err(e) },
            }
        },
        KutInstruction::RetfMethodS => {
            if st.stack.len() > 0 {
                StepDone {
                    st: AbsState { regs: st.regs, stack: st.stack.drop_last(), cells: st.cells },
                    out: Ok(Some(st.stack.last())),
                }
            } else {
                StepDone { st, out: Err(KutError::StackUnderflow) }
            }
        },
        KutInstruction::PushValue1R { val1 } => spec_push_regs(st, seq![val1]),
        KutInstruction::PushValue2R { val1, val2 } => spec_push_regs(st, seq![val1, val2]),
        KutInstruction::PushValue3R { val1, val2, val3 } => spec_push_regs(
            st,
            seq![val1, val2, val3],
        ),
        KutInstruction::SwapValuesR { reg1, reg2 } => {
            if (reg1 as int) >= st.regs.len() {
                StepDone {
                    st,
                    out: Err(KutError::OutOfRangeSwapRegister {
                        register: reg1,
                        register_count: st.regs.len() as usize,
                    }),
                }
            } else if (reg2 as int) >= st.regs.len() {
                StepDone {
                    st,
                    out: Err(KutError::OutOfRangeSwapRegister {
                        register: reg2,
                        register_count: st.regs.len() as usize,
                    }),
                }
            } else {
                let r1 = st.regs[reg1 as int];
                let r2 = st.regs[reg2 as int];
                StepDone {
                    st: AbsState {
                        regs: st.regs.update(reg1 as int, r2).update(reg2 as int, r1),
                        stack: st.stack,
                        cells: st.cells,
                    },
                    out: Ok(None),
                }
            }
        },
        KutInstruction::GetLiteralR { reg, literal } => {
            if (literal as int) < lits.len() {
                match spec_set_reg(st, reg, lits[literal as int]) {
                    Ok(st1) => StepDone { st: st1, out: Ok(None) },
                    Err(e) => StepDone { st, out: Err(e) },
                }
            } else {
                StepDone {
                    st,
                    out: Err(KutError::OutOfRangeLiteral {
                        literal,
                        literal_count: lits.len() as usize,
                    }),
                }
            }
        },
        KutInstruction::GetCaptureR { reg, capture } => {
            if (capture as int) < caps.len() {
                match caps[capture as int] {
                    AbsValue::Reference(c) => {
                        match spec_set_reg(st, reg, st.cells[c]) {
                            Ok(st1) => StepDone { st: st1, out: Ok(None) },
                            Err(e) => StepDone { st, out: Err(e) },
                        }
                    },
                    _ => StepDone {
                        st,
                        out: Err(KutError::NonReferenceCapture {
                            capture,
                            capture_type: caps[capture as int].kind(),
                        }),
                    },
                }
            } else {
                StepDone {
                    st,
                    out: Err(KutError::OutOfRangeSourceCapture {
                        capture,
                        capture_count: caps.len() as usize,
                    }),
                }
            }
        },
        KutInstruction::SetCaptureR { reg, capture } => {
            match spec_get_reg(st, reg) {
                Ok(v) => {
                    if (capture as int) < caps.len() {
                        match caps[capture as int] {
                            AbsValue::Reference(c) => StepDone {
                                st: AbsState {
                                    regs: st.regs,
                                    stack: st.stack,
                                    cells: st.cells.update(c, v),
                                },
                                out: Ok(None),
                            },
                            _ => StepDone {
                                st,
                                out: Err(KutError::NonReferenceCapture {
                                    capture,
                                    capture_type: caps[capture as int].kind(),
                                }),
                            },
                        }
                    } else {
                        StepDone {
                            st,
                            out: Err(KutError::OutOfRangeDestinationCapture {
                                capture,
                                capture_count: caps.len() as usize,
                            }),
                        }
                    }
                },
                Err(e) => StepDone { st, out: Err(e) },
            }
        },
        KutInstruction::CaptureFunc { reg, template } => {
            if (template as int) < templates.len() {
                let cd = spec_capture(
                    templates[template as int].capture_infos@,
                    st.regs,
                    caps,
                    st.cells,
                );
                let st1 = AbsState { regs: cd.regs, stack: st.stack, cells: cd.cells };
                match cd.out {
                    Ok(newcaps) => {
                        let made = AbsValue::Func(
                            AbsClosure { template: template as int, captures: newcaps },
                        );
                        match spec_set_reg(st1, reg, made) {
                            Ok(st2) => StepDone { st: st2, out: Ok(None) },
                            Err(e) => StepDone { st: st1, out: Err(e) },
                        }
                    },
                    Err(e) => StepDone { st: st1, out: Err(e) },
                }
            } else {
                StepDone {
                    st,
                    out: Err(KutError::OutOfRangeTemplate {
                        template,
                        template_count: templates.len() as usize,
                    }),
                }
            }
        },
        KutInstruction::PushLiteral { literal } => {
            if (literal as int) < lits.len() {
                StepDone {
                    st: AbsState {
                        regs: st.regs,
                        stack: st.stack.push(lits[literal as int]),
                        cells: st.cells,
                    },
                    out: Ok(None),
                }
            } else {
                StepDone {
                    st,
                    out: Err(KutError::OutOfRangeLiteral {
                        literal,
                        literal_count: lits.len() as usize,
                    }),
                }
            }
        },
        KutInstruction::PushCapture { capture } => {
            if (capture as int) < caps.len() {
                match caps[capture as int] {
                    AbsValue::Reference(c) => StepDone {
                        st: AbsState {
                            regs: st.regs,
                            stack: st.stack.push(st.cells[c]),
                            cells: st.cells,
                        },
                        out: Ok(None),
                    },
                    _ => StepDone {
                        st,
                        out: Err(KutError::NonReferenceCapture {
                            capture,
                            capture_type: caps[capture as int].kind(),
                        }),
                    },
                }
            } else {
                StepDone {
                    st,
                    out: Err(KutError::OutOfRangeSourceCapture {
                        capture,
                        capture_count: caps.len() as usize,
                    }),
                }
            }
        },
        KutInstruction::PushFuncStk { template } => {
            if (template as int) < templates.len() {
                let cd = spec_capture(
                    templates[template as int].capture_infos@,
                    st.regs,
                    caps,
                    st.cells,
                );
                let st1 = AbsState { regs: cd.regs, stack: st.stack, cells: cd.cells };
                match cd.out {
                    Ok(newcaps) => {
                        let made = AbsValue::Func(
                            AbsClosure { template: template as int, captures: newcaps },
                        );
                        StepDone {
                            st: AbsState {
                                regs: st1.regs,
                                stack: st1.stack.push(made),
                                cells: st1.cells,
                            },
                            out: Ok(None),
                        }
                    },
                    Err(e) => StepDone { st: st1, out: Err(e) },
                }
            } else {
                StepDone {
                    st,
                    out: Err(KutError::OutOfRangeTemplate {
                        template,
                        template_count: templates.len() as usize,
                    }),
                }
            }
        },
        KutInstruction::PopCaptureS { capture } => {
            if st.stack.len() > 0 {
                let v = st.stack.last();
                let st1 = AbsState { regs: st.regs, stack: st.stack.drop_last(), cells: st.cells };
                if (capture as int) < caps.len() {
                    match caps[capture as int] {
                        AbsValue::Reference(c) => StepDone {
                            st: AbsState {
                                regs: st1.regs,
                                stack: st1.stack,
                                cells: st1.cells.update(c, v),
                            },
                            out: Ok(None),
                        },
                        _ => StepDone {
                            st: st1,
                            out: Err(KutError::NonReferenceCapture {
                                capture,
                                capture_type: caps[capture as int].kind(),
                            }),
                        },
                    }
                } else {
                    StepDone {
                        st: st1,
                        out: Err(KutError::OutOfRangeDestinationCapture {
                            capture,
                            capture_count: caps.len() as usize,
                        }),
                    }
                }
            } else {
                StepDone { st, out: Err(KutError::StackUnderflow) }
            }
        },
        KutInstruction::CallMethodR { .. } => arbitrary(),
        KutInstruction::CallMethodS { .. } => arbitrary(),
    }
}

/// Pushing the dereferenced contents of the named registers onto the
/// operand stack, in order; the first out-of-range register aborts, keeping
/// the pushes made so far.
pub open spec fn spec_push_regs(st: AbsState, regs: Seq<u8>) -> StepDone
    decreases regs.len(),
{
    if regs.len() == 0 {
        StepDone { st, out: Ok(None) }
    } else {
        match spec_get_reg(st, regs[0]) {
            Ok(v) => spec_push_regs(
                AbsState { regs: st.regs, stack: st.stack.push(v), cells: st.cells },
                regs.drop_first(),
            ),
            Err(e) => StepDone { st, out: Err(e) },
        }
    }
}

/// Running a template's instructions in program order from `pc`, within one
/// activation: stops at the first produced return value or error, or runs
/// off the end with no value.  Meaningful for straight-line instruction
/// sequences (no call instructions).
pub open spec fn spec_run(
    insts: Seq<KutInstruction>,
    pc: int,
    st: AbsState,
    caps: Seq<AbsValue>,
    lits: Seq<AbsValue>,
    templates: Seq<KutFunctionTemplate>,
) -> StepDone
    decreases insts.len() - pc,
{
    if pc < 0 || pc >= insts.len() {
        StepDone { st, out: Ok(None) }
    } else {
        let d = spec_step(insts[pc], st, caps, lits, templates);
        match d.out {
            Ok(None) => spec_run(insts, pc + 1, d.st, caps, lits, templates),
            _ => d,
        }
    }
}

/// The model of one activation in flight: its register file and operand
/// stack, its closure's capture list and template, and its program counter.
pub struct AbsAct {
    pub regs: Seq<AbsValue>,
    pub stack: Seq<AbsValue>,
    pub caps: Seq<AbsValue>,
    pub template: int,
    pub pc: int,
}

/// Where a suspended caller wants its callee's produced value.
pub enum AbsRet {
    Register(u8),
    Stack,
}

/// A suspended caller, waiting for its callee to finish.
pub struct AbsFrame {
    pub act: AbsAct,
    pub ret: AbsRet,
}

/// The whole machine in flight: the suspended callers bottom-first, the
/// running activation, the cell pool, and the remaining step budget.
pub struct AbsMachine {
    pub frames: Seq<AbsFrame>,
    pub cur: AbsAct,
    pub cells: Seq<AbsValue>,
    pub budget: nat,
}

/// A finished machine: the root activation's final registers and operand
/// stack, the final cell pool, and the produced outcome.
pub struct MachineHalt {
    pub regs: Seq<AbsValue>,
    pub stack: Seq<AbsValue>,
    pub cells: Seq<AbsValue>,
    pub out: Result<Option<AbsValue>, KutError>,
}

/// The root activation among the given frames: the oldest suspended one,
/// or the running one if nothing is suspended.
pub open spec fn bottom_of(frames: Seq<AbsFrame>, cur: AbsAct) -> AbsAct {
    if frames.len() > 0 {
        frames[0].act
    } else {
        cur
    }
}

/// A machine halting with an error: every activation unwinds, and the
/// root's state at that moment is what the host sees.
pub open spec fn machine_fail(
    frames: Seq<AbsFrame>,
    cur: AbsAct,
    cells: Seq<AbsValue>,
    e: KutError,
) -> MachineHalt {
    MachineHalt {
        regs: bottom_of(frames, cur).regs,
        stack: bottom_of(frames, cur).stack,
        cells,
        out: Err(e),
    }
}

/// What a call instruction does before the callee runs: read the callee
/// closure from `subject` (one dereference), take the top `arg_count`
/// operands off the caller in push order, and build the callee activation
/// with them bound to its leading registers, the rest `Nil`.
pub open spec fn spec_begin_call(
    cur: AbsAct,
    cells: Seq<AbsValue>,
    templates: Seq<KutFunctionTemplate>,
    arg_count: u8,
    subject: u8,
) -> Result<(AbsAct, AbsAct), KutError> {
    match spec_get_reg(AbsState { regs: cur.regs, stack: cur.stack, cells }, subject) {
        Err(e) => Err(e),
        Ok(sv) => {
            if !(sv is Func) {
                Err(KutError::NonFuncSubject { register: subject, subject_type: sv.kind() })
            } else {
                let f = sv->Func_0;
                let argn = arg_count as int;
                if cur.stack.len() < argn {
                    Err(KutError::StackUnderflow)
                } else {
                    let rc = templates[f.template].register_count;
                    if (rc as int) < argn {
                        Err(
                            KutError::OutOfRangeDestinationRegister {
                                register: rc,
                                register_count: rc as usize,
                            },
                        )
                    } else {
                        let caller = AbsAct {
                            regs: cur.regs,
                            stack: cur.stack.subrange(0, cur.stack.len() - argn),
                            caps: cur.caps,
                            template: cur.template,
                            pc: cur.pc,
                        };
                        let callee = AbsAct {
                            regs: Seq::new(
                                rc as nat,
                                |i: int|
                                    if i < argn {
                                        cur.stack[cur.stack.len() - argn + i]
                                    } else {
                                        AbsValue::Nil
                                    },
                            ),
                            stack: Seq::empty(),
                            caps: f.captures,
                            template: f.template,
                            pc: 0,
                        };
                        Ok((caller, callee))
                    }
                }
            }
        },
    }
}

/// A finished activation hands its value (implicitly `Nil` if it produced
/// none) back to the slot its caller named, or halts the machine if it was
/// the root; a caller register that cannot take the value fails the run.
pub open spec fn machine_finish(m: AbsMachine, res: Option<AbsValue>) -> Result<
    AbsMachine,
    MachineHalt,
> {
    if m.frames.len() == 0 {
        Err(MachineHalt { regs: m.cur.regs, stack: m.cur.stack, cells: m.cells, out: Ok(res) })
    } else {
        let fr = m.frames.last();
        let frames2 = m.frames.drop_last();
        let value = match res {
            Some(v) => v,
            None => AbsValue::Nil,
        };
        match fr.ret {
            AbsRet::Register(rr) => {
                match spec_set_reg(
                    AbsState { regs: fr.act.regs, stack: fr.act.stack, cells: m.cells },
                    rr,
                    value,
                ) {
                    Ok(st1) => Ok(
                        AbsMachine {
                            frames: frames2,
                            cur: AbsAct {
                                regs: st1.regs,
                                stack: st1.stack,
                                caps: fr.act.caps,
                                template: fr.act.template,
                                pc: fr.act.pc,
                            },
                            cells: st1.cells,
                            budget: m.budget,
                        },
                    ),
                    Err(e) => Err(machine_fail(frames2, fr.act, m.cells, e)),
                }
            },
            AbsRet::Stack => Ok(
                AbsMachine {
                    frames: frames2,
                    cur: AbsAct {
                        regs: fr.act.regs,
                        stack: fr.act.stack.push(value),
                        caps: fr.act.caps,
                        template: fr.act.template,
                        pc: fr.act.pc,
                    },
                    cells: m.cells,
                    budget: m.budget,
                },
            ),
        }
    }
}

/// One step of the machine: spend one unit of budget, then fetch and
/// execute the running activation's next instruction — suspending it on a
/// call, resuming its caller on a produced value or exhausted
/// instructions, unwinding on an error.
pub open spec fn machine_step(
    m: AbsMachine,
    lits: Seq<AbsValue>,
    templates: Seq<KutFunctionTemplate>,
    limit: u64,
) -> Result<AbsMachine, MachineHalt> {
    if m.budget == 0 {
        Err(
            MachineHalt {
                regs: bottom_of(m.frames, m.cur).regs,
                stack: bottom_of(m.frames, m.cur).stack,
                cells: m.cells,
                out: Err(KutError::StepLimitReached { limit }),
            },
        )
    } else {
        let budget2 = (m.budget - 1) as nat;
        let insts = templates[m.cur.template].instructions@;
        if m.cur.pc < 0 || m.cur.pc >= insts.len() {
            machine_finish(
                AbsMachine { frames: m.frames, cur: m.cur, cells: m.cells, budget: budget2 },
                None,
            )
        } else {
            let inst = insts[m.cur.pc];
            let curp = AbsAct {
                regs: m.cur.regs,
                stack: m.cur.stack,
                caps: m.cur.caps,
                template: m.cur.template,
                pc: m.cur.pc + 1,
            };
            match inst {
                KutInstruction::CallMethodR { ret_position, arg_count, subject } => {
                    machine_do_call(
                        m.frames,
                        curp,
                        m.cells,
                        budget2,
                        templates,
                        AbsRet::Register(ret_position),
                        arg_count,
                        subject,
                    )
                },
                KutInstruction::CallMethodS { arg_count, subject } => {
                    machine_do_call(
                        m.frames,
                        curp,
                        m.cells,
                        budget2,
                        templates,
                        AbsRet::Stack,
                        arg_count,
                        subject,
                    )
                },
                _ => {
                    let d = spec_step(
                        inst,
                        AbsState { regs: curp.regs, stack: curp.stack, cells: m.cells },
                        curp.caps,
                        lits,
                        templates,
                    );
                    let cur2 = AbsAct {
                        regs: d.st.regs,
                        stack: d.st.stack,
                        caps: curp.caps,
                        template: curp.template,
                        pc: curp.pc,
                    };
                    let m2 = AbsMachine {
                        frames: m.frames,
                        cur: cur2,
                        cells: d.st.cells,
                        budget: budget2,
                    };
                    match d.out {
                        Ok(None) => Ok(m2),
                        Ok(Some(v)) => machine_finish(m2, Some(v)),
                        Err(e) => Err(machine_fail(m2.frames, m2.cur, m2.cells, e)),
                    }
                },
            }
        }
    }
}

/// The machine's move on a call instruction.
pub open spec fn machine_do_call(
    frames: Seq<AbsFrame>,
    curp: AbsAct,
    cells: Seq<AbsValue>,
    budget: nat,
    templates: Seq<KutFunctionTemplate>,
    ret: AbsRet,
    arg_count: u8,
    subject: u8,
) -> Result<AbsMachine, MachineHalt> {
    match spec_begin_call(curp, cells, templates, arg_count, subject) {
        Ok((caller, callee)) => Ok(
            AbsMachine {
                frames: frames.push(AbsFrame { act: caller, ret }),
                cur: callee,
                cells,
                budget,
            },
        ),
        Err(e) => Err(machine_fail(frames, curp, cells, e)),
    }
}

/// Where the machine stands after `n` steps: still running, or halted —
/// and once halted, halted for every larger `n`, so a halt reached at any
/// step count is the run's one outcome.
pub open spec fn machine_reaches(
    m: AbsMachine,
    lits: Seq<AbsValue>,
    templates: Seq<KutFunctionTemplate>,
    limit: u64,
    n: nat,
) -> Result<AbsMachine, MachineHalt>
    decreases n,
{
    if n == 0 {
        Ok(m)
    } else {
        match machine_step(m, lits, templates, limit) {
            Ok(m2) => machine_reaches(m2, lits, templates, limit, (n - 1) as nat),
            Err(h) => Err(h),
        }
    }
}

/// Extending a run of `n` live steps by one applies the machine's step
/// function to where it stood.
pub proof fn lemma_reaches_step(
    m0: AbsMachine,
    lits: Seq<AbsValue>,
    templates: Seq<KutFunctionTemplate>,
    limit: u64,
    n: nat,
    m: AbsMachine,
)
    requires
        machine_reaches(m0, lits, templates, limit, n) == Ok::<AbsMachine, MachineHalt>(m),
    ensures
        machine_reaches(m0, lits, templates, limit, (n + 1) as nat) == machine_step(
            m,
            lits,
            templates,
            limit,
        ),
    decreases n,
{
    reveal_with_fuel(machine_reaches, 3);
    if n == 0 {
        match machine_step(m0, lits, templates, limit) {
            Ok(m2) => {
                assert(machine_reaches(m0, lits, templates, limit, 1) == Ok::<
                    AbsMachine,
                    MachineHalt,
                >(m2));
            },
            Err(h) => {
                assert(machine_reaches(m0, lits, templates, limit, 1) == Err::<
                    AbsMachine,
                    MachineHalt,
                >(h));
            },
        }
    } else {
        match machine_step(m0, lits, templates, limit) {
            Ok(m1) => {
                assert(machine_reaches(m1, lits, templates, limit, (n - 1) as nat) == Ok::<
                    AbsMachine,
                    MachineHalt,
                >(m));
                lemma_reaches_step(m1, lits, templates, limit, (n - 1) as nat, m);
                assert(((n - 1) as nat + 1) as nat == n);
                assert(machine_reaches(m0, lits, templates, limit, (n + 1) as nat)
                    == machine_reaches(m1, lits, templates, limit, ((n + 1) as nat - 1) as nat));
                assert(((n + 1) as nat - 1) as nat == n);
            },
            Err(_) => {
                assert(false);
            },
        }
    }
}

/// A halt is absorbing: once the machine has halted, every longer run
/// reports the same halt.
pub proof fn lemma_halt_absorbing(
    m: AbsMachine,
    lits: Seq<AbsValue>,
    templates: Seq<KutFunctionTemplate>,
    limit: u64,
    n: nat,
    np: nat,
    h: MachineHalt,
)
    requires
        machine_reaches(m, lits, templates, limit, n) == Err::<AbsMachine, MachineHalt>(h),
        n <= np,
    ensures
        machine_reaches(m, lits, templates, limit, np) == Err::<AbsMachine, MachineHalt>(h),
    decreases np,
{
    match machine_step(m, lits, templates, limit) {
        Ok(m2) => {
            lemma_halt_absorbing(m2, lits, templates, limit, (n - 1) as nat, (np - 1) as nat, h);
        },
        Err(_) => {},
    }
}

/// The machine's outcome is one: two step counts that both see it halted
/// see the same halt, so the halt a run reports is the run's only
/// possible outcome.
pub proof fn lemma_machine_outcome_unique(
    m: AbsMachine,
    lits: Seq<AbsValue>,
    templates: Seq<KutFunctionTemplate>,
    limit: u64,
    n1: nat,
    n2: nat,
    h1: MachineHalt,
    h2: MachineHalt,
)
    requires
        machine_reaches(m, lits, templates, limit, n1) == Err::<AbsMachine, MachineHalt>(h1),
        machine_reaches(m, lits, templates, limit, n2) == Err::<AbsMachine, MachineHalt>(h2),
    ensures
        h1 == h2,
{
    if n1 <= n2 {
        lemma_halt_absorbing(m, lits, templates, limit, n1, n2, h1);
    } else {
        lemma_halt_absorbing(m, lits, templates, limit, n2, n1, h2);
    }
}

/// The model of a fallible value-producing result.
pub open spec fn abs_res(r: Result<KutValue, KutError>) -> Result<AbsValue, KutError> {
    match r {
        Ok(v) => Ok(v@),
        Err(e) => Err(e),
    }
}

/// What instruction execution needs of the current frame: every
/// `Reference` sitting in a register or in a capture slot names a live
/// cell.
pub open spec fn frame_refs_ok(context: KutFunction, cells: CellPool) -> bool {
    &&& caps_ok(abs_seq(context.registers@), cells@.len() as int)
    &&& caps_ok(context.closure@.captures, cells@.len() as int)
}

/// The contract every instruction handler meets: the machine moves exactly
/// as [`spec_step`] says, and the activation keeps its closure.
pub open spec fn step_post(
    inst: KutInstruction,
    ctx0: KutFunction,
    cells0: CellPool,
    vm: crate::vm::KutVm,
    ctx1: KutFunction,
    cells1: CellPool,
    r: KutReturnType,
) -> bool {
    let d = spec_step(
        inst,
        act_state(ctx0, cells0),
        ctx0.closure@.captures,
        abs_seq(vm.literals@),
        vm.templates@,
    );
    &&& ctx1.closure == ctx0.closure
    &&& act_state(ctx1, cells1) == d.st
    &&& abs_out(r) == d.out
}

/// Well-formed values have well-formed reference slots.
pub proof fn lemma_values_ok_refs(s: Seq<AbsValue>, ncells: int, nt: int)
    requires
        values_ok(s, ncells, nt),
    ensures
        caps_ok(s, ncells),
{
}

/// The capture protocol never invalidates a reference: the cell pool only
/// grows, promoted registers point into it, and so do the new captures.
/// (This needs nothing of the values involved beyond their references.)
pub proof fn lemma_capture_refs_ok(
    infos: Seq<KutCaptureInfo>,
    regs: Seq<AbsValue>,
    env_caps: Seq<AbsValue>,
    cells: Seq<AbsValue>,
)
    requires
        caps_ok(regs, cells.len() as int),
        caps_ok(env_caps, cells.len() as int),
    ensures
        ({
            let cd = spec_capture(infos, regs, env_caps, cells);
            &&& cells.len() <= cd.cells.len()
            &&& cd.regs.len() == regs.len()
            &&& caps_ok(cd.regs, cd.cells.len() as int)
            &&& (cd.out matches Ok(caps) ==> caps_ok(caps, cd.cells.len() as int))
        }),
    decreases infos.len(),
{
    if infos.len() > 0 {
        match infos[0] {
            KutCaptureInfo::Register(r) => {
                if (r as int) < regs.len() {
                    let promoted = !(regs[r as int] is Reference);
                    let cap = if promoted {
                        AbsValue::Reference(cells.len() as int)
                    } else {
                        regs[r as int]
                    };
                    let regs1 = if promoted {
                        regs.update(r as int, cap)
                    } else {
                        regs
                    };
                    let cells1 = if promoted {
                        cells.push(regs[r as int])
                    } else {
                        cells
                    };
                    lemma_capture_refs_ok(infos.drop_first(), regs1, env_caps, cells1);
                }
            },
            KutCaptureInfo::Capture(c) => {
                if (c as int) < env_caps.len() {
                    lemma_capture_refs_ok(infos.drop_first(), regs, env_caps, cells);
                }
            },
        }
    }
}

/// A register read hands out only well-formed values.
pub proof fn lemma_get_reg_ok(st: AbsState, reg: u8, nt: int)
    requires
        state_ok(st, nt),
    ensures
        spec_get_reg(st, reg) matches Ok(v) ==> value_ok(v, st.cells.len() as int, nt),
{
}

/// A register write of a well-formed value preserves well-formedness and
/// touches nothing but the named register or its cell.
pub proof fn lemma_set_reg_ok(st: AbsState, reg: u8, v: AbsValue, nt: int)
    requires
        state_ok(st, nt),
        value_ok(v, st.cells.len() as int, nt),
    ensures
        spec_set_reg(st, reg, v) matches Ok(st1) ==> {
            &&& state_ok(st1, nt)
            &&& st1.cells.len() == st.cells.len()
            &&& st1.regs.len() == st.regs.len()
            &&& st1.stack == st.stack
        },
{
}

/// The capture protocol only grows the cell pool, keeps every part of the
/// state well formed, and hands back one well-formed capture per
/// descriptor.
pub proof fn lemma_capture_ok(
    infos: Seq<KutCaptureInfo>,
    regs: Seq<AbsValue>,
    env_caps: Seq<AbsValue>,
    cells: Seq<AbsValue>,
    nt: int,
)
    requires
        values_ok(regs, cells.len() as int, nt),
        cells_ok(cells, nt),
        caps_ok(env_caps, cells.len() as int),
    ensures
        ({
            let cd = spec_capture(infos, regs, env_caps, cells);
            &&& cells.len() <= cd.cells.len()
            &&& cd.regs.len() == regs.len()
            &&& values_ok(cd.regs, cd.cells.len() as int, nt)
            &&& cells_ok(cd.cells, nt)
            &&& (cd.out matches Ok(caps) ==> caps.len() == infos.len() && caps_ok(
                caps,
                cd.cells.len() as int,
            ))
        }),
    decreases infos.len(),
{
    if infos.len() == 0 {
    } else {
        match infos[0] {
            KutCaptureInfo::Register(r) => {
                if (r as int) < regs.len() {
                    let promoted = !(regs[r as int] is Reference);
                    let cap = if promoted {
                        AbsValue::Reference(cells.len() as int)
                    } else {
                        regs[r as int]
                    };
                    let regs1 = if promoted {
                        regs.update(r as int, cap)
                    } else {
                        regs
                    };
                    let cells1 = if promoted {
                        cells.push(regs[r as int])
                    } else {
                        cells
                    };
                    lemma_values_ok_grows(regs, cells.len() as int, cells1.len() as int, nt);
                    assert(values_ok(regs1, cells1.len() as int, nt));
                    assert forall|i: int| 0 <= i < cells1.len() implies value_ok(
                        #[trigger] cells1[i],
                        cells1.len() as int,
                        nt,
                    ) by {
                        if i < cells.len() {
                            lemma_value_ok_grows(cells[i], cells.len() as int, cells1.len() as int, nt);
                        } else {
                            lemma_value_ok_grows(
                                regs[r as int],
                                cells.len() as int,
                                cells1.len() as int,
                                nt,
                            );
                        }
                    }
                    lemma_capture_ok(infos.drop_first(), regs1, env_caps, cells1, nt);
                }
            },
            KutCaptureInfo::Capture(c) => {
                if (c as int) < env_caps.len() {
                    lemma_capture_ok(infos.drop_first(), regs, env_caps, cells, nt);
                }
            },
        }
    }
}

/// Pushing register contents preserves well-formedness and never touches
/// the registers or the cells.
pub proof fn lemma_push_regs_ok(st: AbsState, regs: Seq<u8>, nt: int)
    requires
        state_ok(st, nt),
    ensures
        ({
            let d = spec_push_regs(st, regs);
            &&& state_ok(d.st, nt)
            &&& d.st.regs == st.regs
            &&& d.st.cells == st.cells
            &&& (d.out matches Ok(r) ==> r is None)
        }),
    decreases regs.len(),
{
    if regs.len() > 0 {
        match spec_get_reg(st, regs[0]) {
            Ok(v) => {
                lemma_get_reg_ok(st, regs[0], nt);
                lemma_push_regs_ok(
                    AbsState { regs: st.regs, stack: st.stack.push(v), cells: st.cells },
                    regs.drop_first(),
                    nt,
                );
            },
            Err(_) => {},
        }
    }
}

/// One non-call step keeps the machine well formed: the register count
/// never changes, the cell pool only grows, and a produced return value is
/// well formed.
pub proof fn lemma_step_ok(
    inst: KutInstruction,
    st: AbsState,
    caps: Seq<AbsValue>,
    lits: Seq<AbsValue>,
    templates: Seq<KutFunctionTemplate>,
    nt: int,
)
    requires
        !inst.is_call(),
        state_ok(st, nt),
        caps_ok(caps, st.cells.len() as int),
        values_ok(lits, 0, nt),
        nt == templates.len(),
    ensures
        ({
            let d = spec_step(inst, st, caps, lits, templates);
            &&& state_ok(d.st, nt)
            &&& d.st.regs.len() == st.regs.len()
            &&& st.cells.len() <= d.st.cells.len()
            &&& caps_ok(caps, d.st.cells.len() as int)
            &&& (d.out matches Ok(Some(v)) ==> value_ok(v, d.st.cells.len() as int, nt))
        }),
{
    match inst {
        KutInstruction::MovRegister { destination, source } => {
            if destination != source {
                lemma_get_reg_ok(st, source, nt);
                if let Ok(v) = spec_get_reg(st, source) {
                    lemma_set_reg_ok(st, destination, v, nt);
                }
            }
        },
        KutInstruction::RetfMethodR { value } => {
            lemma_get_reg_ok(st, value, nt);
        },
        KutInstruction::PushValue1R { val1 } => {
            lemma_push_regs_ok(st, seq![val1], nt);
        },
        KutInstruction::PushValue2R { val1, val2 } => {
            lemma_push_regs_ok(st, seq![val1, val2], nt);
        },
        KutInstruction::PushValue3R { val1, val2, val3 } => {
            lemma_push_regs_ok(st, seq![val1, val2, val3], nt);
        },
        KutInstruction::GetLiteralR { reg, literal } => {
            if (literal as int) < lits.len() {
                lemma_value_ok_grows(lits[literal as int], 0, st.cells.len() as int, nt);
                lemma_set_reg_ok(st, reg, lits[literal as int], nt);
            }
        },
        KutInstruction::GetCaptureR { reg, capture } => {
            if (capture as int) < caps.len() {
                if let AbsValue::Reference(c) = caps[capture as int] {
                    lemma_set_reg_ok(st, reg, st.cells[c], nt);
                }
            }
        },
        KutInstruction::SetCaptureR { reg, capture } => {
            lemma_get_reg_ok(st, reg, nt);
        },
        KutInstruction::CaptureFunc { reg, template } => {
            if (template as int) < templates.len() {
                let infos = templates[template as int].capture_infos@;
                lemma_capture_ok(infos, st.regs, caps, st.cells, nt);
                let cd = spec_capture(infos, st.regs, caps, st.cells);
                let st1 = AbsState { regs: cd.regs, stack: st.stack, cells: cd.cells };
                lemma_values_ok_grows(st.stack, st.cells.len() as int, cd.cells.len() as int, nt);
                if let Ok(newcaps) = cd.out {
                    let made = AbsValue::Func(
                        AbsClosure { template: template as int, captures: newcaps },
                    );
                    lemma_set_reg_ok(st1, reg, made, nt);
                }
            }
        },
        KutInstruction::PushFuncStk { template } => {
            if (template as int) < templates.len() {
                let infos = templates[template as int].capture_infos@;
                lemma_capture_ok(infos, st.regs, caps, st.cells, nt);
                let cd = spec_capture(infos, st.regs, caps, st.cells);
                lemma_values_ok_grows(st.stack, st.cells.len() as int, cd.cells.len() as int, nt);
            }
        },
        KutInstruction::PushLiteral { literal } => {
            if (literal as int) < lits.len() {
                lemma_value_ok_grows(lits[literal as int], 0, st.cells.len() as int, nt);
            }
        },
        KutInstruction::RetfMethodS => {
            if st.stack.len() > 0 {
                assert(value_ok(st.stack[st.stack.len() - 1], st.cells.len() as int, nt));
                assert forall|i: int| 0 <= i < st.stack.drop_last().len() implies value_ok(
                    #[trigger] st.stack.drop_last()[i],
                    st.cells.len() as int,
                    nt,
                ) by {
                    assert(st.stack.drop_last()[i] == st.stack[i]);
                }
            }
        },
        KutInstruction::SwapValuesR { reg1, reg2 } => {
            if (reg1 as int) < st.regs.len() && (reg2 as int) < st.regs.len() {
                let swapped = st.regs.update(reg1 as int, st.regs[reg2 as int]).update(
                    reg2 as int,
                    st.regs[reg1 as int],
                );
                assert forall|i: int| 0 <= i < swapped.len() implies value_ok(
                    #[trigger] swapped[i],
                    st.cells.len() as int,
                    nt,
                ) by {
                    assert(value_ok(st.regs[i], st.cells.len() as int, nt));
                    assert(value_ok(st.regs[reg1 as int], st.cells.len() as int, nt));
                    assert(value_ok(st.regs[reg2 as int], st.cells.len() as int, nt));
                }
            }
        },
        KutInstruction::PopCaptureS { capture } => {
            if st.stack.len() > 0 {
                let v = st.stack.last();
                assert(value_ok(v, st.cells.len() as int, nt));
                assert forall|i: int| 0 <= i < st.stack.drop_last().len() implies value_ok(
                    #[trigger] st.stack.drop_last()[i],
                    st.cells.len() as int,
                    nt,
                ) by {
                    assert(st.stack.drop_last()[i] == st.stack[i]);
                }
            }
        },
        _ => {},
    }
}

/// A straight run of instructions keeps the machine well formed.
pub proof fn lemma_run_ok(
    insts: Seq<KutInstruction>,
    pc: int,
    st: AbsState,
    caps: Seq<AbsValue>,
    lits: Seq<AbsValue>,
    templates: Seq<KutFunctionTemplate>,
    nt: int,
)
    requires
        no_calls(insts),
        state_ok(st, nt),
        caps_ok(caps, st.cells.len() as int),
        values_ok(lits, 0, nt),
        nt == templates.len(),
    ensures
        ({
            let d = spec_run(insts, pc, st, caps, lits, templates);
            &&& state_ok(d.st, nt)
            &&& d.st.regs.len() == st.regs.len()
            &&& st.cells.len() <= d.st.cells.len()
            &&& (d.out matches Ok(Some(v)) ==> value_ok(v, d.st.cells.len() as int, nt))
        }),
    decreases insts.len() - pc,
{
    if 0 <= pc < insts.len() {
        lemma_step_ok(insts[pc], st, caps, lits, templates, nt);
        let d = spec_step(insts[pc], st, caps, lits, templates);
        if d.out == Ok::<Option<AbsValue>, KutError>(None) {
            lemma_run_ok(insts, pc + 1, d.st, caps, lits, templates, nt);
        }
    }
}

} // verus!
