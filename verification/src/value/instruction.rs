//! The instruction executor: one handler per instruction, each proved to
//! move the machine exactly as [`spec_step`] says.

use vstd::prelude::*;

use crate::value::semantics::{
    abs_res, act_state, frame_refs_ok, lemma_capture_refs_ok, spec_get_reg, spec_push_regs,
    spec_set_reg, step_post, AbsState,
};
use crate::value::{
    abs_seq, cap_slot_ok, group_abs_lemmas, CellPool, KutError, KutFunction, KutInstruction,
    KutReturnType, KutValue,
};
use crate::vm::KutVm;

verus! {

broadcast use group_abs_lemmas;

/// What decoding one 32-bit big-endian instruction word yields.
///
/// Byte 0 is the opcode; bytes 1–3 are either three 8-bit register
/// operands (register form) or one 8-bit register operand followed by a
/// 16-bit big-endian immediate built from bytes 2–3 (immediate form); the
/// opcode selects the form.  An opcode outside the defined range fails,
/// naming the offending value.
pub open spec fn spec_decode(word: u32) -> Result<KutInstruction, KutError> {
    let opcode = (word >> 24) as u8;
    let b1 = ((word >> 16) & 0xff) as u8;
    let b2 = ((word >> 8) & 0xff) as u8;
    let b3 = (word & 0xff) as u8;
    let imm = (word & 0xffff) as u16;
    if opcode == 0 {
        Ok(KutInstruction::NoOperation)
    } else if opcode == 1 {
        Ok(KutInstruction::MovRegister { destination: b1, source: b2 })
    } else if opcode == 2 {
        Ok(KutInstruction::CallMethodR { ret_position: b1, arg_count: b2, subject: b3 })
    } else if opcode == 3 {
        Ok(KutInstruction::RetfMethodR { value: b1 })
    } else if opcode == 4 {
        Ok(KutInstruction::PushValue1R { val1: b1 })
    } else if opcode == 5 {
        Ok(KutInstruction::PushValue2R { val1: b1, val2: b2 })
    } else if opcode == 6 {
        Ok(KutInstruction::PushValue3R { val1: b1, val2: b2, val3: b3 })
    } else if opcode == 7 {
        Ok(KutInstruction::SwapValuesR { reg1: b1, reg2: b2 })
    } else if opcode == 8 {
        Ok(KutInstruction::GetLiteralR { reg: b1, literal: imm })
    } else if opcode == 9 {
        Ok(KutInstruction::GetCaptureR { reg: b1, capture: imm })
    } else if opcode == 10 {
        Ok(KutInstruction::SetCaptureR { reg: b1, capture: imm })
    } else if opcode == 11 {
        Ok(KutInstruction::CaptureFunc { reg: b1, template: imm })
    } else {
        Err(KutError::UndefinedInstruction { opcode })
    }
}

/// Loading bytecode.
impl KutInstruction {
    /// Decode one 32-bit big-endian instruction word.
    pub fn decode(word: u32) -> (r: Result<KutInstruction, KutError>)
        ensures
            r == spec_decode(word),
    {
        let opcode = (word >> 24) as u8;
        let b1 = ((word >> 16) & 0xff) as u8;
        let b2 = ((word >> 8) & 0xff) as u8;
        let b3 = (word & 0xff) as u8;
        let imm = (word & 0xffff) as u16;
        if opcode == 0 {
            Ok(KutInstruction::NoOperation)
        } else if opcode == 1 {
            Ok(KutInstruction::MovRegister { destination: b1, source: b2 })
        } else if opcode == 2 {
            Ok(KutInstruction::CallMethodR { ret_position: b1, arg_count: b2, subject: b3 })
        } else if opcode == 3 {
            Ok(KutInstruction::RetfMethodR { value: b1 })
        } else if opcode == 4 {
            Ok(KutInstruction::PushValue1R { val1: b1 })
        } else if opcode == 5 {
            Ok(KutInstruction::PushValue2R { val1: b1, val2: b2 })
        } else if opcode == 6 {
            Ok(KutInstruction::PushValue3R { val1: b1, val2: b2, val3: b3 })
        } else if opcode == 7 {
            Ok(KutInstruction::SwapValuesR { reg1: b1, reg2: b2 })
        } else if opcode == 8 {
            Ok(KutInstruction::GetLiteralR { reg: b1, literal: imm })
        } else if opcode == 9 {
            Ok(KutInstruction::GetCaptureR { reg: b1, capture: imm })
        } else if opcode == 10 {
            Ok(KutInstruction::SetCaptureR { reg: b1, capture: imm })
        } else if opcode == 11 {
            Ok(KutInstruction::CaptureFunc { reg: b1, template: imm })
        } else {
            Err(KutError::UndefinedInstruction { opcode })
        }
    }

    /// Decode a whole program, word by word, stopping at the first
    /// undefined opcode: the load-time check a host runs on raw bytecode.
    pub fn decode_program(words: &Vec<u32>) -> (r: Result<Vec<KutInstruction>, KutError>)
        ensures
            match r {
                Ok(insts) => {
                    &&& insts@.len() == words@.len()
                    &&& forall|i: int|
                        0 <= i < words@.len() ==> spec_decode(words@[i]) == Ok::<
                            KutInstruction,
                            KutError,
                        >(#[trigger] insts@[i])
                },
                Err(e) => exists|i: int|
                    {
                        &&& 0 <= i < words@.len()
                        &&& spec_decode(#[trigger] words@[i]) == Err::<KutInstruction, KutError>(e)
                        &&& forall|j: int| 0 <= j < i ==> (#[trigger] spec_decode(words@[j])) is Ok
                    },
            },
    {
        let mut insts: Vec<KutInstruction> = Vec::with_capacity(words.len());
        let mut k: usize = 0;
        while k < words.len()
            invariant
                0 <= k <= words@.len(),
                insts@.len() == k,
                forall|i: int|
                    0 <= i < k ==> spec_decode(words@[i]) == Ok::<KutInstruction, KutError>(
                        #[trigger] insts@[i],
                    ),
            decreases words@.len() - k,
        {
            match Self::decode(words[k]) {
                Ok(inst) => insts.push(inst),
                Err(e) => {
                    proof {
                        assert forall|j: int| 0 <= j < k implies (#[trigger] spec_decode(
                            words@[j],
                        )) is Ok by {
                            assert(spec_decode(words@[j]) == Ok::<KutInstruction, KutError>(
                                insts@[j],
                            ));
                        }
                        assert(spec_decode(words@[k as int]) == Err::<KutInstruction, KutError>(e));
                    }
                    return Err(e);
                },
            }
            k = k + 1;
        }
        Ok(insts)
    }
}

/// Auxiliary register accessors.
impl KutInstruction {
    /// Read a register, dereferencing one level: a promoted register hands
    /// out a copy of its cell's current content.
    pub(crate) fn get_register_value(context: &KutFunction, cells: &CellPool, reg: u8) -> (r: Result<
        KutValue,
        KutError,
    >)
        requires
            frame_refs_ok(*context, *cells),
        ensures
            abs_res(r) == spec_get_reg(act_state(*context, *cells), reg),
    {
        if (reg as usize) < context.registers.len() {
            let existing: Option<usize> = match &context.registers[reg as usize] {
                KutValue::Reference(c) => Some(*c),
                _ => None,
            };
            match existing {
                Some(c) => {
                    proof {
                        assert(cap_slot_ok(
                            abs_seq(context.registers@)[reg as int],
                            cells@.len() as int,
                        ));
                    }
                    Ok(cells.cells[c].clone())
                },
                None => Ok(context.registers[reg as usize].clone()),
            }
        } else {
            Err(
                KutError::OutOfRangeSourceRegister {
                    register: reg,
                    register_count: context.registers.len(),
                },
            )
        }
    }

    /// Write a register through one level of indirection: a promoted
    /// register's cell is overwritten in place, any other register is
    /// replaced.
    pub(crate) fn set_register_value(
        context: &mut KutFunction,
        cells: &mut CellPool,
        reg: u8,
        value: KutValue,
    ) -> (r: Result<(), KutError>)
        requires
            frame_refs_ok(*old(context), *old(cells)),
        ensures
            final(context).closure == old(context).closure,
            final(context).call_stack == old(context).call_stack,
            match r {
                Ok(_) => spec_set_reg(act_state(*old(context), *old(cells)), reg, value@)
                    == Ok::<AbsState, KutError>(act_state(*final(context), *final(cells))),
                Err(e) => {
                    &&& spec_set_reg(act_state(*old(context), *old(cells)), reg, value@)
                        == Err::<AbsState, KutError>(e)
                    &&& *final(context) == *old(context)
                    &&& *final(cells) == *old(cells)
                },
            },
    {
        if (reg as usize) < context.registers.len() {
            let existing: Option<usize> = match &context.registers[reg as usize] {
                KutValue::Reference(c) => Some(*c),
                _ => None,
            };
            match existing {
                Some(c) => {
                    proof {
                        assert(cap_slot_ok(
                            abs_seq(context.registers@)[reg as int],
                            cells@.len() as int,
                        ));
                    }
                    cells.cells[c] = value;
                },
                None => {
                    context.registers[reg as usize] = value;
                },
            }
            Ok(())
        } else {
            Err(
                KutError::OutOfRangeDestinationRegister {
                    register: reg,
                    register_count: context.registers.len(),
                },
            )
        }
    }

    /// Report the given error unless the register index is in range.
    fn check_register(context: &KutFunction, reg: u8, err: KutError) -> (r: Result<(), KutError>)
        ensures
            r == if (reg as int) < context.registers@.len() {
                Ok::<(), KutError>(())
            } else {
                Err::<(), KutError>(err)
            },
    {
        if (reg as usize) < context.registers.len() {
            Ok(())
        } else {
            Err(err)
        }
    }
}

/// Instruction executor.
impl KutInstruction {
    /// Execute this instruction against the running activation.
    ///
    /// Call instructions suspend the running activation, so the
    /// activation driver, [`crate::value::KutFunction::run`], sequences
    /// them itself; they are excluded here.
    pub fn run(&self, context: &mut KutFunction, vm: &KutVm, cells: &mut CellPool) -> (r:
        KutReturnType)
        requires
            !self.is_call(),
            frame_refs_ok(*old(context), *old(cells)),
        ensures
            step_post(*self, *old(context), *old(cells), *vm, *final(context), *final(cells), r),
    {
        match self {
            KutInstruction::NoOperation => Self::handle_no_operation(context, vm, cells),
            KutInstruction::CallMethodR { .. } => {
                proof {
                    assert(false);
                }
                Ok(None)
            },
            KutInstruction::CallMethodS { .. } => {
                proof {
                    assert(false);
                }
                Ok(None)
            },
            KutInstruction::CaptureFunc { reg, template } => Self::handle_capture_function(
                context,
                vm,
                cells,
                *reg,
                *template,
            ),
            KutInstruction::GetCaptureR { reg, capture } => Self::handle_get_capture_r(
                context,
                vm,
                cells,
                *reg,
                *capture,
            ),
            KutInstruction::GetLiteralR { reg, literal } => Self::handle_get_literal(
                context,
                vm,
                cells,
                *reg,
                *literal,
            ),
            KutInstruction::MovRegister { destination, source } => Self::handle_mov_register(
                context,
                vm,
                cells,
                *destination,
                *source,
            ),
            KutInstruction::PopCaptureS { capture } => Self::handle_pop_capture(
                context,
                vm,
                cells,
                *capture,
            ),
            KutInstruction::PushCapture { capture } => Self::handle_push_capture(
                context,
                vm,
                cells,
                *capture,
            ),
            KutInstruction::PushFuncStk { template } => Self::handle_push_template(
                context,
                vm,
                cells,
                *template,
            ),
            KutInstruction::PushLiteral { literal } => Self::handle_push_literal(
                context,
                vm,
                cells,
                *literal,
            ),
            KutInstruction::PushValue1R { val1 } => Self::handle_push_value_1(
                context,
                vm,
                cells,
                *val1,
            ),
            KutInstruction::PushValue2R { val1, val2 } => Self::handle_push_value_2(
                context,
                vm,
                cells,
                *val1,
                *val2,
            ),
            KutInstruction::PushValue3R { val1, val2, val3 } => Self::handle_push_value_3(
                context,
                vm,
                cells,
                *val1,
                *val2,
                *val3,
            ),
            KutInstruction::RetfMethodR { value } => Self::handle_ret_r(context, vm, cells, *value),
            KutInstruction::RetfMethodS => Self::handle_ret_s(context, vm, cells),
            KutInstruction::SetCaptureR { reg, capture } => Self::handle_set_capture_r(
                context,
                vm,
                cells,
                *reg,
                *capture,
            ),
            KutInstruction::SwapValuesR { reg1, reg2 } => Self::handle_swap_values(
                context,
                vm,
                cells,
                *reg1,
                *reg2,
            ),
        }
    }
}

/// Instruction handlers.
impl KutInstruction {
    fn handle_no_operation(context: &mut KutFunction, vm: &KutVm, cells: &mut CellPool) -> (r:
        KutReturnType)
        requires
            frame_refs_ok(*old(context), *old(cells)),
        ensures
            step_post(
                KutInstruction::NoOperation,
                *old(context),
                *old(cells),
                *vm,
                *final(context),
                *final(cells),
                r,
            ),
    {
        Ok(None)
    }

    fn handle_capture_function(
        context: &mut KutFunction,
        vm: &KutVm,
        cells: &mut CellPool,
        reg: u8,
        template: u16,
    ) -> (r: KutReturnType)
        requires
            frame_refs_ok(*old(context), *old(cells)),
        ensures
            step_post(
                KutInstruction::CaptureFunc { reg, template },
                *old(context),
                *old(cells),
                *vm,
                *final(context),
                *final(cells),
                r,
            ),
    {
        if (template as usize) < vm.templates.len() {
            let tmplt = &vm.templates[template as usize];
            let ghost regs0 = abs_seq(context.registers@);
            let ghost cells0 = cells@;
            match tmplt.capture(template as usize, context, cells) {
                Ok(built) => {
                    proof {
                        lemma_capture_refs_ok(
                            tmplt.capture_infos@,
                            regs0,
                            context.closure@.captures,
                            cells0,
                        );
                    }
                    let closure = KutValue::Func(std::rc::Rc::new(built));
                    Self::set_register_value(context, cells, reg, closure)?;
                    Ok(None)
                },
                Err(e) => Err(e),
            }
        } else {
            Err(KutError::OutOfRangeTemplate { template, template_count: vm.templates.len() })
        }
    }

    fn handle_get_capture_r(
        context: &mut KutFunction,
        vm: &KutVm,
        cells: &mut CellPool,
        reg: u8,
        capture: u16,
    ) -> (r: KutReturnType)
        requires
            frame_refs_ok(*old(context), *old(cells)),
        ensures
            step_post(
                KutInstruction::GetCaptureR { reg, capture },
                *old(context),
                *old(cells),
                *vm,
                *final(context),
                *final(cells),
                r,
            ),
    {
        if (capture as usize) < context.closure.captures.len() {
            let cap_cell: Option<usize> = match &context.closure.captures[capture as usize] {
                KutValue::Reference(c) => Some(*c),
                _ => None,
            };
            match cap_cell {
                Some(c) => {
                    proof {
                        assert(cap_slot_ok(
                            context.closure@.captures[capture as int],
                            cells@.len() as int,
                        ));
                    }
                    let value = cells.cells[c].clone();
                    Self::set_register_value(context, cells, reg, value)?;
                    Ok(None)
                },
                None => Err(
                    KutError::NonReferenceCapture {
                        capture,
                        capture_type: context.closure.captures[capture as usize].kind(),
                    },
                ),
            }
        } else {
            Err(
                KutError::OutOfRangeSourceCapture {
                    capture,
                    capture_count: context.closure.captures.len(),
                },
            )
        }
    }

    fn handle_get_literal(
        context: &mut KutFunction,
        vm: &KutVm,
        cells: &mut CellPool,
        reg: u8,
        literal: u16,
    ) -> (r: KutReturnType)
        requires
            frame_refs_ok(*old(context), *old(cells)),
        ensures
            step_post(
                KutInstruction::GetLiteralR { reg, literal },
                *old(context),
                *old(cells),
                *vm,
                *final(context),
                *final(cells),
                r,
            ),
    {
        if (literal as usize) < vm.literals.len() {
            let literal_cloned = vm.literals[literal as usize].clone();
            Self::set_register_value(context, cells, reg, literal_cloned)?;
            Ok(None)
        } else {
            Err(KutError::OutOfRangeLiteral { literal, literal_count: vm.literals.len() })
        }
    }

    fn handle_mov_register(
        context: &mut KutFunction,
        vm: &KutVm,
        cells: &mut CellPool,
        destination: u8,
        source: u8,
    ) -> (r: KutReturnType)
        requires
            frame_refs_ok(*old(context), *old(cells)),
        ensures
            step_post(
                KutInstruction::MovRegister { destination, source },
                *old(context),
                *old(cells),
                *vm,
                *final(context),
                *final(cells),
                r,
            ),
    {
        if destination == source {
            Ok(None)
        } else {
            let value = Self::get_register_value(context, cells, source)?;
            Self::set_register_value(context, cells, destination, value)?;
            Ok(None)
        }
    }

    fn handle_pop_capture(
        context: &mut KutFunction,
        vm: &KutVm,
        cells: &mut CellPool,
        capture: u16,
    ) -> (r: KutReturnType)
        requires
            frame_refs_ok(*old(context), *old(cells)),
        ensures
            step_post(
                KutInstruction::PopCaptureS { capture },
                *old(context),
                *old(cells),
                *vm,
                *final(context),
                *final(cells),
                r,
            ),
    {
        match context.call_stack.pop() {
            Some(source) => {
                if (capture as usize) < context.closure.captures.len() {
                    let cap_cell: Option<usize> = match &context.closure.captures[capture
                        as usize] {
                        KutValue::Reference(c) => Some(*c),
                        _ => None,
                    };
                    match cap_cell {
                        Some(c) => {
                            proof {
                                assert(cap_slot_ok(
                                    context.closure@.captures[capture as int],
                                    cells@.len() as int,
                                ));
                            }
                            cells.cells[c] = source;
                            Ok(None)
                        },
                        None => Err(
                            KutError::NonReferenceCapture {
                                capture,
                                capture_type: context.closure.captures[capture as usize].kind(),
                            },
                        ),
                    }
                } else {
                    Err(
                        KutError::OutOfRangeDestinationCapture {
                            capture,
                            capture_count: context.closure.captures.len(),
                        },
                    )
                }
            },
            None => Err(KutError::StackUnderflow),
        }
    }

    fn handle_push_capture(
        context: &mut KutFunction,
        vm: &KutVm,
        cells: &mut CellPool,
        capture: u16,
    ) -> (r: KutReturnType)
        requires
            frame_refs_ok(*old(context), *old(cells)),
        ensures
            step_post(
                KutInstruction::PushCapture { capture },
                *old(context),
                *old(cells),
                *vm,
                *final(context),
                *final(cells),
                r,
            ),
    {
        if (capture as usize) < context.closure.captures.len() {
            let cap_cell: Option<usize> = match &context.closure.captures[capture as usize] {
                KutValue::Reference(c) => Some(*c),
                _ => None,
            };
            match cap_cell {
                Some(c) => {
                    proof {
                        assert(cap_slot_ok(
                            context.closure@.captures[capture as int],
                            cells@.len() as int,
                        ));
                    }
                    let value = cells.cells[c].clone();
                    context.call_stack.push(value);
                    Ok(None)
                },
                None => Err(
                    KutError::NonReferenceCapture {
                        capture,
                        capture_type: context.closure.captures[capture as usize].kind(),
                    },
                ),
            }
        } else {
            Err(
                KutError::OutOfRangeSourceCapture {
                    capture,
                    capture_count: context.closure.captures.len(),
                },
            )
        }
    }

    fn handle_push_template(
        context: &mut KutFunction,
        vm: &KutVm,
        cells: &mut CellPool,
        template: u16,
    ) -> (r: KutReturnType)
        requires
            frame_refs_ok(*old(context), *old(cells)),
        ensures
            step_post(
                KutInstruction::PushFuncStk { template },
                *old(context),
                *old(cells),
                *vm,
                *final(context),
                *final(cells),
                r,
            ),
    {
        if (template as usize) < vm.templates.len() {
            let tmplt = &vm.templates[template as usize];
            match tmplt.capture(template as usize, context, cells) {
                Ok(built) => {
                    let closure = KutValue::Func(std::rc::Rc::new(built));
                    context.call_stack.push(closure);
                    Ok(None)
                },
                Err(e) => Err(e),
            }
        } else {
            Err(KutError::OutOfRangeTemplate { template, template_count: vm.templates.len() })
        }
    }

    fn handle_push_literal(
        context: &mut KutFunction,
        vm: &KutVm,
        cells: &mut CellPool,
        literal: u16,
    ) -> (r: KutReturnType)
        requires
            frame_refs_ok(*old(context), *old(cells)),
        ensures
            step_post(
                KutInstruction::PushLiteral { literal },
                *old(context),
                *old(cells),
                *vm,
                *final(context),
                *final(cells),
                r,
            ),
    {
        if (literal as usize) < vm.literals.len() {
            let literal_cloned = vm.literals[literal as usize].clone();
            context.call_stack.push(literal_cloned);
            Ok(None)
        } else {
            Err(KutError::OutOfRangeLiteral { literal, literal_count: vm.literals.len() })
        }
    }

    fn handle_push_value_1(
        context: &mut KutFunction,
        vm: &KutVm,
        cells: &mut CellPool,
        val1: u8,
    ) -> (r: KutReturnType)
        requires
            frame_refs_ok(*old(context), *old(cells)),
        ensures
            step_post(
                KutInstruction::PushValue1R { val1 },
                *old(context),
                *old(cells),
                *vm,
                *final(context),
                *final(cells),
                r,
            ),
    {
        proof {
            reveal_with_fuel(spec_push_regs, 3);
            assert(seq![val1].drop_first() =~= Seq::<u8>::empty());
        }
        let value = Self::get_register_value(context, cells, val1)?;
        context.call_stack.push(value);
        Ok(None)
    }

    fn handle_push_value_2(
        context: &mut KutFunction,
        vm: &KutVm,
        cells: &mut CellPool,
        val1: u8,
        val2: u8,
    ) -> (r: KutReturnType)
        requires
            frame_refs_ok(*old(context), *old(cells)),
        ensures
            step_post(
                KutInstruction::PushValue2R { val1, val2 },
                *old(context),
                *old(cells),
                *vm,
                *final(context),
                *final(cells),
                r,
            ),
    {
        proof {
            reveal_with_fuel(spec_push_regs, 4);
            assert(seq![val1, val2].drop_first() =~= seq![val2]);
            assert(seq![val2].drop_first() =~= Seq::<u8>::empty());
        }
        let value = Self::get_register_value(context, cells, val1)?;
        context.call_stack.push(value);
        let value = Self::get_register_value(context, cells, val2)?;
        context.call_stack.push(value);
        Ok(None)
    }

    fn handle_push_value_3(
        context: &mut KutFunction,
        vm: &KutVm,
        cells: &mut CellPool,
        val1: u8,
        val2: u8,
        val3: u8,
    ) -> (r: KutReturnType)
        requires
            frame_refs_ok(*old(context), *old(cells)),
        ensures
            step_post(
                KutInstruction::PushValue3R { val1, val2, val3 },
                *old(context),
                *old(cells),
                *vm,
                *final(context),
                *final(cells),
                r,
            ),
    {
        proof {
            reveal_with_fuel(spec_push_regs, 5);
            assert(seq![val1, val2, val3].drop_first() =~= seq![val2, val3]);
            assert(seq![val2, val3].drop_first() =~= seq![val3]);
            assert(seq![val3].drop_first() =~= Seq::<u8>::empty());
        }
        let value = Self::get_register_value(context, cells, val1)?;
        context.call_stack.push(value);
        let value = Self::get_register_value(context, cells, val2)?;
        context.call_stack.push(value);
        let value = Self::get_register_value(context, cells, val3)?;
        context.call_stack.push(value);
        Ok(None)
    }

    fn handle_ret_r(context: &mut KutFunction, vm: &KutVm, cells: &mut CellPool, value: u8) -> (r:
        KutReturnType)
        requires
            frame_refs_ok(*old(context), *old(cells)),
        ensures
            step_post(
                KutInstruction::RetfMethodR { value },
                *old(context),
                *old(cells),
                *vm,
                *final(context),
                *final(cells),
                r,
            ),
    {
        let val = Self::get_register_value(context, cells, value)?;
        Ok(Some(val))
    }

    fn handle_ret_s(context: &mut KutFunction, vm: &KutVm, cells: &mut CellPool) -> (r:
        KutReturnType)
        requires
            frame_refs_ok(*old(context), *old(cells)),
        ensures
            step_post(
                KutInstruction::RetfMethodS,
                *old(context),
                *old(cells),
                *vm,
                *final(context),
                *final(cells),
                r,
            ),
    {
        match context.call_stack.pop() {
            Some(val) => Ok(Some(val)),
            None => Err(KutError::StackUnderflow),
        }
    }

    fn handle_set_capture_r(
        context: &mut KutFunction,
        vm: &KutVm,
        cells: &mut CellPool,
        reg: u8,
        capture: u16,
    ) -> (r: KutReturnType)
        requires
            frame_refs_ok(*old(context), *old(cells)),
        ensures
            step_post(
                KutInstruction::SetCaptureR { reg, capture },
                *old(context),
                *old(cells),
                *vm,
                *final(context),
                *final(cells),
                r,
            ),
    {
        let value = Self::get_register_value(context, cells, reg)?;
        if (capture as usize) < context.closure.captures.len() {
            let cap_cell: Option<usize> = match &context.closure.captures[capture as usize] {
                KutValue::Reference(c) => Some(*c),
                _ => None,
            };
            match cap_cell {
                Some(c) => {
                    proof {
                        assert(cap_slot_ok(
                            context.closure@.captures[capture as int],
                            cells@.len() as int,
                        ));
                    }
                    cells.cells[c] = value;
                    Ok(None)
                },
                None => Err(
                    KutError::NonReferenceCapture {
                        capture,
                        capture_type: context.closure.captures[capture as usize].kind(),
                    },
                ),
            }
        } else {
            Err(
                KutError::OutOfRangeDestinationCapture {
                    capture,
                    capture_count: context.closure.captures.len(),
                },
            )
        }
    }

    fn handle_swap_values(
        context: &mut KutFunction,
        vm: &KutVm,
        cells: &mut CellPool,
        reg1: u8,
        reg2: u8,
    ) -> (r: KutReturnType)
        requires
            frame_refs_ok(*old(context), *old(cells)),
        ensures
            step_post(
                KutInstruction::SwapValuesR { reg1, reg2 },
                *old(context),
                *old(cells),
                *vm,
                *final(context),
                *final(cells),
                r,
            ),
    {
        Self::check_register(
            context,
            reg1,
            KutError::OutOfRangeSwapRegister {
                register: reg1,
                register_count: context.registers.len(),
            },
        )?;
        Self::check_register(
            context,
            reg2,
            KutError::OutOfRangeSwapRegister {
                register: reg2,
                register_count: context.registers.len(),
            },
        )?;
        let a = context.registers[reg1 as usize].clone();
        let b = context.registers[reg2 as usize].clone();
        context.registers[reg1 as usize] = b;
        context.registers[reg2 as usize] = a;
        Ok(None)
    }
}

} // verus!
