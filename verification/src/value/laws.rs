//! Laws of the machine: proved statements that tie several operations
//! together — exact round trips through registers, literals and capture
//! cells, the exact out-of-range errors, the aliasing that capture
//! promotion sets up, its idempotence, and the swap/mov asymmetry.

use vstd::prelude::*;

use crate::value::semantics::{spec_capture, spec_get_reg, spec_push_regs, spec_step, AbsState};
use crate::value::{
    spec_deref, AbsValue, KutCaptureInfo, KutError, KutFunctionTemplate, KutInstruction,
};

verus! {

/// Fetching a valid literal into a valid register succeeds, and reading
/// the register back — through its cell, if it was promoted — observes the
/// literal exactly.  The operand stack is untouched.
pub proof fn lemma_get_literal_round_trip(
    st: AbsState,
    caps: Seq<AbsValue>,
    lits: Seq<AbsValue>,
    templates: Seq<KutFunctionTemplate>,
    reg: u8,
    literal: u16,
)
    requires
        (reg as int) < st.regs.len(),
        (literal as int) < lits.len(),
        !(lits[literal as int] is Reference),
        st.regs[reg as int] matches AbsValue::Reference(c) ==> 0 <= c < st.cells.len(),
    ensures
        ({
            let d = spec_step(
                KutInstruction::GetLiteralR { reg, literal },
                st,
                caps,
                lits,
                templates,
            );
            &&& d.out == Ok::<Option<AbsValue>, KutError>(None)
            &&& spec_get_reg(d.st, reg) == Ok::<AbsValue, KutError>(lits[literal as int])
            &&& d.st.stack == st.stack
        }),
{
}

/// Writing a register's value through a valid capture cell and reading it
/// back through the same cell succeeds and observes the exact value: the
/// store/load pair over one shared cell is lossless.
pub proof fn lemma_capture_round_trip(
    st: AbsState,
    caps: Seq<AbsValue>,
    lits: Seq<AbsValue>,
    templates: Seq<KutFunctionTemplate>,
    reg: u8,
    cap: u16,
    reg2: u8,
    c: int,
)
    requires
        (reg as int) < st.regs.len(),
        (reg2 as int) < st.regs.len(),
        (cap as int) < caps.len(),
        caps[cap as int] == AbsValue::Reference(c),
        0 <= c < st.cells.len(),
        !(spec_deref(st.regs[reg as int], st.cells) is Reference),
        st.regs[reg2 as int] matches AbsValue::Reference(c2) ==> 0 <= c2 < st.cells.len(),
    ensures
        ({
            let v = spec_deref(st.regs[reg as int], st.cells);
            let d1 = spec_step(
                KutInstruction::SetCaptureR { reg, capture: cap },
                st,
                caps,
                lits,
                templates,
            );
            let d2 = spec_step(
                KutInstruction::GetCaptureR { reg: reg2, capture: cap },
                d1.st,
                caps,
                lits,
                templates,
            );
            &&& d1.out == Ok::<Option<AbsValue>, KutError>(None)
            &&& d1.st.cells[c] == v
            &&& d2.out == Ok::<Option<AbsValue>, KutError>(None)
            &&& spec_get_reg(d2.st, reg2) == Ok::<AbsValue, KutError>(v)
        }),
{
}

/// Pushing a valid register pushes exactly its dereferenced value and
/// touches nothing else.
pub proof fn lemma_push_value_exact(
    st: AbsState,
    caps: Seq<AbsValue>,
    lits: Seq<AbsValue>,
    templates: Seq<KutFunctionTemplate>,
    val1: u8,
)
    requires
        (val1 as int) < st.regs.len(),
    ensures
        ({
            let d = spec_step(KutInstruction::PushValue1R { val1 }, st, caps, lits, templates);
            &&& d.out == Ok::<Option<AbsValue>, KutError>(None)
            &&& d.st.stack == st.stack.push(spec_deref(st.regs[val1 as int], st.cells))
            &&& d.st.regs == st.regs
            &&& d.st.cells == st.cells
        }),
{
    reveal_with_fuel(spec_push_regs, 3);
    assert(seq![val1].drop_first() =~= Seq::<u8>::empty());
}

/// A literal index at or past the pool's length fails with exactly
/// `OutOfRangeLiteral`, citing the index and the true length, for both the
/// register and the stack form; nothing changes.
pub proof fn lemma_literal_out_of_range(
    st: AbsState,
    caps: Seq<AbsValue>,
    lits: Seq<AbsValue>,
    templates: Seq<KutFunctionTemplate>,
    reg: u8,
    literal: u16,
)
    requires
        (literal as int) >= lits.len(),
    ensures
        ({
            let e = KutError::OutOfRangeLiteral { literal, literal_count: lits.len() as usize };
            let d = spec_step(
                KutInstruction::GetLiteralR { reg, literal },
                st,
                caps,
                lits,
                templates,
            );
            let dp = spec_step(KutInstruction::PushLiteral { literal }, st, caps, lits, templates);
            &&& d.out == Err::<Option<AbsValue>, KutError>(e)
            &&& d.st == st
            &&& dp.out == Err::<Option<AbsValue>, KutError>(e)
            &&& dp.st == st
        }),
{
}

/// A register index at or past the register count fails with exactly the
/// matching source/destination register error, citing the index and the
/// true count; nothing changes.
pub proof fn lemma_register_out_of_range(
    st: AbsState,
    caps: Seq<AbsValue>,
    lits: Seq<AbsValue>,
    templates: Seq<KutFunctionTemplate>,
    destination: u8,
    source: u8,
)
    requires
        (source as int) >= st.regs.len(),
        destination != source,
    ensures
        ({
            let d = spec_step(
                KutInstruction::MovRegister { destination, source },
                st,
                caps,
                lits,
                templates,
            );
            let dr = spec_step(
                KutInstruction::RetfMethodR { value: source },
                st,
                caps,
                lits,
                templates,
            );
            let e = KutError::OutOfRangeSourceRegister {
                register: source,
                register_count: st.regs.len() as usize,
            };
            &&& d.out == Err::<Option<AbsValue>, KutError>(e)
            &&& d.st == st
            &&& dr.out == Err::<Option<AbsValue>, KutError>(e)
            &&& dr.st == st
        }),
{
}

/// A destination register past the register count fails `MovRegister` with
/// exactly `OutOfRangeDestinationRegister`; nothing changes.
pub proof fn lemma_destination_out_of_range(
    st: AbsState,
    caps: Seq<AbsValue>,
    lits: Seq<AbsValue>,
    templates: Seq<KutFunctionTemplate>,
    destination: u8,
    source: u8,
)
    requires
        (source as int) < st.regs.len(),
        (destination as int) >= st.regs.len(),
    ensures
        ({
            let d = spec_step(
                KutInstruction::MovRegister { destination, source },
                st,
                caps,
                lits,
                templates,
            );
            &&& d.out == Err::<Option<AbsValue>, KutError>(
                KutError::OutOfRangeDestinationRegister {
                    register: destination,
                    register_count: st.regs.len() as usize,
                },
            )
            &&& d.st == st
        }),
{
}

/// A capture index at or past the capture count fails with exactly the
/// matching source/destination capture error, citing the index and the
/// true count; nothing changes but an already popped operand.
pub proof fn lemma_capture_out_of_range(
    st: AbsState,
    caps: Seq<AbsValue>,
    lits: Seq<AbsValue>,
    templates: Seq<KutFunctionTemplate>,
    reg: u8,
    capture: u16,
)
    requires
        (capture as int) >= caps.len(),
        (reg as int) < st.regs.len(),
    ensures
        ({
            let d = spec_step(
                KutInstruction::GetCaptureR { reg, capture },
                st,
                caps,
                lits,
                templates,
            );
            let ds = spec_step(
                KutInstruction::SetCaptureR { reg, capture },
                st,
                caps,
                lits,
                templates,
            );
            let dp = spec_step(KutInstruction::PushCapture { capture }, st, caps, lits, templates);
            &&& d.out == Err::<Option<AbsValue>, KutError>(
                KutError::OutOfRangeSourceCapture {
                    capture,
                    capture_count: caps.len() as usize,
                },
            )
            &&& d.st == st
            &&& ds.out == Err::<Option<AbsValue>, KutError>(
                KutError::OutOfRangeDestinationCapture {
                    capture,
                    capture_count: caps.len() as usize,
                },
            )
            &&& ds.st == st
            &&& dp.out == Err::<Option<AbsValue>, KutError>(
                KutError::OutOfRangeSourceCapture {
                    capture,
                    capture_count: caps.len() as usize,
                },
            )
            &&& dp.st == st
        }),
{
}

/// A swap register index at or past the register count fails with exactly
/// `OutOfRangeSwapRegister`, citing the first offending index and the true
/// count; nothing changes.
pub proof fn lemma_swap_out_of_range(
    st: AbsState,
    caps: Seq<AbsValue>,
    lits: Seq<AbsValue>,
    templates: Seq<KutFunctionTemplate>,
    reg1: u8,
    reg2: u8,
)
    requires
        (reg1 as int) >= st.regs.len() || (reg2 as int) >= st.regs.len(),
    ensures
        ({
            let d = spec_step(
                KutInstruction::SwapValuesR { reg1, reg2 },
                st,
                caps,
                lits,
                templates,
            );
            let offending = if (reg1 as int) >= st.regs.len() {
                reg1
            } else {
                reg2
            };
            &&& d.out == Err::<Option<AbsValue>, KutError>(
                KutError::OutOfRangeSwapRegister {
                    register: offending,
                    register_count: st.regs.len() as usize,
                },
            )
            &&& d.st == st
        }),
{
}

/// A template index at or past the template count fails with exactly
/// `OutOfRangeTemplate`, citing the index and the true count, for both the
/// register and the stack form; nothing changes.
pub proof fn lemma_template_out_of_range(
    st: AbsState,
    caps: Seq<AbsValue>,
    lits: Seq<AbsValue>,
    templates: Seq<KutFunctionTemplate>,
    reg: u8,
    template: u16,
)
    requires
        (template as int) >= templates.len(),
    ensures
        ({
            let e = KutError::OutOfRangeTemplate {
                template,
                template_count: templates.len() as usize,
            };
            let d = spec_step(
                KutInstruction::CaptureFunc { reg, template },
                st,
                caps,
                lits,
                templates,
            );
            let dp = spec_step(KutInstruction::PushFuncStk { template }, st, caps, lits, templates);
            &&& d.out == Err::<Option<AbsValue>, KutError>(e)
            &&& d.st == st
            &&& dp.out == Err::<Option<AbsValue>, KutError>(e)
            &&& dp.st == st
        }),
{
}

/// Capture aliasing: after fetching a literal into register 0 of an
/// enclosing activation and capturing it through a `FromRegister(0)`
/// descriptor, the new closure's capture slot 0 and the enclosing register
/// 0 name one shared cell: a later write through that capture slot is
/// observed by reading the enclosing register — the new value, not the
/// old one.
pub proof fn lemma_capture_aliasing(
    st: AbsState,
    caps: Seq<AbsValue>,
    lits: Seq<AbsValue>,
    templates: Seq<KutFunctionTemplate>,
    literal: u16,
    inner: AbsState,
    inner_reg: u8,
    written: AbsValue,
)
    requires
        st.regs.len() >= 1,
        !(st.regs[0] is Reference),
        (literal as int) < lits.len(),
        !(lits[literal as int] is Reference),
        // the inner activation runs against the promoted pool and holds
        // the value to write in one of its registers
        (inner_reg as int) < inner.regs.len(),
        inner.regs[inner_reg as int] == written,
        !(written is Reference),
    ensures
        ({
            // the enclosing activation fetches the literal into register 0
            let d1 = spec_step(
                KutInstruction::GetLiteralR { reg: 0, literal },
                st,
                caps,
                lits,
                templates,
            );
            // the capture protocol walks [FromRegister(0)]
            let cd = spec_capture(
                seq![KutCaptureInfo::Register(0)],
                d1.st.regs,
                caps,
                d1.st.cells,
            );
            let cell = d1.st.cells.len() as int;
            // the inner activation writes through its capture slot 0
            let d2 = spec_step(
                KutInstruction::SetCaptureR { reg: inner_reg, capture: 0 },
                AbsState { regs: inner.regs, stack: inner.stack, cells: cd.cells },
                seq![AbsValue::Reference(cell)],
                lits,
                templates,
            );
            &&& d1.out == Ok::<Option<AbsValue>, KutError>(None)
            // promotion: register 0 and capture slot 0 alias one fresh cell
            &&& cd.regs[0] == AbsValue::Reference(cell)
            &&& cd.out == Ok::<Seq<AbsValue>, KutError>(seq![AbsValue::Reference(cell)])
            // before the write, the cell holds the literal
            &&& cd.cells[cell] == lits[literal as int]
            &&& d2.out == Ok::<Option<AbsValue>, KutError>(None)
            // after the write, reading the enclosing register 0 observes
            // the written value, not the literal
            &&& spec_deref(cd.regs[0], d2.st.cells) == written
        }),
{
    assert(seq![KutCaptureInfo::Register(0)].drop_first() =~= Seq::<KutCaptureInfo>::empty());
    let d1 = spec_step(KutInstruction::GetLiteralR { reg: 0, literal }, st, caps, lits, templates);
    let cd = spec_capture(seq![KutCaptureInfo::Register(0)], d1.st.regs, caps, d1.st.cells);
    if let Ok(cs) = spec_capture(
        Seq::<KutCaptureInfo>::empty(),
        d1.st.regs.update(0, AbsValue::Reference(d1.st.cells.len() as int)),
        caps,
        d1.st.cells.push(d1.st.regs[0]),
    ).out {
        assert(seq![AbsValue::Reference(d1.st.cells.len() as int)] + cs =~= seq![
            AbsValue::Reference(d1.st.cells.len() as int),
        ]);
    }
}

/// Promotion idempotence: capturing the same enclosing register through
/// two separate `FromRegister` walks yields two capture lists naming the
/// same cell — the second walk reuses the first one's cell and changes
/// nothing.
pub proof fn lemma_promotion_idempotent(
    regs: Seq<AbsValue>,
    env_caps1: Seq<AbsValue>,
    env_caps2: Seq<AbsValue>,
    cells: Seq<AbsValue>,
    r: u8,
)
    requires
        (r as int) < regs.len(),
    ensures
        ({
            let cd1 = spec_capture(seq![KutCaptureInfo::Register(r)], regs, env_caps1, cells);
            let cd2 = spec_capture(
                seq![KutCaptureInfo::Register(r)],
                cd1.regs,
                env_caps2,
                cd1.cells,
            );
            &&& cd1.out matches Ok(caps1) && caps1.len() == 1 && caps1[0] is Reference
            &&& cd2.out matches Ok(caps2) && caps2.len() == 1 && caps2[0] is Reference
            &&& cd2.out == cd1.out
            &&& cd2.regs == cd1.regs
            &&& cd2.cells == cd1.cells
        }),
{
    assert(seq![KutCaptureInfo::Register(r)].drop_first() =~= Seq::<KutCaptureInfo>::empty());
    let cd1 = spec_capture(seq![KutCaptureInfo::Register(r)], regs, env_caps1, cells);
    let promoted = !(regs[r as int] is Reference);
    let cap1 = if promoted {
        AbsValue::Reference(cells.len() as int)
    } else {
        regs[r as int]
    };
    let regs1 = if promoted {
        regs.update(r as int, cap1)
    } else {
        regs
    };
    let cells1 = if promoted {
        cells.push(regs[r as int])
    } else {
        cells
    };
    if let Ok(cs) = spec_capture(Seq::<KutCaptureInfo>::empty(), regs1, env_caps1, cells1).out {
        assert(seq![cap1] + cs =~= seq![cap1]);
    }
    let cd2 = spec_capture(seq![KutCaptureInfo::Register(r)], cd1.regs, env_caps2, cd1.cells);
    if let Ok(cs) = spec_capture(Seq::<KutCaptureInfo>::empty(), cd1.regs, env_caps2, cd1.cells).out {
        assert(seq![cd1.regs[r as int]] + cs =~= seq![cd1.regs[r as int]]);
    }
}

/// Swap/mov asymmetry: with `r1` holding a promoted `Reference` and `r2` a
/// plain value, `SwapValuesR` moves the raw reference into `r2` without
/// dereferencing, while `MovRegister` from the same starting state copies
/// the dereferenced cell content into `r2` and leaves the reference in
/// `r1` standing.
pub proof fn lemma_swap_mov_asymmetry(
    st: AbsState,
    caps: Seq<AbsValue>,
    lits: Seq<AbsValue>,
    templates: Seq<KutFunctionTemplate>,
    r1: u8,
    r2: u8,
    c: int,
)
    requires
        r1 != r2,
        (r1 as int) < st.regs.len(),
        (r2 as int) < st.regs.len(),
        st.regs[r1 as int] == AbsValue::Reference(c),
        0 <= c < st.cells.len(),
        !(st.regs[r2 as int] is Reference),
    ensures
        ({
            let ds = spec_step(KutInstruction::SwapValuesR { reg1: r1, reg2: r2 }, st, caps, lits, templates);
            let dm = spec_step(
                KutInstruction::MovRegister { destination: r2, source: r1 },
                st,
                caps,
                lits,
                templates,
            );
            // swap moves the raw reference, no dereference
            &&& ds.out == Ok::<Option<AbsValue>, KutError>(None)
            &&& ds.st.regs[r2 as int] == AbsValue::Reference(c)
            &&& ds.st.regs[r1 as int] == st.regs[r2 as int]
            &&& ds.st.cells == st.cells
            // mov copies the dereferenced cell content and keeps r1 intact
            &&& dm.out == Ok::<Option<AbsValue>, KutError>(None)
            &&& dm.st.regs[r2 as int] == st.cells[c]
            &&& dm.st.regs[r1 as int] == AbsValue::Reference(c)
        }),
{
}

} // verus!
