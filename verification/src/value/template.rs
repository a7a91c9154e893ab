//! Template construction and the closure-capture protocol.

use vstd::prelude::*;

use crate::value::semantics::spec_capture;
use crate::value::{
    abs, abs_seq, group_abs_lemmas, AbsValue, CellPool, KutCaptureInfo, KutClosure, KutError,
    KutFunction, KutFunctionTemplate, KutInstruction, KutValue,
};

verus! {

broadcast use group_abs_lemmas;

impl KutFunctionTemplate {
    /// Bundle an instruction sequence, capture descriptors and a register
    /// count into a template.
    pub fn new(
        instructions: Vec<KutInstruction>,
        capture_infos: Vec<KutCaptureInfo>,
        register_count: u8,
    ) -> (t: KutFunctionTemplate)
        ensures
            t.instructions == instructions,
            t.capture_infos == capture_infos,
            t.register_count == register_count,
    {
        KutFunctionTemplate { instructions, capture_infos, register_count }
    }

    /// Run the capture protocol against an enclosing activation: walk this
    /// template's capture descriptors in order, promoting captured
    /// registers to shared cells on their first capture and reusing the
    /// cell of an already promoted register, and build the closure.
    ///
    /// `template_index` is the index under which the caller resolved this
    /// template in the VM container; the new closure records it.  The walk
    /// agrees exactly with [`spec_capture`], including which promotions an
    /// aborted walk leaves behind.
    pub fn capture(
        &self,
        template_index: usize,
        env: &mut KutFunction,
        cells: &mut CellPool,
    ) -> (r: Result<KutClosure, KutError>)
        ensures
            final(env).closure == old(env).closure,
            final(env).call_stack == old(env).call_stack,
            ({
                let cd = spec_capture(
                    self.capture_infos@,
                    abs_seq(old(env).registers@),
                    old(env).closure@.captures,
                    old(cells)@,
                );
                &&& abs_seq(final(env).registers@) == cd.regs
                &&& final(cells)@ == cd.cells
                &&& match r {
                    Ok(c) => cd.out == Ok::<Seq<AbsValue>, KutError>(c@.captures) && c.template
                        == template_index,
                    Err(e) => cd.out == Err::<Seq<AbsValue>, KutError>(e),
                }
            }),
    {
        let ghost regs0 = abs_seq(env.registers@);
        let ghost env_caps = env.closure@.captures;
        let ghost cells0 = cells@;
        let n = self.capture_infos.len();
        let mut captures: Vec<KutValue> = Vec::with_capacity(n);
        let mut k: usize = 0;
        proof {
            assert(self.capture_infos@.subrange(0, n as int) =~= self.capture_infos@);
            let full = spec_capture(self.capture_infos@, regs0, env_caps, cells0);
            if let Ok(cs) = full.out {
                assert(abs_seq(captures@) + cs =~= cs);
            }
        }
        while k < n
            invariant
                0 <= k <= n,
                n == self.capture_infos@.len(),
                env.closure == old(env).closure,
                env.call_stack == old(env).call_stack,
                regs0 == abs_seq(old(env).registers@),
                env_caps == old(env).closure@.captures,
                cells0 == old(cells)@,
                ({
                    let full = spec_capture(self.capture_infos@, regs0, env_caps, cells0);
                    let rem = spec_capture(
                        self.capture_infos@.subrange(k as int, n as int),
                        abs_seq(env.registers@),
                        env_caps,
                        cells@,
                    );
                    &&& full.regs == rem.regs
                    &&& full.cells == rem.cells
                    &&& full.out == match rem.out {
                        Ok(cs) => Ok::<Seq<AbsValue>, KutError>(abs_seq(captures@) + cs),
                        Err(e) => Err::<Seq<AbsValue>, KutError>(e),
                    }
                }),
            decreases n - k,
        {
            proof {
                assert(self.capture_infos@.subrange(k as int, n as int).len() == n - k);
                assert(self.capture_infos@.subrange(k as int, n as int)[0]
                    == self.capture_infos@[k as int]);
                assert(self.capture_infos@.subrange(k as int, n as int).drop_first()
                    =~= self.capture_infos@.subrange(k as int + 1, n as int));
            }
            let info = self.capture_infos[k];
            let new_cap: KutValue = match info {
                KutCaptureInfo::Register(reg) => {
                    if (reg as usize) < env.registers.len() {
                        let existing: Option<usize> = match &env.registers[reg as usize] {
                            KutValue::Reference(c) => Some(*c),
                            _ => None,
                        };
                        match existing {
                            Some(c) => KutValue::Reference(c),
                            None => {
                                let id = cells.cells.len();
                                let inner_val = env.registers[reg as usize].clone();
                                cells.cells.push(inner_val);
                                env.registers[reg as usize] = KutValue::Reference(id);
                                KutValue::Reference(id)
                            },
                        }
                    } else {
                        return Err(
                            KutError::OutOfRangeDestinationRegister {
                                register: reg,
                                register_count: env.registers.len(),
                            },
                        );
                    }
                },
                KutCaptureInfo::Capture(cap) => {
                    if (cap as usize) < env.closure.captures.len() {
                        env.closure.captures[cap as usize].clone()
                    } else {
                        return Err(
                            KutError::OutOfRangeSourceCapture {
                                capture: cap,
                                capture_count: env.closure.captures.len(),
                            },
                        );
                    }
                },
            };
            let ghost prev_caps = abs_seq(captures@);
            captures.push(new_cap);
            k = k + 1;
            proof {
                let rem_next = spec_capture(
                    self.capture_infos@.subrange(k as int, n as int),
                    abs_seq(env.registers@),
                    env_caps,
                    cells@,
                );
                if let Ok(cs) = rem_next.out {
                    assert(prev_caps + (seq![abs(new_cap)] + cs) =~= abs_seq(captures@) + cs);
                }
            }
        }
        proof {
            assert(self.capture_infos@.subrange(n as int, n as int).len() == 0);
            assert(abs_seq(captures@) + Seq::<AbsValue>::empty() =~= abs_seq(captures@));
        }
        Ok(KutClosure { template: template_index, captures })
    }

    /// Capture this template with no enclosing activation, as the host does
    /// for the entry template: legal exactly when the template needs no
    /// captures.
    pub fn capture_unbound(&self, template_index: usize) -> (r: Result<KutClosure, KutError>)
        ensures
            match r {
                Ok(c) => {
                    &&& self.capture_infos@.len() == 0
                    &&& c.template == template_index
                    &&& c.captures@.len() == 0
                },
                Err(e) => {
                    &&& self.capture_infos@.len() > 0
                    &&& e == (KutError::CaptureEmptyEnvironment {
                        needed_captures: self.capture_infos@.len() as usize,
                    })
                },
            },
    {
        if self.capture_infos.len() == 0 {
            Ok(KutClosure { template: template_index, captures: Vec::new() })
        } else {
            Err(KutError::CaptureEmptyEnvironment { needed_captures: self.capture_infos.len() })
        }
    }
}

} // verus!
