//! The runtime value model, the instruction set, the object model
//! (templates, closures, activations) and the error taxonomy.
//!
//! Shared mutable capture cells are kept in a [`CellPool`] arena and named by
//! index; a [`KutValue::Reference`] carries such an index.  This makes the
//! aliasing graph of promoted registers a plain value that contracts can
//! speak about: two references alias exactly when they carry the same index.
//! Immutable shared data (strings, lists, closures) is reference counted.

use vstd::prelude::*;

pub mod closure;
pub mod function;
pub mod instruction;
pub mod laws;
pub mod message;
pub mod semantics;
pub mod template;

use std::rc::Rc;

verus! {

/// A runtime value.
///
/// Values are copied by reference-count increment, never deep-copied, except
/// `Number`, which is copied by value.  A `Number` holds the bit pattern of
/// an IEEE 754 double, so that moving values around is exact.
#[derive(Debug, PartialEq)]
pub enum KutValue {
    Nil,
    Undefined,
    /// The bits of an IEEE 754 double-precision number.
    Number(u64),
    /// Shared immutable text.
    String(Rc<String>),
    /// Shared immutable ordered sequence of values.
    List(Rc<Vec<KutValue>>),
    /// A shared closure.
    Func(Rc<KutClosure>),
    /// A shared mutable cell holding one value: the index of the cell in the
    /// run's [`CellPool`].  Used only for promoted (captured) storage.
    Reference(usize),
}

/// The kind of a runtime value, carried by consistency errors.
#[derive(Debug, Clone, Copy, PartialEq, Eq)]
pub enum KutValueKind {
    Nil,
    Undefined,
    Number,
    String,
    List,
    Func,
    Reference,
}

/// One bytecode instruction.
///
/// Register-form instructions name their operands as 8-bit register numbers;
/// immediate-form instructions carry one 8-bit register operand and one
/// 16-bit immediate (a literal, capture or template index).
#[derive(Debug, Clone, Copy, PartialEq, Eq)]
pub enum KutInstruction {
    NoOperation,
    MovRegister { destination: u8, source: u8 },
    CallMethodR { ret_position: u8, arg_count: u8, subject: u8 },
    CallMethodS { arg_count: u8, subject: u8 },
    RetfMethodR { value: u8 },
    RetfMethodS,
    PushValue1R { val1: u8 },
    PushValue2R { val1: u8, val2: u8 },
    PushValue3R { val1: u8, val2: u8, val3: u8 },
    SwapValuesR { reg1: u8, reg2: u8 },
    GetLiteralR { reg: u8, literal: u16 },
    GetCaptureR { reg: u8, capture: u16 },
    SetCaptureR { reg: u8, capture: u16 },
    CaptureFunc { reg: u8, template: u16 },
    PushLiteral { literal: u16 },
    PushCapture { capture: u16 },
    PushFuncStk { template: u16 },
    PopCaptureS { capture: u16 },
}

/// One capture descriptor of a template: where the enclosing activation
/// finds the variable that the new closure captures.
#[derive(Debug, Clone, Copy, PartialEq, Eq)]
pub enum KutCaptureInfo {
    /// Capture the enclosing closure's own capture slot (transitive capture).
    Capture(u16),
    /// Capture a register of the enclosing activation, promoting it to a
    /// shared cell on its first capture.
    Register(u8),
}

/// An immutable blueprint for closures: an instruction sequence, the capture
/// descriptors, and the size of the register file.
#[derive(Debug, PartialEq)]
pub struct KutFunctionTemplate {
    pub instructions: Vec<KutInstruction>,
    pub capture_infos: Vec<KutCaptureInfo>,
    pub register_count: u8,
}

/// A template bound to its captured cells, created at run time.
#[derive(Debug, PartialEq)]
pub struct KutClosure {
    /// Index of the closure's template in the VM container's template pool.
    pub template: usize,
    /// One entry per capture descriptor of the template; each entry is
    /// expected to be a `KutValue::Reference`.
    pub captures: Vec<KutValue>,
}

/// One in-progress invocation of a closure: a register file plus an operand
/// stack.
#[derive(Debug)]
pub struct KutFunction {
    pub closure: Rc<KutClosure>,
    pub registers: Vec<KutValue>,
    pub call_stack: Vec<KutValue>,
}

/// The arena of shared mutable capture cells of one run.
///
/// A cell is created by promoting a register on its first capture and is
/// named by its index for the rest of the run; cells are never removed, so
/// the pool only grows.
#[derive(Debug)]
pub struct CellPool {
    pub cells: Vec<KutValue>,
}

impl CellPool {
    /// An empty pool, for the start of a run.
    pub fn new() -> (r: CellPool)
        ensures
            r.cells@.len() == 0,
    {
        CellPool { cells: Vec::new() }
    }
}

/// A structured, typed failure.  Every error is fatal to the activation that
/// raises it and propagates to the caller; the VM retries nothing.
#[derive(Debug, Clone, Copy, PartialEq, Eq)]
pub enum KutError {
    /// An operand-stack pop on an empty stack.
    StackUnderflow,
    /// Capturing a template that needs captures with no enclosing activation.
    CaptureEmptyEnvironment { needed_captures: usize },
    /// A capture slot expected to hold a `Reference` holds something else:
    /// an internal consistency violation.
    NonReferenceCapture { capture: u16, capture_type: KutValueKind },
    OutOfRangeTemplate { template: u16, template_count: usize },
    OutOfRangeLiteral { literal: u16, literal_count: usize },
    OutOfRangeDestinationCapture { capture: u16, capture_count: usize },
    OutOfRangeSourceCapture { capture: u16, capture_count: usize },
    OutOfRangeDestinationRegister { register: u8, register_count: usize },
    OutOfRangeSourceRegister { register: u8, register_count: usize },
    OutOfRangeSwapRegister { register: u8, register_count: usize },
    /// A call subject that is not a `Func` value.
    NonFuncSubject { register: u8, subject_type: KutValueKind },
    /// Decoding a binary instruction word whose opcode byte is undefined.
    UndefinedInstruction { opcode: u8 },
    /// The step budget of a bounded run was exhausted before the root
    /// activation finished.
    StepLimitReached { limit: u64 },
}

/// What running an instruction or an activation yields: nothing yet, a
/// produced return value, or an error.
pub type KutReturnType = Result<Option<KutValue>, KutError>;

impl KutValue {
    /// The kind of this value.
    pub open spec fn spec_kind(self) -> KutValueKind {
        match self {
            KutValue::Nil => KutValueKind::Nil,
            KutValue::Undefined => KutValueKind::Undefined,
            KutValue::Number(_) => KutValueKind::Number,
            KutValue::String(_) => KutValueKind::String,
            KutValue::List(_) => KutValueKind::List,
            KutValue::Func(_) => KutValueKind::Func,
            KutValue::Reference(_) => KutValueKind::Reference,
        }
    }

    /// The kind of this value.
    pub fn kind(&self) -> (k: KutValueKind)
        ensures
            k == self.spec_kind(),
    {
        match self {
            KutValue::Nil => KutValueKind::Nil,
            KutValue::Undefined => KutValueKind::Undefined,
            KutValue::Number(_) => KutValueKind::Number,
            KutValue::String(_) => KutValueKind::String,
            KutValue::List(_) => KutValueKind::List,
            KutValue::Func(_) => KutValueKind::Func,
            KutValue::Reference(_) => KutValueKind::Reference,
        }
    }
}

/// Relies on std's `Rc::clone`: the returned pointer shares the allocation
/// of the argument, so both stand for the same value.
#[verifier::external_body]
pub(crate) fn rc_clone<T>(rc: &Rc<T>) -> (r: Rc<T>)
    ensures
        r == *rc,
{
    Rc::clone(rc)
}

impl Clone for KutValue {
    /// Copy by reference-count increment (by value for `Number`).
    fn clone(&self) -> (r: Self)
        ensures
            r == *self,
    {
        match self {
            KutValue::Nil => KutValue::Nil,
            KutValue::Undefined => KutValue::Undefined,
            KutValue::Number(num) => KutValue::Number(*num),
            KutValue::String(string) => KutValue::String(rc_clone(string)),
            KutValue::List(list) => KutValue::List(rc_clone(list)),
            KutValue::Func(func) => KutValue::Func(rc_clone(func)),
            KutValue::Reference(r) => KutValue::Reference(*r),
        }
    }
}

broadcast use vstd::std_specs::vec::axiom_vec_index_decreases;

/// The mathematical model of a runtime value.
///
/// It differs from [`KutValue`] in one place: a closure is modelled as its
/// template index together with the model of its capture list, so that
/// contracts can state exactly which closure an instruction builds.  Shared
/// immutable payloads (text, lists) are carried through unchanged, since no
/// instruction looks inside them.
pub enum AbsValue {
    Nil,
    Undefined,
    Number(u64),
    Text(Rc<String>),
    List(Rc<Vec<KutValue>>),
    Func(AbsClosure),
    Reference(int),
}

/// The model of a closure: its template index and its captured slots.
pub struct AbsClosure {
    pub template: int,
    pub captures: Seq<AbsValue>,
}

/// The model of a runtime value.
pub open spec fn abs(v: KutValue) -> AbsValue
    decreases v,
    via abs_decreases
{
    match v {
        KutValue::Nil => AbsValue::Nil,
        KutValue::Undefined => AbsValue::Undefined,
        KutValue::Number(n) => AbsValue::Number(n),
        KutValue::String(s) => AbsValue::Text(s),
        KutValue::List(l) => AbsValue::List(l),
        KutValue::Func(f) => AbsValue::Func(
            AbsClosure {
                template: (*f).template as int,
                // the index guard keeps the recursion inside the capture
                // list, where it is well founded; it never fails
                captures: Seq::new(
                    (*f).captures@.len(),
                    |i: int|
                        if 0 <= i < (*f).captures@.len() {
                            abs((*f).captures@[i])
                        } else {
                            AbsValue::Nil
                        },
                ),
            },
        ),
        KutValue::Reference(c) => AbsValue::Reference(c as int),
    }
}

#[via_fn]
proof fn abs_decreases(v: KutValue) {
    if let KutValue::Func(f) = v {
        assert forall|i: int| 0 <= i < (*f).captures@.len() implies decreases_to!(
            v => (*f).captures@[i]) by {
            assert(decreases_to!(v => (*f).captures));
            assert(decreases_to!((*f).captures => (*f).captures@));
            assert(decreases_to!((*f).captures@ => (*f).captures@[i]));
        }
    }
}

/// The model of a sequence of runtime values, element by element.
pub open spec fn abs_seq(s: Seq<KutValue>) -> Seq<AbsValue> {
    Seq::new(s.len(), |i: int| abs(s[i]))
}

impl View for KutValue {
    type V = AbsValue;

    open spec fn view(&self) -> AbsValue {
        abs(*self)
    }
}

impl View for KutClosure {
    type V = AbsClosure;

    open spec fn view(&self) -> AbsClosure {
        AbsClosure { template: self.template as int, captures: abs_seq(self.captures@) }
    }
}

impl View for CellPool {
    type V = Seq<AbsValue>;

    open spec fn view(&self) -> Seq<AbsValue> {
        abs_seq(self.cells@)
    }
}

impl AbsValue {
    /// The kind of a modelled value.
    pub open spec fn kind(self) -> KutValueKind {
        match self {
            AbsValue::Nil => KutValueKind::Nil,
            AbsValue::Undefined => KutValueKind::Undefined,
            AbsValue::Number(_) => KutValueKind::Number,
            AbsValue::Text(_) => KutValueKind::String,
            AbsValue::List(_) => KutValueKind::List,
            AbsValue::Func(_) => KutValueKind::Func,
            AbsValue::Reference(_) => KutValueKind::Reference,
        }
    }
}

/// Reading a value through one level of indirection: a `Reference` yields
/// the named cell's current content, any other value yields itself.
pub open spec fn spec_deref(v: AbsValue, cells: Seq<AbsValue>) -> AbsValue {
    match v {
        AbsValue::Reference(c) => cells[c],
        _ => v,
    }
}

/// What may sit in a capture slot: any value, but a `Reference` must name a
/// live cell.
pub open spec fn cap_slot_ok(v: AbsValue, ncells: int) -> bool {
    v matches AbsValue::Reference(c) ==> 0 <= c < ncells
}

/// Well-formedness of a whole capture list.
pub open spec fn caps_ok(caps: Seq<AbsValue>, ncells: int) -> bool {
    forall|i: int| 0 <= i < caps.len() ==> cap_slot_ok(#[trigger] caps[i], ncells)
}

/// Well-formedness of a closure against the pools: its template index is
/// live and each capture slot names only live cells.
pub open spec fn closure_ok(c: AbsClosure, ncells: int, ntemplates: int) -> bool {
    &&& 0 <= c.template < ntemplates
    &&& caps_ok(c.captures, ncells)
}

/// Well-formedness of a value that a register, the operand stack or a cell
/// may hold: references name live cells and closures are well formed.
pub open spec fn value_ok(v: AbsValue, ncells: int, ntemplates: int) -> bool {
    match v {
        AbsValue::Reference(c) => 0 <= c < ncells,
        AbsValue::Func(f) => closure_ok(f, ncells, ntemplates),
        _ => true,
    }
}

/// Well-formedness of a whole sequence of values.
pub open spec fn values_ok(s: Seq<AbsValue>, ncells: int, ntemplates: int) -> bool {
    forall|i: int| 0 <= i < s.len() ==> value_ok(#[trigger] s[i], ncells, ntemplates)
}

/// Well-formedness of the cell pool: every cell content is itself well
/// formed.
pub open spec fn cells_ok(cells: Seq<AbsValue>, ntemplates: int) -> bool {
    values_ok(cells, cells.len() as int, ntemplates)
}

/// Well-formedness of an activation against the pools: its closure, its
/// registers and its operand stack are all well formed.
pub open spec fn act_ok(f: KutFunction, ncells: int, ntemplates: int) -> bool {
    &&& closure_ok(f.closure@, ncells, ntemplates)
    &&& values_ok(abs_seq(f.registers@), ncells, ntemplates)
    &&& values_ok(abs_seq(f.call_stack@), ncells, ntemplates)
}

/// The model of a closure value is the model of its closure.
pub broadcast proof fn lemma_abs_func(f: Rc<KutClosure>)
    ensures
        #[trigger] abs(KutValue::Func(f)) == AbsValue::Func(f@),
{
    assert(abs(KutValue::Func(f))->Func_0.captures =~= f@.captures);
}

/// Updating one element updates the model pointwise.
pub broadcast proof fn lemma_abs_seq_update(s: Seq<KutValue>, i: int, v: KutValue)
    requires
        0 <= i < s.len(),
    ensures
        #[trigger] abs_seq(s.update(i, v)) == abs_seq(s).update(i, abs(v)),
{
    assert(abs_seq(s.update(i, v)) =~= abs_seq(s).update(i, abs(v)));
}

/// Appending one element appends its model.
pub broadcast proof fn lemma_abs_seq_push(s: Seq<KutValue>, v: KutValue)
    ensures
        #[trigger] abs_seq(s.push(v)) == abs_seq(s).push(abs(v)),
{
    assert(abs_seq(s.push(v)) =~= abs_seq(s).push(abs(v)));
}

/// Dropping the last element drops its model.
pub broadcast proof fn lemma_abs_seq_drop_last(s: Seq<KutValue>)
    requires
        s.len() > 0,
    ensures
        #[trigger] abs_seq(s.drop_last()) == abs_seq(s).drop_last(),
{
    assert(abs_seq(s.drop_last()) =~= abs_seq(s).drop_last());
}

/// Taking a subrange takes the model's subrange.
pub broadcast proof fn lemma_abs_seq_subrange(s: Seq<KutValue>, i: int, j: int)
    requires
        0 <= i <= j <= s.len(),
    ensures
        #[trigger] abs_seq(s.subrange(i, j)) == abs_seq(s).subrange(i, j),
{
    assert(abs_seq(s.subrange(i, j)) =~= abs_seq(s).subrange(i, j));
}

/// The lemmas that connect the model of a value sequence to the operations
/// executable code performs on it.
pub broadcast group group_abs_lemmas {
    lemma_abs_func,
    lemma_abs_seq_update,
    lemma_abs_seq_push,
    lemma_abs_seq_drop_last,
    lemma_abs_seq_subrange,
}

/// A value stays well formed as the cell pool grows.
pub proof fn lemma_value_ok_grows(v: AbsValue, n1: int, n2: int, ntemplates: int)
    requires
        value_ok(v, n1, ntemplates),
        n1 <= n2,
    ensures
        value_ok(v, n2, ntemplates),
{
}

/// A sequence of values stays well formed as the cell pool grows.
pub proof fn lemma_values_ok_grows(s: Seq<AbsValue>, n1: int, n2: int, ntemplates: int)
    requires
        values_ok(s, n1, ntemplates),
        n1 <= n2,
    ensures
        values_ok(s, n2, ntemplates),
{
}

} // verus!
