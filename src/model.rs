//! A plain-value model of the parts of a WebAssembly module that the
//! deobfuscation pipeline reads and rewrites.
use vstd::prelude::*;

verus! {

/// A value type of a parameter or result.
#[derive(Clone, Copy, Debug, PartialEq, Eq, Structural)]
pub enum ValType {
    I32,
    I64,
    F32,
    F64,
    V128,
    Ref,
}

/// A binary operator; those the pipeline does not inspect are kept as an
/// opaque handle chosen by whoever built the model.
#[derive(Clone, Copy, Debug, PartialEq, Eq, Structural)]
pub enum BinaryOp {
    I32Add,
    I32Xor,
    I32RemU,
    I32Shl,
    I32ShrS,
    Other { handle: u32 },
}

/// How a narrow load extends its value.
#[derive(Clone, Copy, Debug, PartialEq, Eq, Structural)]
pub enum ExtendedLoad {
    SignExtend,
    ZeroExtend,
    ZeroExtendAtomic,
}

/// The width and type of a load.
#[derive(Clone, Copy, Debug, PartialEq, Eq, Structural)]
pub enum LoadKind {
    I32 { atomic: bool },
    I64 { atomic: bool },
    F32,
    F64,
    V128,
    I32_8 { kind: ExtendedLoad },
    I32_16 { kind: ExtendedLoad },
    I64_8 { kind: ExtendedLoad },
    I64_16 { kind: ExtendedLoad },
    I64_32 { kind: ExtendedLoad },
}

/// The width and type of a store.
#[derive(Clone, Copy, Debug, PartialEq, Eq, Structural)]
pub enum StoreKind {
    I32 { atomic: bool },
    I64 { atomic: bool },
    F32,
    F64,
    V128,
    I32_8 { atomic: bool },
    I32_16 { atomic: bool },
    I64_8 { atomic: bool },
    I64_16 { atomic: bool },
    I64_32 { atomic: bool },
}

/// The immediate operand of a load or store.
#[derive(Clone, Copy, Debug, PartialEq, Eq, Structural)]
pub struct MemArg {
    pub align: u32,
    pub offset: u32,
}

/// One instruction. Structured instructions name the sequences of their
/// bodies by index into the function's sequence list; instructions that the
/// pipeline never inspects are kept as an opaque handle.
#[derive(Clone, Copy, Debug, PartialEq, Eq, Structural)]
pub enum Instr {
    Block { seq: usize },
    Loop { seq: usize },
    IfElse { consequent: usize, alternative: usize },
    I32Const { value: i32 },
    Binop { op: BinaryOp },
    Load { memory: u32, kind: LoadKind, arg: MemArg },
    Store { memory: u32, kind: StoreKind, arg: MemArg },
    Call { func: usize },
    LocalGet { local: u32 },
    Return,
    Other { handle: u32 },
}

/// An instruction with its location id.
#[derive(Clone, Copy, Debug, PartialEq, Eq, Structural)]
pub struct Slot {
    pub instr: Instr,
    pub loc: u32,
}

/// The body of a local function: the locals bound to its arguments and its
/// instruction sequences, the entry sequence first, the others in the order
/// a depth-first walk of the body meets them, so that every nested sequence
/// is numbered after the sequence that opens it.
pub struct LocalFunction {
    pub args: Vec<u32>,
    pub seqs: Vec<Vec<Slot>>,
}

/// A function: its type, whether it is exported, and its body unless it is
/// imported.
pub struct Function {
    pub params: Vec<ValType>,
    pub results: Vec<ValType>,
    pub exported: bool,
    pub local: Option<LocalFunction>,
}

/// A constant initializer expression; only 32-bit integer constants are
/// told apart.
#[derive(Clone, Copy, Debug, PartialEq, Eq, Structural)]
pub enum ConstExpr {
    I32 { value: i32 },
    Other,
}

/// Whether a data segment is placed at instantiation, and where.
#[derive(Clone, Copy, Debug, PartialEq, Eq, Structural)]
pub enum DataKind {
    Active { memory: u32, offset: ConstExpr },
    Passive,
}

/// A data segment.
pub struct DataSegment {
    pub kind: DataKind,
    pub value: Vec<u8>,
}

/// The module: functions indexed by their id, data segments in order, the
/// initializers of the globals in order, and the number of memories.
pub struct WasmModule {
    pub funcs: Vec<Function>,
    pub data: Vec<DataSegment>,
    pub globals: Vec<ConstExpr>,
    pub memories: usize,
}

/// Why the pipeline gave up on a module.
#[derive(Clone, Copy, Debug, PartialEq, Eq, Structural)]
pub enum DeobfuscateError {
    /// A candidate helper has a result or value type outside the supported set.
    UnsupportedHelperType,
    /// A value helper stores with a width that no helper kind stands for.
    UnsupportedStoreKind,
    /// No function was classified as an unsigned byte loader.
    MissingByteLoader,
    /// The byte loader shows neither the XOR nor the ChaCha20 shape.
    UnknownEncryption,
    /// The data is encrypted with ChaCha20, which is not supported.
    UnsupportedEncryption,
    /// The module lacks a data segment that the pipeline needs.
    MissingDataSegment,
    /// A data segment's offset is not a 32-bit integer constant.
    DataOffsetNotConst,
    /// The 96-byte XOR table does not lie inside the first data segment.
    XorTableOutOfRange,
    /// The payload starts too low in memory for its plaintext address.
    DataStartTooLow,
    /// The module has no memory.
    MissingMemory,
    /// The module has no global.
    MissingGlobal,
    /// The first global is not initialized with a 32-bit integer constant.
    GlobalNotConst,
    /// No function carries the constant signature of the event setup.
    MissingEventFunction,
    /// The event setup function holds no XOR load-store pattern.
    MissingXorPattern,
    /// An event pointer lies below the payload's start.
    EventPointerOutOfRange,
    /// A line of the event table is not an `index,id,hash` record.
    MalformedEvent,
}

/// The address that a constant offset stands for: its 32 bits read unsigned.
pub open spec fn address_of(value: i32) -> nat {
    (value as u32) as nat
}

/// `a` comes before `b` when slots are ordered by sequence, then by position.
pub open spec fn slot_before(s1: int, k1: int, s2: int, k2: int) -> bool {
    s1 < s2 || (s1 == s2 && k1 < k2)
}

impl LocalFunction {
    pub open spec fn valid_slot(&self, s: int, k: int) -> bool {
        0 <= s < self.seqs@.len() && 0 <= k < self.seqs@[s]@.len()
    }

    /// The instruction in slot `k` of sequence `s`.
    pub open spec fn instr(&self, s: int, k: int) -> Instr {
        self.seqs@[s]@[k].instr
    }

    /// `p` holds at some slot of the body.
    pub open spec fn any(&self, p: spec_fn(int, int) -> bool) -> bool {
        exists|s: int, k: int| self.valid_slot(s, k) && #[trigger] p(s, k)
    }

    /// `p` holds at some slot that comes before slot `(s, k)`.
    pub open spec fn any_before(&self, p: spec_fn(int, int) -> bool, s: int, k: int) -> bool {
        exists|s2: int, k2: int|
            self.valid_slot(s2, k2) && slot_before(s2, k2, s, k) && #[trigger] p(s2, k2)
    }

    /// Slot `(s, k)` is the first slot at which `p` holds.
    pub open spec fn first_at(&self, p: spec_fn(int, int) -> bool, s: int, k: int) -> bool {
        self.valid_slot(s, k) && p(s, k) && !self.any_before(p, s, k)
    }

    /// The first slot at which `p` holds, if there is one.
    pub open spec fn first_slot(&self, p: spec_fn(int, int) -> bool) -> Option<(int, int)> {
        if exists|s: int, k: int| self.first_at(p, s, k) {
            let (s, k) = choose|s: int, k: int| self.first_at(p, s, k);
            Some((s, k))
        } else {
            None
        }
    }

    /// The slot holds `i`.
    pub open spec fn holds_at(&self, i: Instr) -> spec_fn(int, int) -> bool {
        |s: int, k: int| self.instr(s, k) == i
    }

    /// The slot holds a load.
    pub open spec fn load_at(&self) -> spec_fn(int, int) -> bool {
        |s: int, k: int| self.instr(s, k) is Load
    }
}

/// At most one slot is the first at which a predicate holds.
pub proof fn lemma_first_unique(f: LocalFunction, p: spec_fn(int, int) -> bool, s: int, k: int)
    requires
        f.first_at(p, s, k),
    ensures
        f.first_slot(p) == Some((s, k)),
{
    let (s2, k2) = choose|s2: int, k2: int| f.first_at(p, s2, k2);
    if slot_before(s2, k2, s, k) {
        assert(f.any_before(p, s, k));
    } else if slot_before(s, k, s2, k2) {
        assert(f.any_before(p, s2, k2));
    }
}

/// Where `p` holds nowhere, there is no first slot for it.
pub proof fn lemma_first_none(f: LocalFunction, p: spec_fn(int, int) -> bool)
    requires
        !f.any(p),
    ensures
        f.first_slot(p) is None,
{
    if exists|s: int, k: int| f.first_at(p, s, k) {
        let (s, k) = choose|s: int, k: int| f.first_at(p, s, k);
        assert(f.valid_slot(s, k) && p(s, k));
    }
}

/// Moving one slot forward adds that slot to those before.
pub proof fn lemma_any_before_step(f: LocalFunction, p: spec_fn(int, int) -> bool, s: int, k: int)
    requires
        f.valid_slot(s, k),
    ensures
        f.any_before(p, s, k + 1) == (f.any_before(p, s, k) || p(s, k)),
{
    if f.any_before(p, s, k + 1) {
        let (s2, k2) = choose|s2: int, k2: int|
            f.valid_slot(s2, k2) && slot_before(s2, k2, s, k + 1) && #[trigger] p(s2, k2);
        if !(s2 == s && k2 == k) {
            assert(slot_before(s2, k2, s, k));
        }
    }
    if p(s, k) {
        assert(slot_before(s, k, s, k + 1));
    }
    if f.any_before(p, s, k) {
        let (s2, k2) = choose|s2: int, k2: int|
            f.valid_slot(s2, k2) && slot_before(s2, k2, s, k) && #[trigger] p(s2, k2);
        assert(slot_before(s2, k2, s, k + 1));
    }
}

/// The slots before the start of sequence `s + 1` are those before the end of
/// sequence `s`.
pub proof fn lemma_any_before_next_seq(f: LocalFunction, p: spec_fn(int, int) -> bool, s: int)
    requires
        0 <= s < f.seqs@.len(),
    ensures
        f.any_before(p, s + 1, 0) == f.any_before(p, s, f.seqs@[s]@.len() as int),
{
    let n = f.seqs@[s]@.len() as int;
    if f.any_before(p, s + 1, 0) {
        let (s2, k2) = choose|s2: int, k2: int|
            f.valid_slot(s2, k2) && slot_before(s2, k2, s + 1, 0) && #[trigger] p(s2, k2);
        assert(slot_before(s2, k2, s, n));
    }
    if f.any_before(p, s, n) {
        let (s2, k2) = choose|s2: int, k2: int|
            f.valid_slot(s2, k2) && slot_before(s2, k2, s, n) && #[trigger] p(s2, k2);
        assert(slot_before(s2, k2, s + 1, 0));
    }
}

/// Every slot comes before the start of the sequence after the last.
pub proof fn lemma_any_before_end(f: LocalFunction, p: spec_fn(int, int) -> bool)
    ensures
        f.any_before(p, f.seqs@.len() as int, 0) == f.any(p),
{
    if f.any(p) {
        let (s2, k2) = choose|s2: int, k2: int| f.valid_slot(s2, k2) && #[trigger] p(s2, k2);
        assert(slot_before(s2, k2, f.seqs@.len() as int, 0));
    }
}

impl Function {
    pub open spec fn wf(&self) -> bool {
        match self.local {
            Some(l) => l.args@.len() == self.params@.len(),
            None => true,
        }
    }
}

impl WasmModule {
    /// Every local function binds one local per parameter.
    pub open spec fn wf(&self) -> bool {
        forall|i: int| 0 <= i < self.funcs@.len() ==> (#[trigger] self.funcs@[i]).wf()
    }

    /// Tells whether the module is well formed.
    pub fn is_well_formed(&self) -> (r: bool)
        ensures
            r == self.wf(),
    {
        let mut i: usize = 0;
        while i < self.funcs.len()
            invariant
                i <= self.funcs@.len(),
                forall|j: int| 0 <= j < i ==> (#[trigger] self.funcs@[j]).wf(),
            decreases self.funcs@.len() - i,
        {
            let f = &self.funcs[i];
            match &f.local {
                Some(l) => {
                    if l.args.len() != f.params.len() {
                        return false;
                    }
                },
                None => {},
            }
            i = i + 1;
        }
        true
    }
}

/// The nested sequence `c` of sequence `s` is entered by the depth-first
/// walk: it is a sequence of the body numbered after `s`, as the numbering of
/// a depth-first walk makes every nested sequence.
pub open spec fn enters(f: LocalFunction, s: int, c: int) -> bool {
    s < c < f.seqs@.len()
}

/// The instructions of sequence `s` from slot `k` on, in the order of a
/// depth-first walk: each instruction, then the sequences it opens (for an
/// if/else the consequent before the alternative), then the next slot.
pub open spec fn walk_from(f: LocalFunction, s: int, k: int) -> Seq<Instr>
    decreases f.seqs@.len() - s, f.seqs@[s]@.len() - k,
{
    if !(0 <= s < f.seqs@.len() && 0 <= k < f.seqs@[s]@.len()) {
        Seq::empty()
    } else {
        let i = f.instr(s, k);
        let nested = match i {
            Instr::Block { seq } => if enters(f, s, seq as int) {
                walk_from(f, seq as int, 0)
            } else {
                Seq::empty()
            },
            Instr::Loop { seq } => if enters(f, s, seq as int) {
                walk_from(f, seq as int, 0)
            } else {
                Seq::empty()
            },
            Instr::IfElse { consequent, alternative } => (if enters(f, s, consequent as int) {
                walk_from(f, consequent as int, 0)
            } else {
                Seq::empty()
            }) + (if enters(f, s, alternative as int) {
                walk_from(f, alternative as int, 0)
            } else {
                Seq::empty()
            }),
            _ => Seq::empty(),
        };
        seq![i] + nested + walk_from(f, s, k + 1)
    }
}

/// The instructions of the body in the order of a depth-first walk from the
/// entry sequence.
pub open spec fn body_walk(f: LocalFunction) -> Seq<Instr> {
    walk_from(f, 0, 0)
}

/// The instructions of the sequences that `i`, standing in sequence `s`,
/// opens, in the order of a depth-first walk.
pub open spec fn opened_walk(f: LocalFunction, s: int, i: Instr) -> Seq<Instr> {
    match i {
        Instr::Block { seq } => if enters(f, s, seq as int) {
            walk_from(f, seq as int, 0)
        } else {
            Seq::empty()
        },
        Instr::Loop { seq } => if enters(f, s, seq as int) {
            walk_from(f, seq as int, 0)
        } else {
            Seq::empty()
        },
        Instr::IfElse { consequent, alternative } => (if enters(f, s, consequent as int) {
            walk_from(f, consequent as int, 0)
        } else {
            Seq::empty()
        }) + (if enters(f, s, alternative as int) {
            walk_from(f, alternative as int, 0)
        } else {
            Seq::empty()
        }),
        _ => Seq::empty(),
    }
}

/// One step of the walk: a slot's instruction, what it opens, then the rest.
pub proof fn lemma_walk_step(f: LocalFunction, s: int, k: int)
    requires
        f.valid_slot(s, k),
    ensures
        walk_from(f, s, k) == seq![f.instr(s, k)] + (opened_walk(f, s, f.instr(s, k)) + walk_from(
            f,
            s,
            k + 1,
        )),
{
    assert(seq![f.instr(s, k)] + opened_walk(f, s, f.instr(s, k)) + walk_from(f, s, k + 1) =~= seq![
        f.instr(s, k),
    ] + (opened_walk(f, s, f.instr(s, k)) + walk_from(f, s, k + 1)));
}

/// The walk from the end of a sequence is empty.
pub proof fn lemma_walk_end(f: LocalFunction, s: int)
    requires
        0 <= s < f.seqs@.len(),
    ensures
        walk_from(f, s, f.seqs@[s]@.len() as int) == Seq::<Instr>::empty(),
{
}

} // verus!
