//! Recognition of the exported helpers that hide typed memory accesses.
use vstd::prelude::*;
use crate::model::{
    body_walk, enters, lemma_any_before_end, lemma_any_before_next_seq, lemma_any_before_step,
    lemma_walk_end, lemma_walk_step, opened_walk, walk_from, BinaryOp, DeobfuscateError, Function, Instr, LocalFunction, StoreKind,
    ValType,
};

verus! {

/// The width and signedness of the access that a memory helper performs.
#[derive(Clone, Copy, Debug, PartialEq, Eq, Structural)]
pub enum HelperKind {
    Unsigned8,
    Unsigned16,
    Signed8,
    Signed16,
    Signed32,
    Signed64,
    Float32,
    Float64,
}

/// The features of a body that tell a load helper's width and signedness.
pub struct LoadMemoryFuncMapper {
    pub has_load: bool,
    pub has_16_bits_mask: bool,
    pub has_8_bits_mask: bool,
    pub has_24_bits_shl: bool,
    pub has_right_shift_signed: bool,
    pub has_left_shift: bool,
}

impl LoadMemoryFuncMapper {
    /// The mapper with no feature seen.
    pub open spec fn empty() -> Self {
        LoadMemoryFuncMapper {
            has_load: false,
            has_16_bits_mask: false,
            has_8_bits_mask: false,
            has_24_bits_shl: false,
            has_right_shift_signed: false,
            has_left_shift: false,
        }
    }

    /// The features seen once the slots before `(s, k)` of `f` are visited too.
    pub open spec fn observed_before(self, f: LocalFunction, s: int, k: int) -> Self {
        LoadMemoryFuncMapper {
            has_load: self.has_load || f.any_before(f.load_at(), s, k),
            has_16_bits_mask: self.has_16_bits_mask || f.any_before(
                f.holds_at(Instr::I32Const { value: 65535 }),
                s,
                k,
            ),
            has_8_bits_mask: self.has_8_bits_mask || f.any_before(
                f.holds_at(Instr::I32Const { value: 255 }),
                s,
                k,
            ),
            has_24_bits_shl: self.has_24_bits_shl || f.any_before(
                f.holds_at(Instr::I32Const { value: 24 }),
                s,
                k,
            ),
            has_right_shift_signed: self.has_right_shift_signed || f.any_before(
                f.holds_at(Instr::Binop { op: BinaryOp::I32ShrS }),
                s,
                k,
            ),
            has_left_shift: self.has_left_shift || f.any_before(
                f.holds_at(Instr::Binop { op: BinaryOp::I32Shl }),
                s,
                k,
            ),
        }
    }

    /// The features seen once the whole body of `f` is visited too.
    pub open spec fn observed(self, f: LocalFunction) -> Self {
        LoadMemoryFuncMapper {
            has_load: self.has_load || f.any(f.load_at()),
            has_16_bits_mask: self.has_16_bits_mask || f.any(
                f.holds_at(Instr::I32Const { value: 65535 }),
            ),
            has_8_bits_mask: self.has_8_bits_mask || f.any(
                f.holds_at(Instr::I32Const { value: 255 }),
            ),
            has_24_bits_shl: self.has_24_bits_shl || f.any(
                f.holds_at(Instr::I32Const { value: 24 }),
            ),
            has_right_shift_signed: self.has_right_shift_signed || f.any(
                f.holds_at(Instr::Binop { op: BinaryOp::I32ShrS }),
            ),
            has_left_shift: self.has_left_shift || f.any(
                f.holds_at(Instr::Binop { op: BinaryOp::I32Shl }),
            ),
        }
    }

    /// The kind of load helper that the seen features stand for.
    pub open spec fn decision(self) -> Option<HelperKind> {
        if !self.has_load {
            None
        } else if self.has_left_shift && self.has_24_bits_shl {
            Some(HelperKind::Signed8)
        } else if self.has_right_shift_signed && self.has_16_bits_mask {
            Some(HelperKind::Signed16)
        } else if self.has_right_shift_signed && self.has_8_bits_mask {
            Some(HelperKind::Signed8)
        } else if self.has_right_shift_signed {
            Some(HelperKind::Signed32)
        } else if self.has_16_bits_mask {
            Some(HelperKind::Unsigned16)
        } else if self.has_8_bits_mask {
            Some(HelperKind::Unsigned8)
        } else {
            Some(HelperKind::Signed32)
        }
    }

    pub fn new() -> (r: Self)
        ensures
            r == Self::empty(),
    {
        LoadMemoryFuncMapper {
            has_load: false,
            has_16_bits_mask: false,
            has_8_bits_mask: false,
            has_24_bits_shl: false,
            has_right_shift_signed: false,
            has_left_shift: false,
        }
    }

    /// Records the features of one instruction.
    fn visit(&mut self, instr: Instr)
        ensures
            final(self).has_load == (old(self).has_load || instr is Load),
            final(self).has_16_bits_mask == (old(self).has_16_bits_mask || instr
                == Instr::I32Const { value: 65535 }),
            final(self).has_8_bits_mask == (old(self).has_8_bits_mask || instr
                == Instr::I32Const { value: 255 }),
            final(self).has_24_bits_shl == (old(self).has_24_bits_shl || instr == Instr::I32Const {
                value: 24,
            }),
            final(self).has_right_shift_signed == (old(self).has_right_shift_signed || instr
                == Instr::Binop { op: BinaryOp::I32ShrS }),
            final(self).has_left_shift == (old(self).has_left_shift || instr == Instr::Binop {
                op: BinaryOp::I32Shl,
            }),
    {
        match instr {
            Instr::I32Const { value } => {
                if value == 65535 {
                    self.has_16_bits_mask = true;
                }
                if value == 24 {
                    self.has_24_bits_shl = true;
                }
                if value == 255 {
                    self.has_8_bits_mask = true;
                }
            },
            Instr::Binop { op: BinaryOp::I32ShrS } => {
                self.has_right_shift_signed = true;
            },
            Instr::Binop { op: BinaryOp::I32Shl } => {
                self.has_left_shift = true;
            },
            Instr::Load { .. } => {
                self.has_load = true;
            },
            _ => {},
        }
    }

    /// Visits the whole body of `local` and classifies it as a load helper:
    /// `None` where it holds no load.
    pub fn map(&mut self, local: &LocalFunction) -> (r: Option<HelperKind>)
        ensures
            *final(self) == old(self).observed(*local),
            r == final(self).decision(),
    {
        let ghost start = *self;
        let ghost f = *local;
        let mut s: usize = 0;
        while s < local.seqs.len()
            invariant
                f == *local,
                s <= f.seqs@.len(),
                *self == start.observed_before(f, s as int, 0),
            decreases f.seqs@.len() - s,
        {
            let seq = &local.seqs[s];
            let mut k: usize = 0;
            while k < seq.len()
                invariant
                    f == *local,
                    s < f.seqs@.len(),
                    *seq == f.seqs@[s as int],
                    k <= seq@.len(),
                    *self == start.observed_before(f, s as int, k as int),
                decreases seq@.len() - k,
            {
                self.visit(seq[k].instr);
                proof {
                    lemma_any_before_step(f, f.load_at(), s as int, k as int);
                    lemma_any_before_step(f, f.holds_at(Instr::I32Const { value: 65535 }), s as int, k as int);
                    lemma_any_before_step(f, f.holds_at(Instr::I32Const { value: 255 }), s as int, k as int);
                    lemma_any_before_step(f, f.holds_at(Instr::I32Const { value: 24 }), s as int, k as int);
                    lemma_any_before_step(f, f.holds_at(Instr::Binop { op: BinaryOp::I32ShrS }), s as int, k as int);
                    lemma_any_before_step(f, f.holds_at(Instr::Binop { op: BinaryOp::I32Shl }), s as int, k as int);
                }
                k = k + 1;
            }
            proof {
                lemma_any_before_next_seq(f, f.load_at(), s as int);
                lemma_any_before_next_seq(f, f.holds_at(Instr::I32Const { value: 65535 }), s as int);
                lemma_any_before_next_seq(f, f.holds_at(Instr::I32Const { value: 255 }), s as int);
                lemma_any_before_next_seq(f, f.holds_at(Instr::I32Const { value: 24 }), s as int);
                lemma_any_before_next_seq(f, f.holds_at(Instr::Binop { op: BinaryOp::I32ShrS }), s as int);
                lemma_any_before_next_seq(f, f.holds_at(Instr::Binop { op: BinaryOp::I32Shl }), s as int);
            }
            s = s + 1;
        }
        proof {
            lemma_any_before_end(f, f.load_at());
            lemma_any_before_end(f, f.holds_at(Instr::I32Const { value: 65535 }));
            lemma_any_before_end(f, f.holds_at(Instr::I32Const { value: 255 }));
            lemma_any_before_end(f, f.holds_at(Instr::I32Const { value: 24 }));
            lemma_any_before_end(f, f.holds_at(Instr::Binop { op: BinaryOp::I32ShrS }));
            lemma_any_before_end(f, f.holds_at(Instr::Binop { op: BinaryOp::I32Shl }));
        }
        if !self.has_load {
            return None;
        }
        if self.has_left_shift && self.has_24_bits_shl {
            return Some(HelperKind::Signed8);
        }
        if self.has_right_shift_signed {
            if self.has_16_bits_mask {
                return Some(HelperKind::Signed16);
            } else if self.has_8_bits_mask {
                return Some(HelperKind::Signed8);
            }
        } else {
            if self.has_16_bits_mask {
                return Some(HelperKind::Unsigned16);
            } else if self.has_8_bits_mask {
                return Some(HelperKind::Unsigned8);
            }
        }
        Some(HelperKind::Signed32)
    }
}

/// The kind of the first store of a value helper's body, if any.
pub struct StoreMemoryFuncMapper {
    pub store_kind: Option<StoreKind>,
}

/// The kind of the first store among `instrs`.
pub open spec fn first_store_in(instrs: Seq<Instr>) -> Option<StoreKind>
    decreases instrs.len(),
{
    if instrs.len() == 0 {
        None
    } else {
        match instrs[0] {
            Instr::Store { kind, .. } => Some(kind),
            _ => first_store_in(instrs.drop_first()),
        }
    }
}

/// The first store of a concatenation is that of its first part, if any.
proof fn lemma_first_store_concat(a: Seq<Instr>, b: Seq<Instr>)
    ensures
        first_store_in(a + b) == if first_store_in(a) is Some {
            first_store_in(a)
        } else {
            first_store_in(b)
        },
    decreases a.len(),
{
    if a.len() == 0 {
        assert(a + b =~= b);
    } else {
        assert((a + b).drop_first() =~= a.drop_first() + b);
        assert((a + b)[0] == a[0]);
        lemma_first_store_concat(a.drop_first(), b);
    }
}

/// The kind of the first store that a depth-first walk of `f` meets.
pub open spec fn first_store(f: LocalFunction) -> Option<StoreKind> {
    first_store_in(body_walk(f))
}

/// The kind of store helper that a store of kind `kind` stands for.
pub open spec fn store_decision(kind: Option<StoreKind>) -> Result<
    Option<HelperKind>,
    DeobfuscateError,
> {
    match kind {
        None => Ok(None),
        Some(StoreKind::I32_8 { .. }) => Ok(Some(HelperKind::Signed8)),
        Some(StoreKind::I32_16 { .. }) => Ok(Some(HelperKind::Signed16)),
        Some(StoreKind::I32 { .. }) => Ok(Some(HelperKind::Signed32)),
        Some(StoreKind::I64 { .. }) => Ok(Some(HelperKind::Signed64)),
        Some(_) => Err(DeobfuscateError::UnsupportedStoreKind),
    }
}

impl StoreMemoryFuncMapper {
    pub fn new() -> (r: Self)
        ensures
            r.store_kind is None,
    {
        StoreMemoryFuncMapper { store_kind: None }
    }

    /// Records the first store of `local`, unless one was recorded before,
    /// and classifies the helper by it: `None` where no store was seen, an
    /// error where the store's width is not that of any helper kind.
    pub fn map(&mut self, local: &LocalFunction) -> (r: Result<Option<HelperKind>, DeobfuscateError>)
        ensures
            final(self).store_kind == (if old(self).store_kind is Some {
                old(self).store_kind
            } else {
                first_store(*local)
            }),
            r == store_decision(final(self).store_kind),
    {
        let ghost f = *local;
        let found = first_store_kind(local);
        if self.store_kind.is_none() {
            self.store_kind = found;
        }
        match self.store_kind {
            None => Ok(None),
            Some(StoreKind::I32_8 { .. }) => Ok(Some(HelperKind::Signed8)),
            Some(StoreKind::I32_16 { .. }) => Ok(Some(HelperKind::Signed16)),
            Some(StoreKind::I32 { .. }) => Ok(Some(HelperKind::Signed32)),
            Some(StoreKind::I64 { .. }) => Ok(Some(HelperKind::Signed64)),
            Some(_) => Err(DeobfuscateError::UnsupportedStoreKind),
        }
    }
}

/// Finds the kind of the first store that a depth-first walk of sequence
/// `s` of `local` meets.
fn first_store_from(local: &LocalFunction, s: usize) -> (r: Option<StoreKind>)
    requires
        s < local.seqs@.len(),
    ensures
        r == first_store_in(walk_from(*local, s as int, 0)),
    decreases local.seqs@.len() - s,
{
    let ghost f = *local;
    let seq = &local.seqs[s];
    let mut k: usize = 0;
    while k < seq.len()
        invariant
            f == *local,
            s < f.seqs@.len(),
            *seq == f.seqs@[s as int],
            k <= seq@.len(),
            first_store_in(walk_from(f, s as int, k as int)) == first_store_in(walk_from(f, s as int, 0)),
        decreases seq@.len() - k,
    {
        let instr = seq[k].instr;
        let ghost rest = walk_from(f, s as int, k + 1);
        let ghost opened = opened_walk(f, s as int, instr);
        proof {
            lemma_walk_step(f, s as int, k as int);
            let all = seq![instr] + (opened + rest);
            assert(all.drop_first() =~= opened + rest);
            assert(all[0] == instr);
            lemma_first_store_concat(opened, rest);
        }
        if let Instr::Store { kind, .. } = instr {
            return Some(kind);
        }
        let found: Option<StoreKind> = match instr {
            Instr::Block { seq: c } => if s < c && c < local.seqs.len() {
                first_store_from(local, c)
            } else {
                None
            },
            Instr::Loop { seq: c } => if s < c && c < local.seqs.len() {
                first_store_from(local, c)
            } else {
                None
            },
            Instr::IfElse { consequent, alternative } => {
                let first = if s < consequent && consequent < local.seqs.len() {
                    first_store_from(local, consequent)
                } else {
                    None
                };
                let second = if s < alternative && alternative < local.seqs.len() {
                    first_store_from(local, alternative)
                } else {
                    None
                };
                proof {
                    let a = if enters(f, s as int, consequent as int) {
                        walk_from(f, consequent as int, 0)
                    } else {
                        Seq::empty()
                    };
                    let b = if enters(f, s as int, alternative as int) {
                        walk_from(f, alternative as int, 0)
                    } else {
                        Seq::empty()
                    };
                    assert(opened == a + b);
                    lemma_first_store_concat(a, b);
                }
                if first.is_some() {
                    first
                } else {
                    second
                }
            },
            _ => None,
        };
        if found.is_some() {
            return found;
        }
        k = k + 1;
    }
    proof {
        lemma_walk_end(f, s as int);
    }
    None
}

/// Finds the kind of the first store that a depth-first walk of `local` meets.
fn first_store_kind(local: &LocalFunction) -> (r: Option<StoreKind>)
    ensures
        r == first_store(*local),
{
    if local.seqs.len() == 0 {
        return None;
    }
    first_store_from(local, 0)
}

/// `f` is local, exported and of type `(i32, i32) -> T` for a single `T`.
pub open spec fn is_load_candidate(f: Function) -> bool {
    &&& f.local is Some
    &&& f.exported
    &&& f.params@.len() == 2
    &&& f.params@[0] == ValType::I32
    &&& f.params@[1] == ValType::I32
    &&& f.results@.len() == 1
}

/// `f` is local, exported and of type `(i32, V, i32) -> ()` for a `V` among
/// `i32`, `i64`, `f32` and `f64`.
pub open spec fn is_store_candidate(f: Function) -> bool {
    &&& f.local is Some
    &&& f.exported
    &&& f.params@.len() == 3
    &&& f.params@[0] == ValType::I32
    &&& f.params@[2] == ValType::I32
    &&& (f.params@[1] == ValType::I32 || f.params@[1] == ValType::I64 || f.params@[1]
        == ValType::F32 || f.params@[1] == ValType::F64)
    &&& f.results@.len() == 0
}

/// What kind of load helper `f` is: `None` where it is none.
pub open spec fn load_helper_kind(f: Function) -> Result<Option<HelperKind>, DeobfuscateError> {
    if !is_load_candidate(f) {
        Ok(None)
    } else {
        match f.results@[0] {
            ValType::I32 => Ok(LoadMemoryFuncMapper::empty().observed(f.local.unwrap()).decision()),
            ValType::I64 => Ok(Some(HelperKind::Signed64)),
            ValType::F32 => Ok(Some(HelperKind::Float32)),
            ValType::F64 => Ok(Some(HelperKind::Float64)),
            _ => Err(DeobfuscateError::UnsupportedHelperType),
        }
    }
}

/// What kind of store helper `f` is: `None` where it is none.
pub open spec fn store_helper_kind(f: Function) -> Result<Option<HelperKind>, DeobfuscateError> {
    if !is_store_candidate(f) {
        Ok(None)
    } else {
        match f.params@[1] {
            ValType::I64 => Ok(Some(HelperKind::Signed64)),
            ValType::F32 => Ok(Some(HelperKind::Float32)),
            ValType::F64 => Ok(Some(HelperKind::Float64)),
            _ => store_decision(first_store(f.local.unwrap())),
        }
    }
}

/// Tells whether `f` is a load candidate.
pub fn is_mem_load_candidate(f: &Function) -> (r: bool)
    ensures
        r == is_load_candidate(*f),
{
    f.local.is_some() && f.exported && f.params.len() == 2 && f.params[0] == ValType::I32
        && f.params[1] == ValType::I32 && f.results.len() == 1
}

/// Tells whether `f` is a store candidate.
pub fn is_mem_store_candidate(f: &Function) -> (r: bool)
    ensures
        r == is_store_candidate(*f),
{
    f.local.is_some() && f.exported && f.params.len() == 3 && f.params[0] == ValType::I32
        && f.params[2] == ValType::I32 && (f.params[1] == ValType::I32 || f.params[1]
        == ValType::I64 || f.params[1] == ValType::F32 || f.params[1] == ValType::F64)
        && f.results.len() == 0
}

/// Classifies `f` as a load helper.
pub fn classify_load_function(f: &Function) -> (r: Result<Option<HelperKind>, DeobfuscateError>)
    ensures
        r == load_helper_kind(*f),
{
    if !is_mem_load_candidate(f) {
        return Ok(None);
    }
    match &f.local {
        Some(local) => match f.results[0] {
            ValType::I32 => {
                let mut mapper = LoadMemoryFuncMapper::new();
                Ok(mapper.map(local))
            },
            ValType::I64 => Ok(Some(HelperKind::Signed64)),
            ValType::F32 => Ok(Some(HelperKind::Float32)),
            ValType::F64 => Ok(Some(HelperKind::Float64)),
            _ => Err(DeobfuscateError::UnsupportedHelperType),
        },
        None => Ok(None),
    }
}

/// Classifies `f` as a store helper.
pub fn classify_store_function(f: &Function) -> (r: Result<Option<HelperKind>, DeobfuscateError>)
    ensures
        r == store_helper_kind(*f),
{
    if !is_mem_store_candidate(f) {
        return Ok(None);
    }
    match &f.local {
        Some(local) => match f.params[1] {
            ValType::I64 => Ok(Some(HelperKind::Signed64)),
            ValType::F32 => Ok(Some(HelperKind::Float32)),
            ValType::F64 => Ok(Some(HelperKind::Float64)),
            _ => {
                let mut mapper = StoreMemoryFuncMapper::new();
                mapper.map(local)
            },
        },
        None => Ok(None),
    }
}

/// Classification is a function of the function alone: equal functions are
/// classified alike, as load helpers and as store helpers, on every run.
pub proof fn lemma_classification_deterministic(f: Function, g: Function)
    requires
        f == g,
    ensures
        load_helper_kind(f) == load_helper_kind(g),
        store_helper_kind(f) == store_helper_kind(g),
{
}

} // verus!
