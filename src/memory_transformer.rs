//! The memory pass: classify the helpers, decrypt the payload, and replace
//! indirect accesses by direct ones.
use vstd::prelude::*;
use crate::helpers::{
    classify_load_function, classify_store_function, is_load_candidate, is_mem_load_candidate,
    is_mem_store_candidate, is_store_candidate, load_helper_kind, store_helper_kind, HelperKind,
};
use crate::memory_encryption::{
    encryption_mode, map_memory_encryption_mode, plain_start, xor_decryption,
    MemoryEncryptionMode,
};
use crate::model::{address_of, ConstExpr, DataKind, DataSegment, DeobfuscateError, Function, WasmModule};
use crate::rewrite::{
    body_replaced, calls_replaced, helper_arity, helper_body, kind_at, revert_functions,
    revert_seq, rewrite_helper_bodies,
};

verus! {

/// A pass over a whole module.
pub trait Transformer {
    /// The pass turns `before` into `after` with outcome `r`.
    spec fn transforms(&self, before: WasmModule, after: WasmModule, r: Result<(), DeobfuscateError>) -> bool;

    fn transform(&mut self, module: &mut WasmModule) -> (r: Result<(), DeobfuscateError>)
        requires
            old(module).wf(),
        ensures
            old(self).transforms(*old(module), *final(module), r),
    ;
}

/// The pass that undoes the memory obfuscation.
pub struct MemoryTransformer {}

/// The load helper classification of every function, or the error of a
/// candidate whose result type no helper kind has.
pub open spec fn load_map(funcs: Seq<Function>) -> Result<Seq<Option<HelperKind>>, DeobfuscateError> {
    if exists|i: int| 0 <= i < funcs.len() && (#[trigger] load_helper_kind(funcs[i])) is Err {
        Err(DeobfuscateError::UnsupportedHelperType)
    } else {
        Ok(Seq::new(funcs.len(), |i: int| load_helper_kind(funcs[i])->Ok_0))
    }
}

/// The store helper classification of every function, or the error of a
/// candidate whose store has a width that no helper kind has.
pub open spec fn store_map(funcs: Seq<Function>) -> Result<Seq<Option<HelperKind>>, DeobfuscateError> {
    if exists|i: int| 0 <= i < funcs.len() && (#[trigger] store_helper_kind(funcs[i])) is Err {
        Err(DeobfuscateError::UnsupportedStoreKind)
    } else {
        Ok(Seq::new(funcs.len(), |i: int| store_helper_kind(funcs[i])->Ok_0))
    }
}

/// The address and the bytes of the payload, the second data segment.
pub open spec fn payload(m: WasmModule) -> Result<(int, Seq<u8>), DeobfuscateError> {
    if m.data@.len() < 2 {
        Err(DeobfuscateError::MissingDataSegment)
    } else {
        match m.data@[1].kind {
            DataKind::Active { offset: ConstExpr::I32 { value }, .. } => Ok(
                (address_of(value) as int, m.data@[1].value@),
            ),
            _ => Err(DeobfuscateError::DataOffsetNotConst),
        }
    }
}

/// What decrypting the payload `d`, placed at `data_start`, with `mode` gives.
pub open spec fn decryption(m: WasmModule, mode: MemoryEncryptionMode, data_start: int, d: Seq<u8>) -> Result<
    (int, Seq<u8>),
    DeobfuscateError,
> {
    match mode {
        MemoryEncryptionMode::Xor(enc) => xor_decryption(m, enc.xor_table_start as int, data_start, d),
        MemoryEncryptionMode::Chacha20 => Err(DeobfuscateError::UnsupportedEncryption),
    }
}

/// What the pass finds in `m`: the load map, the store map, the address of
/// the plaintext and the plaintext; or the first error met.
pub open spec fn memory_analysis(m: WasmModule) -> Result<
    (Seq<Option<HelperKind>>, Seq<Option<HelperKind>>, int, Seq<u8>),
    DeobfuscateError,
> {
    match load_map(m.funcs@) {
        Err(e) => Err(e),
        Ok(loads) => match store_map(m.funcs@) {
            Err(e) => Err(e),
            Ok(stores) => match encryption_mode(m, loads) {
                Err(e) => Err(e),
                Ok(mode) => match payload(m) {
                    Err(e) => Err(e),
                    Ok((data_start, d)) => match decryption(m, mode, data_start, d) {
                        Err(e) => Err(e),
                        Ok((start, plain)) => if m.memories == 0 {
                            Err(DeobfuscateError::MissingMemory)
                        } else {
                            Ok((loads, stores, start, plain))
                        },
                    },
                },
            },
        },
    }
}

/// `after` is function `i` of `before` once rewritten: a store helper gets
/// the minimal store body, a load helper the minimal load body, and every
/// other function has its helper calls replaced by direct accesses.
pub open spec fn function_rewritten(
    before: Function,
    after: Function,
    loads: Seq<Option<HelperKind>>,
    stores: Seq<Option<HelperKind>>,
    i: int,
) -> bool {
    &&& after.params == before.params
    &&& after.results == before.results
    &&& after.exported == before.exported
    &&& match before.local {
        None => after.local is None,
        Some(b) => after.local matches Some(a) && a.args == b.args && if kind_at(stores, i) is Some
            && b.args@.len() >= helper_arity(true) {
            a.seqs@.len() == 1 && a.seqs@[0]@ == helper_body(b.args@, kind_at(stores, i).unwrap(), true)
        } else if kind_at(loads, i) is Some && b.args@.len() >= helper_arity(false) {
            a.seqs@.len() == 1 && a.seqs@[0]@ == helper_body(b.args@, kind_at(loads, i).unwrap(), false)
        } else {
            a.seqs@.len() == b.seqs@.len() && forall|s: int|
                0 <= s < b.seqs@.len() ==> #[trigger] a.seqs@[s]@ == revert_seq(b.seqs@[s]@, loads, stores)
        },
    }
}

/// `after` is `before` deobfuscated with the given analysis: the payload
/// holds the plaintext at its address in the first memory, and every
/// function is rewritten.
pub open spec fn deobfuscated(
    before: WasmModule,
    after: WasmModule,
    loads: Seq<Option<HelperKind>>,
    stores: Seq<Option<HelperKind>>,
    start: int,
    plain: Seq<u8>,
) -> bool {
    &&& after.globals == before.globals
    &&& after.memories == before.memories
    &&& after.data@.len() == before.data@.len()
    &&& forall|j: int| 0 <= j < before.data@.len() && j != 1 ==> #[trigger] after.data@[j] == before.data@[j]
    &&& after.data@[1].kind == DataKind::Active { memory: 0, offset: ConstExpr::I32 { value: start as i32 } }
    &&& after.data@[1].value@ == plain
    &&& after.funcs@.len() == before.funcs@.len()
    &&& forall|i: int|
        0 <= i < before.funcs@.len() ==> function_rewritten(
            #[trigger] before.funcs@[i],
            after.funcs@[i],
            loads,
            stores,
            i,
        )
}

/// The memory pass turns `before` into `after` with outcome `r`: on an error
/// nothing changes.
pub open spec fn memory_transform(before: WasmModule, after: WasmModule, r: Result<(), DeobfuscateError>) -> bool {
    match memory_analysis(before) {
        Err(e) => r == Err::<(), DeobfuscateError>(e) && after == before,
        Ok((loads, stores, start, plain)) => r is Ok && deobfuscated(before, after, loads, stores, start, plain),
    }
}

impl MemoryTransformer {
    /// The ids of the load candidates, in increasing order.
    pub fn find_mem_load_functions(&self, module: &WasmModule) -> (r: Vec<usize>)
        ensures
            forall|d: int| 0 <= d < r@.len() ==> #[trigger] r@[d] < module.funcs@.len() && is_load_candidate(module.funcs@[r@[d] as int]),
            forall|d1: int, d2: int| 0 <= d1 < d2 < r@.len() ==> r@[d1] < r@[d2],
            forall|i: int| 0 <= i < module.funcs@.len() && is_load_candidate(#[trigger] module.funcs@[i]) ==> exists|d: int| 0 <= d < r@.len() && r@[d] == i,
    {
        let mut functions: Vec<usize> = Vec::new();
        let mut i: usize = 0;
        while i < module.funcs.len()
            invariant
                i <= module.funcs@.len(),
                forall|d: int| 0 <= d < functions@.len() ==> #[trigger] functions@[d] < i && is_load_candidate(module.funcs@[functions@[d] as int]),
                forall|d1: int, d2: int| 0 <= d1 < d2 < functions@.len() ==> functions@[d1] < functions@[d2],
                forall|j: int| 0 <= j < i && is_load_candidate(#[trigger] module.funcs@[j]) ==> exists|d: int| 0 <= d < functions@.len() && functions@[d] == j,
            decreases module.funcs@.len() - i,
        {
            let ghost prev = functions@;
            if is_mem_load_candidate(&module.funcs[i]) {
                functions.push(i);
            }
            proof {
                assert forall|j: int|
                    0 <= j < i + 1 && is_load_candidate(#[trigger] module.funcs@[j]) implies exists|d: int|
                    0 <= d < functions@.len() && functions@[d] == j by {
                    if j < i {
                        let d = choose|d: int| 0 <= d < prev.len() && prev[d] == j;
                        assert(functions@[d] == prev[d]);
                    } else {
                        assert(functions@[functions@.len() - 1] == i);
                    }
                }
            }
            i = i + 1;
        }
        functions
    }

    /// The ids of the store candidates, in increasing order.
    pub fn find_mem_store_functions(&self, module: &WasmModule) -> (r: Vec<usize>)
        ensures
            forall|d: int| 0 <= d < r@.len() ==> #[trigger] r@[d] < module.funcs@.len() && is_store_candidate(module.funcs@[r@[d] as int]),
            forall|d1: int, d2: int| 0 <= d1 < d2 < r@.len() ==> r@[d1] < r@[d2],
            forall|i: int| 0 <= i < module.funcs@.len() && is_store_candidate(#[trigger] module.funcs@[i]) ==> exists|d: int| 0 <= d < r@.len() && r@[d] == i,
    {
        let mut functions: Vec<usize> = Vec::new();
        let mut i: usize = 0;
        while i < module.funcs.len()
            invariant
                i <= module.funcs@.len(),
                forall|d: int| 0 <= d < functions@.len() ==> #[trigger] functions@[d] < i && is_store_candidate(module.funcs@[functions@[d] as int]),
                forall|d1: int, d2: int| 0 <= d1 < d2 < functions@.len() ==> functions@[d1] < functions@[d2],
                forall|j: int| 0 <= j < i && is_store_candidate(#[trigger] module.funcs@[j]) ==> exists|d: int| 0 <= d < functions@.len() && functions@[d] == j,
            decreases module.funcs@.len() - i,
        {
            let ghost prev = functions@;
            if is_mem_store_candidate(&module.funcs[i]) {
                functions.push(i);
            }
            proof {
                assert forall|j: int|
                    0 <= j < i + 1 && is_store_candidate(#[trigger] module.funcs@[j]) implies exists|d: int|
                    0 <= d < functions@.len() && functions@[d] == j by {
                    if j < i {
                        let d = choose|d: int| 0 <= d < prev.len() && prev[d] == j;
                        assert(functions@[d] == prev[d]);
                    } else {
                        assert(functions@[functions@.len() - 1] == i);
                    }
                }
            }
            i = i + 1;
        }
        functions
    }

    /// Classifies every function as a load helper or not.
    pub fn map_load_functions(&self, module: &WasmModule) -> (r: Result<Vec<Option<HelperKind>>, DeobfuscateError>)
        ensures
            match load_map(module.funcs@) {
                Ok(map) => r matches Ok(v) && v@ == map,
                Err(e) => r == Err::<Vec<Option<HelperKind>>, DeobfuscateError>(e),
            },
    {
        let candidates = self.find_mem_load_functions(module);
        let mut mapped: Vec<Option<HelperKind>> = Vec::new();
        let mut c: usize = 0;
        let mut i: usize = 0;
        while i < module.funcs.len()
            invariant
                i <= module.funcs@.len(),
                c <= candidates@.len(),
                mapped@.len() == i,
                forall|d: int| 0 <= d < candidates@.len() ==> #[trigger] candidates@[d] < module.funcs@.len() && is_load_candidate(module.funcs@[candidates@[d] as int]),
                forall|d1: int, d2: int| 0 <= d1 < d2 < candidates@.len() ==> candidates@[d1] < candidates@[d2],
                forall|j: int| 0 <= j < module.funcs@.len() && is_load_candidate(#[trigger] module.funcs@[j]) ==> exists|d: int| 0 <= d < candidates@.len() && candidates@[d] == j,
                forall|d: int| 0 <= d < c ==> #[trigger] candidates@[d] < i,
                forall|d: int| c <= d < candidates@.len() ==> #[trigger] candidates@[d] >= i,
                forall|j: int| 0 <= j < i ==> #[trigger] load_helper_kind(module.funcs@[j]) == Ok::<Option<HelperKind>, DeobfuscateError>(mapped@[j]),
            decreases module.funcs@.len() - i,
        {
            if c < candidates.len() && candidates[c] == i {
                match classify_load_function(&module.funcs[i]) {
                    Ok(kind) => {
                        mapped.push(kind);
                    },
                    Err(e) => {
                        proof {
                            assert(load_helper_kind(module.funcs@[i as int]) is Err);
                        }
                        return Err(e);
                    },
                }
                c = c + 1;
            } else {
                proof {
                    if is_load_candidate(module.funcs@[i as int]) {
                        let d = choose|d: int| 0 <= d < candidates@.len() && candidates@[d] == i;
                        if d < c {
                            assert(candidates@[d] < i);
                        } else if d > c {
                            assert(candidates@[c as int] < candidates@[d]);
                        }
                    }
                    if c < candidates@.len() {
                        assert(candidates@[c as int] != i);
                    }
                }
                mapped.push(None);
            }
            proof {
                assert forall|d: int| c <= d < candidates@.len() implies #[trigger] candidates@[d] >= i + 1 by {
                    if d > c && c < candidates@.len() {
                        assert(candidates@[c as int] < candidates@[d]);
                    }
                    if c > 0 && d >= c {
                        assert(candidates@[c - 1] < candidates@[d]);
                    }
                }
            }
            i = i + 1;
        }
        proof {
            assert(mapped@ =~= Seq::new(module.funcs@.len(), |j: int| load_helper_kind(module.funcs@[j])->Ok_0));
        }
        Ok(mapped)
    }

    /// Classifies every function as a store helper or not.
    pub fn map_store_functions(&self, module: &WasmModule) -> (r: Result<Vec<Option<HelperKind>>, DeobfuscateError>)
        ensures
            match store_map(module.funcs@) {
                Ok(map) => r matches Ok(v) && v@ == map,
                Err(e) => r == Err::<Vec<Option<HelperKind>>, DeobfuscateError>(e),
            },
    {
        let candidates = self.find_mem_store_functions(module);
        let mut mapped: Vec<Option<HelperKind>> = Vec::new();
        let mut c: usize = 0;
        let mut i: usize = 0;
        while i < module.funcs.len()
            invariant
                i <= module.funcs@.len(),
                c <= candidates@.len(),
                mapped@.len() == i,
                forall|d: int| 0 <= d < candidates@.len() ==> #[trigger] candidates@[d] < module.funcs@.len() && is_store_candidate(module.funcs@[candidates@[d] as int]),
                forall|d1: int, d2: int| 0 <= d1 < d2 < candidates@.len() ==> candidates@[d1] < candidates@[d2],
                forall|j: int| 0 <= j < module.funcs@.len() && is_store_candidate(#[trigger] module.funcs@[j]) ==> exists|d: int| 0 <= d < candidates@.len() && candidates@[d] == j,
                forall|d: int| 0 <= d < c ==> #[trigger] candidates@[d] < i,
                forall|d: int| c <= d < candidates@.len() ==> #[trigger] candidates@[d] >= i,
                forall|j: int| 0 <= j < i ==> #[trigger] store_helper_kind(module.funcs@[j]) == Ok::<Option<HelperKind>, DeobfuscateError>(mapped@[j]),
            decreases module.funcs@.len() - i,
        {
            if c < candidates.len() && candidates[c] == i {
                match classify_store_function(&module.funcs[i]) {
                    Ok(kind) => {
                        mapped.push(kind);
                    },
                    Err(e) => {
                        proof {
                            assert(store_helper_kind(module.funcs@[i as int]) is Err);
                        }
                        return Err(e);
                    },
                }
                c = c + 1;
            } else {
                proof {
                    if is_store_candidate(module.funcs@[i as int]) {
                        let d = choose|d: int| 0 <= d < candidates@.len() && candidates@[d] == i;
                        if d < c {
                            assert(candidates@[d] < i);
                        } else if d > c {
                            assert(candidates@[c as int] < candidates@[d]);
                        }
                    }
                    if c < candidates@.len() {
                        assert(candidates@[c as int] != i);
                    }
                }
                mapped.push(None);
            }
            proof {
                assert forall|d: int| c <= d < candidates@.len() implies #[trigger] candidates@[d] >= i + 1 by {
                    if d > c && c < candidates@.len() {
                        assert(candidates@[c as int] < candidates@[d]);
                    }
                    if c > 0 && d >= c {
                        assert(candidates@[c - 1] < candidates@[d]);
                    }
                }
            }
            i = i + 1;
        }
        proof {
            assert(mapped@ =~= Seq::new(module.funcs@.len(), |j: int| store_helper_kind(module.funcs@[j])->Ok_0));
        }
        Ok(mapped)
    }

    /// Replaces every call of a load helper after a constant by a direct load.
    pub fn revert_memory_loads(&self, module: &mut WasmModule, functions: &Vec<Option<HelperKind>>)
        ensures
            final(module).data == old(module).data,
            final(module).globals == old(module).globals,
            final(module).memories == old(module).memories,
            final(module).funcs@.len() == old(module).funcs@.len(),
            forall|i: int|
                0 <= i < old(module).funcs@.len() ==> calls_replaced(
                    #[trigger] old(module).funcs@[i],
                    final(module).funcs@[i],
                    functions@,
                    false,
                ),
    {
        revert_functions(&mut module.funcs, functions, false);
    }

    /// Replaces every call of a store helper after a constant by a direct store.
    pub fn revert_memory_stores(&self, module: &mut WasmModule, functions: &Vec<Option<HelperKind>>)
        ensures
            final(module).data == old(module).data,
            final(module).globals == old(module).globals,
            final(module).memories == old(module).memories,
            final(module).funcs@.len() == old(module).funcs@.len(),
            forall|i: int|
                0 <= i < old(module).funcs@.len() ==> calls_replaced(
                    #[trigger] old(module).funcs@[i],
                    final(module).funcs@[i],
                    functions@,
                    true,
                ),
    {
        revert_functions(&mut module.funcs, functions, true);
    }

    /// Gives every load helper the minimal body of a direct load.
    pub fn rewrite_loads(&self, module: &mut WasmModule, functions: &Vec<Option<HelperKind>>)
        ensures
            final(module).data == old(module).data,
            final(module).globals == old(module).globals,
            final(module).memories == old(module).memories,
            final(module).funcs@.len() == old(module).funcs@.len(),
            forall|i: int|
                0 <= i < old(module).funcs@.len() ==> body_replaced(
                    #[trigger] old(module).funcs@[i],
                    final(module).funcs@[i],
                    kind_at(functions@, i),
                    false,
                ),
    {
        rewrite_helper_bodies(&mut module.funcs, functions, false);
    }

    /// Gives every store helper the minimal body of a direct store.
    pub fn rewrite_stores(&self, module: &mut WasmModule, functions: &Vec<Option<HelperKind>>)
        ensures
            final(module).data == old(module).data,
            final(module).globals == old(module).globals,
            final(module).memories == old(module).memories,
            final(module).funcs@.len() == old(module).funcs@.len(),
            forall|i: int|
                0 <= i < old(module).funcs@.len() ==> body_replaced(
                    #[trigger] old(module).funcs@[i],
                    final(module).funcs@[i],
                    kind_at(functions@, i),
                    true,
                ),
    {
        rewrite_helper_bodies(&mut module.funcs, functions, true);
    }
}

impl Transformer for MemoryTransformer {
    open spec fn transforms(&self, before: WasmModule, after: WasmModule, r: Result<(), DeobfuscateError>) -> bool {
        memory_transform(before, after, r)
    }

    /// Classifies the helpers, decrypts the payload in place, and replaces
    /// every helper call and every helper body by direct memory accesses.
    fn transform(&mut self, module: &mut WasmModule) -> (r: Result<(), DeobfuscateError>) {
        let ghost m0 = *module;
        let mapped_load_functions = match self.map_load_functions(module) {
            Ok(m) => m,
            Err(e) => {
                return Err(e);
            },
        };
        let mapped_store_functions = match self.map_store_functions(module) {
            Ok(m) => m,
            Err(e) => {
                return Err(e);
            },
        };
        let memory_encryption_mode = match map_memory_encryption_mode(module, &mapped_load_functions) {
            Ok(mode) => mode,
            Err(e) => {
                return Err(e);
            },
        };
        if module.data.len() < 2 {
            return Err(DeobfuscateError::MissingDataSegment);
        }
        let data_start: usize = match module.data[1].kind {
            DataKind::Active { offset: ConstExpr::I32 { value }, .. } => (#[verifier::truncate] (value as u32)) as usize,
            _ => {
                return Err(DeobfuscateError::DataOffsetNotConst);
            },
        };
        let (start_pos, new_data) = match memory_encryption_mode.decrypt(module, data_start, &module.data[1].value) {
            Ok(res) => res,
            Err(e) => {
                return Err(e);
            },
        };
        if module.memories == 0 {
            return Err(DeobfuscateError::MissingMemory);
        }
        module.data[1] = DataSegment {
            kind: DataKind::Active {
                memory: 0,
                offset: ConstExpr::I32 { value: #[verifier::truncate] (start_pos as i32) },
            },
            value: new_data,
        };
        let ghost m1 = *module;
        self.revert_memory_loads(module, &mapped_load_functions);
        let ghost m2 = *module;
        self.revert_memory_stores(module, &mapped_store_functions);
        let ghost m3 = *module;
        self.rewrite_loads(module, &mapped_load_functions);
        let ghost m4 = *module;
        self.rewrite_stores(module, &mapped_store_functions);
        proof {
            let loads = mapped_load_functions@;
            let stores = mapped_store_functions@;
            assert forall|i: int| 0 <= i < m0.funcs@.len() implies function_rewritten(
                #[trigger] m0.funcs@[i],
                module.funcs@[i],
                loads,
                stores,
                i,
            ) by {
                assert(m1.funcs@[i] == m0.funcs@[i]);
                assert(calls_replaced(m1.funcs@[i], m2.funcs@[i], loads, false));
                assert(calls_replaced(m2.funcs@[i], m3.funcs@[i], stores, true));
                assert(body_replaced(m3.funcs@[i], m4.funcs@[i], kind_at(loads, i), false));
                assert(body_replaced(m4.funcs@[i], module.funcs@[i], kind_at(stores, i), true));
                match m0.funcs@[i].local {
                    Some(b) => {
                        let l2 = m2.funcs@[i].local.unwrap();
                        let l3 = m3.funcs@[i].local.unwrap();
                        assert forall|s: int| 0 <= s < b.seqs@.len() implies #[trigger] l3.seqs@[s]@ == revert_seq(
                            b.seqs@[s]@,
                            loads,
                            stores,
                        ) by {
                            assert(l2.seqs@[s]@ == crate::rewrite::rewrite_seq(b.seqs@[s]@, loads, false));
                        }
                    },
                    None => {},
                }
            }
        }
        Ok(())
    }
}

/// No function is classified both as a load helper and as a store helper:
/// a load helper returns one value and a store helper none.
pub proof fn lemma_helper_maps_disjoint(funcs: Seq<Function>)
    requires
        load_map(funcs) is Ok,
        store_map(funcs) is Ok,
    ensures
        forall|i: int|
            0 <= i < funcs.len() ==> !((#[trigger] load_map(funcs)->Ok_0[i]) is Some && store_map(
                funcs,
            )->Ok_0[i] is Some),
{
    assert forall|i: int| 0 <= i < funcs.len() implies !((#[trigger] load_map(funcs)->Ok_0[i]) is Some
        && store_map(funcs)->Ok_0[i] is Some) by {
        assert(load_helper_kind(funcs[i]) is Ok);
        assert(store_helper_kind(funcs[i]) is Ok);
    }
}

/// The payload keeps its length through the pass.
pub proof fn lemma_payload_length_kept(before: WasmModule, after: WasmModule, r: Result<(), DeobfuscateError>)
    requires
        memory_transform(before, after, r),
        r is Ok,
    ensures
        before.data@.len() >= 2,
        after.data@.len() == before.data@.len(),
        after.data@[1].value@.len() == before.data@[1].value@.len(),
{
}

/// The plaintext lies below the payload by a header of 320 + 23 bytes and
/// eight bytes for every 320 bytes of the payload's address.
pub proof fn lemma_payload_offset(before: WasmModule, after: WasmModule, r: Result<(), DeobfuscateError>)
    requires
        memory_transform(before, after, r),
        r is Ok,
    ensures
        ({
            let data_start = payload(before)->Ok_0.0;
            let start = memory_analysis(before)->Ok_0.2;
            &&& 0 <= start
            &&& start + (data_start / 320) * 8 + 320 + 23 == data_start
            &&& after.data@[1].kind == DataKind::Active {
                memory: 0,
                offset: ConstExpr::I32 { value: start as i32 },
            }
        }),
{
}

/// The shape of a minimal helper body of `n` instructions: two local reads,
/// an addition, and a return last.
pub open spec fn has_helper_shape(body: Seq<crate::model::Slot>, n: int) -> bool {
    &&& body.len() == n
    &&& body[0].instr is LocalGet
    &&& body[1].instr is LocalGet
    &&& body[2].instr == crate::model::Instr::Binop { op: crate::model::BinaryOp::I32Add }
    &&& body[n - 1].instr == crate::model::Instr::Return
}

/// `f` has a single sequence of `n` instructions of the minimal helper shape.
pub open spec fn has_helper_body(f: Function, n: int) -> bool {
    f.local matches Some(l) && l.seqs@.len() == 1 && has_helper_shape(l.seqs@[0]@, n)
}

/// After the pass every load helper has a body of five instructions and
/// every store helper one of six, of the minimal helper shape.
pub proof fn lemma_helper_body_shape(before: WasmModule, after: WasmModule, r: Result<(), DeobfuscateError>)
    requires
        before.wf(),
        memory_transform(before, after, r),
        r is Ok,
    ensures
        ({
            let (loads, stores, _, _) = memory_analysis(before)->Ok_0;
            &&& forall|i: int|
                0 <= i < before.funcs@.len() && (#[trigger] loads[i]) is Some ==> has_helper_body(after.funcs@[i], 5)
            &&& forall|i: int|
                0 <= i < before.funcs@.len() && (#[trigger] stores[i]) is Some ==> has_helper_body(after.funcs@[i], 6)
        }),
{
    let (loads, stores, _, _) = memory_analysis(before)->Ok_0;
    assert forall|i: int|
        0 <= i < before.funcs@.len() && (#[trigger] loads[i]) is Some implies has_helper_body(after.funcs@[i], 5) by {
        let f = before.funcs@[i];
        assert(load_helper_kind(f) is Ok);
        assert(store_helper_kind(f) is Ok);
        assert(f.wf());
        assert(function_rewritten(f, after.funcs@[i], loads, stores, i));
    }
    assert forall|i: int|
        0 <= i < before.funcs@.len() && (#[trigger] stores[i]) is Some implies has_helper_body(after.funcs@[i], 6) by {
        let f = before.funcs@[i];
        assert(store_helper_kind(f) is Ok);
        assert(f.wf());
        assert(function_rewritten(f, after.funcs@[i], loads, stores, i));
    }
}

/// Running the call-site pass, loads then stores, a second time over a
/// function changes none of its sequences.
pub proof fn lemma_call_pass_idempotent(
    f0: Function,
    f1: Function,
    f2: Function,
    f3: Function,
    f4: Function,
    loads: Seq<Option<HelperKind>>,
    stores: Seq<Option<HelperKind>>,
)
    requires
        calls_replaced(f0, f1, loads, false),
        calls_replaced(f1, f2, stores, true),
        calls_replaced(f2, f3, loads, false),
        calls_replaced(f3, f4, stores, true),
    ensures
        f4.local is Some <==> f2.local is Some,
        f2.local is Some ==> f4.local.unwrap().seqs@.len() == f2.local.unwrap().seqs@.len(),
        f2.local is Some ==> forall|s: int|
            0 <= s < f2.local.unwrap().seqs@.len() ==> #[trigger] f4.local.unwrap().seqs@[s]@
                == f2.local.unwrap().seqs@[s]@,
{
    if f0.local is Some {
        let l0 = f0.local.unwrap();
        let l1 = f1.local.unwrap();
        let l2 = f2.local.unwrap();
        let l3 = f3.local.unwrap();
        let l4 = f4.local.unwrap();
        assert forall|s: int| 0 <= s < l2.seqs@.len() implies #[trigger] l4.seqs@[s]@ == l2.seqs@[s]@ by {
            assert(l1.seqs@[s]@ == crate::rewrite::rewrite_seq(l0.seqs@[s]@, loads, false));
            assert(l2.seqs@[s]@ == crate::rewrite::rewrite_seq(l1.seqs@[s]@, stores, true));
            assert(l3.seqs@[s]@ == crate::rewrite::rewrite_seq(l2.seqs@[s]@, loads, false));
            crate::rewrite::lemma_revert_idempotent(l0.seqs@[s]@, loads, stores);
        }
    }
}

} // verus!
