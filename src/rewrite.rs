//! Replacement of helper calls by direct memory accesses, and of helper
//! bodies by minimal direct accesses.
use vstd::prelude::*;
use crate::helpers::HelperKind;
use crate::model::{
    BinaryOp, ExtendedLoad, Function, Instr, LoadKind, LocalFunction, MemArg, Slot, StoreKind,
};

verus! {

/// The load that a load helper of kind `k` performs.
pub open spec fn load_kind_for(k: HelperKind) -> LoadKind {
    match k {
        HelperKind::Unsigned8 => LoadKind::I32_8 { kind: ExtendedLoad::ZeroExtend },
        HelperKind::Signed8 => LoadKind::I32_8 { kind: ExtendedLoad::SignExtend },
        HelperKind::Unsigned16 => LoadKind::I32_16 { kind: ExtendedLoad::ZeroExtend },
        HelperKind::Signed16 => LoadKind::I32_16 { kind: ExtendedLoad::SignExtend },
        HelperKind::Signed32 => LoadKind::I32 { atomic: false },
        HelperKind::Signed64 => LoadKind::I64 { atomic: false },
        HelperKind::Float32 => LoadKind::F32,
        HelperKind::Float64 => LoadKind::F64,
    }
}

/// The store that a store helper of kind `k` performs.
pub open spec fn store_kind_for(k: HelperKind) -> StoreKind {
    match k {
        HelperKind::Unsigned8 | HelperKind::Signed8 => StoreKind::I32_8 { atomic: false },
        HelperKind::Unsigned16 | HelperKind::Signed16 => StoreKind::I32_16 { atomic: false },
        HelperKind::Signed32 => StoreKind::I32 { atomic: false },
        HelperKind::Signed64 => StoreKind::I64 { atomic: false },
        HelperKind::Float32 => StoreKind::F32,
        HelperKind::Float64 => StoreKind::F64,
    }
}

/// The natural alignment of an access of kind `k`: its width in bytes.
pub open spec fn natural_align(k: HelperKind) -> u32 {
    match k {
        HelperKind::Unsigned8 | HelperKind::Signed8 => 1,
        HelperKind::Unsigned16 | HelperKind::Signed16 => 2,
        HelperKind::Signed32 | HelperKind::Float32 => 4,
        HelperKind::Signed64 | HelperKind::Float64 => 8,
    }
}

/// The direct access, on the first memory at offset `offset`, that a helper
/// of kind `k` stands for.
pub open spec fn direct_access(k: HelperKind, store: bool, offset: u32) -> Instr {
    let arg = MemArg { align: natural_align(k), offset };
    if store {
        Instr::Store { memory: 0, kind: store_kind_for(k), arg }
    } else {
        Instr::Load { memory: 0, kind: load_kind_for(k), arg }
    }
}

/// `a` pushes a constant and `b` calls a helper that `map` classifies.
pub open spec fn is_helper_call(map: Seq<Option<HelperKind>>, a: Slot, b: Slot) -> bool {
    &&& a.instr is I32Const
    &&& b.instr matches Instr::Call { func } && func < map.len() && map[func as int] is Some
}

/// The slot that replaces the helper call made by `a` and `b`; it keeps the
/// location of `a`.
pub open spec fn replacement(map: Seq<Option<HelperKind>>, store: bool, a: Slot, b: Slot) -> Slot {
    match (a.instr, b.instr) {
        (Instr::I32Const { value }, Instr::Call { func }) => Slot {
            instr: direct_access(map[func as int].unwrap(), store, value as u32),
            loc: a.loc,
        },
        _ => a,
    }
}

/// Sequence `s` with each helper call, a constant followed by a call of a
/// helper that `map` classifies, replaced by one direct access.
pub open spec fn rewrite_seq(s: Seq<Slot>, map: Seq<Option<HelperKind>>, store: bool) -> Seq<Slot>
    decreases s.len(),
{
    if s.len() == 0 {
        s
    } else if s.len() >= 2 && is_helper_call(map, s[0], s[1]) {
        seq![replacement(map, store, s[0], s[1])] + rewrite_seq(s.subrange(2, s.len() as int), map, store)
    } else {
        seq![s[0]] + rewrite_seq(s.subrange(1, s.len() as int), map, store)
    }
}

/// No two adjacent slots of `s` make a helper call.
pub open spec fn no_helper_calls(s: Seq<Slot>, map: Seq<Option<HelperKind>>) -> bool {
    forall|k: int| 0 <= k < s.len() - 1 ==> !#[trigger] is_helper_call(map, s[k], s[k + 1])
}

/// A slot that holds neither a constant nor a call.
pub open spec fn is_inert(a: Slot) -> bool {
    !(a.instr is I32Const) && !(a.instr is Call)
}

/// A rewritten sequence starts with the same slot, or with a direct access.
proof fn lemma_rewrite_head(s: Seq<Slot>, map: Seq<Option<HelperKind>>, store: bool)
    ensures
        rewrite_seq(s, map, store).len() == 0 <==> s.len() == 0,
        s.len() > 0 ==> rewrite_seq(s, map, store)[0] == s[0] || is_inert(
            rewrite_seq(s, map, store)[0],
        ),
{
}

/// Rewriting leaves no helper call of `map` behind, and makes none for any
/// other map where there was none.
proof fn lemma_rewrite_no_calls(
    s: Seq<Slot>,
    map: Seq<Option<HelperKind>>,
    store: bool,
    other: Seq<Option<HelperKind>>,
)
    ensures
        no_helper_calls(rewrite_seq(s, map, store), map),
        no_helper_calls(s, other) ==> no_helper_calls(rewrite_seq(s, map, store), other),
    decreases s.len(),
{
    if s.len() == 0 {
    } else if s.len() >= 2 && is_helper_call(map, s[0], s[1]) {
        let rest = s.subrange(2, s.len() as int);
        lemma_rewrite_no_calls(rest, map, store, other);
        let r = rewrite_seq(rest, map, store);
        let out = seq![replacement(map, store, s[0], s[1])] + r;
        assert(out == rewrite_seq(s, map, store));
        assert(is_inert(out[0]));
        assert forall|k: int| 0 <= k < out.len() - 1 implies !#[trigger] is_helper_call(map, out[k], out[k + 1]) by {
            if k > 0 {
                assert(out[k] == r[k - 1] && out[k + 1] == r[k]);
                let j = k - 1;
                assert(r[j + 1] == r[k]);
                assert(!is_helper_call(map, r[j], r[j + 1]));
            }
        }
        if no_helper_calls(s, other) {
            assert(no_helper_calls(rest, other)) by {
                assert forall|k: int| 0 <= k < rest.len() - 1 implies !#[trigger] is_helper_call(other, rest[k], rest[k + 1]) by {
                    assert(rest[k] == s[k + 2] && rest[k + 1] == s[k + 3]);
                    let j = k + 2;
                    assert(s[j + 1] == s[k + 3]);
                    assert(!is_helper_call(other, s[j], s[j + 1]));
                }
            }
            assert forall|k: int| 0 <= k < out.len() - 1 implies !#[trigger] is_helper_call(other, out[k], out[k + 1]) by {
                if k > 0 {
                    assert(out[k] == r[k - 1] && out[k + 1] == r[k]);
                    let j = k - 1;
                assert(r[j + 1] == r[k]);
                assert(!is_helper_call(other, r[j], r[j + 1]));
                }
            }
        }
    } else {
        let rest = s.subrange(1, s.len() as int);
        lemma_rewrite_no_calls(rest, map, store, other);
        lemma_rewrite_head(rest, map, store);
        let r = rewrite_seq(rest, map, store);
        let out = seq![s[0]] + r;
        assert(out == rewrite_seq(s, map, store));
        assert forall|k: int| 0 <= k < out.len() - 1 implies !#[trigger] is_helper_call(map, out[k], out[k + 1]) by {
            if k > 0 {
                assert(out[k] == r[k - 1] && out[k + 1] == r[k]);
                let j = k - 1;
                assert(r[j + 1] == r[k]);
                assert(!is_helper_call(map, r[j], r[j + 1]));
            } else {
                assert(out[1] == r[0]);
                assert(rest[0] == s[1]);
            }
        }
        if no_helper_calls(s, other) {
            assert(no_helper_calls(rest, other)) by {
                assert forall|k: int| 0 <= k < rest.len() - 1 implies !#[trigger] is_helper_call(other, rest[k], rest[k + 1]) by {
                    assert(rest[k] == s[k + 1] && rest[k + 1] == s[k + 2]);
                    let j = k + 1;
                    assert(s[j + 1] == s[k + 2]);
                    assert(!is_helper_call(other, s[j], s[j + 1]));
                }
            }
            assert forall|k: int| 0 <= k < out.len() - 1 implies !#[trigger] is_helper_call(other, out[k], out[k + 1]) by {
                if k > 0 {
                    assert(out[k] == r[k - 1] && out[k + 1] == r[k]);
                    let j = k - 1;
                assert(r[j + 1] == r[k]);
                assert(!is_helper_call(other, r[j], r[j + 1]));
                } else {
                    assert(out[1] == r[0]);
                    assert(rest[0] == s[1]);
                    if r[0] == s[1] {
                        assert(!is_helper_call(other, s[0], s[1]));
                    }
                }
            }
        }
    }
}

/// A sequence without helper calls is left as it is.
proof fn lemma_rewrite_unchanged(s: Seq<Slot>, map: Seq<Option<HelperKind>>, store: bool)
    requires
        no_helper_calls(s, map),
    ensures
        rewrite_seq(s, map, store) == s,
    decreases s.len(),
{
    if s.len() > 0 {
        let rest = s.subrange(1, s.len() as int);
        if s.len() >= 2 {
            let j: int = 0;
            assert(s[j + 1] == s[1]);
            assert(!is_helper_call(map, s[j], s[j + 1]));
        }
        assert(no_helper_calls(rest, map)) by {
            assert forall|k: int| 0 <= k < rest.len() - 1 implies !#[trigger] is_helper_call(map, rest[k], rest[k + 1]) by {
                assert(rest[k] == s[k + 1] && rest[k + 1] == s[k + 2]);
                let j = k + 1;
                assert(s[j + 1] == s[k + 2]);
                assert(!is_helper_call(map, s[j], s[j + 1]));
            }
        }
        lemma_rewrite_unchanged(rest, map, store);
        assert(seq![s[0]] + rest =~= s);
    }
}

/// The call-site pass over one sequence: first the load helpers' calls, then
/// the store helpers'.
pub open spec fn revert_seq(
    s: Seq<Slot>,
    loads: Seq<Option<HelperKind>>,
    stores: Seq<Option<HelperKind>>,
) -> Seq<Slot> {
    rewrite_seq(rewrite_seq(s, loads, false), stores, true)
}

/// Running the call-site pass a second time changes nothing: after the first
/// pass no constant is followed by a call of a load or store helper.
pub proof fn lemma_revert_idempotent(
    s: Seq<Slot>,
    loads: Seq<Option<HelperKind>>,
    stores: Seq<Option<HelperKind>>,
)
    ensures
        no_helper_calls(revert_seq(s, loads, stores), loads),
        no_helper_calls(revert_seq(s, loads, stores), stores),
        revert_seq(revert_seq(s, loads, stores), loads, stores) == revert_seq(s, loads, stores),
{
    let a = rewrite_seq(s, loads, false);
    let b = rewrite_seq(a, stores, true);
    lemma_rewrite_no_calls(s, loads, false, stores);
    lemma_rewrite_no_calls(a, stores, true, loads);
    lemma_rewrite_unchanged(b, loads, false);
    lemma_rewrite_unchanged(b, stores, true);
}

/// The direct access for `kind`.
fn make_access(kind: HelperKind, store: bool, offset: u32) -> (r: Instr)
    ensures
        r == direct_access(kind, store, offset),
{
    let align: u32 = match kind {
        HelperKind::Unsigned8 | HelperKind::Signed8 => 1,
        HelperKind::Unsigned16 | HelperKind::Signed16 => 2,
        HelperKind::Signed32 | HelperKind::Float32 => 4,
        HelperKind::Signed64 | HelperKind::Float64 => 8,
    };
    let arg = MemArg { align, offset };
    if store {
        let kind = match kind {
            HelperKind::Unsigned8 | HelperKind::Signed8 => StoreKind::I32_8 { atomic: false },
            HelperKind::Unsigned16 | HelperKind::Signed16 => StoreKind::I32_16 { atomic: false },
            HelperKind::Signed32 => StoreKind::I32 { atomic: false },
            HelperKind::Signed64 => StoreKind::I64 { atomic: false },
            HelperKind::Float32 => StoreKind::F32,
            HelperKind::Float64 => StoreKind::F64,
        };
        Instr::Store { memory: 0, kind, arg }
    } else {
        let kind = match kind {
            HelperKind::Unsigned8 => LoadKind::I32_8 { kind: ExtendedLoad::ZeroExtend },
            HelperKind::Signed8 => LoadKind::I32_8 { kind: ExtendedLoad::SignExtend },
            HelperKind::Unsigned16 => LoadKind::I32_16 { kind: ExtendedLoad::ZeroExtend },
            HelperKind::Signed16 => LoadKind::I32_16 { kind: ExtendedLoad::SignExtend },
            HelperKind::Signed32 => LoadKind::I32 { atomic: false },
            HelperKind::Signed64 => LoadKind::I64 { atomic: false },
            HelperKind::Float32 => LoadKind::F32,
            HelperKind::Float64 => LoadKind::F64,
        };
        Instr::Load { memory: 0, kind, arg }
    }
}

/// Sequence `seq` with the helper calls of `map` replaced.
pub fn rewrite_helper_calls(seq: &Vec<Slot>, map: &Vec<Option<HelperKind>>, store: bool) -> (r: Vec<
    Slot,
>)
    ensures
        r@ == rewrite_seq(seq@, map@, store),
{
    let mut out: Vec<Slot> = Vec::new();
    let mut k: usize = 0;
    proof {
        assert(seq@.subrange(0, seq@.len() as int) =~= seq@);
        assert(out@ + rewrite_seq(seq@, map@, store) =~= rewrite_seq(seq@, map@, store));
    }
    while k < seq.len()
        invariant
            k <= seq@.len(),
            out@ + rewrite_seq(seq@.subrange(k as int, seq@.len() as int), map@, store) == rewrite_seq(
                seq@,
                map@,
                store,
            ),
        decreases seq@.len() - k,
    {
        let ghost rest = seq@.subrange(k as int, seq@.len() as int);
        let a = seq[k];
        let mut replaced = false;
        if k + 1 < seq.len() {
            match (a.instr, seq[k + 1].instr) {
                (Instr::I32Const { value }, Instr::Call { func }) => {
                    if func < map.len() {
                        match map[func] {
                            Some(kind) => {
                                let instr = make_access(kind, store, #[verifier::truncate] (value as u32));
                                proof {
                                    assert(rest[0] == a && rest[1] == seq@[k + 1]);
                                    assert(rest.subrange(2, rest.len() as int) =~= seq@.subrange(
                                        k + 2,
                                        seq@.len() as int,
                                    ));
                                    assert(out@.push(Slot { instr, loc: a.loc }) + rewrite_seq(
                                        rest.subrange(2, rest.len() as int),
                                        map@,
                                        store,
                                    ) =~= out@ + rewrite_seq(rest, map@, store));
                                }
                                out.push(Slot { instr, loc: a.loc });
                                k = k + 2;
                                replaced = true;
                            },
                            None => {},
                        }
                    }
                },
                _ => {},
            }
        }
        if !replaced {
            proof {
                assert(rest[0] == a);
                if rest.len() >= 2 {
                    assert(rest[1] == seq@[k + 1]);
                }
                assert(rest.subrange(1, rest.len() as int) =~= seq@.subrange(k + 1, seq@.len() as int));
                assert(out@.push(a) + rewrite_seq(rest.subrange(1, rest.len() as int), map@, store)
                    =~= out@ + rewrite_seq(rest, map@, store));
            }
            out.push(a);
            k = k + 1;
        }
    }
    proof {
        assert(seq@.subrange(k as int, seq@.len() as int) =~= Seq::<Slot>::empty());
        assert(out@ + Seq::<Slot>::empty() =~= out@);
    }
    out
}

/// A new instruction; new instructions carry location 0.
pub open spec fn fresh(i: Instr) -> Slot {
    Slot { instr: i, loc: 0 }
}

/// The minimal body of a helper of kind `k` with argument locals `args`: the
/// address is the sum of the first argument and the last, and a store stores
/// the middle argument.
pub open spec fn helper_body(args: Seq<u32>, k: HelperKind, store: bool) -> Seq<Slot> {
    if store {
        seq![
            fresh(Instr::LocalGet { local: args[0] }),
            fresh(Instr::LocalGet { local: args[2] }),
            fresh(Instr::Binop { op: BinaryOp::I32Add }),
            fresh(Instr::LocalGet { local: args[1] }),
            fresh(direct_access(k, true, 0)),
            fresh(Instr::Return),
        ]
    } else {
        seq![
            fresh(Instr::LocalGet { local: args[0] }),
            fresh(Instr::LocalGet { local: args[1] }),
            fresh(Instr::Binop { op: BinaryOp::I32Add }),
            fresh(direct_access(k, false, 0)),
            fresh(Instr::Return),
        ]
    }
}

/// The number of argument locals that a helper body reads.
pub open spec fn helper_arity(store: bool) -> nat {
    if store {
        3
    } else {
        2
    }
}

/// What `map` says of function `i`.
pub open spec fn kind_at(map: Seq<Option<HelperKind>>, i: int) -> Option<HelperKind> {
    if 0 <= i < map.len() {
        map[i]
    } else {
        None
    }
}

/// `after` is `before` with the helper calls of `map` replaced in every
/// sequence of its body.
pub open spec fn calls_replaced(
    before: Function,
    after: Function,
    map: Seq<Option<HelperKind>>,
    store: bool,
) -> bool {
    &&& after.params == before.params
    &&& after.results == before.results
    &&& after.exported == before.exported
    &&& match before.local {
        None => after.local is None,
        Some(b) => after.local matches Some(a) && a.args == b.args && a.seqs@.len()
            == b.seqs@.len() && forall|s: int|
            0 <= s < b.seqs@.len() ==> #[trigger] a.seqs@[s]@ == rewrite_seq(b.seqs@[s]@, map, store),
    }
}

/// `after` is `before` with its body replaced by the minimal helper body
/// where `kind` classifies it and it has the argument locals for it.
pub open spec fn body_replaced(
    before: Function,
    after: Function,
    kind: Option<HelperKind>,
    store: bool,
) -> bool {
    &&& after.params == before.params
    &&& after.results == before.results
    &&& after.exported == before.exported
    &&& match before.local {
        None => after.local is None,
        Some(b) => after.local matches Some(a) && a.args == b.args && if kind is Some
            && b.args@.len() >= helper_arity(store) {
            a.seqs@.len() == 1 && a.seqs@[0]@ == helper_body(b.args@, kind.unwrap(), store)
        } else {
            a.seqs == b.seqs
        },
    }
}

/// Replaces the helper calls of `map` in every sequence of `local`.
fn revert_local(local: &mut LocalFunction, map: &Vec<Option<HelperKind>>, store: bool)
    ensures
        final(local).args == old(local).args,
        final(local).seqs@.len() == old(local).seqs@.len(),
        forall|s: int|
            0 <= s < old(local).seqs@.len() ==> #[trigger] final(local).seqs@[s]@ == rewrite_seq(
                old(local).seqs@[s]@,
                map@,
                store,
            ),
{
    let ghost before = *local;
    let mut s: usize = 0;
    while s < local.seqs.len()
        invariant
            local.args == before.args,
            local.seqs@.len() == before.seqs@.len(),
            s <= local.seqs@.len(),
            forall|t: int| 0 <= t < s ==> #[trigger] local.seqs@[t]@ == rewrite_seq(before.seqs@[t]@, map@, store),
            forall|t: int| s <= t < local.seqs@.len() ==> #[trigger] local.seqs@[t] == before.seqs@[t],
        decreases local.seqs@.len() - s,
    {
        let rewritten = rewrite_helper_calls(&local.seqs[s], map, store);
        local.seqs[s] = rewritten;
        s = s + 1;
    }
}

/// Replaces the helper calls of `map` in the body of every function.
pub fn revert_functions(funcs: &mut Vec<Function>, map: &Vec<Option<HelperKind>>, store: bool)
    ensures
        final(funcs)@.len() == old(funcs)@.len(),
        forall|i: int|
            0 <= i < old(funcs)@.len() ==> calls_replaced(
                #[trigger] old(funcs)@[i],
                final(funcs)@[i],
                map@,
                store,
            ),
{
    let ghost before = funcs@;
    let mut i: usize = 0;
    while i < funcs.len()
        invariant
            funcs@.len() == before.len(),
            i <= funcs@.len(),
            forall|j: int| 0 <= j < i ==> calls_replaced(#[trigger] before[j], funcs@[j], map@, store),
            forall|j: int| i <= j < funcs@.len() ==> #[trigger] funcs@[j] == before[j],
        decreases funcs@.len() - i,
    {
        let f = &mut funcs[i];
        match &mut f.local {
            Some(local) => {
                revert_local(local, map, store);
            },
            None => {},
        }
        i = i + 1;
    }
}

/// The minimal body of a helper of kind `kind`.
fn make_helper_body(args: &Vec<u32>, kind: HelperKind, store: bool) -> (r: Vec<Slot>)
    requires
        args@.len() >= helper_arity(store),
    ensures
        r@ == helper_body(args@, kind, store),
{
    let access = make_access(kind, store, 0);
    let mut body: Vec<Slot> = Vec::new();
    body.push(Slot { instr: Instr::LocalGet { local: args[0] }, loc: 0 });
    if store {
        body.push(Slot { instr: Instr::LocalGet { local: args[2] }, loc: 0 });
        body.push(Slot { instr: Instr::Binop { op: BinaryOp::I32Add }, loc: 0 });
        body.push(Slot { instr: Instr::LocalGet { local: args[1] }, loc: 0 });
    } else {
        body.push(Slot { instr: Instr::LocalGet { local: args[1] }, loc: 0 });
        body.push(Slot { instr: Instr::Binop { op: BinaryOp::I32Add }, loc: 0 });
    }
    body.push(Slot { instr: access, loc: 0 });
    body.push(Slot { instr: Instr::Return, loc: 0 });
    proof {
        assert(body@ =~= helper_body(args@, kind, store));
    }
    body
}

/// Replaces the body of every function that `map` classifies by the minimal
/// helper body.
pub fn rewrite_helper_bodies(funcs: &mut Vec<Function>, map: &Vec<Option<HelperKind>>, store: bool)
    ensures
        final(funcs)@.len() == old(funcs)@.len(),
        forall|i: int|
            0 <= i < old(funcs)@.len() ==> body_replaced(
                #[trigger] old(funcs)@[i],
                final(funcs)@[i],
                kind_at(map@, i),
                store,
            ),
{
    let ghost before = funcs@;
    let mut i: usize = 0;
    while i < funcs.len()
        invariant
            funcs@.len() == before.len(),
            i <= funcs@.len(),
            forall|j: int|
                0 <= j < i ==> body_replaced(#[trigger] before[j], funcs@[j], kind_at(map@, j), store),
            forall|j: int| i <= j < funcs@.len() ==> #[trigger] funcs@[j] == before[j],
        decreases funcs@.len() - i,
    {
        if i < map.len() {
            match map[i] {
                Some(kind) => {
                    let f = &mut funcs[i];
                    match &mut f.local {
                        Some(local) => {
                            if local.args.len() >= if store { 3 } else { 2 } {
                                let body = make_helper_body(&local.args, kind, store);
                                let mut seqs: Vec<Vec<Slot>> = Vec::new();
                                seqs.push(body);
                                local.seqs = seqs;
                            }
                        },
                        None => {},
                    }
                },
                None => {},
            }
        }
        i = i + 1;
    }
}

} // verus!
