//! Extraction of the event table that the event setup function decodes.
use vstd::prelude::*;
use crate::model::{
    address_of, body_walk, enters, lemma_any_before_end, lemma_any_before_next_seq,
    lemma_any_before_step, lemma_first_none, lemma_first_unique, lemma_walk_end, lemma_walk_step,
    opened_walk, walk_from, BinaryOp, ConstExpr, DataKind, DeobfuscateError, Instr, LocalFunction,
    WasmModule,
};

verus! {

/// What `char::is_alphanumeric` says of `c`.
pub uninterp spec fn alphanumeric(c: char) -> bool;

/// Relies on `char::is_alphanumeric`: whether `c` is alphabetic or numeric.
#[verifier::external_body]
fn char_is_alphanumeric(c: char) -> (r: bool)
    ensures
        r == alphanumeric(c),
{
    c.is_alphanumeric()
}

/// Relies on `String::push`: appends `c` to the end of `s`.
#[verifier::external_body]
pub(crate) fn push_char(s: &mut String, c: char)
    ensures
        final(s)@ == old(s)@.push(c),
{
    s.push(c)
}

/// The values of the i32 constants among `instrs`, in order.
pub open spec fn consts_in(instrs: Seq<Instr>) -> Seq<i32>
    decreases instrs.len(),
{
    if instrs.len() == 0 {
        Seq::empty()
    } else {
        let rest = consts_in(instrs.drop_first());
        match instrs[0] {
            Instr::I32Const { value } => seq![value] + rest,
            _ => rest,
        }
    }
}

/// The constants of a concatenation are those of its parts.
proof fn lemma_consts_concat(a: Seq<Instr>, b: Seq<Instr>)
    ensures
        consts_in(a + b) == consts_in(a) + consts_in(b),
    decreases a.len(),
{
    if a.len() == 0 {
        assert(a + b =~= b);
        assert(consts_in(a) + consts_in(b) =~= consts_in(b));
    } else {
        assert((a + b).drop_first() =~= a.drop_first() + b);
        assert((a + b)[0] == a[0]);
        lemma_consts_concat(a.drop_first(), b);
        match a[0] {
            Instr::I32Const { value } => {
                assert(seq![value] + (consts_in(a.drop_first()) + consts_in(b)) =~= seq![value]
                    + consts_in(a.drop_first()) + consts_in(b));
            },
            _ => {},
        }
    }
}

/// The i32 constants of the body of `f`, in the order of a depth-first walk.
pub open spec fn body_consts(f: LocalFunction) -> Seq<i32> {
    consts_in(body_walk(f))
}

/// Appends the i32 constants that a depth-first walk of sequence `s` of
/// `local` meets.
fn collect_from(local: &LocalFunction, s: usize, out: &mut Vec<i32>)
    requires
        s < local.seqs@.len(),
    ensures
        final(out)@ == old(out)@ + consts_in(walk_from(*local, s as int, 0)),
    decreases local.seqs@.len() - s,
{
    let ghost f = *local;
    let ghost start = out@;
    let seq = &local.seqs[s];
    let mut k: usize = 0;
    proof {
        assert(start + consts_in(walk_from(f, s as int, 0)) =~= out@ + consts_in(walk_from(f, s as int, 0)));
    }
    while k < seq.len()
        invariant
            f == *local,
            s < f.seqs@.len(),
            *seq == f.seqs@[s as int],
            k <= seq@.len(),
            out@ + consts_in(walk_from(f, s as int, k as int)) == start + consts_in(walk_from(f, s as int, 0)),
        decreases seq@.len() - k,
    {
        let instr = seq[k].instr;
        let ghost before = out@;
        let ghost rest = walk_from(f, s as int, k + 1);
        let ghost opened = opened_walk(f, s as int, instr);
        proof {
            lemma_walk_step(f, s as int, k as int);
            let all = seq![instr] + (opened + rest);
            assert(all.drop_first() =~= opened + rest);
            assert(all[0] == instr);
            lemma_consts_concat(opened, rest);
        }
        proof {
            assert(seq![instr].drop_first() =~= Seq::<Instr>::empty());
            assert(seq![instr][0] == instr);
            assert(consts_in(Seq::<Instr>::empty()) == Seq::<i32>::empty());
        }
        match instr {
            Instr::I32Const { value } => {
                out.push(value);
                proof {
                    assert(consts_in(seq![instr]) == seq![value] + Seq::<i32>::empty());
                    assert(out@ =~= before + consts_in(seq![instr]));
                }
            },
            _ => {
                proof {
                    assert(consts_in(seq![instr]) == Seq::<i32>::empty());
                    assert(out@ =~= before + consts_in(seq![instr]));
                }
            },
        }
        let ghost pushed = out@;
        match instr {
            Instr::Block { seq: c } => {
                if s < c && c < local.seqs.len() {
                    collect_from(local, c, out);
                }
            },
            Instr::Loop { seq: c } => {
                if s < c && c < local.seqs.len() {
                    collect_from(local, c, out);
                }
            },
            Instr::IfElse { consequent, alternative } => {
                if s < consequent && consequent < local.seqs.len() {
                    collect_from(local, consequent, out);
                }
                if s < alternative && alternative < local.seqs.len() {
                    collect_from(local, alternative, out);
                }
                proof {
                    let a = if enters(f, s as int, consequent as int) {
                        walk_from(f, consequent as int, 0)
                    } else {
                        Seq::empty()
                    };
                    let b = if enters(f, s as int, alternative as int) {
                        walk_from(f, alternative as int, 0)
                    } else {
                        Seq::empty()
                    };
                    assert(opened == a + b);
                    lemma_consts_concat(a, b);
                    assert(out@ =~= pushed + consts_in(opened));
                }
            },
            _ => {},
        }
        proof {
            assert(out@ =~= pushed + consts_in(opened));
            assert(consts_in(seq![instr] + (opened + rest)) == consts_in(seq![instr]) + consts_in(
                opened + rest,
            )) by {
                lemma_consts_concat(seq![instr], opened + rest);
            }
            assert(out@ + consts_in(rest) =~= before + consts_in(walk_from(f, s as int, k as int)));
        }
        k = k + 1;
    }
    proof {
        lemma_walk_end(f, s as int);
        assert(out@ + Seq::<i32>::empty() =~= out@);
    }
}

/// Collects the i32 constants of the body of `local`, in the order of a
/// depth-first walk.
pub fn collect_i32_consts(local: &LocalFunction) -> (r: Vec<i32>)
    ensures
        r@ == body_consts(*local),
{
    let mut collected_consts: Vec<i32> = Vec::new();
    if local.seqs.len() > 0 {
        collect_from(local, 0, &mut collected_consts);
    }
    proof {
        assert(collected_consts@ =~= body_consts(*local));
    }
    collected_consts
}

/// Tells whether `v` holds `x`.
fn contains_i32(v: &Vec<i32>, x: i32) -> (r: bool)
    ensures
        r == v@.contains(x),
{
    let mut i: usize = 0;
    while i < v.len()
        invariant
            i <= v@.len(),
            forall|j: int| 0 <= j < i ==> v@[j] != x,
        decreases v@.len() - i,
    {
        if v[i] == x {
            return true;
        }
        i = i + 1;
    }
    false
}

/// The constants of `f` include all of -1, 268435455, -2147483648 and 0,
/// the signature of the event setup function.
pub open spec fn has_event_signature(f: LocalFunction) -> bool {
    let consts = body_consts(f);
    &&& consts.contains(-1i32)
    &&& consts.contains(268435455i32)
    &&& consts.contains(-2147483648i32)
    &&& consts.contains(0i32)
}

/// The value of an i32 constant.
pub open spec fn const_value(i: Instr) -> Option<i32> {
    match i {
        Instr::I32Const { value } => Some(value),
        _ => None,
    }
}

/// Around slot `(s, k)` of `f` stands the XOR pattern: a constant above
/// `data_start` (both read as signed 32-bit integers), a binary operation, a
/// load, the XOR at `k`, a store, any instruction, and a constant.
pub open spec fn pattern_at(f: LocalFunction, data_start: int) -> spec_fn(int, int) -> bool {
    |s: int, k: int|
        {
            &&& 3 <= k
            &&& f.valid_slot(s, k + 3)
            &&& const_value(f.instr(s, k - 3)) is Some
            &&& const_value(f.instr(s, k - 3)).unwrap() > data_start as i32
            &&& f.instr(s, k - 2) is Binop
            &&& f.instr(s, k - 1) is Load
            &&& f.instr(s, k) == Instr::Binop { op: BinaryOp::I32Xor }
            &&& f.instr(s, k + 1) is Store
            &&& const_value(f.instr(s, k + 3)) is Some
        }
}

/// The two constants of the first XOR pattern of `f`.
pub open spec fn pattern_consts(f: LocalFunction, data_start: int) -> Option<(i32, i32)> {
    match f.first_slot(pattern_at(f, data_start)) {
        Some((s, k)) => Some(
            (const_value(f.instr(s, k - 3)).unwrap(), const_value(f.instr(s, k + 3)).unwrap()),
        ),
        None => None,
    }
}

/// Finds the first XOR pattern of `func` and gives its two constants: the
/// address of the encrypted event string, and the constant that follows.
pub fn search_pattern(data_segment_start: usize, func: &LocalFunction) -> (r: Option<(i32, i32)>)
    ensures
        r == pattern_consts(*func, data_segment_start as int),
{
    let ghost f = *func;
    let ghost p = pattern_at(f, data_segment_start as int);
    let mut s: usize = 0;
    while s < func.seqs.len()
        invariant
            f == *func,
            p == pattern_at(f, data_segment_start as int),
            s <= f.seqs@.len(),
            !f.any_before(p, s as int, 0),
        decreases f.seqs@.len() - s,
    {
        let seq = &func.seqs[s];
        let mut k: usize = 0;
        while k < seq.len()
            invariant
                f == *func,
                p == pattern_at(f, data_segment_start as int),
                s < f.seqs@.len(),
                *seq == f.seqs@[s as int],
                k <= seq@.len(),
                !f.any_before(p, s as int, k as int),
            decreases seq@.len() - k,
        {
            proof {
                lemma_any_before_step(f, p, s as int, k as int);
            }
            if k >= 3 && seq.len() - k > 3 {
                match (seq[k - 3].instr, seq[k - 2].instr, seq[k - 1].instr, seq[k].instr, seq[k + 1].instr, seq[k + 3].instr) {
                    (
                        Instr::I32Const { value: n1 },
                        Instr::Binop { .. },
                        Instr::Load { .. },
                        Instr::Binop { op: BinaryOp::I32Xor },
                        Instr::Store { .. },
                        Instr::I32Const { value: n2 },
                    ) => {
                        if n1 > #[verifier::truncate] (data_segment_start as i32) {
                            proof {
                                assert(f.first_at(p, s as int, k as int));
                                lemma_first_unique(f, p, s as int, k as int);
                            }
                            return Some((n1, n2));
                        }
                    },
                    _ => {},
                }
            }
            k = k + 1;
        }
        proof {
            lemma_any_before_next_seq(f, p, s as int);
        }
        s = s + 1;
    }
    proof {
        lemma_any_before_end(f, p);
        lemma_first_none(f, p);
    }
    None
}

/// A character of the event table: alphanumeric, a newline or a comma.
pub open spec fn is_event_char_spec(c: char, is_alphanumeric: bool) -> bool {
    is_alphanumeric || c == '\n' || c == ','
}

/// Tells whether `c`, of which `is_alphanumeric` says whether it is
/// alphanumeric, belongs to the event table.
pub fn is_event_char(c: char, is_alphanumeric: bool) -> (r: bool)
    ensures
        r == is_event_char_spec(c, is_alphanumeric),
{
    is_alphanumeric || c == '\n' || c == ','
}

/// The character that step `i` decodes: byte `o1 + i` XOR byte `o2 + i`.
pub open spec fn event_char(d: Seq<u8>, o1: int, o2: int, i: int) -> char {
    (d[o1 + i] ^ d[o2 + i]) as char
}

/// The event string decoded from step `i` on: characters as long as both
/// bytes lie in `d` and the character belongs to the event table.
pub open spec fn event_chars(d: Seq<u8>, o1: nat, o2: nat, i: nat) -> Seq<char>
    decreases d.len() - i,
{
    if o1 + i < d.len() && o2 + i < d.len() && is_event_char_spec(
        event_char(d, o1 as int, o2 as int, i as int),
        alphanumeric(event_char(d, o1 as int, o2 as int, i as int)),
    ) {
        seq![event_char(d, o1 as int, o2 as int, i as int)] + event_chars(d, o1, o2, i + 1)
    } else {
        Seq::empty()
    }
}

/// The event string at address `events` with key at address `key`, read
/// from payload `d` placed at `data_start`.
pub open spec fn event_string(data_start: int, d: Seq<u8>, events: int, key: int) -> Result<
    Seq<char>,
    DeobfuscateError,
> {
    if events < data_start || key < data_start {
        Err(DeobfuscateError::EventPointerOutOfRange)
    } else {
        Ok(event_chars(d, (events - data_start) as nat, (key - data_start) as nat, 0))
    }
}

/// Decodes the event string at address `encrypted_event_string_idx` with the
/// key at address `xor_table`, from payload `data` placed at `data_start`.
pub fn read_events(
    data_start: usize,
    data: &Vec<u8>,
    encrypted_event_string_idx: usize,
    xor_table: usize,
) -> (r: Result<String, DeobfuscateError>)
    ensures
        match event_string(data_start as int, data@, encrypted_event_string_idx as int, xor_table as int) {
            Ok(chars) => r matches Ok(res) && res@ == chars,
            Err(e) => r == Err::<String, DeobfuscateError>(e),
        },
{
    if encrypted_event_string_idx < data_start || xor_table < data_start {
        return Err(DeobfuscateError::EventPointerOutOfRange);
    }
    let off1 = encrypted_event_string_idx - data_start;
    let off2 = xor_table - data_start;
    let ghost d = data@;
    let mut res = String::new();
    let mut offset: usize = 0;
    proof {
        assert(res@ + event_chars(d, off1 as nat, off2 as nat, 0) =~= event_chars(d, off1 as nat, off2 as nat, 0));
    }
    while off1 < data.len() && off2 < data.len() && offset < data.len() - off1 && offset < data.len() - off2
        invariant
            d == data@,
            encrypted_event_string_idx >= data_start,
            xor_table >= data_start,
            off1 == encrypted_event_string_idx - data_start,
            off2 == xor_table - data_start,
            offset <= d.len(),
            res@ + event_chars(d, off1 as nat, off2 as nat, offset as nat) == event_chars(d, off1 as nat, off2 as nat, 0),
        decreases d.len() - offset,
    {
        let c = (data[off1 + offset] ^ data[off2 + offset]) as char;
        proof {
            assert(c == event_char(d, off1 as int, off2 as int, offset as int));
        }
        let alnum = char_is_alphanumeric(c);
        if !is_event_char(c, alnum) {
            proof {
                assert(event_chars(d, off1 as nat, off2 as nat, offset as nat) =~= Seq::<char>::empty());
                assert(res@ + Seq::<char>::empty() =~= res@);
            }
            return Ok(res);
        }
        push_char(&mut res, c);
        proof {
            assert(res@ + event_chars(d, off1 as nat, off2 as nat, (offset + 1) as nat) =~= event_chars(d, off1 as nat, off2 as nat, 0));
        }
        offset = offset + 1;
    }
    proof {
        assert(res@ + Seq::<char>::empty() =~= res@);
    }
    Ok(res)
}

/// The address of the payload, the second data segment.
pub open spec fn payload_address(m: WasmModule) -> Option<int> {
    if m.data@.len() < 2 {
        None
    } else {
        match m.data@[1].kind {
            DataKind::Active { offset: ConstExpr::I32 { value }, .. } => Some(address_of(value) as int),
            _ => None,
        }
    }
}

/// Function `i` of `m` is local and carries the event signature.
pub open spec fn is_event_function(m: WasmModule, i: int) -> bool {
    &&& 0 <= i < m.funcs@.len()
    &&& m.funcs@[i].local is Some
    &&& has_event_signature(m.funcs@[i].local.unwrap())
}

/// Function `i` is the first event function.
pub open spec fn is_first_event_function(m: WasmModule, i: int) -> bool {
    is_event_function(m, i) && forall|j: int| 0 <= j < i ==> !#[trigger] is_event_function(m, j)
}

/// What the search for the event table finds in `m`: the payload's address,
/// the address of the encrypted event string, and the address of its key, the
/// first global's value; or the first error met.
pub open spec fn event_search(m: WasmModule) -> Result<(int, int, int), DeobfuscateError> {
    if m.globals@.len() == 0 {
        Err(DeobfuscateError::MissingGlobal)
    } else if m.data@.len() < 2 {
        Err(DeobfuscateError::MissingDataSegment)
    } else {
        match m.data@[1].kind {
            DataKind::Active { offset: ConstExpr::I32 { value }, .. } => {
                let data_start = address_of(value) as int;
                if exists|i: int| is_first_event_function(m, i) {
                    let i = choose|i: int| is_first_event_function(m, i);
                    match pattern_consts(m.funcs@[i].local.unwrap(), data_start) {
                        None => Err(DeobfuscateError::MissingXorPattern),
                        Some((events, _)) => match m.globals@[0] {
                            ConstExpr::I32 { value: key } => Ok(
                                (data_start, address_of(events) as int, address_of(key) as int),
                            ),
                            _ => Err(DeobfuscateError::GlobalNotConst),
                        },
                    }
                } else {
                    Err(DeobfuscateError::MissingEventFunction)
                }
            },
            _ => Err(DeobfuscateError::DataOffsetNotConst),
        }
    }
}

/// The event table of `m`: found through its setup function and decoded from
/// the payload.
pub open spec fn events_of(m: WasmModule) -> Result<Seq<char>, DeobfuscateError> {
    match event_search(m) {
        Err(e) => Err(e),
        Ok((data_start, events, key)) => event_string(data_start, m.data@[1].value@, events, key),
    }
}

/// Finds the event setup function, the XOR pattern in it, and decodes the
/// event table from the payload, keyed by the first global.
pub fn fetch_events(module: &WasmModule) -> (r: Result<String, DeobfuscateError>)
    ensures
        match events_of(*module) {
            Ok(chars) => r matches Ok(res) && res@ == chars,
            Err(e) => r == Err::<String, DeobfuscateError>(e),
        },
{
    if module.globals.len() == 0 {
        return Err(DeobfuscateError::MissingGlobal);
    }
    if module.data.len() < 2 {
        return Err(DeobfuscateError::MissingDataSegment);
    }
    let data_segment = &module.data[1];
    let data_start: usize = match data_segment.kind {
        DataKind::Active { offset: ConstExpr::I32 { value }, .. } => (#[verifier::truncate] (value as u32)) as usize,
        _ => {
            return Err(DeobfuscateError::DataOffsetNotConst);
        },
    };
    let mut i: usize = 0;
    while i < module.funcs.len()
        invariant
            i <= module.funcs@.len(),
            module.globals@.len() > 0,
            *data_segment == module.data@[1],
            payload_address(*module) == Some(data_start as int),
            forall|j: int| 0 <= j < i ==> !#[trigger] is_event_function(*module, j),
        decreases module.funcs@.len() - i,
    {
        match &module.funcs[i].local {
            Some(func) => {
                let collected_consts = collect_i32_consts(func);
                if contains_i32(&collected_consts, -1) && contains_i32(&collected_consts, 268435455)
                    && contains_i32(&collected_consts, -2147483648) && contains_i32(&collected_consts, 0) {
                    proof {
                        assert(collected_consts@ == body_consts(*func));
                        assert(*func == module.funcs@[i as int].local.unwrap());
                        assert(has_event_signature(*func));
                        assert(is_event_function(*module, i as int));
                        assert(is_first_event_function(*module, i as int));
                        let c = choose|c: int| is_first_event_function(*module, c);
                        if c < i {
                            assert(!is_event_function(*module, c));
                        } else if c > i {
                            assert(!is_event_function(*module, i as int));
                        }
                    }
                    let events_idx = match search_pattern(data_start, func) {
                        Some((events_idx, _)) => events_idx,
                        None => {
                            return Err(DeobfuscateError::MissingXorPattern);
                        },
                    };
                    let global_idx = match module.globals[0] {
                        ConstExpr::I32 { value } => value,
                        _ => {
                            return Err(DeobfuscateError::GlobalNotConst);
                        },
                    };
                    return read_events(
                        data_start,
                        &data_segment.value,
                        (#[verifier::truncate] (events_idx as u32)) as usize,
                        (#[verifier::truncate] (global_idx as u32)) as usize,
                    );
                }
            },
            None => {},
        }
        i = i + 1;
    }
    proof {
        if exists|c: int| is_first_event_function(*module, c) {
            let c = choose|c: int| is_first_event_function(*module, c);
            assert(!is_event_function(*module, c));
        }
    }
    Err(DeobfuscateError::MissingEventFunction)
}

} // verus!
