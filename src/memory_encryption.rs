//! Detection of the data encryption scheme and decryption of the XOR scheme.
use vstd::prelude::*;
use crate::helpers::HelperKind;
use crate::model::{
    address_of, lemma_any_before_end, lemma_any_before_next_seq, lemma_any_before_step,
    lemma_first_none, lemma_first_unique, BinaryOp, ConstExpr, DataKind, DeobfuscateError, Instr,
    LocalFunction, WasmModule,
};

verus! {

/// The number of bytes of the repeating XOR key.
pub const XOR_TABLE_LEN: usize = 96;

/// The XOR scheme, with the address of its key table before decryption.
#[derive(Clone, Copy, Debug, PartialEq, Eq, Structural)]
pub struct XorMemoryEncryption {
    pub xor_table_start: u32,
}

/// The scheme that hides the payload data segment.
#[derive(Clone, Copy, Debug, PartialEq, Eq, Structural)]
pub enum MemoryEncryptionMode {
    Xor(XorMemoryEncryption),
    Chacha20,
}

/// The address at which the plaintext of a payload placed at `data_start` begins.
pub open spec fn plain_start(data_start: int) -> int {
    data_start - (data_start / 320) * 8 - 320 - 23
}

/// The plaintext byte at position `pos`, read from payload `d` placed at
/// `data_start` with key table `table`; `None` where a byte that it needs lies
/// outside the payload.
pub open spec fn xor_byte(data_start: int, d: Seq<u8>, table: Seq<u8>, pos: int) -> Option<u8> {
    let i = pos / 320;
    let j = i * 8 + pos + 1032;
    let cond = i * 328 + 1024;
    let key = table[pos % 96];
    if !(0 <= cond - data_start < d.len()) {
        None
    } else if d[cond - data_start] > 0 {
        if 0 <= j - data_start < d.len() {
            Some(d[j - data_start] ^ key)
        } else {
            None
        }
    } else {
        Some(0)
    }
}

/// The byte of step `n` of the walk that starts at position `start`.
pub open spec fn xor_step(data_start: int, d: Seq<u8>, table: Seq<u8>, start: int, n: int) -> Option<
    u8,
> {
    xor_byte(data_start, d, table, start + n)
}

/// The plaintext of payload `d`: one byte per byte of `d`, read from `start`
/// on until a read falls outside the payload, and zero from there.
pub open spec fn decrypted(data_start: int, d: Seq<u8>, table: Seq<u8>, start: int) -> Seq<u8> {
    Seq::new(
        d.len(),
        |n: int|
            if forall|m: int| 0 <= m <= n ==> #[trigger] xor_step(data_start, d, table, start, m) is Some {
                xor_step(data_start, d, table, start, n)->Some_0
            } else {
                0u8
            },
    )
}

/// The key table that starts at address `table_start`, read from the first
/// data segment of `m`.
pub open spec fn xor_table_of(m: WasmModule, table_start: int) -> Result<Seq<u8>, DeobfuscateError> {
    if m.data@.len() == 0 {
        Err(DeobfuscateError::MissingDataSegment)
    } else {
        match m.data@[0].kind {
            DataKind::Active { offset: ConstExpr::I32 { value }, .. } => {
                let at = table_start - address_of(value);
                if 0 <= at && at + 96 <= m.data@[0].value@.len() {
                    Ok(m.data@[0].value@.subrange(at, at + 96))
                } else {
                    Err(DeobfuscateError::XorTableOutOfRange)
                }
            },
            _ => Err(DeobfuscateError::DataOffsetNotConst),
        }
    }
}

/// What decrypting payload `d`, placed at `data_start`, gives: the address at
/// which its plaintext begins, and the plaintext.
pub open spec fn xor_decryption(
    m: WasmModule,
    table_start: int,
    data_start: int,
    d: Seq<u8>,
) -> Result<(int, Seq<u8>), DeobfuscateError> {
    let start = plain_start(data_start);
    if start < 0 {
        Err(DeobfuscateError::DataStartTooLow)
    } else {
        match xor_table_of(m, table_start) {
            Ok(table) => Ok((start, decrypted(data_start, d, table, start))),
            Err(e) => Err(e),
        }
    }
}

/// The slot starts the pair that shows the scheme: a call, or an unsigned
/// remainder followed by a constant.
pub open spec fn marker_at(f: LocalFunction) -> spec_fn(int, int) -> bool {
    |s: int, k: int|
        f.valid_slot(s, k + 1) && (f.instr(s, k) is Call || (f.instr(s, k) == Instr::Binop {
            op: BinaryOp::I32RemU,
        } && f.instr(s, k + 1) is I32Const))
}

/// The scheme that the pair at slot `(s, k)` shows.
pub open spec fn marker_mode(f: LocalFunction, s: int, k: int) -> MemoryEncryptionMode {
    match f.instr(s, k + 1) {
        Instr::I32Const { value } => if f.instr(s, k) is Call {
            MemoryEncryptionMode::Chacha20
        } else {
            MemoryEncryptionMode::Xor(XorMemoryEncryption { xor_table_start: value as u32 })
        },
        _ => MemoryEncryptionMode::Chacha20,
    }
}

/// The scheme that the first marking pair of a byte loader's body shows.
pub open spec fn encryption_mode_of(f: LocalFunction) -> Option<MemoryEncryptionMode> {
    match f.first_slot(marker_at(f)) {
        Some((s, k)) => Some(marker_mode(f, s, k)),
        None => None,
    }
}

/// Function `i` is a local function that `loads` classifies as a byte loader.
pub open spec fn is_byte_loader(m: WasmModule, loads: Seq<Option<HelperKind>>, i: int) -> bool {
    &&& 0 <= i < loads.len()
    &&& i < m.funcs@.len()
    &&& loads[i] == Some(HelperKind::Unsigned8)
    &&& m.funcs@[i].local is Some
}

/// Function `i` is the first byte loader.
pub open spec fn is_first_byte_loader(m: WasmModule, loads: Seq<Option<HelperKind>>, i: int) -> bool {
    is_byte_loader(m, loads, i) && forall|j: int| 0 <= j < i ==> !#[trigger] is_byte_loader(m, loads, j)
}

/// The scheme that the first byte loader shows.
pub open spec fn encryption_mode(m: WasmModule, loads: Seq<Option<HelperKind>>) -> Result<
    MemoryEncryptionMode,
    DeobfuscateError,
> {
    if exists|i: int| is_first_byte_loader(m, loads, i) {
        let i = choose|i: int| is_first_byte_loader(m, loads, i);
        match encryption_mode_of(m.funcs@[i].local.unwrap()) {
            Some(mode) => Ok(mode),
            None => Err(DeobfuscateError::UnknownEncryption),
        }
    } else {
        Err(DeobfuscateError::MissingByteLoader)
    }
}

/// The plaintext byte at `pos`, computed without overflow.
fn decrypt_byte(data_start: u128, data: &Vec<u8>, xor_table: &Vec<u8>, pos: u128) -> (r: Option<u8>)
    requires
        xor_table@.len() == XOR_TABLE_LEN,
        data_start <= u64::MAX,
        pos <= 2 * (u64::MAX as int),
    ensures
        r == xor_byte(data_start as int, data@, xor_table@, pos as int),
{
    let i: u128 = pos / 320;
    let j: u128 = i * 8 + pos + 1032;
    let cond: u128 = i * 328 + 1024;
    let key = xor_table[(pos % 96) as usize];
    if cond < data_start || cond - data_start >= data.len() as u128 {
        return None;
    }
    if data[(cond - data_start) as usize] > 0 {
        if j < data_start || j - data_start >= data.len() as u128 {
            None
        } else {
            Some(data[(j - data_start) as usize] ^ key)
        }
    } else {
        Some(0)
    }
}

impl XorMemoryEncryption {
    /// Reads the 96-byte key table out of the first data segment.
    pub fn get_xor_table(&self, module: &WasmModule) -> (r: Result<Vec<u8>, DeobfuscateError>)
        ensures
            match xor_table_of(*module, self.xor_table_start as int) {
                Ok(table) => r matches Ok(t) && t@ == table,
                Err(e) => r == Err::<Vec<u8>, DeobfuscateError>(e),
            },
    {
        if module.data.len() == 0 {
            return Err(DeobfuscateError::MissingDataSegment);
        }
        let segment = &module.data[0];
        let table_data_start: u32 = match segment.kind {
            DataKind::Active { offset: ConstExpr::I32 { value }, .. } => #[verifier::truncate]
            (value as u32),
            _ => {
                return Err(DeobfuscateError::DataOffsetNotConst);
            },
        };
        if self.xor_table_start < table_data_start {
            return Err(DeobfuscateError::XorTableOutOfRange);
        }
        let at = (self.xor_table_start - table_data_start) as usize;
        if at > segment.value.len() || segment.value.len() - at < XOR_TABLE_LEN {
            return Err(DeobfuscateError::XorTableOutOfRange);
        }
        let mut xors: Vec<u8> = Vec::with_capacity(XOR_TABLE_LEN);
        let mut i: usize = 0;
        while i < XOR_TABLE_LEN
            invariant
                at + XOR_TABLE_LEN <= segment.value.len(),
                i <= XOR_TABLE_LEN,
                xors@ == segment.value@.subrange(at as int, at + i),
            decreases XOR_TABLE_LEN - i,
        {
            xors.push(segment.value[at + i]);
            proof {
                assert(xors@ =~= segment.value@.subrange(at as int, at + i + 1));
            }
            i = i + 1;
        }
        Ok(xors)
    }

    /// The plaintext byte at position `pos` of a payload placed at `data_start`.
    pub fn read_byte(&self, data_start: usize, data: &Vec<u8>, xor_table: &Vec<u8>, pos: usize) -> (r:
        Option<u8>)
        requires
            xor_table@.len() == XOR_TABLE_LEN,
        ensures
            r == xor_byte(data_start as int, data@, xor_table@, pos as int),
    {
        decrypt_byte(data_start as u128, data, xor_table, pos as u128)
    }

    /// Decrypts payload `data`, placed at `start`: the address at which its
    /// plaintext begins, and the plaintext, as long as `data`.
    pub fn decrypt(&self, module: &WasmModule, start: usize, data: &Vec<u8>) -> (r: Result<
        (usize, Vec<u8>),
        DeobfuscateError,
    >)
        ensures
            match xor_decryption(*module, self.xor_table_start as int, start as int, data@) {
                Ok((p, plain)) => r matches Ok((q, v)) && q == p && v@ == plain,
                Err(e) => r == Err::<(usize, Vec<u8>), DeobfuscateError>(e),
            },
    {
        let shifted = (start / 320) * 8;
        if start < shifted || start - shifted < 343 {
            return Err(DeobfuscateError::DataStartTooLow);
        }
        let start_pos = start - shifted - 320 - 23;
        let xor_table = match self.get_xor_table(module) {
            Ok(t) => t,
            Err(e) => {
                return Err(e);
            },
        };
        let ghost table = xor_table@;
        let mut new_data: Vec<u8> = Vec::with_capacity(data.len());
        let mut n: usize = 0;
        let mut reading = true;
        while n < data.len()
            invariant
                xor_table@ == table,
                table.len() == XOR_TABLE_LEN,
                start_pos == plain_start(start as int),
                n <= data@.len(),
                new_data@.len() == n,
                forall|m: int|
                    0 <= m < n ==> #[trigger] new_data@[m] == decrypted(
                        start as int,
                        data@,
                        table,
                        start_pos as int,
                    )[m],
                reading ==> forall|m: int|
                    0 <= m < n ==> #[trigger] xor_step(start as int, data@, table, start_pos as int, m) is Some,
                !reading ==> exists|m: int|
                    0 <= m < n && #[trigger] xor_step(start as int, data@, table, start_pos as int, m) is None,
            decreases data@.len() - n,
        {
            let mut byte: u8 = 0;
            if reading {
                match decrypt_byte(start as u128, data, &xor_table, start_pos as u128 + n as u128) {
                    Some(b) => {
                        byte = b;
                    },
                    None => {
                        reading = false;
                        assert(xor_step(start as int, data@, table, start_pos as int, n as int) is None);
                    },
                }
            }
            new_data.push(byte);
            n = n + 1;
        }
        proof {
            assert(new_data@ =~= decrypted(start as int, data@, table, start_pos as int));
        }
        Ok((start_pos, new_data))
    }
}

impl MemoryEncryptionMode {
    /// Decrypts payload `data`, placed at `start`; ChaCha20 is not supported.
    pub fn decrypt(&self, module: &WasmModule, start: usize, data: &Vec<u8>) -> (r: Result<
        (usize, Vec<u8>),
        DeobfuscateError,
    >)
        ensures
            match *self {
                MemoryEncryptionMode::Xor(enc) => match xor_decryption(
                    *module,
                    enc.xor_table_start as int,
                    start as int,
                    data@,
                ) {
                    Ok((p, plain)) => r matches Ok((q, v)) && q == p && v@ == plain,
                    Err(e) => r == Err::<(usize, Vec<u8>), DeobfuscateError>(e),
                },
                MemoryEncryptionMode::Chacha20 => r == Err::<(usize, Vec<u8>), DeobfuscateError>(
                    DeobfuscateError::UnsupportedEncryption,
                ),
            },
    {
        match self {
            MemoryEncryptionMode::Xor(enc) => enc.decrypt(module, start, data),
            MemoryEncryptionMode::Chacha20 => Err(DeobfuscateError::UnsupportedEncryption),
        }
    }
}

/// Finds the first marking pair of `f` and the scheme it shows.
fn find_encryption_marker(f: &LocalFunction) -> (r: Option<MemoryEncryptionMode>)
    ensures
        r == encryption_mode_of(*f),
{
    let ghost g = *f;
    let mut s: usize = 0;
    while s < f.seqs.len()
        invariant
            g == *f,
            s <= g.seqs@.len(),
            !g.any_before(marker_at(g), s as int, 0),
        decreases g.seqs@.len() - s,
    {
        let seq = &f.seqs[s];
        let mut k: usize = 0;
        while k < seq.len()
            invariant
                g == *f,
                s < g.seqs@.len(),
                *seq == g.seqs@[s as int],
                k <= seq@.len(),
                !g.any_before(marker_at(g), s as int, k as int),
            decreases seq@.len() - k,
        {
            proof {
                lemma_any_before_step(g, marker_at(g), s as int, k as int);
            }
            if k + 1 < seq.len() {
                let found = match (seq[k].instr, seq[k + 1].instr) {
                    (Instr::Call { .. }, _) => Some(MemoryEncryptionMode::Chacha20),
                    (Instr::Binop { op: BinaryOp::I32RemU }, Instr::I32Const { value }) => Some(
                        MemoryEncryptionMode::Xor(
                            XorMemoryEncryption { xor_table_start: #[verifier::truncate] (value as u32) },
                        ),
                    ),
                    _ => None,
                };
                if found.is_some() {
                    proof {
                        assert(g.first_at(marker_at(g), s as int, k as int));
                        lemma_first_unique(g, marker_at(g), s as int, k as int);
                    }
                    return found;
                }
            }
            k = k + 1;
        }
        proof {
            lemma_any_before_next_seq(g, marker_at(g), s as int);
        }
        s = s + 1;
    }
    proof {
        lemma_any_before_end(g, marker_at(g));
        lemma_first_none(g, marker_at(g));
    }
    None
}

/// Tells the scheme from the body of the first function that `mapped_loads`
/// classifies as an unsigned byte loader.
pub fn map_memory_encryption_mode(module: &WasmModule, mapped_loads: &Vec<Option<HelperKind>>) -> (r:
    Result<MemoryEncryptionMode, DeobfuscateError>)
    ensures
        r == encryption_mode(*module, mapped_loads@),
{
    let mut i: usize = 0;
    while i < mapped_loads.len() && i < module.funcs.len()
        invariant
            i <= mapped_loads@.len(),
            forall|j: int| 0 <= j < i ==> !#[trigger] is_byte_loader(*module, mapped_loads@, j),
        decreases mapped_loads@.len() - i,
    {
        if mapped_loads[i] == Some(HelperKind::Unsigned8) {
            match &module.funcs[i].local {
                Some(local) => {
                    proof {
                        assert(is_first_byte_loader(*module, mapped_loads@, i as int));
                        let c = choose|c: int| is_first_byte_loader(*module, mapped_loads@, c);
                        if c < i {
                            assert(!is_byte_loader(*module, mapped_loads@, c));
                        } else if c > i {
                            assert(!is_byte_loader(*module, mapped_loads@, i as int));
                        }
                    }
                    return match find_encryption_marker(local) {
                        Some(mode) => Ok(mode),
                        None => Err(DeobfuscateError::UnknownEncryption),
                    };
                },
                None => {},
            }
        }
        i = i + 1;
    }
    proof {
        if exists|c: int| is_first_byte_loader(*module, mapped_loads@, c) {
            let c = choose|c: int| is_first_byte_loader(*module, mapped_loads@, c);
            assert(!is_byte_loader(*module, mapped_loads@, c));
        }
    }
    Err(DeobfuscateError::MissingByteLoader)
}

} // verus!
