use wasm_deobfuscator::event_table::parse_hex;
use wasm_deobfuscator::events::is_event_char;
use wasm_deobfuscator::helpers::{classify_load_function, classify_store_function};
use wasm_deobfuscator::rewrite::rewrite_helper_calls;
use wasm_deobfuscator::{
    collect_i32_consts, fetch_events, parse_events, map_memory_encryption_mode, read_events, search_pattern,
    BinaryOp, ConstExpr, DataKind, DataSegment, DeobfuscateError, ExtendedLoad, Function,
    HelperKind, Instr, LoadKind, LoadMemoryFuncMapper, LocalFunction, MemArg, MemoryEncryptionMode,
    MemoryTransformer, Slot, StoreKind, StoreMemoryFuncMapper, Transformer, ValType, WasmModule,
    XorMemoryEncryption,
};

fn slot(instr: Instr) -> Slot {
    Slot { instr, loc: 7 }
}

fn seq_of(instrs: Vec<Instr>) -> Vec<Slot> {
    instrs.into_iter().map(slot).collect()
}

fn local_of(args: Vec<u32>, seqs: Vec<Vec<Instr>>) -> LocalFunction {
    LocalFunction { args, seqs: seqs.into_iter().map(seq_of).collect() }
}

fn function(params: Vec<ValType>, results: Vec<ValType>, exported: bool, seqs: Vec<Vec<Instr>>) -> Function {
    let args = (0..params.len() as u32).collect();
    Function { params, results, exported, local: Some(local_of(args, seqs)) }
}

fn konst(value: i32) -> Instr {
    Instr::I32Const { value }
}

fn binop(op: BinaryOp) -> Instr {
    Instr::Binop { op }
}

fn load(kind: LoadKind) -> Instr {
    Instr::Load { memory: 0, kind, arg: MemArg { align: 1, offset: 0 } }
}

fn store(kind: StoreKind) -> Instr {
    Instr::Store { memory: 0, kind, arg: MemArg { align: 1, offset: 0 } }
}

fn and_op() -> BinaryOp {
    BinaryOp::Other { handle: 1 }
}

fn load_helper(seqs: Vec<Vec<Instr>>) -> Function {
    function(vec![ValType::I32, ValType::I32], vec![ValType::I32], true, seqs)
}

fn store_helper(value: ValType, seqs: Vec<Vec<Instr>>) -> Function {
    function(vec![ValType::I32, value, ValType::I32], vec![], true, seqs)
}

fn byte_loader_body(table_start: i32) -> Vec<Vec<Instr>> {
    vec![vec![
        Instr::LocalGet { local: 0 },
        Instr::LocalGet { local: 1 },
        binop(BinaryOp::I32Add),
        binop(BinaryOp::I32RemU),
        konst(table_start),
        load(LoadKind::I32_8 { kind: ExtendedLoad::ZeroExtend }),
        konst(255),
        binop(and_op()),
        Instr::Return,
    ]]
}

fn active(offset: i32, value: Vec<u8>) -> DataSegment {
    DataSegment { kind: DataKind::Active { memory: 0, offset: ConstExpr::I32 { value: offset } }, value }
}

fn module_of(funcs: Vec<Function>, data: Vec<DataSegment>) -> WasmModule {
    WasmModule { funcs, data, globals: vec![ConstExpr::I32 { value: 0 }], memories: 1 }
}

#[test]
fn classifier_unsigned_byte_load() {
    let f = load_helper(vec![vec![
        Instr::LocalGet { local: 0 },
        load(LoadKind::I32_8 { kind: ExtendedLoad::ZeroExtend }),
        konst(255),
        binop(and_op()),
    ]]);
    let mut mapper = LoadMemoryFuncMapper::new();
    assert_eq!(mapper.map(f.local.as_ref().unwrap()), Some(HelperKind::Unsigned8));
    assert!(mapper.has_load && mapper.has_8_bits_mask && !mapper.has_left_shift);
    assert_eq!(classify_load_function(&f), Ok(Some(HelperKind::Unsigned8)));
}

#[test]
fn classifier_signed_short_load() {
    let f = load_helper(vec![vec![
        load(LoadKind::I32 { atomic: false }),
        binop(BinaryOp::I32ShrS),
        konst(65535),
    ]]);
    assert_eq!(classify_load_function(&f), Ok(Some(HelperKind::Signed16)));
}

#[test]
fn classifier_sign_extended_byte_via_shifts() {
    let f = load_helper(vec![vec![
        load(LoadKind::I32 { atomic: false }),
        konst(24),
        binop(BinaryOp::I32Shl),
        konst(24),
        binop(BinaryOp::I32ShrS),
    ]]);
    assert_eq!(classify_load_function(&f), Ok(Some(HelperKind::Signed8)));
}

#[test]
fn classifier_reads_nested_sequences() {
    let f = load_helper(vec![
        vec![Instr::Block { seq: 1 }, konst(65535)],
        vec![load(LoadKind::I32 { atomic: false })],
    ]);
    assert_eq!(classify_load_function(&f), Ok(Some(HelperKind::Unsigned16)));
    let shifted = load_helper(vec![vec![load(LoadKind::I32 { atomic: false }), binop(BinaryOp::I32ShrS), konst(255)]]);
    assert_eq!(classify_load_function(&shifted), Ok(Some(HelperKind::Signed8)));
    let plain = load_helper(vec![vec![load(LoadKind::I32 { atomic: false })]]);
    assert_eq!(classify_load_function(&plain), Ok(Some(HelperKind::Signed32)));
    let shift_only = load_helper(vec![vec![load(LoadKind::I32 { atomic: false }), binop(BinaryOp::I32ShrS)]]);
    assert_eq!(classify_load_function(&shift_only), Ok(Some(HelperKind::Signed32)));
}

#[test]
fn classifier_drops_functions_without_load() {
    let f = load_helper(vec![vec![konst(255), binop(BinaryOp::I32Shl)]]);
    assert_eq!(classify_load_function(&f), Ok(None));
    let mut mapper = LoadMemoryFuncMapper::new();
    assert_eq!(mapper.map(f.local.as_ref().unwrap()), None);
}

#[test]
fn classifier_dispatches_on_result_type() {
    let body = vec![vec![Instr::Return]];
    let f32_loader = function(vec![ValType::I32, ValType::I32], vec![ValType::F32], true, body.clone());
    let f64_loader = function(vec![ValType::I32, ValType::I32], vec![ValType::F64], true, body.clone());
    let i64_loader = function(vec![ValType::I32, ValType::I32], vec![ValType::I64], true, body.clone());
    let v128_loader = function(vec![ValType::I32, ValType::I32], vec![ValType::V128], true, body.clone());
    assert_eq!(classify_load_function(&f32_loader), Ok(Some(HelperKind::Float32)));
    assert_eq!(classify_load_function(&f64_loader), Ok(Some(HelperKind::Float64)));
    assert_eq!(classify_load_function(&i64_loader), Ok(Some(HelperKind::Signed64)));
    assert_eq!(classify_load_function(&v128_loader), Err(DeobfuscateError::UnsupportedHelperType));
}

#[test]
fn classifier_needs_exported_local_candidates() {
    let hidden = function(
        vec![ValType::I32, ValType::I32],
        vec![ValType::I32],
        false,
        vec![vec![load(LoadKind::I32 { atomic: false })]],
    );
    assert_eq!(classify_load_function(&hidden), Ok(None));
    let imported = Function {
        params: vec![ValType::I32, ValType::I32],
        results: vec![ValType::I32],
        exported: true,
        local: None,
    };
    assert_eq!(classify_load_function(&imported), Ok(None));
    let three_params = function(
        vec![ValType::I32, ValType::I32, ValType::I32],
        vec![ValType::I32],
        true,
        vec![vec![load(LoadKind::I32 { atomic: false })]],
    );
    assert_eq!(classify_load_function(&three_params), Ok(None));
}

#[test]
fn store_classifier_uses_first_store() {
    let byte = store_helper(ValType::I32, vec![vec![store(StoreKind::I32_8 { atomic: false })]]);
    assert_eq!(classify_store_function(&byte), Ok(Some(HelperKind::Signed8)));
    let short = store_helper(
        ValType::I32,
        vec![vec![store(StoreKind::I32_16 { atomic: false }), store(StoreKind::I32_8 { atomic: false })]],
    );
    assert_eq!(classify_store_function(&short), Ok(Some(HelperKind::Signed16)));
    let word = store_helper(ValType::I32, vec![vec![store(StoreKind::I32 { atomic: false })]]);
    assert_eq!(classify_store_function(&word), Ok(Some(HelperKind::Signed32)));
    let wide = store_helper(ValType::I32, vec![vec![store(StoreKind::I64 { atomic: false })]]);
    assert_eq!(classify_store_function(&wide), Ok(Some(HelperKind::Signed64)));
    let none = store_helper(ValType::I32, vec![vec![Instr::Return]]);
    assert_eq!(classify_store_function(&none), Ok(None));
    let mut mapper = StoreMemoryFuncMapper::new();
    assert_eq!(mapper.map(short.local.as_ref().unwrap()), Ok(Some(HelperKind::Signed16)));
    assert_eq!(mapper.store_kind, Some(StoreKind::I32_16 { atomic: false }));
}

#[test]
fn store_classifier_dispatches_on_value_type() {
    let body = vec![vec![Instr::Return]];
    assert_eq!(classify_store_function(&store_helper(ValType::I64, body.clone())), Ok(Some(HelperKind::Signed64)));
    assert_eq!(classify_store_function(&store_helper(ValType::F32, body.clone())), Ok(Some(HelperKind::Float32)));
    assert_eq!(classify_store_function(&store_helper(ValType::F64, body.clone())), Ok(Some(HelperKind::Float64)));
    assert_eq!(classify_store_function(&store_helper(ValType::V128, body.clone())), Ok(None));
}

#[test]
fn store_classifier_rejects_unknown_width() {
    let f = store_helper(ValType::I32, vec![vec![store(StoreKind::I64_8 { atomic: false })]]);
    assert_eq!(classify_store_function(&f), Err(DeobfuscateError::UnsupportedStoreKind));
}

#[test]
fn classification_is_deterministic() {
    let f = load_helper(byte_loader_body(693));
    let first = classify_load_function(&f);
    let second = classify_load_function(&f);
    assert_eq!(first, second);
    assert_eq!(first, Ok(Some(HelperKind::Unsigned8)));
}

#[test]
fn helper_maps_are_disjoint() {
    let module = module_of(
        vec![
            load_helper(byte_loader_body(693)),
            store_helper(ValType::I32, vec![vec![store(StoreKind::I32_8 { atomic: false })]]),
        ],
        vec![],
    );
    let t = MemoryTransformer {};
    let loads = t.map_load_functions(&module).unwrap();
    let stores = t.map_store_functions(&module).unwrap();
    assert_eq!(loads, vec![Some(HelperKind::Unsigned8), None]);
    assert_eq!(stores, vec![None, Some(HelperKind::Signed8)]);
    for i in 0..loads.len() {
        assert!(!(loads[i].is_some() && stores[i].is_some()));
    }
    assert_eq!(t.find_mem_load_functions(&module), vec![0]);
    assert_eq!(t.find_mem_store_functions(&module), vec![1]);
}

#[test]
fn encryption_detection_xor() {
    let module = module_of(vec![load_helper(byte_loader_body(693))], vec![]);
    let loads = vec![Some(HelperKind::Unsigned8)];
    assert_eq!(
        map_memory_encryption_mode(&module, &loads),
        Ok(MemoryEncryptionMode::Xor(XorMemoryEncryption { xor_table_start: 693 }))
    );
}

#[test]
fn encryption_detection_chacha() {
    let mut body = byte_loader_body(693);
    body[0][3] = Instr::Call { func: 3 };
    let module = module_of(vec![load_helper(body)], vec![]);
    let loads = vec![Some(HelperKind::Unsigned8)];
    assert_eq!(map_memory_encryption_mode(&module, &loads), Ok(MemoryEncryptionMode::Chacha20));
}

#[test]
fn encryption_detection_errors() {
    let module = module_of(vec![load_helper(vec![vec![load(LoadKind::I32 { atomic: false }), konst(255)]])], vec![]);
    assert_eq!(
        map_memory_encryption_mode(&module, &vec![Some(HelperKind::Unsigned8)]),
        Err(DeobfuscateError::UnknownEncryption)
    );
    assert_eq!(
        map_memory_encryption_mode(&module, &vec![Some(HelperKind::Signed8)]),
        Err(DeobfuscateError::MissingByteLoader)
    );
}

fn table_segment(table_start: u32, table: &[u8]) -> DataSegment {
    let mut value = vec![0x11u8; 10];
    value.extend_from_slice(table);
    value.extend_from_slice(&[0x22u8; 10]);
    active(table_start as i32 - 10, value)
}

#[test]
fn read_byte_exact_value() {
    let enc = XorMemoryEncryption { xor_table_start: 693 };
    let mut table = vec![0u8; 96];
    table[81] = 0xF0;
    let mut data = vec![0u8; 800];
    data[656] = 1;
    data[681] = 0x0F;
    assert_eq!(enc.read_byte(1024, &data, &table, 657), Some(0xFF));
    data[656] = 0;
    assert_eq!(enc.read_byte(1024, &data, &table, 657), Some(0));
    assert_eq!(enc.read_byte(1024, &data, &table, 2000), None);
    assert_eq!(enc.read_byte(4096, &data, &table, 657), None);
}

#[test]
fn get_xor_table_reads_first_segment() {
    let table: Vec<u8> = (0..96u8).collect();
    let module = module_of(vec![], vec![table_segment(693, &table)]);
    let enc = XorMemoryEncryption { xor_table_start: 693 };
    assert_eq!(enc.get_xor_table(&module), Ok(table));
    let far = XorMemoryEncryption { xor_table_start: 720 };
    assert_eq!(far.get_xor_table(&module), Err(DeobfuscateError::XorTableOutOfRange));
    let low = XorMemoryEncryption { xor_table_start: 600 };
    assert_eq!(low.get_xor_table(&module), Err(DeobfuscateError::XorTableOutOfRange));
    let empty = module_of(vec![], vec![]);
    assert_eq!(enc.get_xor_table(&empty), Err(DeobfuscateError::MissingDataSegment));
}

#[test]
fn decryption_round_trip_zero_condition() {
    let table = vec![0xAAu8; 96];
    let module = module_of(vec![], vec![table_segment(693, &table)]);
    let enc = XorMemoryEncryption { xor_table_start: 693 };
    let mut data = vec![0x55u8; 1000];
    data[656] = 0;
    data[984] = 0;
    let (start, plain) = enc.decrypt(&module, 1024, &data).unwrap();
    assert_eq!(start, 657);
    assert_eq!(plain.len(), data.len());
    assert!(plain.iter().all(|b| *b == 0));
}

#[test]
fn decryption_xors_and_pads() {
    let table: Vec<u8> = (0..96u8).map(|i| i.wrapping_mul(3)).collect();
    let module = module_of(vec![], vec![table_segment(693, &table)]);
    let enc = XorMemoryEncryption { xor_table_start: 693 };
    let data: Vec<u8> = (0..700u32).map(|i| (i % 251) as u8 + 1).collect();
    let (start, plain) = enc.decrypt(&module, 1024, &data).unwrap();
    assert_eq!(start, 657);
    assert_eq!(plain.len(), 700);
    // position 657: condition byte 656 is non-zero, value byte 681
    assert_eq!(plain[0], data[681] ^ table[657 % 96]);
    assert_eq!(plain[1], data[682] ^ table[658 % 96]);
    // from position 960 on the condition byte lies past the payload
    assert_eq!(plain[960 - 657], 0);
    assert_eq!(plain[699], 0);
}

#[test]
fn decryption_offset_relation() {
    let table = vec![1u8; 96];
    let module = module_of(vec![], vec![table_segment(693, &table)]);
    let enc = XorMemoryEncryption { xor_table_start: 693 };
    for data_start in [1024usize, 100000, 343 + 8, 4096] {
        let (start, _) = enc.decrypt(&module, data_start, &vec![0u8; 4]).unwrap();
        assert_eq!(start + ((data_start / 320) << 3) + 320 + 23, data_start);
    }
    assert_eq!(enc.decrypt(&module, 100, &vec![0u8; 4]), Err(DeobfuscateError::DataStartTooLow));
}

#[test]
fn chacha_decryption_is_unsupported() {
    let module = module_of(vec![], vec![]);
    let mode = MemoryEncryptionMode::Chacha20;
    assert_eq!(mode.decrypt(&module, 1024, &vec![0u8; 4]), Err(DeobfuscateError::UnsupportedEncryption));
}

#[test]
fn call_sites_become_direct_accesses() {
    let seq = vec![
        Slot { instr: konst(16), loc: 1 },
        Slot { instr: Instr::Call { func: 1 }, loc: 2 },
        Slot { instr: konst(8), loc: 3 },
        Slot { instr: Instr::Call { func: 2 }, loc: 4 },
        Slot { instr: konst(9), loc: 5 },
        Slot { instr: Instr::Call { func: 0 }, loc: 6 },
    ];
    let loads = vec![None, Some(HelperKind::Unsigned16), None];
    let stores = vec![None, None, Some(HelperKind::Signed32)];
    let after_loads = rewrite_helper_calls(&seq, &loads, false);
    let after_stores = rewrite_helper_calls(&after_loads, &stores, true);
    assert_eq!(
        after_stores,
        vec![
            Slot {
                instr: Instr::Load {
                    memory: 0,
                    kind: LoadKind::I32_16 { kind: ExtendedLoad::ZeroExtend },
                    arg: MemArg { align: 2, offset: 16 },
                },
                loc: 1,
            },
            Slot {
                instr: Instr::Store { memory: 0, kind: StoreKind::I32 { atomic: false }, arg: MemArg { align: 4, offset: 8 } },
                loc: 3,
            },
            Slot { instr: konst(9), loc: 5 },
            Slot { instr: Instr::Call { func: 0 }, loc: 6 },
        ]
    );
}

#[test]
fn call_site_rewrite_is_idempotent() {
    let seq = seq_of(vec![konst(-4), Instr::Call { func: 0 }, konst(1), konst(2), Instr::Call { func: 0 }]);
    let loads = vec![Some(HelperKind::Float64)];
    let once = rewrite_helper_calls(&seq, &loads, false);
    let twice = rewrite_helper_calls(&once, &loads, false);
    assert_eq!(once, twice);
    assert_eq!(once.len(), 3);
    assert_eq!(
        once[0].instr,
        Instr::Load { memory: 0, kind: LoadKind::F64, arg: MemArg { align: 8, offset: 0xFFFF_FFFC } }
    );
    assert_eq!(once[1].instr, konst(1));
}

fn obfuscated_module() -> WasmModule {
    let table: Vec<u8> = (0..96u8).map(|i| i ^ 0x5A).collect();
    let payload: Vec<u8> = (0..400u32).map(|i| (i % 200) as u8 + 1).collect();
    let caller = function(
        vec![],
        vec![],
        false,
        vec![
            vec![Instr::Block { seq: 1 }, konst(4), Instr::Call { func: 0 }, Instr::Return],
            vec![konst(6), konst(5), Instr::Call { func: 1 }],
        ],
    );
    module_of(
        vec![
            load_helper(byte_loader_body(693)),
            store_helper(ValType::I32, vec![vec![store(StoreKind::I32_8 { atomic: false })]]),
            caller,
        ],
        vec![table_segment(693, &table), active(1024, payload)],
    )
}

#[test]
fn transform_deobfuscates_module() {
    let mut module = obfuscated_module();
    let mut t = MemoryTransformer {};
    assert_eq!(t.transform(&mut module), Ok(()));
    assert_eq!(module.data[1].kind, DataKind::Active { memory: 0, offset: ConstExpr::I32 { value: 657 } });
    assert_eq!(module.data[1].value.len(), 400);
    let loader = module.funcs[0].local.as_ref().unwrap();
    assert_eq!(loader.seqs.len(), 1);
    let body: Vec<Instr> = loader.seqs[0].iter().map(|s| s.instr).collect();
    assert_eq!(
        body,
        vec![
            Instr::LocalGet { local: 0 },
            Instr::LocalGet { local: 1 },
            binop(BinaryOp::I32Add),
            Instr::Load {
                memory: 0,
                kind: LoadKind::I32_8 { kind: ExtendedLoad::ZeroExtend },
                arg: MemArg { align: 1, offset: 0 },
            },
            Instr::Return,
        ]
    );
    let storer = module.funcs[1].local.as_ref().unwrap();
    let body: Vec<Instr> = storer.seqs[0].iter().map(|s| s.instr).collect();
    assert_eq!(
        body,
        vec![
            Instr::LocalGet { local: 0 },
            Instr::LocalGet { local: 2 },
            binop(BinaryOp::I32Add),
            Instr::LocalGet { local: 1 },
            Instr::Store { memory: 0, kind: StoreKind::I32_8 { atomic: false }, arg: MemArg { align: 1, offset: 0 } },
            Instr::Return,
        ]
    );
    let caller = module.funcs[2].local.as_ref().unwrap();
    assert_eq!(caller.seqs[0].len(), 3);
    assert_eq!(
        caller.seqs[0][1].instr,
        Instr::Load { memory: 0, kind: LoadKind::I32_8 { kind: ExtendedLoad::ZeroExtend }, arg: MemArg { align: 1, offset: 4 } }
    );
    assert_eq!(caller.seqs[1].len(), 2);
    assert_eq!(
        caller.seqs[1][1].instr,
        Instr::Store { memory: 0, kind: StoreKind::I32_8 { atomic: false }, arg: MemArg { align: 1, offset: 5 } }
    );
}

#[test]
fn transform_twice_finds_no_more_calls() {
    let mut module = obfuscated_module();
    let t = MemoryTransformer {};
    let loads = t.map_load_functions(&module).unwrap();
    let stores = t.map_store_functions(&module).unwrap();
    t.revert_memory_loads(&mut module, &loads);
    t.revert_memory_stores(&mut module, &stores);
    let once: Vec<Vec<Slot>> = module.funcs[2].local.as_ref().unwrap().seqs.clone();
    t.revert_memory_loads(&mut module, &loads);
    t.revert_memory_stores(&mut module, &stores);
    assert_eq!(module.funcs[2].local.as_ref().unwrap().seqs, once);
}

#[test]
fn transform_errors_leave_module_unchanged() {
    let mut module = obfuscated_module();
    module.memories = 0;
    let mut t = MemoryTransformer {};
    assert_eq!(t.transform(&mut module), Err(DeobfuscateError::MissingMemory));
    assert_eq!(module.data[1].value.len(), 400);
    assert_eq!(module.funcs[0].local.as_ref().unwrap().seqs[0].len(), 9);

    let mut module = obfuscated_module();
    module.data.truncate(1);
    assert_eq!(t.transform(&mut module), Err(DeobfuscateError::MissingDataSegment));

    let mut module = obfuscated_module();
    module.data[1].kind = DataKind::Active { memory: 0, offset: ConstExpr::Other };
    assert_eq!(t.transform(&mut module), Err(DeobfuscateError::DataOffsetNotConst));

    let mut module = obfuscated_module();
    module.funcs[0].local.as_mut().unwrap().seqs[0][3].instr = Instr::Call { func: 2 };
    assert_eq!(t.transform(&mut module), Err(DeobfuscateError::UnsupportedEncryption));

    let mut module = obfuscated_module();
    module.funcs[0].results = vec![ValType::Ref];
    assert_eq!(t.transform(&mut module), Err(DeobfuscateError::UnsupportedHelperType));
}

#[test]
fn well_formedness_check() {
    let mut module = obfuscated_module();
    assert!(module.is_well_formed());
    module.funcs[0].local.as_mut().unwrap().args.pop();
    assert!(!module.is_well_formed());
}

const EVENTS: &str = "00,deadbeef,1\n01,cafebabe,0\n";

fn events_module(data_start: i32, events_at: i32, key_at: i32) -> WasmModule {
    let mut payload = vec![0u8; 256];
    let e = (events_at - data_start) as usize;
    let k = (key_at - data_start) as usize;
    for i in 0..100 {
        payload[k + i] = (i as u8).wrapping_mul(37).wrapping_add(0x80);
    }
    for (i, b) in EVENTS.bytes().enumerate() {
        payload[e + i] = b ^ payload[k + i];
    }
    payload[e + EVENTS.len()] = payload[k + EVENTS.len()];
    let setup = function(
        vec![],
        vec![],
        false,
        vec![
            vec![konst(-1), konst(268435455), Instr::Loop { seq: 1 }],
            vec![
                konst(events_at),
                binop(BinaryOp::I32Add),
                load(LoadKind::I32_8 { kind: ExtendedLoad::ZeroExtend }),
                binop(BinaryOp::I32Xor),
                store(StoreKind::I32_8 { atomic: false }),
                Instr::LocalGet { local: 0 },
                konst(28),
                konst(-2147483648),
                konst(0),
            ],
        ],
    );
    let other = function(vec![], vec![], false, vec![vec![konst(-1), konst(0)]]);
    WasmModule {
        funcs: vec![other, setup],
        data: vec![active(0, vec![0u8; 8]), active(data_start, payload)],
        globals: vec![ConstExpr::I32 { value: key_at }],
        memories: 1,
    }
}

#[test]
fn event_extraction() {
    let module = events_module(2048, 2048 + 16, 2048 + 100);
    assert_eq!(fetch_events(&module), Ok(EVENTS.to_string()));
}

#[test]
fn event_extraction_errors() {
    let mut module = events_module(2048, 2048 + 16, 2048 + 100);
    module.globals = vec![];
    assert_eq!(fetch_events(&module), Err(DeobfuscateError::MissingGlobal));

    let mut module = events_module(2048, 2048 + 16, 2048 + 100);
    module.globals = vec![ConstExpr::Other];
    assert_eq!(fetch_events(&module), Err(DeobfuscateError::GlobalNotConst));

    let mut module = events_module(2048, 2048 + 16, 2048 + 100);
    module.funcs.remove(1);
    assert_eq!(fetch_events(&module), Err(DeobfuscateError::MissingEventFunction));

    let mut module = events_module(2048, 2048 + 16, 2048 + 100);
    module.funcs[1].local.as_mut().unwrap().seqs[1][3].instr = binop(BinaryOp::I32Add);
    assert_eq!(fetch_events(&module), Err(DeobfuscateError::MissingXorPattern));

    let mut module = events_module(2048, 2048 + 16, 2048 + 100);
    module.globals = vec![ConstExpr::I32 { value: 1000 }];
    assert_eq!(fetch_events(&module), Err(DeobfuscateError::EventPointerOutOfRange));

    let mut module = events_module(2048, 2048 + 16, 2048 + 100);
    module.data.truncate(1);
    assert_eq!(fetch_events(&module), Err(DeobfuscateError::MissingDataSegment));
}

#[test]
fn read_events_stops_at_end_of_data() {
    let data = vec![b'a' ^ 1, b'b' ^ 2, 1, 2];
    assert_eq!(read_events(100, &data, 100, 102), Ok("ab".to_string()));
    assert_eq!(read_events(100, &data, 102, 102), Ok(String::new()));
    assert_eq!(read_events(100, &data, 99, 102), Err(DeobfuscateError::EventPointerOutOfRange));
    let all = vec![b'x', b'y', 0, 0];
    assert_eq!(read_events(0, &all, 0, 2), Ok("xy".to_string()));
}

#[test]
fn search_pattern_needs_address_above_data_start() {
    let module = events_module(2048, 2048 + 16, 2048 + 100);
    let setup = module.funcs[1].local.as_ref().unwrap();
    assert_eq!(search_pattern(2048, setup), Some((2048 + 16, 28)));
    assert_eq!(search_pattern(4096, setup), None);
}

#[test]
fn collects_constants_in_order() {
    let module = events_module(2048, 2048 + 16, 2048 + 100);
    let setup = module.funcs[1].local.as_ref().unwrap();
    assert_eq!(collect_i32_consts(setup), vec![-1, 268435455, 2048 + 16, 28, -2147483648, 0]);
}

#[test]
fn event_characters() {
    assert!(is_event_char('\n', false));
    assert!(is_event_char(',', false));
    assert!(is_event_char('a', true));
    assert!(!is_event_char('\0', false));
}

#[test]
fn event_table_records() {
    let module = events_module(2048, 2048 + 16, 2048 + 100);
    let events = fetch_events(&module).unwrap();
    let records = parse_events(&events).unwrap();
    assert_eq!(records.len(), 2);
    assert_eq!(records[0].index, "00");
    assert_eq!(records[0].id, 0xdeadbeef);
    assert!(records[0].hash);
    assert_eq!(records[1].index, "01");
    assert_eq!(records[1].id, 0xcafebabe);
    assert!(!records[1].hash);
}

#[test]
fn event_table_rejects_malformed_lines() {
    assert_eq!(parse_events("00,deadbeef").err(), Some(DeobfuscateError::MalformedEvent));
    assert_eq!(parse_events("00,xyz,1").err(), Some(DeobfuscateError::MalformedEvent));
    assert_eq!(parse_events("00,123456789,1").err(), Some(DeobfuscateError::MalformedEvent));
    assert_eq!(parse_events("00,,1").err(), Some(DeobfuscateError::MalformedEvent));
    assert_eq!(parse_events("").unwrap().len(), 0);
    let records = parse_events("\n0a,FFFFFFFF,2\n").unwrap();
    assert_eq!(records.len(), 1);
    assert_eq!(records[0].id, u32::MAX);
    assert!(!records[0].hash);
}

#[test]
fn hex_ids() {
    assert_eq!(parse_hex(&"1f".chars().collect()), Some(31));
    assert_eq!(parse_hex(&"DeadBeef".chars().collect()), Some(0xdeadbeef));
    assert_eq!(parse_hex(&"".chars().collect()), None);
    assert_eq!(parse_hex(&"g".chars().collect()), None);
}

#[test]
fn store_classifier_walks_depth_first() {
    let nested_first = store_helper(
        ValType::I32,
        vec![
            vec![Instr::Block { seq: 1 }, store(StoreKind::I32 { atomic: false })],
            vec![store(StoreKind::I32_8 { atomic: false })],
        ],
    );
    assert_eq!(classify_store_function(&nested_first), Ok(Some(HelperKind::Signed8)));
    let branches = store_helper(
        ValType::I32,
        vec![
            vec![Instr::IfElse { consequent: 1, alternative: 2 }],
            vec![Instr::Return],
            vec![store(StoreKind::I32_16 { atomic: false })],
        ],
    );
    assert_eq!(classify_store_function(&branches), Ok(Some(HelperKind::Signed16)));
}

#[test]
fn constants_follow_depth_first_order() {
    let f = local_of(
        vec![],
        vec![
            vec![konst(1), Instr::Block { seq: 1 }, konst(3), Instr::IfElse { consequent: 2, alternative: 3 }, konst(6)],
            vec![konst(2)],
            vec![konst(4)],
            vec![konst(5)],
        ],
    );
    assert_eq!(collect_i32_consts(&f), vec![1, 2, 3, 4, 5, 6]);
}

#[test]
fn search_pattern_compares_signed() {
    let pattern = |first: i32| {
        local_of(
            vec![],
            vec![vec![
                konst(first),
                binop(BinaryOp::I32Add),
                load(LoadKind::I32_8 { kind: ExtendedLoad::ZeroExtend }),
                binop(BinaryOp::I32Xor),
                store(StoreKind::I32_8 { atomic: false }),
                Instr::Return,
                konst(5),
            ]],
        )
    };
    assert_eq!(search_pattern(1000, &pattern(-1)), None);
    assert_eq!(search_pattern(1000, &pattern(1001)), Some((1001, 5)));
    assert_eq!(search_pattern((-100i32) as u32 as usize, &pattern(5)), Some((5, 5)));
}
