//! Static deobfuscation of WebAssembly modules whose memory accesses hide
//! behind exported helpers and whose payload data segment is XOR-encrypted.
pub mod model;
pub mod helpers;
pub mod memory_encryption;
pub mod rewrite;
pub mod memory_transformer;
pub mod events;
pub mod event_table;

pub use event_table::{parse_events, EventRecord};
pub use events::{collect_i32_consts, fetch_events, read_events, search_pattern};
pub use helpers::{HelperKind, LoadMemoryFuncMapper, StoreMemoryFuncMapper};
pub use memory_encryption::{map_memory_encryption_mode, MemoryEncryptionMode, XorMemoryEncryption};
pub use memory_transformer::{MemoryTransformer, Transformer};
pub use model::{
    BinaryOp, ConstExpr, DataKind, DataSegment, DeobfuscateError, ExtendedLoad, Function, Instr,
    LoadKind, LocalFunction, MemArg, Slot, StoreKind, ValType, WasmModule,
};
