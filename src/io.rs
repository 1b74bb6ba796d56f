use vstd::prelude::*;

use crate::container::BytesContainer;
use crate::validated_module::{is_mem_io_name, ValidatedModule};

verus! {

/// Logs longer than this many bytes would be truncated in production.
pub const FUNCTION_LOG_LIMIT: usize = 1000;

/// How guest and host exchange input, output and logs.
#[derive(Clone, Copy, Debug, PartialEq, Eq, Structural)]
pub enum IOStrategy {
    /// Standard input, output and error of a deterministic system interface.
    Wasi,
    /// The guest's linear memory, through its `initialize` and `finalize` exports.
    Memory,
}

impl IOStrategy {
    /// The strategy for a module: memory I/O exactly when it uses a memory-I/O provider.
    pub fn for_module(uses_mem_io: bool) -> (r: IOStrategy)
        ensures
            r == (if uses_mem_io { IOStrategy::Memory } else { IOStrategy::Wasi }),
    {
        if uses_mem_io {
            IOStrategy::Memory
        } else {
            IOStrategy::Wasi
        }
    }

    /// Whether `finalize` is called after the guest's export: only for memory
    /// I/O, and only when the guest succeeded.
    pub fn finalizes(&self, guest_succeeded: bool) -> (r: bool)
        ensures
            r == (*self == IOStrategy::Memory && guest_succeeded),
    {
        match self {
            IOStrategy::Memory => guest_succeeded,
            IOStrategy::Wasi => false,
        }
    }

    /// Whether the system interface is linked and given a context.
    pub fn links_wasi(&self) -> (r: bool)
        ensures
            r == (*self == IOStrategy::Wasi),
    {
        match self {
            IOStrategy::Wasi => true,
            IOStrategy::Memory => false,
        }
    }
}

/// The unsigned 32-bit little-endian integer at `b[o..o + 4]`.
pub open spec fn le_u32(b: Seq<u8>, o: int) -> int {
    b[o] as int + b[o + 1] as int * 256 + b[o + 2] as int * 65536 + b[o + 3] as int * 16777216
}

/// The size in bytes of the record that `finalize` points to.
pub const FINALIZE_RECORD_LEN: usize = 24;

/// Where a guest left its output and its two log segments.
#[derive(Clone, Copy, Debug, PartialEq, Eq, Structural)]
pub struct FinalizeRecord {
    pub output_ptr: u32,
    pub output_len: u32,
    pub log_ptr_1: u32,
    pub log_len_1: u32,
    pub log_ptr_2: u32,
    pub log_len_2: u32,
}

fn read_le_u32(b: &[u8], o: usize) -> (r: u32)
    requires
        o + 4 <= b@.len(),
    ensures
        r as int == le_u32(b@, o as int),
{
    let v: u64 = b[o] as u64 + b[o + 1] as u64 * 256 + b[o + 2] as u64 * 65536 + b[o + 3] as u64
        * 16777216;
    v as u32
}

/// A memory range to read: start and length.
#[derive(Clone, Copy, Debug, PartialEq, Eq, Structural)]
pub struct Segment {
    pub ptr: u32,
    pub len: u32,
}

impl FinalizeRecord {
    /// Decode the record: six little-endian `u32`s, in field order.
    pub fn from_le_bytes(b: &[u8]) -> (r: FinalizeRecord)
        requires
            b@.len() == FINALIZE_RECORD_LEN,
        ensures
            r.output_ptr as int == le_u32(b@, 0),
            r.output_len as int == le_u32(b@, 4),
            r.log_ptr_1 as int == le_u32(b@, 8),
            r.log_len_1 as int == le_u32(b@, 12),
            r.log_ptr_2 as int == le_u32(b@, 16),
            r.log_len_2 as int == le_u32(b@, 20),
    {
        FinalizeRecord {
            output_ptr: read_le_u32(b, 0),
            output_len: read_le_u32(b, 4),
            log_ptr_1: read_le_u32(b, 8),
            log_len_1: read_le_u32(b, 12),
            log_ptr_2: read_le_u32(b, 16),
            log_len_2: read_le_u32(b, 20),
        }
    }

    /// The output range.
    pub fn output(&self) -> (r: Segment)
        ensures
            r == (Segment { ptr: self.output_ptr, len: self.output_len }),
    {
        Segment { ptr: self.output_ptr, len: self.output_len }
    }

    /// The log ranges to read, in order; a segment of length zero is no segment,
    /// whatever its pointer.
    pub fn log_segments(&self) -> (r: Vec<Segment>)
        ensures
            r@ == log_segments_of(*self),
    {
        let mut r: Vec<Segment> = Vec::new();
        if self.log_len_1 > 0 {
            r.push(Segment { ptr: self.log_ptr_1, len: self.log_len_1 });
        }
        if self.log_len_2 > 0 {
            r.push(Segment { ptr: self.log_ptr_2, len: self.log_len_2 });
        }
        assert(r@ =~= log_segments_of(*self));
        r
    }
}

/// The non-empty log segments of `f`, first then second.
pub open spec fn log_segments_of(f: FinalizeRecord) -> Seq<Segment> {
    let s1 = Segment { ptr: f.log_ptr_1, len: f.log_len_1 };
    let s2 = Segment { ptr: f.log_ptr_2, len: f.log_len_2 };
    (if f.log_len_1 > 0 { seq![s1] } else { Seq::empty() }) + (if f.log_len_2 > 0 {
        seq![s2]
    } else {
        Seq::empty()
    })
}

/// Join the log segments, in order.
pub fn join_logs(segments: Vec<Vec<u8>>) -> (r: Vec<u8>)
    ensures
        r@ == concat(segments@.map_values(|s: Vec<u8>| s@)),
{
    let ghost parts = segments@.map_values(|s: Vec<u8>| s@);
    let mut logs: Vec<u8> = Vec::new();
    let mut i: usize = 0;
    while i < segments.len()
        invariant
            i <= segments.len(),
            parts == segments@.map_values(|s: Vec<u8>| s@),
            logs@ == concat(parts.take(i as int)),
        decreases segments.len() - i,
    {
        let mut j: usize = 0;
        let ghost before = logs@;
        while j < segments[i].len()
            invariant
                i < segments.len(),
                j <= segments[i as int]@.len(),
                logs@ == before + segments[i as int]@.take(j as int),
            decreases segments[i as int]@.len() - j,
        {
            logs.push(segments[i][j]);
            assert(logs@ =~= before + segments[i as int]@.take(j + 1));
            j = j + 1;
        }
        assert(segments[i as int]@.take(j as int) =~= segments[i as int]@);
        assert(parts.take(i + 1).drop_last() =~= parts.take(i as int));
        i = i + 1;
    }
    assert(parts.take(segments.len() as int) =~= parts);
    logs
}

/// The concatenation of `parts`, in order.
pub open spec fn concat(parts: Seq<Seq<u8>>) -> Seq<u8>
    decreases parts.len(),
{
    if parts.len() == 0 {
        Seq::empty()
    } else {
        concat(parts.drop_last()) + parts.last()
    }
}

/// Whether a validated module exchanges data through linear memory.
pub open spec fn uses_mem_io(m: ValidatedModule) -> bool {
    match m.spec_std_import() {
        Some(p) => is_mem_io_name(p.name@),
        None => false,
    }
}

/// The I/O side of a run: the strategy the module calls for, the module and the input.
#[derive(Debug)]
pub struct IOHandler {
    strategy: IOStrategy,
    module: ValidatedModule,
    input: BytesContainer,
}

impl IOHandler {
    /// The strategy chosen for the module.
    pub closed spec fn spec_strategy(&self) -> IOStrategy {
        self.strategy
    }

    /// The module.
    pub closed spec fn spec_module(&self) -> ValidatedModule {
        self.module
    }

    /// The input.
    pub closed spec fn spec_input(&self) -> BytesContainer {
        self.input
    }

    /// The handler for a module and its input: memory I/O exactly when the
    /// module uses a memory-I/O provider, the system interface otherwise.
    pub fn new(module: ValidatedModule, input: BytesContainer) -> (r: IOHandler)
        ensures
            r.spec_strategy() == (if uses_mem_io(module) {
                IOStrategy::Memory
            } else {
                IOStrategy::Wasi
            }),
            r.spec_module() == module,
            r.spec_input() == input,
    {
        let strategy = IOStrategy::for_module(module.uses_mem_io());
        IOHandler { strategy, module, input }
    }

    /// The strategy chosen for the module.
    pub fn strategy(&self) -> (r: IOStrategy)
        ensures
            r == self.spec_strategy(),
    {
        self.strategy
    }

    /// The module.
    pub fn module(&self) -> (r: &ValidatedModule)
        ensures
            *r == self.spec_module(),
    {
        &self.module
    }

    /// The input.
    pub fn input(&self) -> (r: &BytesContainer)
        ensures
            *r == self.spec_input(),
    {
        &self.input
    }

    /// Give the input back, once the run is over.
    pub fn into_input(self) -> (r: BytesContainer)
        ensures
            r == self.spec_input(),
    {
        self.input
    }

    /// The length handed to the guest's `initialize`: the input's length in
    /// bytes, when it fits in an `i32`.
    pub fn initialize_len(&self) -> (r: Option<i32>)
        ensures
            self.spec_input().raw@.len() <= i32::MAX ==> r == Some(
                self.spec_input().raw@.len() as i32,
            ),
            self.spec_input().raw@.len() > i32::MAX ==> r is None,
    {
        let n = self.input.raw.len();
        if n <= i32::MAX as usize {
            Some(n as i32)
        } else {
            None
        }
    }
}

} // verus!
