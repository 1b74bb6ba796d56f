use vstd::prelude::*;

use crate::text::{push_signed_decimal, signed_decimal, text};

verus! {

/// The fuel a guest starts with: all of it.
pub const STARTING_FUEL: u64 = 18446744073709551615;

/// At most two linear memories: one for the module, one for its provider.
pub const MAXIMUM_MEMORIES: usize = 2;

/// The larger of `a` and `b`.
pub open spec fn larger(a: int, b: int) -> int {
    if a >= b {
        a
    } else {
        b
    }
}

/// The high-water mark after growth requests `ds`, starting from `m`.
pub open spec fn grown(m: int, ds: Seq<usize>) -> int
    decreases ds.len(),
{
    if ds.len() == 0 {
        m
    } else {
        larger(grown(m, ds.drop_last()), ds.last() as int)
    }
}

/// Watches linear-memory growth: it allows every request and remembers the
/// largest size requested, in bytes.
#[derive(Debug, Default)]
pub struct MemoryLimiter {
    max_memory_bytes: usize,
}

impl MemoryLimiter {
    /// The largest size requested so far, in bytes.
    pub closed spec fn high_water(&self) -> usize {
        self.max_memory_bytes
    }

    /// A limiter that has seen no request.
    pub fn new() -> (r: MemoryLimiter)
        ensures
            r.high_water() == 0,
    {
        MemoryLimiter { max_memory_bytes: 0 }
    }

    /// A memory asks to grow from `current` to `desired` bytes: allowed, and recorded.
    pub fn memory_growing(&mut self, current: usize, desired: usize, maximum: Option<usize>) -> (r:
        bool)
        ensures
            r,
            final(self).high_water() == larger(old(self).high_water() as int, desired as int),
    {
        if desired > self.max_memory_bytes {
            self.max_memory_bytes = desired;
        }
        true
    }

    /// A table asks to grow: always allowed.
    pub fn table_growing(&mut self, current: usize, desired: usize, maximum: Option<usize>) -> (r:
        bool)
        ensures
            r,
            final(self).high_water() == old(self).high_water(),
    {
        true
    }

    /// How many linear memories a store may hold.
    pub fn memories(&self) -> (r: usize)
        ensures
            r == MAXIMUM_MEMORIES,
    {
        MAXIMUM_MEMORIES
    }

    /// The largest size requested so far, in bytes.
    pub fn max_memory_bytes(&self) -> (r: usize)
        ensures
            r == self.high_water(),
    {
        self.max_memory_bytes
    }

    /// The high-water mark in whole kilobytes (1024 bytes).
    pub fn memory_usage_kb(&self) -> (r: u64)
        ensures
            r == self.high_water() / 1024,
    {
        (self.max_memory_bytes / 1024) as u64
    }
}

/// The memory high-water mark is the largest growth request, and in whole
/// kilobytes it loses nothing when every request is a multiple of 1024 bytes
/// (as whole WebAssembly pages of 64 KiB are).
pub proof fn lemma_memory_high_water(ds: Seq<usize>)
    ensures
        forall|i: int| 0 <= i < ds.len() ==> ds[i] <= grown(0, ds),
        ds.len() > 0 ==> exists|i: int| 0 <= i < ds.len() && ds[i] == grown(0, ds),
        ds.len() == 0 ==> grown(0, ds) == 0,
        (forall|i: int| 0 <= i < ds.len() ==> ds[i] % 1024 == 0) ==> (grown(0, ds) / 1024) * 1024
            == grown(0, ds),
    decreases ds.len(),
{
    if ds.len() > 0 {
        let rest = ds.drop_last();
        lemma_memory_high_water(rest);
        assert forall|i: int| 0 <= i < ds.len() implies ds[i] <= grown(0, ds) by {
            if i < ds.len() - 1 {
                assert(rest[i] == ds[i]);
            }
        }
        if grown(0, rest) >= ds.last() as int && rest.len() > 0 {
            let i = choose|i: int| 0 <= i < rest.len() && rest[i] == grown(0, rest);
            assert(ds[i] == grown(0, ds));
        } else {
            assert(ds[ds.len() - 1] == grown(0, ds));
        }
        if forall|i: int| 0 <= i < ds.len() ==> ds[i] % 1024 == 0 {
            assert forall|i: int| 0 <= i < rest.len() implies rest[i] % 1024 == 0 by {
                assert(rest[i] == ds[i]);
            }
            assert(ds[ds.len() - 1] % 1024 == 0);
        }
    }
}

/// The fuel a guest used, given what was left (none known: all of it used).
pub fn instructions_used(remaining: Option<u64>) -> (r: u64)
    ensures
        r <= STARTING_FUEL,
        r == STARTING_FUEL - match remaining {
            Some(f) => f,
            None => 0,
        },
{
    match remaining {
        Some(f) => STARTING_FUEL - f,
        None => STARTING_FUEL,
    }
}

/// Whole kilobytes (1024 bytes) in `bytes`.
pub fn size_in_kb(bytes: u64) -> (r: u64)
    ensures
        r == bytes / 1024,
{
    bytes / 1024
}

/// How the call of a guest's export ended.
#[derive(Debug)]
pub enum GuestOutcome {
    /// The export returned.
    Returned,
    /// The guest asked to exit with a code.
    Exited(i32),
    /// Any other failure, with its message.
    Trapped(String),
}

impl GuestOutcome {
    /// Whether the outcome counts as a success: a return, or an exit with code 0.
    pub fn succeeded(&self) -> (r: bool)
        ensures
            r == outcome_error(*self) is None,
    {
        match self {
            GuestOutcome::Returned => true,
            GuestOutcome::Exited(c) => *c == 0,
            GuestOutcome::Trapped(_) => false,
        }
    }
}

/// The message for an exit with a non-zero code.
pub open spec fn exit_message(code: i32) -> Seq<char> {
    "module exited with code: "@ + signed_decimal(code as int)
}

/// The error that a guest outcome amounts to, if any: exit code 0 is a success.
pub open spec fn outcome_error(o: GuestOutcome) -> Option<Seq<char>> {
    match o {
        GuestOutcome::Returned => None,
        GuestOutcome::Exited(c) => if c == 0 {
            None
        } else {
            Some(exit_message(c))
        },
        GuestOutcome::Trapped(m) => Some(m@),
    }
}

/// Map a guest outcome to a result: a return or an exit with code 0 succeeds; an
/// exit with another code fails with "module exited with code: N"; any other
/// failure keeps its message.
pub fn guest_result(outcome: GuestOutcome) -> (r: Result<(), String>)
    ensures
        r is Ok <==> outcome_error(outcome) is None,
        r is Err ==> outcome_error(outcome) == Some(r->Err_0@),
{
    match outcome {
        GuestOutcome::Returned => Ok(()),
        GuestOutcome::Exited(code) => {
            if code == 0 {
                Ok(())
            } else {
                let mut m = text("module exited with code: ");
                push_signed_decimal(&mut m, code as i64);
                Err(m)
            }
        },
        GuestOutcome::Trapped(message) => Err(message),
    }
}

} // verus!
