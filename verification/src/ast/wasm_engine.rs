//! The resource fence of the WASM sandbox: memory limits, fuel, and the
//! classification of the failures a guest can cause.
use vstd::prelude::*;
use crate::text::{contains, to_chars, from_chars, append_chars, contains_exec, decimal, decimal_exec, push_str_chars};
use crate::lean_vacuum::souls_symbol::{ascii_lower, lower_chars};

verus! {

/// Linear-memory ceiling of a grammar guest (16 MiB).
pub const MEMORY_LIMIT_BYTES_GRAMMAR: usize = 16777216;

/// Linear-memory ceiling of an interpreter guest (32 MiB).
pub const MEMORY_LIMIT_BYTES_PYTHON: usize = 33554432;

/// Default linear-memory ceiling.
pub const MEMORY_LIMIT_BYTES: usize = MEMORY_LIMIT_BYTES_GRAMMAR;

/// Fuel granted to one guest call.
pub const FUEL_LIMIT: u64 = 10_000_000;

/// The memory policy of a store: linear memory may grow up to `bytes`.
pub struct WasmMemoryLimiter {
    bytes: usize,
}

impl WasmMemoryLimiter {
    /// The ceiling in bytes.
    pub closed spec fn limit(&self) -> usize {
        self.bytes
    }

    /// A limiter allowing `bytes` bytes of linear memory.
    pub fn new(bytes: usize) -> (r: Self)
        ensures
            r.limit() == bytes,
    {
        Self { bytes }
    }

    /// Whether memory may grow to `desired` bytes.
    pub fn memory_growing(&self, current: usize, desired: usize, maximum: Option<usize>) -> (b: bool)
        ensures
            b == (desired <= self.limit()),
    {
        desired <= self.bytes
    }

    /// Whether a table may grow: always.
    pub fn table_growing(&self, current: usize, desired: usize, maximum: Option<usize>) -> (b: bool)
        ensures
            b,
    {
        true
    }
}

/// How a guest failed.
pub enum WasmTrap {
    Unreachable { reason: String },
    Oom { reason: String },
    FuelExhausted { fuel_consumed: u64 },
    PermissionDenied { reason: String },
    StructuredFailure { reason: String },
    HostPanic { reason: String },
}

/// The message of a trap.
pub open spec fn trap_message(t: WasmTrap) -> Seq<char> {
    match t {
        WasmTrap::Unreachable { reason } => "WASM_UNREACHABLE: "@ + reason@,
        WasmTrap::Oom { reason } => "WASM_OOM: "@ + reason@,
        WasmTrap::FuelExhausted { fuel_consumed } => "WASM_FUEL_EXHAUSTED: guest consumiu "@ + decimal(
            fuel_consumed as nat,
        ) + " fuel units (teto "@ + decimal(FUEL_LIMIT as nat) + ")"@,
        WasmTrap::PermissionDenied { reason } => "WASM_PERMISSION_DENIED: "@ + reason@,
        WasmTrap::StructuredFailure { reason } => "WASM_STRUCTURED_FAILURE: "@ + reason@,
        WasmTrap::HostPanic { reason } => "WASM_HOST_PANIC: "@ + reason@,
    }
}

impl WasmTrap {
    /// The trap's message: its kind, then its reason or the fuel it used.
    pub fn message(&self) -> (r: String)
        ensures
            r@ == trap_message(*self),
    {
        let mut out: Vec<char> = Vec::new();
        match self {
            WasmTrap::Unreachable { reason } => {
                push_str_chars(&mut out, "WASM_UNREACHABLE: ");
                append_chars(&mut out, &to_chars(reason.as_str()));
            },
            WasmTrap::Oom { reason } => {
                push_str_chars(&mut out, "WASM_OOM: ");
                append_chars(&mut out, &to_chars(reason.as_str()));
            },
            WasmTrap::FuelExhausted { fuel_consumed } => {
                push_str_chars(&mut out, "WASM_FUEL_EXHAUSTED: guest consumiu ");
                append_chars(&mut out, &decimal_exec(*fuel_consumed));
                push_str_chars(&mut out, " fuel units (teto ");
                append_chars(&mut out, &decimal_exec(FUEL_LIMIT));
                push_str_chars(&mut out, ")");
            },
            WasmTrap::PermissionDenied { reason } => {
                push_str_chars(&mut out, "WASM_PERMISSION_DENIED: ");
                append_chars(&mut out, &to_chars(reason.as_str()));
            },
            WasmTrap::StructuredFailure { reason } => {
                push_str_chars(&mut out, "WASM_STRUCTURED_FAILURE: ");
                append_chars(&mut out, &to_chars(reason.as_str()));
            },
            WasmTrap::HostPanic { reason } => {
                push_str_chars(&mut out, "WASM_HOST_PANIC: ");
                append_chars(&mut out, &to_chars(reason.as_str()));
            },
        }
        from_chars(&out)
    }
}

/// The kind of failure a guest error's description names, looked up
/// without regard to ASCII case.
pub open spec fn trap_kind(reason: Seq<char>, fuel_consumed: u64, r: WasmTrap) -> bool {
    let l = ascii_lower(reason);
    if contains(l, "unreachable"@) {
        r is Unreachable && r->Unreachable_reason@ == reason
    } else if contains(l, "out of memory"@) || contains(l, "memory growth"@) || contains(l, "allocation"@) {
        r is Oom && r->Oom_reason@ == reason
    } else if contains(l, "fuel"@) || contains(l, "interrupt"@) {
        r == WasmTrap::FuelExhausted { fuel_consumed }
    } else if contains(l, "permission"@) || contains(l, "not capable"@) || contains(l, "capabilities"@) || contains(
        l,
        "access denied"@,
    ) {
        r is PermissionDenied && r->PermissionDenied_reason@ == reason
    } else {
        r is StructuredFailure && r->StructuredFailure_reason@ == reason
    }
}

/// Classifies a guest error from its description: unreachable code, memory
/// exhaustion, fuel exhaustion, a denied capability, or another failure.
pub fn classify_trap(reason: String, fuel_consumed: u64) -> (r: WasmTrap)
    ensures
        trap_kind(reason@, fuel_consumed, r),
{
    let lower = lower_chars(&to_chars(reason.as_str()));
    if contains_exec(&lower, &to_chars("unreachable")) {
        WasmTrap::Unreachable { reason }
    } else if contains_exec(&lower, &to_chars("out of memory")) || contains_exec(&lower, &to_chars("memory growth"))
        || contains_exec(&lower, &to_chars("allocation")) {
        WasmTrap::Oom { reason }
    } else if contains_exec(&lower, &to_chars("fuel")) || contains_exec(&lower, &to_chars("interrupt")) {
        WasmTrap::FuelExhausted { fuel_consumed }
    } else if contains_exec(&lower, &to_chars("permission")) || contains_exec(&lower, &to_chars("not capable"))
        || contains_exec(&lower, &to_chars("capabilities")) || contains_exec(&lower, &to_chars("access denied")) {
        WasmTrap::PermissionDenied { reason }
    } else {
        WasmTrap::StructuredFailure { reason }
    }
}

} // verus!
