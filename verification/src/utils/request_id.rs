//! Opaque request-id tokens: a timestamp plus an in-process counter, both in
//! hexadecimal. Collision-resistant within one process's lifetime; not
//! globally unique across processes or restarts.

use vstd::prelude::*;

verus! {

use vstd::string::StringExecFns;
use crate::text::{spec_hex, u64_to_hex};

/// The process-wide id source: a single atomic counter. Owned by the
/// application and shared by reference.
pub struct RequestIdGen {
    counter: std::sync::atomic::AtomicU64,
}

impl RequestIdGen {
    /// A generator whose counter starts at zero.
    pub fn new() -> (r: RequestIdGen) {
        RequestIdGen { counter: std::sync::atomic::AtomicU64::new(0) }
    }

    /// The next counter value; the atomic increment hands every caller in
    /// this process a distinct value.
    fn next(&self) -> (r: u64) {
        self.counter.fetch_add(1, std::sync::atomic::Ordering::Relaxed)
    }
}

/// Microseconds since the Unix epoch, truncated to 64 bits.
/// Relies on `std::time::SystemTime::now`; the duration since the epoch is
/// converted and nothing is promised of the value.
#[verifier::external_body]
fn now_micros() -> (r: u64) {
    let d = std::time::SystemTime::now()
        .duration_since(std::time::UNIX_EPOCH)
        .unwrap_or_default();
    d.as_micros() as u64
}

/// Every hexadecimal rendering has at least one digit.
pub proof fn lemma_hex_len(n: int)
    ensures
        spec_hex(n).len() >= 1,
    decreases n,
{
    if n >= 16 {
        lemma_hex_len(n / 16);
    }
}

/// Generate a fresh request id: hexadecimal timestamp, a dash, and a
/// hexadecimal in-process counter value. Always at least three characters.
pub fn generate(gen: &RequestIdGen) -> (r: String)
    ensures
        r@.len() >= 3,
        exists|t: int, c: int|
            r@ == #[trigger] spec_hex(t) + "-"@ + #[trigger] spec_hex(c),
{
    let t = now_micros();
    let c = gen.next();
    let mut s = u64_to_hex(t);
    s.append("-");
    let cs = u64_to_hex(c);
    s.append(cs.as_str());
    proof {
        reveal_strlit("-");
        lemma_hex_len(t as int);
        lemma_hex_len(c as int);
        assert(s@ == spec_hex(t as int) + "-"@ + spec_hex(c as int));
    }
    s
}

} // verus!
