//! How a log client is configured.

use vstd::prelude::*;

verus! {

/// Where the primary log service listens, how long to wait for it, and which
/// collections are served by the alternative log instead.
#[derive(Clone, Debug)]
pub struct GrpcLogConfig {
    pub host: String,
    pub port: u16,
    pub connect_timeout_ms: u64,
    pub request_timeout_ms: u64,
    pub max_encoding_message_size: usize,
    pub max_decoding_message_size: usize,
    /// Collections whose identifier's 64 most significant bits are at most
    /// those of this UUID go to the alternative log.
    pub alt_host_threshold: Option<String>,
    /// Tenants whose collections go to the alternative log.
    pub use_alt_for_tenants: Vec<String>,
    /// Collections (by identifier text) that go to the alternative log.
    pub use_alt_for_collections: Vec<String>,
}

/// Some text of `v` equals `t`.
pub open spec fn texts_contain(v: Seq<String>, t: Seq<char>) -> bool {
    exists|i: int| 0 <= i < v.len() && #[trigger] v[i]@ == t
}

/// Whether a list of texts holds `t`.
pub fn contains_text(v: &Vec<String>, t: &str) -> (r: bool)
    ensures
        r == texts_contain(v@, t@),
{
    let target = String::from_str(t);
    let mut i: usize = 0;
    while i < v.len()
        invariant
            i <= v@.len(),
            target@ == t@,
            forall|k: int| 0 <= k < i ==> v@[k]@ != t@,
        decreases v@.len() - i,
    {
        if v[i] == target {
            assert(v@[i as int]@ == t@);
            return true;
        }
        i = i + 1;
    }
    false
}

} // verus!
