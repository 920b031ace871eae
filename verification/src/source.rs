//! Plugin source classification: a source string is classified
//! deterministically by prefix. `http` (which also covers `https`) means a
//! network fetch, `oci://` names a registry artifact, and anything else is a
//! local filesystem path.

use vstd::prelude::*;
use vstd::string::StrSliceExecFns;
use vstd::string::StringExecFns;

verus! {

/// `p` is a prefix of `s`.
pub open spec fn seq_starts_with(s: Seq<char>, p: Seq<char>) -> bool {
    p.len() <= s.len() && forall|j: int| 0 <= j < p.len() ==> s[j] == p[j]
}

/// Whether `s` starts with `prefix`, character by character.
pub fn str_starts_with(s: &str, prefix: &str) -> (r: bool)
    ensures
        r == seq_starts_with(s@, prefix@),
{
    let n = prefix.unicode_len();
    let m = s.unicode_len();
    if n > m {
        return false;
    }
    let mut i: usize = 0;
    while i < n
        invariant
            i <= n,
            n == prefix@.len(),
            m == s@.len(),
            n <= m,
            forall|j: int| 0 <= j < i ==> s@[j] == prefix@[j],
        decreases n - i,
    {
        if s.get_char(i) != prefix.get_char(i) {
            return false;
        }
        i += 1;
    }
    true
}

/// Where a plugin's module bytes come from.
#[derive(Debug)]
pub enum SourceKind {
    /// Fetched over the network from the source string taken as a URL.
    Http,
    /// Pulled from a content-addressed registry; `reference` is the source
    /// string with the registry scheme prefix removed.
    Registry { reference: String },
    /// Read from the source string taken as a local filesystem path.
    Local,
}

/// Classifies a plugin source string by prefix: `http` means a network
/// fetch, otherwise `oci://` means a registry reference (returned with the
/// prefix stripped), and anything else is a local path.
pub fn classify_source(path: &str) -> (r: SourceKind)
    ensures
        seq_starts_with(path@, "http"@) ==> r is Http,
        !seq_starts_with(path@, "http"@) && seq_starts_with(path@, "oci://"@) ==> (r matches
            SourceKind::Registry { reference } && reference@ == path@.subrange(
            "oci://"@.len() as int,
            path@.len() as int,
        )),
        !seq_starts_with(path@, "http"@) && !seq_starts_with(path@, "oci://"@) ==> r is Local,
{
    if str_starts_with(path, "http") {
        SourceKind::Http
    } else if str_starts_with(path, "oci://") {
        proof {
            reveal_strlit("oci://");
        }
        let m = path.unicode_len();
        let reference = String::from_str(path.substring_char(6, m));
        SourceKind::Registry { reference }
    } else {
        SourceKind::Local
    }
}

} // verus!
