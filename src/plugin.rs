//! Plugin categories.
use vstd::prelude::*;

use crate::error::IpcError;

verus! {

/// The two disjoint partitions that plugins belong to.
#[derive(Debug, Clone, Copy, PartialEq, Eq, Structural)]
pub enum PluginType {
    Official,
    Custom,
}

/// The category that a front-end string names, if any.
pub open spec fn plugin_type_of(s: Seq<char>) -> Option<PluginType> {
    if s == "official"@ {
        Some(PluginType::Official)
    } else if s == "custom"@ {
        Some(PluginType::Custom)
    } else {
        None
    }
}

/// Whether `s` holds exactly the characters of `lit`.
fn same_chars(s: &str, lit: &str) -> (r: bool)
    ensures
        r == (s@ == lit@),
{
    let n = s.unicode_len();
    if n != lit.unicode_len() {
        return false;
    }
    let mut i: usize = 0;
    while i < n
        invariant
            n == s@.len(),
            n == lit@.len(),
            i <= n,
            forall|j: int| 0 <= j < i ==> s@[j] == lit@[j],
        decreases n - i,
    {
        if s.get_char(i) != lit.get_char(i) {
            return false;
        }
        i = i + 1;
    }
    assert(s@ =~= lit@);
    true
}

impl PluginType {
    /// Parses the category string of a request.
    pub fn from_str(s: &str) -> (r: Result<PluginType, IpcError>)
        ensures
            match plugin_type_of(s@) {
                Some(t) => r == Ok::<PluginType, IpcError>(t),
                None => r matches Err(IpcError::InvalidPluginType(m)) && m@ == s@,
            },
    {
        if same_chars(s, "official") {
            Ok(PluginType::Official)
        } else if same_chars(s, "custom") {
            Ok(PluginType::Custom)
        } else {
            Err(IpcError::InvalidPluginType(String::from_str(s)))
        }
    }
}

} // verus!
