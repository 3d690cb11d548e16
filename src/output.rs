use vstd::prelude::*;
use crate::scan::{own_author, own_author_name};
use vstd::string::StringExecFns;

verus! {

/// Format version written into the header of the output file.
pub const FORMAT_VERSION: u32 = 1067869798;

/// The header of the output file; the file is a plugin.
#[derive(Debug, Clone, PartialEq, Eq)]
pub struct OutputHeader {
    pub version: u32,
    /// This tool's own name, by which it recognises its output.
    pub author: String,
    pub description: String,
    /// Number of records after the header.
    pub records: u32,
}

/// The header of an output file that holds `count` potions, or `None` when the
/// count does not fit in the header.
pub fn output_header(description: &str, count: usize) -> (h: Option<OutputHeader>)
    ensures
        count <= u32::MAX <==> h is Some,
        h matches Some(h) ==> h.version == FORMAT_VERSION && h.author@ == own_author()
            && h.description@ == description@ && h.records == count,
{
    if count > u32::MAX as usize {
        return None;
    }
    Some(
        OutputHeader {
            version: FORMAT_VERSION,
            author: String::from_str(own_author_name()),
            description: String::from_str(description),
            records: count as u32,
        },
    )
}

} // verus!
