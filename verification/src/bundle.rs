//! Export/import bundle shapes and the defaulting rules an import applies
//! to a parsed bundle. Writing the export file and reading the import file
//! stay with the caller.

use vstd::prelude::*;

verus! {

/// Where the export was written.
#[derive(Debug)]
pub struct ExportBundleResponse {
    pub path: String,
}

/// Request naming the bundle file to import.
#[derive(Debug)]
pub struct ImportBundlePayload {
    pub path: String,
}

/// What an import found.
#[derive(Debug)]
pub struct ImportBundleResponse {
    pub imported: ImportedSummary,
}

/// The counts a bundle declares.
#[derive(Debug, Clone, Copy, PartialEq, Eq, Structural)]
pub struct ImportedSummary {
    pub memory: usize,
    pub tasks: usize,
    pub settings: bool,
}

/// Builds the import summary from the fields a parsed bundle may or may
/// not carry: missing or oversized counts fall back to 0, a missing
/// settings flag to false.
pub fn import_summary(memory: Option<u64>, tasks: Option<u64>, settings: Option<bool>) -> (r:
    ImportBundleResponse)
    ensures
        r.imported.memory == (match memory {
            Some(m) => if m <= usize::MAX as u64 {
                m as usize
            } else {
                0
            },
            None => 0,
        }),
        r.imported.tasks == (match tasks {
            Some(t) => if t <= usize::MAX as u64 {
                t as usize
            } else {
                0
            },
            None => 0,
        }),
        r.imported.settings == (match settings {
            Some(s) => s,
            None => false,
        }),
{
    let memory = match memory {
        Some(m) => if m <= usize::MAX as u64 {
            m as usize
        } else {
            0
        },
        None => 0,
    };
    let tasks = match tasks {
        Some(t) => if t <= usize::MAX as u64 {
            t as usize
        } else {
            0
        },
        None => 0,
    };
    let settings = match settings {
        Some(s) => s,
        None => false,
    };
    ImportBundleResponse { imported: ImportedSummary { memory, tasks, settings } }
}

} // verus!
