//! The artifact that records a batch of allocated codes.

use vstd::prelude::*;
use crate::text::{export_file_name, export_name, join_lines, joined, texts};

verus! {

/// The folder in which export artifacts are kept.
pub const EXPORT_FOLDER: &'static str = "./exports";

/// An export that is ready to be written: the name of its file within the
/// export folder, and the text of the file.
#[derive(Clone, Debug, PartialEq, Eq)]
pub struct KeyExport {
    pub file_name: String,
    pub contents: String,
}

/// Prepares the export of a batch: the file is named after the collection
/// and the size of the batch, so that two exports share a name only where
/// they agree in both, and holds the codes one per line, in the order in
/// which they were claimed.
pub fn create_key_export(keys: &Vec<String>, collection_name: &str) -> (r: KeyExport)
    ensures
        r.file_name@ == export_name(collection_name@, keys@.len()),
        r.contents@ == joined(texts(keys@)),
{
    KeyExport {
        file_name: export_file_name(collection_name, keys.len()),
        contents: join_lines(keys),
    }
}

} // verus!
