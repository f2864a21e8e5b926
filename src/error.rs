use vstd::prelude::*;

verus! {

/// Errors of the picker: the walk reports `Walk` inline, the rest come from
/// the surrounding program.
#[derive(Debug)]
pub enum AppError {
    /// An input/output failure, with its description.
    Io(String),
    /// A directory entry that could not be read or placed under the root.
    Walk(String),
    NoEditor,
    EditorSpawn,
}

} // verus!
