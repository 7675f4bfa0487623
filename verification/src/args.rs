use vstd::prelude::*;

use std::path::PathBuf;

verus! {

/// `std::path::PathBuf` is declared so the argument records below can carry
/// the file to operate on; the library never looks inside the path.
#[verifier::external_type_specification]
#[verifier::external_body]
pub struct ExPathBuf(PathBuf);

/// One command for the codec, as the surrounding tooling hands it over.
pub enum PngMeArgs {
    Encode(EncodeArgs),
    Decode(DecodeArgs),
    Remove(RemoveArgs),
    Print(PrintArgs),
}

/// Hide a message: append a chunk of the given type holding `data` to the
/// file at `path`.
pub struct EncodeArgs {
    pub path: PathBuf,
    pub chunk_type: String,
    pub data: String,
}

/// Retrieve a message: show the text of the first chunk of the given type in
/// the file at `path`.
pub struct DecodeArgs {
    pub path: PathBuf,
    pub chunk_type: String,
}

/// Remove the first chunk of the given type from the file at `path`.
pub struct RemoveArgs {
    pub path: PathBuf,
    pub chunk_type: String,
}

/// List every chunk of the file at `path` in its textual form.
pub struct PrintArgs {
    pub path: PathBuf,
}

} // verus!
