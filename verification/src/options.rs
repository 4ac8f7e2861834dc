use vstd::prelude::*;

verus! {

/// How the surrounding application backs the byte buffer: reading the whole
/// file up front, or mapping it into memory.
#[derive(Clone, Copy, PartialEq, Eq, Structural, Debug)]
pub enum BackingOption {
    File,
    Mmap,
}

/// The command-line options of the surrounding application: which file to
/// inspect and how to back its bytes.  The argument-parsing layer owns the
/// actual parser and hands over this plain record.
pub struct CliOptions {
    pub filename: String,
    pub backing: BackingOption,
}

} // verus!
