use vstd::prelude::*;

verus! {

/// Why a dump or a restore stopped. Nothing is ever half done: each error
/// aborts the whole operation.
#[derive(Debug)]
pub enum DumpError {
    /// A stored document names a field id that the fields-ids map does not know.
    UnknownFieldId(u16),
    /// A stored field value, of the given field id, is not JSON.
    UndecodableValue(u16),
    /// The meta record is not a JSON object, or lacks its settings object.
    MalformedMeta,
    /// The meta record's settings name an option this index does not have.
    UnknownSetting(String),
    /// The value of the named setting, or of the primary key, has the wrong shape.
    InvalidSetting(String),
    /// The document stream's line of this index (from 0) is not a JSON object.
    MalformedLine(usize),
    /// The documents name more distinct fields than field ids can number.
    TooManyFields,
    /// The snapshot directory has no base name to restore it under.
    InvalidDumpPath,
}

} // verus!
