use vstd::prelude::*;

verus! {

/// Everything that can stop a parse.
#[derive(Debug, Clone, PartialEq, Eq)]
pub enum DemoParserError {
    /// The bit or byte reader ran out of input in the middle of a structure.
    UnexpectedEof,
    /// The file does not start with a known magic.
    UnknownFile,
    /// The file is a Source 1 demo, which is not supported.
    Source1DemoError,
    /// The header announces more bytes than the file holds.
    DemoEndsEarly { expected: u64, actual: u64 },
    /// A message inside a frame could not be decoded.
    MalformedMessage,
    /// An update refers to a string table that was never created.
    StringTableNotFound,
    /// A friendly property name has no entry in the alias table.
    UnknownPropName(String),
    /// A compressed payload could not be decompressed.
    DecompressionFailed,
    /// A field path leaves the serializer graph.
    SchemaInconsistent,
}

} // verus!
