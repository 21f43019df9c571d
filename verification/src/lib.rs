//! A verified query-and-edit layer over Android bytecode containers.
//!
//! A container's raw bytes are decoded (through the `smali` crate) into an
//! in-memory model: one record per class, holding its methods and fields as
//! plain values. Search, enumeration and pagination over that model, and the
//! create/replace/delete operations on classes and their members, are
//! implemented and verified here; the binary codec and the smali text
//! grammar stay behind a narrow trusted boundary in `codec`.

use vstd::prelude::*;

pub mod codec;
pub mod edit;
pub mod laws;
pub mod model;
pub mod ops;
pub mod query;
pub mod strutil;

verus! {

/// The failure outcomes of every operation in this crate.
///
/// The lookup failures are reported distinctly per entity kind, so that a
/// caller can tell a missing class from a missing member.
#[derive(Debug)]
pub enum DexEditError {
    /// The input bytes are not a well-formed container.
    Decode(String),
    /// The container decoded, but no class model could be produced from it.
    Disassemble(String),
    /// Caller-supplied text is not a valid class or member definition.
    Parse(String),
    /// No class in the model has the requested type name.
    ClassNotFound,
    /// The class exists, but has no method with the requested name/signature.
    MethodNotFound,
    /// The class exists, but has no field with the requested name.
    FieldNotFound,
    /// The edited model could not be re-encoded into container bytes.
    Recompile(String),
}

impl DexEditError {
    /// A short stable label for the error kind, for callers that render it.
    pub fn label(&self) -> (r: &'static str)
        ensures
            r@ == self.spec_label(),
    {
        match self {
            DexEditError::Decode(_) => "decode error",
            DexEditError::Disassemble(_) => "disassemble error",
            DexEditError::Parse(_) => "parse error",
            DexEditError::ClassNotFound => "class not found",
            DexEditError::MethodNotFound => "method not found",
            DexEditError::FieldNotFound => "field not found",
            DexEditError::Recompile(_) => "recompile error",
        }
    }

    pub open spec fn spec_label(&self) -> Seq<char> {
        match self {
            DexEditError::Decode(_) => "decode error"@,
            DexEditError::Disassemble(_) => "disassemble error"@,
            DexEditError::Parse(_) => "parse error"@,
            DexEditError::ClassNotFound => "class not found"@,
            DexEditError::MethodNotFound => "method not found"@,
            DexEditError::FieldNotFound => "field not found"@,
            DexEditError::Recompile(_) => "recompile error"@,
        }
    }
}

} // verus!
