//! The generated declarations handed to the external code emitter: type
//! declarations (visibility, name, field list) and operation declarations
//! (receiver, name, zero-or-one parameter, produced type), each directly
//! emittable as a compilable declaration.

use vstd::prelude::*;

verus! {

/// One field of a generated stage type: its name and the source text of
/// its declared type.
#[derive(Debug)]
pub struct GeneratedField {
    pub name: String,
    pub ty: String,
}

/// One generated stage type: the intermediate stages each carry the
/// required fields already supplied; the terminal stage carries them all.
#[derive(Debug)]
pub struct StageDecl {
    pub vis: String,
    pub name: String,
    pub fields: Vec<GeneratedField>,
}

/// What a generated operation does, which fixes how its body is emitted.
#[derive(PartialEq, Eq, Structural, Clone, Copy, Debug)]
pub enum OpKind {
    /// Consumes one intermediate stage and produces the next one, adding
    /// the parameter as a newly supplied required field.
    Forward,
    /// Overwrites one optional field of the terminal stage and returns the
    /// same stage.
    SetOptional,
    /// Consumes the terminal stage and produces the record.
    Finalize,
    /// The static factory on the record type that starts the chain.
    Factory,
}

/// One generated operation: `receiver` is the type the operation is
/// declared on, `param` its single parameter if it has one, `output` the
/// produced type. `moved_fields` are the receiver's fields transferred
/// into the produced value, in emission order; `absent_fields` are the
/// optional fields the produced value initializes to absent.
#[derive(Debug)]
pub struct OperationDecl {
    pub kind: OpKind,
    pub receiver: String,
    pub name: String,
    pub param: Option<GeneratedField>,
    pub output: String,
    pub moved_fields: Vec<String>,
    pub absent_fields: Vec<String>,
}

/// One generated declaration, in emission order.
#[derive(Debug)]
pub enum Decl {
    Stage(StageDecl),
    Operation(OperationDecl),
}

} // verus!
