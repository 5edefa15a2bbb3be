//! Input model: the restricted surface-syntax shapes the translator reads.
//!
//! An input module is an ordered sequence of top-level items, each an import,
//! a default-exported declaration, a named export, or something unrecognized.
//! These types hold, as plain values, exactly what the translation logic
//! inspects of the parsed syntax tree.

use vstd::prelude::*;

verus! {

/// Primitive semantic types recognized by the translator.
#[derive(Clone, Copy, Debug, PartialEq, Eq, Structural)]
pub enum PrimType {
    U8,
    U16,
    U32,
    U64,
    I8,
    I16,
    I32,
    I64,
    Bool,
    Str,
}

/// A name together with the textual name of its declared type,
/// as written in the input (an interface field, a class property,
/// or an instruction parameter).
#[derive(Clone, Debug, PartialEq, Eq)]
pub struct TypedName {
    pub name: String,
    pub ty_name: String,
}

/// An exported interface declaration: a named record shape.
#[derive(Clone, Debug, PartialEq, Eq)]
pub struct InterfaceDecl {
    pub name: String,
    pub fields: Vec<TypedName>,
}

/// One member of the program class body.
#[derive(Clone, Debug, PartialEq, Eq)]
pub enum ClassMember {
    /// A callable instruction with its ordered parameter list.
    Method { name: String, params: Vec<TypedName> },
    /// A field contributing to the program's persistent state shape.
    Property(TypedName),
    /// A member shape the translator does not classify.
    Unsupported,
}

/// The program class: the single default-exported class of the module.
#[derive(Clone, Debug, PartialEq, Eq)]
pub struct ClassDecl {
    pub name: String,
    pub members: Vec<ClassMember>,
}

/// An import statement: its source path and its named specifiers.
#[derive(Clone, Debug, PartialEq, Eq)]
pub struct ImportDecl {
    pub src: String,
    pub names: Vec<String>,
}

/// What a default export declares.
#[derive(Clone, Debug, PartialEq, Eq)]
pub enum DefaultExportKind {
    Class(ClassDecl),
    Function,
    Other,
}

/// What a named export declares.
#[derive(Clone, Debug, PartialEq, Eq)]
pub enum NamedExportKind {
    Interface(InterfaceDecl),
    TypeAlias,
    Enum,
    Other,
}

/// One top-level item of the input module.
#[derive(Clone, Debug, PartialEq, Eq)]
pub enum ModuleItem {
    Import(ImportDecl),
    ExportDefault(DefaultExportKind),
    Export(NamedExportKind),
    Unrecognized,
}

/// A parsed input module: its ordered top-level items.
#[derive(Clone, Debug, PartialEq, Eq)]
pub struct InputModule {
    pub body: Vec<ModuleItem>,
}

} // verus!
