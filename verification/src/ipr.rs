//! Intermediate program representation (IPR): the in-memory model of a
//! smart-contract program, and the errors the translation can raise.
//!
//! Each executable type has a view: a ghost counterpart over `Seq<char>`
//! that the contracts speak of.

use vstd::prelude::*;

use crate::model::{InterfaceDecl, PrimType, TypedName};

verus! {

/// A semantic type tag: a recognized primitive, or a reference to a
/// custom record type by name.
#[derive(Clone, Debug, PartialEq, Eq)]
pub enum TypeTag {
    Prim(PrimType),
    Custom(String),
}

/// View of `TypeTag`.
pub enum TypeTagV {
    Prim(PrimType),
    Custom(Seq<char>),
}

impl View for TypeTag {
    type V = TypeTagV;

    open spec fn view(&self) -> TypeTagV {
        match self {
            TypeTag::Prim(p) => TypeTagV::Prim(*p),
            TypeTag::Custom(n) => TypeTagV::Custom(n@),
        }
    }
}

/// One field of a record shape (or one resolved instruction parameter).
#[derive(Clone, Debug, PartialEq, Eq)]
pub struct AccountField {
    pub name: String,
    pub ty: TypeTag,
}

/// View of `AccountField`.
#[verifier::ext_equal]
pub struct FieldV {
    pub name: Seq<char>,
    pub ty: TypeTagV,
}

impl View for AccountField {
    type V = FieldV;

    open spec fn view(&self) -> FieldV {
        FieldV { name: self.name@, ty: self.ty@ }
    }
}

/// A named record shape: one account or custom type.
#[derive(Clone, Debug, PartialEq, Eq)]
pub struct ProgramAccount {
    pub name: String,
    pub fields: Vec<AccountField>,
}

/// View of `ProgramAccount`.
#[verifier::ext_equal]
pub struct AccountV {
    pub name: Seq<char>,
    pub fields: Seq<FieldV>,
}

/// The views of a sequence of fields.
pub open spec fn fields_view(s: Seq<AccountField>) -> Seq<FieldV> {
    s.map_values(|f: AccountField| f@)
}

impl View for ProgramAccount {
    type V = AccountV;

    open spec fn view(&self) -> AccountV {
        AccountV { name: self.name@, fields: fields_view(self.fields@) }
    }
}

/// The views of a sequence of accounts.
pub open spec fn accounts_view(s: Seq<ProgramAccount>) -> Seq<AccountV> {
    s.map_values(|a: ProgramAccount| a@)
}

/// A state-account binding of an instruction: the bound name and the
/// account type it refers to.
#[derive(Clone, Debug, PartialEq, Eq)]
pub struct Binding {
    pub name: String,
    pub account: String,
}

/// View of `Binding`.
#[verifier::ext_equal]
pub struct BindingV {
    pub name: Seq<char>,
    pub account: Seq<char>,
}

impl View for Binding {
    type V = BindingV;

    open spec fn view(&self) -> BindingV {
        BindingV { name: self.name@, account: self.account@ }
    }
}

/// The views of a sequence of bindings.
pub open spec fn bindings_view(s: Seq<Binding>) -> Seq<BindingV> {
    s.map_values(|b: Binding| b@)
}

/// One program entry point: its name, its ordered resolved parameter
/// list, and the state-account bindings it touches.
#[derive(Clone, Debug, PartialEq, Eq)]
pub struct Instruction {
    pub name: String,
    pub params: Vec<AccountField>,
    pub bindings: Vec<Binding>,
}

/// View of `Instruction`.
#[verifier::ext_equal]
pub struct InstrV {
    pub name: Seq<char>,
    pub params: Seq<FieldV>,
    pub bindings: Seq<BindingV>,
}

impl View for Instruction {
    type V = InstrV;

    open spec fn view(&self) -> InstrV {
        InstrV {
            name: self.name@,
            params: fields_view(self.params@),
            bindings: bindings_view(self.bindings@),
        }
    }
}

/// The views of a sequence of instructions.
pub open spec fn instrs_view(s: Seq<Instruction>) -> Seq<InstrV> {
    s.map_values(|i: Instruction| i@)
}

/// The fully populated IPR: program name, account shapes, custom record
/// types, the program's persistent state shape, and its instruction surface.
#[derive(Clone, Debug, PartialEq, Eq)]
pub struct ProgramModule {
    pub name: String,
    pub accounts: Vec<ProgramAccount>,
    pub custom_types: Vec<ProgramAccount>,
    pub state: Vec<AccountField>,
    pub instructions: Vec<Instruction>,
}

/// View of `ProgramModule`.
#[verifier::ext_equal]
pub struct ProgramV {
    pub name: Seq<char>,
    pub accounts: Seq<AccountV>,
    pub custom_types: Seq<AccountV>,
    pub state: Seq<FieldV>,
    pub instructions: Seq<InstrV>,
}

impl View for ProgramModule {
    type V = ProgramV;

    open spec fn view(&self) -> ProgramV {
        ProgramV {
            name: self.name@,
            accounts: accounts_view(self.accounts@),
            custom_types: accounts_view(self.custom_types@),
            state: fields_view(self.state@),
            instructions: instrs_view(self.instructions@),
        }
    }
}

/// Why a translation failed. Every error aborts the whole run; there is
/// no partial output.
#[derive(Clone, Debug, PartialEq, Eq)]
pub enum TranspileError {
    /// A top-level item is not an import, a default export, or a named export.
    InvalidSyntax,
    /// The default export is not a class.
    InvalidDefaultExport,
    /// A named export is not an interface.
    InvalidNamedExport,
    /// No default-exported class was found.
    MissingProgramClass,
    /// A type name resolves neither to a primitive nor to a custom type.
    UnresolvedType(String),
    /// A class member is neither a method nor a property.
    InvalidClassMember,
    /// The emitted text was rejected by the formatter; carries its message.
    FormatFailure(String),
}

/// View of `TranspileError`. The formatter's message is not modeled:
/// it comes from the external collaborator.
pub enum ErrorV {
    InvalidSyntax,
    InvalidDefaultExport,
    InvalidNamedExport,
    MissingProgramClass,
    UnresolvedType(Seq<char>),
    InvalidClassMember,
    FormatFailure,
}

impl View for TranspileError {
    type V = ErrorV;

    open spec fn view(&self) -> ErrorV {
        match self {
            TranspileError::InvalidSyntax => ErrorV::InvalidSyntax,
            TranspileError::InvalidDefaultExport => ErrorV::InvalidDefaultExport,
            TranspileError::InvalidNamedExport => ErrorV::InvalidNamedExport,
            TranspileError::MissingProgramClass => ErrorV::MissingProgramClass,
            TranspileError::UnresolvedType(n) => ErrorV::UnresolvedType(n@),
            TranspileError::InvalidClassMember => ErrorV::InvalidClassMember,
            TranspileError::FormatFailure(_) => ErrorV::FormatFailure,
        }
    }
}

/// What a type name means: a primitive tag where the name is one of the
/// recognized primitive spellings, else a custom-type reference.
pub open spec fn parse_type_spec(n: Seq<char>) -> TypeTagV {
    if n == "u8"@ {
        TypeTagV::Prim(PrimType::U8)
    } else if n == "u16"@ {
        TypeTagV::Prim(PrimType::U16)
    } else if n == "u32"@ {
        TypeTagV::Prim(PrimType::U32)
    } else if n == "u64"@ {
        TypeTagV::Prim(PrimType::U64)
    } else if n == "i8"@ {
        TypeTagV::Prim(PrimType::I8)
    } else if n == "i16"@ {
        TypeTagV::Prim(PrimType::I16)
    } else if n == "i32"@ {
        TypeTagV::Prim(PrimType::I32)
    } else if n == "i64"@ {
        TypeTagV::Prim(PrimType::I64)
    } else if n == "boolean"@ {
        TypeTagV::Prim(PrimType::Bool)
    } else if n == "string"@ {
        TypeTagV::Prim(PrimType::Str)
    } else {
        TypeTagV::Custom(n)
    }
}

/// Classify a type name as a primitive or a custom-type reference.
pub fn parse_type(name: &String) -> (t: TypeTag)
    ensures
        t@ == parse_type_spec(name@),
{
    if *name == "u8".to_owned() {
        TypeTag::Prim(PrimType::U8)
    } else if *name == "u16".to_owned() {
        TypeTag::Prim(PrimType::U16)
    } else if *name == "u32".to_owned() {
        TypeTag::Prim(PrimType::U32)
    } else if *name == "u64".to_owned() {
        TypeTag::Prim(PrimType::U64)
    } else if *name == "i8".to_owned() {
        TypeTag::Prim(PrimType::I8)
    } else if *name == "i16".to_owned() {
        TypeTag::Prim(PrimType::I16)
    } else if *name == "i32".to_owned() {
        TypeTag::Prim(PrimType::I32)
    } else if *name == "i64".to_owned() {
        TypeTag::Prim(PrimType::I64)
    } else if *name == "boolean".to_owned() {
        TypeTag::Prim(PrimType::Bool)
    } else if *name == "string".to_owned() {
        TypeTag::Prim(PrimType::Str)
    } else {
        TypeTag::Custom(name.clone())
    }
}

/// The account shape an exported interface declares: the interface name,
/// and its fields with their type names classified.
pub open spec fn account_of_interface(i: InterfaceDecl) -> AccountV {
    AccountV {
        name: i.name@,
        fields: i.fields@.map_values(
            |f: TypedName| FieldV { name: f.name@, ty: parse_type_spec(f.ty_name@) },
        ),
    }
}

/// Taking one more element appends the element at the boundary.
pub proof fn lemma_take_succ<T>(s: Seq<T>, j: int)
    requires
        0 <= j < s.len(),
    ensures
        s.take(j + 1) =~= s.take(j).push(s[j]),
{
}

/// The view of a sequence of fields extended by one element.
pub proof fn lemma_fields_view_push(s: Seq<AccountField>, x: AccountField)
    ensures
        fields_view(s.push(x)) =~= fields_view(s).push(x@),
{
}

/// The view of a sequence of accounts extended by one element.
pub proof fn lemma_accounts_view_push(s: Seq<ProgramAccount>, x: ProgramAccount)
    ensures
        accounts_view(s.push(x)) =~= accounts_view(s).push(x@),
{
}

/// The view of a sequence of accounts with one element dropped.
pub proof fn lemma_accounts_view_remove(s: Seq<ProgramAccount>, j: int)
    requires
        0 <= j < s.len(),
    ensures
        accounts_view(s.remove(j)) =~= accounts_view(s).remove(j),
{
}

/// The view of a sequence of bindings extended by one element.
pub proof fn lemma_bindings_view_push(s: Seq<Binding>, x: Binding)
    ensures
        bindings_view(s.push(x)) =~= bindings_view(s).push(x@),
{
}

/// The view of a sequence of instructions extended by one element.
pub proof fn lemma_instrs_view_push(s: Seq<Instruction>, x: Instruction)
    ensures
        instrs_view(s.push(x)) =~= instrs_view(s).push(x@),
{
}

impl ProgramAccount {
    /// Convert an exported interface declaration into its account shape.
    pub fn from_interface(i: &InterfaceDecl) -> (a: ProgramAccount)
        ensures
            a@ == account_of_interface(*i),
    {
        let mut fields: Vec<AccountField> = Vec::new();
        let mut j: usize = 0;
        while j < i.fields.len()
            invariant
                j <= i.fields@.len(),
                fields_view(fields@) == account_of_interface(*i).fields.take(j as int),
            decreases i.fields@.len() - j,
        {
            let ghost prev = fields@;
            let f = &i.fields[j];
            let tag = parse_type(&f.ty_name);
            let elem = AccountField { name: f.name.clone(), ty: tag };
            let ghost eg = elem;
            fields.push(elem);
            proof {
                let spec_fields = account_of_interface(*i).fields;
                assert(*f == i.fields@[j as int]);
                assert(eg@ == spec_fields[j as int]);
                lemma_fields_view_push(prev, eg);
                lemma_take_succ(spec_fields, j as int);
            }
            j = j + 1;
        }
        let a = ProgramAccount { name: i.name.clone(), fields };
        proof {
            assert(a@.fields =~~= account_of_interface(*i).fields);
            assert(a@ =~~= account_of_interface(*i));
        }
        a
    }
}

} // verus!
