//! Code emitter: serializes a fully populated IPR into a deterministic
//! token stream — a module declaration, one record definition per account
//! and per custom type, and one function per instruction whose body touches
//! the bound state accounts and the parameters.
//!
//! Emission is a pure function of the IPR: equal views give character-for-
//! character equal output.

use vstd::prelude::*;

use crate::ipr::{
    accounts_view, bindings_view, fields_view, instrs_view, AccountField, AccountV, Binding,
    BindingV, FieldV, InstrV, Instruction, ProgramAccount, ProgramModule, ProgramV, TypeTag,
    TypeTagV,
};
use crate::model::PrimType;

verus! {

/// The target-language spelling of a resolved type.
pub open spec fn type_text(t: TypeTagV) -> Seq<char> {
    match t {
        TypeTagV::Prim(PrimType::U8) => "u8"@,
        TypeTagV::Prim(PrimType::U16) => "u16"@,
        TypeTagV::Prim(PrimType::U32) => "u32"@,
        TypeTagV::Prim(PrimType::U64) => "u64"@,
        TypeTagV::Prim(PrimType::I8) => "i8"@,
        TypeTagV::Prim(PrimType::I16) => "i16"@,
        TypeTagV::Prim(PrimType::I32) => "i32"@,
        TypeTagV::Prim(PrimType::I64) => "i64"@,
        TypeTagV::Prim(PrimType::Bool) => "bool"@,
        TypeTagV::Prim(PrimType::Str) => "String"@,
        TypeTagV::Custom(n) => n,
    }
}

/// One record field declaration.
pub open spec fn field_text(f: FieldV) -> Seq<char> {
    "pub "@ + f.name + ": "@ + type_text(f.ty) + ", "@
}

/// All field declarations of a record, in order.
pub open spec fn fields_text(s: Seq<FieldV>) -> Seq<char>
    decreases s.len(),
{
    if s.len() == 0 {
        Seq::empty()
    } else {
        fields_text(s.drop_last()) + field_text(s.last())
    }
}

/// One record definition.
pub open spec fn account_text(a: AccountV) -> Seq<char> {
    "pub struct "@ + a.name + " { "@ + fields_text(a.fields) + "} "@
}

/// All record definitions of a registry, in order.
pub open spec fn accounts_text(s: Seq<AccountV>) -> Seq<char>
    decreases s.len(),
{
    if s.len() == 0 {
        Seq::empty()
    } else {
        accounts_text(s.drop_last()) + account_text(s.last())
    }
}

/// One instruction parameter.
pub open spec fn param_text(f: FieldV) -> Seq<char> {
    f.name + ": "@ + type_text(f.ty) + ", "@
}

/// All parameters of an instruction, in order.
pub open spec fn params_text(s: Seq<FieldV>) -> Seq<char>
    decreases s.len(),
{
    if s.len() == 0 {
        Seq::empty()
    } else {
        params_text(s.drop_last()) + param_text(s.last())
    }
}

/// One bound state account in an instruction signature.
pub open spec fn binding_text(b: BindingV) -> Seq<char> {
    b.name + ": &mut "@ + b.account + ", "@
}

/// All bound state accounts of an instruction, in order.
pub open spec fn bindings_text(s: Seq<BindingV>) -> Seq<char>
    decreases s.len(),
{
    if s.len() == 0 {
        Seq::empty()
    } else {
        bindings_text(s.drop_last()) + binding_text(s.last())
    }
}

/// A body statement touching one bound state account.
pub open spec fn binding_stmt_text(b: BindingV) -> Seq<char> {
    "let _ = "@ + b.name + "; "@
}

/// The body statements touching the bound state accounts, in order.
pub open spec fn binding_stmts_text(s: Seq<BindingV>) -> Seq<char>
    decreases s.len(),
{
    if s.len() == 0 {
        Seq::empty()
    } else {
        binding_stmts_text(s.drop_last()) + binding_stmt_text(s.last())
    }
}

/// A body statement touching one parameter.
pub open spec fn param_stmt_text(f: FieldV) -> Seq<char> {
    "let _ = "@ + f.name + "; "@
}

/// The body statements touching the parameters, in order.
pub open spec fn param_stmts_text(s: Seq<FieldV>) -> Seq<char>
    decreases s.len(),
{
    if s.len() == 0 {
        Seq::empty()
    } else {
        param_stmts_text(s.drop_last()) + param_stmt_text(s.last())
    }
}

/// One instruction: a function taking the bound accounts and the
/// parameters, whose body touches each of them.
pub open spec fn instr_text(i: InstrV) -> Seq<char> {
    "pub fn "@ + i.name + "("@ + bindings_text(i.bindings) + params_text(i.params) + ") { "@
        + binding_stmts_text(i.bindings) + param_stmts_text(i.params) + "} "@
}

/// The whole instruction surface, in order.
pub open spec fn instrs_text(s: Seq<InstrV>) -> Seq<char>
    decreases s.len(),
{
    if s.len() == 0 {
        Seq::empty()
    } else {
        instrs_text(s.drop_last()) + instr_text(s.last())
    }
}

/// The serialized program: a module holding one record definition per
/// account, one per custom type, and one function per instruction.
pub open spec fn emit_spec(p: ProgramV) -> Seq<char> {
    "pub mod "@ + p.name + " { "@ + accounts_text(p.accounts) + accounts_text(p.custom_types)
        + instrs_text(p.instructions) + "} "@
}

/// Append the spelling of a resolved type.
fn push_type(out: &mut String, t: &TypeTag)
    ensures
        final(out)@ == old(out)@ + type_text(t@),
{
    match t {
        TypeTag::Prim(PrimType::U8) => out.append("u8"),
        TypeTag::Prim(PrimType::U16) => out.append("u16"),
        TypeTag::Prim(PrimType::U32) => out.append("u32"),
        TypeTag::Prim(PrimType::U64) => out.append("u64"),
        TypeTag::Prim(PrimType::I8) => out.append("i8"),
        TypeTag::Prim(PrimType::I16) => out.append("i16"),
        TypeTag::Prim(PrimType::I32) => out.append("i32"),
        TypeTag::Prim(PrimType::I64) => out.append("i64"),
        TypeTag::Prim(PrimType::Bool) => out.append("bool"),
        TypeTag::Prim(PrimType::Str) => out.append("String"),
        TypeTag::Custom(n) => out.append(n.as_str()),
    }
}

/// Append one record field declaration.
fn push_field(out: &mut String, f: &AccountField)
    ensures
        final(out)@ == old(out)@ + field_text(f@),
{
    let ghost start = out@;
    out.append("pub ");
    out.append(f.name.as_str());
    out.append(": ");
    push_type(out, &f.ty);
    out.append(", ");
    proof {
        assert(out@ =~= start + field_text(f@));
    }
}

/// Append all field declarations of a record.
#[verifier::loop_isolation(false)]
fn push_fields(out: &mut String, v: &Vec<AccountField>)
    ensures
        final(out)@ == old(out)@ + fields_text(fields_view(v@)),
{
    let ghost start = out@;
    let mut j: usize = 0;
    proof {
        assert(fields_view(v@).take(0) =~= Seq::<FieldV>::empty());
        assert(start + fields_text(fields_view(v@).take(0)) =~= start);
    }
    while j < v.len()
        invariant
            j <= v@.len(),
            out@ == start + fields_text(fields_view(v@).take(j as int)),
        decreases v@.len() - j,
    {
        proof {
            assert(fields_view(v@).take(j as int + 1).drop_last() =~= fields_view(v@).take(
                j as int,
            ));
            assert(fields_view(v@).take(j as int + 1).last() == fields_view(v@)[j as int]);
            assert(fields_view(v@)[j as int] == v@[j as int]@);
        }
        push_field(out, &v[j]);
        proof {
            assert(out@ =~= start + fields_text(fields_view(v@).take(j as int + 1)));
        }
        j = j + 1;
    }
    proof {
        assert(fields_view(v@).take(v@.len() as int) =~= fields_view(v@));
    }
}

/// Append one record definition.
fn push_account(out: &mut String, a: &ProgramAccount)
    ensures
        final(out)@ == old(out)@ + account_text(a@),
{
    let ghost start = out@;
    out.append("pub struct ");
    out.append(a.name.as_str());
    out.append(" { ");
    push_fields(out, &a.fields);
    out.append("} ");
    proof {
        assert(out@ =~= start + account_text(a@));
    }
}

/// Append all record definitions of a registry.
#[verifier::loop_isolation(false)]
fn push_accounts(out: &mut String, v: &Vec<ProgramAccount>)
    ensures
        final(out)@ == old(out)@ + accounts_text(accounts_view(v@)),
{
    let ghost start = out@;
    let mut j: usize = 0;
    proof {
        assert(accounts_view(v@).take(0) =~= Seq::<AccountV>::empty());
        assert(start + accounts_text(accounts_view(v@).take(0)) =~= start);
    }
    while j < v.len()
        invariant
            j <= v@.len(),
            out@ == start + accounts_text(accounts_view(v@).take(j as int)),
        decreases v@.len() - j,
    {
        proof {
            assert(accounts_view(v@).take(j as int + 1).drop_last() =~= accounts_view(v@).take(
                j as int,
            ));
            assert(accounts_view(v@).take(j as int + 1).last() == accounts_view(v@)[j as int]);
            assert(accounts_view(v@)[j as int] == v@[j as int]@);
        }
        push_account(out, &v[j]);
        proof {
            assert(out@ =~= start + accounts_text(accounts_view(v@).take(j as int + 1)));
        }
        j = j + 1;
    }
    proof {
        assert(accounts_view(v@).take(v@.len() as int) =~= accounts_view(v@));
    }
}

/// Append one parameter.
fn push_param(out: &mut String, f: &AccountField)
    ensures
        final(out)@ == old(out)@ + param_text(f@),
{
    let ghost start = out@;
    out.append(f.name.as_str());
    out.append(": ");
    push_type(out, &f.ty);
    out.append(", ");
    proof {
        assert(out@ =~= start + param_text(f@));
    }
}

/// Append all parameters of an instruction.
#[verifier::loop_isolation(false)]
fn push_params(out: &mut String, v: &Vec<AccountField>)
    ensures
        final(out)@ == old(out)@ + params_text(fields_view(v@)),
{
    let ghost start = out@;
    let mut j: usize = 0;
    proof {
        assert(fields_view(v@).take(0) =~= Seq::<FieldV>::empty());
        assert(start + params_text(fields_view(v@).take(0)) =~= start);
    }
    while j < v.len()
        invariant
            j <= v@.len(),
            out@ == start + params_text(fields_view(v@).take(j as int)),
        decreases v@.len() - j,
    {
        proof {
            assert(fields_view(v@).take(j as int + 1).drop_last() =~= fields_view(v@).take(
                j as int,
            ));
            assert(fields_view(v@).take(j as int + 1).last() == fields_view(v@)[j as int]);
            assert(fields_view(v@)[j as int] == v@[j as int]@);
        }
        push_param(out, &v[j]);
        proof {
            assert(out@ =~= start + params_text(fields_view(v@).take(j as int + 1)));
        }
        j = j + 1;
    }
    proof {
        assert(fields_view(v@).take(v@.len() as int) =~= fields_view(v@));
    }
}

/// Append one bound state account of a signature.
fn push_binding(out: &mut String, b: &Binding)
    ensures
        final(out)@ == old(out)@ + binding_text(b@),
{
    let ghost start = out@;
    out.append(b.name.as_str());
    out.append(": &mut ");
    out.append(b.account.as_str());
    out.append(", ");
    proof {
        assert(out@ =~= start + binding_text(b@));
    }
}

/// Append all bound state accounts of a signature.
#[verifier::loop_isolation(false)]
fn push_bindings(out: &mut String, v: &Vec<Binding>)
    ensures
        final(out)@ == old(out)@ + bindings_text(bindings_view(v@)),
{
    let ghost start = out@;
    let mut j: usize = 0;
    proof {
        assert(bindings_view(v@).take(0) =~= Seq::<BindingV>::empty());
        assert(start + bindings_text(bindings_view(v@).take(0)) =~= start);
    }
    while j < v.len()
        invariant
            j <= v@.len(),
            out@ == start + bindings_text(bindings_view(v@).take(j as int)),
        decreases v@.len() - j,
    {
        proof {
            assert(bindings_view(v@).take(j as int + 1).drop_last() =~= bindings_view(v@).take(
                j as int,
            ));
            assert(bindings_view(v@).take(j as int + 1).last() == bindings_view(v@)[j as int]);
            assert(bindings_view(v@)[j as int] == v@[j as int]@);
        }
        push_binding(out, &v[j]);
        proof {
            assert(out@ =~= start + bindings_text(bindings_view(v@).take(j as int + 1)));
        }
        j = j + 1;
    }
    proof {
        assert(bindings_view(v@).take(v@.len() as int) =~= bindings_view(v@));
    }
}

/// Append the body statements touching the bound state accounts.
#[verifier::loop_isolation(false)]
fn push_binding_stmts(out: &mut String, v: &Vec<Binding>)
    ensures
        final(out)@ == old(out)@ + binding_stmts_text(bindings_view(v@)),
{
    let ghost start = out@;
    let mut j: usize = 0;
    proof {
        assert(bindings_view(v@).take(0) =~= Seq::<BindingV>::empty());
        assert(start + binding_stmts_text(bindings_view(v@).take(0)) =~= start);
    }
    while j < v.len()
        invariant
            j <= v@.len(),
            out@ == start + binding_stmts_text(bindings_view(v@).take(j as int)),
        decreases v@.len() - j,
    {
        proof {
            assert(bindings_view(v@).take(j as int + 1).drop_last() =~= bindings_view(v@).take(
                j as int,
            ));
            assert(bindings_view(v@).take(j as int + 1).last() == bindings_view(v@)[j as int]);
            assert(bindings_view(v@)[j as int] == v@[j as int]@);
        }
        let ghost before = out@;
        out.append("let _ = ");
        out.append(v[j].name.as_str());
        out.append("; ");
        proof {
            assert(out@ =~= before + binding_stmt_text(v@[j as int]@));
            assert(out@ =~= start + binding_stmts_text(bindings_view(v@).take(j as int + 1)));
        }
        j = j + 1;
    }
    proof {
        assert(bindings_view(v@).take(v@.len() as int) =~= bindings_view(v@));
    }
}

/// Append the body statements touching the parameters.
#[verifier::loop_isolation(false)]
fn push_param_stmts(out: &mut String, v: &Vec<AccountField>)
    ensures
        final(out)@ == old(out)@ + param_stmts_text(fields_view(v@)),
{
    let ghost start = out@;
    let mut j: usize = 0;
    proof {
        assert(fields_view(v@).take(0) =~= Seq::<FieldV>::empty());
        assert(start + param_stmts_text(fields_view(v@).take(0)) =~= start);
    }
    while j < v.len()
        invariant
            j <= v@.len(),
            out@ == start + param_stmts_text(fields_view(v@).take(j as int)),
        decreases v@.len() - j,
    {
        proof {
            assert(fields_view(v@).take(j as int + 1).drop_last() =~= fields_view(v@).take(
                j as int,
            ));
            assert(fields_view(v@).take(j as int + 1).last() == fields_view(v@)[j as int]);
            assert(fields_view(v@)[j as int] == v@[j as int]@);
        }
        let ghost before = out@;
        out.append("let _ = ");
        out.append(v[j].name.as_str());
        out.append("; ");
        proof {
            assert(out@ =~= before + param_stmt_text(v@[j as int]@));
            assert(out@ =~= start + param_stmts_text(fields_view(v@).take(j as int + 1)));
        }
        j = j + 1;
    }
    proof {
        assert(fields_view(v@).take(v@.len() as int) =~= fields_view(v@));
    }
}

/// Append one instruction.
fn push_instr(out: &mut String, i: &Instruction)
    ensures
        final(out)@ == old(out)@ + instr_text(i@),
{
    let ghost start = out@;
    out.append("pub fn ");
    out.append(i.name.as_str());
    out.append("(");
    push_bindings(out, &i.bindings);
    push_params(out, &i.params);
    out.append(") { ");
    push_binding_stmts(out, &i.bindings);
    push_param_stmts(out, &i.params);
    out.append("} ");
    proof {
        assert(out@ =~= start + instr_text(i@));
    }
}

/// Append the whole instruction surface.
#[verifier::loop_isolation(false)]
fn push_instrs(out: &mut String, v: &Vec<Instruction>)
    ensures
        final(out)@ == old(out)@ + instrs_text(instrs_view(v@)),
{
    let ghost start = out@;
    let mut j: usize = 0;
    proof {
        assert(instrs_view(v@).take(0) =~= Seq::<InstrV>::empty());
        assert(start + instrs_text(instrs_view(v@).take(0)) =~= start);
    }
    while j < v.len()
        invariant
            j <= v@.len(),
            out@ == start + instrs_text(instrs_view(v@).take(j as int)),
        decreases v@.len() - j,
    {
        proof {
            assert(instrs_view(v@).take(j as int + 1).drop_last() =~= instrs_view(v@).take(
                j as int,
            ));
            assert(instrs_view(v@).take(j as int + 1).last() == instrs_view(v@)[j as int]);
            assert(instrs_view(v@)[j as int] == v@[j as int]@);
        }
        push_instr(out, &v[j]);
        proof {
            assert(out@ =~= start + instrs_text(instrs_view(v@).take(j as int + 1)));
        }
        j = j + 1;
    }
    proof {
        assert(instrs_view(v@).take(v@.len() as int) =~= instrs_view(v@));
    }
}

/// Serialize a fully populated IPR into the target-language token stream.
/// Emission reads the IPR only; the result is determined by its view.
pub fn emit(p: &ProgramModule) -> (r: String)
    ensures
        r@ == emit_spec(p@),
{
    let mut out = String::new();
    out.append("pub mod ");
    out.append(p.name.as_str());
    out.append(" { ");
    push_accounts(&mut out, &p.accounts);
    push_accounts(&mut out, &p.custom_types);
    push_instrs(&mut out, &p.instructions);
    out.append("} ");
    proof {
        assert(out@ =~= emit_spec(p@));
    }
    out
}

} // verus!
