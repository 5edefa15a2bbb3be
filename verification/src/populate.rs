//! Class populator: derives the program's instruction surface and persistent
//! state shape from the captured program class, resolving every declared type
//! name against the recognized primitives and the registered custom types.
//!
//! The state shape (class properties) is resolved first, in member order;
//! the instructions (class methods) are resolved second, in member order,
//! each parameter left to right. The first name that resolves neither to a
//! primitive nor to a custom type aborts the run, as does the first member
//! that is neither a method nor a property.

use vstd::prelude::*;

use crate::extract::{find_name, lemma_find_name, Extraction, StateV};
use crate::ipr::{
    accounts_view, bindings_view, fields_view, instrs_view, lemma_accounts_view_push,
    parse_type_spec, AccountField, AccountV, Binding, BindingV, ErrorV, FieldV, InstrV,
    Instruction, ProgramAccount, ProgramModule, ProgramV, TranspileError, TypeTag, TypeTagV,
};
use crate::model::{ClassDecl, ClassMember, TypedName};

verus! {

/// What a declared type name resolves to: a primitive tag, a reference to a
/// registered custom type, or nothing.
pub open spec fn resolve_type_spec(n: Seq<char>, custom: Seq<AccountV>) -> Option<TypeTagV> {
    match parse_type_spec(n) {
        TypeTagV::Prim(p) => Some(TypeTagV::Prim(p)),
        TypeTagV::Custom(c) => if find_name(custom, c) != -1 {
            Some(TypeTagV::Custom(c))
        } else {
            None
        },
    }
}

/// The program's persistent state shape: the class properties in member
/// order, each type name resolved; the first unresolvable property or
/// unclassifiable member aborts.
pub open spec fn state_fields_spec(members: Seq<ClassMember>, custom: Seq<AccountV>) -> Result<
    Seq<FieldV>,
    ErrorV,
>
    decreases members.len(),
{
    if members.len() == 0 {
        Ok(Seq::empty())
    } else {
        match state_fields_spec(members.drop_last(), custom) {
            Err(e) => Err(e),
            Ok(acc) => match members.last() {
                ClassMember::Property(tn) => match resolve_type_spec(tn.ty_name@, custom) {
                    Some(t) => Ok(acc.push(FieldV { name: tn.name@, ty: t })),
                    None => Err(ErrorV::UnresolvedType(tn.ty_name@)),
                },
                ClassMember::Method { .. } => Ok(acc),
                ClassMember::Unsupported => Err(ErrorV::InvalidClassMember),
            },
        }
    }
}

/// An instruction's parameter list with every type name resolved, left to
/// right; the first unresolvable name aborts.
pub open spec fn resolve_params_spec(params: Seq<TypedName>, custom: Seq<AccountV>) -> Result<
    Seq<FieldV>,
    ErrorV,
>
    decreases params.len(),
{
    if params.len() == 0 {
        Ok(Seq::empty())
    } else {
        match resolve_params_spec(params.drop_last(), custom) {
            Err(e) => Err(e),
            Ok(acc) => match resolve_type_spec(params.last().ty_name@, custom) {
                Some(t) => Ok(acc.push(FieldV { name: params.last().name@, ty: t })),
                None => Err(ErrorV::UnresolvedType(params.last().ty_name@)),
            },
        }
    }
}

/// The state-account bindings every instruction touches: the state fields
/// whose resolved type is a custom record type, in state order.
pub open spec fn bindings_spec(state: Seq<FieldV>) -> Seq<BindingV>
    decreases state.len(),
{
    if state.len() == 0 {
        Seq::empty()
    } else {
        let rest = bindings_spec(state.drop_last());
        match state.last().ty {
            TypeTagV::Custom(c) => rest.push(BindingV { name: state.last().name, account: c }),
            TypeTagV::Prim(_) => rest,
        }
    }
}

/// The instruction surface: one descriptor per class method, in member
/// order, with resolved parameters and the program's state bindings.
pub open spec fn instructions_spec(
    members: Seq<ClassMember>,
    custom: Seq<AccountV>,
    binds: Seq<BindingV>,
) -> Result<Seq<InstrV>, ErrorV>
    decreases members.len(),
{
    if members.len() == 0 {
        Ok(Seq::empty())
    } else {
        match instructions_spec(members.drop_last(), custom, binds) {
            Err(e) => Err(e),
            Ok(acc) => match members.last() {
                ClassMember::Method { name, params } => match resolve_params_spec(
                    params@,
                    custom,
                ) {
                    Ok(ps) => Ok(acc.push(InstrV { name: name@, params: ps, bindings: binds })),
                    Err(e) => Err(e),
                },
                ClassMember::Property(_) => Ok(acc),
                ClassMember::Unsupported => Ok(acc),
            },
        }
    }
}

/// Populating the program from its class: the resolved state shape and the
/// instruction surface, or the first failure.
pub open spec fn populate_spec(c: ClassDecl, custom: Seq<AccountV>) -> Result<
    (Seq<FieldV>, Seq<InstrV>),
    ErrorV,
> {
    match state_fields_spec(c.members@, custom) {
        Err(e) => Err(e),
        Ok(flds) => match instructions_spec(c.members@, custom, bindings_spec(flds)) {
            Err(e) => Err(e),
            Ok(ins) => Ok((flds, ins)),
        },
    }
}

/// Building the IPR from an extraction: a missing program class is fatal;
/// else the class is populated, and the program is named after its class,
/// which also contributes its state shape as one more account.
pub open spec fn build_spec(st: StateV) -> Result<ProgramV, ErrorV> {
    match st.program_class {
        None => Err(ErrorV::MissingProgramClass),
        Some(c) => match populate_spec(c, st.custom_types) {
            Err(e) => Err(e),
            Ok((flds, ins)) => Ok(
                ProgramV {
                    name: c.name@,
                    accounts: st.accounts.push(AccountV { name: c.name@, fields: flds }),
                    custom_types: st.custom_types,
                    state: flds,
                    instructions: ins,
                },
            ),
        },
    }
}

/// Once the state pass has failed on a prefix of the members, it fails the
/// same way on all of them.
pub proof fn lemma_state_fields_err_stable(
    members: Seq<ClassMember>,
    custom: Seq<AccountV>,
    i: int,
)
    requires
        0 <= i <= members.len(),
        state_fields_spec(members.take(i), custom) is Err,
    ensures
        state_fields_spec(members, custom) == state_fields_spec(members.take(i), custom),
    decreases members.len() - i,
{
    if i == members.len() {
        assert(members.take(i) =~= members);
    } else {
        assert(members.take(i + 1).drop_last() =~= members.take(i));
        assert(members.take(i + 1).last() == members[i]);
        lemma_state_fields_err_stable(members, custom, i + 1);
    }
}

/// Once the parameter pass has failed on a prefix, it fails the same way on
/// the whole list.
pub proof fn lemma_resolve_params_err_stable(params: Seq<TypedName>, custom: Seq<AccountV>, i: int)
    requires
        0 <= i <= params.len(),
        resolve_params_spec(params.take(i), custom) is Err,
    ensures
        resolve_params_spec(params, custom) == resolve_params_spec(params.take(i), custom),
    decreases params.len() - i,
{
    if i == params.len() {
        assert(params.take(i) =~= params);
    } else {
        assert(params.take(i + 1).drop_last() =~= params.take(i));
        assert(params.take(i + 1).last() == params[i]);
        lemma_resolve_params_err_stable(params, custom, i + 1);
    }
}

/// Once the instruction pass has failed on a prefix of the members, it
/// fails the same way on all of them.
pub proof fn lemma_instructions_err_stable(
    members: Seq<ClassMember>,
    custom: Seq<AccountV>,
    binds: Seq<BindingV>,
    i: int,
)
    requires
        0 <= i <= members.len(),
        instructions_spec(members.take(i), custom, binds) is Err,
    ensures
        instructions_spec(members, custom, binds) == instructions_spec(
            members.take(i),
            custom,
            binds,
        ),
    decreases members.len() - i,
{
    if i == members.len() {
        assert(members.take(i) =~= members);
    } else {
        assert(members.take(i + 1).drop_last() =~= members.take(i));
        assert(members.take(i + 1).last() == members[i]);
        lemma_instructions_err_stable(members, custom, binds, i + 1);
    }
}

/// Whether a registry holds an account of the given name.
#[verifier::loop_isolation(false)]
fn contains_name(v: &Vec<ProgramAccount>, n: &String) -> (b: bool)
    ensures
        b == (find_name(accounts_view(v@), n@) != -1),
{
    let mut j: usize = 0;
    while j < v.len()
        invariant
            j <= v@.len(),
            forall|k: int| 0 <= k < j ==> accounts_view(v@)[k].name != n@,
        decreases v@.len() - j,
    {
        if v[j].name == *n {
            proof {
                lemma_find_name(accounts_view(v@), n@);
                assert(accounts_view(v@)[j as int] == v@[j as int]@);
            }
            return true;
        }
        proof {
            assert(accounts_view(v@)[j as int] == v@[j as int]@);
        }
        j = j + 1;
    }
    proof {
        lemma_find_name(accounts_view(v@), n@);
    }
    false
}

/// Resolve one declared type name against the primitives and the custom
/// types.
fn resolve_type(name: &String, custom: &Vec<ProgramAccount>) -> (r: Option<TypeTag>)
    ensures
        match r {
            Some(t) => resolve_type_spec(name@, accounts_view(custom@)) == Some(t@),
            None => resolve_type_spec(name@, accounts_view(custom@)) is None,
        },
{
    let t = crate::ipr::parse_type(name);
    match t {
        TypeTag::Prim(p) => Some(TypeTag::Prim(p)),
        TypeTag::Custom(cn) => {
            if contains_name(custom, &cn) {
                Some(TypeTag::Custom(cn))
            } else {
                None
            }
        },
    }
}

/// Resolve the program's state shape from the class members.
#[verifier::loop_isolation(false)]
fn state_fields(members: &Vec<ClassMember>, custom: &Vec<ProgramAccount>) -> (r: Result<
    Vec<AccountField>,
    TranspileError,
>)
    ensures
        match r {
            Ok(flds) => state_fields_spec(members@, accounts_view(custom@)) == Ok::<_, ErrorV>(
                fields_view(flds@),
            ),
            Err(e) => state_fields_spec(members@, accounts_view(custom@)) == Err::<Seq<FieldV>, _>(
                e@,
            ),
        },
{
    let ghost cv = accounts_view(custom@);
    let mut flds: Vec<AccountField> = Vec::new();
    let mut j: usize = 0;
    proof {
        assert(members@.take(0) =~= Seq::<ClassMember>::empty());
        assert(fields_view(flds@) =~= Seq::<FieldV>::empty());
    }
    while j < members.len()
        invariant
            j <= members@.len(),
            state_fields_spec(members@.take(j as int), cv) == Ok::<_, ErrorV>(fields_view(flds@)),
        decreases members@.len() - j,
    {
        proof {
            assert(members@.take(j as int + 1).drop_last() =~= members@.take(j as int));
            assert(members@.take(j as int + 1).last() == members@[j as int]);
        }
        match &members[j] {
            ClassMember::Property(tn) => {
                match resolve_type(&tn.ty_name, custom) {
                    Some(t) => {
                        let ghost prev = flds@;
                        let fld = AccountField { name: tn.name.clone(), ty: t };
                        let ghost fg = fld;
                        flds.push(fld);
                        proof {
                            crate::ipr::lemma_fields_view_push(prev, fg);
                        }
                    },
                    None => {
                        proof {
                            lemma_state_fields_err_stable(members@, cv, j as int + 1);
                        }
                        return Err(TranspileError::UnresolvedType(tn.ty_name.clone()));
                    },
                }
            },
            ClassMember::Method { .. } => {},
            ClassMember::Unsupported => {
                proof {
                    lemma_state_fields_err_stable(members@, cv, j as int + 1);
                }
                return Err(TranspileError::InvalidClassMember);
            },
        }
        j = j + 1;
    }
    proof {
        assert(members@.take(members@.len() as int) =~= members@);
    }
    Ok(flds)
}

/// The bindings derived from the state shape, freshly built for one
/// instruction descriptor.
#[verifier::loop_isolation(false)]
fn make_bindings(state: &Vec<AccountField>) -> (r: Vec<Binding>)
    ensures
        bindings_view(r@) == bindings_spec(fields_view(state@)),
{
    let mut binds: Vec<Binding> = Vec::new();
    let mut j: usize = 0;
    proof {
        assert(fields_view(state@).take(0) =~= Seq::<FieldV>::empty());
        assert(bindings_view(binds@) =~= Seq::<BindingV>::empty());
    }
    while j < state.len()
        invariant
            j <= state@.len(),
            bindings_view(binds@) == bindings_spec(fields_view(state@).take(j as int)),
        decreases state@.len() - j,
    {
        proof {
            assert(fields_view(state@).take(j as int + 1).drop_last() =~= fields_view(
                state@,
            ).take(j as int));
            assert(fields_view(state@).take(j as int + 1).last() == fields_view(state@)[j as int]);
            assert(fields_view(state@)[j as int] == state@[j as int]@);
        }
        match &state[j].ty {
            TypeTag::Custom(cn) => {
                let ghost prev = binds@;
                let b = Binding { name: state[j].name.clone(), account: cn.clone() };
                let ghost bg = b;
                binds.push(b);
                proof {
                    crate::ipr::lemma_bindings_view_push(prev, bg);
                }
            },
            TypeTag::Prim(_) => {},
        }
        j = j + 1;
    }
    proof {
        assert(fields_view(state@).take(state@.len() as int) =~= fields_view(state@));
    }
    binds
}

/// Resolve one instruction's parameter list.
#[verifier::loop_isolation(false)]
fn resolve_params(params: &Vec<TypedName>, custom: &Vec<ProgramAccount>) -> (r: Result<
    Vec<AccountField>,
    TranspileError,
>)
    ensures
        match r {
            Ok(ps) => resolve_params_spec(params@, accounts_view(custom@)) == Ok::<_, ErrorV>(
                fields_view(ps@),
            ),
            Err(e) => resolve_params_spec(params@, accounts_view(custom@)) == Err::<
                Seq<FieldV>,
                _,
            >(e@),
        },
{
    let ghost cv = accounts_view(custom@);
    let mut ps: Vec<AccountField> = Vec::new();
    let mut k: usize = 0;
    proof {
        assert(params@.take(0) =~= Seq::<TypedName>::empty());
        assert(fields_view(ps@) =~= Seq::<FieldV>::empty());
    }
    while k < params.len()
        invariant
            k <= params@.len(),
            resolve_params_spec(params@.take(k as int), cv) == Ok::<_, ErrorV>(fields_view(ps@)),
        decreases params@.len() - k,
    {
        proof {
            assert(params@.take(k as int + 1).drop_last() =~= params@.take(k as int));
            assert(params@.take(k as int + 1).last() == params@[k as int]);
        }
        let p = &params[k];
        match resolve_type(&p.ty_name, custom) {
            Some(t) => {
                let ghost prev = ps@;
                let fld = AccountField { name: p.name.clone(), ty: t };
                let ghost fg = fld;
                ps.push(fld);
                proof {
                    crate::ipr::lemma_fields_view_push(prev, fg);
                }
            },
            None => {
                proof {
                    lemma_resolve_params_err_stable(params@, cv, k as int + 1);
                }
                return Err(TranspileError::UnresolvedType(p.ty_name.clone()));
            },
        }
        k = k + 1;
    }
    proof {
        assert(params@.take(params@.len() as int) =~= params@);
    }
    Ok(ps)
}

/// Derive the instruction surface from the class members.
#[verifier::loop_isolation(false)]
fn instructions(
    members: &Vec<ClassMember>,
    custom: &Vec<ProgramAccount>,
    state: &Vec<AccountField>,
) -> (r: Result<Vec<Instruction>, TranspileError>)
    ensures
        match r {
            Ok(ins) => instructions_spec(
                members@,
                accounts_view(custom@),
                bindings_spec(fields_view(state@)),
            ) == Ok::<_, ErrorV>(instrs_view(ins@)),
            Err(e) => instructions_spec(
                members@,
                accounts_view(custom@),
                bindings_spec(fields_view(state@)),
            ) == Err::<Seq<InstrV>, _>(e@),
        },
{
    let ghost cv = accounts_view(custom@);
    let ghost binds = bindings_spec(fields_view(state@));
    let mut ins: Vec<Instruction> = Vec::new();
    let mut j: usize = 0;
    proof {
        assert(members@.take(0) =~= Seq::<ClassMember>::empty());
        assert(instrs_view(ins@) =~= Seq::<InstrV>::empty());
    }
    while j < members.len()
        invariant
            j <= members@.len(),
            instructions_spec(members@.take(j as int), cv, binds) == Ok::<_, ErrorV>(
                instrs_view(ins@),
            ),
        decreases members@.len() - j,
    {
        proof {
            assert(members@.take(j as int + 1).drop_last() =~= members@.take(j as int));
            assert(members@.take(j as int + 1).last() == members@[j as int]);
        }
        match &members[j] {
            ClassMember::Method { name, params } => {
                match resolve_params(params, custom) {
                    Ok(ps) => {
                        let ghost prev = ins@;
                        let b = make_bindings(state);
                        let instr = Instruction { name: name.clone(), params: ps, bindings: b };
                        let ghost ig = instr;
                        ins.push(instr);
                        proof {
                            crate::ipr::lemma_instrs_view_push(prev, ig);
                        }
                    },
                    Err(e) => {
                        proof {
                            lemma_instructions_err_stable(members@, cv, binds, j as int + 1);
                        }
                        return Err(e);
                    },
                }
            },
            ClassMember::Property(_) => {},
            ClassMember::Unsupported => {},
        }
        j = j + 1;
    }
    proof {
        assert(members@.take(members@.len() as int) =~= members@);
    }
    Ok(ins)
}

/// Rebuild a field list with equal views, to stand in a second record.
#[verifier::loop_isolation(false)]
fn clone_fields(v: &Vec<AccountField>) -> (r: Vec<AccountField>)
    ensures
        fields_view(r@) == fields_view(v@),
{
    let mut out: Vec<AccountField> = Vec::new();
    let mut j: usize = 0;
    proof {
        assert(fields_view(out@) =~= fields_view(v@).take(0));
    }
    while j < v.len()
        invariant
            j <= v@.len(),
            fields_view(out@) == fields_view(v@).take(j as int),
        decreases v@.len() - j,
    {
        let f = &v[j];
        let ty = match &f.ty {
            TypeTag::Prim(p) => TypeTag::Prim(*p),
            TypeTag::Custom(cn) => TypeTag::Custom(cn.clone()),
        };
        let ghost prev = out@;
        let fld = AccountField { name: f.name.clone(), ty };
        let ghost fg = fld;
        out.push(fld);
        proof {
            crate::ipr::lemma_fields_view_push(prev, fg);
            crate::ipr::lemma_take_succ(fields_view(v@), j as int);
            assert(fields_view(v@)[j as int] == v@[j as int]@);
        }
        j = j + 1;
    }
    proof {
        assert(fields_view(v@).take(v@.len() as int) =~= fields_view(v@));
    }
    out
}

/// Build the IPR from an extraction: fail on a missing program class, else
/// populate the instruction surface and state shape from the class, register
/// the class's own state shape as one more account, and name the program
/// after the class.
pub fn build_program(ex: Extraction) -> (r: Result<ProgramModule, TranspileError>)
    ensures
        match r {
            Ok(p) => build_spec(ex@) == Ok::<_, ErrorV>(p@),
            Err(e) => build_spec(ex@) == Err::<ProgramV, _>(e@),
        },
{
    let Extraction { imports: _imports, mut accounts, custom_types, program_class } = ex;
    match program_class {
        None => Err(TranspileError::MissingProgramClass),
        Some(c) => {
            let flds = match state_fields(&c.members, &custom_types) {
                Ok(f) => f,
                Err(e) => {
                    return Err(e);
                },
            };
            let ins = match instructions(&c.members, &custom_types, &flds) {
                Ok(x) => x,
                Err(e) => {
                    return Err(e);
                },
            };
            let class_fields = clone_fields(&flds);
            let ghost prev_accounts = accounts@;
            let class_acct = ProgramAccount { name: c.name.clone(), fields: class_fields };
            let ghost cg = class_acct;
            accounts.push(class_acct);
            proof {
                lemma_accounts_view_push(prev_accounts, cg);
            }
            let p = ProgramModule {
                name: c.name.clone(),
                accounts,
                custom_types,
                state: flds,
                instructions: ins,
            };
            proof {
                assert(p@ =~~= build_spec(ex@)->Ok_0);
            }
            Ok(p)
        },
    }
}

} // verus!
