//! Laws of the translation pipeline, stated over the specification
//! functions of the extractor, the populator and the emitter, and proved
//! for every input they admit.

use vstd::prelude::*;

use crate::emit::emit_spec;
use crate::extract::{
    classify_item, find_name, lemma_find_name, run_extract, upsert, StateV,
};
use crate::fmt::formatted_of;
use crate::ipr::{AccountV, ErrorV, ProgramModule};
use crate::model::{ClassMember, DefaultExportKind, ModuleItem, NamedExportKind, TypedName};
use crate::populate::{
    bindings_spec, build_spec, instructions_spec, resolve_params_spec, resolve_type_spec,
    state_fields_spec,
};
use crate::transpiler::transpile_spec;

verus! {

/// Whether one top-level item is rejected by classification, and how.
pub open spec fn item_error(it: ModuleItem) -> Option<ErrorV> {
    match it {
        ModuleItem::Import(_) => None,
        ModuleItem::ExportDefault(DefaultExportKind::Class(_)) => None,
        ModuleItem::ExportDefault(_) => Some(ErrorV::InvalidDefaultExport),
        ModuleItem::Export(NamedExportKind::Interface(_)) => None,
        ModuleItem::Export(_) => Some(ErrorV::InvalidNamedExport),
        ModuleItem::Unrecognized => Some(ErrorV::InvalidSyntax),
    }
}

/// Whether the item is an exported interface declaration.
pub open spec fn is_interface_item(it: ModuleItem) -> bool {
    it matches ModuleItem::Export(NamedExportKind::Interface(_))
}

/// The name an exported interface declares (the empty sequence elsewhere).
pub open spec fn interface_name_of(it: ModuleItem) -> Seq<char> {
    match it {
        ModuleItem::Export(NamedExportKind::Interface(i)) => i.name@,
        _ => Seq::empty(),
    }
}

/// Whether the item is a default-exported class.
pub open spec fn is_default_class_item(it: ModuleItem) -> bool {
    it matches ModuleItem::ExportDefault(DefaultExportKind::Class(_))
}

/// How many exported interfaces the module declares.
pub open spec fn count_interfaces(items: Seq<ModuleItem>) -> int
    decreases items.len(),
{
    if items.len() == 0 {
        0
    } else {
        (if is_interface_item(items.first()) {
            1int
        } else {
            0int
        }) + count_interfaces(items.drop_first())
    }
}

/// Whether the module holds a default-exported class.
pub open spec fn has_default_class(items: Seq<ModuleItem>) -> bool {
    exists|k: int| 0 <= k < items.len() && is_default_class_item(items[k])
}

/// Whether the module exports an interface of the given name.
pub open spec fn has_interface_named(items: Seq<ModuleItem>, n: Seq<char>) -> bool {
    exists|k: int|
        0 <= k < items.len() && is_interface_item(items[k]) && interface_name_of(items[k]) == n
}

/// Whether a registry holds an account of the given name.
pub open spec fn has_name(s: Seq<AccountV>, n: Seq<char>) -> bool {
    exists|k: int| 0 <= k < s.len() && s[k].name == n
}

/// Whether the registry's names are pairwise distinct.
pub open spec fn unique_names(s: Seq<AccountV>) -> bool {
    forall|k1: int, k2: int| 0 <= k1 < k2 < s.len() ==> s[k1].name != s[k2].name
}

/// Whether the module's exported interfaces bear pairwise distinct names.
pub open spec fn distinct_interface_names(items: Seq<ModuleItem>) -> bool {
    forall|k1: int, k2: int|
        0 <= k1 < k2 < items.len() && is_interface_item(items[k1]) && is_interface_item(items[k2])
            ==> interface_name_of(items[k1]) != interface_name_of(items[k2])
}

/// How many methods (instructions) the class body declares.
pub open spec fn count_methods(members: Seq<ClassMember>) -> int
    decreases members.len(),
{
    if members.len() == 0 {
        0
    } else {
        count_methods(members.drop_last()) + (if members.last() matches ClassMember::Method { .. } {
            1int
        } else {
            0int
        })
    }
}

/// Registering an account in a registry of pairwise-distinct names keeps
/// the names distinct; the registered name is present afterwards and no
/// other name appears or disappears; the registry grows by one entry
/// exactly when the name was absent.
pub proof fn lemma_upsert_props(s: Seq<AccountV>, a: AccountV)
    requires
        unique_names(s),
    ensures
        unique_names(upsert(s, a)),
        forall|n: Seq<char>| has_name(upsert(s, a), n) <==> (has_name(s, n) || n == a.name),
        has_name(s, a.name) ==> upsert(s, a).len() == s.len(),
        !has_name(s, a.name) ==> upsert(s, a).len() == s.len() + 1,
{
    lemma_find_name(s, a.name);
    let f = find_name(s, a.name);
    if f == -1 {
        assert(!has_name(s, a.name));
        let t = s.push(a);
        assert(upsert(s, a) == t);
        assert forall|k1: int, k2: int| 0 <= k1 < k2 < t.len() implies t[k1].name != t[k2].name by {
            if k2 == s.len() {
                assert(t[k1] == s[k1]);
                assert(t[k2] == a);
            }
        }
        assert forall|n: Seq<char>| has_name(t, n) <==> (has_name(s, n) || n == a.name) by {
            if has_name(t, n) {
                let k = choose|k: int| 0 <= k < t.len() && t[k].name == n;
                if k < s.len() {
                    assert(s[k].name == n);
                } else {
                    assert(t[k] == a);
                }
            }
            if has_name(s, n) {
                let k = choose|k: int| 0 <= k < s.len() && s[k].name == n;
                assert(t[k].name == n);
            }
            if n == a.name {
                assert(t[s.len() as int].name == n);
            }
        }
    } else {
        assert(s[f].name == a.name);
        assert(has_name(s, a.name));
        let u = s.remove(f);
        let t = u.push(a);
        assert(upsert(s, a) == t);
        assert(u.len() == s.len() - 1);
        assert(forall|k: int|
            0 <= k < u.len() ==> u[k] == (if k < f {
                s[k]
            } else {
                s[k + 1]
            }));
        assert forall|k: int| 0 <= k < u.len() implies u[k].name != a.name by {
            if k < f {
            } else {
                assert(u[k] == s[k + 1]);
                assert(s[k + 1].name != s[f].name);
            }
        }
        assert forall|k1: int, k2: int| 0 <= k1 < k2 < t.len() implies t[k1].name != t[k2].name by {
            if k2 == u.len() {
                assert(t[k2] == a);
                assert(t[k1] == u[k1]);
            } else {
                assert(t[k1] == u[k1]);
                assert(t[k2] == u[k2]);
            }
        }
        assert forall|n: Seq<char>| has_name(t, n) <==> (has_name(s, n) || n == a.name) by {
            if has_name(t, n) {
                let k = choose|k: int| 0 <= k < t.len() && t[k].name == n;
                if k < u.len() {
                    if k < f {
                        assert(s[k].name == n);
                    } else {
                        assert(s[k + 1].name == n);
                    }
                } else {
                    assert(t[k] == a);
                }
            }
            if has_name(s, n) && n != a.name {
                let k = choose|k: int| 0 <= k < s.len() && s[k].name == n;
                if k < f {
                    assert(t[k].name == n);
                } else {
                    assert(k != f);
                    assert(t[k - 1] == u[k - 1]);
                    assert(u[k - 1] == s[k]);
                }
            }
            if n == a.name {
                assert(t[u.len() as int].name == n);
            }
        }
    }
}

/// Over a module whose every item classifies, extraction succeeds; the
/// account and custom-type registries are the same, with pairwise-distinct
/// names, holding exactly the names of the exported interfaces; and a
/// program class is captured exactly when the module declares one.
pub proof fn lemma_extract_all_ok(items: Seq<ModuleItem>)
    requires
        forall|k: int| 0 <= k < items.len() ==> item_error(items[k]) is None,
    ensures
        run_extract(items) is Ok,
        ({
            let st = run_extract(items)->Ok_0;
            &&& st.accounts == st.custom_types
            &&& unique_names(st.custom_types)
            &&& forall|n: Seq<char>| has_name(st.custom_types, n) <==> has_interface_named(items, n)
            &&& (st.program_class is Some <==> has_default_class(items))
        }),
    decreases items.len(),
{
    if items.len() == 0 {
        let st = run_extract(items)->Ok_0;
        assert forall|n: Seq<char>| !has_name(st.custom_types, n) by {}
    } else {
        let rest = items.drop_first();
        let it0 = items.first();
        assert(item_error(it0) is None);
        assert forall|k: int| 0 <= k < rest.len() implies item_error(rest[k]) is None by {
            assert(rest[k] == items[k + 1]);
        }
        lemma_extract_all_ok(rest);
        let st = run_extract(rest)->Ok_0;
        assert(run_extract(items) == classify_item(st, it0));
        match it0 {
            ModuleItem::Export(NamedExportKind::Interface(i)) => {
                let a = crate::ipr::account_of_interface(i);
                lemma_upsert_props(st.custom_types, a);
                let stn = run_extract(items)->Ok_0;
                assert(stn.custom_types == upsert(st.custom_types, a));
                assert(stn.accounts == upsert(st.accounts, a));
                assert forall|n: Seq<char>|
                    has_name(stn.custom_types, n) <==> has_interface_named(items, n) by {
                    assert(has_name(st.custom_types, n) <==> has_interface_named(rest, n));
                    if has_name(stn.custom_types, n) {
                        assert(has_name(st.custom_types, n) || n == a.name);
                        if has_name(st.custom_types, n) {
                            assert(has_interface_named(rest, n));
                            let k = choose|k: int|
                                0 <= k < rest.len() && is_interface_item(rest[k])
                                    && interface_name_of(rest[k]) == n;
                            assert(items[k + 1] == rest[k]);
                            assert(has_interface_named(items, n));
                        } else {
                            assert(n == a.name);
                            assert(is_interface_item(items[0]));
                            assert(interface_name_of(items[0]) == n);
                        }
                    }
                    if has_interface_named(items, n) {
                        let k = choose|k: int|
                            0 <= k < items.len() && is_interface_item(items[k])
                                && interface_name_of(items[k]) == n;
                        if k == 0 {
                            assert(n == a.name);
                        } else {
                            assert(rest[k - 1] == items[k]);
                            assert(has_interface_named(rest, n));
                        }
                    }
                }
                assert forall|k: int|
                    0 <= k < items.len() && is_default_class_item(items[k]) implies k >= 1 by {}
                assert(has_default_class(items) <==> has_default_class(rest)) by {
                    if has_default_class(items) {
                        let k = choose|k: int|
                            0 <= k < items.len() && is_default_class_item(items[k]);
                        assert(rest[k - 1] == items[k]);
                    }
                    if has_default_class(rest) {
                        let k = choose|k: int| 0 <= k < rest.len() && is_default_class_item(rest[k]);
                        assert(items[k + 1] == rest[k]);
                    }
                }
            },
            ModuleItem::ExportDefault(DefaultExportKind::Class(_)) => {
                let stn = run_extract(items)->Ok_0;
                assert(stn.custom_types == st.custom_types);
                assert(is_default_class_item(items[0]));
                assert(has_default_class(items));
                assert forall|n: Seq<char>|
                    has_name(stn.custom_types, n) <==> has_interface_named(items, n) by {
                    assert(has_name(st.custom_types, n) <==> has_interface_named(rest, n));
                    if has_name(stn.custom_types, n) {
                        assert(has_interface_named(rest, n));
                        let k = choose|k: int|
                            0 <= k < rest.len() && is_interface_item(rest[k])
                                && interface_name_of(rest[k]) == n;
                        assert(items[k + 1] == rest[k]);
                    }
                    if has_interface_named(items, n) {
                        let k = choose|k: int|
                            0 <= k < items.len() && is_interface_item(items[k])
                                && interface_name_of(items[k]) == n;
                        assert(k >= 1);
                        assert(rest[k - 1] == items[k]);
                    }
                }
            },
            ModuleItem::Import(_) => {
                let stn = run_extract(items)->Ok_0;
                assert(stn.custom_types == st.custom_types);
                assert forall|n: Seq<char>|
                    has_name(stn.custom_types, n) <==> has_interface_named(items, n) by {
                    assert(has_name(st.custom_types, n) <==> has_interface_named(rest, n));
                    if has_name(stn.custom_types, n) {
                        assert(has_interface_named(rest, n));
                        let k = choose|k: int|
                            0 <= k < rest.len() && is_interface_item(rest[k])
                                && interface_name_of(rest[k]) == n;
                        assert(items[k + 1] == rest[k]);
                    }
                    if has_interface_named(items, n) {
                        let k = choose|k: int|
                            0 <= k < items.len() && is_interface_item(items[k])
                                && interface_name_of(items[k]) == n;
                        assert(k >= 1);
                        assert(rest[k - 1] == items[k]);
                    }
                }
                assert(has_default_class(items) <==> has_default_class(rest)) by {
                    if has_default_class(items) {
                        let k = choose|k: int|
                            0 <= k < items.len() && is_default_class_item(items[k]);
                        assert(k >= 1);
                        assert(rest[k - 1] == items[k]);
                    }
                    if has_default_class(rest) {
                        let k = choose|k: int| 0 <= k < rest.len() && is_default_class_item(rest[k]);
                        assert(items[k + 1] == rest[k]);
                    }
                }
            },
            _ => {
                assert(false);
            },
        }
    }
}

/// Over a module whose every item classifies and whose exported interfaces
/// bear distinct names, the custom-type registry holds exactly one entry
/// per exported interface.
pub proof fn lemma_extract_count(items: Seq<ModuleItem>)
    requires
        forall|k: int| 0 <= k < items.len() ==> item_error(items[k]) is None,
        distinct_interface_names(items),
    ensures
        run_extract(items) is Ok,
        run_extract(items)->Ok_0.custom_types.len() == count_interfaces(items),
    decreases items.len(),
{
    lemma_extract_all_ok(items);
    if items.len() == 0 {
    } else {
        let rest = items.drop_first();
        let it0 = items.first();
        assert forall|k: int| 0 <= k < rest.len() implies item_error(rest[k]) is None by {
            assert(rest[k] == items[k + 1]);
        }
        assert forall|k1: int, k2: int|
            0 <= k1 < k2 < rest.len() && is_interface_item(rest[k1]) && is_interface_item(
                rest[k2],
            ) implies interface_name_of(rest[k1]) != interface_name_of(rest[k2]) by {
            assert(rest[k1] == items[k1 + 1]);
            assert(rest[k2] == items[k2 + 1]);
        }
        lemma_extract_all_ok(rest);
        lemma_extract_count(rest);
        let st = run_extract(rest)->Ok_0;
        assert(run_extract(items) == classify_item(st, it0));
        match it0 {
            ModuleItem::Export(NamedExportKind::Interface(i)) => {
                let a = crate::ipr::account_of_interface(i);
                assert(!has_name(st.custom_types, a.name)) by {
                    if has_name(st.custom_types, a.name) {
                        assert(has_interface_named(rest, a.name));
                        let k = choose|k: int|
                            0 <= k < rest.len() && is_interface_item(rest[k])
                                && interface_name_of(rest[k]) == a.name;
                        assert(items[k + 1] == rest[k]);
                        assert(is_interface_item(items[0]));
                        assert(interface_name_of(items[0]) == a.name);
                    }
                }
                lemma_upsert_props(st.custom_types, a);
            },
            _ => {},
        }
    }
}

/// Where exactly one item fails classification, the whole extraction fails
/// with that item's error, whatever else the module holds.
pub proof fn lemma_single_violation(items: Seq<ModuleItem>, k: int)
    requires
        0 <= k < items.len(),
        item_error(items[k]) is Some,
        forall|j: int| 0 <= j < items.len() && j != k ==> item_error(items[j]) is None,
    ensures
        run_extract(items) == Err::<StateV, ErrorV>(item_error(items[k])->Some_0),
    decreases items.len(),
{
    let rest = items.drop_first();
    if k == 0 {
        assert forall|j: int| 0 <= j < rest.len() implies item_error(rest[j]) is None by {
            assert(rest[j] == items[j + 1]);
        }
        lemma_extract_all_ok(rest);
    } else {
        assert(rest[k - 1] == items[k]);
        assert forall|j: int| 0 <= j < rest.len() && j != k - 1 implies item_error(
            rest[j],
        ) is None by {
            assert(rest[j] == items[j + 1]);
        }
        lemma_single_violation(rest, k - 1);
    }
}

/// Rejection of a missing program class: a module whose every item
/// classifies but which declares no default-exported class fails with
/// the missing-program-class error, and no text is produced.
pub proof fn lemma_missing_program_class(items: Seq<ModuleItem>)
    requires
        forall|k: int| 0 <= k < items.len() ==> item_error(items[k]) is None,
        !has_default_class(items),
    ensures
        transpile_spec(items) == Err::<Seq<char>, ErrorV>(ErrorV::MissingProgramClass),
{
    lemma_extract_all_ok(items);
}

/// Rejection of a non-class default export: a module whose default export
/// declares a function, or anything else that is not a class, fails with
/// the invalid-default-export error, and no text is produced.
pub proof fn lemma_invalid_default_export(items: Seq<ModuleItem>, k: int)
    requires
        0 <= k < items.len(),
        (items[k] matches ModuleItem::ExportDefault(DefaultExportKind::Function)) || (items[k]
            matches ModuleItem::ExportDefault(DefaultExportKind::Other)),
        forall|j: int| 0 <= j < items.len() && j != k ==> item_error(items[j]) is None,
    ensures
        transpile_spec(items) == Err::<Seq<char>, ErrorV>(ErrorV::InvalidDefaultExport),
{
    lemma_single_violation(items, k);
}

/// Rejection of a non-interface named export: a module exporting a type
/// alias, an enum, or anything else that is not an interface under a named
/// export fails with the invalid-named-export error.
pub proof fn lemma_invalid_named_export(items: Seq<ModuleItem>, k: int)
    requires
        0 <= k < items.len(),
        (items[k] matches ModuleItem::Export(NamedExportKind::TypeAlias)) || (items[k]
            matches ModuleItem::Export(NamedExportKind::Enum)) || (items[k]
            matches ModuleItem::Export(NamedExportKind::Other)),
        forall|j: int| 0 <= j < items.len() && j != k ==> item_error(items[j]) is None,
    ensures
        transpile_spec(items) == Err::<Seq<char>, ErrorV>(ErrorV::InvalidNamedExport),
{
    lemma_single_violation(items, k);
}

/// Every failure of the parameter pass is an unresolved-type error.
pub proof fn lemma_resolve_params_err_kind(params: Seq<TypedName>, custom: Seq<AccountV>)
    ensures
        resolve_params_spec(params, custom) is Err ==> resolve_params_spec(
            params,
            custom,
        )->Err_0 is UnresolvedType,
    decreases params.len(),
{
    if params.len() == 0 {
    } else {
        lemma_resolve_params_err_kind(params.drop_last(), custom);
    }
}

/// A parameter whose type name resolves nowhere makes the parameter pass
/// fail.
pub proof fn lemma_resolve_params_unresolved(
    params: Seq<TypedName>,
    custom: Seq<AccountV>,
    k: int,
)
    requires
        0 <= k < params.len(),
        resolve_type_spec(params[k].ty_name@, custom) is None,
    ensures
        resolve_params_spec(params, custom) is Err,
    decreases params.len(),
{
    if k == params.len() - 1 {
    } else {
        lemma_resolve_params_unresolved(params.drop_last(), custom, k);
    }
}

/// Every failure of the instruction pass is an unresolved-type error.
pub proof fn lemma_instructions_err_kind(
    members: Seq<ClassMember>,
    custom: Seq<AccountV>,
    binds: Seq<crate::ipr::BindingV>,
)
    ensures
        instructions_spec(members, custom, binds) is Err ==> instructions_spec(
            members,
            custom,
            binds,
        )->Err_0 is UnresolvedType,
    decreases members.len(),
{
    if members.len() == 0 {
    } else {
        lemma_instructions_err_kind(members.drop_last(), custom, binds);
        match members.last() {
            ClassMember::Method { name: _, params } => {
                lemma_resolve_params_err_kind(params@, custom);
            },
            _ => {},
        }
    }
}

/// A method holding an unresolvable parameter makes the instruction pass
/// fail.
pub proof fn lemma_instructions_unresolved(
    members: Seq<ClassMember>,
    custom: Seq<AccountV>,
    binds: Seq<crate::ipr::BindingV>,
    j: int,
    k: int,
)
    requires
        0 <= j < members.len(),
        members[j] matches ClassMember::Method { name: _, params }
            && 0 <= k < params@.len() && resolve_type_spec(params@[k].ty_name@, custom) is None,
    ensures
        instructions_spec(members, custom, binds) is Err,
    decreases members.len(),
{
    if j == members.len() - 1 {
        match members.last() {
            ClassMember::Method { name: _, params } => {
                lemma_resolve_params_unresolved(params@, custom, k);
            },
            _ => {},
        }
    } else {
        lemma_instructions_unresolved(members.drop_last(), custom, binds, j, k);
    }
}

/// Unresolved type detection: where extraction succeeded with a program
/// class, the state shape resolves, and some instruction parameter's type
/// name resolves neither to a primitive nor to a custom type, the whole
/// translation fails with an unresolved-type error — before any output
/// exists.
pub proof fn lemma_unresolved_param_rejected(items: Seq<ModuleItem>, j: int, k: int)
    requires
        run_extract(items) is Ok,
        run_extract(items)->Ok_0.program_class is Some,
        ({
            let st = run_extract(items)->Ok_0;
            let c = st.program_class->Some_0;
            &&& state_fields_spec(c.members@, st.custom_types) is Ok
            &&& 0 <= j < c.members@.len()
            &&& (c.members@[j] matches ClassMember::Method { name: _, params }
                && 0 <= k < params@.len() && resolve_type_spec(
                params@[k].ty_name@,
                st.custom_types,
            ) is None)
        }),
    ensures
        transpile_spec(items) is Err,
        transpile_spec(items)->Err_0 is UnresolvedType,
{
    let st = run_extract(items)->Ok_0;
    let c = st.program_class->Some_0;
    let flds = state_fields_spec(c.members@, st.custom_types)->Ok_0;
    lemma_instructions_unresolved(c.members@, st.custom_types, bindings_spec(flds), j, k);
    lemma_instructions_err_kind(c.members@, st.custom_types, bindings_spec(flds));
}

/// Determinism of emission: two programs with equal content serialize to
/// the same text, and the formatter, a pure function of the text, returns
/// the same result for both — byte-identical output.
pub proof fn lemma_emission_deterministic(p1: ProgramModule, p2: ProgramModule)
    requires
        p1@ == p2@,
    ensures
        emit_spec(p1@) == emit_spec(p2@),
        formatted_of(emit_spec(p1@)) == formatted_of(emit_spec(p2@)),
{
}

/// The instruction pass yields one descriptor per method.
pub proof fn lemma_instructions_count(
    members: Seq<ClassMember>,
    custom: Seq<AccountV>,
    binds: Seq<crate::ipr::BindingV>,
)
    requires
        instructions_spec(members, custom, binds) is Ok,
    ensures
        instructions_spec(members, custom, binds)->Ok_0.len() == count_methods(members),
    decreases members.len(),
{
    if members.len() == 0 {
    } else {
        lemma_instructions_count(members.drop_last(), custom, binds);
    }
}

/// Round-trip shape preservation: over a module whose items all classify,
/// whose exported interfaces bear distinct names, and whose program builds,
/// the custom-type registry holds exactly one entry per exported interface,
/// the account registry holds those same entries plus the one derived from
/// the program class, and the instruction surface holds exactly one
/// descriptor per class method.
pub proof fn lemma_round_trip_shape(items: Seq<ModuleItem>)
    requires
        forall|k: int| 0 <= k < items.len() ==> item_error(items[k]) is None,
        distinct_interface_names(items),
        run_extract(items) is Ok,
        build_spec(run_extract(items)->Ok_0) is Ok,
    ensures
        ({
            let st = run_extract(items)->Ok_0;
            let p = build_spec(st)->Ok_0;
            &&& st.custom_types.len() == count_interfaces(items)
            &&& p.custom_types == st.custom_types
            &&& st.program_class is Some
            &&& p.accounts.len() == p.custom_types.len() + 1
            &&& (forall|i: int| 0 <= i < p.custom_types.len() ==> p.accounts[i] == p.custom_types[i])
            &&& p.instructions.len() == count_methods(st.program_class->Some_0.members@)
        }),
{
    lemma_extract_all_ok(items);
    lemma_extract_count(items);
    let st = run_extract(items)->Ok_0;
    let c = st.program_class->Some_0;
    let flds = state_fields_spec(c.members@, st.custom_types)->Ok_0;
    lemma_instructions_count(c.members@, st.custom_types, bindings_spec(flds));
}

} // verus!
