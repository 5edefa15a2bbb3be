//! Input model extractor: walks the top-level items of the input module in
//! pop-from-end (stack) order and classifies each into one of the three
//! recognized declaration kinds, or rejects the whole module.
//!
//! Traversal is last-item-first, so on repeated names the declaration
//! standing earlier in the source is registered last and wins.

use vstd::prelude::*;

use crate::ipr::{
    account_of_interface, accounts_view, lemma_accounts_view_push, lemma_accounts_view_remove,
    AccountV, ErrorV, ProgramAccount, TranspileError,
};
use crate::model::{
    ClassDecl, DefaultExportKind, ImportDecl, InputModule, ModuleItem, NamedExportKind,
};

verus! {

/// View of `ImportDecl`: the source path and the named specifiers.
#[verifier::ext_equal]
pub struct ImportV {
    pub src: Seq<char>,
    pub names: Seq<Seq<char>>,
}

/// The views of a sequence of strings.
pub open spec fn names_view(s: Seq<String>) -> Seq<Seq<char>> {
    s.map_values(|n: String| n@)
}

impl View for ImportDecl {
    type V = ImportV;

    open spec fn view(&self) -> ImportV {
        ImportV { src: self.src@, names: names_view(self.names@) }
    }
}

/// The views of a sequence of imports.
pub open spec fn imports_view(s: Seq<ImportDecl>) -> Seq<ImportV> {
    s.map_values(|d: ImportDecl| d@)
}

/// The view of a sequence of imports extended by one element.
pub proof fn lemma_imports_view_push(s: Seq<ImportDecl>, x: ImportDecl)
    ensures
        imports_view(s.push(x)) =~= imports_view(s).push(x@),
{
}

/// What the extractor has gathered: the import list, the account and
/// custom-type registries (each in insertion order, names unique), and
/// the captured program class, if any.
pub struct Extraction {
    pub imports: Vec<ImportDecl>,
    pub accounts: Vec<ProgramAccount>,
    pub custom_types: Vec<ProgramAccount>,
    pub program_class: Option<ClassDecl>,
}

/// View of `Extraction`.
#[verifier::ext_equal]
pub struct StateV {
    pub imports: Seq<ImportV>,
    pub accounts: Seq<AccountV>,
    pub custom_types: Seq<AccountV>,
    pub program_class: Option<ClassDecl>,
}

impl View for Extraction {
    type V = StateV;

    open spec fn view(&self) -> StateV {
        StateV {
            imports: imports_view(self.imports@),
            accounts: accounts_view(self.accounts@),
            custom_types: accounts_view(self.custom_types@),
            program_class: self.program_class,
        }
    }
}

/// The index of the first account with the given name, or -1.
pub open spec fn find_name(s: Seq<AccountV>, n: Seq<char>) -> int
    decreases s.len(),
{
    if s.len() == 0 {
        -1
    } else if s.first().name == n {
        0
    } else {
        let r = find_name(s.drop_first(), n);
        if r < 0 {
            -1
        } else {
            1 + r
        }
    }
}

/// `find_name` returns -1 exactly when the name is absent, else the first
/// index bearing the name.
pub proof fn lemma_find_name(s: Seq<AccountV>, n: Seq<char>)
    ensures
        find_name(s, n) == -1 ==> forall|k: int| 0 <= k < s.len() ==> s[k].name != n,
        find_name(s, n) != -1 ==> 0 <= find_name(s, n) < s.len() && s[find_name(s, n)].name == n
            && forall|k: int| 0 <= k < find_name(s, n) ==> s[k].name != n,
    decreases s.len(),
{
    if s.len() == 0 {
    } else if s.first().name == n {
    } else {
        lemma_find_name(s.drop_first(), n);
        assert forall|k: int| 1 <= k < s.len() implies s[k] == s.drop_first()[k - 1] by {}
    }
}

/// Register an account under its name, last-wins: drop the entry that
/// bears the name, if any, and append the new one.
pub open spec fn upsert(s: Seq<AccountV>, a: AccountV) -> Seq<AccountV> {
    let i = find_name(s, a.name);
    if i >= 0 {
        s.remove(i).push(a)
    } else {
        s.push(a)
    }
}

/// Classify one top-level item, threading the extractor state:
/// an import contributes its named specifiers; a default-exported class is
/// captured (overwriting an earlier capture); an exported interface is
/// registered as an account and as a custom type; anything else is fatal.
pub open spec fn classify_item(st: StateV, item: ModuleItem) -> Result<StateV, ErrorV> {
    match item {
        ModuleItem::Import(d) => Ok(
            StateV {
                imports: st.imports.push(d@),
                accounts: st.accounts,
                custom_types: st.custom_types,
                program_class: st.program_class,
            },
        ),
        ModuleItem::ExportDefault(DefaultExportKind::Class(c)) => Ok(
            StateV {
                imports: st.imports,
                accounts: st.accounts,
                custom_types: st.custom_types,
                program_class: Some(c),
            },
        ),
        ModuleItem::ExportDefault(_) => Err(ErrorV::InvalidDefaultExport),
        ModuleItem::Export(NamedExportKind::Interface(i)) => {
            let a = account_of_interface(i);
            Ok(
                StateV {
                    imports: st.imports,
                    accounts: upsert(st.accounts, a),
                    custom_types: upsert(st.custom_types, a),
                    program_class: st.program_class,
                },
            )
        },
        ModuleItem::Export(_) => Err(ErrorV::InvalidNamedExport),
        ModuleItem::Unrecognized => Err(ErrorV::InvalidSyntax),
    }
}

/// The empty extractor state.
pub open spec fn init_state() -> StateV {
    StateV {
        imports: Seq::empty(),
        accounts: Seq::empty(),
        custom_types: Seq::empty(),
        program_class: None,
    }
}

/// The extractor run over the items, visited in pop-from-end order
/// (the last item first); the first violation in that order aborts.
pub open spec fn run_extract(items: Seq<ModuleItem>) -> Result<StateV, ErrorV>
    decreases items.len(),
{
    if items.len() == 0 {
        Ok(init_state())
    } else {
        match run_extract(items.drop_first()) {
            Err(e) => Err(e),
            Ok(st) => classify_item(st, items.first()),
        }
    }
}

/// Once the run over a suffix has failed, the whole run fails the same way.
pub proof fn lemma_run_extract_err_stable(items: Seq<ModuleItem>, i: int)
    requires
        0 <= i <= items.len(),
        run_extract(items.skip(i)) is Err,
    ensures
        run_extract(items) == run_extract(items.skip(i)),
    decreases i,
{
    if i == 0 {
        assert(items.skip(0) =~= items);
    } else {
        assert(items.skip(i - 1).drop_first() =~= items.skip(i));
        assert(items.skip(i - 1).first() == items[i - 1]);
        lemma_run_extract_err_stable(items, i - 1);
        assert(items.skip(0) =~= items);
    }
}

/// Register an account in a registry vector, last-wins: drop the entry
/// bearing the same name, if any, and append the new one.
#[verifier::loop_isolation(false)]
fn insert_account(v: &mut Vec<ProgramAccount>, a: ProgramAccount)
    ensures
        accounts_view(final(v)@) == upsert(accounts_view(old(v)@), a@),
{
    let ghost orig = v@;
    let mut j: usize = 0;
    while j < v.len()
        invariant
            j <= v@.len(),
            v@ == orig,
            forall|k: int| 0 <= k < j ==> accounts_view(orig)[k].name != a@.name,
        decreases v@.len() - j,
    {
        if v[j].name == a.name {
            proof {
                lemma_find_name(accounts_view(orig), a@.name);
                assert(accounts_view(orig)[j as int] == orig[j as int]@);
                assert(accounts_view(orig)[j as int].name == a@.name);
                assert(find_name(accounts_view(orig), a@.name) == j as int);
            }
            let ghost ag = a;
            let _removed = v.remove(j);
            let ghost mid = v@;
            v.push(a);
            proof {
                assert(mid == orig.remove(j as int));
                assert(v@ == mid.push(ag));
                lemma_accounts_view_remove(orig, j as int);
                lemma_accounts_view_push(mid, ag);
                assert(accounts_view(v@) == accounts_view(orig).remove(j as int).push(ag@));
                assert(accounts_view(v@) == upsert(accounts_view(orig), ag@));
            }
            return;
        }
        proof {
            assert(accounts_view(orig)[j as int] == orig[j as int]@);
        }
        j = j + 1;
    }
    proof {
        lemma_find_name(accounts_view(orig), a@.name);
        assert(find_name(accounts_view(orig), a@.name) == -1);
    }
    let ghost ag = a;
    v.push(a);
    proof {
        lemma_accounts_view_push(orig, ag);
        assert(accounts_view(v@) =~= upsert(accounts_view(orig), ag@));
    }
}

/// Walk the module's top-level items in pop-from-end order and classify
/// each one; the first unrecognized construct, non-class default export,
/// or non-interface named export aborts the whole extraction.
#[verifier::loop_isolation(false)]
pub fn extract(module: InputModule) -> (r: Result<Extraction, TranspileError>)
    ensures
        match r {
            Ok(ex) => run_extract(module.body@) == Ok::<StateV, ErrorV>(ex@),
            Err(e) => run_extract(module.body@) == Err::<StateV, ErrorV>(e@),
        },
{
    let mut body = module.body;
    let ghost orig = body@;
    let mut imports: Vec<ImportDecl> = Vec::new();
    let mut accounts: Vec<ProgramAccount> = Vec::new();
    let mut custom_types: Vec<ProgramAccount> = Vec::new();
    let mut program_class: Option<ClassDecl> = None;
    proof {
        assert(orig.skip(orig.len() as int) =~= Seq::<ModuleItem>::empty());
        assert(orig.take(orig.len() as int) =~= orig);
        assert(imports_view(imports@) =~= init_state().imports);
        assert(accounts_view(accounts@) =~= init_state().accounts);
    }
    while body.len() > 0
        invariant
            body@.len() <= orig.len(),
            body@ == orig.take(body@.len() as int),
            run_extract(orig.skip(body@.len() as int)) == Ok::<StateV, ErrorV>(
                StateV {
                    imports: imports_view(imports@),
                    accounts: accounts_view(accounts@),
                    custom_types: accounts_view(custom_types@),
                    program_class: program_class,
                },
            ),
        decreases body@.len(),
    {
        let ghost i = body@.len() - 1;
        let ghost st = StateV {
            imports: imports_view(imports@),
            accounts: accounts_view(accounts@),
            custom_types: accounts_view(custom_types@),
            program_class: program_class,
        };
        let item = body.pop().unwrap();
        let ghost ig = item;
        proof {
            assert(orig.take(i + 1).last() == orig[i]);
            assert(ig == orig[i]);
            assert(body@ =~= orig.take(i));
            assert(orig.skip(i).drop_first() =~= orig.skip(i + 1));
            assert(orig.skip(i).first() == orig[i]);
            assert(run_extract(orig.skip(i)) == classify_item(st, ig));
        }
        match item {
            ModuleItem::Import(d) => {
                let ghost prev = imports@;
                let ghost dg = d;
                imports.push(d);
                proof {
                    lemma_imports_view_push(prev, dg);
                    assert(imports_view(imports@) =~= st.imports.push(dg@));
                }
            },
            ModuleItem::ExportDefault(DefaultExportKind::Class(c)) => {
                program_class = Some(c);
            },
            ModuleItem::ExportDefault(DefaultExportKind::Function) => {
                proof {
                    lemma_run_extract_err_stable(orig, i);
                }
                return Err(TranspileError::InvalidDefaultExport);
            },
            ModuleItem::ExportDefault(DefaultExportKind::Other) => {
                proof {
                    lemma_run_extract_err_stable(orig, i);
                }
                return Err(TranspileError::InvalidDefaultExport);
            },
            ModuleItem::Export(NamedExportKind::Interface(intf)) => {
                let ghost prev_accounts = accounts@;
                let ghost prev_custom = custom_types@;
                let acct = ProgramAccount::from_interface(&intf);
                let acct2 = ProgramAccount::from_interface(&intf);
                insert_account(&mut accounts, acct);
                insert_account(&mut custom_types, acct2);
                proof {
                    assert(accounts_view(accounts@) == upsert(
                        accounts_view(prev_accounts),
                        account_of_interface(intf),
                    ));
                    assert(accounts_view(custom_types@) == upsert(
                        accounts_view(prev_custom),
                        account_of_interface(intf),
                    ));
                }
            },
            ModuleItem::Export(NamedExportKind::TypeAlias) => {
                proof {
                    lemma_run_extract_err_stable(orig, i);
                }
                return Err(TranspileError::InvalidNamedExport);
            },
            ModuleItem::Export(NamedExportKind::Enum) => {
                proof {
                    lemma_run_extract_err_stable(orig, i);
                }
                return Err(TranspileError::InvalidNamedExport);
            },
            ModuleItem::Export(NamedExportKind::Other) => {
                proof {
                    lemma_run_extract_err_stable(orig, i);
                }
                return Err(TranspileError::InvalidNamedExport);
            },
            ModuleItem::Unrecognized => {
                proof {
                    lemma_run_extract_err_stable(orig, i);
                }
                return Err(TranspileError::InvalidSyntax);
            },
        }
    }
    proof {
        assert(orig.skip(0) =~= orig);
    }
    let ex = Extraction { imports, accounts, custom_types, program_class };
    Ok(ex)
}

} // verus!
