use vstd::prelude::*;

use crate::errors::HostError;
use crate::guest::{ArgModel, GuestInstr, InstrModel, OpArg, duplicate_program};
use crate::ops::{op_log_name, op_sleep_name};

verus! {

/// The kind of a loadable module: a plain script, or a compiled artifact
/// requiring instantiation by the engine before use.
#[derive(Clone, Copy, Debug, PartialEq, Eq, Structural)]
pub enum ModuleKind {
    Script,
    CompiledArtifact,
}

/// The evaluation status of a module record.
#[derive(Clone, Copy, Debug, PartialEq, Eq, Structural)]
pub enum EvalStatus {
    Loaded,
    Evaluating,
    Completed,
    Failed,
}

/// An immutable, canonical identifier for a module; equality is string-exact
/// on the canonical form. Produced by a successful [`ZinniaModuleLoader::resolve`].
#[derive(Clone, Debug, PartialEq, Eq)]
pub struct Specifier {
    pub text: String,
}

impl View for Specifier {
    type V = Seq<char>;

    open spec fn view(&self) -> Seq<char> {
        self.text@
    }
}

/// One entry of the host-controlled namespace: a canonical specifier, the
/// module's kind, and the steps its source performs when evaluated (the
/// source artifact in engine-interpreted form).
pub struct NamespaceEntry {
    pub specifier: String,
    pub kind: ModuleKind,
    pub program: Vec<GuestInstr>,
}

/// Mathematical model of a [`NamespaceEntry`].
pub struct EntryModel {
    pub specifier: Seq<char>,
    pub kind: ModuleKind,
    pub program: Seq<InstrModel>,
}

impl View for NamespaceEntry {
    type V = EntryModel;

    open spec fn view(&self) -> EntryModel {
        EntryModel {
            specifier: self.specifier@,
            kind: self.kind,
            program: self.program.deep_view(),
        }
    }
}

impl DeepView for NamespaceEntry {
    type V = EntryModel;

    open spec fn deep_view(&self) -> EntryModel {
        self.view()
    }
}

/// A loaded module: its canonical specifier, kind, the steps its source
/// performs, and its evaluation status. Owned by the runtime host for the
/// duration of one module's lifecycle.
pub struct ModuleRecord {
    pub specifier: String,
    pub kind: ModuleKind,
    pub program: Vec<GuestInstr>,
    pub status: EvalStatus,
}

/// Mathematical model of a [`ModuleRecord`].
pub struct RecordModel {
    pub specifier: Seq<char>,
    pub kind: ModuleKind,
    pub program: Seq<InstrModel>,
    pub status: EvalStatus,
}

impl View for ModuleRecord {
    type V = RecordModel;

    open spec fn view(&self) -> RecordModel {
        RecordModel {
            specifier: self.specifier@,
            kind: self.kind,
            program: self.program.deep_view(),
            status: self.status,
        }
    }
}

/// The first entry in `s` whose specifier is `raw`, if any.
pub open spec fn find_entry(s: Seq<EntryModel>, raw: Seq<char>) -> Option<EntryModel>
    decreases s.len(),
{
    if s.len() == 0 {
        None
    } else if s[0].specifier == raw {
        Some(s[0])
    } else {
        find_entry(s.drop_first(), raw)
    }
}

/// When no entry before position `i` carries the specifier, the find is
/// decided by the entries from `i` on.
pub proof fn lemma_find_skip(s: Seq<EntryModel>, raw: Seq<char>, i: int)
    requires
        0 <= i <= s.len(),
        forall|j: int| 0 <= j < i ==> s[j].specifier != raw,
    ensures
        find_entry(s, raw) == find_entry(s.skip(i), raw),
    decreases i,
{
    if i > 0 {
        lemma_find_skip(s.drop_first(), raw, i - 1);
        assert(s.drop_first().skip(i - 1) =~= s.skip(i));
    } else {
        assert(s.skip(0) =~= s);
    }
}

/// The module loader: a closed, host-controlled namespace mapping canonical
/// specifiers to static module sources. Immutable after host construction.
pub struct ZinniaModuleLoader {
    pub entries: Vec<NamespaceEntry>,
}

impl ZinniaModuleLoader {
    /// The namespace, in configuration order.
    pub open spec fn model(self) -> Seq<EntryModel> {
        self.entries.deep_view()
    }

    /// No specifier maps to more than one entry.
    pub open spec fn wf(self) -> bool {
        forall|i: int, j: int|
            0 <= i < j < self.model().len() ==> self.model()[i].specifier != self.model()[
                j
            ].specifier
    }

    /// The namespace entry for `raw`, if any.
    pub open spec fn spec_find(self, raw: Seq<char>) -> Option<EntryModel> {
        find_entry(self.model(), raw)
    }

    /// Is `raw` one of the known specifiers?
    pub open spec fn in_namespace(self, raw: Seq<char>) -> bool {
        self.spec_find(raw) is Some
    }

    /// What `resolve` returns on `raw`: the canonical specifier for a known
    /// name, `NotFound` for anything else.
    pub open spec fn spec_resolve(self, raw: Seq<char>) -> Result<Seq<char>, HostError> {
        if self.in_namespace(raw) {
            Ok(raw)
        } else {
            Err(HostError::NotFound)
        }
    }

    /// What `load` returns on `raw`: `UnsupportedOperation` for every dynamic
    /// request, otherwise the kind and program of the namespace entry, or
    /// `NotFound` outside the namespace.
    pub open spec fn spec_load(self, raw: Seq<char>, is_dyn_import: bool) -> Result<
        (ModuleKind, Seq<InstrModel>),
        HostError,
    > {
        if is_dyn_import {
            Err(HostError::UnsupportedOperation)
        } else {
            match self.spec_find(raw) {
                Some(e) => Ok((e.kind, e.program)),
                None => Err(HostError::NotFound),
            }
        }
    }

    /// The position of the entry for `raw`, if any.
    fn find_index(&self, raw: &str) -> (r: Option<usize>)
        ensures
            r matches Some(i) ==> i < self.entries@.len() && self.model()[i as int].specifier
                == raw@ && self.spec_find(raw@) == Some(self.model()[i as int]),
            r is None ==> self.spec_find(raw@) is None,
    {
        let key: String = raw.to_owned();
        let mut i: usize = 0;
        while i < self.entries.len()
            invariant
                i <= self.entries.len(),
                key@ == raw@,
                forall|j: int| 0 <= j < i as int ==> self.model()[j].specifier != raw@,
            decreases self.entries.len() - i,
        {
            if self.entries[i].specifier == key {
                proof {
                    lemma_find_skip(self.model(), raw@, i as int);
                    assert(self.model().skip(i as int)[0] == self.model()[i as int]);
                }
                return Some(i);
            }
            i = i + 1;
        }
        proof {
            lemma_find_skip(self.model(), raw@, i as int);
            assert(self.model().skip(i as int).len() == 0);
        }
        None
    }

    /// Validate `raw` against the namespace: a pure lookup with no other
    /// effect. Succeeds exactly on the known specifiers (an allow-list, not a
    /// pattern match), returning the canonical form; fails with `NotFound`
    /// for anything else, including syntactically valid but unregistered
    /// names.
    pub fn resolve(&self, raw: &str) -> (r: Result<Specifier, HostError>)
        ensures
            r is Ok <==> self.in_namespace(raw@),
            r matches Ok(sp) ==> sp@ == raw@,
            r matches Err(e) ==> e == HostError::NotFound,
    {
        match self.find_index(raw) {
            Some(_) => Ok(Specifier { text: raw.to_owned() }),
            None => Err(HostError::NotFound),
        }
    }

    /// Supply the module record for `raw`.
    ///
    /// A dynamic request fails immediately with `UnsupportedOperation`,
    /// whether or not the specifier would otherwise resolve. Otherwise the
    /// resolver decides: outside the namespace the load fails with
    /// `NotFound`; inside it, the whole record is supplied at once (never a
    /// torn one), with status `Loaded`.
    pub fn load(&self, raw: &str, is_dyn_import: bool) -> (r: Result<ModuleRecord, HostError>)
        ensures
            is_dyn_import ==> (r matches Err(e) && e == HostError::UnsupportedOperation),
            r is Ok <==> self.spec_load(raw@, is_dyn_import) is Ok,
            r matches Ok(rec) ==> self.spec_load(raw@, is_dyn_import) == Ok::<_, HostError>(
                (rec@.kind, rec@.program),
            ) && rec@.specifier == raw@ && rec@.status == EvalStatus::Loaded,
            r matches Err(e) ==> self.spec_load(raw@, is_dyn_import) == Err::<
                (ModuleKind, Seq<InstrModel>),
                _,
            >(e),
    {
        if is_dyn_import {
            return Err(HostError::UnsupportedOperation);
        }
        match self.find_index(raw) {
            None => Err(HostError::NotFound),
            Some(i) => {
                let ent = &self.entries[i];
                Ok(
                    ModuleRecord {
                        specifier: raw.to_owned(),
                        kind: ent.kind,
                        program: duplicate_program(&ent.program),
                        status: EvalStatus::Loaded,
                    },
                )
            },
        }
    }
}

/// The steps the main demo module performs, in order and with no other host
/// call: log a first message, await the sleep op for 1000 milliseconds, log
/// a second message.
pub open spec fn demo_program_model() -> Seq<InstrModel> {
    seq![
        (InstrModel::CallOp {
            name: "op_log"@,
            arg: ArgModel::Str("Good night..."@),
            catch: false,
        }),
        (InstrModel::CallOp { name: "op_sleep"@, arg: ArgModel::U64(1000), catch: false }),
        (InstrModel::CallOp {
            name: "op_log"@,
            arg: ArgModel::Str("Good morning!"@),
            catch: false,
        }),
    ]
}

/// The steps the main demo module performs: log a first message, sleep for a
/// fixed duration, log a second message.
fn demo_program() -> (r: Vec<GuestInstr>)
    ensures
        r.deep_view() == demo_program_model(),
{
    let mut p: Vec<GuestInstr> = Vec::new();
    p.push(
        GuestInstr::CallOp {
            name: op_log_name(),
            arg: OpArg::Str("Good night...".to_owned()),
            catch: false,
        },
    );
    p.push(GuestInstr::CallOp { name: op_sleep_name(), arg: OpArg::U64(1000), catch: false });
    p.push(
        GuestInstr::CallOp {
            name: op_log_name(),
            arg: OpArg::Str("Good morning!".to_owned()),
            catch: false,
        },
    );
    proof {
        assert(p@.len() == 3);
        assert(p.deep_view()[0] == p@[0]@);
        assert(p.deep_view()[1] == p@[1]@);
        assert(p.deep_view()[2] == p@[2]@);
        assert(p.deep_view() =~= demo_program_model());
    }
    p
}

/// The namespace the demo host is constructed with: the two demo modules and
/// the compiled-artifact loader shim, each under its canonical specifier.
/// Both demo modules perform exactly the steps of [`demo_program_model`];
/// the loader shim is a compiled artifact with no steps of its own.
pub fn demo_namespace() -> (r: ZinniaModuleLoader)
    ensures
        r.wf(),
        r.model().len() == 3,
        r.model()[0].specifier == "zinnia://demo-module.js"@,
        r.model()[0].kind == ModuleKind::Script,
        r.model()[0].program == demo_program_model(),
        r.model()[1].specifier == "zinnia://demo-module-rs.js"@,
        r.model()[1].kind == ModuleKind::Script,
        r.model()[1].program == demo_program_model(),
        r.model()[2].specifier == "zinnia://demo-module-rs.loader.js"@,
        r.model()[2].kind == ModuleKind::CompiledArtifact,
        r.model()[2].program == Seq::<InstrModel>::empty(),
        r.spec_find("zinnia://demo-module.js"@) == Some(r.model()[0]),
        r.spec_find("zinnia://demo-module-rs.js"@) == Some(r.model()[1]),
        r.spec_find("zinnia://demo-module-rs.loader.js"@) == Some(r.model()[2]),
        r.in_namespace("zinnia://demo-module.js"@),
        r.in_namespace("zinnia://demo-module-rs.js"@),
        r.in_namespace("zinnia://demo-module-rs.loader.js"@),
{
    proof {
        reveal_strlit("zinnia://demo-module.js");
        reveal_strlit("zinnia://demo-module-rs.js");
        reveal_strlit("zinnia://demo-module-rs.loader.js");
        assert("zinnia://demo-module.js"@.len() == 23);
        assert("zinnia://demo-module-rs.js"@.len() == 26);
        assert("zinnia://demo-module-rs.loader.js"@.len() == 33);
    }
    let mut entries: Vec<NamespaceEntry> = Vec::new();
    entries.push(
        NamespaceEntry {
            specifier: "zinnia://demo-module.js".to_owned(),
            kind: ModuleKind::Script,
            program: demo_program(),
        },
    );
    entries.push(
        NamespaceEntry {
            specifier: "zinnia://demo-module-rs.js".to_owned(),
            kind: ModuleKind::Script,
            program: demo_program(),
        },
    );
    entries.push(
        NamespaceEntry {
            specifier: "zinnia://demo-module-rs.loader.js".to_owned(),
            kind: ModuleKind::CompiledArtifact,
            program: Vec::new(),
        },
    );
    let r = ZinniaModuleLoader { entries };
    proof {
        let m = r.model();
        assert(m.len() == 3);
        assert(m[0].specifier == "zinnia://demo-module.js"@);
        assert(m[1].specifier == "zinnia://demo-module-rs.js"@);
        assert(m[2].specifier == "zinnia://demo-module-rs.loader.js"@);
        assert(m[0].program == demo_program_model());
        assert(m[1].program == demo_program_model());
        assert(m[2].program =~= Seq::<InstrModel>::empty());
        assert(m.drop_first()[0] == m[1]);
        assert(m.drop_first()[1] == m[2]);
        assert(m.drop_first().len() == 2);
        assert(m.drop_first().drop_first()[0] == m[2]);
        assert(m.drop_first().drop_first().len() == 1);
        assert(find_entry(m, "zinnia://demo-module.js"@) == Some(m[0]));
        assert(find_entry(m.drop_first(), "zinnia://demo-module-rs.js"@) == Some(m[1]));
        assert(find_entry(m, "zinnia://demo-module-rs.js"@) == Some(m[1]));
        assert(find_entry(m.drop_first().drop_first(), "zinnia://demo-module-rs.loader.js"@)
            == Some(m[2]));
        assert(find_entry(m.drop_first(), "zinnia://demo-module-rs.loader.js"@) == Some(m[2]));
        assert(find_entry(m, "zinnia://demo-module-rs.loader.js"@) == Some(m[2]));
    }
    r
}

/// For every specifier outside the configured namespace, resolution returns
/// `NotFound`, and a static load of it fails the same way: no module record
/// is ever supplied for it.
pub proof fn lemma_unknown_specifier_never_loads(l: ZinniaModuleLoader, raw: Seq<char>)
    requires
        !l.in_namespace(raw),
    ensures
        l.spec_resolve(raw) == Err::<Seq<char>, HostError>(HostError::NotFound),
        l.spec_load(raw, false) == Err::<(ModuleKind, Seq<InstrModel>), HostError>(
            HostError::NotFound,
        ),
{
}

/// For every specifier, a dynamic load returns `UnsupportedOperation`, even
/// for specifiers that would resolve successfully.
pub proof fn lemma_dynamic_import_never_loads(l: ZinniaModuleLoader, raw: Seq<char>)
    ensures
        l.spec_load(raw, true) == Err::<(ModuleKind, Seq<InstrModel>), HostError>(
            HostError::UnsupportedOperation,
        ),
{
}

} // verus!
