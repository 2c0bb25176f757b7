use vstd::prelude::*;

use crate::errors::HostError;
use crate::guest::{ArgModel, OpArg};

verus! {

/// The fixed marshaling schema of one op argument or result.
#[derive(Clone, Copy, Debug, PartialEq, Eq, Structural)]
pub enum ValueSchema {
    Unit,
    U64,
    Str,
    Bytes,
}

/// Whether an op runs to completion on the calling turn or may suspend the
/// calling guest task.
#[derive(Clone, Copy, Debug, PartialEq, Eq, Structural)]
pub enum CallMode {
    Sync,
    Async,
}

/// One registered host function: its unique name, call mode, and the typed
/// argument/result schemas values must decode against.
pub struct OpDescriptor {
    pub name: String,
    pub mode: CallMode,
    pub arg: ValueSchema,
    pub result: ValueSchema,
}

/// Mathematical model of an [`OpDescriptor`].
pub struct DescModel {
    pub name: Seq<char>,
    pub mode: CallMode,
    pub arg: ValueSchema,
    pub result: ValueSchema,
}

impl View for OpDescriptor {
    type V = DescModel;

    open spec fn view(&self) -> DescModel {
        DescModel { name: self.name@, mode: self.mode, arg: self.arg, result: self.result }
    }
}

impl DeepView for OpDescriptor {
    type V = DescModel;

    open spec fn deep_view(&self) -> DescModel {
        self.view()
    }
}

/// Does the marshalled value `a` decode against the declared schema `s`?
pub open spec fn schema_matches(a: ArgModel, s: ValueSchema) -> bool {
    match a {
        ArgModel::Unit => s == ValueSchema::Unit,
        ArgModel::U64(_) => s == ValueSchema::U64,
        ArgModel::Str(_) => s == ValueSchema::Str,
        ArgModel::Bytes(_) => s == ValueSchema::Bytes,
    }
}

/// Does the marshalled value `a` decode against the declared schema `s`?
pub fn arg_matches(a: &OpArg, s: ValueSchema) -> (b: bool)
    ensures
        b == schema_matches(a@, s),
{
    match a {
        OpArg::Unit => matches!(s, ValueSchema::Unit),
        OpArg::U64(_) => matches!(s, ValueSchema::U64),
        OpArg::Str(_) => matches!(s, ValueSchema::Str),
        OpArg::Bytes(_) => matches!(s, ValueSchema::Bytes),
    }
}

/// The first descriptor in `s` registered under `name`, if any.
pub open spec fn lookup_model(s: Seq<DescModel>, name: Seq<char>) -> Option<DescModel>
    decreases s.len(),
{
    if s.len() == 0 {
        None
    } else if s[0].name == name {
        Some(s[0])
    } else {
        lookup_model(s.drop_first(), name)
    }
}

/// A lookup succeeds exactly when some descriptor carries the name, and what
/// it returns is such a descriptor.
pub proof fn lemma_lookup_exists(s: Seq<DescModel>, name: Seq<char>)
    ensures
        (lookup_model(s, name) is Some) <==> exists|i: int|
            0 <= i < s.len() && s[i].name == name,
        lookup_model(s, name) matches Some(d) ==> d.name == name && exists|i: int|
            0 <= i < s.len() && s[i] == d,
    decreases s.len(),
{
    if s.len() == 0 {
    } else if s[0].name == name {
        assert(s[0].name == name);
    } else {
        lemma_lookup_exists(s.drop_first(), name);
        if let Some(d) = lookup_model(s, name) {
            let i0 = choose|i: int|
                0 <= i < s.drop_first().len() && s.drop_first()[i].name == name;
            assert(s[i0 + 1].name == name);
            let i1 = choose|i: int| 0 <= i < s.drop_first().len() && s.drop_first()[i] == d;
            assert(s[i1 + 1] == d);
        }
        if exists|i: int| 0 <= i < s.len() && s[i].name == name {
            let i0 = choose|i: int| 0 <= i < s.len() && s[i].name == name;
            assert(s.drop_first()[i0 - 1].name == name);
        }
    }
}

/// When no descriptor before position `i` carries the name, the lookup is
/// decided by the descriptors from `i` on.
pub proof fn lemma_lookup_skip(s: Seq<DescModel>, name: Seq<char>, i: int)
    requires
        0 <= i <= s.len(),
        forall|j: int| 0 <= j < i ==> s[j].name != name,
    ensures
        lookup_model(s, name) == lookup_model(s.skip(i), name),
    decreases i,
{
    if i > 0 {
        lemma_lookup_skip(s.drop_first(), name, i - 1);
        assert(s.drop_first().skip(i - 1) =~= s.skip(i));
    } else {
        assert(s.skip(0) =~= s);
    }
}

/// The fixed table of host functions the guest may invoke by name.
///
/// Built once at host startup and read-only thereafter: registration fails
/// fast when a name collides, so no two registered descriptors ever share a
/// name.
pub struct OpRegistry {
    pub ops: Vec<OpDescriptor>,
}

impl OpRegistry {
    /// The registered descriptors, in registration order.
    pub open spec fn model(self) -> Seq<DescModel> {
        self.ops.deep_view()
    }

    /// No two registered descriptors share a name.
    pub open spec fn wf(self) -> bool {
        forall|i: int, j: int|
            0 <= i < j < self.model().len() ==> self.model()[i].name != self.model()[j].name
    }

    /// The descriptor registered under `name`, if any.
    pub open spec fn spec_lookup(self, name: Seq<char>) -> Option<DescModel> {
        lookup_model(self.model(), name)
    }

    /// Is an op registered under `name`?
    pub open spec fn contains_op(self, name: Seq<char>) -> bool {
        self.spec_lookup(name) is Some
    }

    /// A registry with no ops.
    pub fn empty() -> (r: OpRegistry)
        ensures
            r.wf(),
            r.model().len() == 0,
    {
        let r = OpRegistry { ops: Vec::new() };
        proof {
            assert(r.model() =~= Seq::<DescModel>::empty());
        }
        r
    }

    /// Register `d`, failing fast when its name collides with an op that is
    /// already registered.
    pub fn register(&mut self, d: OpDescriptor) -> (r: Result<(), HostError>)
        requires
            old(self).wf(),
        ensures
            final(self).wf(),
            r is Ok <==> !old(self).contains_op(d@.name),
            r is Ok ==> final(self).model() == old(self).model().push(d@),
            r is Err ==> *final(self) == *old(self) && r == Err::<(), HostError>(
                HostError::FatalBootstrapError,
            ),
    {
        let taken = self.lookup(&d.name);
        match taken {
            Some(_) => Err(HostError::FatalBootstrapError),
            None => {
                self.ops.push(d);
                proof {
                    assert(self.model() =~= old(self).model().push(d@));
                    lemma_push_keeps_unique(old(self).model(), d@);
                }
                Ok(())
            },
        }
    }

    /// The call mode and the argument/result schemas of the op registered
    /// under `name`, if any.
    pub fn lookup(&self, name: &String) -> (r: Option<(CallMode, ValueSchema, ValueSchema)>)
        ensures
            (match self.spec_lookup(name@) {
                Some(d) => r == Some((d.mode, d.arg, d.result)),
                None => r is None,
            }),
    {
        let mut i: usize = 0;
        while i < self.ops.len()
            invariant
                i <= self.ops.len(),
                forall|j: int| 0 <= j < i as int ==> self.model()[j].name != name@,
            decreases self.ops.len() - i,
        {
            if self.ops[i].name == *name {
                proof {
                    lemma_lookup_skip(self.model(), name@, i as int);
                    assert(self.model().skip(i as int)[0] == self.model()[i as int]);
                }
                let d = &self.ops[i];
                return Some((d.mode, d.arg, d.result));
            }
            i = i + 1;
        }
        proof {
            lemma_lookup_skip(self.model(), name@, i as int);
            assert(self.model().skip(i as int).len() == 0);
        }
        None
    }
}

/// Appending a descriptor under a fresh name keeps the names unique.
proof fn lemma_push_keeps_unique(s: Seq<DescModel>, d: DescModel)
    requires
        forall|i: int, j: int| 0 <= i < j < s.len() ==> s[i].name != s[j].name,
        lookup_model(s, d.name) is None,
    ensures
        forall|i: int, j: int|
            0 <= i < j < s.push(d).len() ==> s.push(d)[i].name != s.push(d)[j].name,
{
    lemma_lookup_exists(s, d.name);
    assert forall|i: int, j: int|
        0 <= i < j < s.push(d).len() implies s.push(d)[i].name != s.push(d)[j].name by {
        if j < s.len() {
            assert(s.push(d)[i] == s[i] && s.push(d)[j] == s[j]);
        } else {
            assert(s.push(d)[j] == d && s.push(d)[i] == s[i]);
        }
    }
}

/// The name of the synchronous logging op.
pub fn op_log_name() -> (r: String)
    ensures
        r@ == "op_log"@,
{
    "op_log".to_owned()
}

/// The name of the asynchronous sleep op.
pub fn op_sleep_name() -> (r: String)
    ensures
        r@ == "op_sleep"@,
{
    "op_sleep".to_owned()
}

/// The name of the synchronous byte-decode op.
pub fn op_base64_atob_name() -> (r: String)
    ensures
        r@ == "op_base64_atob"@,
{
    "op_base64_atob".to_owned()
}

/// The registry exposes the baseline capability surface: the three ops the
/// guest-visible capability object forwards to, each under its stable name,
/// with its declared call mode and schemas.
pub open spec fn bootstrap_ok(r: OpRegistry) -> bool {
    &&& r.spec_lookup("op_log"@) matches Some(d) && d.mode == CallMode::Sync && d.arg
        == ValueSchema::Str && d.result == ValueSchema::Unit
    &&& r.spec_lookup("op_sleep"@) matches Some(d) && d.mode == CallMode::Async && d.arg
        == ValueSchema::U64 && d.result == ValueSchema::Unit
    &&& r.spec_lookup("op_base64_atob"@) matches Some(d) && d.mode == CallMode::Sync && d.arg
        == ValueSchema::Bytes && d.result == ValueSchema::Bytes
}

/// Check that the registry carries the baseline capability surface; the
/// host's bootstrap fails fast when it does not.
pub fn check_bootstrap(r: &OpRegistry) -> (b: bool)
    ensures
        b == bootstrap_ok(*r),
{
    let log_ok = match r.lookup(&op_log_name()) {
        Some((m, a, res)) => matches!(m, CallMode::Sync) && matches!(a, ValueSchema::Str)
            && matches!(res, ValueSchema::Unit),
        None => false,
    };
    let sleep_ok = match r.lookup(&op_sleep_name()) {
        Some((m, a, res)) => matches!(m, CallMode::Async) && matches!(a, ValueSchema::U64)
            && matches!(res, ValueSchema::Unit),
        None => false,
    };
    let atob_ok = match r.lookup(&op_base64_atob_name()) {
        Some((m, a, res)) => matches!(m, CallMode::Sync) && matches!(a, ValueSchema::Bytes)
            && matches!(res, ValueSchema::Bytes),
        None => false,
    };
    log_ok && sleep_ok && atob_ok
}

/// The registry of the baseline op surface: exactly the logging, sleep, and
/// byte-decode ops under their stable names, and nothing else.
pub fn default_registry() -> (r: OpRegistry)
    ensures
        r.wf(),
        bootstrap_ok(r),
        r.model().len() == 3,
{
    proof {
        reveal_strlit("op_log");
        reveal_strlit("op_sleep");
        reveal_strlit("op_base64_atob");
        assert("op_log"@.len() == 6 && "op_sleep"@.len() == 8 && "op_base64_atob"@.len() == 14);
        assert("op_log"@ != "op_sleep"@ && "op_log"@ != "op_base64_atob"@ && "op_sleep"@
            != "op_base64_atob"@);
    }
    let mut reg = OpRegistry::empty();
    proof {
        assert(lookup_model(reg.model(), "op_log"@) is None);
    }
    let _ = reg.register(
        OpDescriptor {
            name: op_log_name(),
            mode: CallMode::Sync,
            arg: ValueSchema::Str,
            result: ValueSchema::Unit,
        },
    );
    proof {
        assert(reg.model().len() == 1);
        assert(reg.model()[0].name == "op_log"@);
        assert(reg.model().drop_first().len() == 0);
        assert(lookup_model(reg.model().drop_first(), "op_sleep"@) is None);
        assert(lookup_model(reg.model(), "op_sleep"@) is None);
    }
    let _ = reg.register(
        OpDescriptor {
            name: op_sleep_name(),
            mode: CallMode::Async,
            arg: ValueSchema::U64,
            result: ValueSchema::Unit,
        },
    );
    proof {
        assert(reg.model().len() == 2);
        assert(reg.model()[1].name == "op_sleep"@);
        assert(reg.model().drop_first()[0] == reg.model()[1]);
        assert(reg.model().drop_first().drop_first().len() == 0);
        assert(lookup_model(reg.model().drop_first().drop_first(), "op_base64_atob"@) is None);
        assert(lookup_model(reg.model().drop_first(), "op_base64_atob"@) is None);
        assert(lookup_model(reg.model(), "op_base64_atob"@) is None);
    }
    let _ = reg.register(
        OpDescriptor {
            name: op_base64_atob_name(),
            mode: CallMode::Sync,
            arg: ValueSchema::Bytes,
            result: ValueSchema::Bytes,
        },
    );
    proof {
        let m = reg.model();
        assert(m.len() == 3);
        assert(m[2].name == "op_base64_atob"@);
        assert(m.drop_first()[0] == m[1]);
        assert(m.drop_first()[1] == m[2]);
        assert(m.drop_first().drop_first()[0] == m[2]);
        assert(m.drop_first().drop_first().len() == 1);
        assert(reg.spec_lookup("op_log"@) == Some(m[0]));
        assert(lookup_model(m.drop_first(), "op_sleep"@) == Some(m[1]));
        assert(reg.spec_lookup("op_sleep"@) == Some(m[1]));
        assert(lookup_model(m.drop_first().drop_first(), "op_base64_atob"@) == Some(m[2]));
        assert(lookup_model(m.drop_first(), "op_base64_atob"@) == Some(m[2]));
        assert(reg.spec_lookup("op_base64_atob"@) == Some(m[2]));
    }
    reg
}

} // verus!
