use vstd::prelude::*;

verus! {

/// Mathematical model of an op argument or result crossing the host/guest
/// boundary.
pub enum ArgModel {
    Unit,
    U64(u64),
    Str(Seq<char>),
    Bytes(Seq<u8>),
}

/// Mathematical model of one step a guest module takes while it evaluates.
pub enum InstrModel {
    /// Invoke the op registered under `name` with the marshalled argument
    /// `arg`; when the call fails and `catch` holds, the guest handles the
    /// failure and evaluation continues.
    CallOp { name: Seq<char>, arg: ArgModel, catch: bool },
    /// Request a module load whose target is determined at evaluation time.
    DynImport { target: Seq<char> },
    /// Raise an uncaught guest failure.
    Throw,
}

/// A value marshalled across the host/guest boundary.
pub enum OpArg {
    Unit,
    U64(u64),
    Str(String),
    Bytes(Vec<u8>),
}

/// One step of a guest module, as the engine would replay it: an op
/// invocation, a dynamic import attempt, or an uncaught throw.
///
/// A module's source is opaque to the host; what the host observes of an
/// evaluating module is exactly such a sequence of steps, so a loadable
/// module is configured with the steps its source performs.
pub enum GuestInstr {
    CallOp { name: String, arg: OpArg, catch: bool },
    DynImport { target: String },
    Throw,
}

impl View for OpArg {
    type V = ArgModel;

    open spec fn view(&self) -> ArgModel {
        match self {
            OpArg::Unit => ArgModel::Unit,
            OpArg::U64(n) => ArgModel::U64(*n),
            OpArg::Str(s) => ArgModel::Str(s@),
            OpArg::Bytes(b) => ArgModel::Bytes(b@),
        }
    }
}

impl DeepView for OpArg {
    type V = ArgModel;

    open spec fn deep_view(&self) -> ArgModel {
        self.view()
    }
}

impl View for GuestInstr {
    type V = InstrModel;

    open spec fn view(&self) -> InstrModel {
        match self {
            GuestInstr::CallOp { name, arg, catch } => InstrModel::CallOp {
                name: name@,
                arg: arg@,
                catch: *catch,
            },
            GuestInstr::DynImport { target } => InstrModel::DynImport { target: target@ },
            GuestInstr::Throw => InstrModel::Throw,
        }
    }
}

impl DeepView for GuestInstr {
    type V = InstrModel;

    open spec fn deep_view(&self) -> InstrModel {
        self.view()
    }
}

impl OpArg {
    /// An exact copy of the argument.
    pub fn duplicate(&self) -> (r: OpArg)
        ensures
            r@ == self@,
    {
        match self {
            OpArg::Unit => OpArg::Unit,
            OpArg::U64(n) => OpArg::U64(*n),
            OpArg::Str(s) => OpArg::Str(s.clone()),
            OpArg::Bytes(b) => OpArg::Bytes(duplicate_bytes(b)),
        }
    }
}

impl GuestInstr {
    /// An exact copy of the instruction.
    pub fn duplicate(&self) -> (r: GuestInstr)
        ensures
            r@ == self@,
    {
        match self {
            GuestInstr::CallOp { name, arg, catch } => GuestInstr::CallOp {
                name: name.clone(),
                arg: arg.duplicate(),
                catch: *catch,
            },
            GuestInstr::DynImport { target } => GuestInstr::DynImport { target: target.clone() },
            GuestInstr::Throw => GuestInstr::Throw,
        }
    }
}

/// An exact copy of a byte vector.
fn duplicate_bytes(b: &Vec<u8>) -> (r: Vec<u8>)
    ensures
        r@ == b@,
{
    let mut r: Vec<u8> = Vec::new();
    let mut i: usize = 0;
    while i < b.len()
        invariant
            i <= b.len(),
            r@ == b@.take(i as int),
        decreases b.len() - i,
    {
        r.push(b[i]);
        proof {
            assert(r@ =~= b@.take(i + 1 as int));
        }
        i = i + 1;
    }
    proof {
        assert(b@.take(b@.len() as int) =~= b@);
    }
    r
}

/// An exact copy of a guest program.
pub fn duplicate_program(p: &Vec<GuestInstr>) -> (r: Vec<GuestInstr>)
    ensures
        r.deep_view() == p.deep_view(),
{
    let mut r: Vec<GuestInstr> = Vec::new();
    let mut i: usize = 0;
    while i < p.len()
        invariant
            i <= p.len(),
            r@.len() == i as int,
            forall|j: int| 0 <= j < i as int ==> (#[trigger] r@[j]).deep_view() == p@[j].deep_view(),
        decreases p.len() - i,
    {
        r.push((&p[i]).duplicate());
        i = i + 1;
    }
    proof {
        assert forall|j: int| 0 <= j < r.deep_view().len() implies r.deep_view()[j] == p.deep_view()[j] by {
            assert(r@[j].deep_view() == p@[j].deep_view());
        }
        assert(r.deep_view() =~= p.deep_view());
    }
    r
}

} // verus!
