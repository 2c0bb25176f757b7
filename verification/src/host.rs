use vstd::prelude::*;

use crate::codec::{b64_forgiving_decoded, op_base64_atob};
use crate::errors::HostError;
use crate::guest::{ArgModel, GuestInstr, InstrModel, OpArg};
use crate::loader::{EvalStatus, ModuleRecord, ZinniaModuleLoader};
use crate::ops::{
    arg_matches, bootstrap_ok, check_bootstrap, op_base64_atob_name, op_log_name, op_sleep_name,
    schema_matches, OpRegistry, ValueSchema,
};

verus! {

/// The lifecycle phase of a runtime host.
#[derive(Clone, Copy, Debug, PartialEq, Eq, Structural)]
pub enum Phase {
    /// Freshly constructed; nothing installed yet.
    Created,
    /// Op registry and module loader installed (exactly once).
    Initialized,
    /// The main module's steps are being executed.
    Evaluating,
    /// The event loop is pumping pending tasks to quiescence.
    Draining,
    /// The run completed without an unrecovered error.
    SettledOk,
    /// The first unrecovered error anywhere in the run.
    SettledErr(HostError),
}

/// One in-flight asynchronous op invocation, owned by the event loop and
/// destroyed when its result is delivered back to the suspended call site
/// (so it is resumed at most once).
#[derive(Clone, Copy, Debug, PartialEq, Eq, Structural)]
pub struct PendingTask {
    pub id: u64,
    pub deadline: u64,
}

/// What the host asks of its driver after one step of work.
#[derive(Clone, Copy, Debug, PartialEq, Eq, Structural)]
pub enum HostAction {
    /// More work is ready; step again.
    Progress,
    /// No pending task is due yet: let time pass to at least the given
    /// instant (milliseconds), report it, then step again.
    WaitUntil(u64),
    /// The run has settled; stepping further changes nothing.
    Done,
}

/// `a + b` in u64 milliseconds, saturating at the largest representable
/// instant.
pub open spec fn sat_add(a: u64, b: u64) -> u64 {
    if a + b > u64::MAX {
        u64::MAX
    } else {
        (a + b) as u64
    }
}

/// The failure an instruction's op call raises, if any, before the guest has
/// a chance to catch it. Op calls are decided by name against the baseline op
/// surface; an argument that fails to decode against the op's declared schema
/// fails the call with `DecodeError` without executing the op body.
pub open spec fn instr_err(i: InstrModel) -> Option<HostError> {
    match i {
        InstrModel::Throw => Some(HostError::EvaluationError),
        InstrModel::DynImport { target } => Some(HostError::UnsupportedOperation),
        InstrModel::CallOp { name, arg, catch } => {
            if name == "op_log"@ {
                if schema_matches(arg, ValueSchema::Str) {
                    None
                } else {
                    Some(HostError::DecodeError)
                }
            } else if name == "op_sleep"@ {
                if schema_matches(arg, ValueSchema::U64) {
                    None
                } else {
                    Some(HostError::DecodeError)
                }
            } else if name == "op_base64_atob"@ {
                match arg {
                    ArgModel::Bytes(b) => if b64_forgiving_decoded(b) is Some {
                        None
                    } else {
                        Some(HostError::DecodeError)
                    },
                    _ => Some(HostError::DecodeError),
                }
            } else {
                Some(HostError::EvaluationError)
            }
        },
    }
}

/// The error on which evaluation settles at this instruction, if any: a
/// caught op failure is handled by the guest and does not settle the run; a
/// dynamic import attempt or an uncaught failure does.
pub open spec fn instr_settles(i: InstrModel) -> Option<HostError> {
    match i {
        InstrModel::CallOp { name, arg, catch } => if catch {
            None
        } else {
            instr_err(i)
        },
        _ => instr_err(i),
    }
}

/// The log lines the instruction emits: one line for a successful logging op
/// call, none otherwise.
pub open spec fn instr_log(i: InstrModel) -> Seq<Seq<char>> {
    match i {
        InstrModel::CallOp { name, arg, catch } => match arg {
            ArgModel::Str(m) => if name == "op_log"@ {
                seq![m]
            } else {
                seq![]
            },
            _ => seq![],
        },
        _ => seq![],
    }
}

/// The sleep duration the instruction suspends on, if it is a well-formed
/// call of the asynchronous sleep op.
pub open spec fn instr_suspends(i: InstrModel) -> Option<u64> {
    match i {
        InstrModel::CallOp { name, arg, catch } => match arg {
            ArgModel::U64(ms) => if name == "op_sleep"@ {
                Some(ms)
            } else {
                None
            },
            _ => None,
        },
        _ => None,
    }
}

/// The log lines emitted by executing `p` from position `i` on, up to where
/// evaluation settles.
pub open spec fn run_logs_from(p: Seq<InstrModel>, i: int) -> Seq<Seq<char>>
    decreases p.len() - i,
{
    if i < 0 || i >= p.len() {
        seq![]
    } else if instr_settles(p[i]) is Some {
        instr_log(p[i])
    } else {
        instr_log(p[i]) + run_logs_from(p, i + 1)
    }
}

/// The log lines a full evaluation of `p` emits.
pub open spec fn run_logs(p: Seq<InstrModel>) -> Seq<Seq<char>> {
    run_logs_from(p, 0)
}

/// The terminal error of executing `p` from position `i` on, if evaluation
/// settles on one; `None` when it runs to completion.
pub open spec fn run_result_from(p: Seq<InstrModel>, i: int) -> Option<HostError>
    decreases p.len() - i,
{
    if i < 0 || i >= p.len() {
        None
    } else {
        match instr_settles(p[i]) {
            Some(e) => Some(e),
            None => run_result_from(p, i + 1),
        }
    }
}

/// The terminal error of a full evaluation of `p`, if any.
pub open spec fn run_result(p: Seq<InstrModel>) -> Option<HostError> {
    run_result_from(p, 0)
}

/// The runtime host: owns one engine instance worth of state, installs the
/// op registry and module loader into it, bootstraps the baseline guest
/// globals, then drives module evaluation through the event loop to
/// completion.
pub struct RuntimeHost {
    pub phase: Phase,
    pub loader: Option<ZinniaModuleLoader>,
    pub registry: Option<OpRegistry>,
    /// The main module's record, owned for the duration of its lifecycle.
    pub record: Option<ModuleRecord>,
    /// Instruction pointer into the main module's steps.
    pub ip: usize,
    /// Lines emitted by the synchronous logging op, in invocation order.
    pub log: Vec<String>,
    /// The event loop's pending-task set.
    pub pending: Vec<PendingTask>,
    /// The task the suspended evaluation waits on, if any.
    pub waiting_on: Option<u64>,
    /// The current instant, in milliseconds; advances monotonically.
    pub now: u64,
    /// Source of fresh task ids.
    pub next_task_id: u64,
    /// Whether the main module was loaded and evaluation began.
    pub loaded: bool,
}

impl RuntimeHost {
    /// The steps of the loaded main module.
    pub open spec fn prog(self) -> Seq<InstrModel> {
        match self.record {
            Some(r) => r.program.deep_view(),
            None => seq![],
        }
    }

    /// The installed loader.
    pub open spec fn the_loader(self) -> ZinniaModuleLoader {
        self.loader->Some_0
    }

    /// The installed registry.
    pub open spec fn reg(self) -> OpRegistry {
        self.registry->Some_0
    }

    /// Loader and registry are installed, and the registry's names are
    /// unique.
    pub open spec fn installed(self) -> bool {
        &&& self.loader is Some
        &&& self.registry is Some
        &&& self.reg().wf()
    }

    /// The evaluation suspends on at most one task at a time, and the
    /// pending-task set holds exactly the task it waits on.
    ///
    /// This is a deliberate narrowing of the general pending-task set: the
    /// guest model is sequential and awaits each asynchronous op before its
    /// next step, so with the op surface given (one awaited sleep) no run
    /// ever has two tasks in flight, and out-of-order resumption of
    /// concurrently pending ops cannot arise.
    pub open spec fn tasks_inv(self) -> bool {
        match self.waiting_on {
            None => self.pending@.len() == 0,
            Some(t) => self.pending@.len() == 1 && self.pending@[0].id == t,
        }
    }

    /// The invariant of a host that is evaluating or draining: what was
    /// logged so far plus what the rest of the program emits is exactly the
    /// full run's log, and the rest of the program decides the full run's
    /// result.
    pub open spec fn running_inv(self) -> bool {
        &&& self.installed()
        &&& bootstrap_ok(self.reg())
        &&& self.loaded
        &&& self.record matches Some(rec) && rec.status == EvalStatus::Evaluating
        &&& self.ip <= self.prog().len()
        &&& self.log.deep_view() + run_logs_from(self.prog(), self.ip as int) == run_logs(
            self.prog(),
        )
        &&& run_result_from(self.prog(), self.ip as int) == run_result(self.prog())
        &&& self.tasks_inv()
    }

    /// Well-formedness across the whole lifecycle; every constructor
    /// establishes it and every method preserves it.
    pub open spec fn wf(self) -> bool {
        match self.phase {
            Phase::Created => {
                &&& self.loader is None
                &&& self.registry is None
                &&& self.record is None
                &&& !self.loaded
                &&& self.log@.len() == 0
                &&& self.pending@.len() == 0
                &&& self.waiting_on is None
            },
            Phase::Initialized => {
                &&& self.installed()
                &&& self.record is None
                &&& !self.loaded
                &&& self.log@.len() == 0
                &&& self.pending@.len() == 0
                &&& self.waiting_on is None
            },
            Phase::Evaluating => self.running_inv(),
            Phase::Draining => {
                &&& self.running_inv()
                &&& self.ip == self.prog().len()
                &&& self.waiting_on is None
            },
            Phase::SettledOk => {
                &&& self.installed()
                &&& self.loaded
                &&& self.record matches Some(rec) && rec.status == EvalStatus::Completed
                &&& run_result(self.prog()) is None
                &&& self.log.deep_view() == run_logs(self.prog())
                &&& self.pending@.len() == 0
                &&& self.waiting_on is None
            },
            Phase::SettledErr(e) => {
                &&& self.pending@.len() == 0
                &&& self.waiting_on is None
                &&& if self.loaded {
                    &&& self.installed()
                    &&& self.record matches Some(rec) && rec.status == EvalStatus::Failed
                    &&& run_result(self.prog()) == Some(e)
                    &&& self.log.deep_view() == run_logs(self.prog())
                } else {
                    &&& self.record is None
                    &&& self.log@.len() == 0
                }
            },
        }
    }

    /// A freshly created host: nothing installed, nothing run.
    pub fn new() -> (r: RuntimeHost)
        ensures
            r.wf(),
            r.phase == Phase::Created,
            r.now == 0,
    {
        RuntimeHost {
            phase: Phase::Created,
            loader: None,
            registry: None,
            record: None,
            ip: 0,
            log: Vec::new(),
            pending: Vec::new(),
            waiting_on: None,
            now: 0,
            next_task_id: 0,
            loaded: false,
        }
    }

    /// Install the op registry and the module loader: the exactly-once
    /// transition from `Created` to `Initialized`. Re-entry is not supported:
    /// a host that has left `Created` never takes this transition again.
    pub fn initialize(&mut self, loader: ZinniaModuleLoader, registry: OpRegistry)
        requires
            old(self).wf(),
            old(self).phase == Phase::Created,
            registry.wf(),
        ensures
            final(self).wf(),
            final(self).phase == Phase::Initialized,
            final(self).loader == Some(loader),
            final(self).registry == Some(registry),
            final(self).now == old(self).now,
            final(self).log@.len() == 0,
    {
        self.loader = Some(loader);
        self.registry = Some(registry);
        self.phase = Phase::Initialized;
    }

    /// Obtain the main module's record, validate the baseline op surface,
    /// and begin evaluation.
    ///
    /// A specifier outside the namespace settles the run with `NotFound`
    /// before any bootstrapping or evaluating side effect; a registry missing
    /// part of the baseline surface settles it with `FatalBootstrapError`;
    /// otherwise the host starts evaluating the module's steps.
    pub fn start(&mut self, main_specifier: &str)
        requires
            old(self).wf(),
            old(self).phase == Phase::Initialized,
        ensures
            final(self).wf(),
            final(self).loader == old(self).loader,
            final(self).registry == old(self).registry,
            final(self).now == old(self).now,
            final(self).log@.len() == 0,
            !old(self).the_loader().in_namespace(main_specifier@) ==> final(self).phase
                == Phase::SettledErr(HostError::NotFound) && !final(self).loaded,
            old(self).the_loader().in_namespace(main_specifier@) && !bootstrap_ok(old(self).reg())
                ==> final(self).phase == Phase::SettledErr(HostError::FatalBootstrapError)
                && !final(self).loaded,
            old(self).the_loader().in_namespace(main_specifier@) && bootstrap_ok(old(self).reg())
                ==> (final(self).phase == Phase::Evaluating
                    && final(self).ip == 0
                    && (old(self).the_loader().spec_find(main_specifier@) matches Some(ent)
                        && final(self).prog() == ent.program)),
            final(self).waiting_on is None,
            final(self).pending@.len() == 0,
    {
        let loaded_record = {
            let l = self.loader.as_ref().unwrap();
            l.load(main_specifier, false)
        };
        match loaded_record {
            Err(e) => {
                self.phase = Phase::SettledErr(e);
            },
            Ok(mut rec) => {
                let ok = {
                    let rg = self.registry.as_ref().unwrap();
                    check_bootstrap(rg)
                };
                if !ok {
                    self.phase = Phase::SettledErr(HostError::FatalBootstrapError);
                } else {
                    rec.status = EvalStatus::Evaluating;
                    self.record = Some(rec);
                    self.ip = 0;
                    self.loaded = true;
                    self.phase = Phase::Evaluating;
                    proof {
                        assert(self.log.deep_view() =~= Seq::<Seq<char>>::empty());
                        assert(self.log.deep_view() + run_logs_from(self.prog(), 0) =~= run_logs(
                            self.prog(),
                        ));
                    }
                }
            },
        }
    }

    /// Let time pass: the driver reports the current instant, which never
    /// moves backwards.
    pub fn advance_time(&mut self, now_ms: u64)
        requires
            old(self).wf(),
            now_ms >= old(self).now,
        ensures
            final(self).wf(),
            final(self).now == now_ms,
            final(self).phase == old(self).phase,
            final(self).loader == old(self).loader,
            final(self).registry == old(self).registry,
            final(self).record == old(self).record,
            final(self).ip == old(self).ip,
            final(self).log == old(self).log,
            final(self).pending == old(self).pending,
            final(self).waiting_on == old(self).waiting_on,
            final(self).loaded == old(self).loaded,
    {
        self.now = now_ms;
    }

    /// Settle the run on the unrecovered error `e` raised while evaluating.
    fn settle_failure(&mut self, e: HostError)
        requires
            old(self).record is Some,
            old(self).pending@.len() == 0,
        ensures
            final(self).phase == Phase::SettledErr(e),
            final(self).record matches Some(rec) && rec.status == EvalStatus::Failed,
            final(self).prog() == old(self).prog(),
            final(self).loader == old(self).loader,
            final(self).registry == old(self).registry,
            final(self).ip == old(self).ip,
            final(self).log == old(self).log,
            final(self).pending == old(self).pending,
            final(self).waiting_on is None,
            final(self).now == old(self).now,
            final(self).loaded == old(self).loaded,
    {
        if let Some(r) = &mut self.record {
            r.status = EvalStatus::Failed;
        }
        self.waiting_on = None;
        self.phase = Phase::SettledErr(e);
    }

    /// Execute the next step of the evaluating module.
    fn exec_instr(&mut self)
        requires
            old(self).wf(),
            old(self).phase == Phase::Evaluating,
            old(self).waiting_on is None,
            old(self).ip < old(self).prog().len(),
        ensures
            final(self).wf(),
            final(self).prog() == old(self).prog(),
            final(self).loader == old(self).loader,
            final(self).registry == old(self).registry,
            final(self).now == old(self).now,
            final(self).loaded,
            final(self).ip == old(self).ip + 1,
            final(self).log.deep_view() == old(self).log.deep_view() + instr_log(
                old(self).prog()[old(self).ip as int],
            ),
            (match instr_settles(old(self).prog()[old(self).ip as int]) {
                Some(e) => final(self).phase == Phase::SettledErr(e),
                None => final(self).phase == Phase::Evaluating,
            }),
            (match instr_suspends(old(self).prog()[old(self).ip as int]) {
                Some(ms) => final(self).waiting_on is Some && final(self).pending@.len() == 1
                    && final(self).pending@[0].deadline == sat_add(old(self).now, ms),
                None => final(self).waiting_on is None && final(self).pending@.len() == 0,
            }),
    {
        let ghost p = self.prog();
        let ghost cur = p[self.ip as int];
        let (instr, n): (GuestInstr, usize) = {
            let rec = self.record.as_ref().unwrap();
            ((&rec.program[self.ip]).duplicate(), rec.program.len())
        };
        proof {
            assert(instr@ == cur);
            assert(self.ip < n);
        }
        self.ip = self.ip + 1;
        match instr {
            GuestInstr::Throw => {
                self.settle_failure(HostError::EvaluationError);
                proof {
                    assert(instr_log(cur) =~= Seq::<Seq<char>>::empty());
                    lemma_settled_step(p, old(self).ip as int, old(self).log.deep_view());
                    assert(self.log.deep_view() =~= old(self).log.deep_view() + instr_log(cur));
                }
            },
            GuestInstr::DynImport { target } => {
                let outcome = {
                    let l = self.loader.as_ref().unwrap();
                    l.load(target.as_str(), true)
                };
                match outcome {
                    Err(e) => {
                        self.settle_failure(e);
                        proof {
                            assert(instr_log(cur) =~= Seq::<Seq<char>>::empty());
                            lemma_settled_step(p, old(self).ip as int, old(self).log.deep_view());
                            assert(self.log.deep_view() =~= old(self).log.deep_view() + instr_log(
                                cur,
                            ));
                        }
                    },
                    Ok(_) => {
                        proof {
                            assert(false);
                        }
                    },
                }
            },
            GuestInstr::CallOp { name, arg, catch } => {
                let looked = {
                    let rg = self.registry.as_ref().unwrap();
                    rg.lookup(&name)
                };
                let raised: Option<HostError> = match looked {
                    None => Some(HostError::EvaluationError),
                    Some((_mode, argschema, _resschema)) => {
                        if name == op_log_name() {
                            if arg_matches(&arg, argschema) {
                                match arg {
                                    OpArg::Str(msg) => {
                                        let ghost oldlog = self.log;
                                        self.log.push(msg);
                                        proof {
                                            lemma_deep_view_push_str(oldlog, self.log, msg);
                                        }
                                        None
                                    },
                                    _ => Some(HostError::DecodeError),
                                }
                            } else {
                                Some(HostError::DecodeError)
                            }
                        } else if name == op_sleep_name() {
                            if arg_matches(&arg, argschema) {
                                match arg {
                                    OpArg::U64(ms) => {
                                        let deadline: u64 = if ms > u64::MAX - self.now {
                                            u64::MAX
                                        } else {
                                            self.now + ms
                                        };
                                        let id = self.next_task_id;
                                        self.next_task_id = if id < u64::MAX {
                                            id + 1
                                        } else {
                                            0
                                        };
                                        self.pending.push(PendingTask { id, deadline });
                                        self.waiting_on = Some(id);
                                        None
                                    },
                                    _ => Some(HostError::DecodeError),
                                }
                            } else {
                                Some(HostError::DecodeError)
                            }
                        } else if name == op_base64_atob_name() {
                            if arg_matches(&arg, argschema) {
                                match arg {
                                    OpArg::Bytes(b) => {
                                        match op_base64_atob(b.as_slice()) {
                                            Ok(_) => None,
                                            Err(e) => Some(e),
                                        }
                                    },
                                    _ => Some(HostError::DecodeError),
                                }
                            } else {
                                Some(HostError::DecodeError)
                            }
                        } else {
                            Some(HostError::EvaluationError)
                        }
                    },
                };
                proof {
                    assert(raised == instr_err(cur));
                }
                match raised {
                    None => {
                        proof {
                            lemma_continue_step(p, old(self).ip as int, old(self).log.deep_view());
                            assert(self.log.deep_view() =~= old(self).log.deep_view() + instr_log(
                                cur,
                            ));
                        }
                    },
                    Some(e) => {
                        if catch {
                            proof {
                                lemma_continue_step(
                                    p,
                                    old(self).ip as int,
                                    old(self).log.deep_view(),
                                );
                                assert(instr_log(cur) =~= Seq::<Seq<char>>::empty());
                                assert(self.log.deep_view() =~= old(self).log.deep_view()
                                    + instr_log(cur));
                            }
                        } else {
                            self.settle_failure(e);
                            proof {
                                assert(instr_log(cur) =~= Seq::<Seq<char>>::empty());
                                lemma_settled_step(
                                    p,
                                    old(self).ip as int,
                                    old(self).log.deep_view(),
                                );
                                assert(self.log.deep_view() =~= old(self).log.deep_view()
                                    + instr_log(cur));
                            }
                        }
                    },
                }
            },
        }
    }

    /// Perform one step of the run: deliver a due task back to the suspended
    /// call site, execute the next instruction, or conclude the drain.
    ///
    /// A suspended evaluation is not resumed before the instant its task
    /// waits for: while the deadline is ahead of `now`, the host changes
    /// nothing and asks the driver to let time pass.
    pub fn step(&mut self) -> (act: HostAction)
        requires
            old(self).wf(),
            !(old(self).phase is Created),
            !(old(self).phase is Initialized),
        ensures
            final(self).wf(),
            final(self).now == old(self).now,
            final(self).loader == old(self).loader,
            final(self).registry == old(self).registry,
            final(self).loaded == old(self).loaded,
            final(self).prog() == old(self).prog(),
            (old(self).phase is SettledOk || old(self).phase is SettledErr)
                ==> (*final(self) == *old(self) && act == HostAction::Done),
            act == HostAction::Done
                ==> (old(self).phase is SettledOk || old(self).phase is SettledErr),
            act matches HostAction::WaitUntil(d)
                ==> (*final(self) == *old(self)
                    && old(self).waiting_on is Some
                    && old(self).pending@[0].deadline == d
                    && old(self).now < d),
            (old(self).waiting_on is Some && old(self).pending@[0].deadline > old(self).now)
                ==> act == HostAction::WaitUntil(old(self).pending@[0].deadline),
            (old(self).waiting_on is Some && old(self).pending@[0].deadline <= old(self).now)
                ==> (final(self).waiting_on is None
                    && final(self).pending@.len() == 0
                    && final(self).ip == old(self).ip
                    && final(self).log == old(self).log
                    && final(self).phase == old(self).phase
                    && act == HostAction::Progress),
            (old(self).phase is Evaluating && old(self).waiting_on is None && old(self).ip < old(
                self,
            ).prog().len()) ==> (final(self).ip == old(self).ip + 1
                && final(self).log.deep_view() == old(self).log.deep_view() + instr_log(
                old(self).prog()[old(self).ip as int],
            )
                && (match instr_settles(old(self).prog()[old(self).ip as int]) {
                    Some(e) => final(self).phase == Phase::SettledErr(e),
                    None => final(self).phase == Phase::Evaluating,
                })
                && (match instr_suspends(old(self).prog()[old(self).ip as int]) {
                    Some(ms) => final(self).waiting_on is Some && final(self).pending@.len() == 1
                        && final(self).pending@[0].deadline == sat_add(old(self).now, ms),
                    None => final(self).waiting_on is None && final(self).pending@.len() == 0,
                })
                && act == HostAction::Progress),
            (old(self).phase is Evaluating && old(self).waiting_on is None && old(self).ip == old(
                self,
            ).prog().len()) ==> (final(self).phase is Draining && act == HostAction::Progress),
            old(self).phase is Draining ==> (final(self).phase is SettledOk && act
                == HostAction::Progress),
    {
        if matches!(self.phase, Phase::SettledOk) || matches!(self.phase, Phase::SettledErr(_)) {
            return HostAction::Done;
        }
        match self.waiting_on {
            Some(_t) => {
                let task = self.pending[0];
                if self.now >= task.deadline {
                    let _ = self.pending.pop();
                    self.waiting_on = None;
                    HostAction::Progress
                } else {
                    HostAction::WaitUntil(task.deadline)
                }
            },
            None => {
                let len = {
                    let rec = self.record.as_ref().unwrap();
                    rec.program.len()
                };
                if self.ip < len {
                    self.exec_instr();
                    HostAction::Progress
                } else if matches!(self.phase, Phase::Evaluating) {
                    self.phase = Phase::Draining;
                    HostAction::Progress
                } else {
                    if let Some(r) = &mut self.record {
                        r.status = EvalStatus::Completed;
                    }
                    self.phase = Phase::SettledOk;
                    proof {
                        assert(run_logs_from(self.prog(), self.ip as int) =~= Seq::<
                            Seq<char>,
                        >::empty());
                        assert(self.log.deep_view() + run_logs_from(self.prog(), self.ip as int)
                            =~= self.log.deep_view());
                    }
                    HostAction::Progress
                }
            },
        }
    }
}

/// While no step settles, the run's result is decided by the steps that
/// follow.
pub proof fn lemma_result_unsettled_prefix(p: Seq<InstrModel>, i: int, k: int)
    requires
        0 <= i <= k <= p.len(),
        forall|j: int| i <= j < k ==> instr_settles(p[j]) is None,
    ensures
        run_result_from(p, i) == run_result_from(p, k),
    decreases k - i,
{
    if i < k {
        assert(run_result_from(p, i) == run_result_from(p, i + 1));
        lemma_result_unsettled_prefix(p, i + 1, k);
    }
}

/// A module that attempts a dynamic import at any point — after any steps
/// that do not themselves settle the run — settles with
/// `UnsupportedOperation`, regardless of the import's target.
pub proof fn lemma_dynamic_import_settles_run(p: Seq<InstrModel>, k: int)
    requires
        0 <= k < p.len(),
        p[k] is DynImport,
        forall|j: int| 0 <= j < k ==> instr_settles(p[j]) is None,
    ensures
        run_result(p) == Some(HostError::UnsupportedOperation),
{
    lemma_result_unsettled_prefix(p, 0, k);
    assert(instr_settles(p[k]) == Some(HostError::UnsupportedOperation));
}

/// The main demo program — the behaviour both demo modules are configured
/// with — logs its first message, suspends on the asynchronous sleep op for
/// exactly 1000 milliseconds (its only suspension), logs its second message,
/// and runs to completion with no unrecovered error.
pub proof fn lemma_demo_program_settles_ok()
    ensures
        run_result(crate::loader::demo_program_model()) is None,
        run_logs(crate::loader::demo_program_model()) == seq![
            "Good night..."@,
            "Good morning!"@,
        ],
        instr_suspends(crate::loader::demo_program_model()[0]) is None,
        instr_suspends(crate::loader::demo_program_model()[1]) == Some(1000u64),
        instr_suspends(crate::loader::demo_program_model()[2]) is None,
{
    reveal_strlit("op_log");
    reveal_strlit("op_sleep");
    reveal_strlit("op_base64_atob");
    let p = crate::loader::demo_program_model();
    assert(p.len() == 3);
    assert("op_log"@.len() == 6 && "op_sleep"@.len() == 8 && "op_base64_atob"@.len() == 14);
    assert("op_log"@ != "op_sleep"@ && "op_log"@ != "op_base64_atob"@ && "op_sleep"@
        != "op_base64_atob"@);
    assert(p[1] == (InstrModel::CallOp {
        name: "op_sleep"@,
        arg: ArgModel::U64(1000),
        catch: false,
    }));
    assert(instr_settles(p[0]) is None);
    assert(instr_settles(p[1]) is None);
    assert(instr_settles(p[2]) is None);
    assert(run_result_from(p, 3) is None);
    assert(run_result_from(p, 2) is None);
    assert(run_result_from(p, 1) is None);
    assert(run_result_from(p, 0) is None);
    assert(run_logs_from(p, 3) =~= Seq::<Seq<char>>::empty());
    assert(instr_log(p[2]) == seq!["Good morning!"@]);
    assert(run_logs_from(p, 2) =~= seq!["Good morning!"@]);
    assert(instr_log(p[1]) =~= Seq::<Seq<char>>::empty());
    assert(run_logs_from(p, 1) =~= seq!["Good morning!"@]);
    assert(instr_log(p[0]) == seq!["Good night..."@]);
    assert(run_logs_from(p, 0) =~= seq!["Good night..."@, "Good morning!"@]);
}

/// Pushing one string onto a vector appends its view to the deep view.
proof fn lemma_deep_view_push_str(a: Vec<String>, b: Vec<String>, x: String)
    requires
        b@ == a@.push(x),
    ensures
        b.deep_view() == a.deep_view().push(x@),
{
    assert forall|j: int| 0 <= j < b.deep_view().len() implies b.deep_view()[j]
        == a.deep_view().push(x@)[j] by {
        if j < a@.len() {
            assert(b@[j] == a@[j]);
        } else {
            assert(b@[j] == x);
        }
    }
    assert(b.deep_view() =~= a.deep_view().push(x@));
}

/// Executing the instruction at `i` without settling turns the running
/// invariant's ledger from position `i` into the same ledger at `i + 1`.
proof fn lemma_continue_step(p: Seq<InstrModel>, i: int, logged: Seq<Seq<char>>)
    requires
        0 <= i < p.len(),
        instr_settles(p[i]) is None,
        logged + run_logs_from(p, i) == run_logs(p),
        run_result_from(p, i) == run_result(p),
    ensures
        (logged + instr_log(p[i])) + run_logs_from(p, i + 1) == run_logs(p),
        run_result_from(p, i + 1) == run_result(p),
{
    assert(run_logs_from(p, i) == instr_log(p[i]) + run_logs_from(p, i + 1));
    assert((logged + instr_log(p[i])) + run_logs_from(p, i + 1) =~= logged + (instr_log(p[i])
        + run_logs_from(p, i + 1)));
    assert(run_result_from(p, i) == run_result_from(p, i + 1));
}

/// Executing the instruction at `i` and settling there makes the log ledger
/// complete and decides the run's result.
proof fn lemma_settled_step(p: Seq<InstrModel>, i: int, logged: Seq<Seq<char>>)
    requires
        0 <= i < p.len(),
        instr_settles(p[i]) is Some,
        instr_log(p[i]) == Seq::<Seq<char>>::empty(),
        logged + run_logs_from(p, i) == run_logs(p),
        run_result_from(p, i) == run_result(p),
    ensures
        logged == run_logs(p),
        run_result(p) == instr_settles(p[i]),
{
    assert(run_logs_from(p, i) == instr_log(p[i]));
    assert(logged + instr_log(p[i]) =~= logged);
    assert(run_result_from(p, i) == instr_settles(p[i]));
}

} // verus!
