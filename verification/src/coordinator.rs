//! The process coordinator: the single-threaded state machine that owns the
//! coverage snapshot, decides when runs start, and turns snapshots into
//! per-file reports through the ignore engine.

use vstd::prelude::*;

use crate::bytes::bytes_eq;
use crate::bytes::starts_with;
use crate::coverage::Coverage;
use crate::coverage::Trace;
use crate::coverage::TraceData;
use crate::events::ReqId;
use crate::events::Report;
use crate::events::Severity;
use crate::events::Trigger;
use crate::ignore::Classification;
use crate::ignore::FilterError;
use crate::ignore::Ignore;
use crate::ignore::RuleData;
use crate::ignore::classify;
use crate::ignore::filtered_traces;
use crate::ignore::tree_parses;
use crate::runner::Input;

verus! {

/// The coordinator's state, owned by its thread alone: the package under
/// test, the run's target directory, the generation counter bumped on every
/// successful run, the loaded ignore ruleset, the current coverage snapshot,
/// the set of paths of current interest, and the workspace roots used to
/// relativize paths.
pub struct State {
    pub package: Vec<u8>,
    pub target: Vec<u8>,
    pub generation: usize,
    pub ignore: Ignore,
    pub coverage: Option<Coverage>,
    pub interest: Vec<Vec<u8>>,
    pub workspaces: Vec<Vec<u8>>,
}

/// `path` relativized against one workspace root: the remainder after the
/// root and its separator, the empty path for the root itself, nothing when
/// the root is no prefix.
pub open spec fn strip_prefix_spec(root: Seq<u8>, path: Seq<u8>) -> Option<Seq<u8>> {
    if path == root {
        Some(Seq::empty())
    } else if root.len() < path.len() && path.take(root.len() as int) == root && path[
        root.len() as int
    ] == 47 {
        Some(path.skip(root.len() as int + 1))
    } else {
        None
    }
}

/// `path` relativized against the first workspace root that contains it, or
/// unchanged when none does.
pub open spec fn strip_workspaces_spec(roots: Seq<Seq<u8>>, path: Seq<u8>) -> Seq<u8>
    decreases roots.len(),
{
    if roots.len() == 0 {
        path
    } else if strip_prefix_spec(roots[0], path) is Some {
        strip_prefix_spec(roots[0], path).unwrap()
    } else {
        strip_workspaces_spec(roots.drop_first(), path)
    }
}

/// The classification a path receives once relativized against the
/// workspace roots.
pub open spec fn path_class(rules: Seq<RuleData>, roots: Seq<Seq<u8>>, path: Seq<u8>) -> Classification {
    classify(rules, strip_workspaces_spec(roots, path))
}

/// What the event loop must do next for one trigger.
#[derive(Debug)]
pub enum TriggerAction {
    /// Ask the supervisor to start (or restart) a run; nothing else.
    StartRun,
    /// Report on this path from the coverage snapshot already held.
    ReportHeld(Vec<u8>),
    /// No snapshot is held: load coverage afresh and report on this path.
    LoadAndReport(Vec<u8>),
    /// Acknowledge shutdown with this id, stop the supervisor, end the loop.
    ShutDown(ReqId),
    /// A reserved extension point of the protocol; nothing to do.
    Defer,
}

impl State {
    /// A coordinator before its first run: generation one, the given
    /// snapshot (from a cache probe, if any), and an empty interest set.
    pub fn new(
        package: Vec<u8>,
        target: Vec<u8>,
        workspaces: Vec<Vec<u8>>,
        ignore: Ignore,
        coverage: Option<Coverage>,
    ) -> (r: State)
        ensures
            r.package == package,
            r.target == target,
            r.generation == 1,
            r.ignore == ignore,
            r.coverage == coverage,
            r.interest@.len() == 0,
            r.workspaces == workspaces,
    {
        State {
            package,
            target,
            generation: 1,
            ignore,
            coverage,
            interest: Vec::new(),
            workspaces,
        }
    }

    /// Relativize `path` against the workspace roots before ignore matching.
    pub fn strip_workspaces(&self, path: &[u8]) -> (r: Vec<u8>)
        ensures
            r@ == strip_workspaces_spec(self.workspaces.deep_view(), path@),
    {
        proof {
            assert(self.workspaces.deep_view().skip(0) =~= self.workspaces.deep_view());
        }
        let ghost roots = self.workspaces.deep_view();
        let mut i: usize = 0;
        while i < self.workspaces.len()
            invariant
                i <= self.workspaces.len(),
                roots == self.workspaces.deep_view(),
                strip_workspaces_spec(roots, path@) == strip_workspaces_spec(
                    roots.skip(i as int),
                    path@,
                ),
            decreases self.workspaces.len() - i,
        {
            proof {
                assert(roots.skip(i as int)[0] == roots[i as int]);
                assert(roots.skip(i as int).drop_first() =~= roots.skip(i as int + 1));
                assert(roots[i as int] =~= self.workspaces@[i as int]@);
            }
            let root = &self.workspaces[i];
            if bytes_eq(path, root.as_slice()) {
                let empty: Vec<u8> = Vec::new();
                return empty;
            }
            if root.len() < path.len() && starts_with(path, root.as_slice()) && path[root.len()]
                == 47 {
                let rest = vstd::slice::slice_subrange(path, root.len() + 1, path.len());
                proof {
                    assert(rest@ =~= path@.skip(root@.len() as int + 1));
                }
                return vstd::slice::slice_to_vec(rest);
            }
            i = i + 1;
        }
        vstd::slice::slice_to_vec(path)
    }

    /// Decide what one trigger asks of the event loop: a save asks for a run
    /// and nothing else; an opened file asks for a report on it, from the
    /// held snapshot when there is one and from disk otherwise; exit asks for
    /// shutdown; the reserved diagnostic requests are intentionally deferred.
    pub fn handle_trigger(&self, trigger: Trigger) -> (r: TriggerAction)
        ensures
            (match trigger {
                Trigger::Write(_) => r == TriggerAction::StartRun,
                Trigger::Open(path) => r == (if self.coverage is Some {
                    TriggerAction::ReportHeld(path)
                } else {
                    TriggerAction::LoadAndReport(path)
                }),
                Trigger::Exit(id) => r == TriggerAction::ShutDown(id),
                Trigger::DocDiag(_, _) => r == TriggerAction::Defer,
                Trigger::WorkDiag(_) => r == TriggerAction::Defer,
                Trigger::WorkDiagRefresh(_) => r == TriggerAction::Defer,
            }),
    {
        match trigger {
            Trigger::Write(_) => TriggerAction::StartRun,
            Trigger::Open(path) => {
                if self.coverage.is_some() {
                    TriggerAction::ReportHeld(path)
                } else {
                    TriggerAction::LoadAndReport(path)
                }
            },
            Trigger::Exit(id) => TriggerAction::ShutDown(id),
            Trigger::DocDiag(_, _) => TriggerAction::Defer,
            Trigger::WorkDiag(_) => TriggerAction::Defer,
            Trigger::WorkDiagRefresh(_) => TriggerAction::Defer,
        }
    }

    /// Begin-of-run bookkeeping: drop the stale snapshot and interest set,
    /// and describe the run to the user.
    pub fn on_starting(&mut self) -> (r: Report)
        ensures
            final(self).coverage is None,
            final(self).interest@.len() == 0,
            final(self).package == old(self).package,
            final(self).target == old(self).target,
            final(self).generation == old(self).generation,
            final(self).ignore == old(self).ignore,
            final(self).workspaces == old(self).workspaces,
            (r matches Report::Message(sev, text) && sev == Severity::Info && text@
                == "starting tarpaulin"@),
    {
        self.coverage = None;
        self.interest.clear();
        Report::Message(Severity::Info, "starting tarpaulin".to_owned())
    }

    /// End-of-run bookkeeping for a successful run: bump the generation and
    /// install the freshly loaded snapshot (none when loading failed).
    pub fn on_success(&mut self, loaded: Option<Coverage>)
        requires
            old(self).generation < usize::MAX,
        ensures
            final(self).generation == old(self).generation + 1,
            final(self).coverage == loaded,
            final(self).package == old(self).package,
            final(self).target == old(self).target,
            final(self).ignore == old(self).ignore,
            final(self).interest == old(self).interest,
            final(self).workspaces == old(self).workspaces,
    {
        self.generation = self.generation + 1;
        self.coverage = loaded;
    }

    /// A failed run leaves the state alone and reports the failure.
    pub fn on_failure(&self) -> (r: Report)
        ensures
            (r matches Report::Message(sev, text) && sev == Severity::Error && text@
                == "tarpaulin failed to run"@),
    {
        Report::Message(Severity::Error, "tarpaulin failed to run".to_owned())
    }

    /// A superseded run leaves the state alone and warns that it restarted.
    pub fn on_reset(&self) -> (r: Report)
        ensures
            (r matches Report::Message(sev, text) && sev == Severity::Warning && text@
                == "restarting tarpaulin run"@),
    {
        Report::Message(Severity::Warning, "restarting tarpaulin run".to_owned())
    }

    /// Acknowledge shutdown and stop the supervisor: the only way the
    /// coordinator's loop ends.
    pub fn on_exit(&self, id: ReqId) -> (r: (Report, Input))
        ensures
            r.0 == Report::Exit(id),
            r.1 == Input::Exit,
    {
        (Report::Exit(id), Input::Exit)
    }

    /// Classify `path`, filter its traces against `content`, and build the
    /// per-file report. Fails exactly when a partial classification meets
    /// content that does not parse.
    pub fn report_for_path(&self, path: Vec<u8>, content: &[u8], traces: &Vec<Trace>) -> (r:
        Result<Report, FilterError>)
        ensures
            ({
                let c = path_class(self.ignore@, self.workspaces.deep_view(), path@);
                match r {
                    Ok(rep) => rep matches Report::Plain(p, kept) && p == path
                        && kept.deep_view() == filtered_traces(c, content@, traces.deep_view()),
                    Err(e) => e == FilterError::Parse,
                }
            }),
            r is Err <==> (path_class(self.ignore@, self.workspaces.deep_view(), path@)
                is Partially && !tree_parses(content@)),
    {
        let rel = self.strip_workspaces(path.as_slice());
        let outcome = self.ignore.matches(rel.as_slice());
        match outcome.filter(content, traces) {
            Ok(kept) => Ok(Report::Plain(path, kept)),
            Err(e) => Err(e),
        }
    }
}

/// Filtering is a pure function of ruleset, workspace roots and file data:
/// loading the same snapshot twice and filtering with the same ruleset owes
/// identical per-file reports.
pub proof fn lemma_reports_idempotent(
    a: &State,
    b: &State,
    path: Seq<u8>,
    content: Seq<u8>,
    ts: Seq<TraceData>,
)
    requires
        a.ignore@ == b.ignore@,
        a.workspaces.deep_view() == b.workspaces.deep_view(),
    ensures
        path_class(a.ignore@, a.workspaces.deep_view(), path) == path_class(
            b.ignore@,
            b.workspaces.deep_view(),
            path,
        ),
        filtered_traces(path_class(a.ignore@, a.workspaces.deep_view(), path), content, ts)
            == filtered_traces(
            path_class(b.ignore@, b.workspaces.deep_view(), path),
            content,
            ts,
        ),
{
}

} // verus!
