//! Staged pipeline composition.
//!
//! A pipeline is an ordered sequence of stages, each an external command
//! or an in-process transformation, evaluated left to right. Planning a
//! pipeline turns it into the ordered sequence of actions its executor
//! must perform. The central policy lives in the plan: when a command
//! pipes into another command, the upstream process is joined
//! *concurrently* (on its own worker) while the downstream process
//! already runs, so a full pipe buffer can never deadlock the chain; only
//! a command feeding a transformation, or ending the pipeline, is joined
//! synchronously.

use vstd::prelude::*;

verus! {

/// One unit of a pipeline: an external command (a working directory and
/// a command line), or an in-process transformation, identified to the
/// executor by its stage index.
#[derive(Clone, PartialEq, Eq, Debug)]
pub enum PipelineStage {
    Command { workdir: String, command: String },
    Function,
}

/// One step an executor must perform, in plan order. Indices name the
/// stage the step belongs to.
#[derive(Clone, Copy, PartialEq, Eq, Debug)]
pub enum Action {
    /// Spawn the command of this stage; its stdin is the current stream
    /// if one is live, the current value if the previous stage was a
    /// transformation that produced bytes, and empty otherwise.
    Spawn { stage: usize },
    /// Join this stage's process on a background worker, concurrently
    /// with whatever follows; a non-success exit aborts the host.
    JoinConcurrent { stage: usize },
    /// Join this stage's process now, blocking, before going on; a
    /// non-success exit aborts the host.
    JoinSync { stage: usize },
    /// Invoke this transformation stage on the current value (for the
    /// first stage: produce the pipeline's initial value).
    ApplyFunction { stage: usize },
    /// Echo this final stage's output to the terminal, line by line,
    /// unprefixed.
    StreamToTerminal { stage: usize },
}

/// The plan from stage `i` on, given whether the previous stage was a
/// command whose process is still unjoined.
pub open spec fn plan_from(stages: Seq<PipelineStage>, i: int, prev_cmd: bool) -> Seq<Action>
    decreases stages.len() - i when 0 <= i <= stages.len()
{
    if i >= stages.len() {
        if prev_cmd && stages.len() > 0 {
            seq![
                Action::StreamToTerminal { stage: (stages.len() - 1) as usize },
                Action::JoinSync { stage: (stages.len() - 1) as usize },
            ]
        } else {
            Seq::empty()
        }
    } else {
        match stages[i] {
            PipelineStage::Command { .. } => (if prev_cmd {
                seq![Action::JoinConcurrent { stage: (i - 1) as usize }]
            } else {
                Seq::empty()
            }) + seq![Action::Spawn { stage: i as usize }] + plan_from(stages, i + 1, true),
            PipelineStage::Function => (if prev_cmd {
                seq![Action::JoinSync { stage: (i - 1) as usize }]
            } else {
                Seq::empty()
            }) + seq![Action::ApplyFunction { stage: i as usize }] + plan_from(stages, i + 1, false),
        }
    }
}

/// The full evaluation plan of a stage sequence.
pub open spec fn spec_plan(stages: Seq<PipelineStage>) -> Seq<Action> {
    plan_from(stages, 0, false)
}

proof fn lemma_contains_concat_r<T>(a: Seq<T>, b: Seq<T>, x: T)
    requires
        b.contains(x),
    ensures
        (a + b).contains(x),
{
    let j = choose|j: int| 0 <= j < b.len() && b[j] == x;
    assert((a + b)[a.len() + j] == x);
}

proof fn lemma_not_contains_concat<T>(a: Seq<T>, b: Seq<T>, x: T)
    requires
        !a.contains(x),
        !b.contains(x),
    ensures
        !(a + b).contains(x),
{
    if (a + b).contains(x) {
        let j = choose|j: int| 0 <= j < (a + b).len() && (a + b)[j] == x;
        if j < a.len() {
            assert(a[j] == x);
        } else {
            assert(b[j - a.len()] == x);
        }
    }
}

proof fn lemma_plan_reaches_pipe(stages: Seq<PipelineStage>, k: int, prev: bool, i: int)
    requires
        stages.len() <= usize::MAX,
        0 <= k <= i,
        i + 1 < stages.len(),
        prev ==> k >= 1,
        stages[i] is Command,
        stages[i + 1] is Command,
    ensures
        plan_from(stages, k, prev).contains((Action::JoinConcurrent { stage: i as usize })),
        plan_from(stages, k, prev).contains((Action::Spawn { stage: (i + 1) as usize })),
    decreases i - k,
{
    let jc = Action::JoinConcurrent { stage: i as usize };
    let sp = Action::Spawn { stage: (i + 1) as usize };
    if k == i {
        let tail = plan_from(stages, i + 1, true);
        assert(tail[0] == jc);
        assert(tail[1] == sp);
        assert(tail.contains(jc));
        assert(tail.contains(sp));
        let head = (if prev {
            seq![Action::JoinConcurrent { stage: (k - 1) as usize }]
        } else {
            Seq::<Action>::empty()
        }) + seq![Action::Spawn { stage: k as usize }];
        assert(plan_from(stages, k, prev) =~= head + tail);
        lemma_contains_concat_r(head, tail, jc);
        lemma_contains_concat_r(head, tail, sp);
    } else {
        match stages[k] {
            PipelineStage::Command { .. } => {
                let head = (if prev {
                    seq![Action::JoinConcurrent { stage: (k - 1) as usize }]
                } else {
                    Seq::<Action>::empty()
                }) + seq![Action::Spawn { stage: k as usize }];
                let tail = plan_from(stages, k + 1, true);
                assert(plan_from(stages, k, prev) =~= head + tail);
                lemma_plan_reaches_pipe(stages, k + 1, true, i);
                lemma_contains_concat_r(head, tail, jc);
                lemma_contains_concat_r(head, tail, sp);
            },
            PipelineStage::Function => {
                let head = (if prev {
                    seq![Action::JoinSync { stage: (k - 1) as usize }]
                } else {
                    Seq::<Action>::empty()
                }) + seq![Action::ApplyFunction { stage: k as usize }];
                let tail = plan_from(stages, k + 1, false);
                assert(plan_from(stages, k, prev) =~= head + tail);
                lemma_plan_reaches_pipe(stages, k + 1, false, i);
                lemma_contains_concat_r(head, tail, jc);
                lemma_contains_concat_r(head, tail, sp);
            },
        }
    }
}

proof fn lemma_plan_no_sync_join(stages: Seq<PipelineStage>, k: int, prev: bool, i: int)
    requires
        stages.len() <= usize::MAX,
        0 <= k <= stages.len(),
        prev ==> k >= 1,
        0 <= i,
        i + 1 < stages.len(),
        stages[i + 1] is Command,
    ensures
        !plan_from(stages, k, prev).contains((Action::JoinSync { stage: i as usize })),
    decreases stages.len() - k,
{
    let js = Action::JoinSync { stage: i as usize };
    if k >= stages.len() {
        if prev && stages.len() > 0 {
            assert(plan_from(stages, k, prev) =~= seq![
                Action::StreamToTerminal { stage: (stages.len() - 1) as usize },
                Action::JoinSync { stage: (stages.len() - 1) as usize },
            ]);
            if plan_from(stages, k, prev).contains(js) {
                let j = choose|j: int|
                    0 <= j < plan_from(stages, k, prev).len() && plan_from(stages, k, prev)[j]
                        == js;
                assert(j == 0 || j == 1);
            }
        }
    } else {
        match stages[k] {
            PipelineStage::Command { .. } => {
                let head = (if prev {
                    seq![Action::JoinConcurrent { stage: (k - 1) as usize }]
                } else {
                    Seq::<Action>::empty()
                }) + seq![Action::Spawn { stage: k as usize }];
                let tail = plan_from(stages, k + 1, true);
                assert(plan_from(stages, k, prev) =~= head + tail);
                lemma_plan_no_sync_join(stages, k + 1, true, i);
                assert(!head.contains(js)) by {
                    if head.contains(js) {
                        let j = choose|j: int| 0 <= j < head.len() && head[j] == js;
                    }
                }
                lemma_not_contains_concat(head, tail, js);
            },
            PipelineStage::Function => {
                let head = (if prev {
                    seq![Action::JoinSync { stage: (k - 1) as usize }]
                } else {
                    Seq::<Action>::empty()
                }) + seq![Action::ApplyFunction { stage: k as usize }];
                let tail = plan_from(stages, k + 1, false);
                assert(plan_from(stages, k, prev) =~= head + tail);
                lemma_plan_no_sync_join(stages, k + 1, false, i);
                assert(!head.contains(js)) by {
                    if head.contains(js) {
                        let j = choose|j: int| 0 <= j < head.len() && head[j] == js;
                        assert(prev && j == 0);
                        assert(head[0] == (Action::JoinSync { stage: (k - 1) as usize }));
                        assert((k - 1) as usize == i as usize);
                        assert(stages[i + 1] is Function);
                    }
                }
                lemma_not_contains_concat(head, tail, js);
            },
        }
    }
}

/// Deadlock avoidance: wherever a command stage pipes straight into
/// another command stage, the plan joins the upstream process
/// concurrently and spawns the downstream process; it never joins the
/// upstream process synchronously. A downstream command therefore never
/// waits on its predecessor's exit before starting.
pub proof fn lemma_pipe_join_is_concurrent(stages: Seq<PipelineStage>, i: int)
    requires
        stages.len() <= usize::MAX,
        0 <= i,
        i + 1 < stages.len(),
        stages[i] is Command,
        stages[i + 1] is Command,
    ensures
        spec_plan(stages).contains((Action::JoinConcurrent { stage: i as usize })),
        spec_plan(stages).contains((Action::Spawn { stage: (i + 1) as usize })),
        !spec_plan(stages).contains((Action::JoinSync { stage: i as usize })),
{
    lemma_plan_reaches_pipe(stages, 0, false, i);
    lemma_plan_no_sync_join(stages, 0, false, i);
}

/// A pipeline under construction: its ordered stages.
pub struct Pipeline {
    pub stages: Vec<PipelineStage>,
}

impl Pipeline {
    /// An empty pipeline.
    pub fn new() -> (p: Pipeline)
        ensures
            p.stages@.len() == 0,
    {
        Pipeline { stages: Vec::new() }
    }

    /// Append an external command stage.
    pub fn then_command(self, workdir: String, command: String) -> (p: Pipeline)
        ensures
            p.stages@ == self.stages@.push(
                (PipelineStage::Command { workdir: workdir, command: command }),
            ),
    {
        let mut stages = self.stages;
        stages.push(PipelineStage::Command { workdir, command });
        Pipeline { stages }
    }

    /// Append an in-process transformation stage.
    pub fn then_function(self) -> (p: Pipeline)
        ensures
            p.stages@ == self.stages@.push(PipelineStage::Function),
    {
        let mut stages = self.stages;
        stages.push(PipelineStage::Function);
        Pipeline { stages }
    }

    /// The ordered actions an executor must perform to evaluate this
    /// pipeline left to right.
    pub fn plan(&self) -> (actions: Vec<Action>)
        ensures
            actions@ == spec_plan(self.stages@),
    {
        let ghost sv = self.stages@;
        let mut actions: Vec<Action> = Vec::new();
        let mut prev_cmd = false;
        let n = self.stages.len();
        let mut i: usize = 0;
        proof {
            assert(actions@ + plan_from(sv, 0, false) =~= spec_plan(sv));
        }
        while i < n
            invariant
                n == sv.len(),
                sv == self.stages@,
                i <= n,
                actions@ + plan_from(sv, i as int, prev_cmd) =~= spec_plan(sv),
                prev_cmd ==> i >= 1,
            decreases n - i,
        {
            let ghost before = actions@;
            let ghost old_prev = prev_cmd;
            match &self.stages[i] {
                PipelineStage::Command { .. } => {
                    if prev_cmd {
                        actions.push(Action::JoinConcurrent { stage: i - 1 });
                    }
                    actions.push(Action::Spawn { stage: i });
                    prev_cmd = true;
                    proof {
                        if old_prev {
                            assert(plan_from(sv, i as int, old_prev) =~= seq![
                                Action::JoinConcurrent { stage: (i - 1) as usize },
                                Action::Spawn { stage: i as usize },
                            ] + plan_from(sv, i + 1 as int, true));
                            assert(actions@ =~= before + seq![
                                Action::JoinConcurrent { stage: (i - 1) as usize },
                                Action::Spawn { stage: i as usize },
                            ]);
                        } else {
                            assert(plan_from(sv, i as int, old_prev) =~= seq![
                                Action::Spawn { stage: i as usize },
                            ] + plan_from(sv, i + 1 as int, true));
                            assert(actions@ =~= before + seq![Action::Spawn { stage: i as usize }]);
                        }
                        assert(actions@ + plan_from(sv, i + 1 as int, true) =~= spec_plan(sv));
                    }
                },
                PipelineStage::Function => {
                    if prev_cmd {
                        actions.push(Action::JoinSync { stage: i - 1 });
                    }
                    actions.push(Action::ApplyFunction { stage: i });
                    prev_cmd = false;
                    proof {
                        if old_prev {
                            assert(plan_from(sv, i as int, old_prev) =~= seq![
                                Action::JoinSync { stage: (i - 1) as usize },
                                Action::ApplyFunction { stage: i as usize },
                            ] + plan_from(sv, i + 1 as int, false));
                            assert(actions@ =~= before + seq![
                                Action::JoinSync { stage: (i - 1) as usize },
                                Action::ApplyFunction { stage: i as usize },
                            ]);
                        } else {
                            assert(plan_from(sv, i as int, old_prev) =~= seq![
                                Action::ApplyFunction { stage: i as usize },
                            ] + plan_from(sv, i + 1 as int, false));
                            assert(actions@ =~= before + seq![
                                Action::ApplyFunction { stage: i as usize },
                            ]);
                        }
                        assert(actions@ + plan_from(sv, i + 1 as int, false) =~= spec_plan(sv));
                    }
                },
            }
            i = i + 1;
        }
        if prev_cmd {
            actions.push(Action::StreamToTerminal { stage: n - 1 });
            actions.push(Action::JoinSync { stage: n - 1 });
        }
        proof {
            assert(actions@ =~= spec_plan(sv));
        }
        actions
    }
}

} // verus!
