//! The frame schedule: stages run once each, in order, per frame.
use vstd::prelude::*;

use crate::context::MapContext;
use crate::graph::{graph_passes, names_of, RenderGraph};
use crate::renderer::StageTag;

verus! {

/// Why a frame was cut short.
#[derive(Clone, Copy, Debug, PartialEq, Eq, Structural)]
pub enum RenderError {
    /// A sub-graph's edges form a cycle, so its passes cannot all run.
    CyclicGraph,
}

/// The slots that stages are registered under; slots run in this order.
#[derive(Clone, Copy, Debug, PartialEq, Eq, Structural)]
pub enum RenderStageLabel {
    Extract,
    Prepare,
    Queue,
    PhaseSort,
    Render,
    Cleanup,
}

pub open spec fn label_rank(l: RenderStageLabel) -> int {
    match l {
        RenderStageLabel::Extract => 0,
        RenderStageLabel::Prepare => 1,
        RenderStageLabel::Queue => 2,
        RenderStageLabel::PhaseSort => 3,
        RenderStageLabel::Render => 4,
        RenderStageLabel::Cleanup => 5,
    }
}

fn rank(l: RenderStageLabel) -> (r: u8)
    ensures
        r == label_rank(l),
{
    match l {
        RenderStageLabel::Extract => 0,
        RenderStageLabel::Prepare => 1,
        RenderStageLabel::Queue => 2,
        RenderStageLabel::PhaseSort => 3,
        RenderStageLabel::Render => 4,
        RenderStageLabel::Cleanup => 5,
    }
}

/// One operation of a frame.
#[derive(Clone, Debug)]
pub enum Stage {
    Extract,
    Prepare,
    Queue,
    PhaseSort,
    /// Runs the passes of the render graph.
    Graph(RenderGraph),
    Cleanup,
    /// Writes the finished frame out of the surface buffer.
    WriteSurfaceBuffer,
    /// A stage that only records that it ran, under a number of its own.
    Custom(u32),
}

pub open spec fn stage_tag(s: Stage) -> StageTag {
    match s {
        Stage::Extract => StageTag::Extract,
        Stage::Prepare => StageTag::Prepare,
        Stage::Queue => StageTag::Queue,
        Stage::PhaseSort => StageTag::PhaseSort,
        Stage::Graph(_) => StageTag::Graph,
        Stage::Cleanup => StageTag::Cleanup,
        Stage::WriteSurfaceBuffer => StageTag::WriteSurfaceBuffer,
        Stage::Custom(n) => StageTag::Custom(n),
    }
}

/// What the stages of a frame leave behind in the renderer: the stages run
/// and the render passes executed, in order.
pub struct FrameState {
    pub stages: Seq<StageTag>,
    pub passes: Seq<Seq<char>>,
}

/// Runs one stage: it is recorded, and a graph stage executes the passes of
/// its graph, or fails, executing none, where a sub-graph has a cycle.
pub open spec fn run_stage(s: Stage, st: FrameState) -> Result<FrameState, FrameState> {
    let recorded = FrameState { stages: st.stages.push(stage_tag(s)), passes: st.passes };
    match s {
        Stage::Graph(g) => match graph_passes(g.sub_graphs()) {
            Some(p) => Ok(FrameState { stages: recorded.stages, passes: st.passes + p }),
            None => Err(recorded),
        },
        _ => Ok(recorded),
    }
}

/// Runs the stages in order, stopping at the first that fails.
pub open spec fn run_stages(ss: Seq<Stage>, st: FrameState) -> Result<FrameState, FrameState>
    decreases ss.len(),
{
    if ss.len() == 0 {
        Ok(st)
    } else {
        match run_stages(ss.drop_last(), st) {
            Err(e) => Err(e),
            Ok(mid) => run_stage(ss.last(), mid),
        }
    }
}

/// The stages of a schedule in the order they run.
pub open spec fn stage_list(s: Seq<(RenderStageLabel, Stage)>) -> Seq<Stage> {
    s.map_values(|p: (RenderStageLabel, Stage)| p.1)
}

pub open spec fn frame_state(ctx: &MapContext) -> FrameState {
    FrameState {
        stages: ctx.renderer.executed_stages@,
        passes: names_of(ctx.renderer.executed_passes@),
    }
}

/// The ordered stages of a frame, grouped by slot.
pub struct Schedule {
    stages: Vec<(RenderStageLabel, Stage)>,
    has_run: bool,
}

impl Schedule {
    pub closed spec fn stages(&self) -> Seq<(RenderStageLabel, Stage)> {
        self.stages@
    }

    pub closed spec fn has_run(&self) -> bool {
        self.has_run
    }

    /// Stages stand in slot order.
    pub open spec fn wf(&self) -> bool {
        forall|i: int, j: int|
            0 <= i < j < self.stages().len() ==> label_rank(self.stages()[i].0) <= label_rank(
                self.stages()[j].0,
            )
    }

    pub fn new() -> (r: Schedule)
        ensures
            r.wf(),
            r.stages().len() == 0,
            !r.has_run(),
    {
        Schedule { stages: Vec::new(), has_run: false }
    }

    pub fn len(&self) -> (r: usize)
        ensures
            r == self.stages().len(),
    {
        self.stages.len()
    }

    /// Appends `stage` at the end of the slot `label`. Refused, returning
    /// false, once the schedule has run.
    pub fn add_stage(&mut self, label: RenderStageLabel, stage: Stage) -> (r: bool)
        requires
            old(self).wf(),
        ensures
            final(self).wf(),
            final(self).has_run() == old(self).has_run(),
            r == !old(self).has_run(),
            !r ==> final(self).stages() == old(self).stages(),
            r ==> exists|p: int|
                0 <= p <= old(self).stages().len() && final(self).stages() == old(
                    self,
                ).stages().insert(p, (label, stage)) && (forall|i: int|
                    0 <= i < p ==> label_rank(old(self).stages()[i].0) <= label_rank(label)) && (
                forall|i: int|
                    p <= i < old(self).stages().len() ==> label_rank(label) < label_rank(
                        old(self).stages()[i].0,
                    )),
            r && (forall|i: int|
                0 <= i < old(self).stages().len() ==> label_rank(old(self).stages()[i].0)
                    <= label_rank(label)) ==> final(self).stages() == old(self).stages().push(
                (label, stage),
            ),
    {
        if self.has_run {
            return false;
        }
        let k = rank(label);
        let mut p: usize = 0;
        while p < self.stages.len() && rank(self.stages[p].0) <= k
            invariant
                p <= self.stages@.len(),
                self.wf(),
                self.stages@ == old(self).stages@,
                k == label_rank(label),
                forall|i: int| 0 <= i < p ==> label_rank(self.stages@[i].0) <= k,
            decreases self.stages@.len() - p,
        {
            p = p + 1;
        }
        let ghost before = self.stages@;
        proof {
            if p < before.len() {
                assert(label_rank(label) < label_rank(before[p as int].0));
                assert forall|i: int| p <= i < before.len() implies label_rank(label) < label_rank(before[i].0) by {
                    if i != p {
                        assert(label_rank(self.stages()[p as int].0) <= label_rank(self.stages()[i].0));
                    }
                }
            }
        }
        self.stages.insert(p, (label, stage));
        assert(self.stages() == before.insert(p as int, (label, stage)));
        assert(before == old(self).stages());
        assert(0 <= p <= before.len() && self.stages() == before.insert(p as int, (label, stage))
            && (forall|i: int| 0 <= i < p ==> label_rank(before[i].0) <= label_rank(label))
            && (forall|i: int| p <= i < before.len() ==> label_rank(label) < label_rank(before[i].0)));
        proof {
            if forall|i: int| 0 <= i < before.len() ==> label_rank(before[i].0) <= label_rank(label) {
                if p < before.len() {
                    assert(label_rank(before[p as int].0) <= label_rank(label));
                }
                assert(before.insert(p as int, (label, stage)) =~= before.push((label, stage)));
            }
        }
        assert forall|i: int, j: int|
            0 <= i < j < self.stages().len() implies label_rank(self.stages()[i].0) <= label_rank(
                self.stages()[j].0,
            ) by {
            if i < p && j > p {
                assert(self.stages()[j] == before[j - 1]);
                assert(self.stages()[i] == before[i]);
            } else if i > p {
                assert(self.stages()[j] == before[j - 1]);
                assert(self.stages()[i] == before[i - 1]);
            } else if j < p {
                assert(self.stages()[j] == before[j]);
                assert(self.stages()[i] == before[i]);
            } else if i == p {
                assert(self.stages()[j] == before[j - 1]);
            } else {
                assert(self.stages()[i] == before[i]);
            }
        }
        true
    }

    /// Runs every stage once, in order, against `ctx`. A stage that fails
    /// ends the frame there, and its error is returned.
    pub fn run(&mut self, ctx: &mut MapContext) -> (r: Result<(), RenderError>)
        ensures
            final(self).stages() == old(self).stages(),
            final(self).has_run(),
            final(ctx).style == old(ctx).style,
            final(ctx).world == old(ctx).world,
            final(ctx).renderer.buffer_pool == old(ctx).renderer.buffer_pool,
            match r {
                Ok(()) => run_stages(stage_list(old(self).stages()), frame_state(old(ctx))) == Ok::<
                    FrameState,
                    FrameState,
                >(frame_state(final(ctx))),
                Err(e) => e == RenderError::CyclicGraph && run_stages(
                    stage_list(old(self).stages()),
                    frame_state(old(ctx)),
                ) == Err::<FrameState, FrameState>(frame_state(final(ctx))),
            },
    {
        self.has_run = true;
        let ghost ss = stage_list(self.stages@);
        let ghost st0 = frame_state(ctx);
        let mut i: usize = 0;
        assert(ss.take(0) =~= Seq::<Stage>::empty());
        while i < self.stages.len()
            invariant
                ss == stage_list(self.stages@),
                self.stages@ == old(self).stages@,
                self.has_run,
                i <= ss.len(),
                ctx.style == old(ctx).style,
                ctx.world == old(ctx).world,
                ctx.renderer.buffer_pool == old(ctx).renderer.buffer_pool,
                st0 == frame_state(old(ctx)),
                run_stages(ss.take(i as int), st0) == Ok::<FrameState, FrameState>(frame_state(ctx)),
            decreases ss.len() - i,
        {
            let stage = &self.stages[i].1;
            assert(ss.take(i + 1).drop_last() =~= ss.take(i as int));
            assert(ss.take(i + 1).last() == *stage);
            let ok = run_one(stage, ctx);
            if !ok {
                proof {
                    lemma_run_stages_err_extends(ss, i as int + 1, st0);
                }
                return Err(RenderError::CyclicGraph);
            }
            i = i + 1;
        }
        assert(ss.take(i as int) =~= ss);
        Ok(())
    }
}

/// Once a prefix of the stages has failed, the whole run fails the same way.
proof fn lemma_run_stages_err_extends(ss: Seq<Stage>, n: int, st: FrameState)
    requires
        0 <= n <= ss.len(),
        run_stages(ss.take(n), st) is Err,
    ensures
        run_stages(ss, st) == run_stages(ss.take(n), st),
    decreases ss.len() - n,
{
    if n < ss.len() {
        assert(ss.take(n + 1).drop_last() =~= ss.take(n));
        lemma_run_stages_err_extends(ss, n + 1, st);
    } else {
        assert(ss.take(n) =~= ss);
    }
}

fn tag_of(s: &Stage) -> (r: StageTag)
    ensures
        r == stage_tag(*s),
{
    match s {
        Stage::Extract => StageTag::Extract,
        Stage::Prepare => StageTag::Prepare,
        Stage::Queue => StageTag::Queue,
        Stage::PhaseSort => StageTag::PhaseSort,
        Stage::Graph(_) => StageTag::Graph,
        Stage::Cleanup => StageTag::Cleanup,
        Stage::WriteSurfaceBuffer => StageTag::WriteSurfaceBuffer,
        Stage::Custom(n) => StageTag::Custom(*n),
    }
}

/// Runs one stage; false where it failed.
fn run_one(stage: &Stage, ctx: &mut MapContext) -> (ok: bool)
    ensures
        final(ctx).style == old(ctx).style,
        final(ctx).world == old(ctx).world,
        final(ctx).renderer.buffer_pool == old(ctx).renderer.buffer_pool,
        ok ==> run_stage(*stage, frame_state(old(ctx))) == Ok::<FrameState, FrameState>(frame_state(final(ctx))),
        !ok ==> run_stage(*stage, frame_state(old(ctx))) == Err::<FrameState, FrameState>(frame_state(final(ctx))),
{
    let ghost passes0 = ctx.renderer.executed_passes@;
    ctx.renderer.executed_stages.push(tag_of(stage));
    match stage {
        Stage::Graph(g) => match g.resolve_passes() {
            None => false,
            Some(passes) => {
                let mut k: usize = 0;
                while k < passes.len()
                    invariant
                        k <= passes@.len(),
                        ctx.style == old(ctx).style,
                        ctx.world == old(ctx).world,
                        ctx.renderer.buffer_pool == old(ctx).renderer.buffer_pool,
                        ctx.renderer.executed_stages@ == old(ctx).renderer.executed_stages@.push(stage_tag(*stage)),
                        ctx.renderer.executed_passes@ == passes0 + passes@.take(k as int),
                    decreases passes@.len() - k,
                {
                    ctx.renderer.executed_passes.push(passes[k].clone());
                    k = k + 1;
                    assert(ctx.renderer.executed_passes@ =~= passes0 + passes@.take(k as int));
                }
                assert(passes@.take(k as int) =~= passes@);
                assert(names_of(passes0 + passes@) =~= names_of(passes0) + names_of(passes@));
                true
            },
        },
        _ => true,
    }
}

/// The stages that every map registers: extraction, preparation, queuing
/// and sorting of draw work, the render graph, and cleanup.
pub fn register_default_render_stages(graph: RenderGraph, schedule: &mut Schedule)
    requires
        old(schedule).wf(),
        !old(schedule).has_run(),
        old(schedule).stages().len() == 0,
    ensures
        final(schedule).wf(),
        !final(schedule).has_run(),
        stage_list(final(schedule).stages()) == seq![
            Stage::Extract,
            Stage::Prepare,
            Stage::Queue,
            Stage::PhaseSort,
            Stage::Graph(graph),
            Stage::Cleanup,
        ],
{
    let ghost g = graph;
    schedule.stages = vec![
        (RenderStageLabel::Extract, Stage::Extract),
        (RenderStageLabel::Prepare, Stage::Prepare),
        (RenderStageLabel::Queue, Stage::Queue),
        (RenderStageLabel::PhaseSort, Stage::PhaseSort),
        (RenderStageLabel::Render, Stage::Graph(graph)),
        (RenderStageLabel::Cleanup, Stage::Cleanup),
    ];
    assert(stage_list(schedule.stages()) =~= seq![
        Stage::Extract,
        Stage::Prepare,
        Stage::Queue,
        Stage::PhaseSort,
        Stage::Graph(g),
        Stage::Cleanup,
    ]);
}

/// A run in which every stage succeeds records each stage exactly once, in
/// the order of the schedule.
pub proof fn lemma_each_stage_once_in_order(ss: Seq<Stage>, st: FrameState)
    requires
        run_stages(ss, st) is Ok,
    ensures
        run_stages(ss, st)->Ok_0.stages == st.stages + ss.map_values(|s: Stage| stage_tag(s)),
    decreases ss.len(),
{
    if ss.len() == 0 {
        assert(st.stages + ss.map_values(|s: Stage| stage_tag(s)) =~= st.stages);
    } else {
        lemma_each_stage_once_in_order(ss.drop_last(), st);
        assert(ss.map_values(|s: Stage| stage_tag(s)) =~= ss.drop_last().map_values(
            |s: Stage| stage_tag(s),
        ).push(stage_tag(ss.last())));
        assert(st.stages + ss.map_values(|s: Stage| stage_tag(s)) =~= (st.stages
            + ss.drop_last().map_values(|s: Stage| stage_tag(s))).push(stage_tag(ss.last())));
    }
}

} // verus!
