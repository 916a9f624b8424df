//! A map drawn without a window: fetches tiles through the pipeline and
//! renders them with the frame schedule.
use vstd::prelude::*;

use crate::context::{MapContext, Style, WindowSize, World};
use crate::coords::TileCoords;
use crate::graph::{create_default_render_graph, RenderGraph, RenderGraphError, SubGraph, COPY, DRAW_GRAPH, MAIN_PASS};
use crate::pipeline::{process, processed_layers, HeadlessPipelineProcessor, PipelineProcessor, TileRequest};
use crate::renderer::{BufferPool, Eventually, Renderer};
use crate::schedule::{
    frame_state, register_default_render_stages, run_stages, stage_list, FrameState,
    RenderError, RenderStageLabel, Schedule, Stage,
};
use crate::tile::{layer_models, StoredTile, TileStatus};

verus! {

/// The source could not deliver a tile's bytes.
#[derive(Clone, Debug, PartialEq, Eq)]
pub struct FetchError {
    pub message: String,
}

/// Whether `g` has a draw sub-graph.
pub open spec fn has_draw(g: RenderGraph) -> bool {
    exists|i: int| 0 <= i < g.sub_graphs().len() && g.sub_graphs()[i].name() == DRAW_GRAPH@
}

/// The draw sub-graph of `g`.
pub open spec fn draw_of(g: RenderGraph) -> SubGraph {
    g.sub_graphs()[choose|i: int| 0 <= i < g.sub_graphs().len() && g.sub_graphs()[i].name() == DRAW_GRAPH@]
}

/// Why a map cannot be set up on `g`, if it cannot: the draw sub-graph must
/// be there, hold the main pass, and not yet hold the copy pass.
pub open spec fn setup_error(g: RenderGraph) -> Option<RenderGraphError> {
    if !has_draw(g) {
        Some(RenderGraphError::UnknownSubGraph)
    } else if draw_of(g).nodes().contains(COPY@) {
        Some(RenderGraphError::DuplicateNode)
    } else if !draw_of(g).nodes().contains(MAIN_PASS@) {
        Some(RenderGraphError::UnknownNode)
    } else {
        None
    }
}

/// `g2` is `g` with the copy pass added to the draw sub-graph, after the
/// main pass.
pub open spec fn with_copy_pass(g: RenderGraph, g2: RenderGraph) -> bool {
    let d = draw_of(g);
    let d2 = draw_of(g2);
    &&& has_draw(g2)
    &&& g2.sub_graphs().len() == g.sub_graphs().len()
    &&& forall|i: int| 0 <= i < g.sub_graphs().len() && g.sub_graphs()[i].name() != DRAW_GRAPH@
        ==> g2.sub_graphs()[i] == g.sub_graphs()[i]
    &&& d2.nodes() == d.nodes().push(COPY@)
    &&& d2.edges() == d.edges().push(
        (d2.nodes().index_of(MAIN_PASS@) as usize, d2.nodes().index_of(COPY@) as usize),
    )
}

/// The stages of a map drawn on `g`.
pub open spec fn map_stages(g: RenderGraph) -> Seq<Stage> {
    seq![
        Stage::Extract,
        Stage::Prepare,
        Stage::Queue,
        Stage::PhaseSort,
        Stage::Graph(g),
        Stage::Cleanup,
        Stage::WriteSurfaceBuffer,
    ]
}

/// A map with its context and frame schedule.
pub struct HeadlessMap {
    window_size: WindowSize,
    map_context: MapContext,
    schedule: Schedule,
}

impl HeadlessMap {
    pub closed spec fn context(&self) -> MapContext {
        self.map_context
    }

    pub closed spec fn schedule(&self) -> Schedule {
        self.schedule
    }

    pub closed spec fn spec_window_size(&self) -> WindowSize {
        self.window_size
    }

    pub open spec fn wf(&self) -> bool {
        &&& self.context().world.tile_repository.wf()
        &&& self.schedule().wf()
    }

    /// Sets a map up on the default render graph.
    pub fn new(style: Style, window_size: WindowSize, renderer: Renderer) -> (r: Result<HeadlessMap, RenderGraphError>)
        ensures
            r matches Ok(m) && m.wf() && m.context().style == style && m.context().renderer == renderer
                && m.context().world.window_size == window_size
                && m.context().world.tile_repository@ == Map::<TileCoords, StoredTile>::empty()
                && !m.schedule().has_run() && exists|g: RenderGraph|
                stage_list(m.schedule().stages()) == map_stages(g) && g.sub_graphs().len() == 1
                    && g.sub_graphs()[0].name() == DRAW_GRAPH@
                    && g.sub_graphs()[0].nodes() == seq![MAIN_PASS@, COPY@]
                    && g.sub_graphs()[0].edges() == seq![(0usize, 1usize)],
    {
        let graph = create_default_render_graph();
        let ghost g0 = graph;
        proof {
            reveal_strlit("main_pass");
            reveal_strlit("copy");
            assert(MAIN_PASS@.len() != COPY@.len());
            assert(g0.sub_graphs()[0].name() == DRAW_GRAPH@);
            assert(has_draw(g0));
            assert(draw_of(g0) == g0.sub_graphs()[0]);
            assert(g0.sub_graphs()[0].nodes()[0] == MAIN_PASS@);
            assert(draw_of(g0).nodes().contains(MAIN_PASS@));
            assert(!draw_of(g0).nodes().contains(COPY@));
        }
        let r = HeadlessMap::with_render_graph(style, window_size, renderer, graph);
        proof {
            if r is Ok {
                let m = r->Ok_0;
                let g = choose|g: RenderGraph| stage_list(m.schedule().stages()) == map_stages(g) && with_copy_pass(g0, g);
                assert(stage_list(m.schedule().stages()) == map_stages(g) && with_copy_pass(g0, g));
                let i = choose|i: int| 0 <= i < g.sub_graphs().len() && g.sub_graphs()[i].name() == DRAW_GRAPH@;
                assert(i == 0);
                let n = g.sub_graphs()[0].nodes();
                assert(n =~= seq![MAIN_PASS@, COPY@]);
                assert(n[0] == MAIN_PASS@);
                assert(n[1] == COPY@);
                assert(n.index_of(MAIN_PASS@) == 0);
                assert(n.index_of(COPY@) == 1);
                assert(g.sub_graphs()[0].edges() =~= seq![(0usize, 1usize)]);
            }
        }
        r
    }

    /// Sets a map up on a render graph the caller prepared: adds the copy
    /// pass to its draw sub-graph, after the main pass, and registers the
    /// stages of a frame. Fails, and no map is made, where the graph refuses
    /// either addition.
    pub fn with_render_graph(style: Style, window_size: WindowSize, renderer: Renderer, graph: RenderGraph) -> (r: Result<HeadlessMap, RenderGraphError>)
        requires
            graph.wf(),
        ensures
            match r {
                Ok(m) => setup_error(graph) is None && m.wf() && m.context().style == style
                    && m.context().renderer == renderer
                    && m.context().world.window_size == window_size
                    && m.context().world.tile_repository@ == Map::<TileCoords, StoredTile>::empty()
                    && !m.schedule().has_run() && exists|g: RenderGraph|
                    stage_list(m.schedule().stages()) == map_stages(g) && with_copy_pass(graph, g),
                Err(e) => setup_error(graph) == Some(e),
            },
    {
        let ghost g0 = graph;
        let mut graph = graph;
        let draw = DRAW_GRAPH.to_owned();
        let copy = COPY.to_owned();
        proof {
            if has_draw(g0) {
                let i = choose|i: int| 0 <= i < g0.sub_graphs().len() && g0.sub_graphs()[i].name() == DRAW_GRAPH@;
                assert(draw_of(g0) == g0.sub_graphs()[i]);
            }
        }
        match graph.add_node(&draw, copy) {
            Ok(()) => {},
            Err(e) => {
                return Err(e);
            },
        }
        let ghost g1 = graph;
        let main_pass = MAIN_PASS.to_owned();
        let copy = COPY.to_owned();
        proof {
            reveal_strlit("main_pass");
            reveal_strlit("copy");
            assert(MAIN_PASS@.len() != COPY@.len());
            let i = choose|i: int|
                0 <= i < g0.sub_graphs().len() && g0.sub_graphs()[i].name() == DRAW_GRAPH@
                    && !g0.sub_graphs()[i].nodes().contains(COPY@)
                    && g1.sub_graphs() == g0.sub_graphs().update(i, g1.sub_graphs()[i])
                    && g1.sub_graphs()[i].name() == DRAW_GRAPH@
                    && g1.sub_graphs()[i].nodes() == g0.sub_graphs()[i].nodes().push(COPY@)
                    && g1.sub_graphs()[i].edges() == g0.sub_graphs()[i].edges();
            assert(draw_of(g0) == g0.sub_graphs()[i]);
            assert(draw_of(g1) == g1.sub_graphs()[i]);
            let n0 = g0.sub_graphs()[i].nodes();
            let n1 = g1.sub_graphs()[i].nodes();
            assert(n1[n0.len() as int] == COPY@);
            assert(n1.contains(COPY@));
            assert(n1.contains(MAIN_PASS@) <==> n0.contains(MAIN_PASS@)) by {
                if n0.contains(MAIN_PASS@) {
                    let k = choose|k: int| 0 <= k < n0.len() && n0[k] == MAIN_PASS@;
                    assert(n1[k] == MAIN_PASS@);
                }
                if n1.contains(MAIN_PASS@) {
                    let k = choose|k: int| 0 <= k < n1.len() && n1[k] == MAIN_PASS@;
                    assert(k != n0.len());
                    assert(n0[k] == MAIN_PASS@);
                }
            }
            assert(g1.sub_graphs()[i].wf());
            assert(g0.sub_graphs()[i].wf());
            let c = n1.index_of(COPY@);
            assert(c == n0.len());
            if g1.sub_graphs()[i].edges().contains((n1.index_of(MAIN_PASS@) as usize, c as usize)) {
                let e = choose|e: int| 0 <= e < g1.sub_graphs()[i].edges().len() && g1.sub_graphs()[i].edges()[e] == (n1.index_of(MAIN_PASS@) as usize, c as usize);
                assert(g0.sub_graphs()[i].edges()[e].1 < n0.len());
                assert(false);
            }
        }
        match graph.add_node_edge(&draw, &main_pass, &copy) {
            Ok(()) => {},
            Err(e) => {
                return Err(e);
            },
        }
        proof {
            let i = choose|i: int| 0 <= i < g0.sub_graphs().len() && g0.sub_graphs()[i].name() == DRAW_GRAPH@;
            assert(graph.sub_graphs()[i].name() == DRAW_GRAPH@);
            assert(draw_of(graph) == graph.sub_graphs()[i]);
            assert forall|j: int| 0 <= j < g0.sub_graphs().len() && g0.sub_graphs()[j].name() != DRAW_GRAPH@
                implies graph.sub_graphs()[j] == g0.sub_graphs()[j] by {
                assert(j != i);
            }
            assert(with_copy_pass(g0, graph));
        }
        let ghost g2 = graph;
        let mut schedule = Schedule::new();
        register_default_render_stages(graph, &mut schedule);
        let ghost before = schedule.stages();
        schedule.add_stage(RenderStageLabel::Cleanup, Stage::WriteSurfaceBuffer);
        proof {
            assert(forall|k: int| 0 <= k < before.len() ==> crate::schedule::label_rank(before[k].0) <= 5);
            assert(schedule.stages() == before.push((RenderStageLabel::Cleanup, Stage::WriteSurfaceBuffer)));
            assert(stage_list(schedule.stages()) =~= stage_list(before).push(Stage::WriteSurfaceBuffer));
            assert(stage_list(schedule.stages()) =~= map_stages(g2));
        }
        let world = World::new(window_size);
        Ok(HeadlessMap { window_size, map_context: MapContext { style, world, renderer }, schedule })
    }

    pub fn window_size(&self) -> (r: WindowSize)
        ensures
            r == self.spec_window_size(),
    {
        self.window_size
    }

    pub fn map_context(&self) -> (r: &MapContext)
        ensures
            *r == self.context(),
    {
        &self.map_context
    }

    /// The tile stored under `coords`, if any.
    pub fn tile(&self, coords: &TileCoords) -> (r: Option<&StoredTile>)
        requires
            self.wf(),
        ensures
            match r {
                Some(t) => self.context().world.tile_repository@.contains_key(*coords)
                    && self.context().world.tile_repository@[*coords] == *t,
                None => !self.context().world.tile_repository@.contains_key(*coords),
            },
    {
        self.map_context.world.tile_repository.get_tile(coords)
    }

    /// Renders one frame with `tile` in it: clears the buffer pool where the
    /// renderer has set one up, stores the tile over whatever its coordinate
    /// held, and runs the frame schedule once.
    pub fn render_tile(&mut self, tile: StoredTile) -> (r: Result<(), RenderError>)
        requires
            old(self).wf(),
        ensures
            final(self).wf(),
            final(self).spec_window_size() == old(self).spec_window_size(),
            final(self).context().style == old(self).context().style,
            final(self).context().world.window_size == old(self).context().world.window_size,
            final(self).context().world.tile_repository@ == old(self).context().world.tile_repository@.insert(tile.coords, tile),
            old(self).context().renderer.buffer_pool is Uninitialized ==> final(self).context().renderer.buffer_pool is Uninitialized,
            old(self).context().renderer.buffer_pool matches Eventually::Initialized(pool0) ==>
                final(self).context().renderer.buffer_pool matches Eventually::Initialized(pool1)
                && pool1.capacity() == pool0.capacity() && pool1.used() == 0,
            final(self).schedule().stages() == old(self).schedule().stages(),
            final(self).schedule().has_run(),
            match r {
                Ok(()) => run_stages(stage_list(old(self).schedule().stages()), frame_state(&old(self).context()))
                    == Ok::<FrameState, FrameState>(frame_state(&final(self).context())),
                Err(e) => run_stages(stage_list(old(self).schedule().stages()), frame_state(&old(self).context()))
                    == Err::<FrameState, FrameState>(frame_state(&final(self).context())),
            },
    {
        let context = &mut self.map_context;
        context.renderer.buffer_pool.clear_if_initialized();
        context.world.tile_repository.put_tile(tile);
        self.schedule.run(&mut self.map_context)
    }

    /// Turns the bytes fetched for `coords` into a tile: runs the pipeline
    /// with the requested layers and collects what it finishes. A failed
    /// fetch is handed back as it came, and nothing is stored either way.
    pub fn fetch_tile(
        &self,
        coords: TileCoords,
        source_layers: Vec<String>,
        fetched: Result<Vec<u8>, FetchError>,
    ) -> (r: Result<StoredTile, FetchError>)
        ensures
            match fetched {
                Err(e) => r == Err::<StoredTile, FetchError>(e),
                Ok(bytes) => r matches Ok(t) && t.coords == coords && t.status == TileStatus::Success
                    && layer_models(t.layers@) == processed_layers(
                    TileRequest { coords, layers: source_layers },
                    bytes@,
                ),
            },
    {
        let data = match fetched {
            Ok(data) => data,
            Err(e) => {
                return Err(e);
            },
        };
        let request = TileRequest { coords, layers: source_layers };
        let mut processor = HeadlessPipelineProcessor::new();
        assert(processor.finished() =~= Seq::<crate::tile::LayerModel>::empty());
        process(&request, data.as_slice(), &mut processor);
        assert(processor.finished() =~= processed_layers(request, data@));
        Ok(StoredTile::success(coords, processor.layers))
    }
}

} // verus!
