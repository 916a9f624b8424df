use maplibre_headless::container::{decode_features, parse_frames};
use maplibre_headless::context::{MapContext, Style, WindowSize, World};
use maplibre_headless::coords::TileCoords;
use maplibre_headless::graph::{
    create_default_render_graph, RenderGraph, RenderGraphError, SubGraph, COPY, DRAW_GRAPH,
    MAIN_PASS,
};
use maplibre_headless::map::{FetchError, HeadlessMap};
use maplibre_headless::pipeline::{process, HeadlessPipelineProcessor, TileRequest};
use maplibre_headless::renderer::{Eventually, Renderer, StageTag};
use maplibre_headless::repository::TileRepository;
use maplibre_headless::schedule::{RenderError, RenderStageLabel, Schedule, Stage};
use maplibre_headless::tessellation::tessellate;
use maplibre_headless::tile::{ShaderVertex, StoredTile, TileStatus};

fn feature(vertices: &[(u16, u16)]) -> Vec<u8> {
    let mut out = vec![vertices.len() as u8];
    for (x, y) in vertices {
        out.extend_from_slice(&x.to_le_bytes());
        out.extend_from_slice(&y.to_le_bytes());
    }
    out
}

fn frame(name: &str, geometry: &[u8]) -> Vec<u8> {
    let mut out = vec![name.len() as u8];
    out.extend_from_slice(name.as_bytes());
    out.extend_from_slice(&(geometry.len() as u16).to_le_bytes());
    out.extend_from_slice(geometry);
    out
}

fn square() -> Vec<u8> {
    feature(&[(0, 0), (4096, 0), (4096, 4096), (0, 4096)])
}

fn names(list: &[&str]) -> Vec<String> {
    list.iter().map(|s| s.to_string()).collect()
}

fn style() -> Style {
    Style { source_layers: names(&["water", "roads"]) }
}

fn size() -> WindowSize {
    WindowSize { width: 256, height: 256 }
}

fn new_map(renderer: Renderer) -> HeadlessMap {
    match HeadlessMap::new(style(), size(), renderer) {
        Ok(m) => m,
        Err(e) => panic!("map setup failed: {:?}", e),
    }
}

fn context() -> MapContext {
    MapContext { style: style(), world: World::new(size()), renderer: Renderer::new() }
}

#[test]
fn fetch_tile_keeps_only_present_requested_layers() {
    let map = new_map(Renderer::new());
    let coords = TileCoords::new(2, 1, 1);
    let bytes = frame("water", &square());
    let tile = map.fetch_tile(coords, names(&["water", "roads"]), Ok(bytes)).unwrap();
    assert_eq!(tile.status, TileStatus::Success);
    assert_eq!(tile.coords, coords);
    assert_eq!(tile.layers.len(), 1);
    let layer = &tile.layers[0];
    assert_eq!(layer.layer_name, "water");
    assert_eq!(layer.coords, coords);
    assert_eq!(layer.buffer.usable_vertices, 4);
    assert_eq!(layer.buffer.vertices.len(), 4);
    assert_eq!(layer.buffer.usable_indices, 6);
    assert_eq!(layer.buffer.indices.len(), 8);
    assert_eq!(layer.feature_indices.len(), layer.buffer.usable_indices / 3);
    assert_eq!(layer.feature_indices, vec![0, 0]);
    assert_eq!(layer.buffer.indices, vec![0, 1, 2, 0, 2, 3, 0, 0]);
}

#[test]
fn fetch_tile_hands_back_transport_error() {
    let map = new_map(Renderer::new());
    let err = FetchError { message: "connection reset".to_string() };
    let r = map.fetch_tile(TileCoords::new(0, 0, 0), names(&["water"]), Err(err.clone()));
    assert_eq!(r.unwrap_err(), err);
    assert!(map.tile(&TileCoords::new(0, 0, 0)).is_none());
}

#[test]
fn process_calls_processor_once_per_requested_decodable_layer() {
    let mut bytes = frame("buildings", &square());
    bytes.extend(frame("roads", &[5, 1, 2]));
    bytes.extend(frame("water", &square()));
    bytes.extend(frame("land", &feature(&[(0, 0), (1, 0)])));
    let request = TileRequest { coords: TileCoords::new(3, 2, 5), layers: names(&["roads", "water", "land", "parks"]) };
    let mut processor = HeadlessPipelineProcessor::new();
    process(&request, &bytes, &mut processor);
    assert_eq!(processor.layers.len(), 1);
    assert_eq!(processor.layers[0].layer_name, "water");
    assert_eq!(processor.layers[0].coords, TileCoords::new(3, 2, 5));
}

#[test]
fn process_emits_in_frame_order() {
    let mut bytes = frame("roads", &square());
    bytes.extend(frame("water", &square()));
    let request = TileRequest { coords: TileCoords::new(1, 0, 0), layers: names(&["water", "roads"]) };
    let mut processor = HeadlessPipelineProcessor::default();
    process(&request, &bytes, &mut processor);
    let got: Vec<&str> = processor.layers.iter().map(|l| l.layer_name.as_str()).collect();
    assert_eq!(got, vec!["roads", "water"]);
}

#[test]
fn parse_frames_drops_truncated_tail() {
    let mut bytes = frame("water", &square());
    let tail = frame("roads", &square());
    bytes.extend_from_slice(&tail[..tail.len() - 1]);
    let frames = parse_frames(&bytes);
    assert_eq!(frames.len(), 1);
    assert_eq!(frames[0].name, b"water".to_vec());
    assert_eq!(frames[0].geometry, square());
}

#[test]
fn decode_features_reads_little_endian_vertices() {
    let fs = decode_features(&feature(&[(1, 258), (65535, 0), (7, 9)])).unwrap();
    assert_eq!(fs.len(), 1);
    assert_eq!(fs[0], vec![
        ShaderVertex { x: 1, y: 258 },
        ShaderVertex { x: 65535, y: 0 },
        ShaderVertex { x: 7, y: 9 },
    ]);
    assert!(decode_features(&[]).unwrap().is_empty());
    assert!(decode_features(&feature(&[(1, 1), (2, 2)])).is_none());
    assert!(decode_features(&[3, 0, 0, 0]).is_none());
}

#[test]
fn tessellate_pads_to_alignment() {
    let ring: Vec<ShaderVertex> = (0..5u16).map(|i| ShaderVertex { x: i, y: i }).collect();
    let tri: Vec<ShaderVertex> = (0..3u16).map(|i| ShaderVertex { x: i, y: 0 }).collect();
    let (buffer, features) = tessellate(&vec![ring, tri]);
    assert_eq!(buffer.usable_vertices, 8);
    assert_eq!(buffer.vertices.len(), 8);
    assert_eq!(buffer.usable_indices, 12);
    assert_eq!(buffer.indices.len(), 12);
    assert_eq!(buffer.indices, vec![0, 1, 2, 0, 2, 3, 0, 3, 4, 5, 6, 7]);
    assert_eq!(features, vec![0, 0, 0, 1]);

    let (single, _) = tessellate(&vec![(0..5u16).map(|i| ShaderVertex { x: i, y: 1 }).collect()]);
    assert_eq!(single.usable_vertices, 5);
    assert_eq!(single.vertices.len(), 8);
    assert_eq!(single.vertices[5], ShaderVertex { x: 0, y: 0 });
    assert_eq!(single.usable_indices, 9);
    assert_eq!(single.indices.len(), 12);
}

#[test]
fn tessellate_twice_gives_same_lengths() {
    let geometry = decode_features(&[square(), feature(&[(0, 0), (9, 0), (9, 9)])].concat()).unwrap();
    let (a, fa) = tessellate(&geometry);
    let (b, fb) = tessellate(&geometry);
    assert_eq!(a.vertices.len(), b.vertices.len());
    assert_eq!(a.indices.len(), b.indices.len());
    assert_eq!(a.usable_vertices, b.usable_vertices);
    assert_eq!(a.usable_indices, b.usable_indices);
    assert_eq!(a.vertices, b.vertices);
    assert_eq!(fa, fb);
}

#[test]
fn render_tile_overwrites_entry() {
    let mut map = new_map(Renderer::new());
    let c = TileCoords::new(4, 3, 2);
    let a = map.fetch_tile(c, names(&["water"]), Ok(frame("water", &square()))).unwrap();
    let b = StoredTile::failed(c);
    map.render_tile(a).unwrap();
    assert_eq!(map.tile(&c).unwrap().layers.len(), 1);
    map.render_tile(b).unwrap();
    let stored = map.tile(&c).unwrap();
    assert_eq!(stored.status, TileStatus::Failed);
    assert!(stored.layers.is_empty());
    assert_eq!(map.map_context().world.tile_repository.len(), 1);
}

#[test]
fn repository_keeps_one_entry_per_coordinate() {
    let mut repo = TileRepository::new();
    repo.put_tile(StoredTile::pending(TileCoords::new(1, 0, 0)));
    repo.put_tile(StoredTile::pending(TileCoords::new(1, 1, 0)));
    repo.put_tile(StoredTile::success(TileCoords::new(1, 0, 0), Vec::new()));
    assert_eq!(repo.len(), 2);
    assert_eq!(repo.get_tile(&TileCoords::new(1, 0, 0)).unwrap().status, TileStatus::Success);
    assert_eq!(repo.get_tile(&TileCoords::new(1, 1, 0)).unwrap().status, TileStatus::Pending);
    assert!(repo.get_tile(&TileCoords::new(2, 0, 0)).is_none());
}

#[test]
fn clear_on_uninitialized_pool_is_a_no_op() {
    let mut state = Renderer::new().buffer_pool;
    state.clear_if_initialized();
    assert!(!state.is_initialized());
    state.clear_if_initialized();
    assert!(matches!(state, Eventually::Uninitialized));
}

#[test]
fn clear_on_initialized_pool_keeps_allocation() {
    let mut renderer = Renderer::new();
    renderer.initialize_buffer_pool(1024);
    renderer.initialize_buffer_pool(16);
    match &mut renderer.buffer_pool {
        Eventually::Initialized(pool) => {
            assert!(pool.allocate(1000));
            assert!(!pool.allocate(100));
            assert_eq!(pool.get_used(), 1000);
        }
        Eventually::Uninitialized => panic!("pool not set up"),
    }
    renderer.buffer_pool.clear_if_initialized();
    match &renderer.buffer_pool {
        Eventually::Initialized(pool) => {
            assert_eq!(pool.get_capacity(), 1024);
            assert_eq!(pool.get_used(), 0);
        }
        Eventually::Uninitialized => panic!("pool not set up"),
    }
}

#[test]
fn render_tile_clears_initialized_pool() {
    let mut renderer = Renderer::new();
    renderer.initialize_buffer_pool(64);
    if let Eventually::Initialized(pool) = &mut renderer.buffer_pool {
        assert!(pool.allocate(10));
    }
    let mut map = new_map(renderer);
    map.render_tile(StoredTile::pending(TileCoords::new(0, 0, 0))).unwrap();
    match &map.map_context().renderer.buffer_pool {
        Eventually::Initialized(pool) => assert_eq!(pool.get_used(), 0),
        Eventually::Uninitialized => panic!("pool lost"),
    }
}

#[test]
fn schedule_runs_each_stage_once_in_slot_order() {
    let mut schedule = Schedule::new();
    assert!(schedule.add_stage(RenderStageLabel::Cleanup, Stage::Custom(1)));
    assert!(schedule.add_stage(RenderStageLabel::Prepare, Stage::Custom(2)));
    assert!(schedule.add_stage(RenderStageLabel::Cleanup, Stage::Custom(3)));
    assert!(schedule.add_stage(RenderStageLabel::Extract, Stage::Custom(4)));
    assert!(schedule.add_stage(RenderStageLabel::Prepare, Stage::Custom(5)));
    let mut ctx = context();
    schedule.run(&mut ctx).unwrap();
    let expected = vec![
        StageTag::Custom(4),
        StageTag::Custom(2),
        StageTag::Custom(5),
        StageTag::Custom(1),
        StageTag::Custom(3),
    ];
    assert_eq!(ctx.renderer.executed_stages, expected);
    schedule.run(&mut ctx).unwrap();
    assert_eq!(ctx.renderer.executed_stages.len(), 10);
    assert_eq!(ctx.renderer.executed_stages[5..].to_vec(), expected);
    assert!(!schedule.add_stage(RenderStageLabel::Queue, Stage::Custom(6)));
    assert_eq!(schedule.len(), 5);
}

#[test]
fn map_frame_runs_default_stages_and_passes() {
    let mut map = new_map(Renderer::new());
    map.render_tile(StoredTile::pending(TileCoords::new(0, 0, 0))).unwrap();
    let r = &map.map_context().renderer;
    assert_eq!(r.executed_stages, vec![
        StageTag::Extract,
        StageTag::Prepare,
        StageTag::Queue,
        StageTag::PhaseSort,
        StageTag::Graph,
        StageTag::Cleanup,
        StageTag::WriteSurfaceBuffer,
    ]);
    assert_eq!(r.executed_passes, names(&[MAIN_PASS, COPY]));
}

#[test]
fn edge_to_missing_node_fails_at_once() {
    let mut graph = create_default_render_graph();
    let draw = DRAW_GRAPH.to_string();
    let r = graph.add_node_edge(&draw, &MAIN_PASS.to_string(), &"never_added".to_string());
    assert_eq!(r, Err(RenderGraphError::UnknownNode));
    let r = graph.add_node_edge(&"overlay".to_string(), &MAIN_PASS.to_string(), &MAIN_PASS.to_string());
    assert_eq!(r, Err(RenderGraphError::UnknownSubGraph));
}

#[test]
fn map_setup_fails_on_graph_without_main_pass() {
    let mut graph = RenderGraph::new();
    graph.add_sub_graph(SubGraph::new(DRAW_GRAPH.to_string())).unwrap();
    let r = HeadlessMap::with_render_graph(style(), size(), Renderer::new(), graph);
    assert!(matches!(r, Err(RenderGraphError::UnknownNode)));

    let r = HeadlessMap::with_render_graph(style(), size(), Renderer::new(), RenderGraph::new());
    assert!(matches!(r, Err(RenderGraphError::UnknownSubGraph)));

    let mut graph = create_default_render_graph();
    graph.add_node(&DRAW_GRAPH.to_string(), COPY.to_string()).unwrap();
    let r = HeadlessMap::with_render_graph(style(), size(), Renderer::new(), graph);
    assert!(matches!(r, Err(RenderGraphError::DuplicateNode)));
}

#[test]
fn sub_graph_refuses_duplicates() {
    let mut g = SubGraph::new("draw".to_string());
    assert_eq!(g.add_node("a".to_string()), Ok(()));
    assert_eq!(g.add_node("a".to_string()), Err(RenderGraphError::DuplicateNode));
    assert_eq!(g.add_node("b".to_string()), Ok(()));
    assert_eq!(g.add_node_edge(&"a".to_string(), &"b".to_string()), Ok(()));
    assert_eq!(g.add_node_edge(&"a".to_string(), &"b".to_string()), Err(RenderGraphError::DuplicateEdge));
    assert_eq!(g.find_node(&"b".to_string()), Some(1));
}

#[test]
fn order_takes_lowest_ready_pass_first() {
    let mut g = SubGraph::new("draw".to_string());
    for n in ["a", "b", "c"] {
        g.add_node(n.to_string()).unwrap();
    }
    g.add_node_edge(&"c".to_string(), &"a".to_string()).unwrap();
    assert_eq!(g.resolve_order(), Some(vec![1, 2, 0]));
    let mut graph = RenderGraph::new();
    graph.add_sub_graph(g).unwrap();
    assert_eq!(graph.resolve_passes(), Some(names(&["b", "c", "a"])));
}

#[test]
fn cycle_fails_the_frame() {
    let mut g = SubGraph::new("draw".to_string());
    g.add_node("a".to_string()).unwrap();
    g.add_node("b".to_string()).unwrap();
    g.add_node_edge(&"a".to_string(), &"b".to_string()).unwrap();
    g.add_node_edge(&"b".to_string(), &"a".to_string()).unwrap();
    assert_eq!(g.resolve_order(), None);
    let mut graph = RenderGraph::new();
    graph.add_sub_graph(g).unwrap();
    let mut schedule = Schedule::new();
    schedule.add_stage(RenderStageLabel::Render, Stage::Graph(graph));
    schedule.add_stage(RenderStageLabel::Cleanup, Stage::Cleanup);
    let mut ctx = context();
    assert_eq!(schedule.run(&mut ctx), Err(RenderError::CyclicGraph));
    assert_eq!(ctx.renderer.executed_stages, vec![StageTag::Graph]);
    assert!(ctx.renderer.executed_passes.is_empty());
}
