//! Render graph: named sub-graphs of named render passes with ordering edges.
use vstd::prelude::*;

verus! {

/// The sub-graph that draws a frame.
pub const DRAW_GRAPH: &'static str = "draw";

/// The pass that draws the map.
pub const MAIN_PASS: &'static str = "main_pass";

/// The pass that copies the drawn frame out of the surface.
pub const COPY: &'static str = "copy";

/// Why a change to the render graph was refused.
#[derive(Clone, Copy, Debug, PartialEq, Eq, Structural)]
pub enum RenderGraphError {
    UnknownSubGraph,
    UnknownNode,
    DuplicateNode,
    DuplicateEdge,
}

/// Whether node `n` can run once the nodes in `done` have: it has not run
/// and each of its predecessors has.
pub open spec fn ready(edges: Seq<(usize, usize)>, done: Seq<usize>, n: usize) -> bool {
    &&& !done.contains(n)
    &&& forall|e: int| 0 <= e < edges.len() && (#[trigger] edges[e]).1 == n ==> done.contains(edges[e].0)
}

/// The lowest node at or above `from` that is ready.
pub open spec fn first_ready(edges: Seq<(usize, usize)>, done: Seq<usize>, count: usize, from: usize) -> Option<usize>
    decreases count - from,
{
    if from >= count {
        None
    } else if ready(edges, done, from) {
        Some(from)
    } else {
        first_ready(edges, done, count, (from + 1) as usize)
    }
}

/// Runs up to `fuel` more nodes after `done`, each time the lowest ready one.
pub open spec fn order_from(edges: Seq<(usize, usize)>, done: Seq<usize>, count: usize, fuel: nat) -> Seq<usize>
    decreases fuel,
{
    if fuel == 0 {
        done
    } else {
        match first_ready(edges, done, count, 0) {
            None => done,
            Some(n) => order_from(edges, done.push(n), count, (fuel - 1) as nat),
        }
    }
}

/// One sub-graph: its passes in insertion order and its edges, as pairs of
/// positions (predecessor, successor).
#[derive(Clone, Debug)]
pub struct SubGraph {
    name: String,
    nodes: Vec<String>,
    edges: Vec<(usize, usize)>,
}

pub open spec fn names_of(s: Seq<String>) -> Seq<Seq<char>> {
    s.map_values(|n: String| n@)
}

impl SubGraph {
    pub closed spec fn name(&self) -> Seq<char> {
        self.name@
    }

    /// The node names, in insertion order.
    pub closed spec fn nodes(&self) -> Seq<Seq<char>> {
        names_of(self.nodes@)
    }

    pub closed spec fn edges(&self) -> Seq<(usize, usize)> {
        self.edges@
    }

    pub open spec fn wf(&self) -> bool {
        &&& self.nodes().len() <= usize::MAX
        &&& forall|i: int, j: int|
            0 <= i < self.nodes().len() && 0 <= j < self.nodes().len() && i != j
                ==> self.nodes()[i] != self.nodes()[j]
        &&& forall|e: int|
            0 <= e < self.edges().len() ==> (#[trigger] self.edges()[e]).0 < self.nodes().len()
                && self.edges()[e].1 < self.nodes().len()
    }

    /// The order in which the passes run: each time the lowest-positioned
    /// pass whose predecessors have all run.
    pub open spec fn execution_order(&self) -> Seq<usize> {
        order_from(self.edges(), seq![], self.nodes().len() as usize, self.nodes().len())
    }

    pub fn new(name: String) -> (r: SubGraph)
        ensures
            r.wf(),
            r.name() == name@,
            r.nodes().len() == 0,
            r.edges().len() == 0,
    {
        SubGraph { name, nodes: Vec::new(), edges: Vec::new() }
    }

    pub fn get_name(&self) -> (r: &String)
        ensures
            r@ == self.name(),
    {
        &self.name
    }

    /// The position of the node called `name`.
    pub fn find_node(&self, name: &String) -> (r: Option<usize>)
        requires
            self.wf(),
        ensures
            match r {
                Some(i) => i < self.nodes().len() && self.nodes()[i as int] == name@,
                None => forall|i: int| 0 <= i < self.nodes().len() ==> self.nodes()[i] != name@,
            },
    {
        let mut i: usize = 0;
        while i < self.nodes.len()
            invariant
                i <= self.nodes@.len(),
                forall|j: int| 0 <= j < i ==> self.nodes()[j] != name@,
            decreases self.nodes@.len() - i,
        {
            if self.nodes[i] == *name {
                return Some(i);
            }
            i = i + 1;
        }
        None
    }

    /// Adds a pass; refused where one of that name is there already.
    pub fn add_node(&mut self, name: String) -> (r: Result<(), RenderGraphError>)
        requires
            old(self).wf(),
        ensures
            final(self).wf(),
            r is Err ==> *final(self) == *old(self),
            final(self).name() == old(self).name(),
            final(self).edges() == old(self).edges(),
            old(self).nodes().contains(name@) ==> r == Err::<(), RenderGraphError>(
                RenderGraphError::DuplicateNode,
            ) && final(self).nodes() == old(self).nodes(),
            !old(self).nodes().contains(name@) ==> r is Ok && final(self).nodes() == old(
                self,
            ).nodes().push(name@),
    {
        let ghost old_edges = self.edges();
        assert(forall|e: int| 0 <= e < old_edges.len() ==> old_edges[e].0 < self.nodes().len() && old_edges[e].1 < self.nodes().len());
        match self.find_node(&name) {
            Some(i) => {
                assert(self.nodes()[i as int] == name@);
                Err(RenderGraphError::DuplicateNode)
            },
            None => {
                let ghost before = self.nodes@;
                self.nodes.push(name);
                let _ = self.nodes.len();
                assert(names_of(self.nodes@) =~= names_of(before).push(name@));
                let ghost old_names = names_of(before);
                assert forall|i: int, j: int|
                    0 <= i < self.nodes().len() && 0 <= j < self.nodes().len() && i != j
                        implies self.nodes()[i] != self.nodes()[j] by {
                    if i == old_names.len() {
                        assert(old_names[j] == self.nodes()[j]);
                    } else if j == old_names.len() {
                        assert(old_names[i] == self.nodes()[i]);
                    }
                }
                assert forall|e: int| 0 <= e < self.edges().len() implies (
                #[trigger] self.edges()[e]).0 < self.nodes().len() && self.edges()[e].1
                    < self.nodes().len() by {
                    assert(self.edges()[e] == old_edges[e]);
                }
                Ok(())
            },
        }
    }

    #[verifier::loop_isolation(false)]
    /// Adds an edge: `from` runs fully before `to` begins. Refused at once
    /// where either pass is not in this sub-graph, or the edge is there already.
    pub fn add_node_edge(&mut self, from: &String, to: &String) -> (r: Result<(), RenderGraphError>)
        requires
            old(self).wf(),
        ensures
            final(self).wf(),
            r is Err ==> *final(self) == *old(self),
            final(self).name() == old(self).name(),
            final(self).nodes() == old(self).nodes(),
            !old(self).nodes().contains(from@) || !old(self).nodes().contains(to@) ==> r == Err::<
                (),
                RenderGraphError,
            >(RenderGraphError::UnknownNode) && final(self).edges() == old(self).edges(),
            old(self).nodes().contains(from@) && old(self).nodes().contains(to@) ==> {
                let e = (
                    old(self).nodes().index_of(from@) as usize,
                    old(self).nodes().index_of(to@) as usize,
                );
                &&& old(self).edges().contains(e) ==> r == Err::<(), RenderGraphError>(
                    RenderGraphError::DuplicateEdge,
                ) && final(self).edges() == old(self).edges()
                &&& !old(self).edges().contains(e) ==> r is Ok && final(self).edges() == old(
                    self,
                ).edges().push(e)
            },
    {
        let ghost old_edges = self.edges();
        assert(forall|e: int| 0 <= e < old_edges.len() ==> old_edges[e].0 < self.nodes().len() && old_edges[e].1 < self.nodes().len());
        let a = match self.find_node(from) {
            Some(a) => a,
            None => {
                return Err(RenderGraphError::UnknownNode);
            },
        };
        let b = match self.find_node(to) {
            Some(b) => b,
            None => {
                return Err(RenderGraphError::UnknownNode);
            },
        };
        proof {
            assert(self.nodes().contains(from@));
            assert(self.nodes().contains(to@));
            assert(self.nodes().index_of(from@) == a as int);
            assert(self.nodes().index_of(to@) == b as int);
        }
        let mut k: usize = 0;
        while k < self.edges.len()
            invariant
                k <= self.edges@.len(),
                forall|q: int| 0 <= q < k ==> self.edges@[q] != (a, b),
            decreases self.edges@.len() - k,
        {
            if self.edges[k].0 == a && self.edges[k].1 == b {
                assert(self.edges@[k as int] == (a, b));
                return Err(RenderGraphError::DuplicateEdge);
            }
            k = k + 1;
        }
        let ghost before = self.edges@;
        self.edges.push((a, b));
        assert forall|e: int| 0 <= e < self.edges().len() implies (
        #[trigger] self.edges()[e]).0 < self.nodes().len() && self.edges()[e].1
            < self.nodes().len() by {
            if e < before.len() {
                assert(self.edges()[e] == old_edges[e]);
            }
        }
        Ok(())
    }

    /// Whether `n` is ready once the nodes in `done` have run.
    fn is_ready(&self, done: &Vec<usize>, n: usize) -> (r: bool)
        ensures
            r == ready(self.edges(), done@, n),
    {
        let mut d: usize = 0;
        while d < done.len()
            invariant
                d <= done@.len(),
                forall|q: int| 0 <= q < d ==> done@[q] != n,
            decreases done@.len() - d,
        {
            if done[d] == n {
                assert(done@[d as int] == n);
                return false;
            }
            d = d + 1;
        }
        let mut e: usize = 0;
        while e < self.edges.len()
            invariant
                !done@.contains(n),
                e <= self.edges@.len(),
                forall|q: int| 0 <= q < e && (#[trigger] self.edges@[q]).1 == n ==> done@.contains(self.edges@[q].0),
            decreases self.edges@.len() - e,
        {
            let (p, s) = self.edges[e];
            if s == n {
                let mut d: usize = 0;
                let mut seen = false;
                while d < done.len()
                    invariant
                        d <= done@.len(),
                        seen == (exists|q: int| 0 <= q < d && done@[q] == p),
                    decreases done@.len() - d,
                {
                    if done[d] == p {
                        seen = true;
                    }
                    d = d + 1;
                }
                if !seen {
                    assert(!done@.contains(p));
                    return false;
                }
            }
            e = e + 1;
        }
        true
    }

    #[verifier::loop_isolation(false)]
    /// The order in which the passes run, or `None` where the edges form a
    /// cycle and some pass can never run.
    pub fn resolve_order(&self) -> (r: Option<Vec<usize>>)
        ensures
            match r {
                Some(order) => order@ == self.execution_order()
                    && self.execution_order().len() == self.nodes().len(),
                None => self.execution_order().len() != self.nodes().len(),
            },
    {
        let count = self.nodes.len();
        let ghost edges = self.edges();
        let mut done: Vec<usize> = Vec::new();
        let mut round: usize = 0;
        while round < count
            invariant
                count == self.nodes().len(),
                edges == self.edges(),
                round <= count,
                done@.len() == round,
                self.execution_order() == order_from(edges, done@, count, (count - round) as nat),
            decreases count - round,
        {
            let mut n: usize = 0;
            let mut pick: Option<usize> = None;
            while n < count
                invariant
                    n <= count,
                    pick is Some ==> n == count,
                    match pick {
                        Some(m) => first_ready(edges, done@, count, 0) == Some(m),
                        None => first_ready(edges, done@, count, 0) == first_ready(edges, done@, count, n),
                    },
                decreases count - n,
            {
                if self.is_ready(&done, n) {
                    pick = Some(n);
                    n = count;
                } else {
                    n = n + 1;
                }
            }
            match pick {
                None => {
                    assert(order_from(edges, done@, count, (count - round) as nat) == done@);
                    return None;
                },
                Some(m) => {
                    done.push(m);
                },
            }
            round = round + 1;
        }
        Some(done)
    }
}

/// The passes of one sub-graph in the order they run.
pub open spec fn pass_names(g: SubGraph) -> Seq<Seq<char>> {
    g.execution_order().map_values(|i: usize| g.nodes()[i as int])
}

/// Whether every pass of `g` gets to run.
pub open spec fn acyclic(g: SubGraph) -> bool {
    g.execution_order().len() == g.nodes().len()
}

/// The passes of all sub-graphs, one sub-graph after the other; `None` where
/// one of them has a cycle.
pub open spec fn graph_passes(gs: Seq<SubGraph>) -> Option<Seq<Seq<char>>>
    decreases gs.len(),
{
    if gs.len() == 0 {
        Some(seq![])
    } else {
        match graph_passes(gs.drop_last()) {
            None => None,
            Some(p) => if acyclic(gs.last()) {
                Some(p + pass_names(gs.last()))
            } else {
                None
            },
        }
    }
}

/// A set of named sub-graphs.
#[derive(Clone, Debug)]
pub struct RenderGraph {
    sub_graphs: Vec<SubGraph>,
}

impl RenderGraph {
    pub closed spec fn sub_graphs(&self) -> Seq<SubGraph> {
        self.sub_graphs@
    }

    pub open spec fn wf(&self) -> bool {
        &&& forall|i: int| 0 <= i < self.sub_graphs().len() ==> (#[trigger] self.sub_graphs()[i]).wf()
        &&& forall|i: int, j: int|
            0 <= i < self.sub_graphs().len() && 0 <= j < self.sub_graphs().len() && i != j
                ==> self.sub_graphs()[i].name() != self.sub_graphs()[j].name()
    }

    pub fn new() -> (r: RenderGraph)
        ensures
            r.wf(),
            r.sub_graphs().len() == 0,
    {
        RenderGraph { sub_graphs: Vec::new() }
    }

    /// The position of the sub-graph called `name`.
    pub fn find_sub_graph(&self, name: &String) -> (r: Option<usize>)
        ensures
            match r {
                Some(i) => i < self.sub_graphs().len() && self.sub_graphs()[i as int].name() == name@,
                None => forall|i: int|
                    0 <= i < self.sub_graphs().len() ==> self.sub_graphs()[i].name() != name@,
            },
    {
        let mut i: usize = 0;
        while i < self.sub_graphs.len()
            invariant
                i <= self.sub_graphs@.len(),
                forall|j: int| 0 <= j < i ==> self.sub_graphs()[j].name() != name@,
            decreases self.sub_graphs@.len() - i,
        {
            if self.sub_graphs[i].name == *name {
                return Some(i);
            }
            i = i + 1;
        }
        None
    }

    /// Adds a sub-graph; refused where one of that name is there already.
    pub fn add_sub_graph(&mut self, g: SubGraph) -> (r: Result<(), RenderGraphError>)
        requires
            old(self).wf(),
            g.wf(),
        ensures
            final(self).wf(),
            (exists|i: int| 0 <= i < old(self).sub_graphs().len() && old(self).sub_graphs()[i].name() == g.name())
                ==> r == Err::<(), RenderGraphError>(RenderGraphError::DuplicateNode)
                && final(self).sub_graphs() == old(self).sub_graphs(),
            !(exists|i: int| 0 <= i < old(self).sub_graphs().len() && old(self).sub_graphs()[i].name() == g.name())
                ==> r is Ok && final(self).sub_graphs() == old(self).sub_graphs().push(g),
    {
        match self.find_sub_graph(g.get_name()) {
            Some(_) => Err(RenderGraphError::DuplicateNode),
            None => {
                let ghost before = self.sub_graphs@;
                self.sub_graphs.push(g);
                assert forall|i: int| 0 <= i < self.sub_graphs().len() implies (#[trigger] self.sub_graphs()[i]).wf() by {
                    if i < before.len() {
                        assert(self.sub_graphs()[i] == before[i]);
                    }
                }
                Ok(())
            },
        }
    }

    /// Adds a pass to the named sub-graph.
    pub fn add_node(&mut self, sub_graph: &String, name: String) -> (r: Result<(), RenderGraphError>)
        requires
            old(self).wf(),
        ensures
            final(self).wf(),
            final(self).sub_graphs().len() == old(self).sub_graphs().len(),
            match r {
                Ok(()) => exists|i: int|
                    0 <= i < old(self).sub_graphs().len() && old(self).sub_graphs()[i].name() == sub_graph@
                        && !old(self).sub_graphs()[i].nodes().contains(name@)
                        && final(self).sub_graphs() == old(self).sub_graphs().update(i, final(self).sub_graphs()[i])
                        && final(self).sub_graphs()[i].name() == sub_graph@
                        && final(self).sub_graphs()[i].nodes() == old(self).sub_graphs()[i].nodes().push(name@)
                        && final(self).sub_graphs()[i].edges() == old(self).sub_graphs()[i].edges(),
                Err(e) => final(self).sub_graphs() == old(self).sub_graphs() && (
                    e == RenderGraphError::UnknownSubGraph <==> forall|i: int|
                        0 <= i < old(self).sub_graphs().len() ==> old(self).sub_graphs()[i].name() != sub_graph@),
            },
            r matches Err(e) ==> e == RenderGraphError::UnknownSubGraph || e == RenderGraphError::DuplicateNode,
            forall|i: int|
                0 <= i < old(self).sub_graphs().len() && old(self).sub_graphs()[i].name() == sub_graph@
                    ==> (old(self).sub_graphs()[i].nodes().contains(name@) <==> r == Err::<
                    (),
                    RenderGraphError,
                >(RenderGraphError::DuplicateNode)),
    {
        let i = match self.find_sub_graph(sub_graph) {
            Some(i) => i,
            None => {
                return Err(RenderGraphError::UnknownSubGraph);
            },
        };
        let ghost before = self.sub_graphs@;
        let mut g = self.sub_graphs.remove(i);
        assert(g == before[i as int]);
        assert(forall|j: int| 0 <= j < before.len() && before[j].name() == sub_graph@ ==> j == i);
        let r = g.add_node(name);
        match r {
            Ok(()) => {
                self.sub_graphs.insert(i, g);
                proof {
                    assert(self.sub_graphs@ =~= before.update(i as int, g));
                    assert forall|j: int| 0 <= j < self.sub_graphs().len() implies (#[trigger] self.sub_graphs()[j]).wf() by {
                        if j != i {
                            assert(self.sub_graphs()[j] == before[j]);
                        }
                    }
                    assert forall|j: int, k: int|
                        0 <= j < self.sub_graphs().len() && 0 <= k < self.sub_graphs().len() && j != k
                            implies self.sub_graphs()[j].name() != self.sub_graphs()[k].name() by {
                        assert(before[j].name() != before[k].name());
                    }
                }
                Ok(())
            },
            Err(e) => {
                self.sub_graphs.insert(i, g);
                assert(self.sub_graphs@ =~= before);
                Err(e)
            },
        }
    }

    /// Adds an edge to the named sub-graph; refused at once where the
    /// sub-graph or either pass is missing, or the edge is there already.
    pub fn add_node_edge(&mut self, sub_graph: &String, from: &String, to: &String) -> (r: Result<(), RenderGraphError>)
        requires
            old(self).wf(),
        ensures
            final(self).wf(),
            final(self).sub_graphs().len() == old(self).sub_graphs().len(),
            match r {
                Ok(()) => exists|i: int|
                    0 <= i < old(self).sub_graphs().len() && old(self).sub_graphs()[i].name() == sub_graph@
                        && old(self).sub_graphs()[i].nodes().contains(from@)
                        && old(self).sub_graphs()[i].nodes().contains(to@)
                        && final(self).sub_graphs() == old(self).sub_graphs().update(i, final(self).sub_graphs()[i])
                        && final(self).sub_graphs()[i].name() == sub_graph@
                        && final(self).sub_graphs()[i].nodes() == old(self).sub_graphs()[i].nodes()
                        && final(self).sub_graphs()[i].edges() == old(self).sub_graphs()[i].edges().push(
                            (
                                old(self).sub_graphs()[i].nodes().index_of(from@) as usize,
                                old(self).sub_graphs()[i].nodes().index_of(to@) as usize,
                            ),
                        ),
                Err(e) => final(self).sub_graphs() == old(self).sub_graphs() && (
                    e == RenderGraphError::UnknownSubGraph <==> forall|i: int|
                        0 <= i < old(self).sub_graphs().len() ==> old(self).sub_graphs()[i].name() != sub_graph@),
            },
            forall|i: int|
                0 <= i < old(self).sub_graphs().len() && old(self).sub_graphs()[i].name() == sub_graph@ && (
                !old(self).sub_graphs()[i].nodes().contains(from@)
                    || !old(self).sub_graphs()[i].nodes().contains(to@))
                    ==> r == Err::<(), RenderGraphError>(RenderGraphError::UnknownNode),
            forall|i: int|
                0 <= i < old(self).sub_graphs().len() && old(self).sub_graphs()[i].name() == sub_graph@
                    && old(self).sub_graphs()[i].nodes().contains(from@)
                    && old(self).sub_graphs()[i].nodes().contains(to@) && !old(self).sub_graphs()[i].edges().contains(
                    (
                        old(self).sub_graphs()[i].nodes().index_of(from@) as usize,
                        old(self).sub_graphs()[i].nodes().index_of(to@) as usize,
                    ),
                ) ==> r is Ok,
    {
        let i = match self.find_sub_graph(sub_graph) {
            Some(i) => i,
            None => {
                return Err(RenderGraphError::UnknownSubGraph);
            },
        };
        let ghost before = self.sub_graphs@;
        let mut g = self.sub_graphs.remove(i);
        assert(g == before[i as int]);
        assert(forall|j: int| 0 <= j < before.len() && before[j].name() == sub_graph@ ==> j == i);
        let r = g.add_node_edge(from, to);
        self.sub_graphs.insert(i, g);
        proof {
            assert(self.sub_graphs@ =~= before.update(i as int, g));
            assert forall|j: int| 0 <= j < self.sub_graphs().len() implies (#[trigger] self.sub_graphs()[j]).wf() by {
                if j != i {
                    assert(self.sub_graphs()[j] == before[j]);
                }
            }
            assert forall|j: int, k: int|
                0 <= j < self.sub_graphs().len() && 0 <= k < self.sub_graphs().len() && j != k
                    implies self.sub_graphs()[j].name() != self.sub_graphs()[k].name() by {
                assert(before[j].name() != before[k].name());
            }
            if r is Err {
                assert(self.sub_graphs@ =~= before);
            }
        }
        r
    }

    /// The passes of every sub-graph in the order they run, or `None` where
    /// a sub-graph has a cycle.
    pub fn resolve_passes(&self) -> (r: Option<Vec<String>>)
        ensures
            match r {
                Some(v) => graph_passes(self.sub_graphs()) == Some(names_of(v@)),
                None => graph_passes(self.sub_graphs()) is None,
            },
    {
        let mut out: Vec<String> = Vec::new();
        let mut i: usize = 0;
        let ghost gs = self.sub_graphs();
        assert(gs.take(0) =~= Seq::<SubGraph>::empty());
        assert(names_of(out@) =~= Seq::<Seq<char>>::empty());
        while i < self.sub_graphs.len()
            invariant
                gs == self.sub_graphs(),
                i <= gs.len(),
                graph_passes(gs.take(i as int)) == Some(names_of(out@)),
            decreases gs.len() - i,
        {
            let g = &self.sub_graphs[i];
            assert(gs.take(i + 1).drop_last() =~= gs.take(i as int));
            assert(gs.take(i + 1).last() == *g);
            let order = match g.resolve_order() {
                Some(o) => o,
                None => {
                    proof {
                        lemma_graph_passes_none_extends(gs, i as int + 1);
                    }
                    return None;
                },
            };
            let ghost base = names_of(out@);
            let mut k: usize = 0;
            while k < order.len()
                invariant
                    k <= order@.len(),
                    order@ == g.execution_order(),
                    g.execution_order().len() == g.nodes().len(),
                    names_of(out@) == base + pass_names(*g).take(k as int),
                decreases order@.len() - k,
            {
                let n = order[k];
                proof {
                    lemma_order_in_range(g.edges(), seq![], g.nodes().len() as usize, g.nodes().len());
                }
                assert(n < g.nodes@.len());
                let name = g.nodes[n].clone();
                let ghost pre = out@;
                out.push(name);
                k = k + 1;
                assert(pass_names(*g)[k - 1] == g.nodes()[n as int]);
                assert(names_of(out@) =~= names_of(pre).push(name@));
                assert(names_of(out@) =~= base + pass_names(*g).take(k as int));
            }
            assert(pass_names(*g).take(k as int) =~= pass_names(*g));
            i = i + 1;
        }
        assert(gs.take(i as int) =~= gs);
        Some(out)
    }
}

/// The graph that every map starts from: a draw sub-graph holding the main
/// pass.
pub fn create_default_render_graph() -> (r: RenderGraph)
    ensures
        r.wf(),
        r.sub_graphs().len() == 1,
        r.sub_graphs()[0].name() == DRAW_GRAPH@,
        r.sub_graphs()[0].nodes() == seq![MAIN_PASS@],
        r.sub_graphs()[0].edges().len() == 0,
{
    let mut draw = SubGraph::new(DRAW_GRAPH.to_owned());
    let added = draw.add_node(MAIN_PASS.to_owned());
    assert(draw.nodes() =~= seq![MAIN_PASS@]);
    let mut graph = RenderGraph::new();
    let _ = graph.add_sub_graph(draw);
    assert(graph.sub_graphs() =~= seq![draw]);
    graph
}

/// Each node in `done` comes after all of its predecessors.
pub open spec fn respects_edges(edges: Seq<(usize, usize)>, done: Seq<usize>) -> bool {
    forall|k: int, e: int|
        0 <= k < done.len() && 0 <= e < edges.len() && #[trigger] edges[e].1 == #[trigger] done[k]
            ==> exists|j: int| 0 <= j < k && done[j] == edges[e].0
}

/// No node occurs twice in `done`.
pub open spec fn no_repeats(done: Seq<usize>) -> bool {
    forall|i: int, j: int| 0 <= i < j < done.len() ==> done[i] != done[j]
}

proof fn lemma_first_ready_is_ready(edges: Seq<(usize, usize)>, done: Seq<usize>, count: usize, from: usize)
    ensures
        first_ready(edges, done, count, from) matches Some(n) ==> ready(edges, done, n),
    decreases count - from,
{
    if from < count && !ready(edges, done, from) {
        lemma_first_ready_is_ready(edges, done, count, (from + 1) as usize);
    }
}

proof fn lemma_order_from_respects_edges(edges: Seq<(usize, usize)>, done: Seq<usize>, count: usize, fuel: nat)
    requires
        respects_edges(edges, done),
        no_repeats(done),
    ensures
        respects_edges(edges, order_from(edges, done, count, fuel)),
        no_repeats(order_from(edges, done, count, fuel)),
    decreases fuel,
{
    if fuel > 0 {
        if let Some(n) = first_ready(edges, done, count, 0) {
            lemma_first_ready_is_ready(edges, done, count, 0);
            let d2 = done.push(n);
            assert forall|k: int, e: int|
                0 <= k < d2.len() && 0 <= e < edges.len() && #[trigger] edges[e].1 == #[trigger] d2[k]
                    implies exists|j: int| 0 <= j < k && d2[j] == edges[e].0 by {
                if k < done.len() {
                    assert(d2[k] == done[k]);
                    let j = choose|j: int| 0 <= j < k && done[j] == edges[e].0;
                    assert(d2[j] == done[j]);
                } else {
                    assert(done.contains(edges[e].0));
                    let j = choose|j: int| 0 <= j < done.len() && done[j] == edges[e].0;
                    assert(d2[j] == done[j]);
                }
            }
            assert forall|i: int, j: int| 0 <= i < j < d2.len() implies d2[i] != d2[j] by {
                if j == done.len() {
                    assert(d2[i] == done[i]);
                } else {
                    assert(d2[i] == done[i] && d2[j] == done[j]);
                }
            }
            lemma_order_from_respects_edges(edges, d2, count, (fuel - 1) as nat);
        }
    }
}

/// In the order in which a sub-graph's passes run, no pass runs twice, and
/// every pass comes after each of its predecessors: an edge's first pass
/// runs fully before its second begins.
pub proof fn lemma_execution_order_respects_edges(g: SubGraph)
    ensures
        no_repeats(g.execution_order()),
        respects_edges(g.edges(), g.execution_order()),
{
    lemma_order_from_respects_edges(g.edges(), seq![], g.nodes().len() as usize, g.nodes().len());
}

/// Once a prefix of the sub-graphs has a cycle, so does every longer prefix.
proof fn lemma_graph_passes_none_extends(gs: Seq<SubGraph>, n: int)
    requires
        0 <= n <= gs.len(),
        graph_passes(gs.take(n)) is None,
    ensures
        graph_passes(gs) is None,
    decreases gs.len() - n,
{
    if n < gs.len() {
        assert(gs.take(n + 1).drop_last() =~= gs.take(n));
        lemma_graph_passes_none_extends(gs, n + 1);
    } else {
        assert(gs.take(n) =~= gs);
    }
}

/// Every node that `order_from` adds is below `count`.
proof fn lemma_order_in_range(edges: Seq<(usize, usize)>, done: Seq<usize>, count: usize, fuel: nat)
    requires
        forall|i: int| 0 <= i < done.len() ==> done[i] < count,
    ensures
        forall|i: int| 0 <= i < order_from(edges, done, count, fuel).len() ==> #[trigger] order_from(edges, done, count, fuel)[i] < count,
    decreases fuel,
{
    if fuel == 0 {
        assert(order_from(edges, done, count, fuel) == done);
    } else {
        match first_ready(edges, done, count, 0) {
            None => {
                assert(order_from(edges, done, count, fuel) == done);
            },
            Some(n) => {
                lemma_first_ready_in_range(edges, done, count, 0);
                assert(forall|i: int| 0 <= i < done.push(n).len() ==> done.push(n)[i] < count);
                lemma_order_in_range(edges, done.push(n), count, (fuel - 1) as nat);
                assert(order_from(edges, done, count, fuel) == order_from(edges, done.push(n), count, (fuel - 1) as nat));
            },
        }
    }
}

proof fn lemma_first_ready_in_range(edges: Seq<(usize, usize)>, done: Seq<usize>, count: usize, from: usize)
    ensures
        first_ready(edges, done, count, from) matches Some(n) ==> from <= n < count,
    decreases count - from,
{
    if from < count && !ready(edges, done, from) {
        lemma_first_ready_in_range(edges, done, count, (from + 1) as usize);
    }
}

} // verus!
