//! The plugin: what lighting adds to a frame, and in which order it runs.

use vstd::prelude::*;
use crate::render::frame_graph::{
    first_missing,
    is_linear_order,
    lemma_first_missing,
    lemma_with_chain,
    lemma_runs_before_transitive,
    links,
    runs_before,
    with_chain,
    Edge,
    FrameGraph,
    FrameGraphError,
    FrameNode,
};
use crate::render::light_map::{LightMapNode, LightMapPass, LightMapPipeline};
use crate::render::lighting::{LightingNode, LightingPass, LightingPipeline};
use crate::render::render_resource::{
    BindingResource,
    CachedRenderPipelineId,
    DeviceLimits,
    RenderPass,
};
use crate::render::sdf::{SdfNode, SdfPass, SdfPipeline};
use crate::render::world::RenderWorld;

verus! {

/// A plugin that provides 2d lighting for an app.
#[derive(Default, Debug, Clone, Copy)]
pub struct Light2dPlugin;

/// The steps of a frame, in the order in which they are taken.
#[derive(Clone, Copy, Debug, PartialEq, Eq, Hash, Structural)]
pub enum RenderSet {
    /// The scene is snapshot.
    Extract,
    /// The views' textures are set up.
    ManageViews,
    /// The frame's buffers are written.
    Prepare,
    /// The passes run.
    Render,
}

/// What the plugin does in the course of a frame.
#[derive(Clone, Copy, Debug, PartialEq, Eq, Hash, Structural)]
pub enum System {
    ExtractPointLights,
    ExtractLightOccluders,
    ExtractAmbientLights,
    PrepareLightingPipelines,
    PrepareAmbientLights,
    PreparePointLights,
    PrepareLightOccluders,
    PreparePointLightCount,
    PrepareOccluderMeta,
    PrepareEmptyBuffer,
    PrepareSdfTexture,
    PrepareLightMapTexture,
    SdfNode,
    LightMapNode,
    LightingNode,
}

/// The pipelines of the three passes.
#[derive(Debug, PartialEq, Eq, Clone)]
pub struct Pipelines {
    pub lighting: LightingPipeline,
    pub sdf: SdfPipeline,
    pub light_map: LightMapPipeline,
}

impl RenderSet {
    /// The place of the step within a frame.
    pub open spec fn position(self) -> nat {
        match self {
            RenderSet::Extract => 0,
            RenderSet::ManageViews => 1,
            RenderSet::Prepare => 2,
            RenderSet::Render => 3,
        }
    }
}

impl System {
    /// The step of the frame in which the system runs.
    pub open spec fn set_spec(self) -> RenderSet {
        match self {
            System::ExtractPointLights => RenderSet::Extract,
            System::ExtractLightOccluders => RenderSet::Extract,
            System::ExtractAmbientLights => RenderSet::Extract,
            System::PrepareLightingPipelines => RenderSet::Prepare,
            System::PrepareAmbientLights => RenderSet::Prepare,
            System::PreparePointLights => RenderSet::Prepare,
            System::PrepareLightOccluders => RenderSet::Prepare,
            System::PreparePointLightCount => RenderSet::Prepare,
            System::PrepareOccluderMeta => RenderSet::Prepare,
            System::PrepareEmptyBuffer => RenderSet::Prepare,
            System::PrepareSdfTexture => RenderSet::ManageViews,
            System::PrepareLightMapTexture => RenderSet::ManageViews,
            System::SdfNode => RenderSet::Render,
            System::LightMapNode => RenderSet::Render,
            System::LightingNode => RenderSet::Render,
        }
    }

    /// Whether the system reads the scene.
    pub open spec fn extracts(self) -> bool {
        self.set_spec() == RenderSet::Extract
    }

    /// Whether the system is one of the passes.
    pub open spec fn renders(self) -> bool {
        self.set_spec() == RenderSet::Render
    }

    /// The step of the frame in which the system runs.
    #[verifier::when_used_as_spec(set_spec)]
    pub fn set(self) -> (set: RenderSet)
        ensures
            set == self.set_spec(),
    {
        match self {
            System::ExtractPointLights | System::ExtractLightOccluders
            | System::ExtractAmbientLights => RenderSet::Extract,
            System::PrepareLightingPipelines | System::PrepareAmbientLights
            | System::PreparePointLights | System::PrepareLightOccluders
            | System::PreparePointLightCount | System::PrepareOccluderMeta
            | System::PrepareEmptyBuffer => RenderSet::Prepare,
            System::PrepareSdfTexture | System::PrepareLightMapTexture => RenderSet::ManageViews,
            System::SdfNode | System::LightMapNode | System::LightingNode => RenderSet::Render,
        }
    }
}

/// The graph with `node` added, unless it has the node already.
pub open spec fn with_node(nodes: Seq<FrameNode>, node: FrameNode) -> Seq<FrameNode> {
    if nodes.contains(node) {
        nodes
    } else {
        nodes.push(node)
    }
}

impl Light2dPlugin {
    /// The passes between the nodes of the host's graph that they run
    /// between: after the scene's main pass comes the distance field, then
    /// the light map, then compositing, and only then post-processing.
    pub open spec fn pass_order() -> Seq<FrameNode> {
        seq![
            FrameNode::EndMainPass,
            FrameNode::SdfPass,
            FrameNode::LightMapPass,
            FrameNode::LightingPass,
            FrameNode::Bloom,
        ]
    }

    /// Adds the three passes to the host's graph and ties them into it. The
    /// host's graph has to have the end of the main pass and the bloom node
    /// already: where one of them is missing, it is returned, and only the
    /// nodes are added.
    pub fn build(&self, graph: &mut FrameGraph) -> (result: Result<(), FrameGraphError>)
        requires
            old(graph).well_formed(),
        ensures
            final(graph).well_formed(),
            final(graph).nodes() == with_node(
                with_node(with_node(old(graph).nodes(), FrameNode::LightingPass), FrameNode::SdfPass),
                FrameNode::LightMapPass,
            ),
            result == if !old(graph).nodes().contains(FrameNode::EndMainPass) {
                Err::<(), FrameGraphError>(FrameGraphError::InvalidNode(FrameNode::EndMainPass))
            } else if !old(graph).nodes().contains(FrameNode::Bloom) {
                Err(FrameGraphError::InvalidNode(FrameNode::Bloom))
            } else {
                Ok(())
            },
            final(graph).edges() == if result.is_ok() {
                with_chain(old(graph).edges(), Self::pass_order())
            } else {
                old(graph).edges()
            },
    {
        graph.add_node(LightingPass.node());
        graph.add_node(SdfPass.node());
        graph.add_node(LightMapPass.node());
        let mut chain: Vec<FrameNode> = Vec::new();
        chain.push(FrameNode::EndMainPass);
        chain.push(SdfPass.node());
        chain.push(LightMapPass.node());
        chain.push(LightingPass.node());
        chain.push(FrameNode::Bloom);
        assert(chain@ =~= Self::pass_order());
        proof {
            let first = with_node(old(graph).nodes(), FrameNode::LightingPass);
            let second = with_node(first, FrameNode::SdfPass);
            let third = with_node(second, FrameNode::LightMapPass);
            assert(graph.nodes() == third);
            lemma_with_node(old(graph).nodes(), FrameNode::LightingPass);
            lemma_with_node(first, FrameNode::SdfPass);
            lemma_with_node(second, FrameNode::LightMapPass);
            assert(third.contains(chain@[1]));
            assert(third.contains(chain@[2]));
            assert(third.contains(chain@[3]));
            assert(third.contains(chain@[0]) <==> old(graph).nodes().contains(
                FrameNode::EndMainPass,
            ));
            assert(third.contains(chain@[4]) <==> old(graph).nodes().contains(FrameNode::Bloom));
        }
        let ghost nodes = graph.nodes();
        proof {
            lemma_first_missing(nodes, chain@);
            reveal_with_fuel(first_missing, 6);
            assert(chain@.drop_last() =~= seq![
                FrameNode::EndMainPass,
                FrameNode::SdfPass,
                FrameNode::LightMapPass,
                FrameNode::LightingPass,
            ]);
            assert(chain@.drop_last().drop_last() =~= seq![
                FrameNode::EndMainPass,
                FrameNode::SdfPass,
                FrameNode::LightMapPass,
            ]);
            assert(chain@.drop_last().drop_last().drop_last() =~= seq![
                FrameNode::EndMainPass,
                FrameNode::SdfPass,
            ]);
            assert(chain@.drop_last().drop_last().drop_last().drop_last() =~= seq![
                FrameNode::EndMainPass,
            ]);
            assert(chain@.drop_last().drop_last().drop_last().drop_last().drop_last()
                =~= Seq::<FrameNode>::empty());
        }
        graph.add_node_edges(&chain)
    }

    /// Lays out the three passes for the device. Done once, when the device
    /// is known.
    pub fn finish(&self, limits: DeviceLimits) -> (pipelines: Pipelines)
        ensures
            pipelines.lighting.layout@ == LightingPipeline::layout_spec(),
            pipelines.sdf.layout@ == SdfPipeline::layout_spec(limits),
            pipelines.sdf.descriptor == SdfPipeline::descriptor_spec(),
            pipelines.light_map.layout@ == LightMapPipeline::layout_spec(limits),
            pipelines.light_map.descriptor == LightMapPipeline::descriptor_spec(),
    {
        Pipelines {
            lighting: LightingPipeline::from_world(),
            sdf: SdfPipeline::from_world(limits),
            light_map: LightMapPipeline::from_world(limits),
        }
    }
}

/// What a graph holds once a node was added.
proof fn lemma_with_node(nodes: Seq<FrameNode>, node: FrameNode)
    ensures
        forall|any: FrameNode| #[trigger]
            with_node(nodes, node).contains(any) <==> nodes.contains(any) || any == node,
{
    assert forall|any: FrameNode| #[trigger]
        with_node(nodes, node).contains(any) <==> nodes.contains(any) || any == node by {
        if !nodes.contains(node) {
            let after = nodes.push(node);
            if after.contains(any) {
                let i = choose|i: int| 0 <= i < after.len() && after[i] == any;
                if i < nodes.len() {
                    assert(nodes[i] == any);
                }
            }
            if nodes.contains(any) {
                let i = choose|i: int| 0 <= i < nodes.len() && nodes[i] == any;
                assert(after[i] == any);
            }
            if any == node {
                assert(after[nodes.len() as int] == any);
            }
        }
    }
}

/// In whatever order a graph that the plugin was built into is resolved, the
/// distance field is there before the light map reads it, the light map is
/// there before it is composited, and all of this happens after the scene's
/// main pass and before post-processing.
pub proof fn lemma_passes_run_in_order(order: Seq<FrameNode>, nodes: Seq<FrameNode>, before: Seq<Edge>)
    requires
        is_linear_order(order, nodes, with_chain(before, Light2dPlugin::pass_order())),
    ensures
        runs_before(order, FrameNode::EndMainPass, FrameNode::SdfPass),
        runs_before(order, FrameNode::SdfPass, FrameNode::LightMapPass),
        runs_before(order, FrameNode::LightMapPass, FrameNode::LightingPass),
        runs_before(order, FrameNode::LightingPass, FrameNode::Bloom),
        runs_before(order, FrameNode::SdfPass, FrameNode::LightingPass),
        runs_before(order, FrameNode::EndMainPass, FrameNode::LightingPass),
        runs_before(order, FrameNode::SdfPass, FrameNode::Bloom),
{
    let edges = with_chain(before, Light2dPlugin::pass_order());
    let chain = Light2dPlugin::pass_order();
    assert forall|at: int| 0 <= at < 4 implies runs_before(
        order,
        #[trigger] chain[at],
        chain[at + 1],
    ) by {
        let edge = Edge { output_node: chain[at], input_node: chain[at + 1] };
        assert(links(chain, at, edge));
        lemma_with_chain(before, chain, edge);
        assert(edges.contains(edge));
        let k = choose|k: int| 0 <= k < edges.len() && edges[k] == edge;
        assert(runs_before(order, edges[k].output_node, edges[k].input_node));
    }
    assert(runs_before(order, chain[0], chain[1]));
    assert(runs_before(order, chain[1], chain[2]));
    assert(runs_before(order, chain[2], chain[3]));
    assert(runs_before(order, chain[3], chain[4]));
    lemma_runs_before_transitive(
        order,
        FrameNode::SdfPass,
        FrameNode::LightMapPass,
        FrameNode::LightingPass,
    );
    lemma_runs_before_transitive(
        order,
        FrameNode::EndMainPass,
        FrameNode::SdfPass,
        FrameNode::LightingPass,
    );
    lemma_runs_before_transitive(
        order,
        FrameNode::SdfPass,
        FrameNode::LightingPass,
        FrameNode::Bloom,
    );
}

/// The scene is read before anything is written for the frame, and
/// everything is written before any pass runs.
pub proof fn lemma_extract_prepare_render(extract: System, prepare: System, render: System)
    requires
        extract.extracts(),
        !prepare.extracts(),
        !prepare.renders(),
        render.renders(),
    ensures
        extract.set_spec().position() < prepare.set_spec().position() < render.set_spec().position(),
{
}

/// Each intermediate texture has one writer and one reader: the distance
/// field is written by the distance field pass and read by the light map
/// pass, the light map is written by the light map pass and read by the
/// compositing pass, and no pass reads the texture that it writes.
pub proof fn lemma_one_writer_one_reader(
    world: RenderWorld,
    ambient_index: u32,
    view_offset: u32,
    pipeline: Option<CachedRenderPipelineId>,
    sdf: RenderPass,
    light_map: RenderPass,
    lighting: RenderPass,
)
    requires
        world.well_formed(),
        SdfNode::draws(sdf, view_offset, pipeline, world),
        LightMapNode::draws(light_map, ambient_index, view_offset, pipeline, world),
        LightingNode::draws(lighting, pipeline),
        SdfNode::ready(pipeline, world),
        LightMapNode::ready(pipeline, world),
    ensures
        sdf.color_attachment != light_map.color_attachment,
        sdf.color_attachment != lighting.color_attachment,
        light_map.color_attachment != lighting.color_attachment,
        !sdf.reads_texture(sdf.color_attachment),
        light_map.reads_texture(sdf.color_attachment),
        !lighting.reads_texture(sdf.color_attachment),
        !sdf.reads_texture(light_map.color_attachment),
        !light_map.reads_texture(light_map.color_attachment),
        lighting.reads_texture(light_map.color_attachment),
        !sdf.reads_texture(lighting.color_attachment),
        !light_map.reads_texture(lighting.color_attachment),
        !lighting.reads_texture(lighting.color_attachment),
        lighting.reads(BindingResource::PostProcessSource),
{
    assert(light_map.bind_group@[4] == BindingResource::SdfTexture);
    assert(lighting.bind_group@[0] == BindingResource::PostProcessSource);
    assert(lighting.bind_group@[1] == BindingResource::LightMapTexture);
}

} // verus!
