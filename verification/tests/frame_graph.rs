use bevy_light_2d::plugin::{Light2dPlugin, RenderSet, System};
use bevy_light_2d::render::frame_graph::{Edge, FrameGraph, FrameGraphError, FrameNode};
use bevy_light_2d::render::light_map::LightMapPass;
use bevy_light_2d::render::lighting::LightingPass;
use bevy_light_2d::render::sdf::SdfPass;

use FrameNode::{Bloom, EndMainPass};

fn position(order: &[FrameNode], node: FrameNode) -> usize {
    order.iter().position(|&n| n == node).unwrap()
}

fn host_graph() -> FrameGraph {
    let mut graph = FrameGraph::new();
    graph.add_node(Bloom);
    graph.add_node(EndMainPass);
    graph.try_add_node_edge(EndMainPass, Bloom).unwrap();
    graph
}

#[test]
fn a_new_graph_has_nothing_and_resolves_to_nothing() {
    let graph = FrameGraph::new();
    assert!(!graph.has_node(Bloom));
    assert!(!graph.has_node_edge(EndMainPass, Bloom));
    assert_eq!(graph.linear_order(), Some(Vec::new()));
}

#[test]
fn nodes_are_added_once() {
    let mut graph = FrameGraph::new();
    graph.add_node(FrameNode::SdfPass);
    let once = graph.clone();
    graph.add_node(FrameNode::SdfPass);
    assert_eq!(graph, once);
    assert!(graph.has_node(FrameNode::SdfPass));
    assert!(!graph.has_node(FrameNode::LightMapPass));
    assert_eq!(graph.linear_order(), Some(vec![FrameNode::SdfPass]));
}

#[test]
fn edges_need_both_nodes() {
    let mut graph = FrameGraph::new();
    graph.add_node(FrameNode::SdfPass);
    let before = graph.clone();
    assert_eq!(
        graph.try_add_node_edge(FrameNode::SdfPass, FrameNode::LightMapPass),
        Err(FrameGraphError::InvalidNode(FrameNode::LightMapPass))
    );
    assert_eq!(
        graph.try_add_node_edge(FrameNode::LightMapPass, FrameNode::SdfPass),
        Err(FrameGraphError::InvalidNode(FrameNode::LightMapPass))
    );
    assert_eq!(
        graph.try_add_node_edge(Bloom, FrameNode::LightMapPass),
        Err(FrameGraphError::InvalidNode(Bloom))
    );
    assert_eq!(graph, before);
}

#[test]
fn edges_are_added_once() {
    let mut graph = host_graph();
    assert!(graph.has_node_edge(EndMainPass, Bloom));
    assert!(!graph.has_node_edge(Bloom, EndMainPass));
    let before = graph.clone();
    assert_eq!(
        graph.try_add_node_edge(EndMainPass, Bloom),
        Err(FrameGraphError::EdgeAlreadyExists(Edge {
            output_node: EndMainPass,
            input_node: Bloom
        }))
    );
    assert_eq!(graph, before);
}

#[test]
fn edges_decide_the_order() {
    // The nodes were added the other way round.
    assert_eq!(host_graph().linear_order(), Some(vec![EndMainPass, Bloom]));
}

#[test]
fn a_chain_of_edges_passes_over_those_that_exist() {
    let mut graph = host_graph();
    graph.add_node(FrameNode::LightingPass);
    assert_eq!(graph.add_node_edges(&vec![EndMainPass, Bloom, FrameNode::LightingPass]), Ok(()));
    assert!(graph.has_node_edge(EndMainPass, Bloom));
    assert!(graph.has_node_edge(Bloom, FrameNode::LightingPass));
    assert!(!graph.has_node_edge(EndMainPass, FrameNode::LightingPass));
    assert_eq!(graph.linear_order(), Some(vec![EndMainPass, Bloom, FrameNode::LightingPass]));
}

#[test]
fn a_chain_with_an_unknown_node_changes_nothing() {
    let mut graph = host_graph();
    graph.add_node(FrameNode::LightingPass);
    let before = graph.clone();
    assert_eq!(
        graph.add_node_edges(&vec![
            EndMainPass,
            FrameNode::LightingPass,
            FrameNode::SdfPass,
            FrameNode::LightMapPass,
        ]),
        Err(FrameGraphError::InvalidNode(FrameNode::SdfPass))
    );
    assert_eq!(graph, before);
}

#[test]
fn short_chains_add_no_edge() {
    let mut graph = host_graph();
    let before = graph.clone();
    assert_eq!(graph.add_node_edges(&Vec::new()), Ok(()));
    assert_eq!(graph.add_node_edges(&vec![Bloom]), Ok(()));
    assert_eq!(graph, before);
    assert_eq!(
        graph.add_node_edges(&vec![FrameNode::SdfPass]),
        Err(FrameGraphError::InvalidNode(FrameNode::SdfPass))
    );
}

#[test]
fn edges_in_a_circle_leave_no_order() {
    let mut graph = host_graph();
    graph.try_add_node_edge(Bloom, EndMainPass).unwrap();
    assert_eq!(graph.linear_order(), None);

    let mut graph = FrameGraph::new();
    graph.add_node(FrameNode::SdfPass);
    graph.try_add_node_edge(FrameNode::SdfPass, FrameNode::SdfPass).unwrap();
    assert_eq!(graph.linear_order(), None);

    let mut graph = FrameGraph::new();
    for node in [EndMainPass, FrameNode::SdfPass, FrameNode::LightMapPass, Bloom] {
        graph.add_node(node);
    }
    graph
        .add_node_edges(&vec![
            FrameNode::SdfPass,
            FrameNode::LightMapPass,
            Bloom,
            FrameNode::SdfPass,
        ])
        .unwrap();
    assert_eq!(graph.linear_order(), None);
}

#[test]
fn the_plugin_adds_its_passes_between_main_pass_and_bloom() {
    let mut graph = host_graph();
    assert_eq!(Light2dPlugin.build(&mut graph), Ok(()));
    for node in [FrameNode::SdfPass, FrameNode::LightMapPass, FrameNode::LightingPass] {
        assert!(graph.has_node(node));
    }
    assert!(graph.has_node_edge(EndMainPass, FrameNode::SdfPass));
    assert!(graph.has_node_edge(FrameNode::SdfPass, FrameNode::LightMapPass));
    assert!(graph.has_node_edge(FrameNode::LightMapPass, FrameNode::LightingPass));
    assert!(graph.has_node_edge(FrameNode::LightingPass, Bloom));
    assert!(graph.has_node_edge(EndMainPass, Bloom));
    assert!(!graph.has_node_edge(FrameNode::SdfPass, FrameNode::LightingPass));
    assert_eq!(
        graph.linear_order(),
        Some(vec![
            EndMainPass,
            FrameNode::SdfPass,
            FrameNode::LightMapPass,
            FrameNode::LightingPass,
            Bloom,
        ])
    );
}

#[test]
fn the_passes_run_in_order_whatever_else_the_graph_holds() {
    let mut graph = FrameGraph::new();
    for node in [
        FrameNode::LightingPass,
        Bloom,
        FrameNode::LightMapPass,
        EndMainPass,
        FrameNode::SdfPass,
    ] {
        graph.add_node(node);
    }
    assert_eq!(Light2dPlugin.build(&mut graph), Ok(()));
    let order = graph.linear_order().unwrap();
    assert_eq!(order.len(), 5);
    assert!(position(&order, EndMainPass) < position(&order, FrameNode::SdfPass));
    assert!(position(&order, FrameNode::SdfPass) < position(&order, FrameNode::LightMapPass));
    assert!(position(&order, FrameNode::LightMapPass) < position(&order, FrameNode::LightingPass));
    assert!(position(&order, FrameNode::LightingPass) < position(&order, Bloom));
}

#[test]
fn building_twice_is_building_once() {
    let mut graph = host_graph();
    Light2dPlugin.build(&mut graph).unwrap();
    let once = graph.clone();
    assert_eq!(Light2dPlugin.build(&mut graph), Ok(()));
    assert_eq!(graph, once);
}

#[test]
fn the_plugin_needs_the_host_nodes() {
    let mut graph = FrameGraph::new();
    assert_eq!(
        Light2dPlugin.build(&mut graph),
        Err(FrameGraphError::InvalidNode(EndMainPass))
    );
    // The passes are there, but not tied in.
    assert!(graph.has_node(FrameNode::SdfPass));
    assert!(graph.has_node(FrameNode::LightMapPass));
    assert!(graph.has_node(FrameNode::LightingPass));
    assert!(!graph.has_node_edge(FrameNode::SdfPass, FrameNode::LightMapPass));

    let mut graph = FrameGraph::new();
    graph.add_node(EndMainPass);
    assert_eq!(Light2dPlugin.build(&mut graph), Err(FrameGraphError::InvalidNode(Bloom)));
    assert!(!graph.has_node_edge(EndMainPass, FrameNode::SdfPass));

    let mut graph = FrameGraph::new();
    graph.add_node(Bloom);
    assert_eq!(
        Light2dPlugin.build(&mut graph),
        Err(FrameGraphError::InvalidNode(EndMainPass))
    );
}

#[test]
fn pass_labels_compare_equal_to_themselves() {
    assert_eq!(SdfPass.node(), FrameNode::SdfPass);
    assert_eq!(LightMapPass.node(), FrameNode::LightMapPass);
    assert_eq!(LightingPass.node(), FrameNode::LightingPass);
    assert_eq!(SdfPass, SdfPass.clone());
    assert_eq!(LightMapPass, LightMapPass.clone());
    assert_eq!(LightingPass, LightingPass.clone());
    assert_eq!(format!("{:?} {:?} {:?}", SdfPass, LightMapPass, LightingPass), "SdfPass LightMapPass LightingPass");
}

#[test]
fn extraction_comes_before_preparation_comes_before_the_passes() {
    let extract = [
        System::ExtractPointLights,
        System::ExtractLightOccluders,
        System::ExtractAmbientLights,
    ];
    let manage_views = [System::PrepareSdfTexture, System::PrepareLightMapTexture];
    let prepare = [
        System::PrepareLightingPipelines,
        System::PrepareAmbientLights,
        System::PreparePointLights,
        System::PrepareLightOccluders,
        System::PreparePointLightCount,
        System::PrepareOccluderMeta,
        System::PrepareEmptyBuffer,
    ];
    let render = [System::SdfNode, System::LightMapNode, System::LightingNode];
    assert!(extract.iter().all(|system| system.set() == RenderSet::Extract));
    assert!(manage_views.iter().all(|system| system.set() == RenderSet::ManageViews));
    assert!(prepare.iter().all(|system| system.set() == RenderSet::Prepare));
    assert!(render.iter().all(|system| system.set() == RenderSet::Render));
}

#[test]
fn where_edges_leave_a_choice_the_node_added_first_runs_first() {
    let mut graph = FrameGraph::new();
    for node in [FrameNode::LightingPass, FrameNode::SdfPass, FrameNode::LightMapPass] {
        graph.add_node(node);
    }
    assert_eq!(
        graph.linear_order(),
        Some(vec![FrameNode::LightingPass, FrameNode::SdfPass, FrameNode::LightMapPass])
    );
    graph
        .try_add_node_edge(FrameNode::LightMapPass, FrameNode::LightingPass)
        .unwrap();
    assert_eq!(
        graph.linear_order(),
        Some(vec![FrameNode::SdfPass, FrameNode::LightMapPass, FrameNode::LightingPass])
    );
}

#[test]
fn a_chain_that_names_a_node_twice_ties_it_in_twice() {
    let mut graph = FrameGraph::new();
    for node in [EndMainPass, FrameNode::SdfPass, Bloom] {
        graph.add_node(node);
    }
    assert_eq!(
        graph.add_node_edges(&vec![EndMainPass, FrameNode::SdfPass, Bloom, EndMainPass, Bloom]),
        Ok(())
    );
    assert!(graph.has_node_edge(EndMainPass, FrameNode::SdfPass));
    assert!(graph.has_node_edge(FrameNode::SdfPass, Bloom));
    assert!(graph.has_node_edge(Bloom, EndMainPass));
    assert!(graph.has_node_edge(EndMainPass, Bloom));
    assert!(!graph.has_node_edge(Bloom, FrameNode::SdfPass));
    assert_eq!(graph.linear_order(), None);
}
