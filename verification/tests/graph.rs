use water_ripples::graph::{
    water_effect, GraphError, PassGraph, PassNode, Slot, SlotEdge, SlotType,
};

#[test]
fn effect_graph_has_its_six_edges_in_order() {
    let graph = water_effect().unwrap();
    assert_eq!(
        graph.edges,
        vec![
            SlotEdge { output: Slot::ViewEntity, input: Slot::MaskInView },
            SlotEdge { output: Slot::MaskOutMask, input: Slot::InitInMask },
            SlotEdge { output: Slot::ViewEntity, input: Slot::JfaInView },
            SlotEdge { output: Slot::InitOutJfaInit, input: Slot::JfaInBase },
            SlotEdge { output: Slot::ViewEntity, input: Slot::RipplesInView },
            SlotEdge { output: Slot::JfaOutJump, input: Slot::RipplesInJfa },
        ]
    );
    assert_eq!(graph.missing_input(), None);
}

#[test]
fn passes_run_mask_seed_rounds_composite() {
    let graph = water_effect().unwrap();
    assert_eq!(
        graph.execution_order(),
        vec![PassNode::Mask, PassNode::JfaInit, PassNode::Jfa, PassNode::Ripples]
    );
    for edge in &graph.edges {
        assert!(edge.output.node().position() < edge.input.node().position());
    }
}

#[test]
fn an_input_slot_is_no_producer() {
    let mut graph = PassGraph::new();
    assert_eq!(
        graph.add_slot_edge(Slot::MaskInView, Slot::InitInMask),
        Err(GraphError::InvalidOutputSlot)
    );
    assert!(graph.edges.is_empty());
}

#[test]
fn an_output_slot_is_no_consumer() {
    let mut graph = PassGraph::new();
    assert_eq!(
        graph.add_slot_edge(Slot::MaskOutMask, Slot::JfaOutJump),
        Err(GraphError::InvalidInputSlot)
    );
    assert!(graph.edges.is_empty());
}

#[test]
fn slots_of_different_kinds_do_not_connect() {
    let mut graph = PassGraph::new();
    assert_eq!(
        graph.add_slot_edge(Slot::ViewEntity, Slot::InitInMask),
        Err(GraphError::MismatchedSlots)
    );
    assert_eq!(
        graph.add_slot_edge(Slot::MaskOutMask, Slot::JfaInView),
        Err(GraphError::MismatchedSlots)
    );
    assert!(graph.edges.is_empty());
}

#[test]
fn an_edge_that_would_close_a_cycle_is_refused() {
    let mut graph = water_effect().unwrap();
    let before = graph.edges.clone();
    assert_eq!(
        graph.add_slot_edge(Slot::JfaOutJump, Slot::InitInMask),
        Err(GraphError::BackwardEdge)
    );
    assert_eq!(
        graph.add_slot_edge(Slot::RipplesOutView, Slot::MaskInView),
        Err(GraphError::BackwardEdge)
    );
    assert_eq!(
        graph.add_slot_edge(Slot::JfaOutJump, Slot::JfaInBase),
        Err(GraphError::BackwardEdge)
    );
    assert_eq!(graph.edges, before);
}

#[test]
fn an_input_takes_one_producer() {
    let mut graph = PassGraph::new();
    assert_eq!(graph.add_slot_edge(Slot::MaskOutMask, Slot::RipplesInJfa), Ok(()));
    assert_eq!(
        graph.add_slot_edge(Slot::JfaOutJump, Slot::RipplesInJfa),
        Err(GraphError::InputOccupied)
    );
    assert_eq!(
        graph.add_slot_edge(Slot::MaskOutMask, Slot::RipplesInJfa),
        Err(GraphError::InputOccupied)
    );
    assert_eq!(
        graph.edges,
        vec![SlotEdge { output: Slot::MaskOutMask, input: Slot::RipplesInJfa }]
    );
    assert!(graph.has_producer(Slot::RipplesInJfa));
    assert!(!graph.has_producer(Slot::JfaInBase));
}

#[test]
fn an_output_may_feed_several_inputs() {
    let mut graph = PassGraph::new();
    assert_eq!(graph.add_slot_edge(Slot::ViewEntity, Slot::MaskInView), Ok(()));
    assert_eq!(graph.add_slot_edge(Slot::ViewEntity, Slot::JfaInView), Ok(()));
    assert_eq!(graph.add_slot_edge(Slot::ViewEntity, Slot::RipplesInView), Ok(()));
    assert_eq!(graph.edges.len(), 3);
}

#[test]
fn missing_input_names_the_first_gap() {
    let mut graph = PassGraph::new();
    assert_eq!(graph.missing_input(), Some(Slot::MaskInView));
    graph.add_slot_edge(Slot::ViewEntity, Slot::MaskInView).unwrap();
    assert_eq!(graph.missing_input(), Some(Slot::InitInMask));
    graph.add_slot_edge(Slot::ViewEntity, Slot::JfaInView).unwrap();
    assert_eq!(graph.missing_input(), Some(Slot::InitInMask));
    graph.add_slot_edge(Slot::MaskOutMask, Slot::InitInMask).unwrap();
    assert_eq!(graph.missing_input(), Some(Slot::JfaInBase));
}

#[test]
fn slots_know_their_node_kind_and_direction() {
    assert_eq!(Slot::ViewEntity.node(), PassNode::Input);
    assert_eq!(Slot::MaskOutMask.node(), PassNode::Mask);
    assert_eq!(Slot::InitInMask.node(), PassNode::JfaInit);
    assert_eq!(Slot::JfaInBase.node(), PassNode::Jfa);
    assert_eq!(Slot::RipplesOutView.node(), PassNode::Ripples);
    assert_eq!(Slot::ViewEntity.carries(), SlotType::Entity);
    assert_eq!(Slot::RipplesOutView.carries(), SlotType::Entity);
    assert_eq!(Slot::JfaOutJump.carries(), SlotType::TextureView);
    assert_eq!(Slot::InitInMask.carries(), SlotType::TextureView);
    assert!(Slot::JfaOutJump.produces());
    assert!(!Slot::JfaInView.produces());
    assert_eq!(PassNode::Input.position(), 0);
    assert_eq!(PassNode::Ripples.position(), 4);
}
