use graphplay::graph::{SignalGraph, TopologyError, UncommittedBackendError};
use graphplay::node::ProcessingNode;

fn two_channel_node() -> ProcessingNode<i64> {
    ProcessingNode::new(2, vec![1, 2, 3, 4])
}

#[test]
fn check_succeeds_when_fully_routed() {
    let mut graph: SignalGraph<i64> = SignalGraph::new(2, 48000);
    let id = graph.push(two_channel_node());
    graph.connect_output(id, 0, 0);
    graph.connect_output(id, 1, 1);
    assert_eq!(graph.check(), Ok(()));
}

#[test]
fn check_fails_on_fresh_graph() {
    let graph: SignalGraph<i64> = SignalGraph::new(2, 48000);
    assert_eq!(
        graph.check(),
        Err(TopologyError::UnroutedOutput { channel: 0 })
    );
}

#[test]
fn check_fails_after_removing_routed_node() {
    let mut graph: SignalGraph<i64> = SignalGraph::new(2, 48000);
    let id = graph.push(two_channel_node());
    graph.connect_output(id, 0, 0);
    graph.connect_output(id, 1, 1);
    assert_eq!(graph.check(), Ok(()));
    graph.remove(id);
    assert_eq!(
        graph.check(),
        Err(TopologyError::DanglingRoute { channel: 0 })
    );
}

#[test]
fn check_fails_when_one_channel_is_unrouted() {
    let mut graph: SignalGraph<i64> = SignalGraph::new(2, 48000);
    let id = graph.push(two_channel_node());
    graph.connect_output(id, 0, 0);
    assert_eq!(
        graph.check(),
        Err(TopologyError::UnroutedOutput { channel: 1 })
    );
}

#[test]
fn pipe_output_rejects_wrong_arity() {
    let mut graph: SignalGraph<i64> = SignalGraph::new(2, 48000);
    let id = graph.push(ProcessingNode::new(1, vec![7]));
    assert_eq!(graph.pipe_output(id), Err(TopologyError::ArityMismatch));
    assert_eq!(
        graph.check(),
        Err(TopologyError::UnroutedOutput { channel: 0 })
    );
}

#[test]
fn pipe_output_wires_all_channels_in_order() {
    let mut graph: SignalGraph<i64> = SignalGraph::new(2, 48000);
    let id = graph.push(two_channel_node());
    assert_eq!(graph.pipe_output(id), Ok(()));
    assert_eq!(graph.check(), Ok(()));
}

#[test]
fn backend_is_refused_after_mutation_without_commit() {
    let mut graph: SignalGraph<i64> = SignalGraph::new(2, 48000);
    let id = graph.push(two_channel_node());
    assert_eq!(graph.pipe_output(id), Ok(()));
    assert_eq!(graph.check(), Ok(()));
    graph.remove(id);
    match graph.backend() {
        Err(e) => assert_eq!(e, UncommittedBackendError),
        Ok(_) => panic!("a backend must not be handed out without a commit"),
    }
}

#[test]
fn backend_is_refused_before_any_commit() {
    let mut graph: SignalGraph<i64> = SignalGraph::new(2, 48000);
    let id = graph.push(two_channel_node());
    assert_eq!(graph.pipe_output(id), Ok(()));
    assert_eq!(graph.check(), Ok(()));
    assert!(graph.backend().is_err());
}

#[test]
fn backend_is_available_after_commit() {
    let mut graph: SignalGraph<i64> = SignalGraph::new(2, 48000);
    let id = graph.push(two_channel_node());
    assert_eq!(graph.pipe_output(id), Ok(()));
    assert_eq!(graph.check(), Ok(()));
    let _snapshot = graph.commit();
    assert!(graph.backend().is_ok());
}
