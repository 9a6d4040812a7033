use graphplay::buffer::LaneBuffer;
use graphplay::graph::{SignalGraph, TopologyError};
use graphplay::node::ProcessingNode;
use graphplay::runner::Runner;
use graphplay::BLOCK_SIZE;

#[test]
fn wavetable_renders_exact_samples() {
    let mut graph: SignalGraph<i64> = SignalGraph::new(2, 48000);
    let id = graph.push(ProcessingNode::new(2, vec![10, 20, 30]));
    assert_eq!(graph.pipe_output(id), Ok(()));
    assert_eq!(graph.check(), Ok(()));
    let mut backend = graph.commit();
    let mut buffer: LaneBuffer<i64> = LaneBuffer::new(2, 0);

    backend.process(&mut buffer);
    for i in 0..BLOCK_SIZE {
        let expected = [10, 20, 30][i % 3];
        assert_eq!(buffer.at(0, i), expected);
        assert_eq!(buffer.at(1, i), expected);
    }

    // The counter advances by one block: 64 % 3 == 1.
    backend.process(&mut buffer);
    for i in 0..BLOCK_SIZE {
        let expected = [10, 20, 30][(1 + i) % 3];
        assert_eq!(buffer.at(0, i), expected);
    }
}

#[test]
fn process_is_deterministic_across_fresh_backends() {
    let table = vec![3, 1, 4, 1, 5, 9, 2, 6];
    let mut graph: SignalGraph<i64> = SignalGraph::new(2, 48000);
    let id = graph.push(ProcessingNode::new(2, table));
    assert_eq!(graph.pipe_output(id), Ok(()));
    assert_eq!(graph.check(), Ok(()));
    let mut first = graph.commit();
    let mut second = match graph.backend() {
        Ok(b) => b,
        Err(_) => panic!("committed graph must hand out a backend"),
    };

    let mut buf_a: LaneBuffer<i64> = LaneBuffer::new(2, 0);
    let mut buf_b: LaneBuffer<i64> = LaneBuffer::new(2, 0);
    for _ in 0..5 {
        first.process(&mut buf_a);
        second.process(&mut buf_b);
        for c in 0..2 {
            for i in 0..BLOCK_SIZE {
                assert_eq!(buf_a.at(c, i), buf_b.at(c, i));
            }
        }
    }
}

#[test]
fn commit_twice_yields_identical_backends() {
    let mut graph: SignalGraph<i64> = SignalGraph::new(2, 48000);
    let id = graph.push(ProcessingNode::new(2, vec![5, -7, 11]));
    assert_eq!(graph.pipe_output(id), Ok(()));
    assert_eq!(graph.check(), Ok(()));
    let mut first = graph.commit();
    let mut second = graph.commit();

    let mut buf_a: LaneBuffer<i64> = LaneBuffer::new(2, 0);
    let mut buf_b: LaneBuffer<i64> = LaneBuffer::new(2, 0);
    for _ in 0..3 {
        first.process(&mut buf_a);
        second.process(&mut buf_b);
        for c in 0..2 {
            for i in 0..BLOCK_SIZE {
                assert_eq!(buf_a.at(c, i), buf_b.at(c, i));
            }
        }
    }
}

#[test]
fn single_channel_build_fans_out_to_equal_stereo() {
    let table: Vec<f32> = (0..5).map(|i| i as f32 * 0.125 - 0.25).collect();
    let node = ProcessingNode::new(1, table);
    let mut runner = Runner::new(node, 0.0f32).unwrap();
    let mut rb = runner.backend();
    for _ in 0..4 {
        rb.process();
        for i in 0..BLOCK_SIZE {
            assert_eq!(rb.buffer.at(0, i), rb.buffer.at(1, i));
        }
    }
}

#[test]
fn runner_rejects_node_with_no_outputs() {
    let node: ProcessingNode<f32> = ProcessingNode::new(0, vec![0.5]);
    match Runner::new(node, 0.0f32) {
        Err(e) => assert_eq!(e, TopologyError::ArityMismatch),
        Ok(_) => panic!("a node with no outputs cannot feed the graph"),
    }
}

#[test]
fn stopped_runner_renders_silence() {
    let node = ProcessingNode::new(2, vec![0.5f32, -0.5, 0.25]);
    let mut runner = Runner::new(node, 0.0f32).unwrap();
    let mut rb = runner.backend();
    rb.process();
    assert_ne!(rb.buffer.at(0, 0), 0.0);

    runner.stop();
    let mut silent = runner.backend();
    for _ in 0..3 {
        silent.process();
        for c in 0..2 {
            for i in 0..BLOCK_SIZE {
                assert_eq!(silent.buffer.at(c, i), 0.0);
            }
        }
    }
}
