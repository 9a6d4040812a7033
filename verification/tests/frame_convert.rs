use graphplay::buffer::LaneBuffer;
use graphplay::frame::FrameConverter;
use graphplay::graph::SignalGraph;
use graphplay::node::ProcessingNode;
use graphplay::runner::RunnerBackend;
use graphplay::BLOCK_SIZE;

fn stereo_constants(left: f32, right: f32) -> RunnerBackend<f32> {
    let mut graph: SignalGraph<f32> = SignalGraph::new(2, 48000);
    let l = graph.push(ProcessingNode::constant(1, left));
    let r = graph.push(ProcessingNode::constant(1, right));
    graph.connect_output(l, 0, 0);
    graph.connect_output(r, 0, 1);
    assert_eq!(graph.check(), Ok(()));
    let backend = graph.commit();
    RunnerBackend { buffer: LaneBuffer::new(2, 0.0), backend }
}

#[test]
fn interleaving_never_cross_writes_channels() {
    let mut rb = stereo_constants(0.25, -0.75);
    let converter = FrameConverter::new(2);
    let mut data: Vec<f32> = vec![0.0; 4 * 2 * BLOCK_SIZE];
    converter.drive(&mut data, &mut rb);
    for (j, sample) in data.iter().enumerate() {
        if j % 2 == 0 {
            assert_eq!(*sample, 0.25, "channel 0 value expected at even offset {j}");
        } else {
            assert_eq!(*sample, -0.75, "channel 1 value expected at odd offset {j}");
        }
    }
}

#[test]
fn remainder_samples_stay_untouched() {
    let mut rb = stereo_constants(1.0, -1.0);
    let converter = FrameConverter::new(2);
    // 300 samples: two whole stereo blocks (256 samples) plus a remainder.
    let mut data: Vec<f32> = vec![9.5; 300];
    converter.drive(&mut data, &mut rb);
    for j in 0..256 {
        assert_ne!(data[j], 9.5);
    }
    for j in 256..300 {
        assert_eq!(data[j], 9.5);
    }
}

#[test]
fn blocks_needed_matches_the_formula() {
    let converter = FrameConverter::new(2);
    assert_eq!(converter.blocks_needed(0), 0);
    assert_eq!(converter.blocks_needed(127), 0);
    assert_eq!(converter.blocks_needed(128), 1);
    assert_eq!(converter.blocks_needed(300), 2);
    assert_eq!(converter.blocks_needed(2048), 16);
}

#[test]
fn write_block_places_every_sample_at_its_slot() {
    let mut samples: Vec<i64> = Vec::new();
    for i in 0..BLOCK_SIZE {
        samples.push(i as i64);
    }
    for i in 0..BLOCK_SIZE {
        samples.push(1000 + i as i64);
    }
    let buf = LaneBuffer { channels: 2, samples };
    let converter = FrameConverter::new(2);
    let mut data: Vec<i64> = vec![-1; 3 * 2 * BLOCK_SIZE];
    converter.write_block(&mut data, 1, &buf);
    for j in 0..(2 * BLOCK_SIZE) {
        assert_eq!(data[j], -1);
    }
    for i in 0..BLOCK_SIZE {
        assert_eq!(data[2 * BLOCK_SIZE + 2 * i], i as i64);
        assert_eq!(data[2 * BLOCK_SIZE + 2 * i + 1], 1000 + i as i64);
    }
    for j in (4 * BLOCK_SIZE)..(6 * BLOCK_SIZE) {
        assert_eq!(data[j], -1);
    }
}

#[test]
fn drive_advances_the_backend_per_block() {
    // A cycling table makes consecutive blocks differ, so the destination
    // shows each block's own samples rather than copies of the first.
    let mut graph: SignalGraph<i64> = SignalGraph::new(2, 48000);
    let id = graph.push(ProcessingNode::new(2, vec![10, 20, 30]));
    assert_eq!(graph.pipe_output(id), Ok(()));
    assert_eq!(graph.check(), Ok(()));
    let backend = graph.commit();
    let mut rb = RunnerBackend { buffer: LaneBuffer::new(2, 0), backend };

    let converter = FrameConverter::new(2);
    let mut data: Vec<i64> = vec![0; 2 * 2 * BLOCK_SIZE];
    converter.drive(&mut data, &mut rb);
    let table = [10, 20, 30];
    for b in 0..2 {
        for i in 0..BLOCK_SIZE {
            let expected = table[(b * BLOCK_SIZE + i) % 3];
            assert_eq!(data[(b * BLOCK_SIZE + i) * 2], expected);
            assert_eq!(data[(b * BLOCK_SIZE + i) * 2 + 1], expected);
        }
    }
}
