use line_join::worker::{Action, Failure, Outcome, Phase, Worker};

/// Feeds `input` to a fresh worker in reads of at most `chunk_size` bytes and
/// gives back every block it asked to have written, and its outcome.
fn run_stream(input: &[u8], chunk_size: usize) -> (Vec<Vec<u8>>, Outcome) {
    let mut worker = Worker::new(chunk_size);
    let mut blocks: Vec<Vec<u8>> = Vec::new();
    let mut at = 0;
    loop {
        let end = usize::min(at + worker.chunk_size(), input.len());
        let action = if at == end {
            worker.on_end()
        } else {
            assert!(worker.can_take(&input[at..end]));
            let action = worker.on_bytes(&input[at..end]);
            at = end;
            action
        };
        match action {
            Action::Read => {}
            Action::Write => {
                blocks.push(worker.payload().to_vec());
                assert!(worker.lines().checked_add(worker.payload_lines()).is_some());
                assert!(worker.can_flush());
                worker.on_written();
            }
            Action::Finish => break,
        }
        if worker.phase() == Phase::Terminated {
            break;
        }
    }
    (blocks, worker.outcome())
}

fn lines_of(blocks: &[Vec<u8>]) -> Vec<Vec<u8>> {
    let all: Vec<u8> = blocks.concat();
    all.split_inclusive(|b| *b == b'\n').map(|l| l.to_vec()).collect()
}

#[test]
fn single_line_without_terminator_is_completed() {
    let (blocks, outcome) = run_stream(b"only-line-no-terminator", 65536);
    assert_eq!(blocks, vec![b"only-line-no-terminator\n".to_vec()]);
    assert_eq!(outcome, Outcome::Lines(1));
}

#[test]
fn long_line_survives_small_chunks() {
    let (blocks, outcome) = run_stream(b"aaaaaaaaaaaa\n", 4);
    assert_eq!(blocks, vec![b"aaaaaaaaaaaa\n".to_vec()]);
    assert_eq!(outcome, Outcome::Lines(1));
}

#[test]
fn very_long_line_is_written_once_and_whole() {
    let mut input = vec![b'x'; 1000];
    input.push(b'\n');
    for chunk_size in [1usize, 3, 7, 64, 1001, 4096] {
        let (blocks, outcome) = run_stream(&input, chunk_size);
        assert_eq!(blocks, vec![input.clone()]);
        assert_eq!(outcome, Outcome::Lines(1));
    }
}

#[test]
fn empty_input_gives_no_write_and_no_line() {
    let (blocks, outcome) = run_stream(b"", 16);
    assert!(blocks.is_empty());
    assert_eq!(outcome, Outcome::Lines(0));
}

#[test]
fn terminated_input_gets_no_extra_line() {
    let (blocks, outcome) = run_stream(b"one\ntwo\n", 16);
    assert_eq!(blocks, vec![b"one\ntwo\n".to_vec()]);
    assert_eq!(outcome, Outcome::Lines(2));
}

#[test]
fn every_block_ends_at_a_terminator() {
    let input = b"alpha\nbeta\n\ngamma delta\nlast";
    for chunk_size in 1usize..12 {
        let (blocks, outcome) = run_stream(input, chunk_size);
        for block in &blocks {
            assert_eq!(block.last(), Some(&b'\n'));
        }
        assert_eq!(blocks.concat(), b"alpha\nbeta\n\ngamma delta\nlast\n".to_vec());
        assert_eq!(outcome, Outcome::Lines(5));
    }
}

#[test]
fn blocks_follow_the_chunks() {
    let (blocks, outcome) = run_stream(b"ab\ncd\nef", 4);
    assert_eq!(blocks, vec![b"ab\n".to_vec(), b"cd\n".to_vec(), b"ef\n".to_vec()]);
    assert_eq!(outcome, Outcome::Lines(3));
}

#[test]
fn two_inputs_keep_their_own_order() {
    let a: &[u8] = b"a1\na2\na3\n";
    let b: &[u8] = b"b1\nb2\n";
    let mut workers = [Worker::new(4), Worker::new(4)];
    let inputs = [a, b];
    let mut at = [0usize, 0usize];
    let mut sink: Vec<(usize, Vec<u8>)> = Vec::new();
    let mut running = 2;
    while running > 0 {
        for k in 0..2 {
            let worker = &mut workers[k];
            if worker.phase() == Phase::Terminated {
                continue;
            }
            let end = usize::min(at[k] + 4, inputs[k].len());
            let action = if at[k] == end {
                worker.on_end()
            } else {
                let action = worker.on_bytes(&inputs[k][at[k]..end]);
                at[k] = end;
                action
            };
            if action == Action::Write {
                sink.push((k, worker.payload().to_vec()));
                worker.on_written();
            }
            if worker.phase() == Phase::Terminated {
                running -= 1;
            }
        }
    }
    assert_eq!(workers[0].outcome(), Outcome::Lines(3));
    assert_eq!(workers[1].outcome(), Outcome::Lines(2));
    for (_, block) in &sink {
        assert_eq!(block.last(), Some(&b'\n'));
    }
    let from_a: Vec<Vec<u8>> = sink.iter().filter(|w| w.0 == 0).map(|w| w.1.clone()).collect();
    let from_b: Vec<Vec<u8>> = sink.iter().filter(|w| w.0 == 1).map(|w| w.1.clone()).collect();
    assert_eq!(lines_of(&from_a), vec![b"a1\n".to_vec(), b"a2\n".to_vec(), b"a3\n".to_vec()]);
    assert_eq!(lines_of(&from_b), vec![b"b1\n".to_vec(), b"b2\n".to_vec()]);
    let all: Vec<Vec<u8>> = sink.iter().map(|w| w.1.clone()).collect();
    let mut lines = lines_of(&all);
    lines.sort();
    assert_eq!(
        lines,
        vec![b"a1\n".to_vec(), b"a2\n".to_vec(), b"a3\n".to_vec(), b"b1\n".to_vec(), b"b2\n".to_vec()]
    );
}

#[test]
fn worker_steps_through_its_phases() {
    let mut worker = Worker::new(8);
    assert_eq!(worker.phase(), Phase::Reading);
    assert_eq!(worker.capacity(), 8);
    assert_eq!(worker.lines(), 0);
    assert_eq!(worker.on_bytes(b"ab"), Action::Read);
    assert_eq!(worker.phase(), Phase::Reading);
    assert_eq!(worker.pending_len(), 2);
    assert_eq!(worker.capacity(), 16);
    assert_eq!(worker.on_bytes(b"c\nd\nef"), Action::Write);
    assert_eq!(worker.phase(), Phase::Flushing);
    assert_eq!(worker.payload(), b"abc\nd\n");
    assert_eq!(worker.payload_lines(), 2);
    assert_eq!(worker.lines(), 0);
    assert_eq!(worker.on_written(), Action::Read);
    assert_eq!(worker.phase(), Phase::Reading);
    assert_eq!(worker.lines(), 2);
    assert_eq!(worker.pending_len(), 2);
    assert_eq!(worker.on_end(), Action::Write);
    assert_eq!(worker.phase(), Phase::Draining);
    assert_eq!(worker.payload(), b"ef\n");
    assert_eq!(worker.payload_lines(), 1);
    assert_eq!(worker.on_written(), Action::Finish);
    assert_eq!(worker.phase(), Phase::Terminated);
    assert_eq!(worker.outcome(), Outcome::Lines(3));
}

#[test]
fn read_failure_stops_the_worker_without_a_last_line() {
    let mut worker = Worker::new(8);
    assert_eq!(worker.on_bytes(b"x\npart"), Action::Write);
    assert_eq!(worker.on_written(), Action::Read);
    worker.on_failure(Failure::Read);
    assert_eq!(worker.phase(), Phase::Terminated);
    assert_eq!(worker.outcome(), Outcome::Failed(Failure::Read));
    assert_eq!(worker.lines(), 1);
}

#[test]
fn write_failure_is_reported() {
    let mut worker = Worker::new(8);
    assert_eq!(worker.on_bytes(b"x\n"), Action::Write);
    worker.on_failure(Failure::Write);
    assert_eq!(worker.phase(), Phase::Terminated);
    assert_eq!(worker.outcome(), Outcome::Failed(Failure::Write));
}

#[test]
fn worker_grows_only_while_a_line_is_pending() {
    let mut worker = Worker::new(4);
    assert!(worker.can_take(b"aaaa"));
    assert_eq!(worker.on_bytes(b"aaaa"), Action::Read);
    assert_eq!(worker.capacity(), 8);
    assert_eq!(worker.on_bytes(b"aaaa"), Action::Read);
    assert_eq!(worker.capacity(), 12);
    assert_eq!(worker.on_bytes(b"aaaa"), Action::Read);
    assert_eq!(worker.capacity(), 18);
    assert_eq!(worker.on_bytes(b"\n"), Action::Write);
    assert_eq!(worker.capacity(), 18);
    assert_eq!(worker.payload(), b"aaaaaaaaaaaa\n");
    assert_eq!(worker.on_written(), Action::Read);
    assert_eq!(worker.capacity(), 18);
    assert_eq!(worker.pending_len(), 0);
}

#[test]
fn worker_can_always_take_a_chunk_that_ends_a_line() {
    let mut worker = Worker::new(4);
    assert!(worker.can_take(b""));
    assert!(worker.can_take(b"ab\n"));
    assert_eq!(worker.on_bytes(b"ab\nc"), Action::Write);
    assert!(worker.can_flush());
    assert_eq!(worker.capacity(), 4);
    assert_eq!(worker.on_written(), Action::Read);
    assert_eq!(worker.capacity(), 8);
    assert_eq!(worker.on_end(), Action::Write);
    assert_eq!(worker.capacity(), 8);
    assert!(worker.can_flush());
    assert_eq!(worker.on_written(), Action::Finish);
    assert_eq!(worker.capacity(), 8);
}

#[test]
fn failure_leaves_the_buffer_as_it_is() {
    let mut worker = Worker::new(4);
    assert_eq!(worker.on_bytes(b"abc"), Action::Read);
    let capacity = worker.capacity();
    worker.on_failure(Failure::Read);
    assert_eq!(worker.capacity(), capacity);
    assert_eq!(worker.pending_len(), 3);
}
