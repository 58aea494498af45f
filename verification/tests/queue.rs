use carbon_timescaledb::parse::{Metric, MetricParseError, ParseError};
use carbon_timescaledb::queue::Polled;
use carbon_timescaledb::worker::{Action, Event, Phase, Worker};
use crossbeam_channel::{bounded, Receiver, TrySendError};

fn convert(field: &str) -> Option<(u64, String)> {
    field.parse::<f64>().ok().map(|value| (value.to_bits(), value.to_string()))
}

fn metric(index: usize) -> Metric {
    Metric {
        path: format!("series.{}", index),
        value: (index as f64 + 0.5).to_bits(),
        numeral: format!("{}.5", index),
        timestamp: 1514764800 + index as i32,
    }
}

fn text(index: usize) -> String {
    format!("series.{} {}.5 {}", index, index, 1514764800 + index)
}

fn running(batch_size: u16) -> Worker {
    let mut worker = Worker::new(batch_size).unwrap();
    assert_eq!(worker.on_event(Event::Connected), Action::Poll);
    worker
}

fn run_to_the_end(worker: &mut Worker, queue: &Receiver<String>) -> Vec<Vec<Metric>> {
    let mut batches = Vec::new();
    loop {
        match worker.poll(queue, 10, convert) {
            Action::Flush(batch) => batches.push(batch),
            Action::Exit => return batches,
            _ => {}
        }
    }
}

#[test]
fn a_queue_takes_as_many_lines_as_its_capacity_and_no_more() {
    for capacity in [1usize, 2, 5, 64] {
        let (sender, receiver) = bounded::<String>(capacity);
        for index in 0..capacity {
            assert_eq!(sender.try_send(text(index)), Ok(()));
        }
        assert_eq!(sender.try_send(text(capacity)), Err(TrySendError::Full(text(capacity))));
        assert_eq!(receiver.len(), capacity);
        assert_eq!(receiver.recv(), Ok(text(0)));
        assert_eq!(sender.try_send(text(capacity)), Ok(()));
        assert_eq!(sender.try_send(text(capacity + 1)), Err(TrySendError::Full(text(capacity + 1))));
    }
}

#[test]
fn a_full_queue_holds_the_sender_back_until_a_line_is_taken() {
    let (sender, receiver) = bounded::<String>(2);
    sender.send(text(0)).unwrap();
    sender.send(text(1)).unwrap();
    let blocked = sender.send_timeout(text(2), std::time::Duration::from_millis(20));
    assert!(blocked.is_err());
    assert_eq!(receiver.recv(), Ok(text(0)));
    assert!(sender.send_timeout(text(2), std::time::Duration::from_millis(20)).is_ok());
    assert_eq!(receiver.recv(), Ok(text(1)));
    assert_eq!(receiver.recv(), Ok(text(2)));
}

#[test]
fn poll_flushes_a_burst_in_batches_of_the_batch_size() {
    let size = 4usize;
    let count = 3usize;
    let (sender, receiver) = bounded::<String>(size * count);
    for index in 0..size * count {
        sender.send(text(index)).unwrap();
    }
    let mut worker = running(size as u16);
    let mut batches = Vec::new();
    for _ in 0..size * count {
        if let Action::Flush(batch) = worker.poll(&receiver, 1000, convert) {
            batches.push(batch);
        }
    }
    assert_eq!(batches.len(), count);
    for (j, batch) in batches.iter().enumerate() {
        let expected: Vec<Metric> = (j * size..(j + 1) * size).map(metric).collect();
        assert_eq!(batch, &expected);
    }
    assert_eq!(worker.pending(), 0);
    assert!(receiver.is_empty());
}

#[test]
fn poll_flushes_a_lone_metric_when_the_queue_stays_silent() {
    let (sender, receiver) = bounded::<String>(8);
    sender.send(text(3)).unwrap();
    let mut worker = running(100);
    assert_eq!(worker.poll(&receiver, 1000, convert), Action::Poll);
    assert_eq!(worker.pending(), 1);
    let started = std::time::Instant::now();
    assert_eq!(worker.poll(&receiver, 50, convert), Action::Flush(vec![metric(3)]));
    let waited = started.elapsed();
    assert!(waited >= std::time::Duration::from_millis(50));
    assert!(waited < std::time::Duration::from_millis(5000));
    assert_eq!(worker.poll(&receiver, 10, convert), Action::Poll);
    assert_eq!(worker.phase(), Phase::Running);
    drop(sender);
}

#[test]
fn poll_delivers_the_metrics_of_a_mixed_stream_and_nothing_else() {
    let (sender, receiver) = bounded::<String>(32);
    let bad = ["", "only.path", "a.b 1.5", "a.b x 10", "a.b 1.5 now"];
    for index in 0..10 {
        sender.send(text(index)).unwrap();
        if index % 2 == 1 {
            sender.send(bad[index / 2].to_string()).unwrap();
        }
    }
    drop(sender);
    let mut worker = running(4);
    let batches = run_to_the_end(&mut worker, &receiver);
    let delivered: Vec<Metric> = batches.iter().flatten().cloned().collect();
    let expected: Vec<Metric> = (0..10).map(metric).collect();
    assert_eq!(delivered, expected);
    assert_eq!(worker.phase(), Phase::Terminated);
}

#[test]
fn poll_reports_why_a_line_is_discarded() {
    let (sender, receiver) = bounded::<String>(8);
    sender.send("a.b".to_string()).unwrap();
    sender.send("a.b 1e999 10".to_string()).unwrap();
    sender.send("a.b 1.5 10.5".to_string()).unwrap();
    let mut worker = running(4);
    assert_eq!(
        worker.poll(&receiver, 10, convert),
        Action::Discard(MetricParseError::new(ParseError::MalformedLine))
    );
    assert_eq!(
        worker.poll(&receiver, 10, convert),
        Action::Discard(MetricParseError::new(ParseError::InvalidValue))
    );
    assert_eq!(
        worker.poll(&receiver, 10, convert),
        Action::Discard(MetricParseError::new(ParseError::InvalidTimestamp))
    );
    assert_eq!(worker.pending(), 0);
    drop(sender);
}

#[test]
fn poll_drains_a_partial_batch_when_the_queue_is_closed() {
    let size = 5usize;
    let (sender, receiver) = bounded::<String>(size);
    for index in 0..size - 1 {
        sender.send(text(index)).unwrap();
    }
    drop(sender);
    let mut worker = running(size as u16);
    for _ in 0..size - 1 {
        assert_eq!(worker.poll(&receiver, 10, convert), Action::Poll);
    }
    let expected: Vec<Metric> = (0..size - 1).map(metric).collect();
    assert_eq!(worker.poll(&receiver, 10, convert), Action::Flush(expected));
    assert_eq!(worker.phase(), Phase::Draining);
    assert_eq!(worker.poll(&receiver, 10, convert), Action::Exit);
    assert_eq!(worker.phase(), Phase::Terminated);
}

#[test]
fn poll_ends_an_idle_worker_when_the_queue_is_closed() {
    let (sender, receiver) = bounded::<String>(1);
    drop(sender);
    let mut worker = running(5);
    assert_eq!(worker.poll(&receiver, 10, convert), Action::Exit);
    assert_eq!(worker.phase(), Phase::Terminated);
}

#[test]
fn poll_takes_nothing_from_the_queue_before_the_worker_runs() {
    let (sender, receiver) = bounded::<String>(4);
    sender.send(text(0)).unwrap();
    let mut worker = Worker::new(2).unwrap();
    assert_eq!(worker.poll(&receiver, 10, convert), Action::Connect);
    assert_eq!(worker.phase(), Phase::Connecting);
    assert_eq!(receiver.len(), 1);
    assert_eq!(worker.on_event(Event::ConnectFailed), Action::Exit);
    assert_eq!(worker.poll(&receiver, 10, convert), Action::Exit);
    assert_eq!(receiver.len(), 1);
    drop(sender);
}

#[test]
fn poll_hands_each_line_to_one_worker_only() {
    let (sender, receiver) = bounded::<String>(16);
    for index in 0..12 {
        sender.send(text(index)).unwrap();
    }
    drop(sender);
    let mut first = running(2);
    let mut second = running(3);
    let other = receiver.clone();
    let mut delivered: Vec<Metric> = Vec::new();
    let mut first_done = false;
    let mut second_done = false;
    while !(first_done && second_done) {
        if !first_done {
            match first.poll(&receiver, 10, convert) {
                Action::Flush(batch) => delivered.extend(batch),
                Action::Exit => first_done = true,
                _ => {}
            }
        }
        if !second_done {
            match second.poll(&other, 10, convert) {
                Action::Flush(batch) => delivered.extend(batch),
                Action::Exit => second_done = true,
                _ => {}
            }
        }
    }
    delivered.sort_by_key(|metric| metric.timestamp);
    let expected: Vec<Metric> = (0..12).map(metric).collect();
    assert_eq!(delivered, expected);
}

#[test]
fn on_polled_takes_each_outcome_of_a_wait_as_its_event() {
    let mut worker = running(2);
    assert_eq!(worker.on_polled(Polled::Timeout, convert), Action::Poll);
    assert_eq!(worker.on_polled(Polled::Line(text(0)), convert), Action::Poll);
    assert_eq!(worker.pending(), 1);
    assert_eq!(worker.on_polled(Polled::Timeout, convert), Action::Flush(vec![metric(0)]));
    assert_eq!(worker.phase(), Phase::Running);
    assert_eq!(worker.on_polled(Polled::Line(text(1)), convert), Action::Poll);
    assert_eq!(
        worker.on_polled(Polled::Line(text(2)), convert),
        Action::Flush(vec![metric(1), metric(2)])
    );
    assert_eq!(
        worker.on_polled(Polled::Line("a.b x 1".to_string()), convert),
        Action::Discard(MetricParseError::new(ParseError::InvalidValue))
    );
    assert_eq!(worker.on_polled(Polled::Line(text(3)), convert), Action::Poll);
    assert_eq!(worker.on_polled(Polled::Closed, convert), Action::Flush(vec![metric(3)]));
    assert_eq!(worker.phase(), Phase::Draining);
}

#[test]
fn on_polled_tells_a_timeout_from_the_closing_of_the_queue() {
    let mut idle = running(2);
    assert_eq!(idle.on_polled(Polled::Timeout, convert), Action::Poll);
    assert_eq!(idle.phase(), Phase::Running);
    assert_eq!(idle.on_polled(Polled::Closed, convert), Action::Exit);
    assert_eq!(idle.phase(), Phase::Terminated);
}
