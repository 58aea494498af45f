//! What a worker does over a whole sequence of events, and the laws that
//! hold of it.

use vstd::prelude::*;

use crate::parse::{parsed, MetricView};
use crate::worker::{step, ActionView, EventView, Phase, WorkerView};

verus! {

/// The worker after a sequence of events.
pub open spec fn run(w: WorkerView, events: Seq<EventView>) -> WorkerView
    decreases events.len(),
{
    if events.len() == 0 {
        w
    } else {
        run(step(w, events.first()).0, events.drop_first())
    }
}

/// The batches that the worker hands to the store over a sequence of
/// events, in the order in which it hands them over.
pub open spec fn flushed(w: WorkerView, events: Seq<EventView>) -> Seq<Seq<MetricView>>
    decreases events.len(),
{
    if events.len() == 0 {
        Seq::empty()
    } else {
        let (next, action) = step(w, events.first());
        let rest = flushed(next, events.drop_first());
        match action {
            ActionView::Flush(items) => seq![items] + rest,
            _ => rest,
        }
    }
}

/// The metric that an event brings: that of a line that is one.
pub open spec fn metric_of(e: EventView) -> Option<MetricView> {
    match e {
        EventView::Line { text, value } => match parsed(text, value) {
            Ok(metric) => Some(metric),
            Err(_) => None,
        },
        _ => None,
    }
}

/// The metrics that a sequence of events brings, in their order.
pub open spec fn metrics_of(events: Seq<EventView>) -> Seq<MetricView>
    decreases events.len(),
{
    if events.len() == 0 {
        Seq::empty()
    } else {
        let rest = metrics_of(events.drop_first());
        match metric_of(events.first()) {
            Some(metric) => seq![metric] + rest,
            None => rest,
        }
    }
}

/// Whether the queue stays open throughout `events`.
pub open spec fn stays_open(events: Seq<EventView>) -> bool {
    forall|i: int| 0 <= i < events.len() ==> #[trigger] events[i] != EventView::Closed
}

/// Whether every event of `events` is a line that is a metric.
pub open spec fn all_metrics(events: Seq<EventView>) -> bool {
    forall|i: int| 0 <= i < events.len() ==> metric_of(#[trigger] events[i]) is Some
}

/// A step keeps a well-formed worker well-formed and its batch size as it
/// is, and a batch that it flushes holds at least one metric and at most
/// as many as the batch size.
pub proof fn lemma_step_keeps_wf(w: WorkerView, e: EventView)
    requires
        w.wf(),
    ensures
        step(w, e).0.wf(),
        step(w, e).0.batch.batch_size == w.batch.batch_size,
        step(w, e).1 matches ActionView::Flush(items) ==> 0 < items.len() <= w.batch.batch_size,
{
}

/// A worker that was well-formed before a sequence of events is so after
/// it, with the batch size it had.
pub proof fn lemma_run_keeps_wf(w: WorkerView, events: Seq<EventView>)
    requires
        w.wf(),
    ensures
        run(w, events).wf(),
        run(w, events).batch.batch_size == w.batch.batch_size,
    decreases events.len(),
{
    if events.len() > 0 {
        lemma_step_keeps_wf(w, events.first());
        lemma_run_keeps_wf(step(w, events.first()).0, events.drop_first());
    }
}

/// Every batch that reaches the store holds at least one metric and at
/// most as many as the batch size.
pub proof fn lemma_flushed_batches_bounded(w: WorkerView, events: Seq<EventView>)
    requires
        w.wf(),
    ensures
        forall|j: int|
            0 <= j < flushed(w, events).len() ==> 0 < (#[trigger] flushed(w, events)[j]).len()
                <= w.batch.batch_size,
    decreases events.len(),
{
    if events.len() > 0 {
        let (next, action) = step(w, events.first());
        lemma_step_keeps_wf(w, events.first());
        lemma_flushed_batches_bounded(next, events.drop_first());
        let rest = flushed(next, events.drop_first());
        assert forall|j: int| 0 <= j < flushed(w, events).len() implies 0 < (#[trigger] flushed(
            w,
            events,
        )[j]).len() <= w.batch.batch_size by {
            if action is Flush {
                if j > 0 {
                    assert(flushed(w, events)[j] == rest[j - 1]);
                }
            } else {
                assert(flushed(w, events)[j] == rest[j]);
            }
        }
    }
}

/// Running through two sequences of events one after the other is running
/// through them joined.
pub proof fn lemma_run_concat(w: WorkerView, first: Seq<EventView>, second: Seq<EventView>)
    ensures
        run(w, first + second) == run(run(w, first), second),
        flushed(w, first + second) == flushed(w, first) + flushed(run(w, first), second),
    decreases first.len(),
{
    if first.len() > 0 {
        assert((first + second).drop_first() == first.drop_first() + second);
        lemma_run_concat(step(w, first.first()).0, first.drop_first(), second);
    }
}

/// The metrics of two sequences of events joined are those of the first
/// and then those of the second.
pub proof fn lemma_metrics_of_concat(first: Seq<EventView>, second: Seq<EventView>)
    ensures
        metrics_of(first + second) == metrics_of(first) + metrics_of(second),
    decreases first.len(),
{
    if first.len() > 0 {
        assert((first + second).drop_first() == first.drop_first() + second);
        lemma_metrics_of_concat(first.drop_first(), second);
    }
}

/// Where every event is a line that is a metric, so is every event after
/// the first.
pub proof fn lemma_rest_all_metrics(events: Seq<EventView>)
    requires
        all_metrics(events),
        events.len() > 0,
    ensures
        all_metrics(events.drop_first()),
        metric_of(events.first()) is Some,
{
    assert forall|i: int| 0 <= i < events.drop_first().len() implies metric_of(
        #[trigger] events.drop_first()[i],
    ) is Some by {
        assert(events.drop_first()[i] == events[i + 1]);
    }
    assert(metric_of(events[0]) is Some);
}

/// Where every event is a line that is a metric, there are as many metrics
/// as events.
pub proof fn lemma_metrics_of_len(events: Seq<EventView>)
    requires
        all_metrics(events),
    ensures
        metrics_of(events).len() == events.len(),
    decreases events.len(),
{
    if events.len() > 0 {
        lemma_rest_all_metrics(events);
        lemma_metrics_of_len(events.drop_first());
    }
}

/// Nothing is lost, nothing is doubled, nothing changes places: while the
/// queue stays open, the metrics that a running worker held at first and
/// those that the events brought are, in that order, the metrics of the
/// batches it flushed and then those it still holds. What the events
/// brought are the lines that are metrics, and no others.
pub proof fn lemma_nothing_lost(w: WorkerView, events: Seq<EventView>)
    requires
        w.wf(),
        w.phase == Phase::Running,
        stays_open(events),
    ensures
        run(w, events).phase == Phase::Running,
        w.batch.items + metrics_of(events) == flushed(w, events).flatten() + run(
            w,
            events,
        ).batch.items,
    decreases events.len(),
{
    if events.len() > 0 {
        let e = events.first();
        let rest = events.drop_first();
        let (next, action) = step(w, e);
        assert(events[0] != EventView::Closed);
        assert forall|i: int| 0 <= i < rest.len() implies #[trigger] rest[i]
            != EventView::Closed by {
            assert(rest[i] == events[i + 1]);
        }
        lemma_step_keeps_wf(w, e);
        lemma_nothing_lost(next, rest);
        // By induction, what `next` holds and what `rest` brings are what is
        // flushed over `rest` and what is held in the end.
        let tail = flushed(next, rest);
        let last = run(next, rest).batch.items;
        let brought = metrics_of(rest);
        match (action, metric_of(e)) {
            (ActionView::Flush(items), Some(metric)) => {
                assert((seq![items] + tail).drop_first() == tail);
                assert(w.batch.items + (seq![metric] + brought) == (items + tail.flatten())
                    + last);
            },
            (ActionView::Flush(items), None) => {
                assert((seq![items] + tail).drop_first() == tail);
            },
            (_, Some(metric)) => {
                assert(w.batch.items + (seq![metric] + brought) == next.batch.items + brought);
            },
            (_, None) => {},
        }
    }
}

/// The end of a running worker: the closing of the queue and then the
/// report that the last write has ended.
pub open spec fn shutdown() -> Seq<EventView> {
    seq![EventView::Closed, EventView::Flushed]
}

/// When the queue is closed, a running worker flushes what it holds, if it
/// holds anything, and has ended after the report of that write.
pub proof fn lemma_shutdown(w: WorkerView)
    requires
        w.wf(),
        w.phase == Phase::Running,
    ensures
        run(w, shutdown()).phase == Phase::Terminated,
        run(w, shutdown()).batch.items.len() == 0,
        flushed(w, shutdown()) == if w.batch.items.len() > 0 {
            seq![w.batch.items]
        } else {
            Seq::<Seq<MetricView>>::empty()
        },
{
    let next = step(w, EventView::Closed).0;
    let rest = shutdown().drop_first();
    let end = step(next, EventView::Flushed).0;
    assert(run(next, rest) == run(end, rest.drop_first()));
    assert(flushed(next, rest) == Seq::<Seq<MetricView>>::empty()) by {
        assert(flushed(end, rest.drop_first()).len() == 0);
    }
}

/// Drain on shutdown: whatever a running worker held, and whatever the
/// events brought while the queue was open, has reached the store, in
/// order, by the time the worker has ended.
pub proof fn lemma_drain_on_shutdown(w: WorkerView, events: Seq<EventView>)
    requires
        w.wf(),
        w.phase == Phase::Running,
        stays_open(events),
    ensures
        run(w, events + shutdown()).phase == Phase::Terminated,
        run(w, events + shutdown()).batch.items.len() == 0,
        flushed(w, events + shutdown()).flatten() == w.batch.items + metrics_of(events),
{
    let mid = run(w, events);
    lemma_nothing_lost(w, events);
    lemma_run_keeps_wf(w, events);
    lemma_shutdown(mid);
    lemma_run_concat(w, events, shutdown());
    vstd::seq_lib::lemma_flatten_concat(flushed(w, events), flushed(mid, shutdown()));
    if mid.batch.items.len() > 0 {
        let last = seq![mid.batch.items];
        assert(last.drop_first().flatten() == Seq::<MetricView>::empty());
    } else {
        assert(flushed(w, events).flatten() + Seq::<MetricView>::empty() == flushed(
            w,
            events,
        ).flatten());
    }
}

/// Lines that are metrics and do not fill the batch are taken in and
/// nothing is flushed.
pub proof fn lemma_fill(w: WorkerView, lines: Seq<EventView>)
    requires
        w.wf(),
        w.phase == Phase::Running,
        all_metrics(lines),
        w.batch.items.len() + lines.len() < w.batch.batch_size,
    ensures
        flushed(w, lines) == Seq::<Seq<MetricView>>::empty(),
        run(w, lines).phase == Phase::Running,
        run(w, lines).batch.batch_size == w.batch.batch_size,
        run(w, lines).batch.items == w.batch.items + metrics_of(lines),
    decreases lines.len(),
{
    if lines.len() > 0 {
        let e = lines.first();
        let rest = lines.drop_first();
        let metric = metric_of(e)->0;
        lemma_rest_all_metrics(lines);
        lemma_fill(step(w, e).0, rest);
        assert(w.batch.items + (seq![metric] + metrics_of(rest)) == w.batch.items.push(metric)
            + metrics_of(rest));
    }
}

/// Lines that are metrics and fill the batch exactly are flushed as one
/// batch, with what the worker held before in front, and leave the batch
/// empty.
pub proof fn lemma_fill_to_flush(w: WorkerView, lines: Seq<EventView>)
    requires
        w.wf(),
        w.phase == Phase::Running,
        all_metrics(lines),
        w.batch.items.len() + lines.len() == w.batch.batch_size,
    ensures
        flushed(w, lines) == seq![w.batch.items + metrics_of(lines)],
        run(w, lines) == w.holding(w.batch.cleared()),
{
    let head = lines.drop_last();
    let e = lines.last();
    let last = seq![e];
    assert(lines == head + last);
    assert(all_metrics(head)) by {
        assert forall|i: int| 0 <= i < head.len() implies metric_of(#[trigger] head[i]) is Some by {
            assert(head[i] == lines[i]);
        }
    }
    assert(metric_of(lines[lines.len() - 1]) is Some);
    let metric = metric_of(e)->0;
    lemma_fill(w, head);
    lemma_run_concat(w, head, last);
    lemma_metrics_of_concat(head, last);
    lemma_metrics_of_len(head);
    let mid = run(w, head);
    assert(metrics_of(last) == seq![metric]) by {
        assert(metrics_of(last.drop_first()) == Seq::<MetricView>::empty());
    }
    let items = mid.batch.items.push(metric);
    assert(flushed(mid, last) == seq![items]) by {
        assert(flushed(step(mid, e).0, last.drop_first()).len() == 0);
    }
    assert(run(mid, last) == mid.holding(mid.batch.cleared())) by {
        assert(run(mid, last) == run(step(mid, e).0, last.drop_first()));
    }
    assert(items == w.batch.items + metrics_of(lines));
}

/// Size-triggered flush: a running worker with an empty batch that gets
/// `k` times the batch size in lines that are metrics, and nothing else,
/// flushes exactly `k` batches. Each is of the batch size, and batch `j`
/// holds the metrics of lines `j * batch_size` up to `(j + 1) * batch_size`,
/// in their order. The worker holds nothing afterwards.
pub proof fn lemma_size_triggered_flush(w: WorkerView, lines: Seq<EventView>, k: nat)
    requires
        w.wf(),
        w.phase == Phase::Running,
        w.batch.items.len() == 0,
        all_metrics(lines),
        lines.len() == k * w.batch.batch_size,
    ensures
        run(w, lines) == w,
        flushed(w, lines).len() == k,
        metrics_of(lines).len() == lines.len(),
        forall|j: int|
            0 <= j < k ==> #[trigger] flushed(w, lines)[j] == metrics_of(lines).subrange(
                j * w.batch.batch_size,
                (j + 1) * w.batch.batch_size,
            ),
    decreases k,
{
    let size = w.batch.batch_size as int;
    lemma_metrics_of_len(lines);
    if k == 0 {
        assert(lines.len() == 0) by (nonlinear_arith)
            requires
                lines.len() == k * w.batch.batch_size,
                k == 0,
        ;
    } else {
        assert(lines.len() == size + (k - 1) * size) by (nonlinear_arith)
            requires
                lines.len() == k * size,
        ;
        assert((k - 1) * size >= 0) by (nonlinear_arith)
            requires
                k >= 1,
                size >= 0,
        ;
        let head = lines.take(size);
        let tail = lines.skip(size);
        assert(lines == head + tail);
        assert(all_metrics(head)) by {
            assert forall|i: int| 0 <= i < head.len() implies metric_of(
                #[trigger] head[i],
            ) is Some by {
                assert(head[i] == lines[i]);
            }
        }
        assert(all_metrics(tail)) by {
            assert forall|i: int| 0 <= i < tail.len() implies metric_of(
                #[trigger] tail[i],
            ) is Some by {
                assert(tail[i] == lines[i + size]);
            }
        }
        lemma_fill_to_flush(w, head);
        assert(w.batch.items == Seq::<MetricView>::empty());
        lemma_size_triggered_flush(w, tail, (k - 1) as nat);
        lemma_run_concat(w, head, tail);
        lemma_metrics_of_concat(head, tail);
        lemma_metrics_of_len(head);
        lemma_metrics_of_len(tail);
        let all = metrics_of(lines);
        let batches = flushed(w, lines);
        assert forall|j: int| 0 <= j < k implies #[trigger] batches[j] == all.subrange(
            j * size,
            (j + 1) * size,
        ) by {
            if j == 0 {
                assert(j * size == 0 && (j + 1) * size == size) by (nonlinear_arith)
                    requires
                        j == 0,
                ;
            } else {
                assert((j - 1) * size + size == j * size && j * size + size == (j + 1) * size
                    && (j - 1) * size >= 0 && (j + 1) * size <= k * size) by (nonlinear_arith)
                    requires
                        1 <= j < k,
                        size >= 0,
                ;
                assert(metrics_of(tail).subrange((j - 1) * size, j * size) == all.subrange(
                    j * size,
                    (j + 1) * size,
                ));
            }
        }
    }
}

/// Time-triggered flush: a running worker with an empty batch that gets one
/// line that is a metric and then a timeout flushes exactly one batch, and
/// that batch holds exactly that metric.
pub proof fn lemma_time_triggered_flush(w: WorkerView, line: EventView)
    requires
        w.wf(),
        w.phase == Phase::Running,
        w.batch.items.len() == 0,
        metric_of(line) is Some,
    ensures
        flushed(w, seq![line, EventView::Timeout]) == seq![seq![metric_of(line)->0]],
        run(w, seq![line, EventView::Timeout]).batch.items.len() == 0,
{
    let events = seq![line, EventView::Timeout];
    let metric = metric_of(line)->0;
    let next = step(w, line).0;
    let rest = events.drop_first();
    let last = step(next, EventView::Timeout).0;
    assert(flushed(last, rest.drop_first()) == Seq::<Seq<MetricView>>::empty());
    assert(run(next, rest) == run(last, rest.drop_first()));
    assert(w.batch.items.push(metric) == seq![metric]);
    if w.batch.batch_size == 1 {
        assert(flushed(w, events) == seq![seq![metric]] + flushed(next, rest));
    } else {
        assert(flushed(next, rest) == seq![seq![metric]] + flushed(last, rest.drop_first()));
    }
}

/// Drain of a partial batch: a running worker with an empty batch that gets
/// fewer lines than the batch size, all of them metrics, and then sees the
/// queue closed, flushes exactly those metrics as one batch before it ends.
/// With no line at all it flushes nothing.
pub proof fn lemma_drain_partial_batch(w: WorkerView, lines: Seq<EventView>)
    requires
        w.wf(),
        w.phase == Phase::Running,
        w.batch.items.len() == 0,
        all_metrics(lines),
        lines.len() < w.batch.batch_size,
    ensures
        run(w, lines + shutdown()).phase == Phase::Terminated,
        metrics_of(lines).len() == lines.len(),
        flushed(w, lines + shutdown()) == if lines.len() > 0 {
            seq![metrics_of(lines)]
        } else {
            Seq::<Seq<MetricView>>::empty()
        },
{
    lemma_fill(w, lines);
    lemma_run_keeps_wf(w, lines);
    lemma_metrics_of_len(lines);
    lemma_shutdown(run(w, lines));
    lemma_run_concat(w, lines, shutdown());
    assert(Seq::<Seq<MetricView>>::empty() + flushed(run(w, lines), shutdown()) == flushed(
        run(w, lines),
        shutdown(),
    ));
}

} // verus!
