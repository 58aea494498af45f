//! The decisions of one ingestion worker.
//!
//! A worker connects to the store, then takes lines from the queue, reads
//! each as a metric and collects the metrics in a batch. It hands the batch
//! to the store when the batch is full, when the queue stays silent for a
//! poll interval, and when the queue is closed. The worker here does none
//! of the waiting and writing itself: it is told what happened, as an
//! [`Event`], and answers what to do next, as an [`Action`].

use crossbeam_channel::Receiver;
use vstd::prelude::*;
use vstd::string::*;

use crate::batch::{views, BatchAccumulator, BatchView};
use crate::parse::{
    convert_value, converted, parsed, value_view, Metric, MetricParseError, MetricView,
    ParseError,
};
use crate::queue::{recv_line, Polled};
use crate::text::{decimal, decimal_string};

verus! {

/// Where a worker stands in its life.
#[derive(Clone, Copy, Debug, PartialEq, Eq, Structural)]
pub enum Phase {
    /// The connection to the store is not made yet.
    Connecting,
    /// Lines are taken from the queue.
    Running,
    /// The queue is closed; the last batch is on its way to the store.
    Draining,
    /// The worker has ended.
    Terminated,
}

/// What happened since the worker's last answer.
#[derive(Clone, Debug, PartialEq, Eq)]
pub enum Event {
    /// The connection to the store stands.
    Connected,
    /// The connection to the store could not be made.
    ConnectFailed,
    /// A line came off the queue. `value` is what converting the second
    /// field of `text` gave: the binary64 bit pattern of the number
    /// together with its decimal numeral, or `None` where the field is
    /// missing or is no number.
    Line { text: String, value: Option<(u64, String)> },
    /// The queue stayed empty for a whole poll interval.
    Timeout,
    /// The queue is empty and every sender is gone.
    Closed,
    /// The write that the last `Flush` asked for has ended, well or badly.
    Flushed,
}

/// An [`Event`] as plain values.
pub enum EventView {
    Connected,
    ConnectFailed,
    Line { text: Seq<char>, value: Option<(u64, Seq<char>)> },
    Timeout,
    Closed,
    Flushed,
}

impl View for Event {
    type V = EventView;

    open spec fn view(&self) -> EventView {
        match self {
            Event::Connected => EventView::Connected,
            Event::ConnectFailed => EventView::ConnectFailed,
            Event::Line { text, value } => EventView::Line {
                text: text@,
                value: value_view(*value),
            },
            Event::Timeout => EventView::Timeout,
            Event::Closed => EventView::Closed,
            Event::Flushed => EventView::Flushed,
        }
    }
}

/// What the worker's caller is to do next.
#[derive(Clone, Debug, PartialEq, Eq)]
pub enum Action {
    /// Connect to the store and report `Connected` or `ConnectFailed`.
    Connect,
    /// Wait on the queue for one poll interval and report what came.
    Poll,
    /// Write this batch to the store, in this order, then report `Flushed`.
    /// The batch is the caller's now: the worker keeps none of it, whatever
    /// becomes of the write.
    Flush(Vec<Metric>),
    /// The line was no metric and is dropped. Go on as after `Poll`.
    Discard(MetricParseError),
    /// Stop: the worker has ended.
    Exit,
}

/// An [`Action`] as plain values.
pub enum ActionView {
    Connect,
    Poll,
    Flush(Seq<MetricView>),
    Discard(ParseError),
    Exit,
}

impl View for Action {
    type V = ActionView;

    open spec fn view(&self) -> ActionView {
        match self {
            Action::Connect => ActionView::Connect,
            Action::Poll => ActionView::Poll,
            Action::Flush(batch) => ActionView::Flush(views(batch@)),
            Action::Discard(e) => ActionView::Discard(e.kind),
            Action::Exit => ActionView::Exit,
        }
    }
}

/// A worker as plain values.
pub struct WorkerView {
    pub phase: Phase,
    pub batch: BatchView,
}

impl WorkerView {
    /// The batch is never full between two events, and only a running
    /// worker holds metrics.
    pub open spec fn wf(self) -> bool {
        &&& self.batch.wf()
        &&& self.phase != Phase::Running ==> self.batch.items.len() == 0
    }

    /// The same worker in another phase.
    pub open spec fn at(self, phase: Phase) -> WorkerView {
        WorkerView { phase, batch: self.batch }
    }

    /// The same worker with another batch.
    pub open spec fn holding(self, batch: BatchView) -> WorkerView {
        WorkerView { phase: self.phase, batch }
    }
}

/// The worker after an event, and its answer.
///
/// While connecting, only the outcome of the connection counts. While
/// running, a line that is a metric goes into the batch, and the batch is
/// flushed when that fills it; a line that is no metric is discarded and
/// leaves the batch as it was; a timeout flushes a batch that holds
/// anything; the closing of the queue flushes a batch that holds anything
/// and ends the worker once that write is reported, or at once where the
/// batch is empty.
pub open spec fn step(w: WorkerView, e: EventView) -> (WorkerView, ActionView) {
    match w.phase {
        Phase::Connecting => match e {
            EventView::Connected => (w.at(Phase::Running), ActionView::Poll),
            EventView::ConnectFailed => (w.at(Phase::Terminated), ActionView::Exit),
            _ => (w, ActionView::Connect),
        },
        Phase::Running => match e {
            EventView::Line { text, value } => match parsed(text, value) {
                Ok(metric) => match w.batch.push(metric) {
                    (batch, Some(items)) => (w.holding(batch), ActionView::Flush(items)),
                    (batch, None) => (w.holding(batch), ActionView::Poll),
                },
                Err(kind) => (w, ActionView::Discard(kind)),
            },
            EventView::Timeout => match w.batch.drain() {
                (batch, Some(items)) => (w.holding(batch), ActionView::Flush(items)),
                (batch, None) => (w, ActionView::Poll),
            },
            EventView::Closed => match w.batch.drain() {
                (batch, Some(items)) => (
                    w.holding(batch).at(Phase::Draining),
                    ActionView::Flush(items),
                ),
                (batch, None) => (w.at(Phase::Terminated), ActionView::Exit),
            },
            _ => (w, ActionView::Poll),
        },
        Phase::Draining => (w.at(Phase::Terminated), ActionView::Exit),
        Phase::Terminated => (w, ActionView::Exit),
    }
}

/// The name of the thread that runs worker `index`.
pub open spec fn thread_name_of(index: nat) -> Seq<char> {
    "worker-thread-"@ + decimal(index)
}

/// Names the thread that runs worker `index`.
pub fn thread_name(index: usize) -> (name: String)
    ensures
        name@ == thread_name_of(index as nat),
{
    let mut name = "worker-thread-".to_owned();
    let digits = decimal_string(index as u64);
    name.append(digits.as_str());
    name
}

/// Tells whether the relay is to give up: `failed` of its `workers` workers
/// could not connect to the store, and that is all of them. A relay
/// without workers can only give up.
pub fn none_connected(failed: usize, workers: u8) -> (r: bool)
    ensures
        r == (failed >= workers as usize),
{
    failed >= workers as usize
}

/// The event that a wait on the queue stands for, once the value field of
/// a line is converted to `value`.
pub open spec fn event_of(polled: Polled, value: Option<(u64, String)>) -> EventView {
    match polled {
        Polled::Line(text) => EventView::Line { text: text@, value: value_view(value) },
        Polled::Timeout => EventView::Timeout,
        Polled::Closed => EventView::Closed,
    }
}

/// One ingestion worker: its phase and the batch it fills.
pub struct Worker {
    phase: Phase,
    batch: BatchAccumulator,
}

impl View for Worker {
    type V = WorkerView;

    closed spec fn view(&self) -> WorkerView {
        WorkerView { phase: self.phase, batch: self.batch@ }
    }
}

impl Worker {
    /// A worker that has yet to connect, with an empty batch that is due at
    /// `batch_size` metrics. There is none for a size of zero.
    pub fn new(batch_size: u16) -> (r: Option<Worker>)
        ensures
            r is Some <==> batch_size > 0,
            r matches Some(worker) ==> {
                &&& worker@.phase == Phase::Connecting
                &&& worker@.batch.items == Seq::<MetricView>::empty()
                &&& worker@.batch.batch_size == batch_size
                &&& worker@.wf()
            },
    {
        match BatchAccumulator::new(batch_size) {
            Some(batch) => Some(Worker { phase: Phase::Connecting, batch }),
            None => None,
        }
    }

    /// The phase the worker is in.
    pub fn phase(&self) -> (phase: Phase)
        ensures
            phase == self@.phase,
    {
        self.phase
    }

    /// The number of metrics that wait in the batch. It stays below the
    /// batch size.
    pub fn pending(&self) -> (n: usize)
        ensures
            n == self@.batch.items.len(),
            n < self@.batch.batch_size,
    {
        self.batch.len()
    }

    /// Waits on the queue and lets the worker act on what came.
    ///
    /// A running worker waits on `queue` for at most `wait_ms` milliseconds
    /// and acts on what the wait brought, as [`Worker::on_polled`] says. In
    /// any other phase the worker takes nothing from the queue and answers
    /// at once, as it does to `Flushed`.
    pub fn poll<F: Fn(&str) -> Option<(u64, String)>>(
        &mut self,
        queue: &Receiver<String>,
        wait_ms: u64,
        convert: F,
    ) -> (action: Action)
        requires
            forall|field: &str| call_requires(convert, (field,)),
        ensures
            old(self)@.phase != Phase::Running ==> (final(self)@, action@) == step(
                old(self)@,
                EventView::Flushed,
            ),
            old(self)@.phase == Phase::Running ==> exists|
                polled: Polled,
                value: Option<(u64, String)>,
            |
                {
                    &&& polled matches Polled::Line(text) ==> converted(convert, text@, value)
                    &&& (final(self)@, action@) == #[trigger] step(
                        old(self)@,
                        event_of(polled, value),
                    )
                },
            action matches Action::Discard(e) ==> e.wf(),
    {
        if !matches!(self.phase, Phase::Running) {
            return self.on_event(Event::Flushed);
        }
        let polled = recv_line(queue, wait_ms);
        let ghost brought = polled;
        let action = self.on_polled(polled, convert);
        proof {
            if brought is Line {
                let value = choose|value: Option<(u64, String)>|
                    converted(convert, brought->0@, value) && (self@, action@) == #[trigger] step(
                        old(self)@,
                        event_of(brought, value),
                    );
                assert((self@, action@) == step(old(self)@, event_of(brought, value)));
            } else {
                assert((self@, action@) == step(old(self)@, event_of(brought, None)));
            }
        }
        action
    }

    /// Lets the worker act on what a wait on the queue brought: a line is
    /// taken as a `Line` event, with its value field converted by
    /// `convert`; a timeout as `Timeout`; the closing of the queue as
    /// `Closed`.
    pub fn on_polled<F: Fn(&str) -> Option<(u64, String)>>(
        &mut self,
        polled: Polled,
        convert: F,
    ) -> (action: Action)
        requires
            forall|field: &str| call_requires(convert, (field,)),
        ensures
            match polled {
                Polled::Line(text) => exists|value: Option<(u64, String)>|
                    converted(convert, text@, value) && (final(self)@, action@) == #[trigger] step(
                        old(self)@,
                        event_of(polled, value),
                    ),
                Polled::Timeout => (final(self)@, action@) == step(old(self)@, EventView::Timeout),
                Polled::Closed => (final(self)@, action@) == step(old(self)@, EventView::Closed),
            },
            action matches Action::Discard(e) ==> e.wf(),
    {
        match polled {
            Polled::Line(text) => {
                let value = convert_value(text.as_str(), convert);
                let ghost taken = event_of(Polled::Line(text), value);
                let action = self.on_event(Event::Line { text, value });
                assert((self@, action@) == step(old(self)@, taken));
                action
            },
            Polled::Timeout => self.on_event(Event::Timeout),
            Polled::Closed => self.on_event(Event::Closed),
        }
    }

    /// Tells the worker what happened and returns what to do next.
    pub fn on_event(&mut self, event: Event) -> (action: Action)
        ensures
            (final(self)@, action@) == step(old(self)@, event@),
            action matches Action::Discard(e) ==> e.wf(),
    {
        match self.phase {
            Phase::Connecting => match event {
                Event::Connected => {
                    self.phase = Phase::Running;
                    Action::Poll
                },
                Event::ConnectFailed => {
                    self.phase = Phase::Terminated;
                    Action::Exit
                },
                _ => Action::Connect,
            },
            Phase::Running => match event {
                Event::Line { text, value } => match Metric::from_str(text.as_str(), value) {
                    Ok(metric) => match self.batch.push(metric) {
                        Some(batch) => Action::Flush(batch),
                        None => Action::Poll,
                    },
                    Err(e) => Action::Discard(e),
                },
                Event::Timeout => match self.batch.drain() {
                    Some(batch) => Action::Flush(batch),
                    None => Action::Poll,
                },
                Event::Closed => match self.batch.drain() {
                    Some(batch) => {
                        self.phase = Phase::Draining;
                        Action::Flush(batch)
                    },
                    None => {
                        self.phase = Phase::Terminated;
                        Action::Exit
                    },
                },
                _ => Action::Poll,
            },
            Phase::Draining => {
                self.phase = Phase::Terminated;
                Action::Exit
            },
            Phase::Terminated => Action::Exit,
        }
    }
}

} // verus!
