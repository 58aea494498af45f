//! The batch that a worker fills between two writes.

use vstd::prelude::*;

use crate::parse::{Metric, MetricView};

verus! {

/// What a sequence of metrics holds, as plain values.
pub open spec fn views(metrics: Seq<Metric>) -> Seq<MetricView> {
    metrics.map_values(|m: Metric| m@)
}

/// A batch in the making, as plain values: the metrics taken in since the
/// last hand-over, oldest first, and the size at which the batch is due.
pub struct BatchView {
    pub items: Seq<MetricView>,
    pub batch_size: nat,
}

impl BatchView {
    /// A batch between two calls is never full: a full one is handed over
    /// by the call that fills it.
    pub open spec fn wf(self) -> bool {
        self.items.len() < self.batch_size
    }

    /// The batch with nothing in it.
    pub open spec fn cleared(self) -> BatchView {
        BatchView { items: Seq::empty(), batch_size: self.batch_size }
    }

    /// Taking in one metric: the batch afterwards, and what is handed over.
    /// The whole batch is handed over when the metric fills it.
    pub open spec fn push(self, metric: MetricView) -> (BatchView, Option<Seq<MetricView>>) {
        let items = self.items.push(metric);
        if items.len() >= self.batch_size {
            (self.cleared(), Some(items))
        } else {
            (BatchView { items, batch_size: self.batch_size }, None)
        }
    }

    /// Handing over whatever is there: the batch afterwards, and what is
    /// handed over. Nothing is handed over where nothing is there.
    pub open spec fn drain(self) -> (BatchView, Option<Seq<MetricView>>) {
        if self.items.len() > 0 {
            (self.cleared(), Some(self.items))
        } else {
            (self, None)
        }
    }
}

/// Collects the metrics of one worker until they are due at the store.
pub struct BatchAccumulator {
    items: Vec<Metric>,
    batch_size: usize,
}

impl View for BatchAccumulator {
    type V = BatchView;

    closed spec fn view(&self) -> BatchView {
        BatchView { items: views(self.items@), batch_size: self.batch_size as nat }
    }
}

impl BatchAccumulator {
    #[verifier::type_invariant]
    spec fn inv(&self) -> bool {
        self.items@.len() < self.batch_size
    }

    /// An empty batch that is due at `batch_size` metrics. There is none
    /// for a size of zero: such a batch could hold nothing.
    pub fn new(batch_size: u16) -> (r: Option<BatchAccumulator>)
        ensures
            r is Some <==> batch_size > 0,
            r matches Some(batch) ==> batch@ == (BatchView {
                items: Seq::empty(),
                batch_size: batch_size as nat,
            }),
    {
        if batch_size == 0 {
            None
        } else {
            let batch = BatchAccumulator {
                items: Vec::with_capacity(batch_size as usize),
                batch_size: batch_size as usize,
            };
            assert(views(batch.items@) == Seq::<MetricView>::empty());
            Some(batch)
        }
    }

    /// The number of metrics that wait in the batch.
    pub fn len(&self) -> (n: usize)
        ensures
            n == self@.items.len(),
            self@.wf(),
    {
        proof {
            use_type_invariant(self);
        }
        self.items.len()
    }

    /// Whether no metric waits in the batch.
    pub fn is_empty(&self) -> (r: bool)
        ensures
            r == (self@.items.len() == 0),
    {
        self.items.len() == 0
    }

    /// The size at which the batch is due.
    pub fn batch_size(&self) -> (n: usize)
        ensures
            n == self@.batch_size,
            n > 0,
    {
        proof {
            use_type_invariant(self);
        }
        self.batch_size
    }

    /// Takes in one metric. Where that fills the batch, the whole batch is
    /// handed over, oldest metric first, and an empty one stays behind.
    pub fn push(&mut self, metric: Metric) -> (due: Option<Vec<Metric>>)
        ensures
            final(self)@ == old(self)@.push(metric@).0,
            match old(self)@.push(metric@).1 {
                Some(items) => due matches Some(batch) && views(batch@) == items,
                None => due is None,
            },
    {
        proof {
            use_type_invariant(&*self);
        }
        let ghost before = self.items@;
        let mut items: Vec<Metric> = Vec::new();
        std::mem::swap(&mut self.items, &mut items);
        items.push(metric);
        assert(views(items@) == views(before).push(metric@));
        if items.len() >= self.batch_size {
            self.items = Vec::with_capacity(self.batch_size);
            assert(views(self.items@) == Seq::<MetricView>::empty());
            Some(items)
        } else {
            self.items = items;
            None
        }
    }

    /// Hands over whatever waits in the batch, oldest metric first, and
    /// leaves an empty batch behind. Hands over nothing where nothing waits.
    pub fn drain(&mut self) -> (due: Option<Vec<Metric>>)
        ensures
            final(self)@ == old(self)@.drain().0,
            match old(self)@.drain().1 {
                Some(items) => due matches Some(batch) && views(batch@) == items,
                None => due is None,
            },
    {
        proof {
            use_type_invariant(&*self);
        }
        if self.items.len() == 0 {
            None
        } else {
            let mut batch: Vec<Metric> = Vec::with_capacity(self.batch_size);
            std::mem::swap(&mut self.items, &mut batch);
            assert(views(self.items@) == Seq::<MetricView>::empty());
            Some(batch)
        }
    }
}

} // verus!
