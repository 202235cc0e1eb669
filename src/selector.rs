//! Fallback selection: transports are probed in ascending order of their
//! ordinal and the first one found usable carries the transfer. A transfer
//! that then fails is reported as it is; the next transport is not tried.
use vstd::prelude::*;
use crate::transport::{TransportKind, TransportDescriptor, TransportTable, table_ordered};

verus! {

/// What the caller does next while a transport is being chosen.
#[derive(Clone, Copy, Debug, PartialEq, Eq, Structural)]
pub enum SelectStep {
    /// Run the availability probe of this transport and record its answer.
    Probe(TransportKind),
    /// Carry the transfer over this transport.
    Use(TransportKind),
    /// Every probe said no: the transfer fails with no transport available,
    /// and no connection is attempted.
    Exhausted,
}

/// The step that follows the probe answers `results`, given to the
/// transports of `table` in order.
pub open spec fn step_after(table: Seq<TransportDescriptor>, results: Seq<bool>) -> SelectStep {
    if results.len() > 0 && results.last() {
        SelectStep::Use(table[results.len() - 1].kind)
    } else if results.len() < table.len() {
        SelectStep::Probe(table[results.len() as int].kind)
    } else {
        SelectStep::Exhausted
    }
}

/// One choice of transport, driven by probe answers.
pub struct Selection {
    results: Vec<bool>,
}

impl View for Selection {
    type V = Seq<bool>;

    /// The probe answers recorded so far, in the table's order.
    closed spec fn view(&self) -> Seq<bool> {
        self.results@
    }
}

impl Selection {
    /// The answers fit the table and only the last may be a yes.
    pub open spec fn wf_for(&self, table: Seq<TransportDescriptor>) -> bool {
        &&& self@.len() <= table.len()
        &&& forall|i: int| 0 <= i < self@.len() - 1 ==> !#[trigger] self@[i]
    }

    /// A choice with no probe run yet.
    pub fn new() -> (r: Selection)
        ensures
            r@ == Seq::<bool>::empty(),
    {
        Selection { results: Vec::new() }
    }

    /// What to do next.
    pub fn next_step(&self, table: &TransportTable) -> (r: SelectStep)
        requires
            self.wf_for(table@),
        ensures
            r == step_after(table@, self@),
    {
        let n = self.results.len();
        if n > 0 && self.results[n - 1] {
            SelectStep::Use(table.get(n - 1).kind)
        } else if n < table.len() {
            SelectStep::Probe(table.get(n).kind)
        } else {
            SelectStep::Exhausted
        }
    }

    /// Records the answer of the probe that the last step asked for.
    pub fn record(&mut self, table: &TransportTable, available: bool)
        requires
            old(self).wf_for(table@),
            step_after(table@, old(self)@) is Probe,
        ensures
            final(self).wf_for(table@),
            final(self)@ == old(self)@.push(available),
    {
        self.results.push(available);
    }
}

/// Probing in the table's order picks the available transport with the
/// lowest ordinal, after probing exactly the transports before it, and no
/// other; where no transport is available every one is probed and none is
/// used. Here `avail[i]` is the answer of the probe of `table[i]`, and the
/// answers recorded after `n` probes are `avail.take(n)`.
pub proof fn lemma_selection_follows_priority(
    table: Seq<TransportDescriptor>,
    avail: Seq<bool>,
)
    requires
        table_ordered(table),
        avail.len() == table.len(),
    ensures
        forall|i: int|
            0 <= i < table.len() && #[trigger] avail[i] && (forall|j: int|
                0 <= j < table.len() && avail[j] ==> table[i].priority <= table[j].priority) ==> {
                &&& forall|n: int|
                    0 <= n <= i ==> step_after(table, #[trigger] avail.take(n)) == SelectStep::Probe(
                        table[n].kind,
                    )
                &&& step_after(table, avail.take(i + 1)) == SelectStep::Use(table[i].kind)
            },
        (forall|j: int| 0 <= j < table.len() ==> !avail[j]) ==> {
            &&& forall|n: int|
                0 <= n < table.len() ==> step_after(table, #[trigger] avail.take(n))
                    == SelectStep::Probe(table[n].kind)
            &&& step_after(table, avail) == SelectStep::Exhausted
        },
{
    assert forall|i: int|
        0 <= i < table.len() && #[trigger] avail[i] && (forall|j: int|
            0 <= j < table.len() && avail[j] ==> table[i].priority <= table[j].priority) implies {
        &&& forall|n: int|
            0 <= n <= i ==> step_after(table, #[trigger] avail.take(n)) == SelectStep::Probe(
                table[n].kind,
            )
        &&& step_after(table, avail.take(i + 1)) == SelectStep::Use(table[i].kind)
    } by {
        assert forall|n: int| 0 <= n <= i implies step_after(table, #[trigger] avail.take(n))
            == SelectStep::Probe(table[n].kind) by {
            if n > 0 {
                let k = n - 1;
                assert(avail.take(n).last() == avail[k]);
                if avail[k] {
                    assert(table[k].priority < table[i].priority);
                }
            }
        }
        assert(avail.take(i + 1).last() == avail[i]);
    }
    if forall|j: int| 0 <= j < table.len() ==> !avail[j] {
        assert forall|n: int| 0 <= n < table.len() implies step_after(table, #[trigger] avail.take(n))
            == SelectStep::Probe(table[n].kind) by {
            if n > 0 {
                assert(avail.take(n).last() == avail[n - 1]);
            }
        }
        if avail.len() > 0 {
            assert(!avail[avail.len() - 1]);
        }
    }
}

} // verus!
