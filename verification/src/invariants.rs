//! Invariants of graphs: predicates that a caller keeps beside a graph and
//! checks on demand.
//!
//! A graph does not hold its invariants. A graph that an operation returns
//! comes without any; the caller checks it against the list it holds.

use crate::composition::{CompositionError, GraphComposition};
use crate::text::{decimal, decimal_text, join3};
use vstd::prelude::*;

verus! {

/// An ordered list of predicates over graphs.
pub struct InvariantSet<F> {
    pub predicates: Vec<F>,
}

impl<F> View for InvariantSet<F> {
    type V = Seq<F>;

    open spec fn view(&self) -> Seq<F> {
        self.predicates@
    }
}

/// The message that names the invariant at position `index` as the one that
/// failed.
pub open spec fn violation_message(index: nat) -> Seq<char> {
    "Invariant "@ + decimal_text(index) + " failed"@
}

impl<F> InvariantSet<F> {
    /// The empty list.
    pub fn new() -> (invariants: Self)
        ensures
            invariants@ == Seq::<F>::empty(),
    {
        InvariantSet { predicates: Vec::new() }
    }

    /// The list with `predicate` at its end.
    pub fn with_invariant(self, predicate: F) -> (invariants: Self)
        ensures
            invariants@ == self@.push(predicate),
    {
        let mut predicates = self.predicates;
        predicates.push(predicate);
        InvariantSet { predicates }
    }

    /// The number of predicates.
    pub fn len(&self) -> (n: usize)
        ensures
            n == self@.len(),
    {
        self.predicates.len()
    }

    /// Whether the predicate at `index` can answer `false` on `graph` and
    /// every predicate before it can answer `true`.
    pub open spec fn fails_first_at<N, R>(
        self,
        graph: &GraphComposition<N, R>,
        index: int,
    ) -> bool where F: Fn(&GraphComposition<N, R>) -> bool {
        &&& 0 <= index < self@.len()
        &&& call_ensures(self@[index], (graph,), false)
        &&& forall|j: int| 0 <= j < index ==> call_ensures(#[trigger] self@[j], (graph,), true)
    }
}

impl<N, R> GraphComposition<N, R> {
    /// Evaluates the predicates on the graph in their order. The result is the
    /// violation that names the first predicate that answers `false`, by its
    /// position, and `Ok` where none does. An empty list gives `Ok`.
    pub fn check_invariants<F>(&self, invariants: &InvariantSet<F>) -> (checked: Result<
        (),
        CompositionError,
    >) where F: Fn(&GraphComposition<N, R>) -> bool
        requires
            forall|i: int|
                0 <= i < invariants@.len() ==> call_requires(#[trigger] invariants@[i], (self,)),
        ensures
            invariants@.len() == 0 ==> checked is Ok,
            checked is Ok ==> forall|i: int|
                0 <= i < invariants@.len() ==> call_ensures(
                    #[trigger] invariants@[i],
                    (self,),
                    true,
                ),
            checked matches Err(error) ==> exists|i: int|
                {
                    &&& #[trigger] invariants.fails_first_at(self, i)
                    &&& error matches CompositionError::InvariantViolation(message)
                    &&& message@ == violation_message(i as nat)
                },
    {
        let mut i: usize = 0;
        while i < invariants.predicates.len()
            invariant
                i <= invariants@.len(),
                forall|j: int|
                    0 <= j < invariants@.len() ==> call_requires(
                        #[trigger] invariants@[j],
                        (self,),
                    ),
                forall|j: int|
                    0 <= j < i ==> call_ensures(#[trigger] invariants@[j], (self,), true),
            decreases invariants@.len() - i,
        {
            assert(call_requires(invariants@[i as int], (self,)));
            let holds = (invariants.predicates[i])(self);
            if !holds {
                let index = decimal(i);
                let message = join3("Invariant ", index.as_str(), " failed");
                assert(invariants.fails_first_at(self, i as int));
                return Err(CompositionError::InvariantViolation(message));
            }
            i += 1;
        }
        Ok(())
    }
}

} // verus!
