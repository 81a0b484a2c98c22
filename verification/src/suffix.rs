//! Sources of the suffixes that fresh names end in.

use crate::counter::{decimal, lemma_decimal_injective, Counter};
use vstd::prelude::*;

verus! {

/// A source of suffixes that never runs dry and never gives the same suffix twice.
///
/// A source is a fixed naming of the natural numbers together with a position: each
/// call of [`SuffixIter::next`] gives the suffix at the position and moves the
/// position on by one.
pub trait SuffixIter {
    /// The suffix that stands at each position. It does not change as suffixes are
    /// drawn.
    spec fn names(&self) -> spec_fn(nat) -> Seq<char>;

    /// The position of the suffix that is drawn next.
    spec fn position(&self) -> nat;

    /// The invariant of the source.
    spec fn wf(&self) -> bool;

    /// Draws the next suffix.
    fn next(&mut self) -> (suffix: String)
        requires
            old(self).wf(),
        ensures
            final(self).wf(),
            suffix@ == (old(self).names())(old(self).position()),
            final(self).position() == old(self).position() + 1,
            final(self).names() == old(self).names(),
    ;

    /// Different positions hold different suffixes.
    proof fn lemma_names_distinct(&self, a: nat, b: nat)
        requires
            self.wf(),
            (self.names())(a) == (self.names())(b),
        ensures
            a == b,
    ;
}

/// The naming of the positions by their decimal text: `0`, `1`, `2` and so on.
pub open spec fn decimal_suffixes() -> spec_fn(nat) -> Seq<char> {
    |n: nat| decimal(n)
}

/// The suffixes `0`, `1`, `2` and so on.
pub struct SimpleSuffixIter {
    counter: Counter,
}

impl SimpleSuffixIter {
    /// The number that the next suffix is the decimal text of.
    pub closed spec fn count(&self) -> nat {
        self.counter.value()
    }
}

impl SuffixIter for SimpleSuffixIter {
    open spec fn names(&self) -> spec_fn(nat) -> Seq<char> {
        decimal_suffixes()
    }

    open spec fn position(&self) -> nat {
        self.count()
    }

    closed spec fn wf(&self) -> bool {
        self.counter.wf()
    }

    fn next(&mut self) -> (suffix: String) {
        let suffix = self.counter.to_text();
        self.counter.increment();
        suffix
    }

    proof fn lemma_names_distinct(&self, a: nat, b: nat) {
        lemma_decimal_injective(a, b);
    }
}

/// A source of the suffixes `0`, `1`, `2` and so on, starting at `0`.
pub fn simple_suffix_iter_factory() -> (suffix_iter: SimpleSuffixIter)
    ensures
        suffix_iter.wf(),
        suffix_iter.position() == 0,
{
    SimpleSuffixIter { counter: Counter::new() }
}

} // verus!
