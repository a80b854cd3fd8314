//! What a runner asks of an e-graph.

use vstd::prelude::*;

verus! {

/// The name of a rewrite rule.
pub type Symbol = String;

/// The identifier of an e-class.
pub type Id = u32;

/// A named rewrite rule. The e-graph knows how to search for it and how to
/// apply it; everything else goes by the name.
#[derive(Debug, Clone)]
pub struct Rewrite<R> {
    /// The name that reports and schedulers use.
    pub name: Symbol,
    /// The rule itself.
    pub rule: R,
}

/// The matches of one rule in one e-class.
#[derive(Debug, Clone)]
pub struct SearchMatches<T> {
    /// The e-class that matched.
    pub eclass: Id,
    /// The substitutions under which it matched.
    pub substs: Vec<T>,
}

/// What a runner observes of the process that it runs in.
///
/// An observation may change what is observed next, so both methods take `&mut
/// self`. What an observation does is up to the implementation, which may say so in
/// [`Probe::tells`] and [`Probe::samples`]. Nothing is assumed of these two, so what
/// is proved of a runner holds for every clock and every heap.
pub trait Probe: Sized {
    /// Reading the clock can give `now` and leave `after`. By default it may give and
    /// leave anything.
    open spec fn tells(before: Self, now: u64, after: Self) -> bool {
        true
    }

    /// Sampling the heap can give `reading` and leave `after`. By default it may give
    /// and leave anything.
    open spec fn samples(before: Self, reading: u64, after: Self) -> bool {
        true
    }

    /// The time on a clock that runs forward, in nanoseconds.
    fn now(&mut self) -> (r: u64)
        ensures
            Self::tells(*old(self), r, *final(self)),
    ;

    /// The process's current live heap in bytes.
    fn live_heap(&mut self) -> (r: u64)
        ensures
            Self::samples(*old(self), r, *final(self)),
    ;
}

/// The process in which time stands still and nothing is on the heap.
impl Probe for () {
    open spec fn tells(before: Self, now: u64, after: Self) -> bool {
        now == 0
    }

    open spec fn samples(before: Self, reading: u64, after: Self) -> bool {
        reading == 0
    }

    fn now(&mut self) -> (r: u64) {
        0
    }

    fn live_heap(&mut self) -> (r: u64) {
        0
    }
}

/// An e-graph under equality saturation.
///
/// A runner only drives the e-graph. Nothing is promised of what these
/// methods do or return, so what is proved of a runner holds for every e-graph.
pub trait EGraph: Sized {
    /// The process that runs over such e-graphs observe.
    type Probe: Probe;

    /// The analysis that an e-graph is made with.
    type Analysis;

    /// An expression that can be added.
    type Expr;

    /// A pattern that an expression can be matched against.
    type Pattern;

    /// A rewrite rule.
    type Rule;

    /// A substitution for the variables of a rule.
    type Subst;

    /// A proof that two expressions are equal.
    type Explanation;

    /// An empty e-graph.
    fn new(analysis: Self::Analysis) -> Self;

    /// Adds an expression and returns its e-class.
    fn add_expr(&mut self, expr: &Self::Expr) -> Id;

    /// The number of e-nodes that the e-graph has hash-consed.
    fn total_size(&self) -> usize;

    /// The number of e-nodes in all e-classes.
    fn total_number_of_nodes(&self) -> usize;

    /// The number of e-classes.
    fn number_of_classes(&self) -> usize;

    /// Restores the e-graph's invariants and returns the number of rounds that
    /// this took.
    fn rebuild(&mut self) -> usize;

    /// All matches of a rule.
    fn search(&self, rule: &Self::Rule) -> Vec<SearchMatches<Self::Subst>>;

    /// Matches of a rule, where the search may stop at `limit` substitutions.
    fn search_with_limit(&self, rule: &Self::Rule, limit: usize) -> Vec<SearchMatches<Self::Subst>>;

    /// Applies a rule at its matches and returns the e-classes that changed.
    fn apply(&mut self, rule: &Self::Rule, matches: &Vec<SearchMatches<Self::Subst>>) -> Vec<Id>;

    /// The same e-graph, recording explanations.
    fn with_explanations_enabled(self) -> Self;

    /// The same e-graph, not recording explanations.
    fn with_explanations_disabled(self) -> Self;

    /// The same e-graph, shortening explanations.
    fn with_explanation_length_optimization(self) -> Self;

    /// The same e-graph, not shortening explanations.
    fn without_explanation_length_optimization(self) -> Self;

    /// Why two expressions are equal.
    fn explain_equivalence(&mut self, left: &Self::Expr, right: &Self::Expr) -> Self::Explanation;

    /// Why an expression matches a pattern.
    fn explain_matches(
        &mut self,
        left: &Self::Expr,
        right: &Self::Pattern,
        subst: &Self::Subst,
    ) -> Self::Explanation;
}

/// The number of substitutions in a list of matches.
pub open spec fn total_substs<T>(matches: Seq<SearchMatches<T>>) -> nat
    decreases matches.len(),
{
    if matches.len() == 0 {
        0
    } else {
        total_substs(matches.drop_last()) + matches.last().substs@.len()
    }
}

/// Matches further on only add substitutions.
proof fn lemma_total_substs_grows<T>(matches: Seq<SearchMatches<T>>, n: int)
    requires
        0 <= n <= matches.len(),
    ensures
        total_substs(matches.take(n)) <= total_substs(matches),
    decreases matches.len(),
{
    if n < matches.len() {
        lemma_total_substs_grows(matches.drop_last(), n);
        assert(matches.drop_last().take(n) =~= matches.take(n));
    } else {
        assert(matches.take(n) =~= matches);
    }
}

/// Whether the matches hold more than `threshold` substitutions.
pub fn more_substs_than<T>(matches: &Vec<SearchMatches<T>>, threshold: usize) -> (r: bool)
    ensures
        r == (total_substs(matches@) > threshold),
{
    let mut total: usize = 0;
    let mut i: usize = 0;
    while i < matches.len()
        invariant
            i <= matches.len(),
            total == total_substs(matches@.take(i as int)),
        decreases matches.len() - i,
    {
        proof {
            assert(matches@.take(i + 1).drop_last() =~= matches@.take(i as int));
            lemma_total_substs_grows(matches@, i + 1);
        }
        match total.checked_add(matches[i].substs.len()) {
            Some(sum) => {
                total = sum;
            },
            None => {
                return true;
            },
        }
        i += 1;
    }
    assert(matches@.take(i as int) =~= matches@);
    total > threshold
}

} // verus!
