//! What a search hands on, rule by rule, and what an application applies.

use vstd::prelude::*;
use crate::backoff::{doubled, BackoffModel, BackoffScheduler, RuleStats};
use crate::egraph::{total_substs, EGraph, Id, Probe, Rewrite, SearchMatches, Symbol};
use crate::laws::backoff::law_rule_is_read_back;
use crate::laws::checking::{attributed, law_boundary_check, Seen};
use crate::laws::runs::search_trace;
use crate::laws::scheduling::is_total;
use crate::limits::{LimitsModel, RunnerLimits, RunnerResult};
use crate::maps::distinct_keys;
use crate::memory::MemorySamplePhase;
use crate::scheduler::{searched_in_turn, RewriteScheduler, SearchTrace, SimpleScheduler};
use crate::sums::capped;

verus! {

/// What becomes of a rule and of what a search of it found in an iteration. More than
/// the rule's threshold gets the rule banned, from this iteration on for its ban
/// length, and nothing is handed on. Anything else is handed on.
pub open spec fn banned_or_used<T>(
    rule: RuleStats,
    iteration: usize,
    found: Seq<SearchMatches<T>>,
    handed: Seq<SearchMatches<T>>,
    after: RuleStats,
) -> bool {
    &&& after.match_limit == rule.match_limit
    &&& after.ban_length == rule.ban_length
    &&& if total_substs(found) > doubled(rule.match_limit, rule.times_banned) {
        &&& handed.len() == 0
        &&& after.times_applied == rule.times_applied
        &&& is_total(rule.times_banned + 1, after.times_banned)
        &&& is_total(iteration + doubled(rule.ban_length, rule.times_banned), after.banned_until)
    } else {
        &&& handed == found
        &&& is_total(rule.times_applied + 1, after.times_applied)
        &&& after.times_banned == rule.times_banned
        &&& after.banned_until == rule.banned_until
    }
}

/// What a search for a rewrite in an iteration does to its rule and hands on. A rule
/// that has to wait is not searched. Any other rule is, up to one more than its
/// threshold.
pub open spec fn skipped_or_searched<G: EGraph>(
    rule: RuleStats,
    iteration: usize,
    egraph: G,
    rewrite: Rewrite<G::Rule>,
    handed: Seq<SearchMatches<G::Subst>>,
    after: RuleStats,
) -> bool {
    if iteration < rule.banned_until {
        handed.len() == 0 && after == rule
    } else {
        exists|found: Vec<SearchMatches<G::Subst>>| #[trigger]
            call_ensures(
                G::search_with_limit,
                (
                    &egraph,
                    &rewrite.rule,
                    capped(doubled(rule.match_limit, rule.times_banned) + 1),
                ),
                found,
            ) && banned_or_used(rule, iteration, found@, handed, after)
    }
}

/// What was found is taken rightly, and no other rule changes.
pub proof fn law_record_search<T>(
    scheduler: &mut BackoffScheduler,
    iteration: usize,
    name: Symbol,
    found: Vec<SearchMatches<T>>,
    handed: Vec<SearchMatches<T>>,
    other: Seq<char>,
)
    requires
        distinct_keys(old(scheduler)@.stats),
        call_ensures(
            BackoffScheduler::record_search::<T>,
            (scheduler, iteration, name, found),
            handed,
        ),
    ensures
        banned_or_used(
            old(scheduler)@.rule(name@),
            iteration,
            found@,
            handed@,
            final(scheduler)@.rule(name@),
        ),
        other != name@ ==> final(scheduler)@.rule(other) == old(scheduler)@.rule(other),
        final(scheduler)@.default_match_limit == old(scheduler)@.default_match_limit,
        final(scheduler)@.default_ban_length == old(scheduler)@.default_ban_length,
        distinct_keys(final(scheduler)@.stats),
{
    lemma_taken(old(scheduler)@, iteration, name@, found, final(scheduler)@, handed, other);
}

/// What was found is taken rightly, and no other rule changes.
proof fn lemma_taken<T>(
    before: BackoffModel,
    iteration: usize,
    name: Seq<char>,
    found: Vec<SearchMatches<T>>,
    after: BackoffModel,
    handed: Vec<SearchMatches<T>>,
    other: Seq<char>,
)
    requires
        distinct_keys(before.stats),
        before.takes(iteration, name, found, after, handed),
    ensures
        banned_or_used(before.rule(name), iteration, found@, handed@, after.rule(name)),
        other != name ==> after.rule(other) == before.rule(other),
        after.default_match_limit == before.default_match_limit,
        after.default_ban_length == before.default_ban_length,
        distinct_keys(after.stats),
{
    law_rule_is_read_back(
        before,
        name,
        before.rule(name).after_search(iteration, total_substs(found@)),
        other,
    );
}

/// A search for one rewrite searches or skips its rule rightly, and no other rule
/// changes.
pub proof fn law_backoff_search_rewrite<G: EGraph>(
    scheduler: &mut BackoffScheduler,
    iteration: usize,
    egraph: &G,
    rewrite: &Rewrite<G::Rule>,
    handed: Vec<SearchMatches<G::Subst>>,
    other: Seq<char>,
)
    requires
        distinct_keys(old(scheduler)@.stats),
        call_ensures(
            <BackoffScheduler as RewriteScheduler<G>>::search_rewrite,
            (scheduler, iteration, egraph, rewrite),
            handed,
        ),
    ensures
        skipped_or_searched(
            old(scheduler)@.rule(rewrite.name@),
            iteration,
            *egraph,
            *rewrite,
            handed@,
            final(scheduler)@.rule(rewrite.name@),
        ),
        other != rewrite.name@ ==> final(scheduler)@.rule(other) == old(scheduler)@.rule(other),
        final(scheduler)@.default_match_limit == old(scheduler)@.default_match_limit,
        final(scheduler)@.default_ban_length == old(scheduler)@.default_ban_length,
        distinct_keys(final(scheduler)@.stats),
{
    lemma_searched(
        old(scheduler)@,
        iteration,
        *egraph,
        *rewrite,
        final(scheduler)@,
        handed,
        other,
    );
}

/// A rule is searched or skipped rightly, and no other rule changes.
proof fn lemma_searched<G: EGraph>(
    before: BackoffModel,
    iteration: usize,
    egraph: G,
    rewrite: Rewrite<G::Rule>,
    after: BackoffModel,
    handed: Vec<SearchMatches<G::Subst>>,
    other: Seq<char>,
)
    requires
        distinct_keys(before.stats),
        before.searches(iteration, egraph, rewrite, after, handed),
    ensures
        skipped_or_searched(
            before.rule(rewrite.name@),
            iteration,
            egraph,
            rewrite,
            handed@,
            after.rule(rewrite.name@),
        ),
        other != rewrite.name@ ==> after.rule(other) == before.rule(other),
        after.default_match_limit == before.default_match_limit,
        after.default_ban_length == before.default_ban_length,
        distinct_keys(after.stats),
{
    let rule = before.rule(rewrite.name@);
    if !rule.is_banned(iteration) {
        let found = choose|found: Vec<SearchMatches<G::Subst>>| #[trigger]
            call_ensures(
                G::search_with_limit,
                (&egraph, &rewrite.rule, rule.search_limit()),
                found,
            ) && before.takes(iteration, rewrite.name@, found, after, handed);
        lemma_taken(before, iteration, rewrite.name@, found, after, handed, other);
    }
}

/// One and the same e-graph, `n` times.
pub open spec fn unchanged<G>(egraph: G, n: nat) -> Seq<G> {
    Seq::new(n, |j: int| egraph)
}

/// What the `j`-th of `n` checks says, of which the last says `result`.
pub open spec fn said_at(j: int, n: int, result: RunnerResult<()>) -> RunnerResult<()> {
    if j == n - 1 {
        result
    } else {
        Ok(())
    }
}

/// A limit check with a sample at a boundary behind a rule.
pub open spec fn check_at<G: EGraph>(
    before: LimitsModel<G::Probe>,
    iteration: usize,
    egraph: G,
    phase: MemorySamplePhase,
    name: Symbol,
    after: LimitsModel<G::Probe>,
    result: RunnerResult<()>,
) -> bool {
    exists|seen: Seen<G::Probe>|
        {
            &&& #[trigger] seen.answers(before, iteration, egraph, after, result)
            &&& before.memory matches Some(memory) ==> attributed(
                memory.iteration_peak,
                phase,
                Some(name),
                seen.sample->0,
                after.memory->0.iteration_peak,
            )
        }
}

/// One limit check after the other, each with a sample at the same kind of boundary,
/// and each of the e-graph that is there then. All but the last let the run go on, and
/// the last says `result`.
pub open spec fn checked_in_turn<G: EGraph>(
    trail: Seq<LimitsModel<G::Probe>>,
    iteration: usize,
    egraphs: Seq<G>,
    phase: MemorySamplePhase,
    rewrites: Seq<Rewrite<G::Rule>>,
    result: RunnerResult<()>,
) -> bool {
    let n = trail.len() - 1;
    &&& 0 <= n <= rewrites.len()
    &&& n <= egraphs.len()
    &&& n == 0 ==> result is Ok
    &&& forall|j: int|
        #![trigger rewrites[j]]
        0 <= j < n ==> check_at(
            trail[j],
            iteration,
            egraphs[j],
            phase,
            rewrites[j].name,
            trail[j + 1],
            said_at(j, n, result),
        )
}

/// A limit check follows the search of each rewrite, and the first that fails ends the
/// search.
pub open spec fn search_was_checked<G: EGraph>(
    before: LimitsModel<G::Probe>,
    iteration: usize,
    egraph: G,
    rewrites: Seq<Rewrite<G::Rule>>,
    after: LimitsModel<G::Probe>,
    result: RunnerResult<()>,
) -> bool {
    exists|trail: Seq<LimitsModel<G::Probe>>|
        {
            &&& #[trigger] checked_in_turn(
                trail,
                iteration,
                unchanged(egraph, rewrites.len()),
                MemorySamplePhase::AfterRuleSearch,
                rewrites,
                result,
            )
            &&& trail.first() == before
            &&& trail.last() == after
            &&& result is Ok ==> trail.len() == rewrites.len() + 1
        }
}

/// What a search of rewrites in turn gives: its checks come in turn.
proof fn lemma_search_checks<S, G: EGraph>(
    step: spec_fn(S, Rewrite<G::Rule>, S, Seq<SearchMatches<G::Subst>>) -> bool,
    trace: SearchTrace<S, G::Subst, G::Probe>,
    iteration: usize,
    egraph: G,
    rewrites: Seq<Rewrite<G::Rule>>,
    result: RunnerResult<()>,
)
    requires
        trace.follows(step, iteration, egraph, rewrites),
        trace.checks.len() == 0 ==> result is Ok,
        trace.checks.len() > 0 ==> (result is Ok <==> trace.checks.last() is Ok),
        result matches Err(reason) ==> trace.checks.last() == Err::<(), _>(reason),
    ensures
        checked_in_turn(
            trace.limits,
            iteration,
            unchanged(egraph, rewrites.len()),
            MemorySamplePhase::AfterRuleSearch,
            rewrites,
            result,
        ),
{
    let egraphs = unchanged(egraph, rewrites.len());
    let n = trace.matches.len() as int;
    assert forall|j: int|
        #![trigger rewrites[j]]
        0 <= j < n implies check_at(
        trace.limits[j],
        iteration,
        egraphs[j],
        MemorySamplePhase::AfterRuleSearch,
        rewrites[j].name,
        trace.limits[j + 1],
        said_at(j, n, result),
    ) by {
        let found = trace.matches[j];
        assert(j < n - 1 ==> trace.checks[j] is Ok);
        let seen = law_boundary_check(
            trace.limits[j],
            iteration,
            egraph,
            MemorySamplePhase::AfterRuleSearch,
            Some(rewrites[j].name),
            trace.limits[j + 1],
            trace.checks[j],
        );
        assert(seen.answers(
            trace.limits[j],
            iteration,
            egraph,
            trace.limits[j + 1],
            said_at(j, n, result),
        ));
    }
}

/// The reason of a result, without what a success holds.
pub open spec fn outcome<T>(result: RunnerResult<T>) -> RunnerResult<()> {
    match result {
        Ok(_) => Ok(()),
        Err(reason) => Err(reason),
    }
}

/// The names of rewrites are all different.
pub open spec fn distinct_names<R>(rewrites: Seq<Rewrite<R>>) -> bool {
    forall|i: int, j: int|
        0 <= i < j < rewrites.len() ==> (#[trigger] rewrites[i]).name@ != (
        #[trigger] rewrites[j]).name@
}

/// Each step of a search is one of the backoff scheduler.
spec fn backs_off<G: EGraph>(
    step: spec_fn(
        BackoffScheduler,
        Rewrite<G::Rule>,
        BackoffScheduler,
        Seq<SearchMatches<G::Subst>>,
    ) -> bool,
    iteration: usize,
    egraph: G,
) -> bool {
    forall|
        before: BackoffScheduler,
        rewrite: Rewrite<G::Rule>,
        after: BackoffScheduler,
        handed: Seq<SearchMatches<G::Subst>>,
    | #[trigger]
        step(before, rewrite, after, handed) ==> exists|v: Vec<SearchMatches<G::Subst>>|
            v@ == handed && #[trigger] before@.searches(iteration, egraph, rewrite, after@, v)
}

/// The first rewrites have been searched or skipped rightly, and the rules of the
/// others are as they were.
proof fn lemma_backoff_steps<G: EGraph>(
    step: spec_fn(
        BackoffScheduler,
        Rewrite<G::Rule>,
        BackoffScheduler,
        Seq<SearchMatches<G::Subst>>,
    ) -> bool,
    trace: SearchTrace<BackoffScheduler, G::Subst, G::Probe>,
    iteration: usize,
    egraph: G,
    rewrites: Seq<Rewrite<G::Rule>>,
    n: int,
)
    requires
        backs_off(step, iteration, egraph),
        trace.follows(step, iteration, egraph, rewrites),
        distinct_names(rewrites),
        distinct_keys(trace.schedulers[0]@.stats),
        0 <= n <= trace.matches.len(),
    ensures
        distinct_keys(trace.schedulers[n]@.stats),
        trace.schedulers[n]@.default_match_limit == trace.schedulers[0]@.default_match_limit,
        trace.schedulers[n]@.default_ban_length == trace.schedulers[0]@.default_ban_length,
        forall|j: int|
            0 <= j < n ==> skipped_or_searched(
                trace.schedulers[0]@.rule((#[trigger] rewrites[j]).name@),
                iteration,
                egraph,
                rewrites[j],
                trace.matches[j]@,
                trace.schedulers[n]@.rule(rewrites[j].name@),
            ),
        forall|other: Seq<char>|
            (forall|j: int| 0 <= j < n ==> (#[trigger] rewrites[j]).name@ != other)
                ==> #[trigger] trace.schedulers[n]@.rule(other) == trace.schedulers[0]@.rule(other),
    decreases n,
{
    if n > 0 {
        let k = n - 1;
        lemma_backoff_steps(step, trace, iteration, egraph, rewrites, k);
        let first = trace.schedulers[0]@;
        let before = trace.schedulers[k]@;
        let after = trace.schedulers[n]@;
        let name = rewrites[k].name@;
        assert(step(trace.schedulers[k], rewrites[k], trace.schedulers[n], trace.matches[k]@));
        let v = choose|v: Vec<SearchMatches<G::Subst>>|
            v@ == trace.matches[k]@ && #[trigger] before.searches(
                iteration,
                egraph,
                rewrites[k],
                after,
                v,
            );
        assert(before.rule(name) == first.rule(name));
        lemma_searched(before, iteration, egraph, rewrites[k], after, v, name);
        assert forall|j: int| 0 <= j < n implies skipped_or_searched(
            first.rule((#[trigger] rewrites[j]).name@),
            iteration,
            egraph,
            rewrites[j],
            trace.matches[j]@,
            after.rule(rewrites[j].name@),
        ) by {
            if j < k {
                lemma_searched(
                    before,
                    iteration,
                    egraph,
                    rewrites[k],
                    after,
                    v,
                    rewrites[j].name@,
                );
            }
        }
        assert forall|other: Seq<char>|
            (forall|j: int| 0 <= j < n ==> (#[trigger] rewrites[j]).name@ != other) implies
            #[trigger] after.rule(other) == first.rule(other) by {
            lemma_searched(before, iteration, egraph, rewrites[k], after, v, other);
            assert(rewrites[k].name@ != other);
            assert(before.rule(other) == first.rule(other));
        }
    }
}

/// A backoff scheduler searches or skips each rule rightly, in the iteration that it is
/// told, and hands on one list of matches for each rewrite: what was found for it. A
/// limit check follows each search, and the first that fails ends the search.
pub proof fn law_backoff_search_rewrites<G: EGraph>(
    scheduler: &mut BackoffScheduler,
    iteration: usize,
    egraph: &G,
    rewrites: &[Rewrite<G::Rule>],
    limits: &mut RunnerLimits<G::Probe>,
    result: RunnerResult<Vec<Vec<SearchMatches<G::Subst>>>>,
)
    requires
        distinct_names(rewrites@),
        distinct_keys(old(scheduler)@.stats),
        call_ensures(
            <BackoffScheduler as RewriteScheduler<G>>::search_rewrites,
            (scheduler, iteration, egraph, rewrites, limits),
            result,
        ),
    ensures
        result matches Ok(matches) ==> {
            &&& matches@.len() == rewrites@.len()
            &&& forall|j: int|
                0 <= j < rewrites@.len() ==> skipped_or_searched(
                    old(scheduler)@.rule((#[trigger] rewrites@[j]).name@),
                    iteration,
                    *egraph,
                    rewrites@[j],
                    matches@[j]@,
                    final(scheduler)@.rule(rewrites@[j].name@),
                )
        },
        forall|other: Seq<char>|
            (forall|j: int| 0 <= j < rewrites@.len() ==> (#[trigger] rewrites@[j]).name@ != other)
                ==> #[trigger] final(scheduler)@.rule(other) == old(scheduler)@.rule(other),
        final(scheduler)@.default_match_limit == old(scheduler)@.default_match_limit,
        final(scheduler)@.default_ban_length == old(scheduler)@.default_ban_length,
        distinct_keys(final(scheduler)@.stats),
        search_was_checked(
            old(limits)@,
            iteration,
            *egraph,
            rewrites@,
            final(limits)@,
            outcome(result),
        ),
{
    let step = |
        before: BackoffScheduler,
        rewrite: Rewrite<G::Rule>,
        after: BackoffScheduler,
        matches: Seq<SearchMatches<G::Subst>>,
    |
        exists|m: &mut BackoffScheduler, v: Vec<SearchMatches<G::Subst>>|
            *m == before && *final(m) == after && v@ == matches && #[trigger] call_ensures(
                <BackoffScheduler as RewriteScheduler<G>>::search_rewrite,
                (m, iteration, egraph, &rewrite),
                v,
            );
    assert(backs_off(step, iteration, *egraph)) by {
        assert forall|
            before: BackoffScheduler,
            rewrite: Rewrite<G::Rule>,
            after: BackoffScheduler,
            handed: Seq<SearchMatches<G::Subst>>,
        | #[trigger] step(before, rewrite, after, handed) implies exists|
            v: Vec<SearchMatches<G::Subst>>,
        |
            v@ == handed && #[trigger] before@.searches(
                iteration,
                *egraph,
                rewrite,
                after@,
                v,
            ) by {}
    }
    lemma_backoff_searches(
        step,
        *old(scheduler),
        old(limits)@,
        iteration,
        *egraph,
        rewrites@,
        *final(scheduler),
        final(limits)@,
        result,
    );
}

/// What a search in turn by steps of the backoff scheduler gives.
proof fn lemma_backoff_searches<G: EGraph>(
    step: spec_fn(
        BackoffScheduler,
        Rewrite<G::Rule>,
        BackoffScheduler,
        Seq<SearchMatches<G::Subst>>,
    ) -> bool,
    before: BackoffScheduler,
    limits_before: LimitsModel<G::Probe>,
    iteration: usize,
    egraph: G,
    rewrites: Seq<Rewrite<G::Rule>>,
    after: BackoffScheduler,
    limits_after: LimitsModel<G::Probe>,
    result: RunnerResult<Vec<Vec<SearchMatches<G::Subst>>>>,
)
    requires
        backs_off(step, iteration, egraph),
        searched_in_turn(
            step,
            before,
            limits_before,
            iteration,
            egraph,
            rewrites,
            after,
            limits_after,
            result,
        ),
        distinct_names(rewrites),
        distinct_keys(before@.stats),
    ensures
        result matches Ok(matches) ==> {
            &&& matches@.len() == rewrites.len()
            &&& forall|j: int|
                0 <= j < rewrites.len() ==> skipped_or_searched(
                    before@.rule((#[trigger] rewrites[j]).name@),
                    iteration,
                    egraph,
                    rewrites[j],
                    matches@[j]@,
                    after@.rule(rewrites[j].name@),
                )
        },
        forall|other: Seq<char>|
            (forall|j: int| 0 <= j < rewrites.len() ==> (#[trigger] rewrites[j]).name@ != other)
                ==> #[trigger] after@.rule(other) == before@.rule(other),
        after@.default_match_limit == before@.default_match_limit,
        after@.default_ban_length == before@.default_ban_length,
        distinct_keys(after@.stats),
        search_was_checked(
            limits_before,
            iteration,
            egraph,
            rewrites,
            limits_after,
            outcome(result),
        ),
{
    let trace = search_trace(
        step,
        before,
        limits_before,
        iteration,
        egraph,
        rewrites,
        after,
        limits_after,
        result,
    );
    lemma_backoff_steps(step, trace, iteration, egraph, rewrites, trace.matches.len() as int);
    lemma_search_checks(step, trace, iteration, egraph, rewrites, outcome(result));
}

/// A simple scheduler searches each rewrite in turn and hands on what was found for it.
/// A limit check follows each search, and the first that fails ends the search.
pub proof fn law_simple_search_rewrites<G: EGraph>(
    scheduler: &mut SimpleScheduler,
    iteration: usize,
    egraph: &G,
    rewrites: &[Rewrite<G::Rule>],
    limits: &mut RunnerLimits<G::Probe>,
    result: RunnerResult<Vec<Vec<SearchMatches<G::Subst>>>>,
)
    requires
        call_ensures(
            <SimpleScheduler as RewriteScheduler<G>>::search_rewrites,
            (scheduler, iteration, egraph, rewrites, limits),
            result,
        ),
    ensures
        result matches Ok(matches) ==> {
            &&& matches@.len() == rewrites@.len()
            &&& forall|j: int|
                0 <= j < rewrites@.len() ==> found_by_search(
                    *egraph,
                    #[trigger] rewrites@[j],
                    matches@[j]@,
                )
        },
        search_was_checked(
            old(limits)@,
            iteration,
            *egraph,
            rewrites@,
            final(limits)@,
            outcome(result),
        ),
{
    let step = |
        before: SimpleScheduler,
        rewrite: Rewrite<G::Rule>,
        after: SimpleScheduler,
        matches: Seq<SearchMatches<G::Subst>>,
    |
        exists|m: &mut SimpleScheduler, v: Vec<SearchMatches<G::Subst>>|
            *m == before && *final(m) == after && v@ == matches && #[trigger] call_ensures(
                <SimpleScheduler as RewriteScheduler<G>>::search_rewrite,
                (m, iteration, egraph, &rewrite),
                v,
            );
    assert(just_searches(step, *egraph)) by {
        assert forall|
            before: SimpleScheduler,
            rewrite: Rewrite<G::Rule>,
            after: SimpleScheduler,
            handed: Seq<SearchMatches<G::Subst>>,
        | #[trigger] step(before, rewrite, after, handed) implies found_by_search(
            *egraph,
            rewrite,
            handed,
        ) by {}
    }
    lemma_simple_searches(
        step,
        *old(scheduler),
        old(limits)@,
        iteration,
        *egraph,
        rewrites@,
        *final(scheduler),
        final(limits)@,
        result,
    );
}

/// What is handed on is what a search for the rewrite found.
pub open spec fn found_by_search<G: EGraph>(
    egraph: G,
    rewrite: Rewrite<G::Rule>,
    handed: Seq<SearchMatches<G::Subst>>,
) -> bool {
    exists|found: Vec<SearchMatches<G::Subst>>| #[trigger]
        call_ensures(G::search, (&egraph, &rewrite.rule), found) && found@ == handed
}

/// Each step of a search just searches.
spec fn just_searches<G: EGraph>(
    step: spec_fn(
        SimpleScheduler,
        Rewrite<G::Rule>,
        SimpleScheduler,
        Seq<SearchMatches<G::Subst>>,
    ) -> bool,
    egraph: G,
) -> bool {
    forall|
        before: SimpleScheduler,
        rewrite: Rewrite<G::Rule>,
        after: SimpleScheduler,
        handed: Seq<SearchMatches<G::Subst>>,
    | #[trigger] step(before, rewrite, after, handed) ==> found_by_search(egraph, rewrite, handed)
}

/// What a search in turn by steps of the simple scheduler gives.
proof fn lemma_simple_searches<G: EGraph>(
    step: spec_fn(
        SimpleScheduler,
        Rewrite<G::Rule>,
        SimpleScheduler,
        Seq<SearchMatches<G::Subst>>,
    ) -> bool,
    before: SimpleScheduler,
    limits_before: LimitsModel<G::Probe>,
    iteration: usize,
    egraph: G,
    rewrites: Seq<Rewrite<G::Rule>>,
    after: SimpleScheduler,
    limits_after: LimitsModel<G::Probe>,
    result: RunnerResult<Vec<Vec<SearchMatches<G::Subst>>>>,
)
    requires
        just_searches(step, egraph),
        searched_in_turn(
            step,
            before,
            limits_before,
            iteration,
            egraph,
            rewrites,
            after,
            limits_after,
            result,
        ),
    ensures
        result matches Ok(matches) ==> {
            &&& matches@.len() == rewrites.len()
            &&& forall|j: int|
                0 <= j < rewrites.len() ==> found_by_search(
                    egraph,
                    #[trigger] rewrites[j],
                    matches@[j]@,
                )
        },
        search_was_checked(
            limits_before,
            iteration,
            egraph,
            rewrites,
            limits_after,
            outcome(result),
        ),
{
    let trace = search_trace(
        step,
        before,
        limits_before,
        iteration,
        egraph,
        rewrites,
        after,
        limits_after,
        result,
    );
    lemma_search_checks(step, trace, iteration, egraph, rewrites, outcome(result));
    if result is Ok {
        let matches = result->Ok_0;
        assert forall|j: int| 0 <= j < rewrites.len() implies found_by_search(
            egraph,
            #[trigger] rewrites[j],
            matches@[j]@,
        ) by {
            assert(step(
                trace.schedulers[j],
                rewrites[j],
                trace.schedulers[j + 1],
                trace.matches[j]@,
            ));
        }
    }
}

/// Both schedulers apply a rule by handing the e-graph the rule and all the matches that
/// they are given, once, and count the e-classes that changed.
pub proof fn law_apply_rewrite<G: EGraph>(
    backoff: &mut BackoffScheduler,
    simple: &mut SimpleScheduler,
    iteration: usize,
    egraph: &mut G,
    other: &mut G,
    rewrite: &Rewrite<G::Rule>,
    matches: Vec<SearchMatches<G::Subst>>,
    n: usize,
    k: usize,
)
    requires
        call_ensures(
            <BackoffScheduler as RewriteScheduler<G>>::apply_rewrite,
            (backoff, iteration, egraph, rewrite, matches),
            n,
        ),
        call_ensures(
            <SimpleScheduler as RewriteScheduler<G>>::apply_rewrite,
            (simple, iteration, other, rewrite, matches),
            k,
        ),
    ensures
        *final(backoff) == *old(backoff),
        exists|g: &mut G, ids: Vec<Id>|
            *g == *old(egraph) && *final(g) == *final(egraph) && n == ids@.len()
                && #[trigger] call_ensures(G::apply, (g, &rewrite.rule, &matches), ids),
        exists|g: &mut G, ids: Vec<Id>|
            *g == *old(other) && *final(g) == *final(other) && k == ids@.len()
                && #[trigger] call_ensures(G::apply, (g, &rewrite.rule, &matches), ids),
{
}

} // verus!
