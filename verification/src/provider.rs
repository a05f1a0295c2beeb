//! What every identity provider offers, and what one refresh attempt does to
//! the cache and to the time until the next attempt.

use vstd::prelude::*;
use crate::cache::{lemma_second_store_wins, lookup, stored, Cache};
use crate::token::{Token, TokenView};

verus! {

/// Seconds to wait after a failed attempt, whatever the configured interval.
pub const RETRY_SECONDS: u64 = 5;

/// One integration with an identity provider: a name, an endpoint and the
/// credentials to keep fresh, each on its own.
pub trait Provider: Sync + Send {
    /// The name, as plain text.
    spec fn name_text(&self) -> Seq<char>;

    /// The credentials in their order, as plain text.
    spec fn key_texts(&self) -> Seq<Seq<char>>;

    /// The endpoint, as plain text.
    spec fn url_text(&self) -> Seq<char>;

    /// The credentials to refresh, in their order. There may be none.
    fn api_keys(&self) -> (r: Vec<String>)
        ensures
            r@.len() == self.key_texts().len(),
            forall|i: int| 0 <= i < r@.len() ==> (#[trigger] r@[i])@ == self.key_texts()[i],
    ;

    /// A stable name for diagnostics.
    fn name(&self) -> (r: String)
        ensures
            r@ == self.name_text(),
    ;

    /// The base endpoint that token requests go to.
    fn url(&self) -> (r: String)
        ensures
            r@ == self.url_text(),
    ;
}

/// Why a refresh attempt did not yield a token.
#[derive(Clone, Copy, Debug, PartialEq, Eq, Structural)]
pub enum RefreshError {
    /// The provider could not be reached.
    Transport,
    /// The provider answered with this status instead of success.
    Protocol(u16),
    /// The body was not a token response, or lacked one of the two tokens.
    Decode,
    /// The access token's claims did not give an identity.
    ClaimsDecode,
}

/// What a refresh attempt came to, with the token as plain text.
pub open spec fn outcome_view(outcome: Result<Token, RefreshError>) -> Result<
    TokenView,
    RefreshError,
> {
    match outcome {
        Ok(token) => Ok(token@),
        Err(e) => Err(e),
    }
}

/// The cache after an attempt: a new token replaces whatever was held for its
/// identity, a failure changes nothing.
pub open spec fn cache_after(
    before: Map<Seq<char>, TokenView>,
    outcome: Result<TokenView, RefreshError>,
) -> Map<Seq<char>, TokenView> {
    match outcome {
        Ok(token) => stored(before, token),
        Err(_) => before,
    }
}

/// The seconds to rest after an attempt: the configured interval after a new
/// token, [`RETRY_SECONDS`] after a failure.
pub open spec fn delay_after(outcome: Result<TokenView, RefreshError>, token_refresh_seconds: u64) -> u64 {
    match outcome {
        Ok(_) => token_refresh_seconds,
        Err(_) => RETRY_SECONDS,
    }
}

/// The cache after a run of attempts, taken in the order in which they were
/// completed.
pub open spec fn cache_after_run(
    before: Map<Seq<char>, TokenView>,
    outcomes: Seq<Result<TokenView, RefreshError>>,
) -> Map<Seq<char>, TokenView>
    decreases outcomes.len(),
{
    if outcomes.len() == 0 {
        before
    } else {
        cache_after(cache_after_run(before, outcomes.drop_last()), outcomes.last())
    }
}

/// Every attempt of the run failed.
pub open spec fn all_failed(outcomes: Seq<Result<TokenView, RefreshError>>) -> bool {
    forall|i: int| 0 <= i < outcomes.len() ==> (#[trigger] outcomes[i]) is Err
}

/// `merged` holds the attempts of `left` and of `right`, those of each side
/// in their own order and the two sides mixed in any way.
pub open spec fn interleaves(
    merged: Seq<Result<TokenView, RefreshError>>,
    left: Seq<Result<TokenView, RefreshError>>,
    right: Seq<Result<TokenView, RefreshError>>,
) -> bool
    decreases merged.len(),
{
    if merged.len() == 0 {
        left.len() == 0 && right.len() == 0
    } else {
        ||| (left.len() > 0 && left.last() == merged.last() && interleaves(
            merged.drop_last(),
            left.drop_last(),
            right,
        ))
        ||| (right.len() > 0 && right.last() == merged.last() && interleaves(
            merged.drop_last(),
            left,
            right.drop_last(),
        ))
    }
}

/// A failed attempt leaves every entry of the cache as it was, and the next
/// attempt follows after [`RETRY_SECONDS`], whatever interval is configured.
pub proof fn lemma_failure_changes_nothing(
    before: Map<Seq<char>, TokenView>,
    error: RefreshError,
    token_refresh_seconds: u64,
)
    ensures
        cache_after(before, Err(error)) == before,
        delay_after(Err(error), token_refresh_seconds) == 5,
{
}

/// After a new token the next attempt follows after the configured interval,
/// and the token is found under its identity.
pub proof fn lemma_success_is_cached(
    before: Map<Seq<char>, TokenView>,
    token: TokenView,
    token_refresh_seconds: u64,
)
    ensures
        lookup(cache_after(before, Ok(token)), token.id) == Some(token),
        delay_after(Ok(token), token_refresh_seconds) == token_refresh_seconds,
{
}

/// Of two refreshes of one identity, one after the other, the cache holds the
/// token of the second and never that of the first.
pub proof fn lemma_second_refresh_wins(
    before: Map<Seq<char>, TokenView>,
    first: TokenView,
    second: TokenView,
)
    requires
        first.id == second.id,
    ensures
        lookup(cache_after(cache_after(before, Ok(first)), Ok(second)), first.id) == Some(second),
        cache_after(cache_after(before, Ok(first)), Ok(second)) == cache_after(before, Ok(second)),
{
    lemma_second_store_wins(before, first, second);
}

/// A run of failed attempts leaves the cache as it was.
pub proof fn lemma_failed_run_changes_nothing(
    before: Map<Seq<char>, TokenView>,
    outcomes: Seq<Result<TokenView, RefreshError>>,
)
    requires
        all_failed(outcomes),
    ensures
        cache_after_run(before, outcomes) == before,
    decreases outcomes.len(),
{
    if outcomes.len() > 0 {
        let front = outcomes.drop_last();
        assert forall|i: int| 0 <= i < front.len() implies (#[trigger] front[i]) is Err by {
            assert(outcomes[i] is Err);
        }
        lemma_failed_run_changes_nothing(before, front);
        assert(outcomes[outcomes.len() - 1] is Err);
    }
}

/// In a run of attempts the last token of an identity is the one held: the
/// attempt at `i` yielded a token, and no later attempt yielded one for the
/// same identity.
pub proof fn lemma_run_holds_latest(
    before: Map<Seq<char>, TokenView>,
    outcomes: Seq<Result<TokenView, RefreshError>>,
    i: int,
)
    requires
        0 <= i < outcomes.len(),
        outcomes[i] is Ok,
        forall|j: int|
            i < j < outcomes.len() && (#[trigger] outcomes[j]) is Ok ==> outcomes[j]->Ok_0.id
                != outcomes[i]->Ok_0.id,
    ensures
        lookup(cache_after_run(before, outcomes), outcomes[i]->Ok_0.id) == Some(outcomes[i]->Ok_0),
    decreases outcomes.len(),
{
    if i < outcomes.len() - 1 {
        let front = outcomes.drop_last();
        assert(front[i] == outcomes[i]);
        assert forall|j: int| i < j < front.len() && (#[trigger] front[j]) is Ok implies front[j]->Ok_0.id
            != front[i]->Ok_0.id by {
            assert(front[j] == outcomes[j]);
        }
        lemma_run_holds_latest(before, front, i);
        let last = outcomes[outcomes.len() - 1];
        if last is Ok {
            assert(last->Ok_0.id != outcomes[i]->Ok_0.id);
        }
    }
}

/// A run of attempts in which no token was yielded for `id` leaves the entry
/// of `id` as it was: what was never refreshed is never cached.
pub proof fn lemma_run_keeps_unrefreshed(
    before: Map<Seq<char>, TokenView>,
    outcomes: Seq<Result<TokenView, RefreshError>>,
    id: Seq<char>,
)
    requires
        forall|j: int|
            0 <= j < outcomes.len() && (#[trigger] outcomes[j]) is Ok ==> outcomes[j]->Ok_0.id
                != id,
    ensures
        lookup(cache_after_run(before, outcomes), id) == lookup(before, id),
    decreases outcomes.len(),
{
    if outcomes.len() > 0 {
        let front = outcomes.drop_last();
        assert forall|j: int| 0 <= j < front.len() && (#[trigger] front[j]) is Ok implies front[j]->Ok_0.id
            != id by {
            assert(front[j] == outcomes[j]);
        }
        lemma_run_keeps_unrefreshed(before, front, id);
        let last = outcomes[outcomes.len() - 1];
        if last is Ok {
            assert(last->Ok_0.id != id);
        }
    }
}

/// A credential that always fails does not disturb another: however the
/// attempts of the two are interleaved, the cache ends as if the failing
/// credential had never been tried.
pub proof fn lemma_failing_credential_leaves_no_trace(
    before: Map<Seq<char>, TokenView>,
    merged: Seq<Result<TokenView, RefreshError>>,
    failing: Seq<Result<TokenView, RefreshError>>,
    other: Seq<Result<TokenView, RefreshError>>,
)
    requires
        interleaves(merged, failing, other),
        all_failed(failing),
    ensures
        cache_after_run(before, merged) == cache_after_run(before, other),
    decreases merged.len(),
{
    if merged.len() > 0 {
        let front = merged.drop_last();
        if failing.len() > 0 && failing.last() == merged.last() && interleaves(
            front,
            failing.drop_last(),
            other,
        ) {
            let rest = failing.drop_last();
            assert forall|i: int| 0 <= i < rest.len() implies (#[trigger] rest[i]) is Err by {
                assert(failing[i] is Err);
            }
            lemma_failing_credential_leaves_no_trace(before, front, rest, other);
            assert(failing[failing.len() - 1] is Err);
        } else {
            lemma_failing_credential_leaves_no_trace(before, front, failing, other.drop_last());
        }
    }
}

/// Applies the outcome of one attempt: stores a new token under its identity
/// and says how many seconds to rest before the next attempt.
pub fn settle(cache: &mut Cache, outcome: Result<Token, RefreshError>, token_refresh_seconds: u64) -> (r: u64)
    ensures
        final(cache)@ == cache_after(old(cache)@, outcome_view(outcome)),
        r == delay_after(outcome_view(outcome), token_refresh_seconds),
        outcome is Err ==> final(cache)@ == old(cache)@ && r == RETRY_SECONDS,
        outcome is Ok ==> r == token_refresh_seconds,
{
    match outcome {
        Ok(token) => {
            cache.store(token);
            token_refresh_seconds
        },
        Err(_) => RETRY_SECONDS,
    }
}

} // verus!
