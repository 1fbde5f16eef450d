//! The aggregation engine: walks the registry in index order, consults
//! each active provider, and answers `true` on the first affirmative
//! verdict.

use vstd::prelude::*;

use crate::provider::AccountId;
use crate::provider::ProviderId;
use crate::provider::RegistryError;
use crate::registry::Registry;
use crate::registry::ban_spec;
use crate::registry::lemma_flag_at_index;
use crate::registry::unban_spec;

verus! {

/// The plain question forwarded to each provider: is this account
/// verified? The optional disambiguator selects among several
/// verification records held for the same account.
#[derive(Clone, Copy, PartialEq, Eq, Debug, Structural)]
pub struct ApprovalQuery {
    pub account: AccountId,
    pub index: Option<u64>,
}

/// The amount-gated question: may this account transact this amount?
#[derive(Clone, Copy, PartialEq, Eq, Debug, Structural)]
pub struct AllowanceQuery {
    pub account: AccountId,
    pub index: Option<u64>,
    pub amount: u128,
}

/// A capability for asking one deployed provider its verdict on one
/// query. Implementations stand for externally deployed decision units;
/// the engine is generic over this interface so it can be exercised with
/// stand-in providers.
pub trait ProviderClient<Q> {
    /// The verdict `provider` gives on `query`: `Some(verdict)` when its
    /// decision call returns, `None` when the call aborts.
    spec fn decision(&self, provider: ProviderId, query: Q) -> Option<bool>;

    /// Asks `provider` for its verdict on `query`. A failed decision
    /// call is an error, never a `false`.
    fn decide(&self, provider: &ProviderId, query: &Q) -> (r: Result<bool, RegistryError>)
        ensures
            match r {
                Ok(verdict) => self.decision(*provider, *query) == Some(verdict),
                Err(e) => self.decision(*provider, *query) is None && e
                    == RegistryError::ProviderInvocationFailure,
            },
    ;
}

/// The aggregation verdict over the registry's entries from slot `i`
/// on: banned entries are skipped, the first active provider that
/// affirms decides `Some(true)`, a failing decision call aborts the
/// whole query (`None`), and if every active provider denies, the
/// verdict is `Some(false)`.
pub open spec fn run_from<Q, C: ProviderClient<Q>>(
    s: Seq<(ProviderId, bool)>,
    client: C,
    query: Q,
    i: int,
) -> Option<bool>
    decreases s.len() - i,
{
    if i < 0 || i >= s.len() {
        Some(false)
    } else if !s[i].1 {
        run_from(s, client, query, i + 1)
    } else {
        match client.decision(s[i].0, query) {
            None => None,
            Some(true) => Some(true),
            Some(false) => run_from(s, client, query, i + 1),
        }
    }
}

/// The aggregation verdict over the whole registry, slot order, from
/// the first slot.
pub open spec fn run<Q, C: ProviderClient<Q>>(
    s: Seq<(ProviderId, bool)>,
    client: C,
    query: Q,
) -> Option<bool> {
    run_from(s, client, query, 0)
}

/// Walks the registry in index order, skips unassigned slots and banned
/// providers, and returns `true` on the first affirmative verdict; if
/// every active provider denies, returns `false`. A provider failure
/// aborts the query as an error, never as a `false`.
///
/// The traversal bound is inclusive: the walk probes one slot past the
/// last assigned index on every query. Slot `len` is never assigned, so
/// the extra probe always misses — one wasted probe, kept as it is
/// rather than reinterpreted, and worth a look as a likely off-by-one.
pub fn aggregate<Q, C: ProviderClient<Q>>(registry: &Registry, client: &C, query: &Q) -> (r:
    Result<bool, RegistryError>)
    requires
        registry.wf(),
    ensures
        match r {
            Ok(verdict) => run(registry@, *client, *query) == Some(verdict),
            Err(e) => run(registry@, *client, *query) is None && e
                == RegistryError::ProviderInvocationFailure,
        },
{
    let len = registry.len();
    let mut i: usize = 0;
    while i <= len
        invariant
            registry.wf(),
            len == registry@.len(),
            i <= len,
            run(registry@, *client, *query) == run_from(registry@, *client, *query, i as int),
        decreases len - i,
    {
        match registry.slot(i) {
            Some(id) => {
                proof {
                    lemma_flag_at_index(registry@, i as int);
                }
                if registry.is_active(&id) {
                    match client.decide(&id, query) {
                        Ok(true) => {
                            return Ok(true);
                        },
                        Ok(false) => {},
                        Err(e) => {
                            return Err(e);
                        },
                    }
                }
            },
            None => {},
        }
        if i == len {
            return Ok(false);
        }
        i += 1;
    }
    Ok(false)
}

/// Answers whether any active provider affirms the account's
/// verification, in registration order, first affirmative wins.
pub fn is_approved<C: ProviderClient<ApprovalQuery>>(
    registry: &Registry,
    client: &C,
    account: AccountId,
    index: Option<u64>,
) -> (r: Result<bool, RegistryError>)
    requires
        registry.wf(),
    ensures
        match r {
            Ok(verdict) => run(registry@, *client, (ApprovalQuery { account, index })) == Some(
                verdict,
            ),
            Err(e) => run(registry@, *client, (ApprovalQuery { account, index })) is None && e
                == RegistryError::ProviderInvocationFailure,
        },
{
    let query = ApprovalQuery { account, index };
    aggregate(registry, client, &query)
}

/// Answers whether any active provider allows the account to transact
/// the amount, in registration order, first affirmative wins.
pub fn is_allowed<C: ProviderClient<AllowanceQuery>>(
    registry: &Registry,
    client: &C,
    account: AccountId,
    index: Option<u64>,
    amount: u128,
) -> (r: Result<bool, RegistryError>)
    requires
        registry.wf(),
    ensures
        match r {
            Ok(verdict) => run(registry@, *client, (AllowanceQuery { account, index, amount }))
                == Some(verdict),
            Err(e) => run(registry@, *client, (AllowanceQuery { account, index, amount })) is None
                && e == RegistryError::ProviderInvocationFailure,
        },
{
    let query = AllowanceQuery { account, index, amount };
    aggregate(registry, client, &query)
}

/// Law: an empty registry answers `false`, whatever the client and the
/// query.
pub proof fn lemma_empty_registry_denies<Q, C: ProviderClient<Q>>(
    s: Seq<(ProviderId, bool)>,
    client: C,
    query: Q,
)
    requires
        s.len() == 0,
    ensures
        run(s, client, query) == Some(false),
{
}

proof fn lemma_run_from_first_affirms<Q, C: ProviderClient<Q>>(
    s: Seq<(ProviderId, bool)>,
    client: C,
    query: Q,
    i: int,
    j: int,
)
    requires
        0 <= i <= j < s.len(),
        s[j].1,
        client.decision(s[j].0, query) == Some(true),
        forall|k: int| i <= k < j && (#[trigger] s[k]).1 ==> client.decision(s[k].0, query)
            == Some(false),
    ensures
        run_from(s, client, query, i) == Some(true),
    decreases j - i,
{
    if i < j {
        lemma_run_from_first_affirms(s, client, query, i + 1, j);
    }
}

/// Law: OR semantics with short-circuit. If the active providers before
/// slot `j` all deny and the active provider at slot `j` affirms, the
/// query answers `true`; and any client that agrees with this one on the
/// providers up to and including slot `j` is answered `true` as well —
/// the providers past the first affirmative are never consulted, so what
/// they would answer cannot change the outcome.
pub proof fn lemma_short_circuit<Q, C: ProviderClient<Q>>(
    s: Seq<(ProviderId, bool)>,
    client: C,
    other: C,
    query: Q,
    j: int,
)
    requires
        0 <= j < s.len(),
        s[j].1,
        client.decision(s[j].0, query) == Some(true),
        forall|k: int| 0 <= k < j && (#[trigger] s[k]).1 ==> client.decision(s[k].0, query)
            == Some(false),
        forall|k: int| 0 <= k <= j ==> client.decision((#[trigger] s[k]).0, query)
            == other.decision(s[k].0, query),
    ensures
        run(s, client, query) == Some(true),
        run(s, other, query) == Some(true),
{
    lemma_run_from_first_affirms(s, client, query, 0, j);
    lemma_run_from_first_affirms(s, other, query, 0, j);
}

proof fn lemma_run_from_or<Q, C: ProviderClient<Q>>(
    s: Seq<(ProviderId, bool)>,
    client: C,
    query: Q,
    i: int,
)
    requires
        0 <= i,
        forall|k: int| i <= k < s.len() && (#[trigger] s[k]).1 ==> client.decision(s[k].0, query)
            is Some,
    ensures
        run_from(s, client, query, i) == Some(
            exists|k: int|
                i <= k < s.len() && (#[trigger] s[k]).1 && client.decision(s[k].0, query) == Some(
                    true,
                ),
        ),
    decreases s.len() - i,
{
    let affirmed = |from: int|
        exists|k: int|
            from <= k < s.len() && (#[trigger] s[k]).1 && client.decision(s[k].0, query) == Some(
                true,
            );
    if i < 0 || i >= s.len() {
        assert(!affirmed(i));
    } else {
        lemma_run_from_or(s, client, query, i + 1);
        if s[i].1 && client.decision(s[i].0, query) == Some(true) {
            assert(affirmed(i));
        } else {
            assert(affirmed(i) == affirmed(i + 1)) by {
                if affirmed(i) {
                    let w = choose|k: int|
                        i <= k < s.len() && (#[trigger] s[k]).1 && client.decision(s[k].0, query)
                            == Some(true);
                    assert(w != i);
                    assert(affirmed(i + 1));
                }
                if affirmed(i + 1) {
                    let w = choose|k: int|
                        i + 1 <= k < s.len() && (#[trigger] s[k]).1 && client.decision(
                            s[k].0,
                            query,
                        ) == Some(true);
                    assert(affirmed(i));
                }
            }
        }
    }
}

/// Law: when no active provider's decision call fails, the query is the
/// logical OR of the active providers' verdicts.
pub proof fn lemma_or_semantics<Q, C: ProviderClient<Q>>(
    s: Seq<(ProviderId, bool)>,
    client: C,
    query: Q,
)
    requires
        forall|k: int| 0 <= k < s.len() && (#[trigger] s[k]).1 ==> client.decision(s[k].0, query)
            is Some,
    ensures
        run(s, client, query) == Some(
            exists|k: int|
                0 <= k < s.len() && (#[trigger] s[k]).1 && client.decision(s[k].0, query) == Some(
                    true,
                ),
        ),
{
    lemma_run_from_or(s, client, query, 0);
}

/// Law: banned providers are excluded. With a single registered provider
/// that would affirm, banning it turns the answer to `false`, and
/// unbanning it restores `true`.
pub proof fn lemma_ban_excludes<Q, C: ProviderClient<Q>>(
    s: Seq<(ProviderId, bool)>,
    client: C,
    query: Q,
    id: ProviderId,
)
    requires
        s.len() == 1,
        s[0].0 == id,
        client.decision(id, query) == Some(true),
    ensures
        s[0].1 ==> run(s, client, query) == Some(true),
        run(ban_spec(s, id), client, query) == Some(false),
        run(unban_spec(ban_spec(s, id), id), client, query) == Some(true),
{
    let b = ban_spec(s, id);
    assert(b[0] == (id, false));
    assert(b.len() == 1);
    assert(run_from(b, client, query, 1) == Some(false));
    assert(run_from(b, client, query, 0) == Some(false));
    let u = unban_spec(b, id);
    assert(u[0] == (id, true));
    assert(u.len() == 1);
    assert(run_from(u, client, query, 0) == Some(true));
}

} // verus!
