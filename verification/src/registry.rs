//! The provider registry: an indexed, append-only set of providers,
//! each carrying an active/banned flag.
//!
//! The registry is two parallel mappings over one provider set, modelled
//! as a single sequence of `(ProviderId, bool)` entries in registration
//! order: the position of an entry is the provider's index, the `bool`
//! its active flag (`true` = usable, `false` = banned). Indices are
//! assigned densely from 0 in registration order and are never
//! reassigned or compacted; providers are only ever added or banned,
//! never removed.

use vstd::prelude::*;

use crate::provider::ProviderId;
use crate::provider::ProviderReference;
use crate::provider::RegistryError;
use crate::provider::resolved_id;

verus! {

/// No provider occurs in two entries.
pub open spec fn distinct_ids(s: Seq<(ProviderId, bool)>) -> bool {
    forall|i: int, j: int| 0 <= i < j < s.len() ==> (#[trigger] s[i]).0 != (#[trigger] s[j]).0
}

/// `id` is registered: it has an entry, active or banned.
pub open spec fn registered(s: Seq<(ProviderId, bool)>, id: ProviderId) -> bool {
    exists|i: int| 0 <= i < s.len() && (#[trigger] s[i]).0 == id
}

/// `id` is registered and currently active.
pub open spec fn active(s: Seq<(ProviderId, bool)>, id: ProviderId) -> bool {
    exists|i: int| 0 <= i < s.len() && #[trigger] s[i] == (id, true)
}

/// `id` is registered and currently banned.
pub open spec fn banned(s: Seq<(ProviderId, bool)>, id: ProviderId) -> bool {
    exists|i: int| 0 <= i < s.len() && #[trigger] s[i] == (id, false)
}

/// Registration: an unknown provider is appended with the next index,
/// active; a known one, active or banned, leaves the registry unchanged.
pub open spec fn add_spec(s: Seq<(ProviderId, bool)>, id: ProviderId) -> Seq<(ProviderId, bool)> {
    if registered(s, id) {
        s
    } else {
        s.push((id, true))
    }
}

/// Banning flips exactly an `(id, true)` entry to `(id, false)`; every
/// other entry, and the index order, stays untouched.
pub open spec fn ban_spec(s: Seq<(ProviderId, bool)>, id: ProviderId) -> Seq<(ProviderId, bool)> {
    s.map_values(|e: (ProviderId, bool)| if e == (id, true) { (id, false) } else { e })
}

/// Unbanning flips exactly an `(id, false)` entry back to `(id, true)`.
pub open spec fn unban_spec(s: Seq<(ProviderId, bool)>, id: ProviderId) -> Seq<(ProviderId, bool)> {
    s.map_values(|e: (ProviderId, bool)| if e == (id, false) { (id, true) } else { e })
}

/// The identifiers named by an optional initial list.
pub open spec fn initial_ids(initial: Option<Vec<ProviderId>>) -> Seq<ProviderId> {
    match initial {
        Some(ids) => ids@,
        None => Seq::empty(),
    }
}

/// The registry built by registering each identifier in sequence order
/// with the idempotent `add_spec` rule.
pub open spec fn init_spec(ids: Seq<ProviderId>) -> Seq<(ProviderId, bool)>
    decreases ids.len(),
{
    if ids.len() == 0 {
        Seq::empty()
    } else {
        add_spec(init_spec(ids.drop_last()), ids.last())
    }
}

/// The indexed set of registered providers and their active flags.
pub struct Registry {
    entries: Vec<(ProviderId, bool)>,
}

impl View for Registry {
    type V = Seq<(ProviderId, bool)>;

    closed spec fn view(&self) -> Seq<(ProviderId, bool)> {
        self.entries@
    }
}

/// At an entry's own index, the flag in the view, the `active` and the
/// `banned` predicates all agree, provided no provider is registered
/// twice.
pub proof fn lemma_flag_at_index(s: Seq<(ProviderId, bool)>, i: int)
    requires
        distinct_ids(s),
        0 <= i < s.len(),
    ensures
        registered(s, s[i].0),
        active(s, s[i].0) == s[i].1,
        banned(s, s[i].0) == !s[i].1,
{
    assert(registered(s, s[i].0));
    if s[i].1 {
        assert(s[i] == (s[i].0, true));
        assert forall|j: int| 0 <= j < s.len() && #[trigger] s[j] == (s[i].0, false) implies false by {
            assert(s[j].0 == s[i].0);
        }
    } else {
        assert(s[i] == (s[i].0, false));
        assert forall|j: int| 0 <= j < s.len() && #[trigger] s[j] == (s[i].0, true) implies false by {
            assert(s[j].0 == s[i].0);
        }
    }
}

/// Banning and unbanning keep the length and the index assignment: only
/// flags change, entries are never removed or moved.
pub proof fn lemma_toggle_keeps_index(s: Seq<(ProviderId, bool)>, id: ProviderId)
    ensures
        ban_spec(s, id).len() == s.len(),
        unban_spec(s, id).len() == s.len(),
        forall|k: int| 0 <= k < s.len() ==> (#[trigger] ban_spec(s, id)[k]).0 == s[k].0,
        forall|k: int| 0 <= k < s.len() ==> (#[trigger] unban_spec(s, id)[k]).0 == s[k].0,
{
}

/// Law: adding is idempotent. A second `add` of the same identifier
/// changes nothing, and an `add` after the identifier was banned changes
/// nothing either — banning never makes a provider re-addable; only
/// `unban` reactivates it.
pub proof fn lemma_add_idempotent(s: Seq<(ProviderId, bool)>, id: ProviderId)
    ensures
        add_spec(add_spec(s, id), id) == add_spec(s, id),
        add_spec(ban_spec(add_spec(s, id), id), id) == ban_spec(add_spec(s, id), id),
{
    let s1 = add_spec(s, id);
    if !registered(s, id) {
        assert(s1[s.len() as int].0 == id);
    }
    assert(registered(s1, id));
    let s2 = ban_spec(s1, id);
    lemma_toggle_keeps_index(s1, id);
    let w = choose|i: int| 0 <= i < s1.len() && (#[trigger] s1[i]).0 == id;
    assert(s2[w].0 == id);
    assert(registered(s2, id));
}

/// Law: initial registration inserts each listed identifier once, active
/// by default. The built registry holds exactly the listed providers,
/// every entry is active, and duplicates collapse, so the length never
/// exceeds the list's.
pub proof fn lemma_init_all_active(ids: Seq<ProviderId>, id: ProviderId)
    ensures
        init_spec(ids).len() <= ids.len(),
        forall|k: int| 0 <= k < init_spec(ids).len() ==> (#[trigger] init_spec(ids)[k]).1,
        registered(init_spec(ids), id) == ids.contains(id),
    decreases ids.len(),
{
    if ids.len() == 0 {
        assert(!ids.contains(id));
        assert(!registered(init_spec(ids), id));
    } else {
        let prefix = ids.drop_last();
        let last = ids.last();
        lemma_init_all_active(prefix, id);
        let s = init_spec(prefix);
        let t = init_spec(ids);
        if !registered(s, last) {
            assert(t == s.push((last, true)));
            assert(t[s.len() as int] == (last, true));
        }
        assert forall|k: int| 0 <= k < t.len() implies (#[trigger] t[k]).1 by {
            if !registered(s, last) && k == s.len() {
            } else {
                assert(t[k] == s[k]);
            }
        }
        if ids.contains(id) {
            let w = choose|i: int| 0 <= i < ids.len() && ids[i] == id;
            if w == ids.len() - 1 {
                if registered(s, id) {
                    let v = choose|i: int| 0 <= i < s.len() && (#[trigger] s[i]).0 == id;
                    assert(t[v].0 == id);
                } else {
                    assert(t[s.len() as int].0 == id);
                }
            } else {
                assert(prefix[w] == id);
                assert(prefix.contains(id));
                let v = choose|i: int| 0 <= i < s.len() && (#[trigger] s[i]).0 == id;
                assert(t[v].0 == id);
            }
            assert(registered(t, id));
        }
        if registered(t, id) {
            let w = choose|i: int| 0 <= i < t.len() && (#[trigger] t[i]).0 == id;
            if w < s.len() {
                assert(s[w] == t[w]);
                assert(registered(s, id));
                let v = choose|i: int| 0 <= i < prefix.len() && prefix[i] == id;
                assert(ids[v] == id);
            } else {
                assert(id == last);
                assert(ids[ids.len() - 1] == id);
            }
            assert(ids.contains(id));
        }
    }
}

/// Law: strict transitions. `ban` of an unregistered or already-banned
/// provider is a no-op, and so is `unban` of an unregistered or
/// still-active provider.
pub proof fn lemma_strict_transitions(s: Seq<(ProviderId, bool)>, id: ProviderId)
    ensures
        !active(s, id) ==> ban_spec(s, id) == s,
        !banned(s, id) ==> unban_spec(s, id) == s,
{
    if !active(s, id) {
        assert(ban_spec(s, id) =~= s);
    }
    if !banned(s, id) {
        assert(unban_spec(s, id) =~= s);
    }
}

impl Registry {
    /// Well-formedness: a provider is registered at most once.
    pub open spec fn wf(&self) -> bool {
        distinct_ids(self@)
    }

    /// Creates an empty registry.
    pub fn new() -> (r: Registry)
        ensures
            r@ == Seq::<(ProviderId, bool)>::empty(),
            r.wf(),
    {
        Registry { entries: Vec::new() }
    }

    /// Builds a registry from an optional initial list, registering each
    /// identifier in sequence order with the idempotent `add` rule:
    /// duplicates after the first occurrence are skipped, so the final
    /// length can be less than the list's.
    pub fn init(initial: Option<Vec<ProviderId>>) -> (r: Registry)
        ensures
            r@ == init_spec(initial_ids(initial)),
            r.wf(),
    {
        let mut reg = Registry::new();
        match initial {
            None => reg,
            Some(ids) => {
                let n = ids.len();
                let mut k: usize = 0;
                while k < n
                    invariant
                        k <= n,
                        n == ids@.len(),
                        reg.wf(),
                        reg@ == init_spec(ids@.take(k as int)),
                    decreases n - k,
                {
                    reg.add(ids[k]);
                    proof {
                        assert(ids@.take(k + 1 as int).drop_last() =~= ids@.take(k as int));
                        assert(ids@.take(k + 1 as int).last() == ids@[k as int]);
                    }
                    k += 1;
                }
                proof {
                    assert(ids@.take(n as int) =~= ids@);
                }
                reg
            }
        }
    }

    /// The number of registered providers, which is also the next index
    /// to be assigned.
    pub fn len(&self) -> (r: usize)
        ensures
            r == self@.len(),
    {
        self.entries.len()
    }

    /// First slot holding `id`, if any.
    fn find(&self, id: &ProviderId) -> (r: Option<usize>)
        ensures
            match r {
                Some(i) => i < self@.len() && self@[i as int].0 == *id,
                None => !registered(self@, *id),
            },
    {
        let n = self.entries.len();
        let mut i: usize = 0;
        while i < n
            invariant
                i <= n,
                n == self@.len(),
                forall|j: int| 0 <= j < i ==> (#[trigger] self@[j]).0 != *id,
            decreases n - i,
        {
            if self.entries[i].0 == *id {
                return Some(i);
            }
            i += 1;
        }
        None
    }

    /// Whether `provider` is registered, active or banned.
    pub fn contains(&self, provider: &ProviderId) -> (r: bool)
        ensures
            r == registered(self@, *provider),
    {
        match self.find(provider) {
            Some(i) => {
                proof {
                    assert(self@[i as int].0 == *provider);
                }
                true
            }
            None => false,
        }
    }

    /// The provider at slot `i`: `None` for any slot never assigned,
    /// including the one just past the last (`i >= len`).
    pub fn slot(&self, i: usize) -> (r: Option<ProviderId>)
        ensures
            i < self@.len() ==> r == Some(self@[i as int].0),
            i >= self@.len() ==> r is None,
    {
        if i < self.entries.len() {
            Some(self.entries[i].0)
        } else {
            None
        }
    }

    /// Whether `provider` is registered and currently active.
    pub fn is_active(&self, provider: &ProviderId) -> (r: bool)
        requires
            self.wf(),
        ensures
            r == active(self@, *provider),
    {
        match self.find(provider) {
            Some(i) => {
                proof {
                    lemma_flag_at_index(self@, i as int);
                }
                self.entries[i].1
            }
            None => {
                proof {
                    assert forall|j: int| 0 <= j < self@.len() && #[trigger] self@[j] == (
                        *provider,
                        true,
                    ) implies false by {
                        assert(self@[j].0 == *provider);
                    }
                }
                false
            }
        }
    }

    /// Registers `provider` if it is unknown: it is assigned the next
    /// index and starts active. A known provider, active or banned, is
    /// left exactly as it is.
    pub fn add(&mut self, provider: ProviderId)
        requires
            old(self).wf(),
        ensures
            final(self)@ == add_spec(old(self)@, provider),
            final(self).wf(),
    {
        let ghost s0 = self@;
        if !self.contains(&provider) {
            self.entries.push((provider, true));
            proof {
                assert(self@ == s0.push((provider, true)));
                assert forall|i: int, j: int| 0 <= i < j < self@.len() implies (
                #[trigger] self@[i]).0 != (#[trigger] self@[j]).0 by {
                    if j < s0.len() {
                        assert(self@[i] == s0[i] && self@[j] == s0[j]);
                    } else {
                        assert(self@[i] == s0[i]);
                        assert(self@[j].0 == provider);
                    }
                }
            }
        }
    }

    /// Bans `provider` when it is registered and active; in every other
    /// case — unknown, or already banned — the registry is unchanged.
    pub fn ban(&mut self, provider: &ProviderId)
        requires
            old(self).wf(),
        ensures
            final(self)@ == ban_spec(old(self)@, *provider),
            final(self).wf(),
    {
        let ghost s0 = self@;
        match self.find(provider) {
            Some(i) => {
                if self.entries[i].1 {
                    self.entries.set(i, (*provider, false));
                    proof {
                        assert(s0[i as int] == (*provider, true));
                        assert forall|k: int| 0 <= k < s0.len() && k != i implies #[trigger] s0[k]
                            != (*provider, true) by {
                            assert(s0[k].0 != s0[i as int].0);
                        }
                        assert(self@ =~= ban_spec(s0, *provider));
                        lemma_toggle_keeps_index(s0, *provider);
                    }
                } else {
                    proof {
                        lemma_flag_at_index(s0, i as int);
                        lemma_strict_transitions(s0, *provider);
                    }
                }
            }
            None => {
                proof {
                    assert forall|j: int| 0 <= j < s0.len() && #[trigger] s0[j] == (
                        *provider,
                        true,
                    ) implies false by {
                        assert(s0[j].0 == *provider);
                    }
                    lemma_strict_transitions(s0, *provider);
                }
            }
        }
    }

    /// Unbans `provider` when it is registered and currently banned; in
    /// every other case — unknown, or still active — the registry is
    /// unchanged. This is the only way a banned provider becomes usable
    /// again.
    pub fn unban(&mut self, provider: &ProviderId)
        requires
            old(self).wf(),
        ensures
            final(self)@ == unban_spec(old(self)@, *provider),
            final(self).wf(),
    {
        let ghost s0 = self@;
        match self.find(provider) {
            Some(i) => {
                if !self.entries[i].1 {
                    self.entries.set(i, (*provider, true));
                    proof {
                        assert(s0[i as int] == (*provider, false));
                        assert forall|k: int| 0 <= k < s0.len() && k != i implies #[trigger] s0[k]
                            != (*provider, false) by {
                            assert(s0[k].0 != s0[i as int].0);
                        }
                        assert(self@ =~= unban_spec(s0, *provider));
                        lemma_toggle_keeps_index(s0, *provider);
                    }
                } else {
                    proof {
                        lemma_flag_at_index(s0, i as int);
                        lemma_strict_transitions(s0, *provider);
                    }
                }
            }
            None => {
                proof {
                    assert forall|j: int| 0 <= j < s0.len() && #[trigger] s0[j] == (
                        *provider,
                        false,
                    ) implies false by {
                        assert(s0[j].0 == *provider);
                    }
                    lemma_strict_transitions(s0, *provider);
                }
            }
        }
    }

    /// Registers the provider named by a hash-addressed reference, with
    /// the idempotent `add` semantics. Any other reference shape is
    /// rejected with `InvalidProviderReference` and no change.
    pub fn add_provider(&mut self, reference: &ProviderReference) -> (r: Result<
        (),
        RegistryError,
    >)
        requires
            old(self).wf(),
        ensures
            final(self).wf(),
            match r {
                Ok(u) => resolved_id(*reference) matches Some(id) && final(self)@ == add_spec(
                    old(self)@,
                    id,
                ),
                Err(e) => resolved_id(*reference) is None && e
                    == RegistryError::InvalidProviderReference && final(self)@ == old(self)@,
            },
    {
        match reference.resolve() {
            Ok(id) => {
                self.add(id);
                Ok(())
            },
            Err(e) => Err(e),
        }
    }

    /// Bans the provider named by a hash-addressed reference, with the
    /// strict `ban` transition. Any other reference shape is rejected
    /// with `InvalidProviderReference` and no change.
    pub fn ban_provider(&mut self, reference: &ProviderReference) -> (r: Result<
        (),
        RegistryError,
    >)
        requires
            old(self).wf(),
        ensures
            final(self).wf(),
            match r {
                Ok(u) => resolved_id(*reference) matches Some(id) && final(self)@ == ban_spec(
                    old(self)@,
                    id,
                ),
                Err(e) => resolved_id(*reference) is None && e
                    == RegistryError::InvalidProviderReference && final(self)@ == old(self)@,
            },
    {
        match reference.resolve() {
            Ok(id) => {
                self.ban(&id);
                Ok(())
            },
            Err(e) => Err(e),
        }
    }

    /// Unbans the provider named by a hash-addressed reference, with the
    /// strict `unban` transition. Any other reference shape is rejected
    /// with `InvalidProviderReference` and no change.
    pub fn unban_provider(&mut self, reference: &ProviderReference) -> (r: Result<
        (),
        RegistryError,
    >)
        requires
            old(self).wf(),
        ensures
            final(self).wf(),
            match r {
                Ok(u) => resolved_id(*reference) matches Some(id) && final(self)@ == unban_spec(
                    old(self)@,
                    id,
                ),
                Err(e) => resolved_id(*reference) is None && e
                    == RegistryError::InvalidProviderReference && final(self)@ == old(self)@,
            },
    {
        match reference.resolve() {
            Ok(id) => {
                self.unban(&id);
                Ok(())
            },
            Err(e) => Err(e),
        }
    }
}

} // verus!
