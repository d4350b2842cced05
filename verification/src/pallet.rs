use crate::claim::Claim;
use crate::model::{
    after_create, after_revoke, after_trans, create_result, keys_within, lookup, revoke_result,
    trans_result, Proofs,
};
use crate::rules::{decide_create, decide_revoke, decide_transfer};
use crate::types::{BlockHeight, ClaimRecord, Config, Error, Event, Identity};
use vstd::prelude::*;

verus! {

struct Entry {
    claim: Claim,
    record: ClaimRecord,
}

/// Whether some entry of `entries` is keyed by `key`.
spec fn holds(entries: Seq<Entry>, key: Seq<u8>) -> bool {
    exists|i: int| 0 <= i < entries.len() && (#[trigger] entries[i]).claim@ == key
}

/// The place of an entry keyed by `key`.
spec fn place(entries: Seq<Entry>, key: Seq<u8>) -> int {
    choose|i: int| 0 <= i < entries.len() && (#[trigger] entries[i]).claim@ == key
}

/// Whether no two entries share a key.
spec fn distinct(entries: Seq<Entry>) -> bool {
    forall|i: int, j: int|
        0 <= i < j < entries.len() ==> (#[trigger] entries[i]).claim@ != (#[trigger] entries[j]).claim@
}

/// The map that `entries` stands for.
spec fn as_map(entries: Seq<Entry>) -> Proofs {
    Map::new(|k: Seq<u8>| holds(entries, k), |k: Seq<u8>| entries[place(entries, k)].record)
}

/// In a list without repeated keys, the entry at `i` is the one its key maps to.
proof fn lemma_entry_in_map(entries: Seq<Entry>, i: int)
    requires
        distinct(entries),
        0 <= i < entries.len(),
    ensures
        as_map(entries).contains_key(entries[i].claim@),
        as_map(entries)[entries[i].claim@] == entries[i].record,
        place(entries, entries[i].claim@) == i,
{
    let k = entries[i].claim@;
    assert(holds(entries, k));
    let p = place(entries, k);
    assert(0 <= p < entries.len() && entries[p].claim@ == k);
    if p < i {
        assert(entries[p].claim@ != entries[i].claim@);
    } else if i < p {
        assert(entries[i].claim@ != entries[p].claim@);
    }
}

/// A key that no entry carries is not in the map.
proof fn lemma_absent(entries: Seq<Entry>, key: Seq<u8>)
    requires
        forall|i: int| 0 <= i < entries.len() ==> (#[trigger] entries[i]).claim@ != key,
    ensures
        !as_map(entries).contains_key(key),
{
}

/// Appending an entry under a fresh key inserts it into the map.
proof fn lemma_push(entries: Seq<Entry>, entry: Entry)
    requires
        distinct(entries),
        !as_map(entries).contains_key(entry.claim@),
    ensures
        distinct(entries.push(entry)),
        as_map(entries.push(entry)) == as_map(entries).insert(entry.claim@, entry.record),
{
    let next = entries.push(entry);
    assert forall|i: int, j: int| 0 <= i < j < next.len() implies (#[trigger] next[i]).claim@ != (
    #[trigger] next[j]).claim@ by {
        if j == entries.len() {
            assert(next[i] == entries[i]);
            if entries[i].claim@ == entry.claim@ {
                assert(holds(entries, entry.claim@));
            }
        } else {
            assert(next[i] == entries[i] && next[j] == entries[j]);
        }
    }
    let want = as_map(entries).insert(entry.claim@, entry.record);
    assert forall|k: Seq<u8>| as_map(next).contains_key(k) == want.contains_key(k) by {
        if holds(next, k) {
            let i = place(next, k);
            if i < entries.len() {
                assert(entries[i] == next[i]);
                assert(holds(entries, k));
            }
        }
        if holds(entries, k) {
            let i = place(entries, k);
            assert(next[i] == entries[i]);
            assert(holds(next, k));
        }
        if k == entry.claim@ {
            assert(next[entries.len() as int] == entry);
            assert(holds(next, k));
        }
    }
    assert forall|k: Seq<u8>| as_map(next).contains_key(k) implies as_map(next)[k] == want[k] by {
        let i = place(next, k);
        assert(holds(next, k));
        lemma_entry_in_map(next, i);
        if i < entries.len() {
            assert(next[i] == entries[i]);
            lemma_entry_in_map(entries, i);
        } else {
            assert(next[i] == entry);
        }
    }
    assert(as_map(next) =~= want);
}

/// Dropping the entry at `at` removes its key from the map.
proof fn lemma_remove(entries: Seq<Entry>, at: int)
    requires
        distinct(entries),
        0 <= at < entries.len(),
    ensures
        distinct(entries.remove(at)),
        as_map(entries.remove(at)) == as_map(entries).remove(entries[at].claim@),
{
    let next = entries.remove(at);
    let gone = entries[at].claim@;
    assert forall|i: int| 0 <= i < next.len() implies #[trigger] next[i] == entries[if i < at {
        i
    } else {
        i + 1
    }] by {}
    assert forall|i: int, j: int| 0 <= i < j < next.len() implies (#[trigger] next[i]).claim@ != (
    #[trigger] next[j]).claim@ by {
        let a = if i < at { i } else { i + 1 };
        let b = if j < at { j } else { j + 1 };
        assert(next[i] == entries[a] && next[j] == entries[b]);
        assert(entries[a].claim@ != entries[b].claim@);
    }
    let want = as_map(entries).remove(gone);
    assert forall|k: Seq<u8>| as_map(next).contains_key(k) == want.contains_key(k) by {
        if holds(next, k) {
            let i = place(next, k);
            let a = if i < at { i } else { i + 1 };
            assert(next[i] == entries[a]);
            assert(holds(entries, k));
            if k == gone {
                if a < at {
                    assert(entries[a].claim@ != entries[at].claim@);
                } else {
                    assert(entries[at].claim@ != entries[a].claim@);
                }
            }
        }
        if holds(entries, k) && k != gone {
            let a = place(entries, k);
            let i = if a < at { a } else { a - 1 };
            assert(next[i] == entries[a]);
            assert(holds(next, k));
        }
    }
    assert forall|k: Seq<u8>| as_map(next).contains_key(k) implies as_map(next)[k] == want[k] by {
        assert(holds(next, k));
        let i = place(next, k);
        let a = if i < at { i } else { i + 1 };
        assert(next[i] == entries[a]);
        lemma_entry_in_map(next, i);
        lemma_entry_in_map(entries, a);
    }
    assert(as_map(next) =~= want);
}

/// Replacing the record at `at`, under the same key, overwrites that key in
/// the map.
proof fn lemma_update(entries: Seq<Entry>, at: int, entry: Entry)
    requires
        distinct(entries),
        0 <= at < entries.len(),
        entry.claim@ == entries[at].claim@,
    ensures
        distinct(entries.update(at, entry)),
        as_map(entries.update(at, entry)) == as_map(entries).insert(entry.claim@, entry.record),
{
    let next = entries.update(at, entry);
    assert forall|i: int, j: int| 0 <= i < j < next.len() implies (#[trigger] next[i]).claim@ != (
    #[trigger] next[j]).claim@ by {
        assert(next[i].claim@ == entries[i].claim@);
        assert(next[j].claim@ == entries[j].claim@);
    }
    let want = as_map(entries).insert(entry.claim@, entry.record);
    assert forall|k: Seq<u8>| as_map(next).contains_key(k) == want.contains_key(k) by {
        if holds(next, k) {
            let i = place(next, k);
            assert(next[i].claim@ == entries[i].claim@);
            assert(holds(entries, k));
        }
        if holds(entries, k) {
            let i = place(entries, k);
            assert(next[i].claim@ == entries[i].claim@);
            assert(holds(next, k));
        }
        if k == entry.claim@ {
            assert(next[at] == entry);
            assert(holds(next, k));
        }
    }
    assert forall|k: Seq<u8>| as_map(next).contains_key(k) implies as_map(next)[k] == want[k] by {
        assert(holds(next, k));
        let i = place(next, k);
        lemma_entry_in_map(next, i);
        if i != at {
            assert(next[i] == entries[i]);
            lemma_entry_in_map(entries, i);
        }
    }
    assert(as_map(next) =~= want);
}

/// The claim registry: the configuration it was built with and the claims
/// that are registered, each with its record.
pub struct Pallet {
    config: Config,
    entries: Vec<Entry>,
}

impl View for Pallet {
    type V = Proofs;

    closed spec fn view(&self) -> Proofs {
        as_map(self.entries@)
    }
}

impl Pallet {
    /// The configuration that the registry was built with.
    pub closed spec fn spec_config(&self) -> Config {
        self.config
    }

    #[verifier::type_invariant]
    spec fn well_formed(&self) -> bool {
        &&& distinct(self.entries@)
        &&& forall|i: int|
            0 <= i < self.entries@.len() ==> (#[trigger] self.entries@[i]).claim@.len()
                <= self.config.max_claim_length
    }

    /// An empty registry under `config`.
    pub fn new(config: Config) -> (r: Pallet)
        ensures
            r@ == Map::<Seq<u8>, ClaimRecord>::empty(),
            r.spec_config() == config,
    {
        let r = Pallet { config, entries: Vec::new() };
        assert(r@ =~= Map::<Seq<u8>, ClaimRecord>::empty());
        r
    }

    /// The configuration that the registry was built with.
    #[verifier::when_used_as_spec(spec_config)]
    pub fn config(&self) -> (c: Config)
        ensures
            c == self.spec_config(),
    {
        self.config
    }

    /// Moves the entries out, leaving the registry empty until they are put
    /// back.
    fn take_entries(&mut self) -> (entries: Vec<Entry>)
        ensures
            entries == old(self).entries,
            final(self).config == old(self).config,
            final(self).entries@.len() == 0,
    {
        let mut entries = Vec::new();
        core::mem::swap(&mut self.entries, &mut entries);
        entries
    }

    /// Where `claim` is stored, if it is.
    fn position(&self, claim: &Claim) -> (r: Option<usize>)
        ensures
            match r {
                Some(i) => i < self.entries@.len() && self.entries@[i as int].claim@ == claim@,
                None => !self@.contains_key(claim@),
            },
    {
        let mut i: usize = 0;
        while i < self.entries.len()
            invariant
                i <= self.entries@.len(),
                forall|j: int| 0 <= j < i ==> (#[trigger] self.entries@[j]).claim@ != claim@,
            decreases self.entries@.len() - i,
        {
            if self.entries[i].claim == *claim {
                return Some(i);
            }
            i = i + 1;
        }
        proof {
            lemma_absent(self.entries@, claim@);
        }
        None
    }

    /// The record at the place that `position` gave for `claim`.
    fn record_at(&self, at: Option<usize>) -> (r: Option<ClaimRecord>)
        requires
            match at {
                Some(i) => i < self.entries@.len(),
                None => true,
            },
        ensures
            match at {
                Some(i) => r == Some(self.entries@[i as int].record) && r == lookup(
                    self@,
                    self.entries@[i as int].claim@,
                ),
                None => r is None,
            },
    {
        proof {
            use_type_invariant(self);
        }
        match at {
            Some(i) => {
                proof {
                    lemma_entry_in_map(self.entries@, i as int);
                }
                Some(self.entries[i].record)
            },
            None => None,
        }
    }

    /// The record stored for `claim`, if it is registered. Every registered
    /// claim is within the configured length.
    pub fn proofs(&self, claim: &Claim) -> (r: Option<ClaimRecord>)
        ensures
            r == lookup(self@, claim@),
            keys_within(self@, self.config().max_claim_length),
    {
        proof {
            use_type_invariant(self);
            self.lemma_keys_within();
        }
        let at = self.position(claim);
        self.record_at(at)
    }

    /// A registry whose entries are all within the length holds no longer key.
    proof fn lemma_keys_within(&self)
        requires
            self.well_formed(),
        ensures
            keys_within(self@, self.config.max_claim_length),
    {
        assert forall|k: Seq<u8>| #[trigger] self@.contains_key(k) implies k.len()
            <= self.config.max_claim_length by {
            assert(holds(self.entries@, k));
            let i = place(self.entries@, k);
            assert(self.entries@[i].claim@ == k);
        }
    }

    /// Registers `claim` for `caller` at height `now`. Refused, with the
    /// registry unchanged, where the claim is longer than the configured
    /// maximum or is already registered.
    pub fn create_claim(&mut self, caller: Identity, claim: Claim, now: BlockHeight) -> (r: Result<
        Event,
        Error,
    >)
        ensures
            final(self).config() == old(self).config(),
            final(self)@ == after_create(
                old(self).config().max_claim_length,
                old(self)@,
                caller,
                claim@,
                now,
            ),
            match r {
                Ok(event) => create_result(
                    old(self).config().max_claim_length,
                    old(self)@,
                    caller,
                    claim@,
                    now,
                ) is Ok && event == (Event::ClaimCreated { who: caller, claim }),
                Err(e) => create_result(
                    old(self).config().max_claim_length,
                    old(self)@,
                    caller,
                    claim@,
                    now,
                ) == Err::<ClaimRecord, Error>(e),
            },
            keys_within(final(self)@, final(self).config().max_claim_length),
    {
        proof {
            use_type_invariant(&*self);
            self.lemma_keys_within();
        }
        if claim.len() > self.config.max_claim_length as usize {
            return Err(Error::ClaimTooLong);
        }
        let state = self.proofs(&claim);
        match decide_create(state, caller, now) {
            Err(e) => Err(e),
            Ok(record) => {
                let entry = Entry { claim: claim.clone(), record };
                proof {
                    lemma_push(self.entries@, entry);
                }
                let mut entries = self.take_entries();
                entries.push(entry);
                self.entries = entries;
                proof {
                    use_type_invariant(&*self);
                    self.lemma_keys_within();
                }
                Ok(Event::ClaimCreated { who: caller, claim })
            },
        }
    }

    /// Removes `claim` on behalf of `caller`. Refused, with the registry
    /// unchanged, where the claim is not registered or is owned by another.
    pub fn revoke_claim(&mut self, caller: Identity, claim: Claim) -> (r: Result<Event, Error>)
        ensures
            final(self).config() == old(self).config(),
            final(self)@ == after_revoke(old(self)@, caller, claim@),
            match r {
                Ok(event) => revoke_result(old(self)@, caller, claim@) is Ok && event == (
                Event::ClaimRevoked { who: caller, claim }),
                Err(e) => revoke_result(old(self)@, caller, claim@) == Err::<(), Error>(e),
            },
            keys_within(final(self)@, final(self).config().max_claim_length),
    {
        proof {
            use_type_invariant(&*self);
            self.lemma_keys_within();
        }
        let at = self.position(&claim);
        match decide_revoke(self.record_at(at), caller) {
            Err(e) => Err(e),
            Ok(_) => {
                let i = at.unwrap();
                proof {
                    lemma_remove(self.entries@, i as int);
                }
                let mut entries = self.take_entries();
                entries.remove(i);
                self.entries = entries;
                proof {
                    use_type_invariant(&*self);
                    self.lemma_keys_within();
                }
                Ok(Event::ClaimRevoked { who: caller, claim })
            },
        }
    }

    /// Hands `claim` from `caller` to `recipient` at height `now`. Refused,
    /// with the registry unchanged, where the claim is not registered or is
    /// owned by another. The recipient may be the caller.
    pub fn trans_claim(
        &mut self,
        caller: Identity,
        claim: Claim,
        recipient: Identity,
        now: BlockHeight,
    ) -> (r: Result<Event, Error>)
        ensures
            final(self).config() == old(self).config(),
            final(self)@ == after_trans(old(self)@, caller, claim@, recipient, now),
            match r {
                Ok(event) => trans_result(old(self)@, caller, claim@, recipient, now) is Ok
                    && event == (Event::ClaimTransferred { who: caller, claim, to: recipient }),
                Err(e) => trans_result(old(self)@, caller, claim@, recipient, now) == Err::<
                    ClaimRecord,
                    Error,
                >(e),
            },
            keys_within(final(self)@, final(self).config().max_claim_length),
    {
        proof {
            use_type_invariant(&*self);
            self.lemma_keys_within();
        }
        let at = self.position(&claim);
        match decide_transfer(self.record_at(at), caller, recipient, now) {
            Err(e) => Err(e),
            Ok(record) => {
                let i = at.unwrap();
                let entry = Entry { claim: claim.clone(), record };
                proof {
                    lemma_update(self.entries@, i as int, entry);
                }
                let mut entries = self.take_entries();
                entries.set(i, entry);
                self.entries = entries;
                proof {
                    use_type_invariant(&*self);
                    self.lemma_keys_within();
                }
                Ok(Event::ClaimTransferred { who: caller, claim, to: recipient })
            },
        }
    }
}

} // verus!
