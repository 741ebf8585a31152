use vstd::prelude::*;

verus! {

/// One stored record: a key, a value, and an optional remaining time-to-live
/// in seconds. `ttl == None` means the entry never expires; `ttl == Some(0)`
/// means it is expired and eligible for removal by the next sweep.
pub struct Entry {
    pub key: String,
    pub value: String,
    pub ttl: Option<u64>,
}

/// Error returned by lookups and removals when no entry matches the key.
#[derive(Debug, Clone, Copy, PartialEq, Eq, Structural)]
pub enum KvError {
    KeyNotFound,
}

/// The in-memory store: a sequence of entries, insertion order preserved.
/// Keys are not unique; `set` always appends, so one key may be present in
/// several entries at once.
pub struct Store {
    pub entries: Vec<Entry>,
}

impl View for Store {
    type V = Seq<Entry>;

    open spec fn view(&self) -> Seq<Entry> {
        self.entries@
    }
}

/// Index of the matching entry with the highest position whose key equals
/// `k`, or -1 when no entry of `s` has key `k` (highest-index-wins policy).
pub open spec fn last_index_of(s: Seq<Entry>, k: Seq<char>) -> int
    decreases s.len(),
{
    if s.len() == 0 {
        -1
    } else if s.last().key@ == k {
        s.len() - 1
    } else {
        last_index_of(s.drop_last(), k)
    }
}

/// The entry a lookup of `k` observes: the matching entry of highest index,
/// or `None` when no entry matches.
pub open spec fn lookup(s: Seq<Entry>, k: Seq<char>) -> Option<Entry> {
    if last_index_of(s, k) >= 0 {
        Some(s[last_index_of(s, k)])
    } else {
        None
    }
}

/// Whether some entry of `s` has key `k`.
pub open spec fn has_key(s: Seq<Entry>, k: Seq<char>) -> bool {
    exists|j: int| 0 <= j < s.len() && s[j].key@ == k
}

/// Where `last_index_of` points: when non-negative it is the index of a
/// matching entry above which no entry matches; when negative, no entry of
/// `s` matches at all.
pub proof fn lemma_last_index_of_props(s: Seq<Entry>, k: Seq<char>)
    ensures
        last_index_of(s, k) >= 0 ==> {
            &&& last_index_of(s, k) < s.len()
            &&& s[last_index_of(s, k)].key@ == k
            &&& forall|j: int| last_index_of(s, k) < j < s.len() ==> s[j].key@ != k
        },
        last_index_of(s, k) < 0 ==> forall|j: int| 0 <= j < s.len() ==> s[j].key@ != k,
    decreases s.len(),
{
    if s.len() == 0 {
    } else if s.last().key@ == k {
    } else {
        lemma_last_index_of_props(s.drop_last(), k);
        assert(forall|j: int| 0 <= j < s.len() - 1 ==> s.drop_last()[j] == s[j]);
    }
}

/// An entry is expired once its remaining time-to-live has reached zero;
/// an entry without a time-to-live never expires.
pub open spec fn is_expired(e: Entry) -> bool {
    e.ttl == Some(0u64)
}

/// One step of the clock for a single entry: a remaining time-to-live is
/// decreased by `secs`, saturating at zero; an entry without one is left
/// untouched. Key and value are never changed.
pub open spec fn decay_entry(e: Entry, secs: u64) -> Entry {
    match e.ttl {
        Some(t) => (Entry {
            key: e.key,
            value: e.value,
            ttl: Some(if t > secs { (t - secs) as u64 } else { 0u64 }),
        }),
        None => e,
    }
}

/// The whole store after `secs` seconds have passed: every entry decays
/// independently of the others, and none is added or removed.
pub open spec fn decay(s: Seq<Entry>, secs: u64) -> Seq<Entry> {
    s.map_values(|e: Entry| decay_entry(e, secs))
}

/// The store after a sweep: every expired entry is removed, and the
/// remaining entries keep their relative order.
pub open spec fn sweep(s: Seq<Entry>) -> Seq<Entry>
    decreases s.len(),
{
    if s.len() == 0 {
        Seq::<Entry>::empty()
    } else if is_expired(s.last()) {
        sweep(s.drop_last())
    } else {
        sweep(s.drop_last()).push(s.last())
    }
}

/// How `sweep` grows with its argument, prefix by prefix: the next entry is
/// kept exactly when it is not expired.
pub proof fn lemma_sweep_take_step(s: Seq<Entry>, i: int)
    requires
        0 <= i < s.len(),
    ensures
        is_expired(s[i]) ==> sweep(s.take(i + 1)) == sweep(s.take(i)),
        !is_expired(s[i]) ==> sweep(s.take(i + 1)) == sweep(s.take(i)).push(s[i]),
{
    assert(s.take(i + 1).drop_last() =~= s.take(i));
    assert(s.take(i + 1).last() == s[i]);
}

/// `last_index_of` finds exactly the matching index above which nothing
/// matches: the converse direction of `lemma_last_index_of_props`.
pub proof fn lemma_last_index_of_at(s: Seq<Entry>, k: Seq<char>, m: int)
    requires
        0 <= m < s.len(),
        s[m].key@ == k,
        forall|j: int| m < j < s.len() ==> s[j].key@ != k,
    ensures
        last_index_of(s, k) == m,
    decreases s.len(),
{
    if m == s.len() - 1 {
        assert(s.last() == s[m]);
    } else {
        assert(s.last().key@ != k);
        assert(s.drop_last()[m] == s[m]);
        assert(forall|j: int| m < j < s.len() - 1 ==> s.drop_last()[j] == s[j]);
        lemma_last_index_of_at(s.drop_last(), k, m);
    }
}

impl Store {
    /// An empty store.
    pub fn new() -> (s: Store)
        ensures
            s@ == Seq::<Entry>::empty(),
    {
        Store { entries: Vec::new() }
    }

    /// Number of entries currently stored.
    pub fn len(&self) -> (n: usize)
        ensures
            n == self@.len(),
    {
        self.entries.len()
    }

    /// SET: appends `entry` at the end of the store. Always succeeds; no
    /// other entry is touched, so the length grows by exactly one.
    pub fn set(&mut self, entry: Entry)
        ensures
            final(self)@ == old(self)@.push(entry),
    {
        self.entries.push(entry);
    }

    /// GET: scans the whole store for entries whose key equals `key` and
    /// returns the value of the matching entry with the highest index
    /// (the most recently inserted one); `KeyNotFound` when none matches.
    /// The scan is a single sequential pass from the end, which observes
    /// exactly what a highest-index-wins parallel fan-out would.
    pub fn get(&self, key: &String) -> (result: Result<String, KvError>)
        ensures
            match result {
                Ok(v) => lookup(self@, key@) matches Some(e) && v@ == e.value@,
                Err(err) => lookup(self@, key@) is None && err == KvError::KeyNotFound,
            },
    {
        let n = self.entries.len();
        let mut i = n;
        while i > 0
            invariant
                i <= n,
                n == self@.len(),
                forall|j: int| i <= j < n ==> self@[j].key@ != key@,
            decreases i,
        {
            i = i - 1;
            if self.entries[i].key == *key {
                proof {
                    lemma_last_index_of_at(self@, key@, i as int);
                }
                return Ok(self.entries[i].value.clone());
            }
        }
        proof {
            lemma_last_index_of_props(self@, key@);
        }
        Err(KvError::KeyNotFound)
    }

    /// DELETE: scans for entries whose key equals `key`, removes the
    /// matching entry with the highest index (the same tie-break rule as
    /// `get`), and reports success. When no entry matches, `KeyNotFound`
    /// is returned and the store is left unmodified. Exactly one entry is
    /// removed per successful call, however many share the key.
    pub fn delete(&mut self, key: &String) -> (result: Result<(), KvError>)
        ensures
            match result {
                Ok(()) => {
                    &&& lookup(old(self)@, key@) is Some
                    &&& final(self)@ == old(self)@.remove(last_index_of(old(self)@, key@))
                },
                Err(err) => {
                    &&& lookup(old(self)@, key@) is None
                    &&& err == KvError::KeyNotFound
                    &&& final(self)@ == old(self)@
                },
            },
    {
        let n = self.entries.len();
        let mut i = n;
        while i > 0
            invariant
                i <= n,
                n == self@.len(),
                self@ == old(self)@,
                forall|j: int| i <= j < n ==> self@[j].key@ != key@,
            decreases i,
        {
            i = i - 1;
            if self.entries[i].key == *key {
                proof {
                    lemma_last_index_of_at(self@, key@, i as int);
                }
                self.entries.remove(i);
                return Ok(());
            }
        }
        proof {
            lemma_last_index_of_props(self@, key@);
        }
        Err(KvError::KeyNotFound)
    }

    /// Sweeper: removes every entry whose remaining time-to-live is zero,
    /// preserving the relative order of all other entries. Idempotent: with
    /// no `wait` or `set` in between, a second call changes nothing.
    pub fn delete_ttls(&mut self)
        ensures
            final(self)@ == sweep(old(self)@),
    {
        let n = self.entries.len();
        let mut kept: Vec<Entry> = Vec::new();
        let mut i: usize = 0;
        while i < n
            invariant
                i <= n,
                n == self@.len(),
                self@ == old(self)@,
                kept@ == sweep(self@.take(i as int)),
            decreases n - i,
        {
            proof {
                lemma_sweep_take_step(self@, i as int);
            }
            let keep: bool = match self.entries[i].ttl {
                Some(t) => t != 0,
                None => true,
            };
            if keep {
                let copy = Entry {
                    key: self.entries[i].key.clone(),
                    value: self.entries[i].value.clone(),
                    ttl: self.entries[i].ttl,
                };
                assert(copy == self@[i as int]);
                kept.push(copy);
            }
            i = i + 1;
        }
        assert(self@.take(n as int) =~= self@);
        self.entries = kept;
    }

    /// WAIT: advances the clock by `secs`. Every entry with a remaining
    /// time-to-live has it decreased by `secs`, saturating at zero; entries
    /// without one are untouched. The sweeper then runs before control
    /// returns, so no expired entry survives the call.
    pub fn wait(&mut self, secs: u64)
        ensures
            final(self)@ == sweep(decay(old(self)@, secs)),
    {
        let n = self.entries.len();
        let mut updated: Vec<Entry> = Vec::new();
        let mut i: usize = 0;
        while i < n
            invariant
                i <= n,
                n == self@.len(),
                self@ == old(self)@,
                updated@.len() == i,
                forall|j: int| 0 <= j < i ==> updated@[j] == decay_entry(self@[j], secs),
            decreases n - i,
        {
            let new_ttl: Option<u64> = match self.entries[i].ttl {
                Some(t) => Some(if t > secs { t - secs } else { 0u64 }),
                None => None,
            };
            let copy = Entry {
                key: self.entries[i].key.clone(),
                value: self.entries[i].value.clone(),
                ttl: new_ttl,
            };
            assert(copy == decay_entry(self@[i as int], secs));
            updated.push(copy);
            i = i + 1;
        }
        assert(updated@ =~= decay(old(self)@, secs));
        self.entries = updated;
        self.delete_ttls();
    }
}

} // verus!
