//! The pending interest table: interests that were forwarded and not yet
//! answered, with the interfaces they came in on and when they last arrived.
use vstd::prelude::*;
use std::time::Instant;
use crate::clock::{elapsed_between, instant_now, nanos_since};
use crate::string_map::StringMap;

verus! {

/// How long an interest stays pending: four seconds, in nanoseconds.
pub const DEFAULT_INTEREST_LIFETIME_NANOS: u64 = 4_000_000_000;

/// The names of a list of interfaces.
pub open spec fn names_of(v: Seq<String>) -> Seq<Seq<char>> {
    v.map_values(|s: String| s@)
}

/// One pending interest.
pub struct PitEntry {
    /// The interfaces the interest came in on, each once, in order of arrival.
    pub interfaces: Vec<String>,
    /// When the interest last arrived, in nanoseconds on the table's clock.
    pub timestamp: u64,
}

/// An interest is still pending at `now` while less than its lifetime has passed.
pub open spec fn is_fresh(e: PitEntry, now: u64) -> bool {
    elapsed_between(e.timestamp, now) < DEFAULT_INTEREST_LIFETIME_NANOS
}

/// An interest lists at least one interface, and none twice.
pub open spec fn interfaces_ok(e: PitEntry) -> bool {
    &&& e.interfaces@.len() > 0
    &&& names_of(e.interfaces@).no_duplicates()
}

/// The interests of `m` that are fresh at `now`, each as it was.
pub open spec fn fresh_at(m: Map<Seq<char>, PitEntry>, now: u64) -> Map<Seq<char>, PitEntry> {
    m.restrict(m.dom().filter(|k: Seq<char>| is_fresh(m[k], now)))
}

/// The interfaces of `old` with `iface` added at the end unless it is there already.
pub open spec fn with_interface(old: Seq<Seq<char>>, iface: Seq<char>) -> Seq<Seq<char>> {
    if old.contains(iface) {
        old
    } else {
        old.push(iface)
    }
}

pub struct PendingInterestTable {
    entries: StringMap<PitEntry>,
    clock: Instant,
}

impl View for PendingInterestTable {
    type V = Map<Seq<char>, PitEntry>;

    closed spec fn view(&self) -> Map<Seq<char>, PitEntry> {
        self.entries@
    }
}

/// Whether `name` occurs in `list`.
fn contains_name(list: &Vec<String>, name: &String) -> (b: bool)
    ensures
        b == names_of(list@).contains(name@),
{
    let n = list.len();
    let mut i: usize = 0;
    while i < n
        invariant
            n == list@.len(),
            i <= n,
            forall|j: int| 0 <= j < i ==> list@[j]@ != name@,
        decreases n - i,
    {
        if list[i] == *name {
            assert(names_of(list@)[i as int] == name@);
            return true;
        }
        i = i + 1;
    }
    proof {
        if names_of(list@).contains(name@) {
            let j = choose|j: int| 0 <= j < names_of(list@).len() && names_of(list@)[j] == name@;
            assert(list@[j]@ == name@);
        }
    }
    false
}

/// A copy of a list of interface names.
fn copy_names(list: &Vec<String>) -> (c: Vec<String>)
    ensures
        c@ == list@,
{
    let c = list.clone();
    proof {
        assert forall|i: int| 0 <= i < list@.len() implies c@[i] == list@[i] by {
            assert(vstd::pervasive::cloned::<String>(list@[i], c@[i]));
        }
        assert(c@ =~= list@);
    }
    c
}

impl PendingInterestTable {
    pub closed spec fn wf(&self) -> bool {
        &&& self.entries.wf()
        &&& forall|k: Seq<char>| #[trigger] self.entries@.contains_key(k) ==> interfaces_ok(self.entries@[k])
    }

    /// An empty table.
    pub fn new() -> (t: Self)
        ensures
            t.wf(),
            t@ == Map::<Seq<char>, PitEntry>::empty(),
    {
        PendingInterestTable { entries: StringMap::new(), clock: instant_now() }
    }

    /// The table's clock, in nanoseconds since the table was made.
    pub fn now(&self) -> u64 {
        nanos_since(&self.clock)
    }

    /// Records an interest in `name` that came in on `interface` at time `now`:
    /// a pending interest gains the interface if it is new and takes `now` as
    /// its time; otherwise a new entry holds just this interface.
    pub fn add_interest_at(&mut self, name: String, interface: &str, now: u64)
        requires
            old(self).wf(),
        ensures
            final(self).wf(),
            final(self)@.dom() == old(self)@.dom().insert(name@),
            forall|k: Seq<char>| k != name@ && #[trigger] old(self)@.contains_key(k) ==> final(self)@[k]
                == old(self)@[k],
            final(self)@[name@].timestamp == now,
            old(self)@.contains_key(name@) ==> names_of(final(self)@[name@].interfaces@)
                == with_interface(names_of(old(self)@[name@].interfaces@), interface@),
            !old(self)@.contains_key(name@) ==> names_of(final(self)@[name@].interfaces@) == seq![
                interface@,
            ],
    {
        let iface = interface.to_owned();
        let ghost old_map = self.entries@;
        let existing = self.entries.remove(&name);
        match existing {
            Some(entry) => {
                let mut interfaces = entry.interfaces;
                if !contains_name(&interfaces, &iface) {
                    interfaces.push(iface);
                    proof {
                        assert(names_of(interfaces@) =~= names_of(entry.interfaces@).push(interface@));
                    }
                }
                self.entries.insert(name, PitEntry { interfaces, timestamp: now });
            },
            None => {
                let mut interfaces = Vec::new();
                interfaces.push(iface);
                proof {
                    assert(names_of(interfaces@) =~= seq![interface@]);
                }
                self.entries.insert(name, PitEntry { interfaces, timestamp: now });
            },
        }
        proof {
            assert(self.entries@.dom() =~= old_map.dom().insert(name@));
        }
    }

    /// Records an interest in `name` that came in on `interface`, now.
    pub fn add_interest(&mut self, name: String, interface: &str)
        requires
            old(self).wf(),
        ensures
            final(self).wf(),
            final(self)@.dom() == old(self)@.dom().insert(name@),
            forall|k: Seq<char>| k != name@ && #[trigger] old(self)@.contains_key(k) ==> final(self)@[k]
                == old(self)@[k],
            old(self)@.contains_key(name@) ==> names_of(final(self)@[name@].interfaces@)
                == with_interface(names_of(old(self)@[name@].interfaces@), interface@),
            !old(self)@.contains_key(name@) ==> names_of(final(self)@[name@].interfaces@) == seq![
                interface@,
            ],
    {
        let now = self.now();
        self.add_interest_at(name, interface, now);
    }

    /// Drops the interest in `name`, if any.
    pub fn remove_interest(&mut self, name: &str)
        requires
            old(self).wf(),
        ensures
            final(self).wf(),
            final(self)@ == old(self)@.remove(name@),
    {
        let key = name.to_owned();
        self.entries.remove(&key);
    }

    /// Whether an interest in `name` is pending.
    pub fn has_pending_interest(&self, name: &str) -> (b: bool)
        requires
            self.wf(),
        ensures
            b == self@.contains_key(name@),
    {
        let key = name.to_owned();
        self.entries.contains_key(&key)
    }

    /// The interfaces a pending interest in `name` came in on.
    pub fn get_incoming_interfaces(&self, name: &str) -> (r: Option<Vec<String>>)
        requires
            self.wf(),
        ensures
            r.is_some() == self@.contains_key(name@),
            r matches Some(v) ==> v@ == self@[name@].interfaces@,
            r matches Some(v) ==> v@.len() > 0 && names_of(v@).no_duplicates(),
    {
        let key = name.to_owned();
        match self.entries.get(&key) {
            Some(entry) => Some(copy_names(&entry.interfaces)),
            None => None,
        }
    }

    /// Adds `interface` to a pending interest in `name` unless it is listed
    /// already; the time of the interest is kept. Without such an interest,
    /// nothing changes.
    pub fn add_incoming_interface(&mut self, name: &str, interface: &str)
        requires
            old(self).wf(),
        ensures
            final(self).wf(),
            !old(self)@.contains_key(name@) ==> final(self)@ == old(self)@,
            old(self)@.contains_key(name@) ==> {
                &&& final(self)@.dom() == old(self)@.dom()
                &&& forall|k: Seq<char>| k != name@ && #[trigger] old(self)@.contains_key(k) ==> final(self)@[k] == old(self)@[k]
                &&& final(self)@[name@].timestamp == old(self)@[name@].timestamp
                &&& names_of(final(self)@[name@].interfaces@) == with_interface(
                    names_of(old(self)@[name@].interfaces@),
                    interface@,
                )
            },
    {
        let key = name.to_owned();
        let iface = interface.to_owned();
        let ghost old_map = self.entries@;
        if self.entries.contains_key(&key) {
            let existing = self.entries.remove(&key);
            match existing {
                Some(entry) => {
                    let mut interfaces = entry.interfaces;
                    if !contains_name(&interfaces, &iface) {
                        interfaces.push(iface);
                        proof {
                            assert(names_of(interfaces@) =~= names_of(entry.interfaces@).push(
                                interface@,
                            ));
                        }
                    }
                    self.entries.insert(key, PitEntry { interfaces, timestamp: entry.timestamp });
                    proof {
                        assert(self.entries@.dom() =~= old_map.dom());
                    }
                },
                None => {},
            }
        }
    }

    /// Drops every interest whose lifetime has run out at time `now`.
    pub fn clear_expired_at(&mut self, now: u64)
        requires
            old(self).wf(),
        ensures
            final(self).wf(),
            final(self)@ == old(self)@.restrict(
                old(self)@.dom().filter(|k: Seq<char>| is_fresh(old(self)@[k], now)),
            ),
    {
        let ghost old_map = self.entries@;
        let n = self.entries.len();
        let mut expired: Vec<String> = Vec::new();
        let mut i: usize = 0;
        while i < n
            invariant
                self.entries.wf(),
                self.entries@ == old_map,
                n == self.entries.key_seq().len(),
                i <= n,
                forall|j: int| 0 <= j < expired@.len() ==> old_map.contains_key(#[trigger] expired@[j]@)
                    && !is_fresh(old_map[expired@[j]@], now),
                forall|j: int|
                    0 <= j < i ==> #[trigger] is_fresh(old_map[self.entries.key_seq()[j]], now)
                        || names_of(expired@).contains(self.entries.key_seq()[j]),
            decreases n - i,
        {
            let ts = self.entries.value_at(i).timestamp;
            let age: u64 = if ts <= now {
                now - ts
            } else {
                0
            };
            if age >= DEFAULT_INTEREST_LIFETIME_NANOS {
                let k = self.entries.key_at(i).clone();
                let ghost before = expired@;
                expired.push(k);
                proof {
                    assert(names_of(expired@) =~= names_of(before).push(k@));
                    assert forall|j: int|
                        0 <= j < i implies #[trigger] is_fresh(
                            old_map[self.entries.key_seq()[j]],
                            now,
                        ) || names_of(expired@).contains(self.entries.key_seq()[j]) by {
                        if names_of(before).contains(self.entries.key_seq()[j]) {
                            let m = choose|m: int|
                                0 <= m < names_of(before).len() && names_of(before)[m]
                                    == self.entries.key_seq()[j];
                            assert(names_of(expired@)[m] == self.entries.key_seq()[j]);
                        }
                    }
                    assert(names_of(expired@)[before.len() as int] == k@);
                    self.entries.lemma_len();
                    assert(self.entries.key_seq().to_set().contains(k@));
                }
            }
            i = i + 1;
        }
        proof {
            self.entries.lemma_len();
        }
        let m = expired.len();
        let mut r: usize = 0;
        while r < m
            invariant
                self.entries.wf(),
                m == expired@.len(),
                r <= m,
                self.entries@ == old_map.remove_keys(names_of(expired@.subrange(0, r as int)).to_set()),
            decreases m - r,
        {
            let ghost before = self.entries@;
            self.entries.remove(&expired[r]);
            proof {
                let prev = names_of(expired@.subrange(0, r as int));
                let x = expired@[r as int]@;
                assert(names_of(expired@.subrange(0, r + 1)) =~= prev.push(x));
                prev.lemma_push_to_set_commute(x);
                assert(old_map.remove_keys(prev.to_set().insert(x)) =~= old_map.remove_keys(
                    prev.to_set(),
                ).remove(x));
                assert(self.entries@ =~= old_map.remove_keys(
                    names_of(expired@.subrange(0, r + 1)).to_set(),
                ));
            }
            r = r + 1;
        }
        proof {
            assert(expired@.subrange(0, m as int) =~= expired@);
            let keep = old_map.dom().filter(|k: Seq<char>| is_fresh(old_map[k], now));
            assert forall|k: Seq<char>| #![auto] old_map.contains_key(k) implies (names_of(
                expired@,
            ).to_set().contains(k) <==> !is_fresh(old_map[k], now)) by {
                if names_of(expired@).to_set().contains(k) {
                    let j = choose|j: int| 0 <= j < names_of(expired@).len() && names_of(expired@)[j] == k;
                    assert(expired@[j]@ == k);
                }
            }
            assert(self.entries@ =~= old_map.restrict(keep));
        }
    }

    /// Drops every interest whose lifetime has run out.
    pub fn clear_expired(&mut self)
        requires
            old(self).wf(),
        ensures
            final(self).wf(),
            forall|k: Seq<char>| #[trigger] final(self)@.contains_key(k) ==> old(self)@.contains_key(k)
                && final(self)@[k] == old(self)@[k],
            exists|now: u64| final(self)@ == #[trigger] fresh_at(old(self)@, now),
    {
        let now = self.now();
        self.clear_expired_at(now);
        assert(self@ == fresh_at(old(self)@, now));
    }

    /// Whether no interest is pending.
    pub fn is_empty(&self) -> (b: bool)
        requires
            self.wf(),
        ensures
            b == (self@ == Map::<Seq<char>, PitEntry>::empty()),
    {
        self.entries.is_empty()
    }
}

/// Every pending interest lists at least one interface, and none twice.
pub proof fn lemma_interfaces_listed_once(pit: PendingInterestTable, name: Seq<char>)
    requires
        pit.wf(),
    ensures
        pit@.contains_key(name) ==> pit@[name].interfaces@.len() > 0 && names_of(pit@[name].interfaces@).no_duplicates(),
{
    if pit@.contains_key(name) {
        assert(interfaces_ok(pit@[name]));
    }
}

/// An interest just recorded at `now` on `interface` is pending, lists
/// that interface, and is fresh at `now`.
pub proof fn lemma_recorded_interest_is_pending(
    before: Map<Seq<char>, PitEntry>,
    after: Map<Seq<char>, PitEntry>,
    name: Seq<char>,
    interface: Seq<char>,
    now: u64,
)
    requires
        after.dom() == before.dom().insert(name),
        after[name].timestamp == now,
        before.contains_key(name) ==> names_of(after[name].interfaces@) == with_interface(
            names_of(before[name].interfaces@),
            interface,
        ),
        !before.contains_key(name) ==> names_of(after[name].interfaces@) == seq![interface],
    ensures
        after.contains_key(name),
        names_of(after[name].interfaces@).contains(interface),
        is_fresh(after[name], now),
{
    assert(after.dom().contains(name));
    if before.contains_key(name) {
        let old_names = names_of(before[name].interfaces@);
        if !old_names.contains(interface) {
            assert(old_names.push(interface)[old_names.len() as int] == interface);
        }
    } else {
        assert(seq![interface][0] == interface);
    }
}

/// Clearing at `now` keeps exactly the interests that are fresh at `now`,
/// each as it was.
pub proof fn lemma_clearing_keeps_the_fresh(
    before: Map<Seq<char>, PitEntry>,
    after: Map<Seq<char>, PitEntry>,
    now: u64,
)
    requires
        after == before.restrict(before.dom().filter(|k: Seq<char>| is_fresh(before[k], now))),
    ensures
        forall|k: Seq<char>| #[trigger] after.contains_key(k) ==> is_fresh(after[k], now),
        forall|k: Seq<char>|
            #[trigger] before.contains_key(k) && is_fresh(before[k], now) ==> after.contains_key(k)
                && after[k] == before[k],
        forall|k: Seq<char>|
            #[trigger] before.contains_key(k) && !is_fresh(before[k], now) ==> !after.contains_key(k),
{
}

} // verus!
