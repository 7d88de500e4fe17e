//! The forwarding information base: for each name prefix, the next hops
//! that interests under it are sent to.
use vstd::prelude::*;
use crate::string_map::StringMap;

verus! {

/// A socket address, as the plain values that make it up.
#[derive(Debug, Clone, Copy, PartialEq, Eq, Structural)]
pub enum SocketAddress {
    /// An IPv4 address (as its 32-bit number) and port.
    V4 { ip: u32, port: u16 },
    /// An IPv6 address (as its 128-bit number), port, flow label and scope id.
    V6 { ip: u128, port: u16, flowinfo: u32, scope_id: u32 },
}

/// The next hops for one name prefix.
#[derive(Debug, Clone)]
pub struct FibEntry {
    pub name: String,
    pub next_hops: Vec<SocketAddress>,
}

/// Whether `a` occurs in `hops`.
fn contains_hop(hops: &Vec<SocketAddress>, a: SocketAddress) -> (b: bool)
    ensures
        b == hops@.contains(a),
{
    let n = hops.len();
    let mut i: usize = 0;
    while i < n
        invariant
            n == hops@.len(),
            i <= n,
            forall|j: int| 0 <= j < i ==> hops@[j] != a,
        decreases n - i,
    {
        if hops[i] == a {
            return true;
        }
        i = i + 1;
    }
    false
}

impl FibEntry {
    /// An entry for `name` with the single next hop `next_hop`.
    pub fn new(name: String, next_hop: SocketAddress) -> (e: FibEntry)
        ensures
            e.name == name,
            e.next_hops@ == seq![next_hop],
    {
        let mut next_hops = Vec::new();
        next_hops.push(next_hop);
        assert(next_hops@ =~= seq![next_hop]);
        FibEntry { name, next_hops }
    }

    /// Adds `next_hop` at the end unless it is listed already.
    pub fn add_next_hop(&mut self, next_hop: SocketAddress)
        ensures
            final(self).name == old(self).name,
            final(self).next_hops@ == if old(self).next_hops@.contains(next_hop) {
                old(self).next_hops@
            } else {
                old(self).next_hops@.push(next_hop)
            },
    {
        if !contains_hop(&self.next_hops, next_hop) {
            self.next_hops.push(next_hop);
        }
    }

    /// Removes every occurrence of `next_hop`; the others keep their order.
    pub fn remove_next_hop(&mut self, next_hop: &SocketAddress)
        ensures
            final(self).name == old(self).name,
            final(self).next_hops@ == old(self).next_hops@.filter(|x: SocketAddress| x != *next_hop),
    {
        let target = *next_hop;
        let mut kept: Vec<SocketAddress> = Vec::new();
        let n = self.next_hops.len();
        let mut i: usize = 0;
        while i < n
            invariant
                n == self.next_hops@.len(),
                i <= n,
                self.next_hops == old(self).next_hops,
                self.name == old(self).name,
                kept@ == self.next_hops@.subrange(0, i as int).filter(
                    |x: SocketAddress| x != target,
                ),
            decreases n - i,
        {
            let h = self.next_hops[i];
            proof {
                let sub = self.next_hops@.subrange(0, i + 1);
                assert(sub.drop_last() =~= self.next_hops@.subrange(0, i as int));
                assert(sub.last() == h);
                reveal_with_fuel(Seq::filter, 1);
            }
            if h != target {
                kept.push(h);
            }
            i = i + 1;
        }
        proof {
            assert(self.next_hops@.subrange(0, n as int) =~= self.next_hops@);
        }
        self.next_hops = kept;
    }
}

/// Whether the characters of `prefix` begin those of `name`.
pub fn has_prefix(name: &String, prefix: &String) -> (b: bool)
    ensures
        b == prefix@.is_prefix_of(name@),
{
    let pn = prefix.as_str().unicode_len();
    let nn = name.as_str().unicode_len();
    if pn > nn {
        return false;
    }
    let mut i: usize = 0;
    while i < pn
        invariant
            pn == prefix@.len(),
            nn == name@.len(),
            pn <= nn,
            i <= pn,
            forall|j: int| 0 <= j < i ==> prefix@[j] == name@[j],
        decreases pn - i,
    {
        if prefix.as_str().get_char(i) != name.as_str().get_char(i) {
            return false;
        }
        i = i + 1;
    }
    assert(prefix@ =~= name@.subrange(0, pn as int));
    true
}

/// The forwarding table, each entry stored under its own name.
pub struct ForwardingInformationBase {
    entries: StringMap<FibEntry>,
}

impl View for ForwardingInformationBase {
    type V = Map<Seq<char>, FibEntry>;

    closed spec fn view(&self) -> Map<Seq<char>, FibEntry> {
        self.entries@
    }
}

/// Whether `k` is a key of `m` that is a nonempty prefix of `name`.
pub open spec fn matching_prefix(m: Map<Seq<char>, FibEntry>, k: Seq<char>, name: Seq<char>) -> bool {
    m.contains_key(k) && k.len() > 0 && k.is_prefix_of(name)
}

impl ForwardingInformationBase {
    /// Every entry is stored under its own name.
    pub closed spec fn wf(&self) -> bool {
        &&& self.entries.wf()
        &&& forall|k: Seq<char>| #[trigger] self.entries@.contains_key(k) ==> self.entries@[k].name@ == k
    }

    /// An empty table.
    pub fn new() -> (f: Self)
        ensures
            f.wf(),
            f@ == Map::<Seq<char>, FibEntry>::empty(),
    {
        ForwardingInformationBase { entries: StringMap::new() }
    }

    /// Adds `next_hop` for `name`: to its entry unless listed there already,
    /// or as the single hop of a new entry.
    pub fn add_entry(&mut self, name: String, next_hop: SocketAddress)
        requires
            old(self).wf(),
        ensures
            final(self).wf(),
            final(self)@.dom() == old(self)@.dom().insert(name@),
            forall|k: Seq<char>| k != name@ && #[trigger] old(self)@.contains_key(k) ==> final(self)@[k]
                == old(self)@[k],
            final(self)@[name@].name@ == name@,
            old(self)@.contains_key(name@) ==> final(self)@[name@].next_hops@ == if old(self)@[name@].next_hops@.contains(next_hop) {
                old(self)@[name@].next_hops@
            } else {
                old(self)@[name@].next_hops@.push(next_hop)
            },
            !old(self)@.contains_key(name@) ==> final(self)@[name@].next_hops@ == seq![next_hop],
    {
        let ghost old_map = self.entries@;
        let existing = self.entries.remove(&name);
        match existing {
            Some(mut entry) => {
                entry.add_next_hop(next_hop);
                self.entries.insert(name, entry);
            },
            None => {
                let key = name.clone();
                self.entries.insert(key, FibEntry::new(name, next_hop));
            },
        }
        proof {
            assert(self.entries@.dom() =~= old_map.dom().insert(name@));
        }
    }

    /// Removes the entry for `name`, if any.
    pub fn remove_entry(&mut self, name: &str)
        requires
            old(self).wf(),
        ensures
            final(self).wf(),
            final(self)@ == old(self)@.remove(name@),
    {
        let key = name.to_owned();
        self.entries.remove(&key);
    }

    /// The next hops for exactly `name`, if it has an entry.
    pub fn get_next_hops(&self, name: &str) -> (r: Option<&Vec<SocketAddress>>)
        requires
            self.wf(),
        ensures
            r.is_some() == self@.contains_key(name@),
            r matches Some(h) ==> h@ == self@[name@].next_hops@,
    {
        let key = name.to_owned();
        match self.entries.get(&key) {
            Some(e) => Some(&e.next_hops),
            None => None,
        }
    }

    /// The entry under the longest nonempty name that is a prefix of `name`.
    pub fn longest_prefix_match(&self, name: &str) -> (r: Option<&FibEntry>)
        requires
            self.wf(),
        ensures
            r is None <==> !exists|k: Seq<char>| #[trigger] matching_prefix(self@, k, name@),
            r matches Some(e) ==> matching_prefix(self@, e.name@, name@) && *e == self@[e.name@]
                && forall|k: Seq<char>| #[trigger] matching_prefix(self@, k, name@) ==> k.len()
                <= e.name@.len(),
    {
        let target = name.to_owned();
        let n = self.entries.len();
        let mut best: Option<&FibEntry> = None;
        let mut best_len: usize = 0;
        let mut i: usize = 0;
        while i < n
            invariant
                self.wf(),
                target@ == name@,
                n == self.entries.key_seq().len(),
                i <= n,
                best is None ==> best_len == 0,
                best matches Some(e) ==> matching_prefix(self@, e.name@, name@) && *e
                    == self@[e.name@] && best_len == e.name@.len(),
                forall|j: int|
                    0 <= j < i && #[trigger] matching_prefix(self@, self.entries.key_seq()[j], name@)
                        ==> self.entries.key_seq()[j].len() <= best_len,
            decreases n - i,
        {
            let key = self.entries.key_at(i);
            let entry = self.entries.value_at(i);
            proof {
                self.entries.lemma_len();
                assert(self.entries.key_seq().to_set().contains(key@));
            }
            if has_prefix(&target, key) {
                let len = key.as_str().unicode_len();
                if len > best_len {
                    best = Some(entry);
                    best_len = len;
                }
            }
            i = i + 1;
        }
        proof {
            self.entries.lemma_len();
            assert forall|k: Seq<char>| #[trigger] matching_prefix(self@, k, name@) implies k.len()
                <= best_len by {
                assert(self.entries.key_seq().to_set().contains(k));
                let j = choose|j: int|
                    0 <= j < self.entries.key_seq().len() && self.entries.key_seq()[j] == k;
                assert(matching_prefix(self@, self.entries.key_seq()[j], name@));
            }
        }
        best
    }

    /// Whether the table holds no entry.
    pub fn is_empty(&self) -> (b: bool)
        requires
            self.wf(),
        ensures
            b == (self@ == Map::<Seq<char>, FibEntry>::empty()),
    {
        self.entries.is_empty()
    }
}

/// A name that has an entry of its own is its own longest match: the
/// longest matching prefix of `name` is `name` itself.
pub proof fn lemma_exact_entry_is_longest_match(m: Map<Seq<char>, FibEntry>, name: Seq<char>, best: Seq<char>)
    requires
        m.contains_key(name),
        name.len() > 0,
        matching_prefix(m, best, name),
        forall|k: Seq<char>| #[trigger] matching_prefix(m, k, name) ==> k.len() <= best.len(),
    ensures
        best == name,
{
    assert(name.is_prefix_of(name)) by {
        assert(name.subrange(0, name.len() as int) =~= name);
    }
    assert(matching_prefix(m, name, name));
    assert(best.len() == name.len());
    assert(best =~= name.subrange(0, best.len() as int));
    assert(name.subrange(0, name.len() as int) =~= name);
}

} // verus!
