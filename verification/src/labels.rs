//! Bookkeeping collections of the disassembler and the tracer: a table
//! of symbolic names for addresses, and a set of addresses.

use vstd::prelude::*;

verus! {

/// Whether two byte strings hold the same bytes.
pub fn bytes_eq(a: &Vec<u8>, b: &Vec<u8>) -> (r: bool)
    ensures
        r == (a@ == b@),
{
    if a.len() != b.len() {
        return false;
    }
    let mut i: usize = 0;
    while i < a.len()
        invariant
            a@.len() == b@.len(),
            i <= a@.len(),
            forall|j: int| 0 <= j < i ==> a@[j] == b@[j],
        decreases a@.len() - i,
    {
        if a[i] != b[i] {
            return false;
        }
        i = i + 1;
    }
    proof {
        assert(a@ =~= b@);
    }
    true
}

/// The name the table associates with `k`: the first entry with that
/// address wins.
pub open spec fn spec_assoc(s: Seq<(usize, Vec<u8>)>, k: usize) -> Option<Seq<u8>>
    decreases s.len(),
{
    if s.len() == 0 {
        None
    } else if s[0].0 == k {
        Some(s[0].1@)
    } else {
        spec_assoc(s.skip(1), k)
    }
}

/// If the first `i` entries miss `k`, the lookup is decided at or after
/// index `i`.
proof fn lemma_assoc_at(s: Seq<(usize, Vec<u8>)>, k: usize, i: int)
    requires
        0 <= i <= s.len(),
        forall|j: int| 0 <= j < i ==> (#[trigger] s[j]).0 != k,
    ensures
        i < s.len() && s[i].0 == k ==> spec_assoc(s, k) == Some(s[i].1@),
        i == s.len() ==> spec_assoc(s, k) is None,
    decreases i,
{
    if i == 0 {
    } else {
        assert(s[0].0 != k);
        lemma_assoc_at(s.skip(1), k, i - 1);
        assert(forall|j: int| 0 <= j < s.len() - 1 ==> s.skip(1)[j] == s[j + 1]);
    }
}

/// A lookup never sees entries past the first hit; updating or adding
/// entries elsewhere leaves other keys alone.
proof fn lemma_assoc_update(s: Seq<(usize, Vec<u8>)>, i: int, p: (usize, Vec<u8>), k: usize)
    requires
        0 <= i < s.len(),
        s[i].0 == p.0,
        k != p.0,
    ensures
        spec_assoc(s.update(i, p), k) == spec_assoc(s, k),
    decreases i,
{
    let t = s.update(i, p);
    if i == 0 {
        assert(t.skip(1) =~= s.skip(1));
    } else {
        assert(t[0] == s[0]);
        if s[0].0 == k {
        } else {
            assert(t.skip(1) =~= s.skip(1).update(i - 1, p));
            lemma_assoc_update(s.skip(1), i - 1, p, k);
        }
    }
}

/// Appending an entry decides only a key that was missing before.
proof fn lemma_assoc_push(s: Seq<(usize, Vec<u8>)>, p: (usize, Vec<u8>), k: usize)
    ensures
        spec_assoc(s, k) is Some ==> spec_assoc(s.push(p), k) == spec_assoc(s, k),
        spec_assoc(s, k) is None && p.0 == k ==> spec_assoc(s.push(p), k) == Some(p.1@),
        spec_assoc(s, k) is None && p.0 != k ==> spec_assoc(s.push(p), k) is None,
    decreases s.len(),
{
    if s.len() == 0 {
        assert(s.push(p)[0] == p);
        assert(s.push(p).skip(1) =~= s);
    } else {
        assert(s.push(p)[0] == s[0]);
        if s[0].0 == k {
        } else {
            assert(s.push(p).skip(1) =~= s.skip(1).push(p));
            lemma_assoc_push(s.skip(1), p, k);
        }
    }
}

/// The table's entries with every entry for address `a` dropped.
pub open spec fn spec_remove_key(s: Seq<(usize, Vec<u8>)>, a: usize) -> Seq<(usize, Vec<u8>)>
    decreases s.len(),
{
    if s.len() == 0 {
        Seq::empty()
    } else if s[0].0 == a {
        spec_remove_key(s.skip(1), a)
    } else {
        seq![s[0]] + spec_remove_key(s.skip(1), a)
    }
}

/// Dropping every entry with address `a` clears `a` and nothing else.
proof fn lemma_assoc_remove(s: Seq<(usize, Vec<u8>)>, a: usize, k: usize)
    ensures
        k == a ==> spec_assoc(spec_remove_key(s, a), k) is None,
        k != a ==> spec_assoc(spec_remove_key(s, a), k) == spec_assoc(s, k),
    decreases s.len(),
{
    if s.len() == 0 {
    } else {
        lemma_assoc_remove(s.skip(1), a, k);
        if s[0].0 != a {
            let t = seq![s[0]] + spec_remove_key(s.skip(1), a);
            assert(t[0] == s[0]);
            assert(t.skip(1) =~= spec_remove_key(s.skip(1), a));
        }
    }
}

/// Removal commutes with appending one entry at the back.
proof fn lemma_remove_key_push(s: Seq<(usize, Vec<u8>)>, p: (usize, Vec<u8>), a: usize)
    ensures
        p.0 == a ==> spec_remove_key(s.push(p), a) == spec_remove_key(s, a),
        p.0 != a ==> spec_remove_key(s.push(p), a) == spec_remove_key(s, a).push(p),
    decreases s.len(),
{
    if s.len() == 0 {
        assert(s.push(p)[0] == p);
        assert(s.push(p).skip(1) =~= s);
        if p.0 != a {
            assert(spec_remove_key(s.push(p), a) =~= spec_remove_key(s, a).push(p));
        }
    } else {
        assert(s.push(p)[0] == s[0]);
        assert(s.push(p).skip(1) =~= s.skip(1).push(p));
        lemma_remove_key_push(s.skip(1), p, a);
        if s[0].0 != a {
            if p.0 != a {
                assert(seq![s[0]] + spec_remove_key(s.skip(1), a).push(p) =~= (seq![s[0]]
                    + spec_remove_key(s.skip(1), a)).push(p));
            }
        }
    }
}

/// A table of symbolic names for addresses, looked up in both
/// directions: by address for display, by name for the command language.
#[derive(Debug, Clone)]
pub struct LabelMap {
    entries: Vec<(usize, Vec<u8>)>,
}

impl View for LabelMap {
    type V = Map<usize, Seq<u8>>;

    closed spec fn view(&self) -> Map<usize, Seq<u8>> {
        Map::new(
            |k: usize| spec_assoc(self.entries@, k) is Some,
            |k: usize| spec_assoc(self.entries@, k)->Some_0,
        )
    }
}

impl LabelMap {
    /// An empty table.
    pub fn new() -> (r: Self)
        ensures
            r@ == Map::<usize, Seq<u8>>::empty(),
    {
        let r = LabelMap { entries: Vec::new() };
        proof {
            assert(r@ =~= Map::<usize, Seq<u8>>::empty());
        }
        r
    }

    /// The name for `addr`, if the table has one.
    pub fn get(&self, addr: usize) -> (r: Option<&Vec<u8>>)
        ensures
            self@.contains_key(addr) ==> (r matches Some(v) && v@ == self@[addr]),
            !self@.contains_key(addr) ==> r is None,
    {
        let mut i: usize = 0;
        while i < self.entries.len()
            invariant
                i <= self.entries@.len(),
                forall|j: int| 0 <= j < i ==> (#[trigger] self.entries@[j]).0 != addr,
            decreases self.entries@.len() - i,
        {
            if self.entries[i].0 == addr {
                proof {
                    lemma_assoc_at(self.entries@, addr, i as int);
                }
                return Some(&self.entries[i].1);
            }
            i = i + 1;
        }
        proof {
            lemma_assoc_at(self.entries@, addr, i as int);
        }
        None
    }

    /// Name `addr`, replacing any name it already had.
    pub fn insert(&mut self, addr: usize, name: Vec<u8>)
        ensures
            final(self)@ == old(self)@.insert(addr, name@),
    {
        let ghost pre = self.entries@;
        let mut i: usize = 0;
        while i < self.entries.len()
            invariant
                pre == old(self).entries@,
                self.entries@ == pre,
                i <= pre.len(),
                forall|j: int| 0 <= j < i ==> (#[trigger] pre[j]).0 != addr,
            decreases pre.len() - i,
        {
            if self.entries[i].0 == addr {
                self.entries[i] = (addr, name);
                proof {
                    lemma_assoc_at(self.entries@, addr, i as int);
                    assert(spec_assoc(self.entries@, addr) == Some(name@));
                    assert forall|k: usize| k != addr implies spec_assoc(self.entries@, k)
                        == spec_assoc(pre, k) by {
                        lemma_assoc_update(pre, i as int, self.entries@[i as int], k);
                    }
                    assert(self@ =~= old(self)@.insert(addr, name@));
                }
                return ;
            }
            i = i + 1;
        }
        proof {
            lemma_assoc_at(pre, addr, i as int);
        }
        self.entries.push((addr, name));
        proof {
            assert forall|k: usize| #![auto] true implies spec_assoc(self.entries@, k) == (if k
                == addr {
                Some(name@)
            } else {
                spec_assoc(pre, k)
            }) by {
                lemma_assoc_push(pre, (addr, name), k);
            }
            assert(self@ =~= old(self)@.insert(addr, name@));
        }
    }

    /// Name `addr` only if it has no name yet; a seeded name is never
    /// overwritten.
    pub fn insert_if_absent(&mut self, addr: usize, name: Vec<u8>)
        ensures
            old(self)@.contains_key(addr) ==> final(self)@ == old(self)@,
            !old(self)@.contains_key(addr) ==> final(self)@ == old(self)@.insert(addr, name@),
    {
        let ghost pre = self.entries@;
        let mut i: usize = 0;
        while i < self.entries.len()
            invariant
                pre == old(self).entries@,
                self.entries@ == pre,
                i <= pre.len(),
                forall|j: int| 0 <= j < i ==> (#[trigger] pre[j]).0 != addr,
            decreases pre.len() - i,
        {
            if self.entries[i].0 == addr {
                proof {
                    lemma_assoc_at(pre, addr, i as int);
                }
                return ;
            }
            i = i + 1;
        }
        proof {
            lemma_assoc_at(pre, addr, i as int);
        }
        self.entries.push((addr, name));
        proof {
            assert forall|k: usize| #![auto] true implies spec_assoc(self.entries@, k) == (if k
                == addr {
                Some(name@)
            } else {
                spec_assoc(pre, k)
            }) by {
                lemma_assoc_push(pre, (addr, name), k);
            }
            assert(self@ =~= old(self)@.insert(addr, name@));
        }
    }

    /// A copy of the table with the same associations.
    pub fn duplicate(&self) -> (r: Self)
        ensures
            r@ == self@,
    {
        let mut entries: Vec<(usize, Vec<u8>)> = Vec::new();
        let mut i: usize = 0;
        while i < self.entries.len()
            invariant
                i <= self.entries@.len(),
                entries@.len() == i,
                forall|j: int|
                    0 <= j < i ==> (#[trigger] entries@[j]).0 == self.entries@[j].0
                        && entries@[j].1@ == self.entries@[j].1@,
            decreases self.entries@.len() - i,
        {
            let addr = self.entries[i].0;
            let mut name: Vec<u8> = Vec::new();
            let src = &self.entries[i].1;
            let mut k: usize = 0;
            while k < src.len()
                invariant
                    k <= src@.len(),
                    name@ == src@.take(k as int),
                decreases src@.len() - k,
            {
                name.push(src[k]);
                proof {
                    assert(name@ =~= src@.take(k + 1));
                }
                k = k + 1;
            }
            proof {
                assert(name@ =~= src@);
            }
            entries.push((addr, name));
            i = i + 1;
        }
        let r = LabelMap { entries };
        proof {
            assert forall|k: usize| #![auto] spec_assoc(r.entries@, k) == spec_assoc(
                self.entries@,
                k,
            ) by {
                lemma_assoc_congruent(r.entries@, self.entries@, k);
            }
            assert(r@ =~= self@);
        }
        r
    }

    /// The address carrying `name`, if any does.
    pub fn find_by_name(&self, name: &Vec<u8>) -> (r: Option<usize>)
        ensures
            r matches Some(a) ==> self@.contains_key(a) && self@[a] == name@,
            r is None ==> forall|a: usize|
                self@.contains_key(a) ==> self@[a] != name@,
    {
        let mut i: usize = 0;
        while i < self.entries.len()
            invariant
                i <= self.entries@.len(),
                forall|j: int|
                    0 <= j < i ==> (#[trigger] self.entries@[j]).1@ != name@ || spec_assoc(
                        self.entries@,
                        self.entries@[j].0,
                    ) != Some(self.entries@[j].1@),
            decreases self.entries@.len() - i,
        {
            let hit = {
                let e = &self.entries[i];
                e.1.len() == name.len() && bytes_eq(&e.1, name)
            };
            if hit {
                let a = self.entries[i].0;
                let r = self.get(a);
                match r {
                    Some(v) => {
                        if bytes_eq(v, name) {
                            return Some(a);
                        }
                    },
                    None => {
                    },
                }
                proof {
                    assert(spec_assoc(self.entries@, self.entries@[i as int].0) != Some(
                        self.entries@[i as int].1@,
                    ));
                }
            }
            i = i + 1;
        }
        proof {
            assert forall|a: usize| self@.contains_key(a) implies self@[a] != name@ by {
                lemma_assoc_some_index(self.entries@, a);
            }
        }
        None
    }

    /// Drop the name `name`, wherever it stands; without it nothing
    /// changes.
    pub fn remove_by_name(&mut self, name: &Vec<u8>) -> (r: Option<usize>)
        ensures
            r matches Some(a) ==> old(self)@.contains_key(a) && old(self)@[a] == name@
                && final(self)@ == old(self)@.remove(a),
            r is None ==> final(self)@ == old(self)@ && forall|a: usize|
                old(self)@.contains_key(a) ==> old(self)@[a] != name@,
    {
        let found = self.find_by_name(name);
        match found {
            None => None,
            Some(a) => {
                let mut kept: Vec<(usize, Vec<u8>)> = Vec::new();
                let ghost pre = self.entries@;
                proof {
                    assert(kept@ + spec_remove_key(self.entries@, a) =~= spec_remove_key(pre, a));
                }
                while self.entries.len() > 0
                    invariant
                        kept@ + spec_remove_key(self.entries@, a) == spec_remove_key(pre, a),
                    decreases self.entries@.len(),
                {
                    let ghost cur = self.entries@;
                    let e = self.entries.remove(0);
                    proof {
                        assert(self.entries@ =~= cur.skip(1));
                    }
                    if e.0 != a {
                        kept.push(e);
                        proof {
                            assert(kept@ + spec_remove_key(self.entries@, a) =~= spec_remove_key(
                                pre,
                                a,
                            ));
                        }
                    }
                }
                proof {
                    assert(kept@ + spec_remove_key(self.entries@, a) =~= kept@);
                }
                self.entries = kept;
                proof {
                    assert forall|k: usize| #![auto] true implies spec_assoc(
                        self.entries@,
                        k,
                    ) == (if k == a {
                        None::<Seq<u8>>
                    } else {
                        spec_assoc(pre, k)
                    }) by {
                        lemma_assoc_remove(pre, a, k);
                    }
                    assert(self@ =~= old(self)@.remove(a));
                }
                Some(a)
            },
        }
    }
}

/// Lookups see only the addresses and the bytes of the names: two entry
/// lists that agree on those agree on every lookup.
proof fn lemma_assoc_congruent(s1: Seq<(usize, Vec<u8>)>, s2: Seq<(usize, Vec<u8>)>, k: usize)
    requires
        s1.len() == s2.len(),
        forall|j: int|
            0 <= j < s1.len() ==> (#[trigger] s1[j]).0 == s2[j].0 && s1[j].1@ == s2[j].1@,
    ensures
        spec_assoc(s1, k) == spec_assoc(s2, k),
    decreases s1.len(),
{
    if s1.len() > 0 {
        assert(s1[0].0 == s2[0].0 && s1[0].1@ == s2[0].1@);
        assert forall|j: int| 0 <= j < s1.skip(1).len() implies (#[trigger] s1.skip(1)[j]).0
            == s2.skip(1)[j].0 && s1.skip(1)[j].1@ == s2.skip(1)[j].1@ by {
            assert(s1.skip(1)[j] == s1[j + 1]);
            assert(s2.skip(1)[j] == s2[j + 1]);
            assert(s1[j + 1].0 == s2[j + 1].0 && s1[j + 1].1@ == s2[j + 1].1@);
        }
        lemma_assoc_congruent(s1.skip(1), s2.skip(1), k);
    }
}

/// Any key the lookup decides is decided at some entry that holds it.
proof fn lemma_assoc_some_index(s: Seq<(usize, Vec<u8>)>, k: usize)
    ensures
        spec_assoc(s, k) matches Some(v) ==> exists|j: int|
            0 <= j < s.len() && (#[trigger] s[j]).0 == k && s[j].1@ == v,
    decreases s.len(),
{
    if s.len() > 0 && s[0].0 != k {
        lemma_assoc_some_index(s.skip(1), k);
        if spec_assoc(s, k) is Some {
            let v = spec_assoc(s, k)->Some_0;
            let j = choose|j: int|
                0 <= j < s.skip(1).len() && (#[trigger] s.skip(1)[j]).0 == k && s.skip(1)[j].1@
                    == v;
            assert(s[j + 1] == s.skip(1)[j]);
        }
    }
}

/// A set of addresses: breakpoints, or the operand positions that are
/// rendered symbolically.
#[derive(Debug, Clone)]
pub struct AddrSet {
    items: Vec<usize>,
}

impl View for AddrSet {
    type V = Set<usize>;

    closed spec fn view(&self) -> Set<usize> {
        self.items@.to_set()
    }
}

impl AddrSet {
    /// An empty set.
    pub fn new() -> (r: Self)
        ensures
            r@ == Set::<usize>::empty(),
    {
        let r = AddrSet { items: Vec::new() };
        proof {
            assert(r@ =~= Set::<usize>::empty());
        }
        r
    }

    /// Whether `addr` is in the set.
    pub fn contains(&self, addr: usize) -> (r: bool)
        ensures
            r == self@.contains(addr),
    {
        let mut i: usize = 0;
        while i < self.items.len()
            invariant
                i <= self.items@.len(),
                forall|j: int| 0 <= j < i ==> self.items@[j] != addr,
            decreases self.items@.len() - i,
        {
            if self.items[i] == addr {
                proof {
                    assert(self.items@.contains(addr));
                }
                return true;
            }
            i = i + 1;
        }
        proof {
            assert(!self.items@.contains(addr));
        }
        false
    }

    /// Put `addr` into the set.
    pub fn insert(&mut self, addr: usize)
        ensures
            final(self)@ == old(self)@.insert(addr),
    {
        if !self.contains(addr) {
            self.items.push(addr);
            proof {
                old(self).items@.lemma_push_to_set_commute(addr);
            }
        } else {
            proof {
                assert(self@ =~= old(self)@.insert(addr));
            }
        }
    }

    /// Take `addr` out of the set; without it nothing changes.
    pub fn remove(&mut self, addr: usize)
        ensures
            final(self)@ == old(self)@.remove(addr),
    {
        let mut kept: Vec<usize> = Vec::new();
        let ghost pre = self.items@;
        let mut i: usize = 0;
        while i < self.items.len()
            invariant
                self.items@ == pre,
                i <= pre.len(),
                kept@ == spec_remove_addr(pre.take(i as int), addr),
            decreases pre.len() - i,
        {
            proof {
                assert(pre.take(i + 1) =~= pre.take(i as int).push(pre[i as int]));
                lemma_remove_addr_push(pre.take(i as int), pre[i as int], addr);
            }
            if self.items[i] != addr {
                kept.push(self.items[i]);
            }
            i = i + 1;
        }
        proof {
            assert(pre.take(pre.len() as int) =~= pre);
        }
        self.items = kept;
        proof {
            assert forall|x: usize| #![auto] true implies spec_remove_addr(pre, addr).contains(x)
                == (pre.contains(x) && x != addr) by {
                lemma_remove_addr_contains(pre, addr, x);
            }
            assert(self@ =~= old(self)@.remove(addr));
        }
    }
}

/// The address list with every occurrence of `a` dropped.
pub open spec fn spec_remove_addr(s: Seq<usize>, a: usize) -> Seq<usize>
    decreases s.len(),
{
    if s.len() == 0 {
        Seq::empty()
    } else if s[0] == a {
        spec_remove_addr(s.skip(1), a)
    } else {
        seq![s[0]] + spec_remove_addr(s.skip(1), a)
    }
}

/// Dropping an address commutes with appending one at the back.
proof fn lemma_remove_addr_push(s: Seq<usize>, p: usize, a: usize)
    ensures
        p == a ==> spec_remove_addr(s.push(p), a) == spec_remove_addr(s, a),
        p != a ==> spec_remove_addr(s.push(p), a) == spec_remove_addr(s, a).push(p),
    decreases s.len(),
{
    if s.len() == 0 {
        assert(s.push(p)[0] == p);
        assert(s.push(p).skip(1) =~= s);
        if p != a {
            assert(spec_remove_addr(s.push(p), a) =~= spec_remove_addr(s, a).push(p));
        }
    } else {
        assert(s.push(p)[0] == s[0]);
        assert(s.push(p).skip(1) =~= s.skip(1).push(p));
        lemma_remove_addr_push(s.skip(1), p, a);
        if s[0] != a && p != a {
            assert(seq![s[0]] + spec_remove_addr(s.skip(1), a).push(p) =~= (seq![s[0]]
                + spec_remove_addr(s.skip(1), a)).push(p));
        }
    }
}

/// What is left after dropping `a` is what was there, except `a`.
proof fn lemma_remove_addr_contains(s: Seq<usize>, a: usize, x: usize)
    ensures
        spec_remove_addr(s, a).contains(x) <==> (s.contains(x) && x != a),
    decreases s.len(),
{
    if s.len() == 0 {
    } else {
        lemma_remove_addr_contains(s.skip(1), a, x);
        assert(s.contains(x) <==> (s[0] == x || s.skip(1).contains(x))) by {
            if s.contains(x) {
                let j = choose|j: int| 0 <= j < s.len() && s[j] == x;
                if j > 0 {
                    assert(s.skip(1)[j - 1] == x);
                }
            }
            if s.skip(1).contains(x) {
                let j = choose|j: int| 0 <= j < s.skip(1).len() && s.skip(1)[j] == x;
                assert(s[j + 1] == x);
            }
        }
        if s[0] != a {
            let t = seq![s[0]] + spec_remove_addr(s.skip(1), a);
            assert(t.contains(x) <==> (s[0] == x || spec_remove_addr(s.skip(1), a).contains(x)))
                by {
                if t.contains(x) {
                    let j = choose|j: int| 0 <= j < t.len() && t[j] == x;
                    if j > 0 {
                        assert(t[j] == spec_remove_addr(s.skip(1), a)[j - 1]);
                    }
                }
                if spec_remove_addr(s.skip(1), a).contains(x) {
                    let j = choose|j: int|
                        0 <= j < spec_remove_addr(s.skip(1), a).len() && spec_remove_addr(
                            s.skip(1),
                            a,
                        )[j] == x;
                    assert(t[j + 1] == x);
                }
                assert(t[0] == s[0]);
            }
        }
    }
}

} // verus!
