use vstd::prelude::*;

verus! {

/// A count after one more access; it stays put at the largest `usize`.
pub open spec fn bump(c: nat) -> nat {
    if c < usize::MAX {
        c + 1
    } else {
        c
    }
}

/// The counts after a lookup of `p`: a present path is counted once more,
/// an absent one is left absent.
pub open spec fn after_hit(m: Map<Seq<char>, nat>, p: Seq<char>) -> Map<Seq<char>, nat> {
    if m.contains_key(p) {
        m.insert(p, bump(m[p]))
    } else {
        m
    }
}

/// The counts after recording a served miss of `p`: counted once more if a
/// concurrent miss already put it there, else present with count 1.
pub open spec fn after_insert(m: Map<Seq<char>, nat>, p: Seq<char>) -> Map<Seq<char>, nat> {
    if m.contains_key(p) {
        m.insert(p, bump(m[p]))
    } else {
        m.insert(p, 1)
    }
}

/// No two items of `s` have the same path.
pub open spec fn keys_distinct(s: Seq<(String, usize)>) -> bool {
    forall|a: int, b: int| 0 <= a < b < s.len() ==> s[a].0@ != s[b].0@
}

/// Counts never rise from one item of `s` to a later one.
pub open spec fn counts_descending(s: Seq<(String, usize)>) -> bool {
    forall|a: int, b: int| 0 <= a < b < s.len() ==> s[a].1 >= s[b].1
}

/// Access counts per request path.
pub struct Cache {
    entries: Vec<(String, usize)>,
    counts: Ghost<Map<Seq<char>, nat>>,
}

impl View for Cache {
    type V = Map<Seq<char>, nat>;

    closed spec fn view(&self) -> Map<Seq<char>, nat> {
        self.counts@
    }
}

impl Cache {
    /// The entries list each counted path once, with its count, highest
    /// count first, and every count is at least 1.
    pub closed spec fn wf(&self) -> bool {
        &&& self.counts@.dom().finite()
        &&& forall|i: int|
            0 <= i < self.entries@.len() ==> {
                &&& #[trigger] self.counts@.contains_key(self.entries@[i].0@)
                &&& self.counts@[self.entries@[i].0@] == self.entries@[i].1 as nat
            }
        &&& forall|k: Seq<char>| #[trigger]
            self.counts@.contains_key(k) ==> exists|i: int|
                0 <= i < self.entries@.len() && self.entries@[i].0@ == k
        &&& forall|k: Seq<char>| #[trigger] self.counts@.contains_key(k) ==> self.counts@[k] >= 1
        &&& keys_distinct(self.entries@)
        &&& counts_descending(self.entries@)
    }

    /// An empty cache.
    pub fn new() -> (r: Cache)
        ensures
            r.wf(),
            r@ == Map::<Seq<char>, nat>::empty(),
    {
        Cache { entries: Vec::new(), counts: Ghost(Map::empty()) }
    }

    /// Index of the entry for `path`, if there is one.
    fn position(&self, path: &String) -> (r: Option<usize>)
        requires
            self.wf(),
        ensures
            match r {
                Some(i) => i < self.entries@.len() && self.entries@[i as int].0@ == path@,
                None => !self@.contains_key(path@),
            },
    {
        let n = self.entries.len();
        let mut i: usize = 0;
        while i < n
            invariant
                n == self.entries@.len(),
                i <= n,
                forall|j: int| 0 <= j < i ==> self.entries@[j].0@ != path@,
            decreases n - i,
        {
            if self.entries[i].0 == *path {
                return Some(i);
            }
            i = i + 1;
        }
        None
    }

    /// The count of `path`, if it has been counted.
    pub fn count_of(&self, path: &String) -> (r: Option<usize>)
        requires
            self.wf(),
        ensures
            match r {
                Some(c) => self@.contains_key(path@) && self@[path@] == c as nat,
                None => !self@.contains_key(path@),
            },
    {
        match self.position(path) {
            Some(i) => {
                assert(self.counts@.contains_key(self.entries@[i as int].0@));
                Some(self.entries[i].1)
            },
            None => None,
        }
    }

    /// Index of the first entry whose count is at most that of entry `i`:
    /// the start of the run of entries that share its count.
    fn run_start(&self, i: usize) -> (f: usize)
        requires
            self.wf(),
            i < self.entries@.len(),
        ensures
            f <= i,
            self.entries@[f as int].1 == self.entries@[i as int].1,
            forall|j: int| 0 <= j < f ==> self.entries@[j].1 > self.entries@[i as int].1,
    {
        let c = self.entries[i].1;
        let mut f: usize = 0;
        while self.entries[f].1 > c
            invariant
                self.wf(),
                i < self.entries@.len(),
                c == self.entries@[i as int].1,
                f <= i,
                forall|j: int| 0 <= j < f ==> self.entries@[j].1 > c,
            decreases i - f,
        {
            f = f + 1;
        }
        f
    }

    /// Counts entry `i` once more, moving it to the front of the run of
    /// entries that shared its old count.
    fn bump_at(&mut self, i: usize)
        requires
            old(self).wf(),
            i < old(self).entries@.len(),
        ensures
            final(self).wf(),
            final(self)@ == old(self)@.insert(
                old(self).entries@[i as int].0@,
                bump(old(self)@[old(self).entries@[i as int].0@]),
            ),
    {
        let c = self.entries[i].1;
        let ghost k = self.entries@[i as int].0@;
        proof {
            assert(old(self).counts@.contains_key(k));
        }
        if c == usize::MAX {
            assert(old(self).counts@.insert(k, bump(old(self).counts@[k])) =~= old(self).counts@);
            return;
        }
        let f = self.run_start(i);
        let ghost s = self.entries@;
        let key = self.entries[i].0.clone();
        if f == i {
            self.entries.set(i, (key, c + 1));
        } else {
            let other = self.entries[f].0.clone();
            self.entries.set(f, (key, c + 1));
            self.entries.set(i, (other, c));
        }
        self.counts = Ghost(self.counts@.insert(k, (c + 1) as nat));
        proof {
            let t = self.entries@;
            let fi = f as int;
            assert forall|j: int| 0 <= j < t.len() implies #[trigger] t[j] == (if j == fi {
                (s[i as int].0, (c + 1) as usize)
            } else if j == i {
                (s[fi].0, c)
            } else {
                s[j]
            }) by {}
            assert forall|j: int| 0 <= j < t.len() implies (#[trigger] t[j].0@ == k) == (j == fi) by {
                if j != fi && j != i {
                    assert(s[j].0@ != s[i as int].0@);
                }
                if j == i && fi != i {
                    assert(s[fi].0@ != s[i as int].0@);
                }
            }
            assert forall|j: int| 0 <= j < t.len() implies {
                &&& #[trigger] self.counts@.contains_key(t[j].0@)
                &&& self.counts@[t[j].0@] == t[j].1 as nat
            } by {
                if j != fi {
                    if j == i {
                        assert(old(self).counts@.contains_key(s[fi].0@));
                    } else {
                        assert(old(self).counts@.contains_key(s[j].0@));
                    }
                }
            }
            assert forall|q: Seq<char>| #[trigger] self.counts@.contains_key(q) implies exists|j: int|
                0 <= j < t.len() && t[j].0@ == q by {
                if q == k {
                    assert(t[fi].0@ == q);
                } else {
                    let j = choose|j: int| 0 <= j < s.len() && s[j].0@ == q;
                    if j == i {
                        assert(false);
                    } else if j == fi {
                        assert(t[i as int].0@ == q);
                    } else {
                        assert(t[j].0@ == q);
                    }
                }
            }
            assert forall|a: int, b: int| 0 <= a < b < t.len() implies t[a].0@ != t[b].0@ by {
                let sa = if a == fi { i as int } else if a == i { fi } else { a };
                let sb = if b == fi { i as int } else if b == i { fi } else { b };
                assert(t[a].0@ == s[sa].0@);
                assert(t[b].0@ == s[sb].0@);
            }
            assert forall|a: int, b: int| 0 <= a < b < t.len() implies t[a].1 >= t[b].1 by {
                if a < fi {
                    assert(s[a].1 > c);
                    if b > i {
                        assert(s[i as int].1 >= s[b].1);
                    }
                } else if a < i {
                    assert(s[fi].1 >= s[a].1 && s[a].1 >= s[i as int].1);
                    if b < i {
                        assert(s[b].1 >= s[i as int].1 && s[fi].1 >= s[b].1);
                    } else if b > i {
                        assert(s[i as int].1 >= s[b].1);
                    }
                } else if a == i {
                    assert(s[i as int].1 >= s[b].1);
                }
            }
        }
    }

    /// Counts `path` once more if it is present; says whether it was.
    pub fn record_hit(&mut self, path: &String) -> (r: bool)
        requires
            old(self).wf(),
        ensures
            final(self).wf(),
            r == old(self)@.contains_key(path@),
            final(self)@ == after_hit(old(self)@, path@),
    {
        match self.position(path) {
            Some(i) => {
                self.bump_at(i);
                true
            },
            None => false,
        }
    }

    /// Records a path served after the simulated work: count 1 if absent,
    /// else once more.
    pub fn record_miss_then_insert(&mut self, path: &String)
        requires
            old(self).wf(),
        ensures
            final(self).wf(),
            final(self)@ == after_insert(old(self)@, path@),
    {
        match self.position(path) {
            Some(i) => {
                self.bump_at(i);
            },
            None => {
                let ghost k = path@;
                self.entries.push((path.clone(), 1));
                self.counts = Ghost(self.counts@.insert(k, 1));
                proof {
                    let n = self.entries@.len() - 1;
                    assert(self.entries@[n].0@ == k);
                    assert forall|q: Seq<char>| #[trigger]
                        self.counts@.contains_key(q) implies exists|j: int|
                        0 <= j < self.entries@.len() && self.entries@[j].0@ == q by {
                        if q != k {
                            let j = choose|j: int|
                                0 <= j < old(self).entries@.len() && old(self).entries@[j].0@ == q;
                            assert(self.entries@[j].0@ == q);
                        }
                    }
                    assert forall|i: int| 0 <= i < n implies self.entries@[i].0@ != k
                        && self.entries@[i].1 >= 1 by {
                        assert(old(self).counts@.contains_key(old(self).entries@[i].0@));
                    }
                    assert forall|a: int, b: int| 0 <= a < b < self.entries@.len() implies
                        self.entries@[a].1 >= self.entries@[b].1 by {
                        if b < n {
                            assert(self.entries@[a] == old(self).entries@[a]);
                            assert(self.entries@[b] == old(self).entries@[b]);
                        }
                    }
                }
            },
        }
    }

    /// Every counted path with its count, once each, highest count first
    /// (paths of equal count in no particular order).
    pub fn snapshot(&self) -> (r: Vec<(String, usize)>)
        requires
            self.wf(),
        ensures
            forall|a: int|
                0 <= a < r@.len() ==> #[trigger] self@.contains_key(r@[a].0@) && self@[r@[a].0@]
                    == r@[a].1 as nat,
            forall|k: Seq<char>| #[trigger]
                self@.contains_key(k) ==> exists|a: int| 0 <= a < r@.len() && r@[a].0@ == k,
            keys_distinct(r@),
            counts_descending(r@),
    {
        let n = self.entries.len();
        let mut out: Vec<(String, usize)> = Vec::new();
        let mut i: usize = 0;
        while i < n
            invariant
                n == self.entries@.len(),
                i <= n,
                out@ == self.entries@.subrange(0, i as int),
            decreases n - i,
        {
            out.push((self.entries[i].0.clone(), self.entries[i].1));
            i = i + 1;
            assert(out@ =~= self.entries@.subrange(0, i as int));
        }
        assert(out@ =~= self.entries@);
        out
    }
}

} // verus!
