use vstd::prelude::*;

verus! {

/// The listeners mounted on `p` in `m`, in mount order; none where `p` was
/// never mounted.
pub open spec fn listeners_at<S>(m: Map<Seq<char>, Seq<S>>, p: Seq<char>) -> Seq<S> {
    if m.dom().contains(p) {
        m[p]
    } else {
        Seq::empty()
    }
}

/// The table `m` after `listener` is mounted on `p`: it joins the end of the
/// list of `p`, and every other path keeps its list.
pub open spec fn mount_spec<S>(m: Map<Seq<char>, Seq<S>>, p: Seq<char>, listener: S) -> Map<
    Seq<char>,
    Seq<S>,
> {
    m.insert(p, listeners_at(m, p).push(listener))
}

/// Mounting a listener touches only its own path: that path's list grows by
/// the listener at its end, and every other path keeps exactly the listeners
/// it had.
pub proof fn law_mount_touches_only_its_path<S>(
    m: Map<Seq<char>, Seq<S>>,
    p: Seq<char>,
    listener: S,
    q: Seq<char>,
)
    ensures
        listeners_at(mount_spec(m, p, listener), p) == listeners_at(m, p).push(listener),
        q != p ==> listeners_at(mount_spec(m, p, listener), q) == listeners_at(m, q),
{
}

/// A table from paths to the listeners mounted on each, in the order in which
/// they were mounted.
pub struct Registry<S> {
    paths: Vec<String>,
    lists: Vec<Vec<S>>,
}

impl<S> Registry<S> {
    #[verifier::type_invariant]
    spec fn one_list_per_path(self) -> bool {
        self.wf()
    }

    /// Each path has one list, and no path occurs twice.
    spec fn wf(&self) -> bool {
        &&& self.paths@.len() == self.lists@.len()
        &&& forall|i: int, j: int|
            0 <= i < j < self.paths@.len() ==> self.paths@[i]@ != self.paths@[j]@
    }

    spec fn has(&self, p: Seq<char>) -> bool {
        exists|i: int| 0 <= i < self.paths@.len() && self.paths@[i]@ == p
    }

    spec fn slot(&self, p: Seq<char>) -> int {
        choose|i: int| 0 <= i < self.paths@.len() && self.paths@[i]@ == p
    }

    proof fn lemma_slot(&self, i: int)
        requires
            self.wf(),
            0 <= i < self.paths@.len(),
        ensures
            self.has(self.paths@[i]@),
            self.slot(self.paths@[i]@) == i,
    {
        let p = self.paths@[i]@;
        assert(self.has(p));
        let k = self.slot(p);
        if k != i {
            if k < i {
                assert(self.paths@[k]@ != self.paths@[i]@);
            } else {
                assert(self.paths@[i]@ != self.paths@[k]@);
            }
        }
    }

    /// An empty table.
    pub fn new() -> (r: Self)
        ensures
            r@ == Map::<Seq<char>, Seq<S>>::empty(),
    {
        let r = Registry { paths: Vec::new(), lists: Vec::new() };
        assert(r@ =~= Map::<Seq<char>, Seq<S>>::empty());
        r
    }

    fn find(&self, path: &String) -> (r: Option<usize>)
        requires
            self.wf(),
        ensures
            match r {
                Some(i) => i < self.paths@.len() && self.paths@[i as int]@ == path@,
                None => !self.has(path@),
            },
    {
        let n = self.paths.len();
        let mut i: usize = 0;
        while i < n
            invariant
                n == self.paths@.len(),
                i <= n,
                forall|k: int| 0 <= k < i ==> self.paths@[k]@ != path@,
            decreases n - i,
        {
            if self.paths[i] == *path {
                return Some(i);
            }
            i = i + 1;
        }
        None
    }

    /// Mounts `listener` on `path`: it joins the end of the list of that path.
    pub fn mount(&mut self, path: String, listener: S)
        ensures
            final(self)@ == mount_spec(old(self)@, path@, listener),
    {
        proof {
            use_type_invariant(&*self);
        }
        let mut taken = Registry { paths: Vec::new(), lists: Vec::new() };
        std::mem::swap(&mut taken, self);
        let ghost old_self = taken;
        let ghost p = path@;
        let found = taken.find(&path);
        let Registry { mut paths, mut lists } = taken;
        match found {
            Some(i) => {
                lists[i].push(listener);
                proof {
                    let cur = Registry { paths, lists };
                    old_self.lemma_slot(i as int);
                    assert forall|q: Seq<char>| #[trigger] cur.has(q) && q != p implies cur.slot(q)
                        == old_self.slot(q) by {
                        let k = cur.slot(q);
                        cur.lemma_slot(k);
                        old_self.lemma_slot(k);
                    }
                    cur.lemma_slot(i as int);
                    assert(cur@ =~= mount_spec(old_self@, p, listener));
                }
            },
            None => {
                paths.push(path);
                let mut l: Vec<S> = Vec::new();
                l.push(listener);
                lists.push(l);
                proof {
                    let cur = Registry { paths, lists };
                    let n = old_self.paths@.len() as int;
                    assert forall|a: int, b: int| 0 <= a < b < cur.paths@.len() implies
                        cur.paths@[a]@ != cur.paths@[b]@ by {
                        if b == n {
                            assert(cur.paths@[a] == old_self.paths@[a]);
                        } else {
                            assert(cur.paths@[a] == old_self.paths@[a]);
                            assert(cur.paths@[b] == old_self.paths@[b]);
                        }
                    }
                    assert forall|q: Seq<char>| #[trigger] cur.has(q) && q != p implies old_self.has(q)
                        && cur.slot(q) == old_self.slot(q) by {
                        let k = cur.slot(q);
                        assert(k != n);
                        assert(old_self.paths@[k] == cur.paths@[k]);
                        cur.lemma_slot(k);
                        old_self.lemma_slot(k);
                    }
                    assert forall|q: Seq<char>| #[trigger] old_self.has(q) implies cur.has(q) by {
                        let k = old_self.slot(q);
                        assert(cur.paths@[k] == old_self.paths@[k]);
                    }
                    cur.lemma_slot(n);
                    assert(cur@ =~= mount_spec(old_self@, p, listener));
                }
            },
        }
        *self = Registry { paths, lists };
    }

    /// The listeners mounted on `path`, in mount order.
    pub fn listeners<'a>(&'a self, path: &str) -> (r: Vec<&'a S>)
        ensures
            r@.len() == listeners_at(self@, path@).len(),
            forall|k: int| 0 <= k < r@.len() ==> *r@[k] == listeners_at(self@, path@)[k],
    {
        proof {
            use_type_invariant(self);
        }
        let key = path.to_owned();
        let mut out: Vec<&'a S> = Vec::new();
        match self.find(&key) {
            None => {
                out
            },
            Some(i) => {
                proof {
                    self.lemma_slot(i as int);
                }
                let list = &self.lists[i];
                let n = list.len();
                let mut k: usize = 0;
                while k < n
                    invariant
                        n == list@.len(),
                        k <= n,
                        out@.len() == k,
                        forall|j: int| 0 <= j < k ==> *out@[j] == list@[j],
                    decreases n - k,
                {
                    out.push(&list[k]);
                    k = k + 1;
                }
                out
            },
        }
    }
}

impl<S> View for Registry<S> {
    type V = Map<Seq<char>, Seq<S>>;

    closed spec fn view(&self) -> Map<Seq<char>, Seq<S>> {
        Map::new(|p: Seq<char>| self.has(p), |p: Seq<char>| self.lists@[self.slot(p)]@)
    }
}

/// The table that results from mounting each `(path, listener)` of `mounts`
/// in turn on `m`.
pub open spec fn mounts_applied<S>(m: Map<Seq<char>, Seq<S>>, mounts: Seq<(Seq<char>, S)>) -> Map<
    Seq<char>,
    Seq<S>,
>
    decreases mounts.len(),
{
    if mounts.len() == 0 {
        m
    } else {
        let last = mounts.last();
        mount_spec(mounts_applied(m, mounts.drop_last()), last.0, last.1)
    }
}

/// The listeners of `mounts` that were mounted on `p`, in order, each as
/// often as it was mounted there.
pub open spec fn mounted_on<S>(mounts: Seq<(Seq<char>, S)>, p: Seq<char>) -> Seq<S>
    decreases mounts.len(),
{
    if mounts.len() == 0 {
        Seq::empty()
    } else {
        let prev = mounted_on(mounts.drop_last(), p);
        if mounts.last().0 == p {
            prev.push(mounts.last().1)
        } else {
            prev
        }
    }
}

/// Events are published to a path, and all listeners on that path get the
/// event: on a broker that started empty, an event on `p` goes to exactly the
/// listeners that were mounted on `p`, in the order of their mounting, once
/// for each mount; mounts on other paths play no part.
pub proof fn law_event_reaches_mounted_listeners<S>(mounts: Seq<(Seq<char>, S)>, p: Seq<char>)
    ensures
        listeners_at(mounts_applied(Map::<Seq<char>, Seq<S>>::empty(), mounts), p)
            == mounted_on(mounts, p),
    decreases mounts.len(),
{
    if mounts.len() > 0 {
        law_event_reaches_mounted_listeners(mounts.drop_last(), p);
    }
}


/// A listener hears an event on `p` only where it was mounted on `p`: each
/// listener that `mounts` puts on `p` comes from a mount of that listener on
/// that very path.
pub proof fn law_only_mounted_listeners_hear<S>(mounts: Seq<(Seq<char>, S)>, p: Seq<char>, k: int)
    requires
        0 <= k < mounted_on(mounts, p).len(),
    ensures
        exists|i: int| 0 <= i < mounts.len() && mounts[i] == (p, mounted_on(mounts, p)[k]),
    decreases mounts.len(),
{
    let prev = mounts.drop_last();
    if k < mounted_on(prev, p).len() {
        law_only_mounted_listeners_hear(prev, p, k);
        let i = choose|i: int| 0 <= i < prev.len() && prev[i] == (p, mounted_on(prev, p)[k]);
        assert(mounts[i] == prev[i]);
    } else {
        assert(mounts[mounts.len() - 1] == (p, mounted_on(mounts, p)[k]));
    }
}

} // verus!
