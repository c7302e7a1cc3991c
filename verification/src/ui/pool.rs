//! What is on screen is kept from frame to frame: figures and bars by the id of what they
//! show, projectiles by their number, materials by their color.

use vstd::prelude::*;

verus! {

/// The places among the first `n` of `a` whose ids are not in `b`.
pub open spec fn unlisted(a: Seq<u64>, b: Seq<u64>, n: int) -> Seq<usize>
    decreases n,
{
    if n <= 0 {
        Seq::empty()
    } else if b.contains(a[n - 1]) {
        unlisted(a, b, n - 1)
    } else {
        unlisted(a, b, n - 1).push((n - 1) as usize)
    }
}

/// What has to change on screen.
#[derive(Debug)]
pub struct Changes {
    /// Which of the views show something that is gone.
    pub gone: Vec<usize>,
    /// Which of the live ids have no view yet.
    pub fresh: Vec<usize>,
}

fn listed(ids: &Vec<u64>, id: u64) -> (r: bool)
    ensures
        r == ids@.contains(id),
{
    for i in 0..ids.len()
        invariant
            forall|k: int| 0 <= k < i ==> ids@[k] != id,
    {
        if ids[i] == id {
            assert(ids@[i as int] == id);
            return true;
        }
    }
    false
}

fn missing(a: &Vec<u64>, b: &Vec<u64>) -> (places: Vec<usize>)
    ensures
        places@ == unlisted(a@, b@, a.len() as int),
{
    let mut places: Vec<usize> = Vec::new();
    for i in 0..a.len()
        invariant
            places@ == unlisted(a@, b@, i as int),
    {
        if !listed(b, a[i]) {
            places.push(i);
        }
    }
    places
}

/// Compares what is shown with what is there: views of what is gone are taken down, what
/// has no view gets one, the others stay and are updated in place.
pub fn reconcile(views: &Vec<u64>, live: &Vec<u64>) -> (c: Changes)
    ensures
        c.gone@ == unlisted(views@, live@, views.len() as int),
        c.fresh@ == unlisted(live@, views@, live.len() as int),
{
    Changes { gone: missing(views, live), fresh: missing(live, views) }
}

/// The places are exactly those whose ids are not in the other list.
pub proof fn law_unlisted_is_exact(a: Seq<u64>, b: Seq<u64>, n: int, i: usize)
    requires
        0 <= n <= a.len(),
        a.len() <= usize::MAX,
    ensures
        unlisted(a, b, n).contains(i) <==> i < n && !b.contains(a[i as int]),
    decreases n,
{
    if n > 0 {
        law_unlisted_is_exact(a, b, n - 1, i);
        let before = unlisted(a, b, n - 1);
        let all = unlisted(a, b, n);
        if !b.contains(a[n - 1]) {
            assert(all[before.len() as int] == (n - 1) as usize);
            if before.contains(i) {
                let k = choose|k: int| 0 <= k < before.len() && before[k] == i;
                assert(all[k] == i);
            }
            if all.contains(i) {
                let k = choose|k: int| 0 <= k < all.len() && all[k] == i;
                if k < before.len() {
                    assert(before[k] == i);
                }
            }
        }
    }
}

/// After the changes exactly what is there is shown: an id is live if and only if it is
/// shown and stays, or gets a view.
pub proof fn law_reconciled_views_match(views: Seq<u64>, live: Seq<u64>, id: u64)
    requires
        live.len() <= usize::MAX,
    ensures
        live.contains(id) <==> (views.contains(id) && live.contains(id)) || exists|i: usize|
            #[trigger] unlisted(live, views, live.len() as int).contains(i) && i < live.len()
                && live[i as int] == id,
{
    if live.contains(id) && !views.contains(id) {
        let k = choose|k: int| 0 <= k < live.len() && live[k] == id;
        law_unlisted_is_exact(live, views, live.len() as int, k as usize);
        assert(unlisted(live, views, live.len() as int).contains(k as usize));
    }
}

/// How a pool of interchangeable views changes: how many are reused, put up and taken down.
#[derive(Debug, Clone, Copy, PartialEq, Eq, Structural)]
pub struct PoolChange {
    pub reuse: usize,
    pub spawn: usize,
    pub retire: usize,
}

/// The pool grows or shrinks only when the number changes; the others are updated in place.
pub fn pool_change(have: usize, want: usize) -> (c: PoolChange)
    ensures
        c.reuse + c.spawn == want,
        c.reuse + c.retire == have,
        c.spawn == 0 || c.retire == 0,
{
    if have < want {
        PoolChange { reuse: have, spawn: want - have, retire: 0 }
    } else {
        PoolChange { reuse: want, spawn: 0, retire: have - want }
    }
}

/// The materials that were made, by color.
#[derive(Debug)]
pub struct MatCache {
    pub keys: Vec<u32>,
}

impl MatCache {
    /// No color was made twice.
    pub open spec fn wf(self) -> bool {
        self.keys@.no_duplicates()
    }

    pub fn new() -> (c: MatCache)
        ensures
            c.wf(),
            c.keys@.len() == 0,
    {
        MatCache { keys: Vec::new() }
    }

    /// The material of a color, and whether it has to be made: a given color makes exactly
    /// one material for the whole run.
    pub fn mat(&mut self, key: u32) -> (slot: (usize, bool))
        requires
            old(self).wf(),
        ensures
            final(self).wf(),
            slot.0 < final(self).keys@.len(),
            final(self).keys@[slot.0 as int] == key,
            slot.1 == !old(self).keys@.contains(key),
            final(self).keys@ == if slot.1 {
                old(self).keys@.push(key)
            } else {
                old(self).keys@
            },
    {
        for i in 0..self.keys.len()
            invariant
                self.wf(),
                self.keys@ == old(self).keys@,
                forall|k: int| 0 <= k < i ==> self.keys@[k] != key,
        {
            if self.keys[i] == key {
                assert(old(self).keys@[i as int] == key);
                return (i, false);
            }
        }
        self.keys.push(key);
        (self.keys.len() - 1, true)
    }
}

} // verus!
