//! Per-host health bookkeeping: when a host last answered, and how many
//! probes in a row have failed since.
use vstd::prelude::*;
use crate::text::{chars_of, eq_chars};

verus! {

/// The value kept for `k`: the last pair with that key.
pub open spec fn lookup<T>(v: Seq<(Seq<char>, T)>, k: Seq<char>) -> Option<T>
    decreases v.len(),
{
    if v.len() == 0 {
        None
    } else if v.last().0 == k {
        Some(v.last().1)
    } else {
        lookup(v.drop_last(), k)
    }
}

/// The pairs as a map from key to value.
pub open spec fn as_map<T>(v: Seq<(Seq<char>, T)>) -> Map<Seq<char>, T> {
    Map::new(|k: Seq<char>| lookup(v, k) is Some, |k: Seq<char>| lookup(v, k)->0)
}

pub open spec fn unique_keys<T>(v: Seq<(Seq<char>, T)>) -> bool {
    forall|i: int, j: int| 0 <= i < j < v.len() ==> v[i].0 != v[j].0
}

pub open spec fn key_views<T>(v: Seq<(String, T)>) -> Seq<(Seq<char>, T)> {
    v.map_values(|p: (String, T)| (p.0@, p.1))
}

proof fn lemma_lookup_push<T>(v: Seq<(Seq<char>, T)>, k: Seq<char>, x: T)
    ensures
        forall|j: Seq<char>| #[trigger] lookup(v.push((k, x)), j) == if j == k {
            Some(x)
        } else {
            lookup(v, j)
        },
{
    assert forall|j: Seq<char>| #[trigger] lookup(v.push((k, x)), j) == if j == k {
        Some(x)
    } else {
        lookup(v, j)
    } by {
        assert(v.push((k, x)).drop_last() == v);
    }
}

proof fn lemma_lookup_update<T>(v: Seq<(Seq<char>, T)>, i: int, x: T)
    requires
        0 <= i < v.len(),
        unique_keys(v),
    ensures
        forall|j: Seq<char>| #[trigger] lookup(v.update(i, (v[i].0, x)), j) == if j == v[i].0 {
            Some(x)
        } else {
            lookup(v, j)
        },
    decreases v.len(),
{
    let w = v.update(i, (v[i].0, x));
    if i == v.len() - 1 {
        assert(w.drop_last() == v.drop_last());
        assert forall|j: Seq<char>| #[trigger] lookup(w, j) == if j == v[i].0 {
            Some(x)
        } else {
            lookup(v, j)
        } by {}
    } else {
        let u = v.drop_last();
        assert(unique_keys(u)) by {
            assert forall|a: int, b: int| 0 <= a < b < u.len() implies u[a].0 != u[b].0 by {
                assert(u[a] == v[a] && u[b] == v[b]);
            }
        }
        lemma_lookup_update(u, i, x);
        assert(w.drop_last() == u.update(i, (u[i].0, x)));
        assert(v.last().0 != v[i].0) by {
            assert(v.last() == v[v.len() - 1]);
        }
        assert forall|j: Seq<char>| #[trigger] lookup(w, j) == if j == v[i].0 {
            Some(x)
        } else {
            lookup(v, j)
        } by {
            assert(w.last() == v.last());
            assert(u[i] == v[i]);
            if v.last().0 != j {
                assert(lookup(w, j) == lookup(w.drop_last(), j));
                assert(lookup(w.drop_last(), j) == lookup(u.update(i, (u[i].0, x)), j));
                assert(lookup(v, j) == lookup(u, j));
            }
        }
    }
}

proof fn lemma_lookup_absent<T>(v: Seq<(Seq<char>, T)>, k: Seq<char>)
    requires
        forall|i: int| 0 <= i < v.len() ==> (#[trigger] v[i]).0 != k,
    ensures
        lookup(v, k) is None,
    decreases v.len(),
{
    if v.len() > 0 {
        assert(v.last() == v[v.len() - 1]);
        lemma_lookup_absent(v.drop_last(), k);
    }
}

proof fn lemma_lookup_at<T>(v: Seq<(Seq<char>, T)>, i: int)
    requires
        0 <= i < v.len(),
        unique_keys(v),
    ensures
        lookup(v, v[i].0) == Some(v[i].1),
    decreases v.len(),
{
    if i < v.len() - 1 {
        let u = v.drop_last();
        assert(unique_keys(u)) by {
            assert forall|a: int, b: int| 0 <= a < b < u.len() implies u[a].0 != u[b].0 by {
                assert(u[a] == v[a] && u[b] == v[b]);
            }
        }
        assert(v.last() == v[v.len() - 1]);
        assert(u[i] == v[i]);
        lemma_lookup_at(u, i);
    }
}

/// Where `k` sits among the keys, if anywhere.
fn find_key<T>(v: &Vec<(String, T)>, k: &[char]) -> (r: Option<usize>)
    ensures
        r matches Some(i) ==> i < v@.len() && v@[i as int].0@ == k@,
        r is None ==> forall|i: int| 0 <= i < v@.len() ==> (#[trigger] key_views(v@)[i]).0 != k@,
{
    let mut i: usize = 0;
    while i < v.len()
        invariant
            i <= v.len(),
            forall|j: int| 0 <= j < i ==> (#[trigger] key_views(v@)[j]).0 != k@,
        decreases v.len() - i,
    {
        let c = chars_of(v[i].0.as_str());
        if eq_chars(c.as_slice(), k) {
            return Some(i);
        }
        assert(key_views(v@)[i as int].0 == v@[i as int].0@);
        i = i + 1;
    }
    None
}

/// Health of the watched hosts: for each host, the time of its last good
/// probe, and the number of probes that failed since.
pub struct HealthState {
    last_ok: Vec<(String, u64)>,
    fails: Vec<(String, u32)>,
}

impl View for HealthState {
    type V = (Map<Seq<char>, u64>, Map<Seq<char>, u32>);

    closed spec fn view(&self) -> (Map<Seq<char>, u64>, Map<Seq<char>, u32>) {
        (as_map(key_views(self.last_ok@)), as_map(key_views(self.fails@)))
    }
}

/// The failures counted for a host (none recorded counts as 0).
pub open spec fn fail_count(fails: Map<Seq<char>, u32>, h: Seq<char>) -> nat {
    if fails.contains_key(h) {
        fails[h] as nat
    } else {
        0
    }
}

/// The health after one probe of `h` at time `now`: a success records the
/// time and clears the failures; a failure adds one.
pub open spec fn recorded(
    v: (Map<Seq<char>, u64>, Map<Seq<char>, u32>),
    h: Seq<char>,
    ok: bool,
    now: u64,
) -> (Map<Seq<char>, u64>, Map<Seq<char>, u32>) {
    if ok {
        (v.0.insert(h, now), v.1.insert(h, 0))
    } else {
        (v.0, v.1.insert(h, (fail_count(v.1, h) + 1) as u32))
    }
}

/// Three or more failures in a row call for mitigation.
pub open spec fn needs_mitigation_spec(fails: Map<Seq<char>, u32>, h: Seq<char>) -> bool {
    fail_count(fails, h) >= 3
}

impl HealthState {
    #[verifier::type_invariant]
    spec fn keys_unique(&self) -> bool {
        &&& unique_keys(key_views(self.last_ok@))
        &&& unique_keys(key_views(self.fails@))
    }

    pub fn new() -> (r: HealthState)
        ensures
            r@.0 == Map::<Seq<char>, u64>::empty(),
            r@.1 == Map::<Seq<char>, u32>::empty(),
    {
        let r = HealthState { last_ok: Vec::new(), fails: Vec::new() };
        assert(as_map(key_views(r.last_ok@)) =~= Map::<Seq<char>, u64>::empty());
        assert(as_map(key_views(r.fails@)) =~= Map::<Seq<char>, u32>::empty());
        r
    }

    /// The failures counted for `host`.
    pub fn fail_count(&self, host: &str) -> (r: u32)
        ensures
            r as nat == fail_count(self@.1, host@),
    {
        proof {
            use_type_invariant(self);
        }
        let k = chars_of(host);
        match find_key(&self.fails, k.as_slice()) {
            Some(i) => {
                proof {
                    lemma_lookup_at(key_views(self.fails@), i as int);
                    assert(key_views(self.fails@)[i as int] == (k@, self.fails@[i as int].1));
                }
                self.fails[i].1
            },
            None => {
                proof {
                    lemma_lookup_absent(key_views(self.fails@), k@);
                }
                0
            },
        }
    }

    /// Records one probe of `host` at time `now`. A failure count already at
    /// `u32::MAX` cannot grow (the increment would overflow).
    pub fn record(&mut self, host: &str, ok: bool, now: u64)
        requires
            !ok ==> fail_count(old(self)@.1, host@) < u32::MAX,
        ensures
            final(self)@ == recorded(old(self)@, host@, ok, now),
    {
        proof {
            use_type_invariant(&*self);
        }
        let k = chars_of(host);
        let ghost lo = key_views(self.last_ok@);
        let ghost fo = key_views(self.fails@);
        if ok {
            let mut last_ok: Vec<(String, u64)> = Vec::new();
            std::mem::swap(&mut last_ok, &mut self.last_ok);
            set_key(&mut last_ok, host, &k, now);
            let mut fails: Vec<(String, u32)> = Vec::new();
            std::mem::swap(&mut fails, &mut self.fails);
            set_key(&mut fails, host, &k, 0u32);
            self.last_ok = last_ok;
            self.fails = fails;
        } else {
            let c = self.fail_count(host);
            let mut fails: Vec<(String, u32)> = Vec::new();
            std::mem::swap(&mut fails, &mut self.fails);
            set_key(&mut fails, host, &k, c + 1);
            self.fails = fails;
        }
    }

    /// Three or more failures in a row for `host`.
    pub fn needs_mitigation(&self, host: &str) -> (r: bool)
        ensures
            r == needs_mitigation_spec(self@.1, host@),
    {
        self.fail_count(host) >= 3
    }
}

/// Sets the value kept for `host` (whose characters are `k`).
fn set_key<T: Copy>(v: &mut Vec<(String, T)>, host: &str, k: &Vec<char>, x: T)
    requires
        unique_keys(key_views(old(v)@)),
        k@ == host@,
    ensures
        unique_keys(key_views(final(v)@)),
        as_map(key_views(final(v)@)) == as_map(key_views(old(v)@)).insert(host@, x),
{
    let ghost o = key_views(v@);
    match find_key(v, k.as_slice()) {
        Some(i) => {
            let name = v[i].0.clone();
            v.set(i, (name, x));
            proof {
                assert(key_views(v@) == o.update(i as int, (o[i as int].0, x)));
                lemma_lookup_update(o, i as int, x);
                assert(o[i as int].0 == host@);
                assert(unique_keys(key_views(v@))) by {
                    assert forall|a: int, b: int| 0 <= a < b < key_views(v@).len() implies
                        key_views(v@)[a].0 != key_views(v@)[b].0 by {
                        assert(key_views(v@)[a].0 == o[a].0);
                        assert(key_views(v@)[b].0 == o[b].0);
                    }
                }
                assert(as_map(key_views(v@)) =~= as_map(o).insert(host@, x));
            }
        },
        None => {
            v.push((String::from_str(host), x));
            proof {
                assert(key_views(v@) == o.push((host@, x)));
                lemma_lookup_push(o, host@, x);
                assert(unique_keys(key_views(v@))) by {
                    assert forall|a: int, b: int| 0 <= a < b < key_views(v@).len() implies
                        key_views(v@)[a].0 != key_views(v@)[b].0 by {
                        if b == o.len() {
                            assert(key_views(v@)[a] == o[a]);
                        } else {
                            assert(key_views(v@)[a] == o[a]);
                            assert(key_views(v@)[b] == o[b]);
                        }
                    }
                }
                assert(as_map(key_views(v@)) =~= as_map(o).insert(host@, x));
            }
        },
    }
}

/// Three failed probes in a row always call for mitigation, whatever came
/// before; one good probe clears the need; other hosts are untouched.
pub proof fn lemma_three_strikes(v: (Map<Seq<char>, u64>, Map<Seq<char>, u32>), h: Seq<char>, other: Seq<char>, t1: u64, t2: u64, t3: u64, t: u64)
    requires
        fail_count(v.1, h) + 3 <= u32::MAX,
        other != h,
    ensures
        needs_mitigation_spec(recorded(recorded(recorded(v, h, false, t1), h, false, t2), h, false, t3).1, h),
        !needs_mitigation_spec(recorded(v, h, true, t).1, h),
        fail_count(recorded(v, h, true, t).1, h) == 0,
        fail_count(recorded(v, h, false, t).1, other) == fail_count(v.1, other),
        fail_count(recorded(v, h, true, t).1, other) == fail_count(v.1, other),
{
}


/// The health after failed probes of `h` at the times `ts`, in order.
pub open spec fn failed_probes(
    v: (Map<Seq<char>, u64>, Map<Seq<char>, u32>),
    h: Seq<char>,
    ts: Seq<u64>,
) -> (Map<Seq<char>, u64>, Map<Seq<char>, u32>)
    decreases ts.len(),
{
    if ts.len() == 0 {
        v
    } else {
        recorded(failed_probes(v, h, ts.drop_last()), h, false, ts.last())
    }
}

/// Counting from a good probe of `h` (or from none at all, as in a new
/// `HealthState`), `k` failed probes in a row leave `k` failures counted,
/// so they call for mitigation exactly when `k` is at least 3.
pub proof fn lemma_mitigation_after_failures(
    v: (Map<Seq<char>, u64>, Map<Seq<char>, u32>),
    h: Seq<char>,
    ts: Seq<u64>,
)
    requires
        fail_count(v.1, h) == 0,
        ts.len() <= u32::MAX,
    ensures
        fail_count(failed_probes(v, h, ts).1, h) == ts.len(),
        needs_mitigation_spec(failed_probes(v, h, ts).1, h) <==> ts.len() >= 3,
    decreases ts.len(),
{
    if ts.len() > 0 {
        lemma_mitigation_after_failures(v, h, ts.drop_last());
    }
}

/// The health after the probes `events` (host, good, time), in order.
pub open spec fn replay(
    v: (Map<Seq<char>, u64>, Map<Seq<char>, u32>),
    events: Seq<(Seq<char>, bool, u64)>,
) -> (Map<Seq<char>, u64>, Map<Seq<char>, u32>)
    decreases events.len(),
{
    if events.len() == 0 {
        v
    } else {
        let e = events.last();
        recorded(replay(v, events.drop_last()), e.0, e.1, e.2)
    }
}

/// How many probes of `h` failed at the end of `events`, after its last
/// good probe (other hosts' probes do not count).
pub open spec fn trailing_failures(events: Seq<(Seq<char>, bool, u64)>, h: Seq<char>) -> nat
    decreases events.len(),
{
    if events.len() == 0 {
        0
    } else if events.last().0 != h {
        trailing_failures(events.drop_last(), h)
    } else if events.last().1 {
        0
    } else {
        trailing_failures(events.drop_last(), h) + 1
    }
}

/// Probes recorded one after another, for any hosts in any order, starting
/// from a state without failures for `h` (a new `HealthState`): `h` counts
/// exactly the failures after its last good probe, so it needs mitigation
/// exactly when the last `k` of its probes failed with `k >= 3`.
pub proof fn lemma_mitigation_over_records(
    v: (Map<Seq<char>, u64>, Map<Seq<char>, u32>),
    events: Seq<(Seq<char>, bool, u64)>,
    h: Seq<char>,
)
    requires
        fail_count(v.1, h) == 0,
        events.len() <= u32::MAX,
    ensures
        fail_count(replay(v, events).1, h) == trailing_failures(events, h),
        trailing_failures(events, h) <= events.len(),
        needs_mitigation_spec(replay(v, events).1, h) <==> trailing_failures(events, h) >= 3,
    decreases events.len(),
{
    if events.len() > 0 {
        lemma_mitigation_over_records(v, events.drop_last(), h);
    }
}

/// A probe answer counts as good when its status is a success (2xx) or a
/// redirection (3xx).
pub open spec fn status_ok(code: u16) -> bool {
    200 <= code <= 399
}

pub fn probe_status_ok(code: u16) -> (r: bool)
    ensures
        r == status_ok(code),
{
    (200 <= code && code <= 299) || (300 <= code && code <= 399)
}

/// The health loop probes three targets per round, rotating through the
/// list: the indices of this round's targets, and where the next round starts.
pub fn rotation_batch(idx: usize, len: usize) -> (r: (Vec<usize>, usize))
    requires
        len > 0,
        idx + 3 <= usize::MAX,
    ensures
        r.0@ == seq![(idx % len) as usize, ((idx + 1) % (len as int)) as usize, ((idx + 2) % (len as int)) as usize],
        r.1 == (idx + 3) % (len as int),
{
    let b = vec![idx % len, (idx + 1) % len, (idx + 2) % len];
    (b, (idx + 3) % len)
}

} // verus!
