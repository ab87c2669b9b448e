use vstd::prelude::*;

verus! {

/// The largest duration, in nanoseconds, that `std::time::Duration` can hold:
/// `u64::MAX` seconds and 999_999_999 nanoseconds.
pub const MAX_DURATION_NANOS: u128 = 18_446_744_073_709_551_615_999_999_999u128;

#[verifier::external_type_specification]
#[verifier::external_body]
pub struct ExInstant(std::time::Instant);

/// `Instant::now`: the current instant of the monotonic clock; nothing is stated of it.
#[verifier::external_body]
fn instant_now() -> std::time::Instant {
    std::time::Instant::now()
}

/// `Instant::elapsed`, read in nanoseconds with `Duration::as_nanos`. The value depends on
/// the clock; only the range of `Duration` is stated.
#[verifier::external_body]
fn elapsed_nanos(start: &std::time::Instant) -> (r: u128)
    ensures
        r <= MAX_DURATION_NANOS,
{
    start.elapsed().as_nanos()
}

/// The labels of a sequence of labelled entries are pairwise distinct.
pub open spec fn distinct_labels<V>(s: Seq<(String, V)>) -> bool {
    forall|i: int, j: int|
        0 <= i < s.len() && 0 <= j < s.len() && i != j ==> #[trigger] s[i].0@ != #[trigger] s[j].0@
}

/// The map from label to value that a sequence of labelled entries stands for.
pub open spec fn label_map<V>(s: Seq<(String, V)>) -> Map<Seq<char>, V>
    decreases s.len(),
{
    if s.len() == 0 {
        Map::empty()
    } else {
        label_map(s.drop_last()).insert(s.last().0@, s.last().1)
    }
}

/// The total recorded for `label`, zero where there is none.
pub open spec fn total_of(m: Map<Seq<char>, u128>, label: Seq<char>) -> u128 {
    if m.dom().contains(label) {
        m[label]
    } else {
        0
    }
}

/// Addition of two durations, held at the largest duration.
pub open spec fn sat_add(a: u128, b: u128) -> u128 {
    if a + b > MAX_DURATION_NANOS {
        MAX_DURATION_NANOS
    } else {
        (a + b) as u128
    }
}

/// The totals after `nanos` more were spent under `label`.
pub open spec fn accumulated(m: Map<Seq<char>, u128>, label: Seq<char>, nanos: u128) -> Map<
    Seq<char>,
    u128,
> {
    m.insert(label, sat_add(total_of(m, label), nanos))
}

/// The totals of two measurements added label by label.
pub open spec fn merged(a: Map<Seq<char>, u128>, b: Map<Seq<char>, u128>) -> Map<Seq<char>, u128> {
    Map::new(
        |k: Seq<char>| a.dom().contains(k) || b.dom().contains(k),
        |k: Seq<char>| sat_add(total_of(a, k), total_of(b, k)),
    )
}

/// Every duration of the map is one that `Duration` can hold.
pub open spec fn bounded(m: Map<Seq<char>, u128>) -> bool {
    forall|k: Seq<char>| #[trigger] m.dom().contains(k) ==> m[k] <= MAX_DURATION_NANOS
}

proof fn lemma_label_map_dom<V>(s: Seq<(String, V)>, k: Seq<char>)
    ensures
        label_map(s).dom().contains(k) <==> exists|i: int| 0 <= i < s.len() && #[trigger] s[i].0@ == k,
    decreases s.len(),
{
    if s.len() > 0 {
        lemma_label_map_dom(s.drop_last(), k);
        if label_map(s).dom().contains(k) && k != s.last().0@ {
            let i = choose|i: int| 0 <= i < s.drop_last().len() && #[trigger] s.drop_last()[i].0@ == k;
            assert(s[i].0@ == k);
        }
        if exists|i: int| 0 <= i < s.len() && #[trigger] s[i].0@ == k {
            let i = choose|i: int| 0 <= i < s.len() && #[trigger] s[i].0@ == k;
            if i < s.len() - 1 {
                assert(s.drop_last()[i].0@ == k);
            }
        }
    }
}

proof fn lemma_label_map_index<V>(s: Seq<(String, V)>, i: int)
    requires
        distinct_labels(s),
        0 <= i < s.len(),
    ensures
        label_map(s).dom().contains(s[i].0@),
        label_map(s)[s[i].0@] == s[i].1,
    decreases s.len(),
{
    if i < s.len() - 1 {
        let t = s.drop_last();
        assert(distinct_labels(t));
        assert(t[i] == s[i]);
        lemma_label_map_index(t, i);
        assert(s[i].0@ != s.last().0@);
    }
}

proof fn lemma_label_map_update<V>(s: Seq<(String, V)>, i: int, e: (String, V))
    requires
        distinct_labels(s),
        0 <= i < s.len(),
        e.0@ == s[i].0@,
    ensures
        distinct_labels(s.update(i, e)),
        label_map(s.update(i, e)) == label_map(s).insert(e.0@, e.1),
{
    let t = s.update(i, e);
    assert(distinct_labels(t)) by {
        assert forall|a: int, b: int|
            0 <= a < t.len() && 0 <= b < t.len() && a != b implies #[trigger] t[a].0@ != #[trigger] t[b].0@ by {
            assert(t[a].0@ == s[a].0@);
            assert(t[b].0@ == s[b].0@);
        }
    }
    assert forall|k: Seq<char>| #[trigger] label_map(t).dom().contains(k) <==> label_map(s).insert(
        e.0@,
        e.1,
    ).dom().contains(k) by {
        lemma_label_map_dom(t, k);
        lemma_label_map_dom(s, k);
        if exists|j: int| 0 <= j < s.len() && #[trigger] s[j].0@ == k {
            let j = choose|j: int| 0 <= j < s.len() && #[trigger] s[j].0@ == k;
            assert(t[j].0@ == k);
        }
        if exists|j: int| 0 <= j < t.len() && #[trigger] t[j].0@ == k {
            let j = choose|j: int| 0 <= j < t.len() && #[trigger] t[j].0@ == k;
            assert(s[j].0@ == k);
        }
    }
    assert forall|k: Seq<char>| #[trigger] label_map(t).dom().contains(k) implies label_map(t)[k]
        == label_map(s).insert(e.0@, e.1)[k] by {
        lemma_label_map_dom(t, k);
        let j = choose|j: int| 0 <= j < t.len() && #[trigger] t[j].0@ == k;
        lemma_label_map_index(t, j);
        if j != i {
            lemma_label_map_index(s, j);
        }
    }
    assert(label_map(t) =~= label_map(s).insert(e.0@, e.1));
}

proof fn lemma_label_map_push<V>(s: Seq<(String, V)>, e: (String, V))
    requires
        distinct_labels(s),
        !label_map(s).dom().contains(e.0@),
    ensures
        distinct_labels(s.push(e)),
        label_map(s.push(e)) == label_map(s).insert(e.0@, e.1),
{
    let t = s.push(e);
    assert(t.drop_last() =~= s);
    assert forall|a: int, b: int|
        0 <= a < t.len() && 0 <= b < t.len() && a != b implies #[trigger] t[a].0@ != #[trigger] t[b].0@ by {
        if a == s.len() {
            lemma_label_map_dom(s, e.0@);
            assert(s[b].0@ == t[b].0@);
        } else if b == s.len() {
            lemma_label_map_dom(s, e.0@);
            assert(s[a].0@ == t[a].0@);
        } else {
            assert(s[a].0@ == t[a].0@);
            assert(s[b].0@ == t[b].0@);
        }
    }
}

/// The position of the entry labelled `label`, if any.
fn find_label<V>(entries: &Vec<(String, V)>, label: &String) -> (r: Option<usize>)
    ensures
        match r {
            Some(i) => i < entries@.len() && entries@[i as int].0@ == label@,
            None => forall|j: int| 0 <= j < entries@.len() ==> #[trigger] entries@[j].0@ != label@,
        },
{
    let mut i: usize = 0;
    while i < entries.len()
        invariant
            i <= entries@.len(),
            forall|j: int| 0 <= j < i ==> #[trigger] entries@[j].0@ != label@,
        decreases entries@.len() - i,
    {
        if entries[i].0 == *label {
            return Some(i);
        }
        i = i + 1;
    }
    None
}

/// Accumulated timings, by label, in nanoseconds.
pub struct Perf {
    totals: Vec<(String, u128)>,
    instants: Vec<(String, std::time::Instant)>,
}

impl Perf {
    /// The entries are labelled without repetition and hold durations.
    pub closed spec fn wf(&self) -> bool {
        &&& distinct_labels(self.totals@)
        &&& distinct_labels(self.instants@)
        &&& bounded(label_map(self.totals@))
    }

    /// The total time recorded under each label.
    pub closed spec fn totals_view(&self) -> Map<Seq<char>, u128> {
        label_map(self.totals@)
    }

    /// The instant each started label was started at.
    pub closed spec fn instants_view(&self) -> Map<Seq<char>, std::time::Instant> {
        label_map(self.instants@)
    }

    /// Every total of a well-formed measurement is a duration `Duration` can hold.
    pub proof fn lemma_wf_bounded(&self)
        requires
            self.wf(),
        ensures
            bounded(self.totals_view()),
    {
    }

    /// A measurement with nothing recorded and nothing started.
    pub fn new() -> (r: Perf)
        ensures
            r.wf(),
            r.totals_view() == Map::<Seq<char>, u128>::empty(),
            r.instants_view() == Map::<Seq<char>, std::time::Instant>::empty(),
    {
        let r = Perf { totals: Vec::new(), instants: Vec::new() };
        assert(r.totals_view() =~= Map::<Seq<char>, u128>::empty());
        assert(r.instants_view() =~= Map::<Seq<char>, std::time::Instant>::empty());
        r
    }

    /// Adds `nanos` to the total of `label`, starting from zero where there is none; a
    /// total that would exceed the largest duration is held there.
    fn accumulate_capped(&mut self, label: &str, nanos: u128)
        requires
            old(self).wf(),
            nanos <= MAX_DURATION_NANOS,
        ensures
            final(self).wf(),
            final(self).totals_view() == accumulated(old(self).totals_view(), label@, nanos),
            final(self).instants_view() == old(self).instants_view(),
    {
        let key = String::from_str(label);
        match find_label(&self.totals, &key) {
            Some(i) => {
                proof {
                    lemma_label_map_index(self.totals@, i as int);
                }
                let cur = self.totals[i].1;
                let sum = if cur + nanos > MAX_DURATION_NANOS {
                    MAX_DURATION_NANOS
                } else {
                    cur + nanos
                };
                let ghost before = self.totals@;
                self.totals.set(i, (key, sum));
                proof {
                    lemma_label_map_update(before, i as int, (key, sum));
                }
            },
            None => {
                let ghost before = self.totals@;
                proof {
                    lemma_label_map_dom(before, key@);
                }
                self.totals.push((key, nanos));
                proof {
                    lemma_label_map_push(before, (key, nanos));
                }
            },
        }
        proof {
            let m = self.totals_view();
            assert forall|k: Seq<char>| #[trigger] m.dom().contains(k) implies m[k]
                <= MAX_DURATION_NANOS by {
                if k != label@ {
                    assert(old(self).totals_view().dom().contains(k));
                }
            }
        }
    }

    /// Adds `nanos` to the total of `label`, starting from zero where there is none.
    pub fn accumulate(&mut self, label: &str, nanos: u128)
        requires
            old(self).wf(),
            total_of(old(self).totals_view(), label@) + nanos <= MAX_DURATION_NANOS,
        ensures
            final(self).wf(),
            final(self).totals_view() == old(self).totals_view().insert(
                label@,
                (total_of(old(self).totals_view(), label@) + nanos) as u128,
            ),
            final(self).instants_view() == old(self).instants_view(),
    {
        self.accumulate_capped(label, nanos);
    }

    /// Sets the total of `label` to `nanos`, returning the total it replaced.
    pub fn insert(&mut self, label: String, nanos: u128) -> (r: Option<u128>)
        requires
            old(self).wf(),
            nanos <= MAX_DURATION_NANOS,
        ensures
            final(self).wf(),
            final(self).totals_view() == old(self).totals_view().insert(label@, nanos),
            final(self).instants_view() == old(self).instants_view(),
            r == (if old(self).totals_view().dom().contains(label@) {
                Some(old(self).totals_view()[label@])
            } else {
                None::<u128>
            }),
    {
        match find_label(&self.totals, &label) {
            Some(i) => {
                proof {
                    lemma_label_map_index(self.totals@, i as int);
                }
                let prev = self.totals[i].1;
                let ghost before = self.totals@;
                self.totals.set(i, (label, nanos));
                proof {
                    lemma_label_map_update(before, i as int, (label, nanos));
                }
                proof {
                    let m = self.totals_view();
                    assert forall|k: Seq<char>| #[trigger] m.dom().contains(k) implies m[k]
                        <= MAX_DURATION_NANOS by {
                        if k != label@ {
                            assert(old(self).totals_view().dom().contains(k));
                        }
                    }
                }
                Some(prev)
            },
            None => {
                let ghost before = self.totals@;
                proof {
                    lemma_label_map_dom(before, label@);
                }
                let ghost lv = label@;
                self.totals.push((label, nanos));
                proof {
                    lemma_label_map_push(before, (label, nanos));
                    let m = self.totals_view();
                    assert forall|k: Seq<char>| #[trigger] m.dom().contains(k) implies m[k]
                        <= MAX_DURATION_NANOS by {
                        if k != lv {
                            assert(old(self).totals_view().dom().contains(k));
                        }
                    }
                }
                None
            },
        }
    }

    /// The recorded totals, one entry per label.
    pub fn totals(&self) -> (r: &Vec<(String, u128)>)
        requires
            self.wf(),
        ensures
            distinct_labels(r@),
            label_map(r@) == self.totals_view(),
    {
        &self.totals
    }

    /// Adds every total of `perf` to the total of the same label here.
    pub fn add(&mut self, perf: &Perf)
        requires
            old(self).wf(),
            perf.wf(),
            forall|k: Seq<char>|
                total_of(old(self).totals_view(), k) + total_of(perf.totals_view(), k)
                    <= MAX_DURATION_NANOS,
        ensures
            final(self).wf(),
            final(self).totals_view() == merged(old(self).totals_view(), perf.totals_view()),
            forall|k: Seq<char>|
                #![trigger final(self).totals_view().dom().contains(k)]
                final(self).totals_view().dom().contains(k) <==> (old(
                    self,
                ).totals_view().dom().contains(k) || perf.totals_view().dom().contains(k)),
            forall|k: Seq<char>|
                #[trigger] total_of(final(self).totals_view(), k) == total_of(
                    old(self).totals_view(),
                    k,
                ) + total_of(perf.totals_view(), k),
            final(self).instants_view() == old(self).instants_view(),
    {
        let n = perf.totals.len();
        let mut i: usize = 0;
        proof {
            assert(label_map(perf.totals@.take(0)) =~= Map::<Seq<char>, u128>::empty());
            assert(merged(old(self).totals_view(), Map::empty()) =~= old(self).totals_view());
        }
        while i < n
            invariant
                n == perf.totals@.len(),
                i <= n,
                perf.wf(),
                old(self).wf(),
                self.wf(),
                self.totals_view() == merged(
                    old(self).totals_view(),
                    label_map(perf.totals@.take(i as int)),
                ),
                self.instants_view() == old(self).instants_view(),
            decreases n - i,
        {
            let ghost pre = self.totals_view();
            let ghost s = perf.totals@;
            let label = perf.totals[i].0.as_str();
            let v = perf.totals[i].1;
            proof {
                lemma_label_map_index(s, i as int);
            }
            self.accumulate_capped(label, v);
            proof {
                let a = old(self).totals_view();
                let b = label_map(s.take(i as int));
                let k = s[i as int].0@;
                assert(s.take(i + 1).drop_last() =~= s.take(i as int));
                assert(s.take(i + 1).last() == s[i as int]);
                assert(label_map(s.take(i + 1)) == b.insert(k, v));
                assert(!b.dom().contains(k)) by {
                    lemma_label_map_dom(s.take(i as int), k);
                    if b.dom().contains(k) {
                        let j = choose|j: int| 0 <= j < s.take(i as int).len() && #[trigger] s.take(i as int)[j].0@ == k;
                        assert(s[j].0@ == s[i as int].0@);
                    }
                }
                assert(self.totals_view() =~= merged(a, b.insert(k, v)));
            }
            i = i + 1;
        }
        proof {
            assert(perf.totals@.take(n as int) =~= perf.totals@);
        }
    }

    /// Runs `f`, adding the time it took to the total of `label`.
    pub fn time<F, T>(&mut self, label: &str, f: F) -> (r: T) where F: FnOnce() -> T
        requires
            old(self).wf(),
            f.requires(()),
        ensures
            f.ensures((), r),
            final(self).wf(),
            exists|e: u128|
                e <= MAX_DURATION_NANOS && final(self).totals_view() == accumulated(
                    old(self).totals_view(),
                    label@,
                    e,
                ),
            final(self).instants_view() == old(self).instants_view(),
            final(self).totals_view().dom() == old(self).totals_view().dom().insert(label@),
            forall|k: Seq<char>|
                k != label@ && #[trigger] old(self).totals_view().dom().contains(k) ==> final(self).totals_view()[k] == old(self).totals_view()[k],
            final(self).totals_view()[label@] >= total_of(old(self).totals_view(), label@),
    {
        let start = instant_now();
        let result = f();
        let elapsed = elapsed_nanos(&start);
        self.accumulate_capped(label, elapsed);
        result
    }

    /// Starts (or restarts) the clock of `label` at the instant `now`.
    pub fn start_at(&mut self, label: String, now: std::time::Instant)
        requires
            old(self).wf(),
        ensures
            final(self).wf(),
            final(self).totals_view() == old(self).totals_view(),
            final(self).instants_view() == old(self).instants_view().insert(label@, now),
    {
        let ghost before = self.instants@;
        let ghost lv = label@;
        match find_label(&self.instants, &label) {
            Some(i) => {
                self.instants.set(i, (label, now));
                proof {
                    lemma_label_map_update(before, i as int, self.instants@[i as int]);
                }
            },
            None => {
                proof {
                    lemma_label_map_dom(before, label@);
                }
                self.instants.push((label, now));
                proof {
                    lemma_label_map_push(before, self.instants@.last());
                    assert(self.instants@ == before.push(self.instants@.last()));
                }
            },
        }
    }

    /// Starts (or restarts) the clock of `label` at the current instant.
    pub fn start(&mut self, label: String)
        requires
            old(self).wf(),
        ensures
            final(self).wf(),
            final(self).totals_view() == old(self).totals_view(),
            exists|now: std::time::Instant|
                final(self).instants_view() == old(self).instants_view().insert(label@, now),
    {
        let now = instant_now();
        self.start_at(label, now);
    }

    /// Adds the time since `label` was started to its total and returns that time.
    pub fn end(&mut self, label: String) -> (r: u128)
        requires
            old(self).wf(),
            old(self).instants_view().dom().contains(label@),
        ensures
            r <= MAX_DURATION_NANOS,
            final(self).wf(),
            final(self).totals_view() == accumulated(old(self).totals_view(), label@, r),
            final(self).instants_view() == old(self).instants_view(),
            final(self).totals_view().dom() == old(self).totals_view().dom().insert(label@),
            forall|k: Seq<char>|
                k != label@ && #[trigger] old(self).totals_view().dom().contains(k) ==> final(self).totals_view()[k] == old(self).totals_view()[k],
            total_of(old(self).totals_view(), label@) + r <= MAX_DURATION_NANOS ==> final(self).totals_view()[label@] == total_of(old(self).totals_view(), label@) + r,
    {
        let found = find_label(&self.instants, &label);
        proof {
            lemma_label_map_dom(self.instants@, label@);
        }
        let i = match found {
            Some(i) => i,
            None => {
                assert(false);
                0
            },
        };
        let elapsed = elapsed_nanos(&self.instants[i].1);
        self.accumulate_capped(label.as_str(), elapsed);
        elapsed
    }
}

} // verus!

verus! {

/// Recording two durations under one label in turn leaves the same totals as recording
/// their (capped) sum once.
pub proof fn lemma_accumulate_twice(m: Map<Seq<char>, u128>, label: Seq<char>, a: u128, b: u128)
    requires
        bounded(m),
        a <= MAX_DURATION_NANOS,
        b <= MAX_DURATION_NANOS,
    ensures
        accumulated(accumulated(m, label, a), label, b) == accumulated(m, label, sat_add(a, b)),
{
    assert(accumulated(accumulated(m, label, a), label, b) =~= accumulated(
        m,
        label,
        sat_add(a, b),
    ));
}

/// Adding the totals of two measurements does not depend on which is added to which.
pub proof fn lemma_merged_commutes(a: Map<Seq<char>, u128>, b: Map<Seq<char>, u128>)
    ensures
        merged(a, b) == merged(b, a),
{
    assert(merged(a, b) =~= merged(b, a));
}

/// Adding a measurement with nothing recorded leaves the totals as they were.
pub proof fn lemma_merged_empty(a: Map<Seq<char>, u128>)
    requires
        bounded(a),
    ensures
        merged(a, Map::empty()) == a,
{
    assert(merged(a, Map::empty()) =~= a);
}

/// Adding several measurements together gives the same totals however they are grouped.
pub proof fn lemma_merged_associates(
    a: Map<Seq<char>, u128>,
    b: Map<Seq<char>, u128>,
    c: Map<Seq<char>, u128>,
)
    requires
        bounded(a),
        bounded(b),
        bounded(c),
    ensures
        merged(merged(a, b), c) == merged(a, merged(b, c)),
{
    assert(merged(merged(a, b), c) =~= merged(a, merged(b, c)));
}

} // verus!
