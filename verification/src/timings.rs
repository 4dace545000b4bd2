use vstd::prelude::*;

verus! {

/// Sum of two durations in nanoseconds, held at `u64::MAX` where it would
/// not fit.
pub open spec fn sat_add(a: u64, b: u64) -> u64 {
    if a + b > u64::MAX {
        u64::MAX
    } else {
        (a + b) as u64
    }
}

/// No name occurs twice among the entries.
pub open spec fn keys_distinct(s: Seq<(String, u64)>) -> bool {
    forall|i: int, j: int| 0 <= i < j < s.len() ==> s[i].0@ != s[j].0@
}

/// The map from name to duration that a list of entries stands for.
pub open spec fn entries_map(s: Seq<(String, u64)>) -> Map<Seq<char>, u64>
    decreases s.len(),
{
    if s.len() == 0 {
        Map::empty()
    } else {
        entries_map(s.drop_last()).insert(s.last().0@, s.last().1)
    }
}

/// Two maps of durations merged: a name in both gets the sum of its two
/// durations, a name in one of them keeps its duration.
pub open spec fn merge_durations(a: Map<Seq<char>, u64>, b: Map<Seq<char>, u64>) -> Map<
    Seq<char>,
    u64,
> {
    Map::new(
        |k: Seq<char>| a.contains_key(k) || b.contains_key(k),
        |k: Seq<char>|
            if a.contains_key(k) && b.contains_key(k) {
                sat_add(a[k], b[k])
            } else if a.contains_key(k) {
                a[k]
            } else {
                b[k]
            },
    )
}

/// The entries of a list of named values, each name taken by its view.
pub open spec fn named_view<T>(s: Seq<(String, T)>) -> Seq<(Seq<char>, T)> {
    s.map_values(|p: (String, T)| (p.0@, p.1))
}

/// What a list of entries says of each name: a name is present iff some
/// entry has it, and then its duration is that of the entry.
pub proof fn lemma_entries_map(s: Seq<(String, u64)>)
    requires
        keys_distinct(s),
    ensures
        forall|k: Seq<char>|
            #[trigger] entries_map(s).contains_key(k) <==> exists|i: int|
                0 <= i < s.len() && s[i].0@ == k,
        forall|i: int| 0 <= i < s.len() ==> #[trigger] entries_map(s)[s[i].0@] == s[i].1,
    decreases s.len(),
{
    if s.len() > 0 {
        let p = s.drop_last();
        let n = s.len() - 1;
        assert(keys_distinct(p));
        lemma_entries_map(p);
        assert(entries_map(s) == entries_map(p).insert(s[n].0@, s[n].1));
        assert forall|k: Seq<char>|
            #[trigger] entries_map(s).contains_key(k) <==> exists|i: int|
                0 <= i < s.len() && s[i].0@ == k by {
            if entries_map(s).contains_key(k) {
                if k == s[n].0@ {
                    assert(s[n].0@ == k);
                } else {
                    assert(entries_map(p).contains_key(k));
                    let i = choose|i: int| 0 <= i < p.len() && p[i].0@ == k;
                    assert(s[i] == p[i]);
                    assert(s[i].0@ == k);
                }
            }
            if exists|i: int| 0 <= i < s.len() && s[i].0@ == k {
                let i = choose|i: int| 0 <= i < s.len() && s[i].0@ == k;
                if i < n {
                    assert(p[i] == s[i]);
                    assert(p[i].0@ == k);
                }
            }
        }
        assert forall|i: int| 0 <= i < s.len() implies #[trigger] entries_map(s)[s[i].0@]
            == s[i].1 by {
            if i < n {
                assert(p[i] == s[i]);
                assert(s[i].0@ != s[n].0@);
                assert(entries_map(p)[p[i].0@] == p[i].1);
            }
        }
    }
}

/// Setting the duration of the entry at `i` sets the duration of its name.
pub proof fn lemma_entries_update(s: Seq<(String, u64)>, i: int, e: (String, u64))
    requires
        keys_distinct(s),
        0 <= i < s.len(),
        e.0@ == s[i].0@,
    ensures
        keys_distinct(s.update(i, e)),
        entries_map(s.update(i, e)) == entries_map(s).insert(e.0@, e.1),
{
    let t = s.update(i, e);
    assert(keys_distinct(t));
    lemma_entries_map(s);
    lemma_entries_map(t);
    assert forall|k: Seq<char>|
        #[trigger] entries_map(s).insert(e.0@, e.1).contains_key(k) implies entries_map(
            t,
        ).contains_key(k) by {
        if k != e.0@ {
            assert(entries_map(s).contains_key(k));
            let j = choose|j: int| 0 <= j < s.len() && s[j].0@ == k;
            assert(t[j] == s[j]);
            assert(t[j].0@ == k);
        } else {
            assert(t[i].0@ == k);
        }
    }
    assert forall|k: Seq<char>| #[trigger]
        entries_map(t).contains_key(k) implies entries_map(s).insert(e.0@, e.1).contains_key(k)
        && entries_map(t)[k] == entries_map(s).insert(e.0@, e.1)[k] by {
        let j = choose|j: int| 0 <= j < t.len() && t[j].0@ == k;
        if j != i {
            assert(s[j] == t[j]);
        }
    }
    assert(entries_map(t) =~= entries_map(s).insert(e.0@, e.1));
}

/// Adding an entry under a new name adds that name.
pub proof fn lemma_entries_push(s: Seq<(String, u64)>, e: (String, u64))
    requires
        keys_distinct(s),
        !entries_map(s).contains_key(e.0@),
    ensures
        keys_distinct(s.push(e)),
        entries_map(s.push(e)) == entries_map(s).insert(e.0@, e.1),
{
    lemma_entries_map(s);
    let t = s.push(e);
    assert forall|i: int, j: int| 0 <= i < j < t.len() implies t[i].0@ != t[j].0@ by {
        if j == s.len() {
            assert(s[i].0@ != e.0@);
        } else {
            assert(t[i] == s[i] && t[j] == s[j]);
        }
    }
    assert(t.drop_last() =~= s);
}

/// Looks for the entry with the name `k`.
fn find_entry(entries: &Vec<(String, u64)>, k: &String) -> (r: Option<usize>)
    requires
        keys_distinct(entries@),
    ensures
        match r {
            Some(i) => i < entries@.len() && entries@[i as int].0@ == k@,
            None => !entries_map(entries@).contains_key(k@),
        },
{
    proof {
        lemma_entries_map(entries@);
    }
    let n = entries.len();
    let mut i: usize = 0;
    while i < n
        invariant
            n == entries@.len(),
            i <= n,
            forall|j: int| 0 <= j < i ==> entries@[j].0@ != k@,
        decreases n - i,
    {
        if entries[i].0 == *k {
            return Some(i);
        }
        i = i + 1;
    }
    None
}

/// Sets the duration of the name `k` to `v`.
fn set_entry(entries: &mut Vec<(String, u64)>, k: String, v: u64)
    requires
        keys_distinct(old(entries)@),
    ensures
        keys_distinct(final(entries)@),
        entries_map(final(entries)@) == entries_map(old(entries)@).insert(k@, v),
{
    match find_entry(entries, &k) {
        Some(i) => {
            proof {
                lemma_entries_update(entries@, i as int, (k, v));
            }
            entries.set(i, (k, v));
        },
        None => {
            proof {
                lemma_entries_push(entries@, (k, v));
            }
            entries.push((k, v));
        },
    }
}

/// Adds `v` to the duration of the name `k`, or gives `k` the duration `v`
/// where it has none.
fn accumulate_entry(entries: &mut Vec<(String, u64)>, k: String, v: u64)
    requires
        keys_distinct(old(entries)@),
    ensures
        keys_distinct(final(entries)@),
        entries_map(final(entries)@) == entries_map(old(entries)@).insert(
            k@,
            if entries_map(old(entries)@).contains_key(k@) {
                sat_add(entries_map(old(entries)@)[k@], v)
            } else {
                v
            },
        ),
{
    proof {
        lemma_entries_map(entries@);
    }
    match find_entry(entries, &k) {
        Some(i) => {
            let total = entries[i].1.saturating_add(v);
            proof {
                lemma_entries_update(entries@, i as int, (k, total));
            }
            entries.set(i, (k, total));
        },
        None => {
            proof {
                lemma_entries_push(entries@, (k, v));
            }
            entries.push((k, v));
        },
    }
}

/// Times spent in named parts of a pipeline, in nanoseconds, each name at
/// most once, together with other named values of type `T`.
#[derive(Debug)]
pub struct Timings<T: Sync + Send + 'static> {
    timings: Vec<(String, u64)>,
    others: Vec<(String, T)>,
}

impl<T: Sync + Send + 'static> Timings<T> {
    #[verifier::type_invariant]
    spec fn names_unique(self) -> bool {
        keys_distinct(self.timings@)
    }

    /// The duration of each name.
    pub closed spec fn durations(self) -> Map<Seq<char>, u64> {
        entries_map(self.timings@)
    }

    /// The other named values, in the order in which they were added.
    pub closed spec fn others_view(self) -> Seq<(Seq<char>, T)> {
        named_view(self.others@)
    }

    /// No durations and no other values.
    pub fn new() -> (t: Self)
        ensures
            t.durations() == Map::<Seq<char>, u64>::empty(),
            t.others_view() == Seq::<(Seq<char>, T)>::empty(),
    {
        let t = Timings { timings: Vec::new(), others: Vec::new() };
        assert(t.others_view() =~= Seq::<(Seq<char>, T)>::empty());
        t
    }

    /// Sets the duration of the name `k` to `v`, in place of any it had.
    pub fn add(&mut self, k: &str, v: u64)
        ensures
            final(self).durations() == old(self).durations().insert(k@, v),
            final(self).others_view() == old(self).others_view(),
    {
        proof {
            use_type_invariant(&*self);
        }
        let mut entries: Vec<(String, u64)> = Vec::new();
        std::mem::swap(&mut entries, &mut self.timings);
        set_entry(&mut entries, k.to_owned(), v);
        self.timings = entries;
    }

    /// Appends the value `v` under the name `k` to the other values.
    pub fn add_other(&mut self, k: &str, v: T)
        ensures
            final(self).durations() == old(self).durations(),
            final(self).others_view() == old(self).others_view().push((k@, v)),
    {
        proof {
            use_type_invariant(&*self);
        }
        let ghost old_others = self.others@;
        let mut others: Vec<(String, T)> = Vec::new();
        std::mem::swap(&mut others, &mut self.others);
        others.push((k.to_owned(), v));
        self.others = others;
        assert(named_view(self.others@) =~= named_view(old_others).push((k@, v)));
    }

    /// Adds the durations of `other` to these, name by name, and appends
    /// its other values after these.
    pub fn combine(&mut self, other: Self)
        ensures
            final(self).durations() == merge_durations(old(self).durations(), other.durations()),
            final(self).others_view() == old(self).others_view() + other.others_view(),
    {
        proof {
            use_type_invariant(&*self);
            use_type_invariant(&other);
        }
        let ghost before = entries_map(self.timings@);
        let Timings { timings: other_timings, others: other_others } = other;
        let ghost incoming = other_timings@;
        let mut entries: Vec<(String, u64)> = Vec::new();
        std::mem::swap(&mut entries, &mut self.timings);
        proof {
            assert(incoming.take(0) =~= Seq::<(String, u64)>::empty());
            assert(merge_durations(before, Map::empty()) =~= before);
        }
        for e in it: other_timings
            invariant
                keys_distinct(incoming),
                it.seq() == incoming,
                keys_distinct(entries@),
                entries_map(entries@) == merge_durations(
                    before,
                    entries_map(incoming.take(it.index() as int)),
                ),
        {
            let ghost j = it.index() as int;
            proof {
                assert(incoming[j] == e);
                lemma_merge_step(before, incoming, j);
            }
            accumulate_entry(&mut entries, e.0, e.1);
        }
        proof {
            assert(incoming.take(incoming.len() as int) =~= incoming);
        }
        self.timings = entries;
        let ghost old_others = self.others@;
        let mut others: Vec<(String, T)> = Vec::new();
        std::mem::swap(&mut others, &mut self.others);
        let mut moved = other_others;
        others.append(&mut moved);
        self.others = others;
        assert(named_view(self.others@) =~= named_view(old_others) + named_view(other.others@));
    }
}

impl<T: Sync + Send + 'static> Timings<T> {
    /// The durations, one entry per name.
    pub fn timings(&self) -> (r: &Vec<(String, u64)>)
        ensures
            keys_distinct(r@),
            entries_map(r@) == self.durations(),
    {
        proof {
            use_type_invariant(self);
        }
        &self.timings
    }

    /// The other values, in the order in which they were added.
    pub fn others(&self) -> (r: &Vec<(String, T)>)
        ensures
            named_view(r@) == self.others_view(),
    {
        &self.others
    }

    /// The duration of the name `k`, if it has one.
    pub fn get(&self, k: &str) -> (r: Option<u64>)
        ensures
            r == (if self.durations().contains_key(k@) {
                Some(self.durations()[k@])
            } else {
                None
            }),
    {
        proof {
            use_type_invariant(self);
            lemma_entries_map(self.timings@);
        }
        let key = k.to_owned();
        match find_entry(&self.timings, &key) {
            Some(i) => Some(self.timings[i].1),
            None => None,
        }
    }

    /// The durations and the other values, taken apart.
    pub fn into_parts(self) -> (r: (Vec<(String, u64)>, Vec<(String, T)>))
        ensures
            keys_distinct(r.0@),
            entries_map(r.0@) == self.durations(),
            named_view(r.1@) == self.others_view(),
    {
        proof {
            use_type_invariant(&self);
        }
        let Timings { timings, others } = self;
        (timings, others)
    }
}

/// One more entry of a list with distinct names, merged into `base`.
proof fn lemma_merge_step(base: Map<Seq<char>, u64>, s: Seq<(String, u64)>, j: int)
    requires
        keys_distinct(s),
        0 <= j < s.len(),
    ensures
        merge_durations(base, entries_map(s.take(j + 1))) == merge_durations(
            base,
            entries_map(s.take(j)),
        ).insert(
            s[j].0@,
            if merge_durations(base, entries_map(s.take(j))).contains_key(s[j].0@) {
                sat_add(merge_durations(base, entries_map(s.take(j)))[s[j].0@], s[j].1)
            } else {
                s[j].1
            },
        ),
{
    let p = s.take(j);
    let q = s.take(j + 1);
    assert(q.drop_last() =~= p);
    assert(keys_distinct(p));
    lemma_entries_map(p);
    assert(!entries_map(p).contains_key(s[j].0@)) by {
        if entries_map(p).contains_key(s[j].0@) {
            let i = choose|i: int| 0 <= i < p.len() && p[i].0@ == s[j].0@;
            assert(p[i] == s[i]);
        }
    }
    assert(merge_durations(base, entries_map(q)) =~= merge_durations(
        base,
        entries_map(p),
    ).insert(
        s[j].0@,
        if merge_durations(base, entries_map(p)).contains_key(s[j].0@) {
            sat_add(merge_durations(base, entries_map(p))[s[j].0@], s[j].1)
        } else {
            s[j].1
        },
    ));
}

/// The durations of a list of timings merged one after the other.
pub open spec fn merged_durations<T: Sync + Send + 'static>(ts: Seq<Timings<T>>) -> Map<
    Seq<char>,
    u64,
>
    decreases ts.len(),
{
    if ts.len() == 0 {
        Map::empty()
    } else {
        merge_durations(merged_durations(ts.drop_last()), ts.last().durations())
    }
}

/// The other values of a list of timings, one list after the other.
pub open spec fn concat_others<T: Sync + Send + 'static>(ts: Seq<Timings<T>>) -> Seq<
    (Seq<char>, T),
>
    decreases ts.len(),
{
    if ts.len() == 0 {
        Seq::empty()
    } else {
        concat_others(ts.drop_last()) + ts.last().others_view()
    }
}

/// Merging durations does not depend on the order of the two sides.
pub proof fn lemma_merge_commutative(a: Map<Seq<char>, u64>, b: Map<Seq<char>, u64>)
    ensures
        merge_durations(a, b) == merge_durations(b, a),
{
    assert(merge_durations(a, b) =~= merge_durations(b, a));
}

/// Merging durations does not depend on how the merges are grouped.
pub proof fn lemma_merge_associative(
    a: Map<Seq<char>, u64>,
    b: Map<Seq<char>, u64>,
    c: Map<Seq<char>, u64>,
)
    ensures
        merge_durations(merge_durations(a, b), c) == merge_durations(a, merge_durations(b, c)),
{
    assert(merge_durations(merge_durations(a, b), c) =~= merge_durations(
        a,
        merge_durations(b, c),
    ));
}

/// Merging with no durations changes nothing.
pub proof fn lemma_merge_empty(a: Map<Seq<char>, u64>)
    ensures
        merge_durations(a, Map::empty()) == a,
        merge_durations(Map::empty(), a) == a,
{
    assert(merge_durations(a, Map::empty()) =~= a);
    assert(merge_durations(Map::empty(), a) =~= a);
}

} // verus!
