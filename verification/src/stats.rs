//! Counting of key presses by key name.
use crate::counts::{
    count_or_zero, entries_map, keys_distinct, lemma_entries_map, lemma_entries_map_update,
    lemma_entry_le_sum, sum_counts,
};
use crate::error::KeyLoggerError;
use crate::text::str_eq;
use vstd::prelude::*;

verus! {

/// The entries with each key name taken by its characters.
pub open spec fn stat_view(s: Seq<(&'static str, u64)>) -> Seq<(Seq<char>, u64)> {
    s.map_values(|e: (&'static str, u64)| (e.0@, e.1))
}

/// The characters of each key name of `keys`.
pub open spec fn names_view(keys: Seq<&'static str>) -> Seq<Seq<char>> {
    keys.map_values(|k: &'static str| k@)
}

/// How often the name `k` occurs in `keys`.
pub open spec fn occurrences(keys: Seq<Seq<char>>, k: Seq<char>) -> nat
    decreases keys.len(),
{
    if keys.len() == 0 {
        0
    } else {
        occurrences(keys.drop_last(), k) + if keys.last() == k {
            1nat
        } else {
            0nat
        }
    }
}

/// Occurrences in a concatenation add up.
pub proof fn lemma_occurrences_concat(a: Seq<Seq<char>>, b: Seq<Seq<char>>, k: Seq<char>)
    ensures
        occurrences(a + b, k) == occurrences(a, k) + occurrences(b, k),
    decreases b.len(),
{
    if b.len() == 0 {
        assert(a + b =~= a);
    } else {
        lemma_occurrences_concat(a, b.drop_last(), k);
        assert((a + b).drop_last() =~= a + b.drop_last());
    }
}

/// Key press counts by key name.
#[derive(Debug)]
pub struct KeyStatistics {
    /// Each key name with its count, no name twice, in the order the names
    /// were first counted.
    entries: Vec<(&'static str, u64)>,
}

impl View for KeyStatistics {
    type V = Map<Seq<char>, u64>;

    /// The count of each counted key name.
    closed spec fn view(&self) -> Map<Seq<char>, u64> {
        entries_map(stat_view(self.entries@))
    }
}

impl KeyStatistics {
    #[verifier::type_invariant]
    spec fn inv(self) -> bool {
        keys_distinct(stat_view(self.entries@))
    }

    /// The counted names with their counts, in the order they were first
    /// counted.
    pub closed spec fn spec_entries(&self) -> Seq<(&'static str, u64)> {
        self.entries@
    }

    /// The view is the map of the entries.
    pub proof fn lemma_view(&self)
        ensures
            self@ == entries_map(stat_view(self.spec_entries())),
    {
    }

    /// The counted names with their counts.
    pub fn entries(&self) -> (r: &Vec<(&'static str, u64)>)
        ensures
            r@ == self.spec_entries(),
            keys_distinct(stat_view(r@)),
    {
        proof {
            use_type_invariant(self);
        }
        &self.entries
    }


    /// The count of the name `key`, if it was counted.
    pub fn get(&self, key: &str) -> (r: Option<&u64>)
        ensures
            self@.contains_key(key@) ==> r == Some(&self@[key@]),
            !self@.contains_key(key@) ==> r is None,
    {
        proof {
            use_type_invariant(self);
            lemma_entries_map(stat_view(self.entries@));
        }
        match find_name(&self.entries, key) {
            Some(i) => {
                proof {
                    assert(stat_view(self.entries@)[i as int] == (self.entries@[i as int].0@, self.entries@[i as int].1));
                    assert(self@.contains_key(stat_view(self.entries@)[i as int].0));
                }
                Some(&self.entries[i].1)
            },
            None => {
                proof {
                    if self@.contains_key(key@) {
                        let j = choose|j: int|
                            0 <= j < stat_view(self.entries@).len() && stat_view(self.entries@)[j].0
                                == key@;
                        assert(self.entries@[j].0@ == key@);
                    }
                }
                None
            },
        }
    }

    /// The number of counted names.
    pub fn len(&self) -> (r: usize)
        ensures
            r == self@.dom().len(),
    {
        proof {
            use_type_invariant(self);
            lemma_entries_map(stat_view(self.entries@));
        }
        self.entries.len()
    }

    /// Whether no name was counted.
    pub fn is_empty(&self) -> (r: bool)
        ensures
            r == (self@.dom().len() == 0),
    {
        self.len() == 0
    }

    /// The counted names with their counts, one after another.
    pub fn iter(&self) -> (r: std::slice::Iter<'_, (&'static str, u64)>)
        ensures
            vstd::std_specs::iter::IteratorSpec::remaining(&r) == self.spec_entries().as_ref(),
    {
        proof {
            broadcast use vstd::std_specs::slice::axiom_spec_slice_iter;
        }
        self.entries.iter()
    }

    /// Counts one press of each name of `keys`, a name as often as it occurs.
    pub fn add_keys(&mut self, keys: &Vec<&'static str>)
        requires
            forall|k: Seq<char>|
                count_or_zero(old(self)@, k) + occurrences(names_view(keys@), k) <= u64::MAX,
        ensures
            forall|k: Seq<char>|
                #[trigger] final(self)@.contains_key(k) <==> (old(self)@.contains_key(k)
                    || occurrences(names_view(keys@), k) > 0),
            forall|k: Seq<char>|
                #[trigger] final(self)@.contains_key(k) ==> final(self)@[k] == count_or_zero(
                    old(self)@,
                    k,
                ) + occurrences(names_view(keys@), k),
    {
        proof {
            use_type_invariant(&*self);
        }
        let ghost old_map = self@;
        let ghost names = names_view(keys@);
        let mut entries = copy_stat_entries(&self.entries);
        let mut j: usize = 0;
        while j < keys.len()
            invariant
                names == names_view(keys@),
                j <= keys@.len(),
                forall|k: Seq<char>| count_or_zero(old_map, k) + occurrences(names, k) <= u64::MAX,
                keys_distinct(stat_view(entries@)),
                forall|k: Seq<char>|
                    #[trigger] entries_map(stat_view(entries@)).contains_key(k) <==> (
                    old_map.contains_key(k) || occurrences(names.subrange(0, j as int), k) > 0),
                forall|k: Seq<char>|
                    #[trigger] entries_map(stat_view(entries@)).contains_key(k) ==> entries_map(
                        stat_view(entries@),
                    )[k] == count_or_zero(old_map, k) + occurrences(
                        names.subrange(0, j as int),
                        k,
                    ),
            decreases keys@.len() - j,
        {
            let key = keys[j];
            let ghost pre = names.subrange(0, j as int);
            let ghost post = names.subrange(0, j as int + 1);
            proof {
                assert(post.drop_last() =~= pre);
                assert(post.last() == key@);
                assert forall|k: Seq<char>| occurrences(post, k) == occurrences(pre, k) + (if k
                    == key@ {
                    1nat
                } else {
                    0nat
                }) by {}
                lemma_occurrences_concat(post, names.subrange(j as int + 1, names.len() as int), key@);
                assert(post + names.subrange(j as int + 1, names.len() as int) =~= names);
                lemma_entries_map(stat_view(entries@));
            }
            let found = find_name(&entries, key);
            match found {
                Some(idx) => {
                    let (name, c) = entries[idx];
                    let ghost before = entries@;
                    proof {
                        assert(stat_view(before)[idx as int] == (name@, c));
                        assert(entries_map(stat_view(before)).contains_key(name@));
                        assert(c == count_or_zero(old_map, key@) + occurrences(pre, key@));
                    }
                    entries.set(idx, (name, c + 1));
                    proof {
                        assert(stat_view(entries@) =~= stat_view(before).update(
                            idx as int,
                            (stat_view(before)[idx as int].0, (c + 1) as u64),
                        ));
                        lemma_entries_map_update(stat_view(before), idx as int, (c + 1) as u64);
                        assert forall|k: Seq<char>|
                            #[trigger] entries_map(stat_view(entries@)).contains_key(k) implies entries_map(
                            stat_view(entries@),
                        )[k] == count_or_zero(old_map, k) + occurrences(post, k) by {
                            if k != key@ {
                                assert(entries_map(stat_view(entries@))[k] == entries_map(
                                    stat_view(before),
                                )[k]);
                            }
                        }
                    }
                },
                None => {
                    let ghost before = entries@;
                    entries.push((key, 1));
                    proof {
                        assert(!entries_map(stat_view(before)).contains_key(key@)) by {
                            if entries_map(stat_view(before)).contains_key(key@) {
                                let m = choose|m: int|
                                    0 <= m < stat_view(before).len() && stat_view(before)[m].0
                                        == key@;
                                assert(before[m].0@ == key@);
                            }
                        }
                        assert(stat_view(entries@) =~= stat_view(before).push((key@, 1u64)));
                        assert(stat_view(entries@).drop_last() =~= stat_view(before));
                        assert(keys_distinct(stat_view(entries@))) by {
                            assert forall|a: int, b: int|
                                0 <= a < b < stat_view(entries@).len() implies stat_view(
                                entries@,
                            )[a].0 != stat_view(entries@)[b].0 by {
                                if b == stat_view(entries@).len() - 1 {
                                    assert(entries_map(stat_view(before)).contains_key(
                                        stat_view(before)[a].0,
                                    ));
                                }
                            }
                        }
                        assert(!old_map.contains_key(key@));
                        assert(occurrences(pre, key@) == 0);
                        assert forall|k: Seq<char>|
                            #[trigger] entries_map(stat_view(entries@)).contains_key(k) implies entries_map(
                            stat_view(entries@),
                        )[k] == count_or_zero(old_map, k) + occurrences(post, k) by {
                            if k != key@ {
                                assert(entries_map(stat_view(entries@))[k] == entries_map(
                                    stat_view(before),
                                )[k]);
                            }
                        }
                    }
                },
            }
            j = j + 1;
            proof {
                assert(names.subrange(0, j as int) =~= post);
            }
        }
        proof {
            assert(names.subrange(0, j as int) =~= names);
        }
        *self = KeyStatistics { entries };
    }
}

/// Where the name `key` stands in the entries `s`, if it does.
fn find_name(s: &Vec<(&'static str, u64)>, key: &str) -> (r: Option<usize>)
    ensures
        r matches Some(i) ==> i < s@.len() && s@[i as int].0@ == key@,
        r is None ==> forall|i: int| 0 <= i < s@.len() ==> s@[i].0@ != key@,
{
    let mut i: usize = 0;
    while i < s.len()
        invariant
            i <= s@.len(),
            forall|j: int| 0 <= j < i ==> s@[j].0@ != key@,
        decreases s@.len() - i,
    {
        if str_eq(s[i].0, key) {
            return Some(i);
        }
        i = i + 1;
    }
    None
}

/// A copy of the entries `s`.
fn copy_stat_entries(s: &Vec<(&'static str, u64)>) -> (r: Vec<(&'static str, u64)>)
    ensures
        r@ == s@,
{
    let mut r: Vec<(&'static str, u64)> = Vec::new();
    let mut i: usize = 0;
    while i < s.len()
        invariant
            i <= s@.len(),
            r@ == s@.subrange(0, i as int),
        decreases s@.len() - i,
    {
        r.push(s[i]);
        i = i + 1;
        assert(r@ =~= s@.subrange(0, i as int));
    }
    assert(s@.subrange(0, s@.len() as int) =~= s@);
    r
}

/// An empty table of key press counts.
pub fn create_statistics() -> (r: KeyStatistics)
    ensures
        r@ == Map::<Seq<char>, u64>::empty(),
        r.spec_entries().len() == 0,
{
    KeyStatistics { entries: Vec::new() }
}

/// A copy of the counts as they stand.
pub fn get_statistics_snapshot(stats: &KeyStatistics) -> (r: Result<KeyStatistics, KeyLoggerError>)
    ensures
        r matches Ok(s) && s@ == stats@ && s.spec_entries() == stats.spec_entries(),
{
    proof {
        use_type_invariant(stats);
    }
    Ok(KeyStatistics { entries: copy_stat_entries(&stats.entries) })
}

/// Counts one press of each name of `keys`, a name as often as it occurs.
pub fn add_many(stats: &mut KeyStatistics, keys: Vec<&'static str>) -> (r: Result<(), KeyLoggerError>)
    requires
        forall|k: Seq<char>|
            count_or_zero(old(stats)@, k) + occurrences(names_view(keys@), k) <= u64::MAX,
    ensures
        r is Ok,
        counted(old(stats)@, names_view(keys@), final(stats)@),
{
    stats.add_keys(&keys);
    Ok(())
}

/// Whether the characters `a` come before `b` in lexicographic order of
/// code points (the byte order of their UTF-8 text).
pub open spec fn chars_lt(a: Seq<char>, b: Seq<char>) -> bool
    decreases a.len(),
{
    if a.len() == 0 {
        b.len() > 0
    } else if b.len() == 0 {
        false
    } else if a[0] != b[0] {
        (a[0] as int) < (b[0] as int)
    } else {
        chars_lt(a.drop_first(), b.drop_first())
    }
}

/// The order of exported rows: higher counts first, equal counts by name.
pub open spec fn row_before(x: (Seq<char>, u64), y: (Seq<char>, u64)) -> bool {
    x.1 > y.1 || (x.1 == y.1 && chars_lt(x.0, y.0))
}

/// Whether the rows `r` are in export order.
pub open spec fn rows_sorted(r: Seq<(Seq<char>, u64)>) -> bool {
    forall|i: int, j: int| 0 <= i < j < r.len() ==> row_before(r[i], r[j])
}

proof fn lemma_chars_lt_irreflexive(a: Seq<char>)
    ensures
        !chars_lt(a, a),
    decreases a.len(),
{
    if a.len() > 0 {
        lemma_chars_lt_irreflexive(a.drop_first());
    }
}

proof fn lemma_chars_lt_transitive(a: Seq<char>, b: Seq<char>, c: Seq<char>)
    requires
        chars_lt(a, b),
        chars_lt(b, c),
    ensures
        chars_lt(a, c),
    decreases a.len(),
{
    if a.len() > 0 && b.len() > 0 && c.len() > 0 && a[0] == b[0] && b[0] == c[0] {
        lemma_chars_lt_transitive(a.drop_first(), b.drop_first(), c.drop_first());
    }
}

proof fn lemma_chars_lt_total(a: Seq<char>, b: Seq<char>)
    requires
        a != b,
    ensures
        chars_lt(a, b) || chars_lt(b, a),
    decreases a.len(),
{
    if a.len() == 0 || b.len() == 0 {
        if a.len() == 0 && b.len() == 0 {
            assert(a =~= b);
        }
    } else if a[0] != b[0] {
        assert((a[0] as int) != (b[0] as int));
    } else {
        if a.drop_first() == b.drop_first() {
            assert(a =~= seq![a[0]] + a.drop_first());
            assert(b =~= seq![b[0]] + b.drop_first());
            assert(a =~= b);
        } else {
            lemma_chars_lt_total(a.drop_first(), b.drop_first());
        }
    }
}

proof fn lemma_chars_lt_asymmetric(a: Seq<char>, b: Seq<char>)
    requires
        chars_lt(a, b),
    ensures
        !chars_lt(b, a),
    decreases a.len(),
{
    if a.len() > 0 && b.len() > 0 && a[0] == b[0] {
        lemma_chars_lt_asymmetric(a.drop_first(), b.drop_first());
    }
}

/// Whether `a` comes before `b` in code point order.
fn str_less(a: &str, b: &str) -> (r: bool)
    ensures
        r == chars_lt(a@, b@),
{
    let x = crate::text::chars_of(a);
    let y = crate::text::chars_of(b);
    let mut i: usize = 0;
    proof {
        assert(x@.skip(0) =~= x@);
        assert(y@.skip(0) =~= y@);
    }
    while i < x.len() && i < y.len() && x[i] == y[i]
        invariant
            i <= x@.len(),
            i <= y@.len(),
            chars_lt(x@, y@) == chars_lt(x@.skip(i as int), y@.skip(i as int)),
        decreases x@.len() - i,
    {
        proof {
            assert(x@.skip(i as int).drop_first() =~= x@.skip(i as int + 1));
            assert(y@.skip(i as int).drop_first() =~= y@.skip(i as int + 1));
        }
        i = i + 1;
    }
    if i == x.len() {
        i < y.len()
    } else if i == y.len() {
        false
    } else {
        proof {
            assert(x@.skip(i as int)[0] == x@[i as int]);
            assert(y@.skip(i as int)[0] == y@[i as int]);
        }
        x[i] < y[i]
    }
}

/// Whether the row `x` comes before the row `y` in export order.
fn row_less(x: (&'static str, u64), y: (&'static str, u64)) -> (r: bool)
    ensures
        r == row_before((x.0@, x.1), (y.0@, y.1)),
{
    x.1 > y.1 || (x.1 == y.1 && str_less(x.0, y.0))
}

/// The rows of the counts in export order: higher counts first, equal
/// counts by key name.
pub fn sorted_rows(stats: &KeyStatistics) -> (r: Vec<(&'static str, u64)>)
    ensures
        r@.len() == stats.spec_entries().len(),
        forall|x: (&'static str, u64)| r@.contains(x) <==> stats.spec_entries().contains(x),
        rows_sorted(stat_view(r@)),
{
    proof {
        use_type_invariant(stats);
    }
    let ghost src = stats.entries@;
    let mut r: Vec<(&'static str, u64)> = Vec::new();
    let mut k: usize = 0;
    while k < stats.entries.len()
        invariant
            src == stats.entries@,
            keys_distinct(stat_view(src)),
            k <= src.len(),
            r@.len() == k,
            forall|x: (&'static str, u64)| r@.contains(x) <==> src.subrange(0, k as int).contains(x),
            rows_sorted(stat_view(r@)),
        decreases src.len() - k,
    {
        let e = stats.entries[k];
        let mut p: usize = 0;
        while p < r.len() && !row_less(e, r[p])
            invariant
                p <= r@.len(),
                forall|q: int| 0 <= q < p ==> !row_before((e.0@, e.1), stat_view(r@)[q]),
            decreases r@.len() - p,
        {
            p = p + 1;
        }
        let ghost before = r@;
        proof {
            // the new row differs in name from every row placed so far
            assert forall|q: int| 0 <= q < before.len() implies before[q].0@ != e.0@ by {
                let s0 = src.subrange(0, k as int);
                assert(r@[q] == before[q]);
                assert(r@.contains(before[q]));
                assert(s0.contains(before[q]));
                let m = choose|m: int| 0 <= m < s0.len() && s0[m] == before[q];
                assert(src[m] == before[q]);
                assert(stat_view(src)[m].0 != stat_view(src)[k as int].0);
            }
            assert forall|q: int| 0 <= q < p implies row_before(stat_view(before)[q], (e.0@, e.1)) by {
                let y = stat_view(before)[q];
                assert(y.0 != e.0@);
                lemma_chars_lt_total(y.0, e.0@);
            }
            assert forall|q: int| p <= q < before.len() implies row_before((e.0@, e.1), stat_view(before)[q]) by {
                let y = stat_view(before)[q];
                if q > p {
                    assert(row_before(stat_view(before)[p as int], y));
                    if e.1 == stat_view(before)[p as int].1 && y.1 == e.1 {
                        lemma_chars_lt_transitive(e.0@, stat_view(before)[p as int].0, y.0);
                    }
                }
            }
        }
        r.insert(p, e);
        proof {
            assert(r@ == before.insert(p as int, e));
            assert forall|q: int| 0 <= q < p implies #[trigger] stat_view(r@)[q] == stat_view(before)[q] by {}
            assert(stat_view(r@)[p as int] == (e.0@, e.1));
            assert forall|q: int| p < q < r@.len() implies #[trigger] stat_view(r@)[q] == stat_view(before)[q - 1] by {}
            assert forall|i: int, j: int| 0 <= i < j < stat_view(r@).len() implies row_before(
                stat_view(r@)[i],
                stat_view(r@)[j],
            ) by {
                if i < p && j < p {
                } else if i < p && j == p {
                } else if i < p && j > p {
                    assert(stat_view(r@)[j] == stat_view(before)[j - 1]);
                } else if i == p {
                    assert(stat_view(r@)[j] == stat_view(before)[j - 1]);
                } else {
                    assert(stat_view(r@)[i] == stat_view(before)[i - 1]);
                    assert(stat_view(r@)[j] == stat_view(before)[j - 1]);
                }
            }
            let ghost s0 = src.subrange(0, k as int);
            let ghost s1 = src.subrange(0, k + 1);
            assert(s1 =~= s0.push(e));
            assert forall|x: (&'static str, u64)| r@.contains(x) <==> s1.contains(x) by {
                if r@.contains(x) {
                    let m = choose|m: int| 0 <= m < r@.len() && r@[m] == x;
                    if m < p {
                        assert(before[m] == x);
                        assert(before.contains(x));
                        let m2 = choose|m2: int| 0 <= m2 < s0.len() && s0[m2] == x;
                        assert(s1[m2] == x);
                    } else if m == p {
                        assert(s1[k as int] == x);
                    } else {
                        assert(before[m - 1] == x);
                        assert(before.contains(x));
                        let m2 = choose|m2: int| 0 <= m2 < s0.len() && s0[m2] == x;
                        assert(s1[m2] == x);
                    }
                }
                if s1.contains(x) {
                    let m = choose|m: int| 0 <= m < s1.len() && s1[m] == x;
                    if m == k {
                        assert(r@[p as int] == x);
                    } else {
                        assert(s0[m] == x);
                        assert(before.contains(x));
                        let q = choose|q: int| 0 <= q < before.len() && before[q] == x;
                        if q < p {
                            assert(r@[q] == x);
                        } else {
                            assert(r@[q + 1] == x);
                        }
                    }
                }
            }
        }
        k = k + 1;
    }
    proof {
        assert(src.subrange(0, k as int) =~= src);
    }
    r
}

/// A name that occurs in `keys` stands at some index of `keys`.
pub proof fn lemma_occurrences_witness(keys: Seq<Seq<char>>, k: Seq<char>)
    requires
        occurrences(keys, k) > 0,
    ensures
        exists|i: int| 0 <= i < keys.len() && keys[i] == k,
    decreases keys.len(),
{
    if keys.last() != k {
        lemma_occurrences_witness(keys.drop_last(), k);
        let i = choose|i: int| 0 <= i < keys.len() - 1 && keys.drop_last()[i] == k;
        assert(keys[i] == k);
    } else {
        assert(keys[keys.len() - 1] == k);
    }
}

/// How often the name `key` occurs in `keys`.
fn count_name(keys: &Vec<&'static str>, key: &str) -> (n: u64)
    ensures
        n == occurrences(names_view(keys@), key@),
{
    let ghost names = names_view(keys@);
    let mut n: u64 = 0;
    let mut j: usize = 0;
    while j < keys.len()
        invariant
            names == names_view(keys@),
            j <= keys@.len(),
            n <= j,
            n == occurrences(names.take(j as int), key@),
        decreases keys@.len() - j,
    {
        proof {
            assert(names.take(j + 1).drop_last() =~= names.take(j as int));
            assert(names.take(j + 1).last() == keys@[j as int]@);
        }
        if str_eq(keys[j], key) {
            n = n + 1;
        }
        j = j + 1;
    }
    assert(names.take(j as int) =~= names);
    n
}

/// Whether counting one press of each name of `keys` keeps every count
/// within `u64`.
pub fn counts_fit(stats: &KeyStatistics, keys: &Vec<&'static str>) -> (r: bool)
    ensures
        r == forall|k: Seq<char>| count_or_zero(stats@, k) + occurrences(names_view(keys@), k) <= u64::MAX,
{
    let ghost names = names_view(keys@);
    let mut i: usize = 0;
    while i < keys.len()
        invariant
            names == names_view(keys@),
            i <= keys@.len(),
            forall|j: int| 0 <= j < i ==> count_or_zero(stats@, #[trigger] names[j]) + occurrences(names, names[j]) <= u64::MAX,
        decreases keys@.len() - i,
    {
        let key = keys[i];
        let occ = count_name(keys, key);
        let current: u64 = match stats.get(key) {
            Some(c) => *c,
            None => 0,
        };
        assert(names[i as int] == key@);
        if current > u64::MAX - occ {
            assert(current == count_or_zero(stats@, key@));
            assert(count_or_zero(stats@, key@) + occurrences(names, key@) > u64::MAX);
            return false;
        }
        assert(current == count_or_zero(stats@, key@));
        i = i + 1;
    }
    proof {
        assert forall|k: Seq<char>| count_or_zero(stats@, k) + occurrences(names, k) <= u64::MAX by {
            if occurrences(names, k) > 0 {
                lemma_occurrences_witness(names, k);
                let j = choose|j: int| 0 <= j < names.len() && names[j] == k;
                assert(count_or_zero(stats@, names[j]) + occurrences(names, names[j]) <= u64::MAX);
            }
        }
    }
    true
}

/// Whether `new` holds the counts of `old` with one press of each name of
/// `keys` added, as `add_many` leaves them.
pub open spec fn counted(old: Map<Seq<char>, u64>, keys: Seq<Seq<char>>, new: Map<Seq<char>, u64>) -> bool {
    &&& forall|k: Seq<char>| #[trigger] new.contains_key(k) <==> (old.contains_key(k) || occurrences(keys, k) > 0)
    &&& forall|k: Seq<char>| #[trigger] new.contains_key(k) ==> new[k] == count_or_zero(old, k) + occurrences(keys, k)
}

/// Counting `a` and then `b` gives the counts of counting `a` followed by
/// `b` at once.
pub proof fn lemma_counting_composes(
    m0: Map<Seq<char>, u64>,
    a: Seq<Seq<char>>,
    m1: Map<Seq<char>, u64>,
    b: Seq<Seq<char>>,
    m2: Map<Seq<char>, u64>,
)
    requires
        counted(m0, a, m1),
        counted(m1, b, m2),
    ensures
        counted(m0, a + b, m2),
{
    assert forall|k: Seq<char>| #[trigger] m2.contains_key(k) <==> (m0.contains_key(k) || occurrences(a + b, k) > 0) by {
        lemma_occurrences_concat(a, b, k);
    }
    assert forall|k: Seq<char>| #[trigger] m2.contains_key(k) implies m2[k] == count_or_zero(m0, k) + occurrences(a + b, k) by {
        lemma_occurrences_concat(a, b, k);
        if m1.contains_key(k) {
        }
    }
}

/// Counting nothing leaves the counts as they are.
pub proof fn lemma_counting_nothing(m0: Map<Seq<char>, u64>, m1: Map<Seq<char>, u64>)
    requires
        counted(m0, Seq::empty(), m1),
    ensures
        m1 == m0,
{
    assert(m1 =~= m0);
}

} // verus!
