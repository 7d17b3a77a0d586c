//! Aggregated counts over fetched symbols.
//!
//! A count table is a vector of `(key, count)` pairs whose keys are
//! pairwise distinct; each count is the number of occurrences of its key
//! among the counted values, and every counted value has an entry.

use vstd::prelude::*;

use super::symbol::Symbol;
use crate::text::{owned, str_eq};

verus! {

/// Number of positions of `keys` holding `k`.
pub open spec fn occurrences(keys: Seq<Seq<char>>, k: Seq<char>) -> nat
    decreases keys.len(),
{
    if keys.len() == 0 {
        0
    } else {
        occurrences(keys.drop_last(), k) + if keys.last() == k { 1nat } else { 0nat }
    }
}

/// The keys of a count table are pairwise distinct.
pub open spec fn keys_distinct(entries: Seq<(String, usize)>) -> bool {
    forall|a: int, b: int| 0 <= a < b < entries.len() ==> entries[a].0@ != entries[b].0@
}

/// Every value of `keys` has an entry in the table.
pub open spec fn covers(entries: Seq<(String, usize)>, keys: Seq<Seq<char>>) -> bool {
    forall|i: int| #![trigger keys[i]] 0 <= i < keys.len() ==> has_entry(entries, keys[i])
}

/// The table has an entry for `k`.
pub open spec fn has_entry(entries: Seq<(String, usize)>, k: Seq<char>) -> bool {
    exists|j: int| 0 <= j < entries.len() && #[trigger] entries[j].0@ == k
}

/// `entries` is the count table of the values `keys`: one entry for each
/// distinct value and none for anything else (no count is 0).
pub open spec fn is_tally_of(entries: Seq<(String, usize)>, keys: Seq<Seq<char>>) -> bool {
    &&& keys_distinct(entries)
    &&& forall|j: int| 0 <= j < entries.len() ==> entries[j].1 == occurrences(keys, #[trigger] entries[j].0@)
    &&& forall|j: int| 0 <= j < entries.len() ==> #[trigger] entries[j].1 > 0
    &&& covers(entries, keys)
}

/// The count a table records for `k` (0 when `k` has no entry).
pub open spec fn tally_count(entries: Seq<(String, usize)>, k: Seq<char>) -> nat
    decreases entries.len(),
{
    if entries.len() == 0 {
        0
    } else if entries.last().0@ == k {
        entries.last().1 as nat
    } else {
        tally_count(entries.drop_last(), k)
    }
}

/// Sum of all counts of a table.
pub open spec fn sum_counts(entries: Seq<(String, usize)>) -> nat
    decreases entries.len(),
{
    if entries.len() == 0 {
        0
    } else {
        sum_counts(entries.drop_last()) + entries.last().1 as nat
    }
}

/// The fallback-resolved categories of a sequence of symbols.
pub open spec fn category_keys(symbols: Seq<Symbol>) -> Seq<Seq<char>> {
    symbols.map_values(|s: Symbol| s.category_text())
}

/// The fallback-resolved contract types of a sequence of symbols.
pub open spec fn contract_type_keys(symbols: Seq<Symbol>) -> Seq<Seq<char>> {
    symbols.map_values(|s: Symbol| s.contract_type_text())
}

/// `keys` without the positions holding `k`.
pub open spec fn without(keys: Seq<Seq<char>>, k: Seq<char>) -> Seq<Seq<char>>
    decreases keys.len(),
{
    if keys.len() == 0 {
        keys
    } else if keys.last() == k {
        without(keys.drop_last(), k)
    } else {
        without(keys.drop_last(), k).push(keys.last())
    }
}

proof fn lemma_occurrences_push(keys: Seq<Seq<char>>, x: Seq<char>, k: Seq<char>)
    ensures
        occurrences(keys.push(x), k) == occurrences(keys, k) + if x == k { 1nat } else { 0nat },
{
    assert(keys.push(x).drop_last() =~= keys);
}

proof fn lemma_occurrences_member(keys: Seq<Seq<char>>, k: Seq<char>)
    requires
        occurrences(keys, k) > 0,
    ensures
        exists|i: int| 0 <= i < keys.len() && keys[i] == k,
    decreases keys.len(),
{
    if keys.last() == k {
        assert(keys[keys.len() - 1] == k);
    } else {
        lemma_occurrences_member(keys.drop_last(), k);
        let i = choose|i: int| 0 <= i < keys.drop_last().len() && keys.drop_last()[i] == k;
        assert(keys[i] == k);
    }
}

proof fn lemma_without(keys: Seq<Seq<char>>, k: Seq<char>)
    ensures
        without(keys, k).len() + occurrences(keys, k) == keys.len(),
        forall|k2: Seq<char>| k2 != k ==> #[trigger] occurrences(without(keys, k), k2) == occurrences(keys, k2),
        forall|i: int| 0 <= i < without(keys, k).len() ==> (#[trigger] without(keys, k)[i] != k
            && exists|i2: int| 0 <= i2 < keys.len() && keys[i2] == without(keys, k)[i]),
    decreases keys.len(),
{
    if keys.len() > 0 {
        let rest = keys.drop_last();
        lemma_without(rest, k);
        let w = without(keys, k);
        let wr = without(rest, k);
        if keys.last() == k {
            assert forall|i: int| 0 <= i < w.len() implies (w[i] != k
                && exists|i2: int| 0 <= i2 < keys.len() && keys[i2] == w[i]) by {
                let i2 = choose|i2: int| 0 <= i2 < rest.len() && rest[i2] == wr[i];
                assert(keys[i2] == w[i]);
            }
        } else {
            assert forall|k2: Seq<char>| k2 != k implies #[trigger] occurrences(without(keys, k), k2) == occurrences(keys, k2) by {
                assert(w == wr.push(keys.last()));
                lemma_occurrences_push(wr, keys.last(), k2);
            }
            assert forall|i: int| 0 <= i < w.len() implies (w[i] != k
                && exists|i2: int| 0 <= i2 < keys.len() && keys[i2] == w[i]) by {
                if i < wr.len() {
                    let i2 = choose|i2: int| 0 <= i2 < rest.len() && rest[i2] == wr[i];
                    assert(keys[i2] == w[i]);
                } else {
                    assert(keys[keys.len() - 1] == w[i]);
                }
            }
        }
    }
}

proof fn lemma_tally_drop_last(entries: Seq<(String, usize)>, keys: Seq<Seq<char>>)
    requires
        is_tally_of(entries, keys),
        entries.len() > 0,
    ensures
        is_tally_of(entries.drop_last(), without(keys, entries.last().0@)),
{
    let rest = entries.drop_last();
    let last_key = entries.last().0@;
    let wk = without(keys, last_key);
    lemma_without(keys, last_key);
    assert forall|a: int, b: int| 0 <= a < b < rest.len() implies rest[a].0@ != rest[b].0@ by {
        assert(entries[a].0@ != entries[b].0@);
    }
    assert forall|j: int| 0 <= j < rest.len() implies rest[j].1 == occurrences(wk, #[trigger] rest[j].0@) by {
        assert(entries[j].0@ != entries[entries.len() - 1].0@);
        assert(rest[j] == entries[j]);
        assert(entries[j].1 == occurrences(keys, entries[j].0@));
        assert(occurrences(wk, rest[j].0@) == occurrences(keys, rest[j].0@));
    }
    assert forall|i: int| #![trigger wk[i]] 0 <= i < wk.len() implies has_entry(rest, wk[i]) by {
        let i2 = choose|i2: int| 0 <= i2 < keys.len() && keys[i2] == wk[i];
        assert(keys[i2] == wk[i]);
        let j = choose|j: int| 0 <= j < entries.len() && #[trigger] entries[j].0@ == keys[i2];
        assert(j != entries.len() - 1);
        assert(rest[j].0@ == wk[i]);
    }
    assert(keys_distinct(rest));
    assert(forall|j: int| 0 <= j < rest.len() ==> rest[j].1 == occurrences(wk, #[trigger] rest[j].0@));
}

/// A count table records exactly the occurrences of each value.
pub proof fn lemma_tally_count(entries: Seq<(String, usize)>, keys: Seq<Seq<char>>, k: Seq<char>)
    requires
        is_tally_of(entries, keys),
    ensures
        tally_count(entries, k) == occurrences(keys, k),
    decreases entries.len(),
{
    if entries.len() == 0 {
        if occurrences(keys, k) > 0 {
            lemma_occurrences_member(keys, k);
            let i = choose|i: int| 0 <= i < keys.len() && keys[i] == k;
            assert(exists|j: int| 0 <= j < entries.len() && #[trigger] entries[j].0@ == keys[i]);
        }
    } else {
        let last = entries.last();
        if last.0@ == k {
            assert(entries[entries.len() - 1].0@ == k);
        } else {
            lemma_without(keys, last.0@);
            lemma_tally_drop_last(entries, keys);
            lemma_tally_count(entries.drop_last(), without(keys, last.0@), k);
        }
    }
}

/// The counts of a count table add up to the number of counted values.
pub proof fn lemma_tally_sum(entries: Seq<(String, usize)>, keys: Seq<Seq<char>>)
    requires
        is_tally_of(entries, keys),
    ensures
        sum_counts(entries) == keys.len(),
    decreases entries.len(),
{
    if entries.len() == 0 {
        if keys.len() > 0 {
            let k0 = keys[0];
            assert(exists|j: int| 0 <= j < entries.len() && #[trigger] entries[j].0@ == keys[0]);
        }
    } else {
        let last = entries.last();
        lemma_without(keys, last.0@);
        assert(entries[entries.len() - 1].1 == occurrences(keys, entries[entries.len() - 1].0@));
        lemma_tally_drop_last(entries, keys);
        lemma_tally_sum(entries.drop_last(), without(keys, last.0@));
    }
}

proof fn lemma_occurrences_bound(keys: Seq<Seq<char>>, k: Seq<char>)
    ensures
        occurrences(keys, k) <= keys.len(),
    decreases keys.len(),
{
    if keys.len() > 0 {
        lemma_occurrences_bound(keys.drop_last(), k);
    }
}

/// Counts one more value `key` into the table.
fn tally_add(entries: &mut Vec<(String, usize)>, key: &str, Ghost(keys): Ghost<Seq<Seq<char>>>)
    requires
        is_tally_of(old(entries)@, keys),
        keys.len() < usize::MAX,
    ensures
        is_tally_of(final(entries)@, keys.push(key@)),
{
    let ghost new_keys = keys.push(key@);
    assert forall|k: Seq<char>| occurrences(new_keys, k) == occurrences(keys, k) + if key@ == k { 1nat } else { 0nat } by {
        lemma_occurrences_push(keys, key@, k);
    }
    let n = entries.len();
    let mut j: usize = 0;
    while j < n
        invariant
            n == entries@.len(),
            entries@ == old(entries)@,
            is_tally_of(old(entries)@, keys),
            keys.len() < usize::MAX,
            new_keys == keys.push(key@),
            forall|k: Seq<char>| #[trigger] occurrences(new_keys, k) == occurrences(keys, k) + if key@ == k { 1nat } else { 0nat },
            j <= n,
            forall|l: int| 0 <= l < j ==> entries@[l].0@ != key@,
        decreases n - j,
    {
        if str_eq(entries[j].0.as_str(), key) {
            let c = entries[j].1;
            proof {
                lemma_occurrences_bound(keys, key@);
            }
            let ghost before = entries@;
            entries.set(j, (owned(key), c + 1));
            assert forall|a: int, b: int| 0 <= a < b < entries@.len() implies entries@[a].0@ != entries@[b].0@ by {
                assert(before[a].0@ != before[b].0@);
            }
            assert forall|l: int| 0 <= l < entries@.len() implies #[trigger] entries@[l].1 > 0 by {
                if l != j {
                    assert(entries@[l] == before[l]);
                }
            }
            assert forall|l: int| 0 <= l < entries@.len() implies entries@[l].1 == occurrences(new_keys, #[trigger] entries@[l].0@) by {
                if l != j {
                    assert(before[l].0@ != before[j as int].0@);
                    assert(entries@[l] == before[l]);
                    assert(occurrences(new_keys, entries@[l].0@) == occurrences(keys, entries@[l].0@));
                } else {
                    assert(occurrences(new_keys, key@) == occurrences(keys, key@) + 1);
                }
            }
            assert forall|i: int| #![trigger new_keys[i]] 0 <= i < new_keys.len() implies has_entry(entries@, new_keys[i]) by {
                if i < keys.len() {
                    let l = choose|l: int| 0 <= l < before.len() && #[trigger] before[l].0@ == keys[i];
                    assert(entries@[l].0@ == new_keys[i]);
                } else {
                    assert(entries@[j as int].0@ == new_keys[i]);
                }
            }
            return;
        }
        j = j + 1;
    }
    proof {
        if occurrences(keys, key@) > 0 {
            lemma_occurrences_member(keys, key@);
            let i = choose|i: int| 0 <= i < keys.len() && keys[i] == key@;
            let l = choose|l: int| 0 <= l < entries@.len() && #[trigger] entries@[l].0@ == keys[i];
            assert(false);
        }
    }
    let ghost before = entries@;
    entries.push((owned(key), 1));
    assert forall|a: int, b: int| 0 <= a < b < entries@.len() implies entries@[a].0@ != entries@[b].0@ by {
        if b < n {
            assert(before[a].0@ != before[b].0@);
        } else {
            assert(before[a].0@ != key@);
        }
    }
    assert forall|l: int| 0 <= l < entries@.len() implies #[trigger] entries@[l].1 > 0 by {
        if l < n {
            assert(entries@[l] == before[l]);
        }
    }
    assert forall|l: int| 0 <= l < entries@.len() implies entries@[l].1 == occurrences(new_keys, #[trigger] entries@[l].0@) by {
        if l < n {
            assert(before[l].0@ != key@);
            assert(entries@[l] == before[l]);
            assert(occurrences(new_keys, entries@[l].0@) == occurrences(keys, entries@[l].0@));
        } else {
            assert(occurrences(new_keys, key@) == occurrences(keys, key@) + 1);
        }
    }
    assert forall|i: int| #![trigger new_keys[i]] 0 <= i < new_keys.len() implies has_entry(entries@, new_keys[i]) by {
        if i < keys.len() {
            let l = choose|l: int| 0 <= l < before.len() && #[trigger] before[l].0@ == keys[i];
            assert(entries@[l].0@ == new_keys[i]);
        } else {
            assert(entries@[n as int].0@ == new_keys[i]);
        }
    }
}

/// The count recorded for `key`, or 0.
fn tally_lookup(entries: &Vec<(String, usize)>, key: &str) -> (r: usize)
    ensures
        r == tally_count(entries@, key@),
    decreases entries@.len(),
{
    let n = entries.len();
    let mut j: usize = n;
    assert(entries@.subrange(0, n as int) =~= entries@);
    while j > 0
        invariant
            n == entries@.len(),
            j <= n,
            forall|l: int| j <= l < n ==> entries@[l].0@ != key@,
            tally_count(entries@, key@) == tally_count(entries@.subrange(0, j as int), key@),
        decreases j,
    {
        let ghost prefix = entries@.subrange(0, j as int);
        assert(prefix.drop_last() =~= entries@.subrange(0, j - 1));
        if str_eq(entries[j - 1].0.as_str(), key) {
            return entries[j - 1].1;
        }
        j = j - 1;
    }
    0
}

fn copy_counts(v: &Vec<(String, usize)>) -> (r: Vec<(String, usize)>)
    ensures
        r@ == v@,
{
    let mut r: Vec<(String, usize)> = Vec::new();
    let mut i: usize = 0;
    while i < v.len()
        invariant
            i <= v@.len(),
            r@ == v@.subrange(0, i as int),
        decreases v@.len() - i,
    {
        r.push((v[i].0.clone(), v[i].1));
        i = i + 1;
    }
    assert(r@ =~= v@);
    r
}

/// Aggregated statistics about fetched symbols.
///
/// Contains counts of symbols organized by category and contract type
/// for analysis and reporting purposes.
#[derive(Debug, Clone)]
pub struct Statistics {
    /// Total number of symbols in the dataset
    pub total_count: usize,
    /// Count of symbols grouped by category (linear, inverse, etc.)
    pub by_category: Vec<(String, usize)>,
    /// Count of symbols grouped by contract type
    pub by_contract_type: Vec<(String, usize)>,
}

impl Statistics {
    /// The statistics count exactly the given category and contract-type
    /// labels (one pair per counted item).
    pub open spec fn counts(self, categories: Seq<Seq<char>>, contract_types: Seq<Seq<char>>) -> bool {
        &&& categories.len() == contract_types.len()
        &&& self.total_count == categories.len()
        &&& is_tally_of(self.by_category@, categories)
        &&& is_tally_of(self.by_contract_type@, contract_types)
    }

    /// The statistics describe exactly the given symbols.
    pub open spec fn describes(self, symbols: Seq<Symbol>) -> bool {
        self.counts(category_keys(symbols), contract_type_keys(symbols))
    }

    /// Create statistics from `(category, contract type)` labels, one pair
    /// per counted item.
    pub fn from_labels(labels: &[(String, String)]) -> (r: Self)
        ensures
            r.counts(
                labels@.map_values(|l: (String, String)| l.0@),
                labels@.map_values(|l: (String, String)| l.1@),
            ),
    {
        let mut by_category: Vec<(String, usize)> = Vec::new();
        let mut by_contract_type: Vec<(String, usize)> = Vec::new();
        let n = labels.len();
        let ghost cats = labels@.map_values(|l: (String, String)| l.0@);
        let ghost cts = labels@.map_values(|l: (String, String)| l.1@);
        let mut i: usize = 0;
        while i < n
            invariant
                n == labels@.len(),
                cats == labels@.map_values(|l: (String, String)| l.0@),
                cts == labels@.map_values(|l: (String, String)| l.1@),
                i <= n,
                is_tally_of(by_category@, cats.subrange(0, i as int)),
                is_tally_of(by_contract_type@, cts.subrange(0, i as int)),
            decreases n - i,
        {
            assert(cats.subrange(0, i + 1) =~= cats.subrange(0, i as int).push(labels@[i as int].0@));
            assert(cts.subrange(0, i + 1) =~= cts.subrange(0, i as int).push(labels@[i as int].1@));
            tally_add(&mut by_category, labels[i].0.as_str(), Ghost(cats.subrange(0, i as int)));
            tally_add(&mut by_contract_type, labels[i].1.as_str(), Ghost(cts.subrange(0, i as int)));
            i = i + 1;
        }
        assert(cats.subrange(0, n as int) =~= cats);
        assert(cts.subrange(0, n as int) =~= cts);
        Statistics { total_count: n, by_category, by_contract_type }
    }

    /// Create statistics from a list of symbols.
    ///
    /// Aggregates symbol counts by category and contract type
    /// for analysis and reporting.
    pub fn from_symbols(symbols: &[Symbol]) -> (r: Self)
        ensures
            r.describes(symbols@),
    {
        let mut by_category: Vec<(String, usize)> = Vec::new();
        let mut by_contract_type: Vec<(String, usize)> = Vec::new();
        let n = symbols.len();
        let mut i: usize = 0;
        while i < n
            invariant
                n == symbols@.len(),
                i <= n,
                is_tally_of(by_category@, category_keys(symbols@.subrange(0, i as int))),
                is_tally_of(by_contract_type@, contract_type_keys(symbols@.subrange(0, i as int))),
            decreases n - i,
        {
            let s = &symbols[i];
            let ghost prefix = symbols@.subrange(0, i as int);
            let ghost next = symbols@.subrange(0, i + 1);
            assert(category_keys(next) =~= category_keys(prefix).push(s.category_text()));
            assert(contract_type_keys(next) =~= contract_type_keys(prefix).push(s.contract_type_text()));
            tally_add(&mut by_category, s.category(), Ghost(category_keys(prefix)));
            tally_add(&mut by_contract_type, s.contract_type(), Ghost(contract_type_keys(prefix)));
            i = i + 1;
        }
        assert(symbols@.subrange(0, n as int) =~= symbols@);
        Statistics { total_count: n, by_category, by_contract_type }
    }

    /// A field-by-field copy of these statistics.
    pub fn duplicate(&self) -> (r: Self)
        ensures
            r.total_count == self.total_count,
            r.by_category@ == self.by_category@,
            r.by_contract_type@ == self.by_contract_type@,
    {
        Statistics {
            total_count: self.total_count,
            by_category: copy_counts(&self.by_category),
            by_contract_type: copy_counts(&self.by_contract_type),
        }
    }

    /// Get count for a specific category.
    ///
    /// Returns the number of symbols in the given category, or 0 if none.
    pub fn count_by_category(&self, category: &str) -> (r: usize)
        ensures
            r == tally_count(self.by_category@, category@),
    {
        tally_lookup(&self.by_category, category)
    }
}

/// Law: the count that statistics report for a category (or a contract
/// type) is the number of counted items with that label; for statistics
/// built from symbols, the number of symbols whose category (after the
/// "unknown" fallback) is that category.
pub proof fn law_category_count_is_item_count(
    stats: Statistics,
    categories: Seq<Seq<char>>,
    contract_types: Seq<Seq<char>>,
    label: Seq<char>,
)
    requires
        stats.counts(categories, contract_types),
    ensures
        tally_count(stats.by_category@, label) == occurrences(categories, label),
        tally_count(stats.by_contract_type@, label) == occurrences(contract_types, label),
{
    lemma_tally_count(stats.by_category@, categories, label);
    lemma_tally_count(stats.by_contract_type@, contract_types, label);
}

/// Law: the tables list exactly the labels that occur: every label of a
/// counted item has an entry, and every entry's label occurs (with the
/// entry's count, never 0).
pub proof fn law_tables_list_exactly_the_labels(
    stats: Statistics,
    categories: Seq<Seq<char>>,
    contract_types: Seq<Seq<char>>,
)
    requires
        stats.counts(categories, contract_types),
    ensures
        forall|i: int| 0 <= i < categories.len() ==> has_entry(stats.by_category@, #[trigger] categories[i]),
        forall|j: int| 0 <= j < stats.by_category@.len()
            ==> occurrences(categories, #[trigger] stats.by_category@[j].0@) > 0,
        forall|i: int| 0 <= i < contract_types.len() ==> has_entry(stats.by_contract_type@, #[trigger] contract_types[i]),
        forall|j: int| 0 <= j < stats.by_contract_type@.len()
            ==> occurrences(contract_types, #[trigger] stats.by_contract_type@[j].0@) > 0,
{
    assert forall|j: int| 0 <= j < stats.by_category@.len()
        implies occurrences(categories, #[trigger] stats.by_category@[j].0@) > 0 by {
        assert(stats.by_category@[j].1 > 0);
    }
    assert forall|j: int| 0 <= j < stats.by_contract_type@.len()
        implies occurrences(contract_types, #[trigger] stats.by_contract_type@[j].0@) > 0 by {
        assert(stats.by_contract_type@[j].1 > 0);
    }
}

/// Law: the per-category counts, and likewise the per-contract-type counts,
/// add up to the total count.
pub proof fn law_counts_add_up_to_total(stats: Statistics, categories: Seq<Seq<char>>, contract_types: Seq<Seq<char>>)
    requires
        stats.counts(categories, contract_types),
    ensures
        sum_counts(stats.by_category@) == stats.total_count,
        sum_counts(stats.by_contract_type@) == stats.total_count,
{
    lemma_tally_sum(stats.by_category@, categories);
    lemma_tally_sum(stats.by_contract_type@, contract_types);
}

} // verus!

verus! {

/// Lexicographic order of character sequences (a proper prefix comes
/// first), the order of `str` comparison.
pub open spec fn chars_less(a: Seq<char>, b: Seq<char>) -> bool
    decreases a.len(),
{
    if b.len() == 0 {
        false
    } else if a.len() == 0 {
        true
    } else if a[0] != b[0] {
        (a[0] as int) < (b[0] as int)
    } else {
        chars_less(a.drop_first(), b.drop_first())
    }
}

/// Whether `a` orders before `b`.
pub fn str_less(a: &str, b: &str) -> (r: bool)
    ensures
        r == chars_less(a@, b@),
{
    let na = a.unicode_len();
    let nb = b.unicode_len();
    let mut i: usize = 0;
    assert(a@.subrange(0, na as int) =~= a@);
    assert(b@.subrange(0, nb as int) =~= b@);
    while i < na && i < nb
        invariant
            na == a@.len(),
            nb == b@.len(),
            i <= na,
            i <= nb,
            chars_less(a@, b@) == chars_less(a@.subrange(i as int, na as int), b@.subrange(i as int, nb as int)),
        decreases na - i,
    {
        let ca = a.get_char(i);
        let cb = b.get_char(i);
        let ghost sa = a@.subrange(i as int, na as int);
        let ghost sb = b@.subrange(i as int, nb as int);
        assert(sa[0] == ca && sb[0] == cb);
        if ca != cb {
            return (ca as u32) < (cb as u32);
        }
        assert(sa.drop_first() =~= a@.subrange(i + 1, na as int));
        assert(sb.drop_first() =~= b@.subrange(i + 1, nb as int));
        i = i + 1;
    }
    i < nb
}

/// `sorted` with `e` placed after every entry whose name does not order
/// after the name of `e`.
pub open spec fn insert_by_name(sorted: Seq<(String, usize)>, e: (String, usize)) -> Seq<(String, usize)>
    decreases sorted.len(),
{
    if sorted.len() == 0 {
        seq![e]
    } else if !chars_less(e.0@, sorted.last().0@) {
        sorted.push(e)
    } else {
        insert_by_name(sorted.drop_last(), e).push(sorted.last())
    }
}

/// The entries ordered by name (a stable sort).
pub open spec fn sorted_by_name(entries: Seq<(String, usize)>) -> Seq<(String, usize)>
    decreases entries.len(),
{
    if entries.len() == 0 {
        Seq::empty()
    } else {
        insert_by_name(sorted_by_name(entries.drop_last()), entries.last())
    }
}

proof fn lemma_insert_by_name_at(s: Seq<(String, usize)>, e: (String, usize), p: int)
    requires
        0 <= p <= s.len(),
        p == 0 || !chars_less(e.0@, s[p - 1].0@),
        forall|j: int| p <= j < s.len() ==> chars_less(e.0@, #[trigger] s[j].0@),
    ensures
        insert_by_name(s, e) == s.insert(p, e),
    decreases s.len(),
{
    if s.len() == 0 {
        assert(s.insert(p, e) =~= seq![e]);
    } else if p == s.len() {
        assert(s.insert(p, e) =~= s.push(e));
    } else {
        assert(chars_less(e.0@, s[s.len() - 1].0@));
        let d = s.drop_last();
        assert forall|j: int| p <= j < d.len() implies chars_less(e.0@, #[trigger] d[j].0@) by {
            assert(d[j] == s[j]);
        }
        lemma_insert_by_name_at(d, e, p);
        assert(d.insert(p, e).push(s.last()) =~= s.insert(p, e));
    }
}

/// The count entries ordered by name, as the JSON rendering of statistics
/// lists them.
pub fn sort_by_name(entries: &Vec<(String, usize)>) -> (r: Vec<(String, usize)>)
    ensures
        r@ == sorted_by_name(entries@),
{
    let mut out: Vec<(String, usize)> = Vec::new();
    let n = entries.len();
    let mut i: usize = 0;
    while i < n
        invariant
            n == entries@.len(),
            i <= n,
            out@ == sorted_by_name(entries@.subrange(0, i as int)),
        decreases n - i,
    {
        assert(entries@.subrange(0, i + 1).drop_last() =~= entries@.subrange(0, i as int));
        let e = (entries[i].0.clone(), entries[i].1);
        let mut p = out.len();
        while p > 0 && str_less(e.0.as_str(), out[p - 1].0.as_str())
            invariant
                p <= out@.len(),
                forall|j: int| p <= j < out@.len() ==> chars_less(e.0@, #[trigger] out@[j].0@),
            decreases p,
        {
            p = p - 1;
        }
        proof {
            lemma_insert_by_name_at(out@, e, p as int);
        }
        out.insert(p, e);
        i = i + 1;
    }
    assert(entries@.subrange(0, n as int) =~= entries@);
    out
}

proof fn lemma_less_irreflexive(a: Seq<char>)
    ensures
        !chars_less(a, a),
    decreases a.len(),
{
    if a.len() > 0 {
        lemma_less_irreflexive(a.drop_first());
    }
}

proof fn lemma_less_total(a: Seq<char>, b: Seq<char>)
    requires
        a != b,
    ensures
        chars_less(a, b) || chars_less(b, a),
    decreases a.len(),
{
    if a.len() > 0 && b.len() > 0 && a[0] == b[0] {
        if a.drop_first() == b.drop_first() {
            assert(a =~= seq![a[0]] + a.drop_first());
            assert(b =~= seq![b[0]] + b.drop_first());
        }
        lemma_less_total(a.drop_first(), b.drop_first());
    } else if a.len() == 0 && b.len() == 0 {
        assert(a =~= b);
    } else if a.len() > 0 && b.len() > 0 {
        assert((a[0] as int) != (b[0] as int));
    }
}

proof fn lemma_less_transitive(a: Seq<char>, b: Seq<char>, c: Seq<char>)
    requires
        chars_less(a, b),
        chars_less(b, c),
    ensures
        chars_less(a, c),
    decreases a.len(),
{
    if a.len() > 0 && a[0] == b[0] && b[0] == c[0] {
        lemma_less_transitive(a.drop_first(), b.drop_first(), c.drop_first());
    }
}

/// `a` does not order after `b`.
pub open spec fn chars_le(a: Seq<char>, b: Seq<char>) -> bool {
    !chars_less(b, a)
}

proof fn lemma_le_transitive(a: Seq<char>, b: Seq<char>, c: Seq<char>)
    requires
        chars_le(a, b),
        chars_le(b, c),
    ensures
        chars_le(a, c),
{
    if chars_less(c, a) {
        if a == b {
        } else if b == c {
        } else {
            lemma_less_total(a, b);
            lemma_less_total(b, c);
            lemma_less_transitive(a, b, c);
            lemma_less_transitive(c, a, c);
            lemma_less_irreflexive(c);
        }
    }
}

/// Names do not decrease along the entries.
pub open spec fn names_nondecreasing(entries: Seq<(String, usize)>) -> bool {
    forall|i: int, j: int| 0 <= i < j < entries.len() ==> chars_le(#[trigger] entries[i].0@, #[trigger] entries[j].0@)
}

proof fn lemma_insert_by_name(s: Seq<(String, usize)>, e: (String, usize))
    ensures
        insert_by_name(s, e).to_multiset() == s.to_multiset().insert(e),
        forall|k: int| 0 <= k < insert_by_name(s, e).len() ==>
            #[trigger] insert_by_name(s, e)[k] == e || s.contains(insert_by_name(s, e)[k]),
        names_nondecreasing(s) ==> names_nondecreasing(insert_by_name(s, e)),
    decreases s.len(),
{
    broadcast use vstd::seq_lib::to_multiset_build;
    if s.len() == 0 {
        assert(seq![e] =~= s.push(e));
        assert(s.push(e).to_multiset() == s.to_multiset().insert(e));
    } else if !chars_less(e.0@, s.last().0@) {
        let r = s.push(e);
        assert forall|k: int| 0 <= k < r.len() implies #[trigger] r[k] == e || s.contains(r[k]) by {
            if k < s.len() {
                assert(s[k] == r[k]);
            }
        }
        if names_nondecreasing(s) {
            assert forall|i: int, j: int| 0 <= i < j < r.len() implies chars_le(#[trigger] r[i].0@, #[trigger] r[j].0@) by {
                if j == s.len() {
                    if i < s.len() - 1 {
                        assert(chars_le(s[i].0@, s[s.len() - 1].0@));
                        lemma_le_transitive(s[i].0@, s[s.len() - 1].0@, e.0@);
                    }
                } else {
                    assert(chars_le(s[i].0@, s[j].0@));
                }
            }
        }
    } else {
        let d = s.drop_last();
        let last = s.last();
        lemma_insert_by_name(d, e);
        let rd = insert_by_name(d, e);
        let r = rd.push(last);
        assert(d.push(last) =~= s);
        assert(r.to_multiset() == rd.to_multiset().insert(last));
        assert(s.to_multiset() == d.to_multiset().insert(last));
        assert(r.to_multiset() =~= s.to_multiset().insert(e)) by {
            broadcast use vstd::multiset::group_multiset_axioms;
        }
        assert forall|k: int| 0 <= k < r.len() implies #[trigger] r[k] == e || s.contains(r[k]) by {
            if k < rd.len() {
                assert(r[k] == rd[k]);
                if rd[k] != e {
                    assert(d.contains(rd[k]));
                    let j = choose|j: int| 0 <= j < d.len() && d[j] == rd[k];
                    assert(s[j] == d[j]);
                }
            } else {
                assert(r[k] == s[s.len() - 1]);
            }
        }
        if names_nondecreasing(s) {
            assert forall|i: int, j: int| 0 <= i < j < d.len() implies chars_le(#[trigger] d[i].0@, #[trigger] d[j].0@) by {
                assert(chars_le(s[i].0@, s[j].0@));
            }
            assert(rd.len() == d.len() + 1) by {
                assert(rd.to_multiset().len() == d.to_multiset().len() + 1) by {
                    broadcast use vstd::multiset::group_multiset_axioms;
                }
                broadcast use vstd::seq_lib::to_multiset_len;
            }
            assert forall|i: int, j: int| 0 <= i < j < r.len() implies chars_le(#[trigger] r[i].0@, #[trigger] r[j].0@) by {
                if j == rd.len() {
                    assert(r[i] == rd[i]);
                    if rd[i] == e {
                        if chars_less(last.0@, e.0@) {
                            lemma_less_transitive(e.0@, last.0@, e.0@);
                            lemma_less_irreflexive(e.0@);
                        }
                    } else {
                        assert(d.contains(rd[i]));
                        let m = choose|m: int| 0 <= m < d.len() && d[m] == rd[i];
                        assert(chars_le(s[m].0@, s[s.len() - 1].0@));
                    }
                } else {
                    assert(r[i] == rd[i] && r[j] == rd[j]);
                }
            }
        }
    }
}

/// Law: ordering by name yields the same entries (as a multiset) with
/// names that never decrease along the list.
pub proof fn law_sorted_by_name(entries: Seq<(String, usize)>)
    ensures
        sorted_by_name(entries).to_multiset() == entries.to_multiset(),
        names_nondecreasing(sorted_by_name(entries)),
    decreases entries.len(),
{
    broadcast use vstd::seq_lib::to_multiset_build;
    if entries.len() == 0 {
        assert(sorted_by_name(entries) =~= entries);
    } else {
        let d = entries.drop_last();
        law_sorted_by_name(d);
        lemma_insert_by_name(sorted_by_name(d), entries.last());
        assert(d.push(entries.last()) =~= entries);
    }
}

} // verus!
