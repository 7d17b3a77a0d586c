//! Symbol search, the text report of fetched symbols, and the orderings
//! and line wrapping the report uses.

use vstd::prelude::*;

use crate::models::statistics::Statistics;
use crate::models::symbol::{copy_symbols, Symbol};
use crate::text::{
    byte_count, byte_len, concat2, concat3, contains_seq, decimal, join_strs, joined, owned,
    push_decimal, str_contains, str_views, string_views, to_lowercase, to_uppercase, trim, trimmed,
    unicode_lowercase, unicode_uppercase,
};

verus! {

/// The symbols whose lowercased name contains `needle`, in order.
pub open spec fn search_results(symbols: Seq<Symbol>, needle: Seq<char>) -> Seq<Symbol>
    decreases symbols.len(),
{
    if symbols.len() == 0 {
        Seq::empty()
    } else {
        let rest = search_results(symbols.drop_last(), needle);
        if contains_seq(unicode_lowercase(symbols.last().symbol@), needle) {
            rest.push(symbols.last())
        } else {
            rest
        }
    }
}

/// Filter symbols by search term (case-insensitive).
///
/// Returns symbols whose name contains the search term.
/// Returns all symbols if the search term is empty.
pub fn by_search(symbols: &[Symbol], search_term: &str) -> (r: Vec<Symbol>)
    ensures
        search_term@.len() == 0 ==> r@ == symbols@,
        search_term@.len() > 0 ==> r@ == search_results(symbols@, unicode_lowercase(search_term@)),
{
    if search_term.unicode_len() == 0 {
        return copy_symbols(symbols);
    }
    let search_lower = to_lowercase(search_term);
    let mut r: Vec<Symbol> = Vec::new();
    let n = symbols.len();
    let mut i: usize = 0;
    while i < n
        invariant
            n == symbols@.len(),
            i <= n,
            search_lower@ == unicode_lowercase(search_term@),
            r@ == search_results(symbols@.subrange(0, i as int), search_lower@),
        decreases n - i,
    {
        assert(symbols@.subrange(0, i + 1).drop_last() =~= symbols@.subrange(0, i as int));
        let name = to_lowercase(symbols[i].symbol.as_str());
        if str_contains(name.as_str(), search_lower.as_str()) {
            r.push(symbols[i].duplicate());
        }
        i = i + 1;
    }
    assert(symbols@.subrange(0, n as int) =~= symbols@);
    r
}

/// Apply search filter to symbols.
/// Returns all symbols if no filter is provided.
pub fn apply(symbols: &[Symbol], search: Option<&str>) -> (r: Vec<Symbol>)
    ensures
        match search {
            Some(term) => if term@.len() == 0 {
                r@ == symbols@
            } else {
                r@ == search_results(symbols@, unicode_lowercase(term@))
            },
            None => r@ == symbols@,
        },
{
    let filtered = copy_symbols(symbols);
    match search {
        Some(search_term) => by_search(filtered.as_slice(), search_term),
        None => filtered,
    }
}

/// Law: a search keeps only symbols whose lowercased name contains the
/// lowercased term, keeps every such symbol, and keeps their order; it
/// never yields more symbols than it was given.
pub proof fn law_search_results(symbols: Seq<Symbol>, needle: Seq<char>)
    ensures
        search_results(symbols, needle).len() <= symbols.len(),
        forall|k: int| 0 <= k < search_results(symbols, needle).len()
            ==> contains_seq(unicode_lowercase(#[trigger] search_results(symbols, needle)[k].symbol@), needle),
        forall|k: int| 0 <= k < search_results(symbols, needle).len()
            ==> symbols.contains(#[trigger] search_results(symbols, needle)[k]),
        forall|i: int| 0 <= i < symbols.len() && contains_seq(unicode_lowercase(#[trigger] symbols[i].symbol@), needle)
            ==> search_results(symbols, needle).contains(symbols[i]),
    decreases symbols.len(),
{
    if symbols.len() > 0 {
        let rest = symbols.drop_last();
        law_search_results(rest, needle);
        let rr = search_results(rest, needle);
        let r = search_results(symbols, needle);
        assert forall|k: int| 0 <= k < r.len() implies symbols.contains(#[trigger] r[k]) by {
            if k < rr.len() {
                assert(rest.contains(rr[k]));
                let j = choose|j: int| 0 <= j < rest.len() && rest[j] == rr[k];
                assert(symbols[j] == r[k]);
            } else {
                assert(symbols[symbols.len() - 1] == r[k]);
            }
        }
        assert forall|i: int| 0 <= i < symbols.len() && contains_seq(unicode_lowercase(#[trigger] symbols[i].symbol@), needle)
            implies r.contains(symbols[i]) by {
            if i < rest.len() {
                assert(rest[i] == symbols[i]);
                assert(rr.contains(rest[i]));
                let j = choose|j: int| 0 <= j < rr.len() && rr[j] == rest[i];
                assert(r[j] == symbols[i]);
            } else {
                assert(r[r.len() - 1] == symbols[i]);
            }
        }
    }
}

/// The description shown beside a category in the report.
pub fn category_description(category: &str) -> (r: &'static str)
    ensures
        category@ == "linear"@ ==> r@ == " (USDT Perpetual)"@,
        category@ == "inverse"@ ==> r@ == " (Inverse Perpetual)"@,
        category@ != "linear"@ && category@ != "inverse"@ ==> r@ == ""@,
{
    proof {
        reveal_strlit("linear");
        reveal_strlit("inverse");
        assert("linear"@.len() != "inverse"@.len());
    }
    if crate::text::str_eq(category, "linear") {
        " (USDT Perpetual)"
    } else if crate::text::str_eq(category, "inverse") {
        " (Inverse Perpetual)"
    } else {
        ""
    }
}

/// `sorted` with `e` placed after every entry whose count is at least the
/// count of `e`, and before the entries with a smaller count.
pub open spec fn insert_by_count(sorted: Seq<(String, usize)>, e: (String, usize)) -> Seq<(String, usize)>
    decreases sorted.len(),
{
    if sorted.len() == 0 {
        seq![e]
    } else if sorted.last().1 >= e.1 {
        sorted.push(e)
    } else {
        insert_by_count(sorted.drop_last(), e).push(sorted.last())
    }
}

/// The entries ordered by count, largest first; entries with equal counts
/// keep their relative order (a stable sort).
pub open spec fn sorted_by_count_desc(entries: Seq<(String, usize)>) -> Seq<(String, usize)>
    decreases entries.len(),
{
    if entries.len() == 0 {
        Seq::empty()
    } else {
        insert_by_count(sorted_by_count_desc(entries.drop_last()), entries.last())
    }
}

/// Counts do not increase along the entries.
pub open spec fn counts_nonincreasing(entries: Seq<(String, usize)>) -> bool {
    forall|i: int, j: int| 0 <= i < j < entries.len() ==> #[trigger] entries[i].1 >= #[trigger] entries[j].1
}

proof fn lemma_insert_by_count_at(s: Seq<(String, usize)>, e: (String, usize), p: int)
    requires
        0 <= p <= s.len(),
        p == 0 || s[p - 1].1 >= e.1,
        forall|j: int| p <= j < s.len() ==> #[trigger] s[j].1 < e.1,
    ensures
        insert_by_count(s, e) == s.insert(p, e),
    decreases s.len(),
{
    if s.len() == 0 {
        assert(s.insert(p, e) =~= seq![e]);
    } else if p == s.len() {
        assert(s.insert(p, e) =~= s.push(e));
    } else {
        assert(s.last().1 < e.1) by {
            assert(s[s.len() - 1].1 < e.1);
        }
        let d = s.drop_last();
        assert forall|j: int| p <= j < d.len() implies #[trigger] d[j].1 < e.1 by {
            assert(d[j] == s[j]);
        }
        lemma_insert_by_count_at(d, e, p);
        assert(d.insert(p, e).push(s.last()) =~= s.insert(p, e));
    }
}

proof fn lemma_insert_by_count(s: Seq<(String, usize)>, e: (String, usize))
    ensures
        insert_by_count(s, e).to_multiset() == s.to_multiset().insert(e),
        insert_by_count(s, e).len() == s.len() + 1,
        forall|k: int| 0 <= k < insert_by_count(s, e).len() ==>
            #[trigger] insert_by_count(s, e)[k] == e || s.contains(insert_by_count(s, e)[k]),
        counts_nonincreasing(s) ==> counts_nonincreasing(insert_by_count(s, e)),
    decreases s.len(),
{
    broadcast use vstd::seq_lib::to_multiset_build;
    if s.len() == 0 {
        assert(seq![e] =~= s.push(e));
        assert(s.push(e).to_multiset() == s.to_multiset().insert(e));
    } else if s.last().1 >= e.1 {
        let r = s.push(e);
        assert forall|k: int| 0 <= k < r.len() implies #[trigger] r[k] == e || s.contains(r[k]) by {
            if k < s.len() {
                assert(s[k] == r[k]);
            }
        }
        if counts_nonincreasing(s) {
            assert forall|i: int, j: int| 0 <= i < j < r.len() implies #[trigger] r[i].1 >= #[trigger] r[j].1 by {
                if j == s.len() {
                    assert(s[i].1 >= s[s.len() - 1].1);
                } else {
                    assert(s[i].1 >= s[j].1);
                }
            }
        }
    } else {
        let d = s.drop_last();
        let last = s.last();
        lemma_insert_by_count(d, e);
        let rd = insert_by_count(d, e);
        let r = rd.push(last);
        assert(d.push(last) =~= s);
        assert(r.to_multiset() == rd.to_multiset().insert(last));
        assert(s.to_multiset() == d.to_multiset().insert(last));
        assert(r.to_multiset() =~= s.to_multiset().insert(e)) by {
            broadcast use vstd::multiset::group_multiset_axioms;
        }
        assert forall|k: int| 0 <= k < r.len() implies #[trigger] r[k] == e || s.contains(r[k]) by {
            if k < rd.len() {
                assert(r[k] == rd[k]);
                if rd[k] != e {
                    assert(d.contains(rd[k]));
                    let j = choose|j: int| 0 <= j < d.len() && d[j] == rd[k];
                    assert(s[j] == d[j]);
                }
            } else {
                assert(r[k] == s[s.len() - 1]);
            }
        }
        if counts_nonincreasing(s) {
            assert forall|i: int, j: int| 0 <= i < j < d.len() implies #[trigger] d[i].1 >= #[trigger] d[j].1 by {
                assert(s[i].1 >= s[j].1);
            }
            assert forall|i: int, j: int| 0 <= i < j < r.len() implies #[trigger] r[i].1 >= #[trigger] r[j].1 by {
                if j == rd.len() {
                    assert(r[i] == rd[i]);
                    if rd[i] != e {
                        assert(d.contains(rd[i]));
                        let m = choose|m: int| 0 <= m < d.len() && d[m] == rd[i];
                        assert(s[m].1 >= s[s.len() - 1].1);
                    }
                } else {
                    assert(r[i] == rd[i] && r[j] == rd[j]);
                }
            }
        }
    }
}

/// Law: ordering by count, largest first, yields the same entries (as a
/// multiset) with counts that never increase along the list.
pub proof fn law_sorted_by_count_desc(entries: Seq<(String, usize)>)
    ensures
        sorted_by_count_desc(entries).to_multiset() == entries.to_multiset(),
        sorted_by_count_desc(entries).len() == entries.len(),
        counts_nonincreasing(sorted_by_count_desc(entries)),
    decreases entries.len(),
{
    broadcast use vstd::seq_lib::to_multiset_build;
    if entries.len() == 0 {
        assert(sorted_by_count_desc(entries) =~= entries);
    } else {
        let d = entries.drop_last();
        law_sorted_by_count_desc(d);
        lemma_insert_by_count(sorted_by_count_desc(d), entries.last());
        assert(d.push(entries.last()) =~= entries);
    }
}

/// The entries ordered by count, largest first; entries with equal counts
/// keep their order.
pub fn sort_by_count_desc(entries: &Vec<(String, usize)>) -> (r: Vec<(String, usize)>)
    ensures
        r@ == sorted_by_count_desc(entries@),
{
    let mut out: Vec<(String, usize)> = Vec::new();
    let n = entries.len();
    let mut i: usize = 0;
    while i < n
        invariant
            n == entries@.len(),
            i <= n,
            out@ == sorted_by_count_desc(entries@.subrange(0, i as int)),
        decreases n - i,
    {
        assert(entries@.subrange(0, i + 1).drop_last() =~= entries@.subrange(0, i as int));
        let e = (entries[i].0.clone(), entries[i].1);
        let mut p = out.len();
        while p > 0 && out[p - 1].1 < e.1
            invariant
                p <= out@.len(),
                forall|j: int| p <= j < out@.len() ==> #[trigger] out@[j].1 < e.1,
            decreases p,
        {
            p = p - 1;
        }
        proof {
            lemma_insert_by_count_at(out@, e, p as int);
        }
        out.insert(p, e);
        i = i + 1;
    }
    assert(entries@.subrange(0, n as int) =~= entries@);
    out
}

/// The description shown beside a category.
pub open spec fn description_text(category: Seq<char>) -> Seq<char> {
    if category == "linear"@ {
        " (USDT Perpetual)"@
    } else if category == "inverse"@ {
        " (Inverse Perpetual)"@
    } else {
        ""@
    }
}

/// The report header: title, blank line, exchange and categories.
pub open spec fn header_lines(exchange: Seq<char>, categories: Seq<Seq<char>>) -> Seq<Seq<char>> {
    let up = unicode_uppercase(exchange);
    seq![
        "=== CryptoScope: "@ + up + " Perpetual Symbols ==="@,
        Seq::empty(),
        "Exchange: "@ + up,
        "Categories: "@ + joined(categories, ", "@),
    ]
}

/// The line of one category count.
pub open spec fn category_line(e: (String, usize)) -> Seq<char> {
    "    "@ + unicode_uppercase(e.0@) + description_text(e.0@) + ": "@ + decimal(e.1 as nat)
}

/// The line of one contract-type count.
pub open spec fn contract_line(e: (String, usize)) -> Seq<char> {
    "    "@ + e.0@ + ": "@ + decimal(e.1 as nat)
}

/// The statistics section: the total, the counts per category in the
/// order of the statistics, and the counts per contract type, largest
/// first.
pub open spec fn statistics_lines(stats: Statistics) -> Seq<Seq<char>> {
    seq!["📊 Statistics:"@, "  Total Symbols: "@ + decimal(stats.total_count as nat), Seq::empty(), "  By Category:"@]
        + stats.by_category@.map_values(|e: (String, usize)| category_line(e))
        + seq![Seq::empty(), "  By Contract Type:"@]
        + sorted_by_count_desc(stats.by_contract_type@).map_values(|e: (String, usize)| contract_line(e))
}

/// Number of symbols shown in the sample.
pub const SAMPLE_SIZE: usize = 20;

/// The pieces of the sample list: the names of the first (at most
/// `SAMPLE_SIZE`) symbols, each but the last followed by `, `.
pub open spec fn sample_entries(symbols: Seq<Symbol>) -> Seq<Seq<char>> {
    let k = if symbols.len() < SAMPLE_SIZE { symbols.len() as int } else { SAMPLE_SIZE as int };
    Seq::new(k as nat, |i: int| if i < k - 1 { symbols[i].symbol@ + ", "@ } else { symbols[i].symbol@ })
}

/// Lays the pieces out on lines indented by two spaces: a piece that would
/// take the line beyond `limit` bytes starts a new line. Gives the finished
/// lines and the line still being filled.
pub open spec fn wrap_entries(entries: Seq<Seq<char>>, limit: int) -> (Seq<Seq<char>>, Seq<char>)
    decreases entries.len(),
{
    if entries.len() == 0 {
        (Seq::empty(), "  "@)
    } else {
        let (lines, line) = wrap_entries(entries.drop_last(), limit);
        let e = entries.last();
        if byte_len(line) + byte_len(e) > limit {
            (lines.push(line), "  "@ + e)
        } else {
            (lines, line + e)
        }
    }
}

/// All pieces one after the other.
pub open spec fn concat_all(pieces: Seq<Seq<char>>) -> Seq<char>
    decreases pieces.len(),
{
    if pieces.len() == 0 {
        Seq::empty()
    } else {
        concat_all(pieces.drop_last()) + pieces.last()
    }
}

/// The lines one after the other, each without its first two characters
/// (the indentation).
pub open spec fn unindented_concat(lines: Seq<Seq<char>>) -> Seq<char>
    decreases lines.len(),
{
    if lines.len() == 0 {
        Seq::empty()
    } else {
        unindented_concat(lines.drop_last()) + lines.last().subrange(2, lines.last().len() as int)
    }
}

/// The line starts with the two-space indentation.
pub open spec fn indented(line: Seq<char>) -> bool {
    line.len() >= 2 && line.subrange(0, 2) == "  "@
}

/// Law: wrapping loses, adds and reorders nothing: every line is indented
/// by two spaces, and the lines without their indentation, read one after
/// the other, give back the pieces in order.
pub proof fn law_wrap_keeps_every_piece(entries: Seq<Seq<char>>, limit: int)
    ensures
        forall|i: int| 0 <= i < wrap_entries(entries, limit).0.len() ==> indented(#[trigger] wrap_entries(entries, limit).0[i]),
        indented(wrap_entries(entries, limit).1),
        unindented_concat(wrap_entries(entries, limit).0.push(wrap_entries(entries, limit).1)) == concat_all(entries),
    decreases entries.len(),
{
    reveal_strlit("  ");
    if entries.len() == 0 {
        let w = wrap_entries(entries, limit);
        assert(w.0 =~= Seq::<Seq<char>>::empty());
        assert(w.1 == "  "@);
        assert("  "@.subrange(0, 2) =~= "  "@);
        let one = w.0.push(w.1);
        assert(one.drop_last() =~= Seq::<Seq<char>>::empty());
        assert(one.last() == "  "@);
        assert("  "@.subrange(2, 2) =~= Seq::<char>::empty());
        assert(unindented_concat(one.drop_last()) =~= Seq::<char>::empty());
        assert(unindented_concat(one) =~= Seq::<char>::empty());
        assert(concat_all(entries) =~= Seq::<char>::empty());
    } else {
        let d = entries.drop_last();
        let e = entries.last();
        law_wrap_keeps_every_piece(d, limit);
        let (lines0, line0) = wrap_entries(d, limit);
        let (lines, line) = wrap_entries(entries, limit);
        assert(concat_all(entries) == concat_all(d) + e);
        if byte_len(line0) + byte_len(e) > limit {
            assert(lines == lines0.push(line0));
            assert(line == "  "@ + e);
            assert forall|i: int| 0 <= i < lines.len() implies indented(#[trigger] lines[i]) by {
                if i < lines0.len() {
                    assert(lines[i] == lines0[i]);
                }
            }
            assert(line.subrange(0, 2) =~= "  "@);
            assert(lines.push(line).drop_last() =~= lines0.push(line0));
            assert(lines.push(line).last() == line);
            assert(line.subrange(2, line.len() as int) =~= e);
            assert(unindented_concat(lines.push(line)) == unindented_concat(lines0.push(line0)) + e);
        } else {
            assert(lines == lines0);
            assert(line == line0 + e);
            assert(line.subrange(0, 2) =~= line0.subrange(0, 2));
            assert(lines.push(line).drop_last() =~= lines0);
            assert(lines0.push(line0).drop_last() =~= lines0);
            assert(line.subrange(2, line.len() as int) =~= line0.subrange(2, line0.len() as int) + e);
            assert(unindented_concat(lines0.push(line0)) == unindented_concat(lines0) + line0.subrange(2, line0.len() as int));
            assert(lines.push(line).last() == line);
            assert(unindented_concat(lines.push(line)) == unindented_concat(lines0) + line.subrange(2, line.len() as int));
            assert(unindented_concat(lines.push(line)) =~= unindented_concat(lines0.push(line0)) + e);
        }
    }
}

/// The sample section for a terminal `width` columns wide: the wrapped
/// list of the first symbols (the last line only when it holds more than
/// blanks), and how many symbols were left out.
pub open spec fn sample_lines(symbols: Seq<Symbol>, width: nat) -> Seq<Seq<char>> {
    let (lines, line) = wrap_entries(sample_entries(symbols), width - 2);
    let body = if trimmed(line).len() > 0 { lines.push(line) } else { lines };
    let more = if symbols.len() > SAMPLE_SIZE {
        seq!["  ... and "@ + decimal((symbols.len() - SAMPLE_SIZE) as nat) + " more"@]
    } else {
        Seq::empty()
    };
    seq!["📋 Sample Symbols (first 20):"@] + body + more
}

/// The whole text report, one entry per printed line.
pub open spec fn report_text(
    exchange: Seq<char>,
    categories: Seq<Seq<char>>,
    symbols: Seq<Symbol>,
    stats: Statistics,
    width: nat,
) -> Seq<Seq<char>> {
    seq![Seq::empty()] + header_lines(exchange, categories) + seq![Seq::empty()] + statistics_lines(stats)
        + seq![Seq::empty()] + sample_lines(symbols, width) + seq![Seq::empty()]
}

fn push_line(out: &mut Vec<String>, line: String)
    ensures
        string_views(final(out)@) == string_views(old(out)@).push(line@),
{
    out.push(line);
    assert(string_views(out@) =~= string_views(old(out)@).push(line@));
}

fn empty_line() -> (r: String)
    ensures
        r@ == Seq::<char>::empty(),
{
    String::new()
}

fn count_text(n: usize) -> (r: String)
    ensures
        r@ == decimal(n as nat),
{
    let mut s = String::new();
    push_decimal(&mut s, n as u64);
    s
}

/// Appends the report header.
fn push_header(out: &mut Vec<String>, exchange_name: &str, categories: &[&str])
    ensures
        string_views(final(out)@) == string_views(old(out)@) + header_lines(exchange_name@, str_views(categories@)),
{
    let up = to_uppercase(exchange_name);
    proof {
        reveal_strlit("=== CryptoScope: ");
        reveal_strlit(" Perpetual Symbols ===");
        reveal_strlit("Exchange: ");
        reveal_strlit("Categories: ");
        reveal_strlit(", ");
    }
    push_line(out, concat3("=== CryptoScope: ", up.as_str(), " Perpetual Symbols ==="));
    push_line(out, empty_line());
    push_line(out, concat2("Exchange: ", up.as_str()));
    let joined_categories = join_strs(categories, ", ");
    push_line(out, concat2("Categories: ", joined_categories.as_str()));
    assert(string_views(out@) =~= string_views(old(out)@) + header_lines(exchange_name@, str_views(categories@)));
}

fn category_line_text(e: &(String, usize)) -> (r: String)
    ensures
        r@ == category_line(*e),
{
    proof {
        reveal_strlit("    ");
        reveal_strlit(": ");
    }
    let mut line = owned("    ");
    let up = to_uppercase(e.0.as_str());
    line.append(up.as_str());
    line.append(category_description(e.0.as_str()));
    line.append(": ");
    push_decimal(&mut line, e.1 as u64);
    proof {
        reveal_strlit("linear");
        reveal_strlit("inverse");
    }
    line
}

fn contract_line_text(e: &(String, usize)) -> (r: String)
    ensures
        r@ == contract_line(*e),
{
    proof {
        reveal_strlit("    ");
        reveal_strlit(": ");
    }
    let mut line = owned("    ");
    line.append(e.0.as_str());
    line.append(": ");
    push_decimal(&mut line, e.1 as u64);
    line
}

/// Appends the statistics section.
fn push_statistics(out: &mut Vec<String>, stats: &Statistics)
    ensures
        string_views(final(out)@) == string_views(old(out)@) + statistics_lines(*stats),
{
    let ghost start = string_views(out@);
    push_line(out, owned("📊 Statistics:"));
    push_line(out, concat2("  Total Symbols: ", count_text(stats.total_count).as_str()));
    push_line(out, empty_line());
    push_line(out, owned("  By Category:"));
    let ghost mid = string_views(out@);
    let cats = &stats.by_category;
    let mut i: usize = 0;
    while i < cats.len()
        invariant
            i <= cats@.len(),
            string_views(out@) == mid + cats@.subrange(0, i as int).map_values(|e: (String, usize)| category_line(e)),
        decreases cats@.len() - i,
    {
        push_line(out, category_line_text(&cats[i]));
        assert(cats@.subrange(0, i + 1).map_values(|e: (String, usize)| category_line(e))
            =~= cats@.subrange(0, i as int).map_values(|e: (String, usize)| category_line(e)).push(category_line(cats@[i as int])));
        i = i + 1;
    }
    assert(cats@.subrange(0, cats@.len() as int) =~= cats@);
    let ghost mid2 = string_views(out@);
    push_line(out, empty_line());
    push_line(out, owned("  By Contract Type:"));
    let ghost mid3 = string_views(out@);
    let sorted = sort_by_count_desc(&stats.by_contract_type);
    let mut j: usize = 0;
    while j < sorted.len()
        invariant
            j <= sorted@.len(),
            string_views(out@) == mid3 + sorted@.subrange(0, j as int).map_values(|e: (String, usize)| contract_line(e)),
        decreases sorted@.len() - j,
    {
        push_line(out, contract_line_text(&sorted[j]));
        assert(sorted@.subrange(0, j + 1).map_values(|e: (String, usize)| contract_line(e))
            =~= sorted@.subrange(0, j as int).map_values(|e: (String, usize)| contract_line(e)).push(contract_line(sorted@[j as int])));
        j = j + 1;
    }
    assert(sorted@.subrange(0, sorted@.len() as int) =~= sorted@);
    proof {
        reveal_strlit("📊 Statistics:");
        reveal_strlit("  Total Symbols: ");
        reveal_strlit("  By Category:");
        reveal_strlit("  By Contract Type:");
    }
    assert(string_views(out@) =~= start + statistics_lines(*stats));
}

/// Appends the sample section.
fn push_sample(out: &mut Vec<String>, symbols: &[Symbol], width: usize)
    requires
        width >= 2,
    ensures
        string_views(final(out)@) == string_views(old(out)@) + sample_lines(symbols@, width as nat),
{
    let ghost start = string_views(out@);
    proof {
        reveal_strlit("📋 Sample Symbols (first 20):");
        reveal_strlit("  ");
        reveal_strlit(", ");
    }
    push_line(out, owned("📋 Sample Symbols (first 20):"));
    let ghost after_title = string_views(out@);
    let ghost entries = sample_entries(symbols@);
    let k: usize = if symbols.len() < SAMPLE_SIZE { symbols.len() } else { SAMPLE_SIZE };
    let limit: usize = width - 2;
    let mut line = owned("  ");
    let mut i: usize = 0;
    while i < k
        invariant
            k <= symbols@.len(),
            k == entries.len(),
            entries == sample_entries(symbols@),
            limit == width - 2,
            i <= k,
            string_views(out@) == after_title + wrap_entries(entries.subrange(0, i as int), limit as int).0,
            line@ == wrap_entries(entries.subrange(0, i as int), limit as int).1,
        decreases k - i,
    {
        assert(entries.subrange(0, i + 1).drop_last() =~= entries.subrange(0, i as int));
        let entry = if i < k - 1 {
            concat2(symbols[i].symbol.as_str(), ", ")
        } else {
            owned(symbols[i].symbol.as_str())
        };
        assert(entry@ == entries[i as int]);
        let bl = byte_count(line.as_str());
        let be = byte_count(entry.as_str());
        if be > limit || bl > limit - be {
            let finished = line;
            push_line(out, finished);
            line = owned("  ");
        }
        line.append(entry.as_str());
        i = i + 1;
    }
    assert(entries.subrange(0, k as int) =~= entries);
    let rest = trim(line.as_str());
    if rest.unicode_len() > 0 {
        push_line(out, line);
    }
    if symbols.len() > SAMPLE_SIZE {
        let left_out = count_text(symbols.len() - SAMPLE_SIZE);
        proof {
            reveal_strlit("  ... and ");
            reveal_strlit(" more");
        }
        push_line(out, concat3("  ... and ", left_out.as_str(), " more"));
    }
    assert(string_views(out@) =~= start + sample_lines(symbols@, width as nat));
}

/// The lines of the full report, for a terminal `width` columns wide:
/// header, statistics and sample symbols, each framed by blank lines.
pub fn report_lines(
    exchange_name: &str,
    categories: &[&str],
    symbols: &[Symbol],
    stats: &Statistics,
    width: usize,
) -> (r: Vec<String>)
    requires
        width >= 2,
    ensures
        string_views(r@) == report_text(exchange_name@, str_views(categories@), symbols@, *stats, width as nat),
{
    let mut out: Vec<String> = Vec::new();
    push_line(&mut out, empty_line());
    push_header(&mut out, exchange_name, categories);
    push_line(&mut out, empty_line());
    push_statistics(&mut out, stats);
    push_line(&mut out, empty_line());
    push_sample(&mut out, symbols, width);
    push_line(&mut out, empty_line());
    assert(string_views(out@) =~= report_text(exchange_name@, str_views(categories@), symbols@, *stats, width as nat));
    out
}

} // verus!
