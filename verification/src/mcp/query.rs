//! The API requests of the MCP tools: query strings and endpoints.

use vstd::prelude::*;

use super::types::SymbolsParams;
use super::validation::{invalid_param_text, validate_param, validate_top};
use crate::security::SecurityConfig;
use crate::text::{contains_seq, i64_to_decimal, occurs_at, owned, signed_decimal};

verus! {

/// A byte `application/x-www-form-urlencoded` serialization leaves as is:
/// ASCII letters, digits, `*`, `-`, `.` and `_`.
pub open spec fn form_unreserved_byte(b: int) -> bool {
    (97 <= b <= 122) || (65 <= b <= 90) || (48 <= b <= 57) || b == 42 || b == 45 || b == 46 || b == 95
}

/// The UTF-8 encoding of a character, as byte values.
pub open spec fn utf8_bytes(c: char) -> Seq<int> {
    let v = c as int;
    if v < 0x80 {
        seq![v]
    } else if v < 0x800 {
        seq![0xC0 + v / 64, 0x80 + v % 64]
    } else if v < 0x10000 {
        seq![0xE0 + v / 4096, 0x80 + (v / 64) % 64, 0x80 + v % 64]
    } else {
        seq![0xF0 + v / 262144, 0x80 + (v / 4096) % 64, 0x80 + (v / 64) % 64, 0x80 + v % 64]
    }
}

/// An uppercase hexadecimal digit for `d` in `0..16`.
pub open spec fn hex_upper(d: int) -> char {
    if d < 10 { (48 + d) as char } else { (55 + d) as char }
}

/// How the serializer writes one byte: an unreserved byte as itself, a
/// space as `+`, any other byte as `%` and two uppercase hex digits.
pub open spec fn form_encoded_byte(b: int) -> Seq<char> {
    if form_unreserved_byte(b) {
        seq![b as char]
    } else if b == 32 {
        seq!['+']
    } else {
        seq!['%', hex_upper(b / 16), hex_upper(b % 16)]
    }
}

/// The serialization of a sequence of bytes, byte by byte.
pub open spec fn form_encoded_bytes(bytes: Seq<int>) -> Seq<char>
    decreases bytes.len(),
{
    if bytes.len() == 0 {
        Seq::empty()
    } else {
        form_encoded_bytes(bytes.drop_last()) + form_encoded_byte(bytes.last())
    }
}

/// The `application/x-www-form-urlencoded` serialization of a string:
/// the serialization of the UTF-8 bytes of each character in turn.
pub open spec fn form_urlencoded(s: Seq<char>) -> Seq<char>
    decreases s.len(),
{
    if s.len() == 0 {
        Seq::empty()
    } else {
        form_urlencoded(s.drop_last()) + form_encoded_bytes(utf8_bytes(s.last()))
    }
}

/// Trusted: `form_urlencoded::byte_serialize` of the string's UTF-8 bytes,
/// collected into a string: per its source, each byte is written as
/// `form_encoded_byte` gives it.
#[verifier::external_body]
fn form_encode(s: &str) -> (r: String)
    ensures
        r@ == form_urlencoded(s@),
{
    url::form_urlencoded::byte_serialize(s.as_bytes()).collect::<String>()
}

/// One encoded `name=value` pair.
pub open spec fn pair_text(pair: (Seq<char>, Seq<char>)) -> Seq<char> {
    form_urlencoded(pair.0) + "="@ + form_urlencoded(pair.1)
}

/// Encoded pairs joined with `&`, as a form-urlencoded serializer appends them.
pub open spec fn query_text(pairs: Seq<(Seq<char>, Seq<char>)>) -> Seq<char>
    decreases pairs.len(),
{
    if pairs.len() == 0 {
        Seq::empty()
    } else if pairs.len() == 1 {
        pair_text(pairs[0])
    } else {
        query_text(pairs.drop_last()) + "&"@ + pair_text(pairs.last())
    }
}

/// The texts of a list of pairs.
pub open spec fn pairs_view(pairs: Seq<(String, String)>) -> Seq<(Seq<char>, Seq<char>)> {
    pairs.map_values(|p: (String, String)| (p.0@, p.1@))
}

/// Build a query string from key-value pairs.
pub fn build_query(pairs: &Vec<(String, String)>) -> (r: String)
    ensures
        r@ == query_text(pairs_view(pairs@)),
{
    let ghost pv = pairs_view(pairs@);
    let mut out = String::new();
    let n = pairs.len();
    let mut i: usize = 0;
    while i < n
        invariant
            n == pairs@.len(),
            pv == pairs_view(pairs@),
            i <= n,
            out@ == query_text(pv.subrange(0, i as int)),
        decreases n - i,
    {
        assert(pv.subrange(0, i + 1).drop_last() =~= pv.subrange(0, i as int));
        assert(pv.subrange(0, i + 1).last() == pv[i as int]);
        if i > 0 {
            out.append("&");
        }
        let k = form_encode(pairs[i].0.as_str());
        out.append(k.as_str());
        out.append("=");
        let v = form_encode(pairs[i].1.as_str());
        out.append(v.as_str());
        i = i + 1;
    }
    assert(pv.subrange(0, n as int) =~= pv);
    out
}

/// `base?query`, or just `base` for an empty query.
pub open spec fn endpoint_text(base: Seq<char>, query: Seq<char>) -> Seq<char> {
    if query.len() == 0 { base } else { base + "?"@ + query }
}

fn endpoint(base: &str, pairs: &Vec<(String, String)>) -> (r: String)
    ensures
        r@ == endpoint_text(base@, query_text(pairs_view(pairs@))),
{
    let query = build_query(pairs);
    if query.as_str().unicode_len() == 0 {
        owned(base)
    } else {
        let mut e = owned(base);
        e.append("?");
        e.append(query.as_str());
        e
    }
}

/// Optional pairs, in order, keeping those that are present.
pub open spec fn present_pairs(entries: Seq<(Seq<char>, Option<Seq<char>>)>) -> Seq<(Seq<char>, Seq<char>)>
    decreases entries.len(),
{
    if entries.len() == 0 {
        Seq::empty()
    } else {
        let rest = present_pairs(entries.drop_last());
        match entries.last().1 {
            Some(v) => rest.push((entries.last().0, v)),
            None => rest,
        }
    }
}

/// View of an optional string.
pub open spec fn opt_text(o: Option<String>) -> Option<Seq<char>> {
    match o {
        Some(s) => Some(s@),
        None => None,
    }
}

fn push_present(pairs: &mut Vec<(String, String)>, key: &str, value: &Option<String>)
    ensures
        pairs_view(final(pairs)@) == pairs_view(old(pairs)@) + match *value {
            Some(v) => seq![(key@, v@)],
            None => Seq::empty(),
        },
{
    match value {
        Some(v) => {
            pairs.push((owned(key), v.clone()));
            assert(pairs_view(pairs@) =~= pairs_view(old(pairs)@) + seq![(key@, v@)]);
        },
        None => {
            assert(pairs_view(pairs@) =~= pairs_view(old(pairs)@) + Seq::empty());
        },
    }
}

fn push_entry(
    pairs: &mut Vec<(String, String)>,
    key: &str,
    value: &Option<String>,
    Ghost(entries): Ghost<Seq<(Seq<char>, Option<Seq<char>>)>>,
)
    requires
        pairs_view(old(pairs)@) == present_pairs(entries),
    ensures
        pairs_view(final(pairs)@) == present_pairs(entries.push((key@, opt_text(*value)))),
{
    assert(entries.push((key@, opt_text(*value))).drop_last() =~= entries);
    push_present(pairs, key, value);
}

/// The endpoint the `get_symbols` tool requests, once its parameters
/// passed the allowlists.
pub open spec fn symbols_endpoint_text(params: SymbolsParams) -> Seq<char> {
    endpoint_text("symbols"@, query_text(present_pairs(seq![
        ("exchange"@, Some(params.exchange@)),
        ("category"@, opt_text(params.category)),
        ("search"@, opt_text(params.search)),
    ])))
}

/// Text made only of unreserved characters is its own serialization.
pub proof fn lemma_unreserved_text_unchanged(s: Seq<char>)
    requires
        forall|i: int| 0 <= i < s.len() ==> form_unreserved_byte(#[trigger] s[i] as int),
    ensures
        form_urlencoded(s) == s,
    decreases s.len(),
{
    if s.len() > 0 {
        let d = s.drop_last();
        assert forall|i: int| 0 <= i < d.len() implies form_unreserved_byte(#[trigger] d[i] as int) by {
            assert(d[i] == s[i]);
        }
        lemma_unreserved_text_unchanged(d);
        let c = s.last();
        assert(form_unreserved_byte(s[s.len() - 1] as int));
        assert(utf8_bytes(c) == seq![c as int]);
        let b = seq![c as int];
        assert(b.drop_last() =~= Seq::<int>::empty());
        assert(b.last() == c as int);
        assert(form_encoded_bytes(b.drop_last()) =~= Seq::<char>::empty());
        assert(form_encoded_byte(c as int) == seq![(c as int) as char]);
        assert(form_encoded_bytes(b) == form_encoded_bytes(b.drop_last()) + form_encoded_byte(b.last()));
        assert(form_encoded_bytes(b) =~= seq![(c as int) as char]);
        assert((c as int) as char == c);
        assert(d.push(c) =~= s);
    }
}

/// The `name=value` text of a query parameter whose name is plain text.
pub open spec fn param_text(name: Seq<char>, value: Seq<char>) -> Seq<char> {
    name + "="@ + form_urlencoded(value)
}

/// A present optional parameter as `&name=value`, nothing when absent.
pub open spec fn optional_param_text(name: Seq<char>, value: Option<String>) -> Seq<char> {
    match value {
        Some(v) => "&"@ + param_text(name, v@),
        None => Seq::empty(),
    }
}

/// Law: the `get_symbols` endpoint sends every parameter it was given, in
/// order: `symbols?exchange=<exchange>`, then `&category=<category>` when a
/// category is given and `&search=<term>` when a search term is given, each
/// value form-urlencoded.
pub proof fn law_symbols_endpoint_sends_each_parameter(params: SymbolsParams)
    ensures
        symbols_endpoint_text(params) == "symbols?"@ + param_text("exchange"@, params.exchange@)
            + optional_param_text("category"@, params.category)
            + optional_param_text("search"@, params.search),
{
    reveal_strlit("exchange");
    reveal_strlit("category");
    reveal_strlit("search");
    reveal_strlit("symbols");
    reveal_strlit("symbols?");
    reveal_strlit("?");
    reveal_strlit("&");
    reveal_strlit("=");
    lemma_unreserved_text_unchanged("exchange"@);
    lemma_unreserved_text_unchanged("category"@);
    lemma_unreserved_text_unchanged("search"@);
    let entries = seq![
        ("exchange"@, Some(params.exchange@)),
        ("category"@, opt_text(params.category)),
        ("search"@, opt_text(params.search)),
    ];
    reveal_with_fuel(present_pairs, 4);
    reveal_with_fuel(query_text, 4);
    assert(entries.drop_last().drop_last().drop_last() =~= Seq::empty());
    assert(entries.drop_last().drop_last().last() == entries[0]);
    assert(entries.drop_last().last() == entries[1]);
    let ex = ("exchange"@, params.exchange@);
    let p1 = seq![ex];
    assert(present_pairs(entries.drop_last().drop_last()) =~= p1);
    let p2 = match params.category { Some(c) => p1.push(("category"@, c@)), None => p1 };
    assert(present_pairs(entries.drop_last()) =~= p2);
    let p3 = match params.search { Some(t) => p2.push(("search"@, t@)), None => p2 };
    assert(present_pairs(entries) =~= p3);
    assert(query_text(p1) == param_text("exchange"@, params.exchange@));
    if params.category is Some {
        assert(p2.drop_last() =~= p1);
    }
    assert(query_text(p2) =~= param_text("exchange"@, params.exchange@) + optional_param_text("category"@, params.category));
    if params.search is Some {
        assert(p3.drop_last() =~= p2);
    }
    assert(query_text(p3) =~= param_text("exchange"@, params.exchange@) + optional_param_text("category"@, params.category)
        + optional_param_text("search"@, params.search));
    assert(query_text(p3).len() > 0);
}

/// Law: every parameter that is present among the entries is sent: its
/// `name=value` pair occurs in the query built from the entries.
pub proof fn law_every_present_parameter_is_sent(entries: Seq<(Seq<char>, Option<Seq<char>>)>, k: int)
    requires
        0 <= k < entries.len(),
        entries[k].1 is Some,
    ensures
        contains_seq(query_text(present_pairs(entries)), pair_text((entries[k].0, entries[k].1->0))),
    decreases entries.len(),
{
    reveal_strlit("=");
    let d = entries.drop_last();
    let rest = present_pairs(d);
    let last = entries.len() - 1;
    if k == last {
        let p = (entries[k].0, entries[k].1->0);
        let ps = rest.push(p);
        assert(present_pairs(entries) == ps);
        assert(ps.drop_last() =~= rest);
        let q = query_text(ps);
        if rest.len() == 0 {
            assert(q == pair_text(p));
            assert(q.subrange(0, pair_text(p).len() as int) =~= q);
            assert(occurs_at(q, pair_text(p), 0));
        } else {
            assert(q == query_text(rest) + "&"@ + pair_text(p));
            let at = q.len() - pair_text(p).len();
            assert(q.subrange(at, at + pair_text(p).len()) =~= pair_text(p));
            assert(occurs_at(q, pair_text(p), at));
        }
    } else {
        assert(d[k] == entries[k]);
        law_every_present_parameter_is_sent(d, k);
        let p = (entries[k].0, entries[k].1->0);
        let qd = query_text(rest);
        let at = choose|at: int| occurs_at(qd, pair_text(p), at);
        assert(occurs_at(qd, pair_text(p), at));
        match entries.last().1 {
            Some(v) => {
                let x = (entries.last().0, v);
                let ps = rest.push(x);
                assert(present_pairs(entries) == ps);
                assert(ps.drop_last() =~= rest);
                if rest.len() == 0 {
                    assert(qd.len() == 0);
                    assert(pair_text(p).len() > 0);
                    assert(false);
                }
                let q = query_text(ps);
                assert(q == qd + "&"@ + pair_text(x));
                assert(q.subrange(at, at + pair_text(p).len()) =~= qd.subrange(at, at + pair_text(p).len()));
                assert(occurs_at(q, pair_text(p), at));
            },
            None => {
                assert(present_pairs(entries) == rest);
            },
        }
    }
}

/// Law: the `run_screener` endpoint sends every parameter it was given:
/// each present one occurs in it as `name=value`, the value form-urlencoded
/// (`top` as its decimal text).
pub proof fn law_screener_endpoint_sends_each_parameter(
    exchange: Option<Seq<char>>,
    min_change: Option<Seq<char>>,
    min_volume: Option<Seq<char>>,
    top: Option<i64>,
    search: Option<Seq<char>>,
    contract_type: Option<Seq<char>>,
)
    ensures
        ({
            let e = screener_endpoint_text(exchange, min_change, min_volume, top, search, contract_type);
            &&& exchange matches Some(v) ==> contains_seq(e, param_text("exchange"@, v))
            &&& min_change matches Some(v) ==> contains_seq(e, param_text("min_change"@, v))
            &&& min_volume matches Some(v) ==> contains_seq(e, param_text("min_volume"@, v))
            &&& top matches Some(t) ==> contains_seq(e, param_text("top"@, signed_decimal(t as int)))
            &&& search matches Some(v) ==> contains_seq(e, param_text("search"@, v))
            &&& contract_type matches Some(v) ==> contains_seq(e, param_text("contract_type"@, v))
        }),
{
    reveal_strlit("exchange");
    reveal_strlit("min_change");
    reveal_strlit("min_volume");
    reveal_strlit("top");
    reveal_strlit("search");
    reveal_strlit("contract_type");
    reveal_strlit("screener");
    reveal_strlit("?");
    lemma_unreserved_text_unchanged("exchange"@);
    lemma_unreserved_text_unchanged("min_change"@);
    lemma_unreserved_text_unchanged("min_volume"@);
    lemma_unreserved_text_unchanged("top"@);
    lemma_unreserved_text_unchanged("search"@);
    lemma_unreserved_text_unchanged("contract_type"@);
    let entries = seq![
        ("exchange"@, exchange),
        ("min_change"@, min_change),
        ("min_volume"@, min_volume),
        ("top"@, match top { Some(t) => Some(signed_decimal(t as int)), None => None }),
        ("search"@, search),
        ("contract_type"@, contract_type),
    ];
    let q = query_text(present_pairs(entries));
    let e = screener_endpoint_text(exchange, min_change, min_volume, top, search, contract_type);
    assert(e == endpoint_text("screener"@, q));
    assert forall|k: int| 0 <= k < 6 && #[trigger] entries[k].1 is Some implies
        contains_seq(e, pair_text((entries[k].0, entries[k].1->0))) by {
        law_every_present_parameter_is_sent(entries, k);
        let pt = pair_text((entries[k].0, entries[k].1->0));
        let at = choose|at: int| occurs_at(q, pt, at);
        assert(occurs_at(q, pt, at));
        assert(q.len() > 0);
        let off = "screener"@.len() + 1;
        assert(e == "screener"@ + "?"@ + q);
        assert(e.subrange(off + at, off + at + pt.len()) =~= q.subrange(at, at + pt.len()));
        assert(occurs_at(e, pt, off + at));
    }
    if let Some(v) = exchange {
        assert(entries[0].1 is Some);
        assert(pair_text((entries[0].0, entries[0].1->0)) == param_text("exchange"@, v));
    }
    if let Some(v) = min_change {
        assert(entries[1].1 is Some);
        assert(pair_text((entries[1].0, entries[1].1->0)) == param_text("min_change"@, v));
    }
    if let Some(v) = min_volume {
        assert(entries[2].1 is Some);
        assert(pair_text((entries[2].0, entries[2].1->0)) == param_text("min_volume"@, v));
    }
    if let Some(t) = top {
        assert(entries[3].1 is Some);
        assert(pair_text((entries[3].0, entries[3].1->0)) == param_text("top"@, signed_decimal(t as int)));
    }
    if let Some(v) = search {
        assert(entries[4].1 is Some);
        assert(pair_text((entries[4].0, entries[4].1->0)) == param_text("search"@, v));
    }
    if let Some(v) = contract_type {
        assert(entries[5].1 is Some);
        assert(pair_text((entries[5].0, entries[5].1->0)) == param_text("contract_type"@, v));
    }
}

/// The first allowlist failure among typed parameters, in order.
pub open spec fn first_rejection(config: SecurityConfig, checks: Seq<(Option<Seq<char>>, Seq<char>)>) -> Option<Seq<char>>
    decreases checks.len(),
{
    if checks.len() == 0 {
        None
    } else {
        match first_rejection(config, checks.drop_last()) {
            Some(m) => Some(m),
            None => match checks.last().0 {
                Some(p) => if config.accepts(p, checks.last().1) { None } else { Some(invalid_param_text(p, checks.last().1)) },
                None => None,
            },
        }
    }
}

fn check_optional(param: &Option<String>, config: &SecurityConfig, param_type: &str) -> (r: Result<(), String>)
    ensures
        match opt_text(*param) {
            Some(p) => if config.accepts(p, param_type@) { r is Ok } else { r matches Err(m) && m@ == invalid_param_text(p, param_type@) },
            None => r is Ok,
        },
{
    match param {
        Some(p) => validate_param(p.as_str(), config, param_type),
        None => Ok(()),
    }
}

/// Validate the parameters of the `get_symbols` tool and build the endpoint
/// it requests.
pub fn symbols_request(params: &SymbolsParams, config: &SecurityConfig) -> (r: Result<String, String>)
    ensures
        ({
            let rejection = first_rejection(*config, seq![
                (Some(params.exchange@), "exchange"@),
                (opt_text(params.category), "category"@),
                (opt_text(params.search), "search"@),
            ]);
            &&& rejection matches Some(m) ==> (r matches Err(e) && e@ == m)
            &&& rejection is None ==> (r matches Ok(e) && e@ == symbols_endpoint_text(*params))
        }),
        r matches Ok(e) ==> e@ == "symbols?"@ + param_text("exchange"@, params.exchange@)
            + optional_param_text("category"@, params.category)
            + optional_param_text("search"@, params.search),
{
    proof {
        law_symbols_endpoint_sends_each_parameter(*params);
    }
    let ghost checks = seq![
        (Some(params.exchange@), "exchange"@),
        (opt_text(params.category), "category"@),
        (opt_text(params.search), "search"@),
    ];
    proof {
        reveal_with_fuel(first_rejection, 4);
        assert(checks.drop_last().drop_last().drop_last() =~= Seq::empty());
        assert(checks.drop_last().drop_last().last() == checks[0]);
        assert(checks.drop_last().last() == checks[1]);
    }
    validate_param(params.exchange.as_str(), config, "exchange")?;
    check_optional(&params.category, config, "category")?;
    check_optional(&params.search, config, "search")?;
    let mut pairs: Vec<(String, String)> = Vec::new();
    pairs.push((owned("exchange"), params.exchange.clone()));
    push_present(&mut pairs, "category", &params.category);
    push_present(&mut pairs, "search", &params.search);
    let ghost entries = seq![
        ("exchange"@, Some(params.exchange@)),
        ("category"@, opt_text(params.category)),
        ("search"@, opt_text(params.search)),
    ];
    proof {
        reveal_with_fuel(present_pairs, 4);
        assert(entries.drop_last().drop_last().drop_last() =~= Seq::empty());
        assert(entries.drop_last().drop_last().last() == entries[0]);
        assert(entries.drop_last().last() == entries[1]);
        assert(pairs_view(pairs@) =~= present_pairs(entries));
    }
    Ok(endpoint("symbols", &pairs))
}

/// The endpoint the `run_screener` tool requests, once its parameters were
/// accepted; the numeric filters are given as the texts they are sent as.
pub open spec fn screener_endpoint_text(
    exchange: Option<Seq<char>>,
    min_change: Option<Seq<char>>,
    min_volume: Option<Seq<char>>,
    top: Option<i64>,
    search: Option<Seq<char>>,
    contract_type: Option<Seq<char>>,
) -> Seq<char> {
    endpoint_text("screener"@, query_text(present_pairs(seq![
        ("exchange"@, exchange),
        ("min_change"@, min_change),
        ("min_volume"@, min_volume),
        ("top"@, match top { Some(t) => Some(signed_decimal(t as int)), None => None }),
        ("search"@, search),
        ("contract_type"@, contract_type),
    ])))
}

/// Validate the non-numeric parameters and `top` of the `run_screener` tool
/// and build the endpoint it requests.
///
/// The exchange, search term and contract type are checked against the
/// allowlists in that order, then `top` (1-1000). `min_change` and
/// `min_volume` arrive rendered as text; their bounds (floats) are checked
/// by the caller after these checks pass.
pub fn screener_request(
    exchange: &Option<String>,
    min_change: &Option<String>,
    min_volume: &Option<String>,
    top: Option<i64>,
    search: &Option<String>,
    contract_type: &Option<String>,
    config: &SecurityConfig,
) -> (r: Result<String, String>)
    ensures
        ({
            let rejection = first_rejection(*config, seq![
                (opt_text(*exchange), "exchange"@),
                (opt_text(*search), "search"@),
                (opt_text(*contract_type), "contract_type"@),
            ]);
            let bad_top = top matches Some(t) && (t < 1 || t > 1000);
            &&& rejection matches Some(m) ==> (r matches Err(e) && e@ == m)
            &&& rejection is None && bad_top ==> (r matches Err(e) && e@ == "Parameter 'top' must be between 1 and 1000"@)
            &&& rejection is None && !bad_top ==> (r matches Ok(e) && e@ == screener_endpoint_text(
                opt_text(*exchange), opt_text(*min_change), opt_text(*min_volume), top,
                opt_text(*search), opt_text(*contract_type)))
        }),
        r matches Ok(e) ==> ({
            &&& *exchange matches Some(v) ==> contains_seq(e@, param_text("exchange"@, v@))
            &&& *min_change matches Some(v) ==> contains_seq(e@, param_text("min_change"@, v@))
            &&& *min_volume matches Some(v) ==> contains_seq(e@, param_text("min_volume"@, v@))
            &&& top matches Some(t) ==> contains_seq(e@, param_text("top"@, signed_decimal(t as int)))
            &&& *search matches Some(v) ==> contains_seq(e@, param_text("search"@, v@))
            &&& *contract_type matches Some(v) ==> contains_seq(e@, param_text("contract_type"@, v@))
        }),
{
    proof {
        law_screener_endpoint_sends_each_parameter(
            opt_text(*exchange), opt_text(*min_change), opt_text(*min_volume), top,
            opt_text(*search), opt_text(*contract_type));
    }
    let ghost checks = seq![
        (opt_text(*exchange), "exchange"@),
        (opt_text(*search), "search"@),
        (opt_text(*contract_type), "contract_type"@),
    ];
    proof {
        reveal_with_fuel(first_rejection, 4);
        assert(checks.drop_last().drop_last().drop_last() =~= Seq::empty());
        assert(checks.drop_last().drop_last().last() == checks[0]);
        assert(checks.drop_last().last() == checks[1]);
    }
    check_optional(exchange, config, "exchange")?;
    check_optional(search, config, "search")?;
    check_optional(contract_type, config, "contract_type")?;
    validate_top(top)?;
    let top_text: Option<String> = match top {
        Some(t) => Some(i64_to_decimal(t)),
        None => None,
    };
    let ghost e0: Seq<(Seq<char>, Option<Seq<char>>)> = Seq::empty();
    let mut pairs: Vec<(String, String)> = Vec::new();
    assert(pairs_view(pairs@) =~= present_pairs(e0));
    push_entry(&mut pairs, "exchange", exchange, Ghost(e0));
    let ghost e1 = e0.push(("exchange"@, opt_text(*exchange)));
    push_entry(&mut pairs, "min_change", min_change, Ghost(e1));
    let ghost e2 = e1.push(("min_change"@, opt_text(*min_change)));
    push_entry(&mut pairs, "min_volume", min_volume, Ghost(e2));
    let ghost e3 = e2.push(("min_volume"@, opt_text(*min_volume)));
    push_entry(&mut pairs, "top", &top_text, Ghost(e3));
    let ghost e4 = e3.push(("top"@, opt_text(top_text)));
    push_entry(&mut pairs, "search", search, Ghost(e4));
    let ghost e5 = e4.push(("search"@, opt_text(*search)));
    push_entry(&mut pairs, "contract_type", contract_type, Ghost(e5));
    let ghost e6 = e5.push(("contract_type"@, opt_text(*contract_type)));
    assert(e6 =~= seq![
        ("exchange"@, opt_text(*exchange)),
        ("min_change"@, opt_text(*min_change)),
        ("min_volume"@, opt_text(*min_volume)),
        ("top"@, match top { Some(t) => Some(signed_decimal(t as int)), None => None }),
        ("search"@, opt_text(*search)),
        ("contract_type"@, opt_text(*contract_type)),
    ]);
    Ok(endpoint("screener", &pairs))
}

/// The URL of an API endpoint: `{base}/api/v1/{endpoint}`.
pub fn api_url(base_url: &str, endpoint: &str) -> (r: String)
    ensures
        r@ == base_url@ + "/api/v1/"@ + endpoint@,
{
    let mut url = owned(base_url);
    url.append("/api/v1/");
    url.append(endpoint);
    url
}

/// Refreshing the cache requires a prior login.
pub fn require_authentication(authenticated: bool) -> (r: Result<(), String>)
    ensures
        authenticated ==> r is Ok,
        !authenticated ==> (r matches Err(m)
            && m@ == "Authentication required. Call 'login' first with username and password."@),
{
    if !authenticated {
        return Err(owned("Authentication required. Call 'login' first with username and password."));
    }
    Ok(())
}

} // verus!
