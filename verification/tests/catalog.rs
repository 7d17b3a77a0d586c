use cryptoscope::cli::{effective_output_mode, parse_categories, parse_categories_from, CommonArgs, OutputMode, ScreenerMode};
use cryptoscope::exchange::factory::{get_supported_exchanges, select_exchange, ExchangeKind};
use cryptoscope::error::CryptoScopeError;
use cryptoscope::models::statistics::{sort_by_name, str_less, Statistics};
use cryptoscope::models::symbol::{copy_symbols, Symbol};
use cryptoscope::output::document;
use cryptoscope::output::formatter::{apply, by_search, category_description, report_lines, sort_by_count_desc};
use cryptoscope::output::json_output::{epoch_timestamp, JsonOutput};
use cryptoscope::test_utils::create_test_symbol;
use cryptoscope::text::join_strs;

fn bare_symbol(name: &str) -> Symbol {
    Symbol {
        symbol: name.to_string(),
        category: None,
        contract_type: None,
        base_coin: None,
        quote_coin: None,
        launch_time: None,
        delivery_time: None,
        delivery_fee_rate: None,
    }
}

#[test]
fn test_parse_categories_all() {
    assert_eq!(parse_categories("all").unwrap(), vec!["linear", "inverse"]);
    assert_eq!(parse_categories("ALL").unwrap(), vec!["linear", "inverse"]);
    // Unknown categories now return an error
    assert!(parse_categories("anything").is_err());
}

#[test]
fn test_parse_categories_specific() {
    assert_eq!(parse_categories("linear").unwrap(), vec!["linear"]);
    assert_eq!(parse_categories("LINEAR").unwrap(), vec!["linear"]);
    assert_eq!(parse_categories("inverse").unwrap(), vec!["inverse"]);
    assert_eq!(parse_categories("INVERSE").unwrap(), vec!["inverse"]);
}

#[test]
fn test_parse_categories_from() {
    let all = CommonArgs { exchange: "bybit".to_string(), category: "all".to_string() };
    assert_eq!(parse_categories_from(&all).unwrap(), vec!["linear", "inverse"]);
    let linear = CommonArgs { exchange: "bybit".to_string(), category: "linear".to_string() };
    assert_eq!(parse_categories_from(&linear).unwrap(), vec!["linear"]);
}

#[test]
fn unknown_category_message() {
    match parse_categories("spot") {
        Err(CryptoScopeError::ApiError { code, message }) => {
            assert_eq!(code, -1);
            assert_eq!(message, "Unknown category 'spot'. Supported: all, linear, inverse");
        }
        other => panic!("unexpected {:?}", other),
    }
}

#[test]
fn output_mode_selection() {
    assert_eq!(OutputMode::default(), OutputMode::Tui);
    assert_eq!(effective_output_mode(true, OutputMode::Json), OutputMode::Text);
    assert_eq!(effective_output_mode(false, OutputMode::Json), OutputMode::Json);
}

#[test]
fn mod_test_screener_mode_equality() {
    assert_eq!(ScreenerMode::Ticker, ScreenerMode::Ticker);
    assert_eq!(ScreenerMode::Kline, ScreenerMode::Kline);
    assert_ne!(ScreenerMode::Ticker, ScreenerMode::Kline);
}

#[test]
fn mod_test_screener_mode_default() {
    let mode = ScreenerMode::default();
    assert!(matches!(mode, ScreenerMode::Kline));
}

#[test]
fn test_create_bybit_exchange() {
    assert_eq!(select_exchange("bybit"), Ok(ExchangeKind::Bybit));
}

#[test]
fn test_create_unknown_exchange() {
    assert!(select_exchange("unknown").is_err());
}

#[test]
fn test_case_insensitive() {
    assert!(select_exchange("BYBIT").is_ok());
}

#[test]
fn unknown_exchange_keeps_the_name() {
    assert_eq!(select_exchange("Kraken"), Err(CryptoScopeError::UnknownExchange("Kraken".to_string())));
    assert_eq!(get_supported_exchanges(), vec!["bybit"]);
}

#[test]
fn test_statistics_aggregation() {
    let symbols = vec![
        create_test_symbol("BTCUSDT", "linear"),
        create_test_symbol("ETHUSDT", "linear"),
        create_test_symbol("BTCUSD", "inverse"),
    ];

    let stats = Statistics::from_symbols(&symbols);

    assert_eq!(stats.total_count, 3);
    assert_eq!(stats.count_by_category("linear"), 2);
    assert_eq!(stats.count_by_category("inverse"), 1);
}

#[test]
fn statistics_counts_add_up_and_use_fallbacks() {
    let symbols = vec![
        create_test_symbol("BTCUSDT", "linear"),
        bare_symbol("MYSTERY"),
        create_test_symbol("BTCUSD", "inverse"),
        create_test_symbol("XRPUSD", "inverse"),
    ];
    let stats = Statistics::from_symbols(&symbols);
    assert_eq!(stats.total_count, 4);
    assert_eq!(stats.count_by_category("unknown"), 1);
    assert_eq!(stats.count_by_category("spot"), 0);
    let sum: usize = stats.by_category.iter().map(|(_, c)| *c).sum();
    assert_eq!(sum, 4);
    let sum_ct: usize = stats.by_contract_type.iter().map(|(_, c)| *c).sum();
    assert_eq!(sum_ct, 4);
    assert!(stats.by_contract_type.contains(&("Unknown".to_string(), 1)));
    assert!(stats.by_contract_type.contains(&("InversePerpetual".to_string(), 2)));

    let labels = vec![("a".to_string(), "x".to_string()), ("a".to_string(), "y".to_string())];
    let from_labels = Statistics::from_labels(&labels);
    assert_eq!(from_labels.total_count, 2);
    assert_eq!(from_labels.by_category, vec![("a".to_string(), 2)]);
    assert_eq!(from_labels.by_contract_type, vec![("x".to_string(), 1), ("y".to_string(), 1)]);
}

#[test]
fn symbol_fallbacks_and_test_symbols() {
    let s = bare_symbol("X");
    assert_eq!(s.category(), "unknown");
    assert_eq!(s.contract_type(), "Unknown");
    assert_eq!(s.base_coin(), "UNKNOWN");
    assert_eq!(s.quote_coin(), "UNKNOWN");
    let linear = create_test_symbol("BTCUSDT", "linear");
    assert_eq!(linear.contract_type(), "Linear");
    assert_eq!(linear.base_coin(), "BTC");
    assert_eq!(linear.quote_coin(), "USDT");
    let inverse = create_test_symbol("BTCUSD", "inverse");
    assert_eq!(inverse.contract_type(), "InversePerpetual");
    let copies = copy_symbols(&[linear.clone(), inverse.clone()]);
    assert_eq!(copies.len(), 2);
    assert_eq!(copies[1].symbol, "BTCUSD");
}

#[test]
fn test_filter_by_search() {
    let symbols = vec![
        create_test_symbol("BTCUSDT", "linear"),
        create_test_symbol("ETHUSDT", "linear"),
        create_test_symbol("BTCUSD", "inverse"),
    ];

    let filtered = by_search(&symbols, "BTC");
    assert_eq!(filtered.len(), 2);
}

#[test]
fn search_is_case_insensitive_and_ordered() {
    let symbols = vec![
        create_test_symbol("BTCUSDT", "linear"),
        create_test_symbol("ETHUSDT", "linear"),
        create_test_symbol("ethbtc", "linear"),
    ];
    let filtered = by_search(&symbols, "Eth");
    let names: Vec<&str> = filtered.iter().map(|s| s.symbol.as_str()).collect();
    assert_eq!(names, vec!["ETHUSDT", "ethbtc"]);
    assert_eq!(by_search(&symbols, "").len(), 3);
    assert_eq!(apply(&symbols, None).len(), 3);
    assert_eq!(apply(&symbols, Some("usdt")).len(), 2);
    assert!(apply(&symbols, Some("doge")).is_empty());
}

fn json_test_symbol() -> Symbol {
    Symbol {
        symbol: "BTCUSDT".to_string(),
        category: Some("linear".to_string()),
        contract_type: Some("Linear".to_string()),
        base_coin: Some("BTC".to_string()),
        quote_coin: Some("USDT".to_string()),
        launch_time: None,
        delivery_time: None,
        delivery_fee_rate: None,
    }
}

#[test]
fn json_output_test_json_output_creation() {
    let symbols = vec![json_test_symbol()];
    let stats = Statistics::from_symbols(&symbols);

    let output = JsonOutput::new("bybit", &["linear"], &symbols, &stats);

    assert_eq!(output.exchange, "bybit");
    assert_eq!(output.statistics.total_count, 1);
    assert_eq!(output.symbols.len(), 1);
}

#[test]
fn output_test_json_output_creation() {
    let symbols = vec![create_test_symbol("BTCUSDT", "linear")];
    let stats = Statistics::from_symbols(&symbols);

    let output = document::JsonOutput::new("bybit", &["linear"], &symbols, &stats);

    assert_eq!(output.exchange, "bybit");
    assert_eq!(output.statistics.total_count, 1);
    assert_eq!(output.symbols.len(), 1);
}

#[test]
fn json_documents_carry_every_field() {
    let symbols = vec![json_test_symbol(), bare_symbol("ODD")];
    let stats = Statistics::from_symbols(&symbols);
    let output = JsonOutput::with_timestamp("bybit", &["linear", "inverse"], &symbols, &stats, "12.5".to_string());
    assert_eq!(output.categories, vec!["linear".to_string(), "inverse".to_string()]);
    assert_eq!(output.timestamp, "12.5");
    assert_eq!(output.statistics.by_category.len(), 2);
    assert_eq!(output.statistics.by_category[0].category, "linear");
    assert_eq!(output.statistics.by_category[0].count, 1);
    assert_eq!(output.symbols[1].symbol, "ODD");
    assert_eq!(output.symbols[1].category, "unknown");
    assert_eq!(output.symbols[1].contract_type, "Unknown");
    assert_eq!(output.symbols[1].base_coin, "UNKNOWN");
    assert_eq!(output.symbols[0].quote_coin, "USDT");

    let doc = document::JsonOutput::with_timestamp("bybit", &["linear"], &symbols, &stats, "2024-01-01T00:00:00+00:00".to_string());
    assert_eq!(doc.timestamp, "2024-01-01T00:00:00+00:00");
    assert_eq!(doc.statistics.by_category, stats.by_category);
    assert!(!document::JsonOutput::new("bybit", &["linear"], &symbols, &stats).timestamp.is_empty());

    assert_eq!(epoch_timestamp(1700000000, 5), "1700000000.5");
    assert_eq!(epoch_timestamp(0, 0), "0.0");
    let now = JsonOutput::new("bybit", &[], &[], &Statistics::from_symbols(&[])).timestamp;
    assert!(now.contains('.'));
}

#[test]
fn contract_counts_sorted_largest_first() {
    let entries = vec![
        ("A".to_string(), 1),
        ("B".to_string(), 5),
        ("C".to_string(), 1),
        ("D".to_string(), 3),
    ];
    let sorted = sort_by_count_desc(&entries);
    let names: Vec<&str> = sorted.iter().map(|(n, _)| n.as_str()).collect();
    assert_eq!(names, vec!["B", "D", "A", "C"]);
    assert!(sort_by_count_desc(&vec![]).is_empty());
}

#[test]
fn names_sorted_alphabetically() {
    let entries = vec![("linear".to_string(), 2), ("inverse".to_string(), 1), ("Linear".to_string(), 4)];
    let sorted = sort_by_name(&entries);
    let names: Vec<&str> = sorted.iter().map(|(n, _)| n.as_str()).collect();
    assert_eq!(names, vec!["Linear", "inverse", "linear"]);
    assert!(str_less("ab", "abc"));
    assert!(!str_less("abc", "ab"));
    assert!(!str_less("ab", "ab"));
    assert!(str_less("aa", "b"));
}

#[test]
fn category_descriptions_and_joining() {
    assert_eq!(category_description("linear"), " (USDT Perpetual)");
    assert_eq!(category_description("inverse"), " (Inverse Perpetual)");
    assert_eq!(category_description("spot"), "");
    assert_eq!(join_strs(&["linear", "inverse"], ", "), "linear, inverse");
    assert_eq!(join_strs(&[], ", "), "");
    assert_eq!(join_strs(&["one"], ", "), "one");
}

#[test]
fn text_report_lines() {
    let symbols = vec![
        create_test_symbol("BTCUSDT", "linear"),
        create_test_symbol("ETHUSDT", "linear"),
        create_test_symbol("BTCUSD", "inverse"),
    ];
    let stats = Statistics::from_symbols(&symbols);
    let lines = report_lines("bybit", &["linear", "inverse"], &symbols, &stats, 80);
    let expected: Vec<&str> = vec![
        "",
        "=== CryptoScope: BYBIT Perpetual Symbols ===",
        "",
        "Exchange: BYBIT",
        "Categories: linear, inverse",
        "",
        "📊 Statistics:",
        "  Total Symbols: 3",
        "",
        "  By Category:",
        "    LINEAR (USDT Perpetual): 2",
        "    INVERSE (Inverse Perpetual): 1",
        "",
        "  By Contract Type:",
        "    Linear: 2",
        "    InversePerpetual: 1",
        "",
        "📋 Sample Symbols (first 20):",
        "  BTCUSDT, ETHUSDT, BTCUSD",
        "",
    ];
    assert_eq!(lines, expected);
}

#[test]
fn sample_wraps_and_counts_the_rest() {
    let symbols: Vec<Symbol> = (0..25).map(|i| create_test_symbol(&format!("SYM{:02}", i), "linear")).collect();
    let stats = Statistics::from_symbols(&symbols);
    let lines = report_lines("bybit", &["linear"], &symbols, &stats, 30);
    let start = lines.iter().position(|l| l.starts_with("📋")).unwrap();
    let sample = &lines[start + 1..lines.len() - 1];
    assert_eq!(sample[0], "  SYM00, SYM01, SYM02, ");
    for line in &sample[..sample.len() - 1] {
        assert!(line.len() <= 28);
    }
    assert_eq!(sample[sample.len() - 1], "  ... and 5 more");
    let joined: String = sample[..sample.len() - 1].iter().map(|l| &l[2..]).collect();
    let expected: Vec<String> = (0..20).map(|i| format!("SYM{:02}", i)).collect();
    assert_eq!(joined, expected.join(", "));
}

#[test]
fn rfc3339_timestamps_of_instants() {
    assert_eq!(document::rfc3339_timestamp(0, 0), "1970-01-01T00:00:00+00:00");
    assert_eq!(document::rfc3339_timestamp(1_700_000_000, 0), "2023-11-14T22:13:20+00:00");
    assert_eq!(document::rfc3339_timestamp(1_700_000_000, 500_000_000), "2023-11-14T22:13:20.500+00:00");
    assert_eq!(document::rfc3339_timestamp(u64::MAX, 0), "1970-01-01T00:00:00+00:00");
}
