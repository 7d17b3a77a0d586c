use cryptoscope::models::contract::ContractType;
use cryptoscope::db::schema::{migration_batch, migration_plan, SQL_CREATE_DAILY_OPEN_PRICES, SQL_IDX_FETCH_DATE};
use cryptoscope::error::CryptoScopeError;
use cryptoscope::screener::calculator::match_open_prices;
use cryptoscope::screener::fetcher::{
    is_high_failure_rate, retry_delay_ms, should_fetch_open_prices, KlineFetchTally, MAX_KLINE_RETRIES,
};
use cryptoscope::screener::output::{
    calculate_column_widths, compute_max_widths, distribute_widths, format_cells, format_separator,
    symbol_matches_filter, table_lines, TableRow,
};

fn strings(v: &[&str]) -> Vec<String> {
    v.iter().map(|s| s.to_string()).collect()
}

#[test]
fn fetcher_test_should_fetch_when_no_data() {
    let today = chrono::Utc::now().format("%Y-%m-%d").to_string();
    // No data stored, should fetch
    assert!(should_fetch_open_prices(None, &today));
}

#[test]
fn fetcher_test_should_fetch_when_stale_date() {
    let today = chrono::Utc::now().format("%Y-%m-%d").to_string();
    let yesterday = (chrono::Utc::now() - chrono::Duration::days(1)).format("%Y-%m-%d").to_string();
    // Stored date is yesterday, should fetch
    assert!(should_fetch_open_prices(Some(&yesterday), &today));
}

#[test]
fn fetcher_test_should_not_fetch_when_today() {
    let today = chrono::Utc::now().format("%Y-%m-%d").to_string();
    // Stored date is today, should NOT fetch
    assert!(!should_fetch_open_prices(Some(&today), &today));
}

#[test]
fn open_prices_pair_with_tickers() {
    let open = strings(&["BTCUSDT", "ETHUSDT"]);
    let tickers = strings(&["BTCUSDT", "ETHUSDT"]);
    assert_eq!(match_open_prices(&open, &tickers), vec![(0, 0), (1, 1)]);

    // A ticker without an open price is left out.
    let open = strings(&["BTCUSDT"]);
    let tickers = strings(&["BTCUSDT", "ETHUSDT"]);
    assert_eq!(match_open_prices(&open, &tickers), vec![(0, 0)]);

    // Empty inputs give nothing.
    assert!(match_open_prices(&[], &[]).is_empty());
    assert!(match_open_prices(&strings(&["BTCUSDT"]), &[]).is_empty());
    assert!(match_open_prices(&[], &strings(&["BTCUSDT"])).is_empty());

    // The last open price recorded for a symbol wins; ticker order is kept.
    let open = strings(&["XRPUSDT", "BTCUSDT", "XRPUSDT"]);
    let tickers = strings(&["XRPUSDT", "DOGEUSDT", "BTCUSDT"]);
    assert_eq!(match_open_prices(&open, &tickers), vec![(0, 2), (2, 1)]);
}

#[test]
fn retry_schedule_doubles_then_stops() {
    assert_eq!(MAX_KLINE_RETRIES, 3);
    assert_eq!(retry_delay_ms(0), Some(1000));
    assert_eq!(retry_delay_ms(1), Some(2000));
    assert_eq!(retry_delay_ms(2), Some(4000));
    assert_eq!(retry_delay_ms(3), None);
    assert_eq!(retry_delay_ms(u32::MAX), None);
}

#[test]
fn failure_rate_threshold_is_a_tenth() {
    assert!(!is_high_failure_rate(0, 0));
    assert!(!is_high_failure_rate(1, 10));
    assert!(is_high_failure_rate(2, 10));
    assert!(is_high_failure_rate(11, 100));
    assert!(!is_high_failure_rate(10, 100));
    assert!(is_high_failure_rate(1, 1));
}

#[test]
fn fetch_tally_counts_results() {
    let mut tally = KlineFetchTally::new(100);
    let mut reports = 0;
    for i in 0..100 {
        if tally.record(i % 5 != 0) {
            reports += 1;
        }
    }
    assert!(tally.is_complete());
    assert_eq!(tally.processed, 100);
    assert_eq!(tally.failed, 20);
    assert_eq!(tally.succeeded, 80);
    assert_eq!(tally.succeeded + tally.failed, tally.total);
    assert_eq!(reports, 2);
    assert!(tally.has_high_failure_rate());

    let mut small = KlineFetchTally::new(3);
    assert!(!small.record(true));
    assert!(!small.is_complete());
    assert!(!small.has_high_failure_rate());
}

#[test]
fn migration_plans() {
    assert_eq!(migration_plan(0), Ok(vec![1]));
    assert_eq!(migration_plan(1), Ok(vec![]));
    assert_eq!(
        migration_plan(-1),
        Err(CryptoScopeError::DbInternal("Unknown schema version: 0. Please update CryptoScope.".to_string()))
    );
    assert_eq!(
        migration_plan(-5),
        Err(CryptoScopeError::DbInternal("Unknown schema version: -4. Please update CryptoScope.".to_string()))
    );
    assert_eq!(
        migration_plan(2),
        Err(CryptoScopeError::DbInternal(
            "Database schema version (2) is newer than supported (1). Please update CryptoScope to a newer version."
                .to_string()
        ))
    );
    assert_eq!(migration_batch(1), Some(format!("{}; {}", SQL_CREATE_DAILY_OPEN_PRICES, SQL_IDX_FETCH_DATE)));
    assert_eq!(migration_batch(2), None);
}

fn row(symbol: &str, open: &str, current: &str, pct: &str, val: &str, vol: &str) -> TableRow {
    TableRow {
        symbol: symbol.to_string(),
        open: open.to_string(),
        current: current.to_string(),
        change_percent: pct.to_string(),
        change_value: val.to_string(),
        change_percent_shown: pct.to_string(),
        change_value_shown: val.to_string(),
        volume: vol.to_string(),
    }
}

#[test]
fn column_widths() {
    let rows = vec![
        row("BTCUSDT", "50000.00", "51000.00", "+2.00%", "+1000.00", "$1.00M"),
        row("VERYLONGSYMBOLNAME", "0.000012", "0.000013", "+8.33%", "+0.00", "$5.00K"),
    ];
    assert_eq!(compute_max_widths(&rows), [18, 10, 10, 10, 12, 10]);
    assert_eq!(compute_max_widths(&[]), [10, 10, 10, 10, 12, 10]);
    // 120 columns: 113 available, 51 spare, 8 more per column.
    assert_eq!(distribute_widths([18, 10, 10, 10, 12, 10], 120), [26, 18, 18, 18, 20, 18]);
    // Narrow terminals add nothing; minimum widths still apply.
    assert_eq!(distribute_widths([3, 4, 5, 6, 7, 8], 40), [10, 10, 10, 10, 12, 10]);
    assert_eq!(distribute_widths([3, 4, 5, 6, 7, 8], 0), [10, 10, 10, 10, 12, 10]);
    assert_eq!(calculate_column_widths(&rows, 69), [18, 10, 10, 10, 12, 10]);
    assert_eq!(calculate_column_widths(&rows, 75), [19, 11, 11, 11, 13, 11]);
}

#[test]
fn table_layout() {
    assert_eq!(table_lines(&[], 120), vec!["No price changes to display.".to_string()]);
    let widths = [6, 4, 4, 4, 4, 4];
    assert_eq!(format_cells(["ab", "c", "d", "e", "f", "g"], &widths), "ab     |    c |    d |    e |    f |    g");
    assert_eq!(format_cells(["toolong", "wider", "d", "e", "f", "g"], &widths), "toolong | wider |    d |    e |    f |    g");
    assert_eq!(
        format_separator(&[1, 2, 3, 1, 1, 1]),
        format!("{:-<1}-+-{:-<2}-+-{:-<3}-+-{:-<1}-+-{:-<1}-+-{:-<1}", "", "", "", "", "", "")
    );

    let rows = vec![row("BTCUSDT", "50000.00", "51000.00", "+2.00%", "+1000.00", "$1.00M")];
    let lines = table_lines(&rows, 69);
    assert_eq!(lines.len(), 3);
    assert_eq!(
        lines[0],
        format!("{:<10} | {:>10} | {:>10} | {:>10} | {:>12} | {:>10}", "Symbol", "Open", "Current", "Change %", "Change Value", "Volume 24h")
    );
    assert_eq!(lines[1], format!("{:-<10}-+-{:-<10}-+-{:-<10}-+-{:-<10}-+-{:-<12}-+-{:-<10}", "", "", "", "", "", ""));
    assert_eq!(
        lines[2],
        format!("{:<10} | {:>10} | {:>10} | {:>10} | {:>12} | {:>10}", "BTCUSDT", "50000.00", "51000.00", "+2.00%", "+1000.00", "$1.00M")
    );
}

#[test]
fn symbol_filter_ignores_case() {
    assert!(symbol_matches_filter("BTCUSDT", "btc"));
    assert!(symbol_matches_filter("ethusdt", "USDT"));
    assert!(!symbol_matches_filter("ETHUSDT", "btc"));
    assert!(symbol_matches_filter("ETHUSDT", ""));
}

#[test]
fn kline_fetch_settings_of_service_and_command_line() {
    let service = cryptoscope::screener::fetcher::KlineFetchSettings::service();
    assert_eq!((service.max_concurrent, service.timeout_secs, service.per_request_delay_ms), (5, 60, 0));
    let cli = cryptoscope::screener::fetcher::KlineFetchSettings::command_line();
    assert_eq!((cli.max_concurrent, cli.timeout_secs, cli.per_request_delay_ms), (2, 30, 500));
}

#[test]
fn contract_types_of_categories() {
    assert_eq!(ContractType::from_category("linear"), ContractType::LinearPerpetual);
    assert_eq!(ContractType::from_category("inverse"), ContractType::InversePerpetual);
    assert_eq!(ContractType::from_category("spot"), ContractType::Spot);
    assert_eq!(ContractType::from_category("option"), ContractType::Unknown);
    assert_eq!(ContractType::from_category("Linear"), ContractType::Unknown);
    assert_eq!(ContractType::LinearFutures.label(), "LinearFutures");
    assert_eq!(ContractType::Unknown.label(), "Unknown");
    assert!(ContractType::InverseFutures.is_derivative());
    assert!(ContractType::LinearPerpetual.is_derivative());
    assert!(!ContractType::Spot.is_derivative());
    assert!(!ContractType::Unknown.is_derivative());
}
