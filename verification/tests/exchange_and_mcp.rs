use cryptoscope::error::CryptoScopeError;
use cryptoscope::exchange::bybit::{
    assign_missing_category, build_instruments_url, build_kline_url, build_tickers_url, check_api_response,
    kline_field_text, kline_open_text, next_page_cursor, unparsable_field_error,
};
use cryptoscope::mcp::query::{api_url, build_query, require_authentication, screener_request, symbols_request};
use cryptoscope::mcp::types::SymbolsParams;
use cryptoscope::mcp::validation::{validate_param, validate_top};
use cryptoscope::models::response::{BybitApiResponse, BybitInstrumentsResult};
use cryptoscope::models::symbol::Symbol;
use cryptoscope::security::SecurityConfig;
use cryptoscope::test_utils::create_test_symbol;

fn api_error(message: &str) -> CryptoScopeError {
    CryptoScopeError::ApiError { code: -1, message: message.to_string() }
}

#[test]
fn test_parse_kline_fields_insufficient_data() {
    let data = vec![vec!["1714003200000".to_string()]];
    let result = kline_open_text(&data, "BTCUSDT");
    assert!(result.is_err());
}

#[test]
fn test_parse_kline_fields_empty_data() {
    let data: Vec<Vec<String>> = vec![];
    let result = kline_open_text(&data, "BTCUSDT");
    assert!(result.is_err());
}

#[test]
fn kline_rows_and_messages() {
    let row: Vec<String> = ["1714003200000", "60000.5", "61000", "59000", "60500", "12.5"]
        .iter()
        .map(|s| s.to_string())
        .collect();
    assert_eq!(kline_open_text(&vec![row.clone()], "BTCUSDT"), Ok("60000.5".to_string()));
    assert_eq!(kline_open_text(&vec![], "BTCUSDT"), Err(api_error("No k-line data found for symbol 'BTCUSDT'")));
    assert_eq!(
        kline_open_text(&vec![vec!["1".to_string()]], "BTCUSDT"),
        Err(api_error("Invalid k-line data format for symbol 'BTCUSDT'"))
    );
    assert_eq!(kline_field_text(&row, 4, "X"), Ok("60500".to_string()));
    assert_eq!(
        kline_field_text(&row, 9, "X"),
        Err(api_error("Kline data too short: expected index 9 but data has 6 elements for symbol 'X'"))
    );
    assert_eq!(unparsable_field_error("open_price", "BTCUSDT"), api_error("Failed to parse open_price for symbol 'BTCUSDT'"));
}

#[test]
fn bybit_urls() {
    assert_eq!(
        build_kline_url("https://api.bybit.com", "BTCUSDT", "linear"),
        "https://api.bybit.com/v5/market/kline?category=linear&symbol=BTCUSDT&interval=D&limit=1"
    );
    assert_eq!(
        build_instruments_url("https://x", "inverse", ""),
        "https://x/v5/market/instruments-info?category=inverse"
    );
    assert_eq!(
        build_instruments_url("https://x", "inverse", "abc"),
        "https://x/v5/market/instruments-info?category=inverse&cursor=abc"
    );
    assert_eq!(build_tickers_url("https://x", "linear"), "https://x/v5/market/tickers?category=linear");
}

#[test]
fn api_response_codes() {
    assert_eq!(check_api_response(0, "OK"), Ok(()));
    assert_eq!(
        check_api_response(10001, "params error"),
        Err(CryptoScopeError::ApiError { code: 10001, message: "params error".to_string() })
    );
    let ok = BybitApiResponse {
        ret_code: 0,
        ret_msg: "OK".to_string(),
        result: BybitInstrumentsResult { category: "linear".to_string(), list: vec![], next_page_cursor: None },
        ret_ext_info: serde_json::Value::Null,
        time: 0,
    };
    assert!(ok.is_success());
    assert_eq!(ok.error_message(), None);
    let failed = BybitApiResponse { ret_code: 10002, ret_msg: "bad".to_string(), ..ok };
    assert!(!failed.is_success());
    assert_eq!(failed.error_message(), Some("bad (code: 10002)".to_string()));
}

#[test]
fn pagination_stops_on_empty_cursor_or_page_limit() {
    assert_eq!(next_page_cursor(1, Some("next".to_string())), Some("next".to_string()));
    assert_eq!(next_page_cursor(1, Some(String::new())), None);
    assert_eq!(next_page_cursor(1, None), None);
    assert_eq!(next_page_cursor(99, Some("c".to_string())), Some("c".to_string()));
    assert_eq!(next_page_cursor(100, Some("c".to_string())), None);
}

#[test]
fn missing_categories_are_filled_in() {
    let mut bare = create_test_symbol("BTCUSD", "inverse");
    bare.category = None;
    let mut symbols: Vec<Symbol> = vec![create_test_symbol("BTCUSDT", "linear"), bare];
    assign_missing_category(&mut symbols, "inverse");
    assert_eq!(symbols[0].category, Some("linear".to_string()));
    assert_eq!(symbols[1].category, Some("inverse".to_string()));
    assert_eq!(symbols[1].symbol, "BTCUSD");
}

#[test]
fn mcp_allowlists() {
    let config = SecurityConfig::default_for_mcp();
    assert!(config.is_param_safe_with_type("bybit", "exchange"));
    assert!(!config.is_param_safe_with_type("binance", "exchange"));
    assert!(config.is_param_safe_with_type("spot", "category"));
    assert!(!config.is_param_safe_with_type("spot", "contract_type"));
    assert!(config.is_param_safe_with_type("inverse", "contract_type"));
    assert!(config.is_param_safe("BTC_USDT-1"));
    assert!(!config.is_param_safe("BTC USDT"));
    assert!(!config.is_param_safe("'; DROP TABLE"));
    assert!(!config.is_param_safe(""));
    assert!(!config.is_param_safe_with_type("bybit", "unknown"));
}

#[test]
fn safe_resolve_checks_containment() {
    assert_eq!(
        SecurityConfig::safe_resolve(Ok("/base".to_string()), Ok("/base/x".to_string())),
        Ok("/base/x".to_string())
    );
    assert_eq!(
        SecurityConfig::safe_resolve(Ok("/base".to_string()), Ok("/other".to_string())),
        Err("Path traversal detected: resolved path is outside base directory".to_string())
    );
    assert_eq!(
        SecurityConfig::safe_resolve(Err("gone".to_string()), Ok("/x".to_string())),
        Err("Failed to canonicalize base directory: gone".to_string())
    );
    assert_eq!(
        SecurityConfig::safe_resolve(Ok("/base".to_string()), Err("nope".to_string())),
        Err("Failed to canonicalize target path: nope".to_string())
    );
}

#[test]
fn mcp_parameter_validation() {
    let config = SecurityConfig::default_for_mcp();
    assert_eq!(validate_param("bybit", &config, "exchange"), Ok(()));
    assert_eq!(
        validate_param("kraken", &config, "exchange"),
        Err("Invalid parameter 'kraken': does not match allowed pattern for type 'exchange'".to_string())
    );
    assert_eq!(validate_top(None), Ok(()));
    assert_eq!(validate_top(Some(1)), Ok(()));
    assert_eq!(validate_top(Some(1000)), Ok(()));
    assert_eq!(validate_top(Some(0)), Err("Parameter 'top' must be between 1 and 1000".to_string()));
    assert_eq!(validate_top(Some(1001)), Err("Parameter 'top' must be between 1 and 1000".to_string()));
}

#[test]
fn query_strings_are_form_encoded() {
    assert_eq!(build_query(&vec![]), "");
    let pairs = vec![
        ("exchange".to_string(), "bybit".to_string()),
        ("search".to_string(), "a b&c=d".to_string()),
    ];
    assert_eq!(build_query(&pairs), "exchange=bybit&search=a+b%26c%3Dd");
    assert_eq!(api_url("http://localhost:3000", "exchanges"), "http://localhost:3000/api/v1/exchanges");
    assert_eq!(require_authentication(true), Ok(()));
    assert!(require_authentication(false).is_err());
}

#[test]
fn mcp_requests() {
    let config = SecurityConfig::default_for_mcp();
    let params = SymbolsParams { exchange: "bybit".to_string(), category: Some("linear".to_string()), search: None };
    assert_eq!(symbols_request(&params, &config), Ok("symbols?exchange=bybit&category=linear".to_string()));
    let bad = SymbolsParams { exchange: "bybit".to_string(), category: Some("futures".to_string()), search: None };
    assert_eq!(
        symbols_request(&bad, &config),
        Err("Invalid parameter 'futures': does not match allowed pattern for type 'category'".to_string())
    );
    assert_eq!(
        screener_request(&None, &None, &None, None, &None, &None, &config),
        Ok("screener".to_string())
    );
    assert_eq!(
        screener_request(
            &Some("bybit".to_string()),
            &Some("2.5".to_string()),
            &None,
            Some(10),
            &Some("BTC".to_string()),
            &Some("linear".to_string()),
            &config
        ),
        Ok("screener?exchange=bybit&min_change=2.5&top=10&search=BTC&contract_type=linear".to_string())
    );
    assert_eq!(
        screener_request(&None, &None, &None, Some(0), &None, &None, &config),
        Err("Parameter 'top' must be between 1 and 1000".to_string())
    );
    assert_eq!(
        screener_request(&None, &None, &None, Some(5000), &Some("bad search".to_string()), &None, &config),
        Err("Invalid parameter 'bad search': does not match allowed pattern for type 'search'".to_string())
    );
}

#[test]
fn every_supported_exchange_is_selectable_by_its_name() {
    let names = cryptoscope::exchange::get_supported_exchanges();
    assert_eq!(names, vec!["bybit"]);
    for name in names {
        let kind = cryptoscope::exchange::select_exchange(name).unwrap();
        assert_eq!(kind.name(), name);
    }
    assert_eq!(cryptoscope::exchange::ExchangeKind::Bybit.name(), "bybit");
    assert_eq!(cryptoscope::exchange::select_exchange("ByBit"), Ok(cryptoscope::exchange::ExchangeKind::Bybit));
}
