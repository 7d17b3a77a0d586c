use cryptoscope::api::auth::{
    bearer_token, check_credentials, check_jwt_secret, load_admin_credentials, AdminCredentials,
    AuthError, Claims, LoginRequest, LoginResponse,
};
use argon2::password_hash::{PasswordHasher, SaltString};
use cryptoscope::api::cors::{cors_policy, CorsPolicy};
use cryptoscope::api::error::{render_validation_map, AppError, ValidationErrorResponse};
use cryptoscope::api::types::FieldError;
use cryptoscope::api::screener::{resolve_categories, resolve_screener_mode};
use cryptoscope::api::types::{
    default_top, validate_exchange, validate_screener_fields, ErrorResponse, ExchangeListResponse,
    RefreshResponse, ScreenerModeQuery, StatsQuery, SymbolQuery,
};
use cryptoscope::cli::ScreenerMode;
use cryptoscope::error::CryptoScopeError;

#[test]
fn test_symbol_query_validation_valid() {
    let query = SymbolQuery {
        exchange: "bybit".to_string(),
        category: Some("linear".to_string()),
        search: Some("BTC".to_string()),
    };
    assert!(query.validate().is_ok());
}

#[test]
fn test_symbol_query_validation_invalid_exchange() {
    let query = SymbolQuery {
        exchange: "".to_string(),
        category: None,
        search: None,
    };
    assert!(query.validate().is_err());

    let query = SymbolQuery {
        exchange: "invalid@exchange!".to_string(),
        category: None,
        search: None,
    };
    assert!(query.validate().is_err());
}

#[test]
fn test_symbol_query_validation_max_length() {
    let query = SymbolQuery {
        exchange: "bybit".to_string(),
        category: Some("a".repeat(51)),
        search: None,
    };
    assert!(query.validate().is_err());

    let query = SymbolQuery {
        exchange: "bybit".to_string(),
        category: None,
        search: Some("a".repeat(101)),
    };
    assert!(query.validate().is_err());
}

#[test]
fn test_screener_query_validation_top_limit() {
    let errors = validate_screener_fields("bybit", &None, 101);
    assert!(!errors.is_empty());

    let errors = validate_screener_fields("bybit", &None, 50);
    assert!(errors.is_empty());
}

#[test]
fn validation_messages_name_each_field() {
    let query = SymbolQuery {
        exchange: "bad name".to_string(),
        category: Some("c".repeat(51)),
        search: Some("s".repeat(100)),
    };
    let errors = query.validate().unwrap_err();
    assert_eq!(errors.len(), 2);
    assert_eq!(errors[0].field, "exchange");
    assert_eq!(errors[0].message, "Exchange name contains invalid characters");
    assert_eq!(errors[1].field, "category");
    assert_eq!(errors[1].message, "Category must be at most 50 characters");
}

#[test]
fn exchange_name_rules() {
    assert!(validate_exchange("bybit").is_ok());
    assert!(validate_exchange("my_exchange-2").is_ok());
    assert_eq!(validate_exchange("").unwrap_err(), "Exchange name must be 1-50 characters");
    assert_eq!(validate_exchange(&"x".repeat(51)).unwrap_err(), "Exchange name must be 1-50 characters");
    assert!(validate_exchange(&"x".repeat(50)).is_ok());
    assert_eq!(validate_exchange("by/bit").unwrap_err(), "Exchange name contains invalid characters");
}

#[test]
fn screener_fields_report_top_and_category() {
    let errors = validate_screener_fields("bybit", &Some("k".repeat(60)), 101);
    assert_eq!(errors.len(), 2);
    assert_eq!(errors[0].field, "category");
    assert_eq!(errors[1].field, "top");
    assert_eq!(errors[1].message, "Top value cannot exceed 100");
    assert!(validate_screener_fields("bybit", &None, 100).is_empty());
    assert_eq!(default_top(), 20);
}

#[test]
fn stats_query_validation() {
    let ok = StatsQuery { exchange: "bybit".to_string(), category: None };
    assert!(ok.validate().is_ok());
    let bad = StatsQuery { exchange: "bybit".to_string(), category: Some("z".repeat(51)) };
    let errors = bad.validate().unwrap_err();
    assert_eq!(errors.len(), 1);
    assert_eq!(errors[0].field, "category");
}

#[test]
fn response_payloads() {
    let list = ExchangeListResponse::supported();
    assert_eq!(list.exchanges, vec!["bybit".to_string()]);
    let refreshed = RefreshResponse::refreshed(42);
    assert_eq!(refreshed.status, "refreshed");
    assert_eq!(refreshed.count, 42);
    let e = ErrorResponse::new("boom".to_string());
    assert_eq!(e.error, "boom");
    assert!(e.details.is_none());
    let d = ErrorResponse::with_details("boom".to_string(), "why".to_string());
    assert_eq!(d.details, Some("why".to_string()));
}

#[test]
fn core_errors_map_to_http_errors() {
    let cases = vec![
        (CryptoScopeError::UnknownExchange("kraken".to_string()), 400u16, "Unknown exchange: kraken"),
        (CryptoScopeError::HttpError("timeout".to_string()), 502, "HTTP request failed: timeout"),
        (CryptoScopeError::ParseError("eof".to_string()), 500, "JSON parsing failed: eof"),
        (CryptoScopeError::DbError("locked".to_string()), 500, "Database error: locked"),
        (CryptoScopeError::DbInternal("no home".to_string()), 500, "no home"),
        (
            CryptoScopeError::ApiError { code: -7, message: "rate".to_string() },
            502,
            "API error code -7: rate",
        ),
    ];
    for (err, status, message) in cases {
        match AppError::from_core_error(err) {
            AppError::HttpError(s, m) => {
                assert_eq!(s, status);
                assert_eq!(m, message);
            }
            other => panic!("unexpected {:?}", other),
        }
    }
}

#[test]
fn app_error_constructors_and_responses() {
    assert!(matches!(AppError::bad_request("a".to_string()), AppError::HttpError(400, _)));
    assert!(matches!(AppError::bad_gateway("a".to_string()), AppError::HttpError(502, _)));
    assert!(matches!(AppError::internal_error("a".to_string()), AppError::HttpError(500, _)));
    assert!(matches!(AppError::not_implemented("a".to_string()), AppError::HttpError(501, _)));
    assert!(matches!(AppError::unauthorized("a".to_string()), AppError::HttpError(401, _)));

    let (status, body) = AppError::QueryParseError("bad query".to_string()).response();
    assert_eq!(status, 400);
    assert_eq!(body.error, "bad query");

    let query = SymbolQuery { exchange: "".to_string(), category: None, search: None };
    let errors = query.validate().unwrap_err();
    let (status, body) = AppError::ValidationError(errors).response();
    assert_eq!(status, 400);
    assert_eq!(body.error, "Validation failed");
    assert_eq!(
        body.details,
        Some("{\"exchange\": [\"Exchange name must be 1-50 characters\"]}".to_string())
    );

    let (status, body) = AppError::HttpError(418, "teapot".to_string()).response();
    assert_eq!(status, 418);
    assert_eq!(body.error, "teapot");
}

#[test]
fn screener_endpoint_helpers() {
    assert_eq!(resolve_categories(None), vec!["linear".to_string(), "inverse".to_string()]);
    assert_eq!(resolve_categories(Some("spot")), vec!["spot".to_string()]);
    assert!(matches!(resolve_screener_mode(ScreenerModeQuery::Kline), Ok(ScreenerMode::Kline)));
    match resolve_screener_mode(ScreenerModeQuery::Mark) {
        Err(AppError::HttpError(501, m)) => {
            assert_eq!(m, "Mark price mode is not yet implemented. Use mode=kline instead.")
        }
        other => panic!("unexpected {:?}", other),
    }
    assert_eq!(ScreenerModeQuery::default(), ScreenerModeQuery::Kline);
}

#[test]
fn jwt_secret_and_admin_settings() {
    assert_eq!(
        check_jwt_secret(None).unwrap_err(),
        "JWT_SECRET environment variable must be set. Generate a random 32+ character secret."
    );
    assert_eq!(
        check_jwt_secret(Some("short".to_string())).unwrap_err(),
        "JWT_SECRET must be at least 32 characters for security"
    );
    let secret = "s".repeat(32);
    assert_eq!(check_jwt_secret(Some(secret.clone())).unwrap(), secret);

    assert_eq!(
        load_admin_credentials(None, Some("h".to_string())).unwrap_err(),
        "ADMIN_USER environment variable must be set"
    );
    assert_eq!(
        load_admin_credentials(Some("admin".to_string()), None).unwrap_err(),
        "ADMIN_PASS_HASH environment variable must be set (use argon2id PHC format)"
    );
    let creds = load_admin_credentials(Some("admin".to_string()), Some("hash".to_string())).unwrap();
    assert_eq!(creds.username, "admin");
    assert_eq!(creds.password_hash, "hash");
}

#[test]
fn claims_and_tokens() {
    let claims = Claims::issue("test_user", vec!["user".to_string()], 1_000);
    assert_eq!(claims.sub, "test_user");
    assert_eq!(claims.iat, 1_000);
    assert_eq!(claims.exp, 1_000 + 86_400);
    assert_eq!(claims.roles, vec!["user".to_string()]);
    let response = LoginResponse::for_token("tok".to_string());
    assert_eq!(response.expires_in, 86_400);

    assert_eq!(bearer_token(None), Err(AuthError::MissingCredentials));
    assert_eq!(bearer_token(Some("Basic abc")), Err(AuthError::InvalidToken));
    assert_eq!(bearer_token(Some("Bearer")), Err(AuthError::InvalidToken));
    assert_eq!(bearer_token(Some("Bearer abc.def")), Ok("abc.def"));
}

#[test]
fn auth_error_responses() {
    assert_eq!(AuthError::MissingCredentials.response_parts(), (400, "Missing credentials", false));
    assert_eq!(AuthError::InvalidToken.response_parts(), (401, "Invalid token", true));
    assert_eq!(AuthError::TokenCreation.response_parts(), (500, "Failed to create token", false));
    assert_eq!(AuthError::WrongCredentials.response_parts(), (401, "Wrong credentials", true));
}

#[test]
fn credential_check_uses_the_password_hash() {
    let salt = SaltString::encode_b64(b"fixedsaltvalue16").unwrap();
    let hash = argon2::Argon2::default()
        .hash_password(b"correct horse", &salt)
        .unwrap()
        .to_string();
    let admin = AdminCredentials { username: "admin".to_string(), password_hash: hash };
    let good = LoginRequest { username: "admin".to_string(), password: "correct horse".to_string() };
    assert_eq!(check_credentials(&good, &admin), Ok(()));
    let wrong_pass = LoginRequest { username: "admin".to_string(), password: "battery".to_string() };
    assert_eq!(check_credentials(&wrong_pass, &admin), Err(AuthError::WrongCredentials));
    let wrong_user = LoginRequest { username: "root".to_string(), password: "correct horse".to_string() };
    assert_eq!(check_credentials(&wrong_user, &admin), Err(AuthError::WrongCredentials));
    let empty = LoginRequest { username: "".to_string(), password: "x".to_string() };
    assert_eq!(check_credentials(&empty, &admin), Err(AuthError::MissingCredentials));
    let broken = AdminCredentials { username: "admin".to_string(), password_hash: "not-a-hash".to_string() };
    assert_eq!(check_credentials(&good, &broken), Err(AuthError::WrongCredentials));
}

#[test]
fn cors_policy_choices() {
    assert_eq!(cors_policy(true, Some("production"), None), CorsPolicy::Restrictive);
    assert_eq!(cors_policy(true, Some("prod"), None), CorsPolicy::Restrictive);
    assert_eq!(cors_policy(true, Some("dev"), None), CorsPolicy::VeryPermissive);
    assert_eq!(cors_policy(true, None, None), CorsPolicy::VeryPermissive);
    assert_eq!(
        cors_policy(false, None, None),
        CorsPolicy::AllowOrigins(vec![
            "http://localhost:3000".to_string(),
            "http://localhost:3001".to_string()
        ])
    );
    assert_eq!(
        cors_policy(false, None, Some(" https://a.example , https://b.example")),
        CorsPolicy::AllowOrigins(vec!["https://a.example".to_string(), "https://b.example".to_string()])
    );
    assert_eq!(
        cors_policy(false, None, Some("https://ok.example,bad\u{7f}origin")),
        CorsPolicy::AllowOrigins(vec!["https://ok.example".to_string()])
    );
    assert_eq!(cors_policy(false, None, Some("\u{1}")), CorsPolicy::Restrictive);
}

#[test]
fn validation_messages_are_grouped_by_field() {
    let errors = vec![
        FieldError { field: "exchange".to_string(), message: "a".to_string() },
        FieldError { field: "top".to_string(), message: "b".to_string() },
        FieldError { field: "exchange".to_string(), message: "c".to_string() },
    ];
    let response = ValidationErrorResponse::from_errors(&errors);
    assert_eq!(response.error, "Validation failed");
    assert_eq!(
        response.validations,
        vec![
            ("exchange".to_string(), vec!["a".to_string(), "c".to_string()]),
            ("top".to_string(), vec!["b".to_string()]),
        ]
    );
    let total: usize = response.validations.iter().map(|(_, m)| m.len()).sum();
    assert_eq!(total, errors.len());
    assert_eq!(
        render_validation_map(&response.validations),
        "{\"exchange\": [\"a\", \"c\"], \"top\": [\"b\"]}"
    );
}

#[test]
fn token_rules_of_the_api() {
    let rules = cryptoscope::api::auth::token_rules();
    assert!(rules.hs256_only);
    assert_eq!(rules.required_claims, vec!["exp".to_string(), "iat".to_string()]);
    assert!(rules.validate_exp);
    assert!(rules.validate_nbf);
    assert_eq!(rules.leeway_secs, 60);
    assert_eq!(rules.reject_expiring_within_secs, 30);
}

#[test]
fn admin_password_hashes_verify_at_login() {
    let salt = "c29tZXNhbHRzb21lc2FsdA";
    assert_eq!(
        cryptoscope::api::auth::admin_password_hash("", salt),
        Err("Password cannot be empty".to_string())
    );
    let hash = cryptoscope::api::auth::admin_password_hash("correct horse battery", salt).unwrap();
    assert!(hash.starts_with("$argon2id$v=19$m=19456,t=2,p=1$c29tZXNhbHRzb21lc2FsdA$"));
    assert_eq!(cryptoscope::api::auth::admin_password_hash("correct horse battery", salt).unwrap(), hash);
    let admin = AdminCredentials { username: "admin".to_string(), password_hash: hash };
    let good = LoginRequest { username: "admin".to_string(), password: "correct horse battery".to_string() };
    assert_eq!(check_credentials(&good, &admin), Ok(()));
    let bad = LoginRequest { username: "admin".to_string(), password: "wrong horse battery".to_string() };
    assert_eq!(check_credentials(&bad, &admin), Err(AuthError::WrongCredentials));
    let refused = cryptoscope::api::auth::admin_password_hash("pw", "!").unwrap_err();
    assert!(refused.starts_with("Failed to hash password: "));
    let too_short = cryptoscope::api::auth::admin_password_hash("correct horse battery", "c29tZXNhbA").unwrap_err();
    assert!(too_short.starts_with("Failed to hash password: "));
    let not_b64 = cryptoscope::api::auth::admin_password_hash("correct horse battery", "c29tZXNhbHRzb21lc2Fsd.").unwrap_err();
    assert!(not_b64.starts_with("Failed to hash password: "));
    let long_salt = cryptoscope::api::auth::admin_password_hash("correct horse battery", "c29tZXNhbHRzb21lc2FsdHNvbWVzYWx0");
    assert!(long_salt.is_ok());
}

#[test]
fn short_passwords_are_flagged() {
    assert!(cryptoscope::api::auth::is_short_password("elevenchars"));
    assert!(!cryptoscope::api::auth::is_short_password("twelve chars"));
    assert!(cryptoscope::api::auth::is_short_password("ééééé"));
}
