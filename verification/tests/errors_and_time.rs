use kucoin_rs::kucoin::error::APIError;
use mint_trader::error::{KucoinApiError, KucoinClientError, KucoinErrorKind, MintError, MiscError};
use mint_trader::exchange::api_credentials::ApiCredentials;
use mint_trader::utils::time::{get_ms, get_ms_str, ms_to_str};

#[test]
fn misc_error_gives_its_message_back() {
    let mut e = MiscError::from("out of luck".to_string());
    assert_eq!(e.get_fmt_error(), "out of luck");
    assert_eq!(e.get_fmt_error(), "out of luck");
    let mut e = MiscError::from(String::new());
    assert_eq!(e.get_fmt_error(), "");
}

#[test]
fn error_from_a_message_is_other() {
    let mut e = MintError::from_str("bad input".to_string());
    assert!(matches!(e, MintError::Other(_)));
    assert_eq!(e.get_fmt_error(), "bad input");
}

#[test]
fn api_error_is_filed_as_api_error() {
    let kind: KucoinErrorKind = APIError::Other("rate limit".to_string()).into();
    assert!(matches!(kind, KucoinErrorKind::Api(_)));
    let mut e = MintError::from_kucoin_err(kind);
    assert!(matches!(e, MintError::KucoinApiError(_)));
    assert_eq!(e.get_fmt_error(), "rate limit");
    let e = KucoinApiError::from(APIError::Other("again".to_string()));
    assert_eq!(e.to_string(), "again");
}

#[test]
fn api_error_shows_its_cause_alone() {
    let cause = serde_json::from_str::<u32>("x").unwrap_err();
    let text = cause.to_string();
    let e = KucoinApiError::from(APIError::Serde(cause));
    assert_eq!(e.to_string(), text);
}

#[test]
fn client_failure_is_filed_as_client_error() {
    let failure = kucoin_rs::failure::err_msg("no route");
    let kind: KucoinErrorKind = failure.into();
    assert!(matches!(kind, KucoinErrorKind::Client(_)));
    let mut e = MintError::from_kucoin_err(kind);
    assert!(matches!(e, MintError::KucoinClientError(_)));
    assert_eq!(e.get_fmt_error(), "no route");
    let e = KucoinClientError::from(kucoin_rs::failure::err_msg("closed"));
    assert_eq!(e.to_string(), "closed");
}

#[test]
fn every_error_has_the_text_of_what_it_holds() {
    let cause = "x".parse::<i32>().unwrap_err();
    let text = cause.to_string();
    assert_eq!(MintError::ParseIntError(cause).get_fmt_error(), text);
    let cause = "x".parse::<f32>().unwrap_err();
    let text = cause.to_string();
    assert_eq!(MintError::ParseFloatError(cause).get_fmt_error(), text);
    let cause = serde_json::from_str::<u32>("{").unwrap_err();
    let text = cause.to_string();
    assert_eq!(MintError::Serde(cause).get_fmt_error(), text);
    let cause = std::io::Error::new(std::io::ErrorKind::Other, "disk");
    assert_eq!(MintError::IoError(cause).get_fmt_error(), "disk");
    let later = std::time::SystemTime::now() + std::time::Duration::from_secs(60);
    let cause = std::time::SystemTime::now().duration_since(later).unwrap_err();
    let text = cause.to_string();
    assert_eq!(MintError::SystemTimeError(cause).get_fmt_error(), text);
}

#[test]
fn credentials_are_copied_field_by_field() {
    let credentials = ApiCredentials {
        name: "main".to_string(),
        api_key: "key".to_string(),
        api_secret: "secret".to_string(),
        api_pass: "pass".to_string(),
    };
    let copy = credentials.clone();
    assert_eq!(copy.name, "main");
    assert_eq!(copy.api_key, "key");
    assert_eq!(copy.api_secret, "secret");
    assert_eq!(copy.api_pass, "pass");
}

#[test]
fn milliseconds_are_written_in_decimal() {
    assert_eq!(ms_to_str(0), "0");
    assert_eq!(ms_to_str(7), "7");
    assert_eq!(ms_to_str(10), "10");
    assert_eq!(ms_to_str(1_700_000_000_123), "1700000000123");
    assert_eq!(ms_to_str(u128::MAX), "340282366920938463463374607431768211455");
}

#[test]
fn clock_stands_behind_the_epoch() {
    let ms = get_ms().expect("the clock stands behind the epoch");
    assert!(ms > 1_600_000_000_000);
    let text = get_ms_str().expect("the clock stands behind the epoch");
    let again: u128 = text.parse().expect("decimal text");
    assert!(again >= ms);
    assert_eq!(ms_to_str(again), text);
}
