use tgcloud::errors::TgCloudError;
use tgcloud::retry::{
    backoff_delay, backoff_delay_with_jitter, check_transient_status, is_retryable, retry_step,
    run_retry, RetryStep, BASE_DELAY_MS, MAX_RETRIES,
};

fn rate_limited() -> TgCloudError {
    TgCloudError::RateLimited(String::from("HTTP 429"))
}

#[test]
fn rate_limited_every_attempt_exhausts_after_five() {
    let outcomes: Vec<Result<u64, TgCloudError>> =
        (0..5).map(|_| Err(rate_limited())).collect();
    match run_retry(outcomes) {
        Err(TgCloudError::RetryExhausted { attempts, last_error }) => {
            assert_eq!(attempts, 5);
            assert_eq!(last_error, "Rate limited: HTTP 429");
        }
        other => panic!("expected RetryExhausted, got {:?}", other),
    }
}

#[test]
fn rate_limited_three_times_then_success() {
    let outcomes: Vec<Result<u64, TgCloudError>> = vec![
        Err(rate_limited()),
        Err(rate_limited()),
        Err(rate_limited()),
        Ok(42),
        Err(rate_limited()),
    ];
    assert_eq!(run_retry(outcomes).unwrap(), 42);
}

#[test]
fn terminal_error_short_circuits() {
    let outcomes: Vec<Result<u64, TgCloudError>> = vec![
        Err(rate_limited()),
        Err(TgCloudError::FileNotFound(String::from("a.bin"))),
        Ok(7),
        Ok(7),
        Ok(7),
    ];
    match run_retry(outcomes) {
        Err(TgCloudError::FileNotFound(name)) => assert_eq!(name, "a.bin"),
        other => panic!("expected FileNotFound, got {:?}", other),
    }
}

#[test]
fn transient_status_classification() {
    assert!(matches!(
        check_transient_status(429),
        Err(TgCloudError::RateLimited(_))
    ));
    assert!(matches!(
        check_transient_status(500),
        Err(TgCloudError::ServerError(500))
    ));
    assert!(matches!(
        check_transient_status(503),
        Err(TgCloudError::ServerError(503))
    ));
    assert!(check_transient_status(200).is_ok());
    assert!(check_transient_status(404).is_ok());
}

#[test]
fn retryable_classes_are_network_429_and_5xx() {
    assert!(is_retryable(&TgCloudError::TelegramError(String::from("timeout"))));
    assert!(is_retryable(&rate_limited()));
    assert!(is_retryable(&TgCloudError::ServerError(502)));
    assert!(!is_retryable(&TgCloudError::FileNotFound(String::from("x"))));
    assert!(!is_retryable(&TgCloudError::UploadFailed(String::from("bad"))));
    assert!(!is_retryable(&TgCloudError::IntegrityFailed {
        expected: String::from("a"),
        actual: String::from("b"),
    }));
}

#[test]
fn backoff_doubles_with_bounded_jitter() {
    assert_eq!(backoff_delay_with_jitter(0, 0), 1_000);
    assert_eq!(backoff_delay_with_jitter(1, 250), 2_250);
    assert_eq!(backoff_delay_with_jitter(2, -1_000), 3_000);
    assert_eq!(backoff_delay_with_jitter(4, 0), 16_000);
    // the floor applies when the jitter pulls the delay below it
    assert_eq!(backoff_delay_with_jitter(0, -950), 100);
    for attempt in 0..MAX_RETRIES {
        let base = BASE_DELAY_MS * (1u64 << attempt);
        for _ in 0..20 {
            let ms = backoff_delay(attempt);
            assert!(ms >= base - base / 4);
            assert!(ms <= base + base / 4);
        }
    }
}

#[test]
fn retry_step_decides_give_up_backoff_exhaust() {
    match retry_step(0, TgCloudError::FileNotFound(String::from("x"))) {
        RetryStep::GiveUp(TgCloudError::FileNotFound(n)) => assert_eq!(n, "x"),
        other => panic!("expected GiveUp, got {:?}", step_name(&other)),
    }
    match retry_step(0, rate_limited()) {
        RetryStep::Backoff(ms) => assert!((750..=1250).contains(&ms)),
        other => panic!("expected Backoff, got {:?}", step_name(&other)),
    }
    match retry_step(4, rate_limited()) {
        RetryStep::Exhausted(TgCloudError::RetryExhausted { attempts, last_error }) => {
            assert_eq!(attempts, 5);
            assert_eq!(last_error, "Rate limited: HTTP 429");
        }
        other => panic!("expected Exhausted, got {:?}", step_name(&other)),
    }
}

fn step_name(s: &RetryStep) -> &'static str {
    match s {
        RetryStep::GiveUp(_) => "GiveUp",
        RetryStep::Backoff(_) => "Backoff",
        RetryStep::Exhausted(_) => "Exhausted",
    }
}
