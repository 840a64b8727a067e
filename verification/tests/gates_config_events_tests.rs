use tgcloud::config::{validate_config, Config};
use tgcloud::errors::ConfigError;
use tgcloud::events::{ProgressCounter, ProgressWrapper};
use tgcloud::gates::{
    build_per_bot_gates, release_admitted, try_admit, Gate, DEFAULT_MAX_GLOBAL_CONCURRENCY,
    DEFAULT_MAX_PER_BOT_CONCURRENCY,
};
use tgcloud::models::BotConfig;

#[test]
fn gate_grants_up_to_capacity() {
    let mut g = Gate::new(2);
    assert!(g.try_acquire());
    assert!(g.try_acquire());
    assert!(!g.try_acquire());
    g.release();
    assert!(g.try_acquire());
}

#[test]
fn admission_takes_both_gates_or_neither() {
    let mut global = Gate::new(1);
    let mut bot = Gate::new(1);
    assert!(try_admit(&mut global, &mut bot));
    assert_eq!(global.in_flight, 1);
    assert_eq!(bot.in_flight, 1);
    // the global gate is full: nothing is admitted and the bot gate stays free
    let mut other_bot = Gate::new(1);
    assert!(!try_admit(&mut global, &mut other_bot));
    assert_eq!(other_bot.in_flight, 0);
    release_admitted(&mut global, &mut bot);
    assert_eq!(global.in_flight, 0);
    assert_eq!(bot.in_flight, 0);
}

#[test]
fn saturated_bot_gate_rolls_back_the_global_permit() {
    let mut global = Gate::new(12);
    let mut bot = Gate::new(0);
    assert!(!try_admit(&mut global, &mut bot));
    assert_eq!(global.in_flight, 0);
}

#[test]
fn per_bot_gates_one_per_id() {
    let ids = vec![String::from("b1"), String::from("b2")];
    let gates = build_per_bot_gates(&ids, 3);
    assert_eq!(gates.entries.len(), 2);
    assert_eq!(gates.entries[0].0, "b1");
    assert_eq!(gates.entries[0].1.capacity, 3);
    assert_eq!(gates.find("b2"), Some(1));
    assert_eq!(gates.find("b9"), None);
}

#[test]
fn progress_counter_accumulates() {
    let counter = ProgressCounter::new();
    assert_eq!(counter.get(), 0);
    counter.add(100);
    counter.add(24);
    assert_eq!(counter.get(), 124);
    // a clone shares the same underlying counter
    let shared = counter.clone();
    shared.add(1);
    assert_eq!(counter.get(), 125);
    let wrapped = ProgressWrapper::new(vec![0u8; 4], counter);
    assert_eq!(wrapped.inner.len(), 4);
}

#[test]
fn config_requires_uri_chat_and_bots() {
    let bots = vec![BotConfig { bot_id: String::from("b1"), token: String::from("t") }];
    match validate_config(None, None, Some(String::from("chat")), bots.clone()) {
        Err(ConfigError::MissingEnvVar(v)) => assert_eq!(v, "MONGO_URI"),
        other => panic!("expected MissingEnvVar, got {:?}", other),
    }
    match validate_config(
        Some(String::from("  ")),
        None,
        Some(String::from("chat")),
        bots.clone(),
    ) {
        Err(ConfigError::MissingEnvVar(v)) => assert_eq!(v, "MONGO_URI"),
        other => panic!("expected MissingEnvVar, got {:?}", other),
    }
    match validate_config(Some(String::from("mongodb://x")), None, None, bots.clone()) {
        Err(ConfigError::MissingEnvVar(v)) => assert_eq!(v, "TELEGRAM_CHAT_ID"),
        other => panic!("expected MissingEnvVar, got {:?}", other),
    }
    assert!(matches!(
        validate_config(
            Some(String::from("mongodb://x")),
            None,
            Some(String::from("chat")),
            Vec::new(),
        ),
        Err(ConfigError::NoValidBotConfig)
    ));
    let cfg: Config = validate_config(
        Some(String::from("mongodb://x")),
        None,
        Some(String::from("chat")),
        bots,
    )
    .unwrap();
    assert_eq!(cfg.telegram_api_url, "http://localhost:8081");
    assert_eq!(cfg.max_global_concurrency, DEFAULT_MAX_GLOBAL_CONCURRENCY);
    assert_eq!(cfg.max_per_bot_concurrency, DEFAULT_MAX_PER_BOT_CONCURRENCY);
}
