use tgcloud::errors::TgCloudError;
use tgcloud::models::{Bot, FileChunk, FileMetadata};
use tgcloud::roster::{active_bots_sorted, get_upload_bot, unique_bot_ids, BotManager};
use tgcloud::storage::MongoStore;

fn bot(id: &str, count: u64, active: bool) -> Bot {
    Bot { bot_id: String::from(id), token: format!("tok-{}", id), upload_count: count, active }
}

fn meta(name: &str, id: &str) -> FileMetadata {
    FileMetadata {
        file_id: String::from(id),
        original_name: String::from(name),
        size: 0,
        chunk_size: 10,
        total_chunks: 1,
        sha256: String::from(
            "e3b0c44298fc1c149afbf4c8996fb92427ae41e4649b934ca495991b7852b855",
        ),
        chunks: vec![FileChunk {
            index: 0,
            bot_id: String::from("b1"),
            telegram_file_id: String::from("0"),
            message_id: 0,
            size: 0,
        }],
        created_at: 0,
    }
}

#[test]
fn save_and_get_by_path_and_id() {
    let mut store = MongoStore::new();
    store.save_file(meta("a.bin", "id-a")).unwrap();
    assert!(store.get_file_by_path("a.bin").is_some());
    assert!(store.get_file_by_path("b.bin").is_none());
    assert!(store.get_file_by_id("id-a").is_some());
    assert!(store.get_file_by_id("id-b").is_none());
    // a second record under the same name is refused
    assert!(matches!(
        store.save_file(meta("a.bin", "id-b")),
        Err(TgCloudError::Unknown(_))
    ));
}

#[test]
fn rename_updates_exactly_one_record() {
    let mut store = MongoStore::new();
    store.save_file(meta("a.bin", "id-a")).unwrap();
    store.save_file(meta("b.bin", "id-b")).unwrap();
    assert!(matches!(
        store.rename_file("a.bin", "b.bin"),
        Err(TgCloudError::Unknown(_))
    ));
    assert!(matches!(
        store.rename_file("missing.bin", "c.bin"),
        Err(TgCloudError::FileNotFound(_))
    ));
    store.rename_file("a.bin", "c.bin").unwrap();
    assert!(store.get_file_by_path("a.bin").is_none());
    assert_eq!(store.get_file_by_path("c.bin").unwrap().file_id, "id-a");
}

#[test]
fn rename_by_id_checks_the_new_name() {
    let mut store = MongoStore::new();
    store.save_file(meta("a.bin", "id-a")).unwrap();
    store.save_file(meta("b.bin", "id-b")).unwrap();
    assert!(matches!(
        store.rename_file_by_id("id-a", "b.bin"),
        Err(TgCloudError::Unknown(_))
    ));
    store.rename_file_by_id("id-a", "c.bin").unwrap();
    assert_eq!(store.get_file_by_path("c.bin").unwrap().file_id, "id-a");
}

#[test]
fn delete_by_path_and_by_id() {
    let mut store = MongoStore::new();
    store.save_file(meta("a.bin", "id-a")).unwrap();
    store.save_file(meta("b.bin", "id-b")).unwrap();
    store.delete_file("a.bin").unwrap();
    assert!(store.get_file_by_path("a.bin").is_none());
    assert!(matches!(
        store.delete_file("a.bin"),
        Err(TgCloudError::FileNotFound(_))
    ));
    store.delete_file_by_id("id-b").unwrap();
    assert!(store.files.is_empty());
}

#[test]
fn list_files_prefix_and_root() {
    let mut store = MongoStore::new();
    store.save_file(meta("docs/a.bin", "id-a")).unwrap();
    store.save_file(meta("docs/b.bin", "id-b")).unwrap();
    store.save_file(meta("img/c.bin", "id-c")).unwrap();
    assert_eq!(store.list_files("root").len(), 3);
    assert_eq!(store.list_files("").len(), 3);
    assert_eq!(store.list_files("docs/").len(), 2);
    assert_eq!(store.list_files("img/").len(), 1);
}

#[test]
fn add_bot_registers_and_updates() {
    let mut store = MongoStore::new();
    store.add_bot(bot("b1", 0, true));
    store.add_bot(bot("b2", 0, true));
    assert_eq!(store.bots.len(), 2);
    store.increment_bot_usage("b1").unwrap();
    store.increment_bot_usage("b1").unwrap();
    assert_eq!(store.bots[0].upload_count, 2);
    // re-registering keeps the usage counter but takes the new token
    let mut again = bot("b1", 0, false);
    again.token = String::from("rotated");
    store.add_bot(again);
    assert_eq!(store.bots.len(), 2);
    assert_eq!(store.bots[0].upload_count, 2);
    assert_eq!(store.bots[0].token, "rotated");
    assert!(!store.bots[0].active);
}

#[test]
fn active_set_is_sorted_by_bot_id() {
    let bots = vec![
        bot("zeta", 0, true),
        bot("alpha", 9, true),
        bot("mid", 3, false),
        bot("beta", 1, true),
    ];
    let sorted = active_bots_sorted(&bots);
    let ids: Vec<&str> = sorted.iter().map(|b| b.bot_id.as_str()).collect();
    assert_eq!(ids, vec!["alpha", "beta", "zeta"]);
}

#[test]
fn upload_bot_is_least_used_with_id_tiebreak() {
    let bots = vec![bot("b3", 2, true), bot("b2", 1, true), bot("b1", 1, true)];
    assert_eq!(get_upload_bot(&bots).unwrap().bot_id, "b1");
    let none: Vec<Bot> = vec![bot("b1", 0, false)];
    assert!(matches!(
        get_upload_bot(&none),
        Err(TgCloudError::BotManagerError(_))
    ));
}

#[test]
fn token_cache_refresh_and_lookup() {
    let mut mgr = BotManager::new();
    assert!(mgr.get_bot_token("b1").is_none());
    mgr.refresh_cache(&vec![bot("b1", 0, true), bot("b2", 0, true)]);
    assert_eq!(mgr.get_bot_token("b1").unwrap(), "tok-b1");
    assert_eq!(mgr.get_bot_token("b2").unwrap(), "tok-b2");
    assert!(mgr.get_bot_token("b3").is_none());

    let m = mgr
        .get_token_map(&vec![String::from("b2"), String::from("b1")])
        .unwrap();
    assert_eq!(m.entries.len(), 2);
    assert_eq!(m.entries[0].1, "tok-b2");
    match mgr.get_token_map(&vec![String::from("b9")]) {
        Err(TgCloudError::BotManagerError(msg)) => assert_eq!(msg, "Bot b9 not found"),
        other => panic!("expected BotManagerError, got {:?}", other),
    }
}

#[test]
fn unique_ids_keep_first_appearance_order() {
    let chunk = |i: u32, b: &str| FileChunk {
        index: i,
        bot_id: String::from(b),
        telegram_file_id: format!("{}", i),
        message_id: i as i64,
        size: 1,
    };
    let chunks = vec![
        chunk(0, "b2"),
        chunk(1, "b1"),
        chunk(2, "b2"),
        chunk(3, "b3"),
        chunk(4, "b1"),
    ];
    let ids = unique_bot_ids(&chunks);
    assert_eq!(ids, vec!["b2", "b1", "b3"]);
}
