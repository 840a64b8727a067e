use tgcloud::errors::TgCloudError;
use tgcloud::events::{DownloadEvent, DownloadStatus, UploadEvent, UploadStatus};
use tgcloud::models::{Bot, FileChunk};
use tgcloud::service::{collect_upload_results, TgCloudService};

fn bot(id: &str, count: u64, active: bool) -> Bot {
    Bot { bot_id: String::from(id), token: format!("token-{}", id), upload_count: count, active }
}

/// An engine with a 10-byte chunk ceiling and three active bots.
fn small_engine() -> TgCloudService {
    let mut svc = TgCloudService::new(String::from("chat"), 10, 12, 3);
    svc.register_bot(bot("b1", 0, true));
    svc.register_bot(bot("b2", 0, true));
    svc.register_bot(bot("b3", 0, true));
    svc
}

#[test]
fn upload_then_download_round_trips() {
    let mut svc = small_engine();
    let data: Vec<u8> = (0u8..=34).collect();
    let mut up_events: Vec<UploadEvent> = Vec::new();
    let fid = svc
        .upload_file("docs/report.bin", &data, 1_700_000_000, &mut up_events)
        .unwrap();
    assert_eq!(fid.len(), 36);

    let mut down_events: Vec<DownloadEvent> = Vec::new();
    let fetched = svc.download_file("docs/report.bin", &mut down_events).unwrap();
    assert_eq!(fetched, data);
}

#[test]
fn upload_rename_download_round_trips() {
    let mut svc = small_engine();
    let data: Vec<u8> = vec![9; 25];
    let mut up_events: Vec<UploadEvent> = Vec::new();
    svc.upload_file("a.bin", &data, 7, &mut up_events).unwrap();
    svc.rename_file("a.bin", "b_new.bin").unwrap();
    let mut down_events: Vec<DownloadEvent> = Vec::new();
    let fetched = svc.download_file("b_new.bin", &mut down_events).unwrap();
    assert_eq!(fetched, data);
    let mut more_events: Vec<DownloadEvent> = Vec::new();
    assert!(matches!(
        svc.download_file("a.bin", &mut more_events),
        Err(TgCloudError::FileNotFound(_))
    ));
}

#[test]
fn empty_file_round_trips_through_one_zero_chunk() {
    let mut svc = small_engine();
    let data: Vec<u8> = Vec::new();
    let mut up_events: Vec<UploadEvent> = Vec::new();
    svc.upload_file("empty.bin", &data, 0, &mut up_events).unwrap();
    let meta = svc.store.get_file_by_path("empty.bin").unwrap();
    assert_eq!(meta.total_chunks, 1);
    assert_eq!(meta.chunks.len(), 1);
    assert_eq!(meta.chunks[0].size, 0);
    let mut down_events: Vec<DownloadEvent> = Vec::new();
    let fetched = svc.download_file("empty.bin", &mut down_events).unwrap();
    assert!(fetched.is_empty());
}

#[test]
fn upload_emits_started_hashing_hash_complete_completed() {
    let mut svc = small_engine();
    let data: Vec<u8> = vec![1, 2, 3];
    let mut events: Vec<UploadEvent> = Vec::new();
    let fid = svc.upload_file("one.bin", &data, 0, &mut events).unwrap();
    assert_eq!(events.len(), 4);
    match &events[0].status {
        UploadStatus::Started { total_size, total_chunks, .. } => {
            assert_eq!(*total_size, 3);
            assert_eq!(*total_chunks, 1);
        }
        other => panic!("expected Started, got {:?}", other),
    }
    assert!(matches!(events[1].status, UploadStatus::Hashing));
    match &events[2].status {
        UploadStatus::HashComplete { sha256 } => {
            assert_eq!(sha256.len(), 64);
            assert_eq!(
                sha256,
                "039058c6f2c0cb492c533b0a4d14ef77cc0f78abccced5287d84a1a2011cfb81"
            );
        }
        other => panic!("expected HashComplete, got {:?}", other),
    }
    match &events[3].status {
        UploadStatus::Completed { file_id } => assert_eq!(*file_id, fid),
        other => panic!("expected Completed, got {:?}", other),
    }
}

#[test]
fn download_emits_started_merging_verifying_completed() {
    let mut svc = small_engine();
    let data: Vec<u8> = vec![5; 15];
    let mut up_events: Vec<UploadEvent> = Vec::new();
    svc.upload_file("two.bin", &data, 0, &mut up_events).unwrap();
    let mut events: Vec<DownloadEvent> = Vec::new();
    svc.download_file("two.bin", &mut events).unwrap();
    assert_eq!(events.len(), 4);
    match &events[0].status {
        DownloadStatus::Started { total_size, total_chunks, .. } => {
            assert_eq!(*total_size, 15);
            assert_eq!(*total_chunks, 2);
        }
        other => panic!("expected Started, got {:?}", other),
    }
    assert!(matches!(events[1].status, DownloadStatus::Merging));
    assert!(matches!(events[2].status, DownloadStatus::Verifying));
    assert!(matches!(events[3].status, DownloadStatus::Completed { .. }));
}

#[test]
fn multi_chunk_upload_assigns_bots_round_robin() {
    let mut svc = small_engine();
    // 35 bytes over a 10-byte ceiling: 4 chunks over 3 bots, sorted b1 b2 b3.
    let data: Vec<u8> = vec![7; 35];
    let mut events: Vec<UploadEvent> = Vec::new();
    svc.upload_file("big.bin", &data, 0, &mut events).unwrap();
    let meta = svc.store.get_file_by_path("big.bin").unwrap();
    assert_eq!(meta.total_chunks, 4);
    let ids: Vec<&str> = meta.chunks.iter().map(|c| c.bot_id.as_str()).collect();
    assert_eq!(ids, vec!["b1", "b2", "b3", "b1"]);
}

#[test]
fn three_chunks_over_three_bots_in_index_order() {
    let mut svc = small_engine();
    let data: Vec<u8> = vec![3; 30];
    let mut events: Vec<UploadEvent> = Vec::new();
    svc.upload_file("three.bin", &data, 0, &mut events).unwrap();
    let meta = svc.store.get_file_by_path("three.bin").unwrap();
    assert_eq!(meta.total_chunks, 3);
    let ids: Vec<&str> = meta.chunks.iter().map(|c| c.bot_id.as_str()).collect();
    assert_eq!(ids, vec!["b1", "b2", "b3"]);
    // exactly three blob-tier documents were posted
    assert_eq!(svc.telegram.entries.len(), 3);
}

#[test]
fn single_chunk_upload_uses_least_used_bot() {
    let mut svc = TgCloudService::new(String::from("chat"), 10, 12, 3);
    svc.register_bot(bot("b1", 5, true));
    svc.register_bot(bot("b2", 1, true));
    svc.register_bot(bot("b3", 1, true));
    let data: Vec<u8> = vec![1; 4];
    let mut events: Vec<UploadEvent> = Vec::new();
    svc.upload_file("small.bin", &data, 0, &mut events).unwrap();
    let meta = svc.store.get_file_by_path("small.bin").unwrap();
    // ties break by bot id order: b2 before b3
    assert_eq!(meta.chunks[0].bot_id, "b2");
}

#[test]
fn upload_without_active_bots_fails_and_commits_nothing() {
    let mut svc = TgCloudService::new(String::from("chat"), 10, 12, 3);
    svc.register_bot(bot("b1", 0, false));
    let data: Vec<u8> = vec![1; 4];
    let mut events: Vec<UploadEvent> = Vec::new();
    let r = svc.upload_file("x.bin", &data, 0, &mut events);
    assert!(matches!(r, Err(TgCloudError::BotManagerError(_))));
    assert!(svc.store.files.is_empty());
    assert!(svc.telegram.entries.is_empty());
    assert!(matches!(events[3].status, UploadStatus::Failed { .. }));
}

#[test]
fn upload_to_taken_name_fails_without_state_change() {
    let mut svc = small_engine();
    let data: Vec<u8> = vec![1; 4];
    let mut events: Vec<UploadEvent> = Vec::new();
    svc.upload_file("dup.bin", &data, 0, &mut events).unwrap();
    let blobs_before = svc.telegram.entries.len();
    let mut events2: Vec<UploadEvent> = Vec::new();
    let r = svc.upload_file("dup.bin", &data, 0, &mut events2);
    assert!(matches!(r, Err(TgCloudError::Unknown(_))));
    assert_eq!(svc.store.files.len(), 1);
    assert_eq!(svc.telegram.entries.len(), blobs_before);
    assert!(matches!(events2[3].status, UploadStatus::Failed { .. }));
}

#[test]
fn delete_removes_metadata_and_every_blob() {
    let mut svc = small_engine();
    let data: Vec<u8> = vec![8; 25];
    let mut events: Vec<UploadEvent> = Vec::new();
    svc.upload_file("gone.bin", &data, 0, &mut events).unwrap();
    assert_eq!(svc.telegram.entries.len(), 3);
    svc.delete_file("gone.bin").unwrap();
    assert!(svc.store.files.is_empty());
    assert!(svc.telegram.entries.is_empty());
    assert!(matches!(
        svc.delete_file("gone.bin"),
        Err(TgCloudError::FileNotFound(_))
    ));
}

#[test]
fn delete_leaves_other_files_downloadable() {
    let mut svc = small_engine();
    let keep: Vec<u8> = (0u8..25).collect();
    let drop: Vec<u8> = vec![1; 12];
    let mut events: Vec<UploadEvent> = Vec::new();
    svc.upload_file("keep.bin", &keep, 0, &mut events).unwrap();
    svc.upload_file("drop.bin", &drop, 0, &mut events).unwrap();
    svc.delete_file("drop.bin").unwrap();
    let mut down_events: Vec<DownloadEvent> = Vec::new();
    let fetched = svc.download_file("keep.bin", &mut down_events).unwrap();
    assert_eq!(fetched, keep);
}

#[test]
fn rename_to_existing_name_is_refused_with_no_change() {
    let mut svc = small_engine();
    let mut events: Vec<UploadEvent> = Vec::new();
    svc.upload_file("a.bin", &vec![1; 4], 0, &mut events).unwrap();
    svc.upload_file("b.bin", &vec![2; 4], 0, &mut events).unwrap();
    let r = svc.rename_file("a.bin", "b.bin");
    assert!(matches!(r, Err(TgCloudError::Unknown(_))));
    assert!(svc.store.get_file_by_path("a.bin").is_some());
    assert!(svc.store.get_file_by_path("b.bin").is_some());
}

#[test]
fn corrupted_blob_fails_integrity_and_is_reported() {
    let mut svc = small_engine();
    let data: Vec<u8> = vec![4; 8];
    let mut events: Vec<UploadEvent> = Vec::new();
    svc.upload_file("frail.bin", &data, 0, &mut events).unwrap();
    // corrupt the stored payload behind the engine's back
    svc.telegram.entries[0].data[0] ^= 0xff;
    let mut down_events: Vec<DownloadEvent> = Vec::new();
    match svc.download_file("frail.bin", &mut down_events) {
        Err(TgCloudError::IntegrityFailed { expected, actual }) => {
            assert_ne!(expected, actual);
            assert_eq!(expected.len(), 64);
            assert_eq!(actual.len(), 64);
        }
        other => panic!("expected IntegrityFailed, got {:?}", other),
    }
    assert!(matches!(
        down_events.last().unwrap().status,
        DownloadStatus::Failed { .. }
    ));
}

#[test]
fn list_files_filters_by_anchored_prefix() {
    let mut svc = small_engine();
    let mut events: Vec<UploadEvent> = Vec::new();
    svc.upload_file("docs/a.bin", &vec![1], 0, &mut events).unwrap();
    svc.upload_file("docs/b.bin", &vec![2], 0, &mut events).unwrap();
    svc.upload_file("img/c.bin", &vec![3], 0, &mut events).unwrap();
    assert_eq!(svc.list_files("root").len(), 3);
    assert_eq!(svc.list_files("").len(), 3);
    assert_eq!(svc.list_files("docs/").len(), 2);
    assert_eq!(svc.list_files("img/").len(), 1);
    assert_eq!(svc.list_files("none/").len(), 0);
}

#[test]
fn drained_results_keep_all_successes_and_first_error() {
    let chunk = |i: u32| FileChunk {
        index: i,
        bot_id: format!("b{}", i % 3 + 1),
        telegram_file_id: format!("{}", i),
        message_id: i as i64,
        size: 10,
    };
    let results: Vec<Result<FileChunk, TgCloudError>> = vec![
        Ok(chunk(0)),
        Err(TgCloudError::ServerError(502)),
        Ok(chunk(2)),
        Err(TgCloudError::RateLimited(String::from("HTTP 429"))),
        Ok(chunk(4)),
    ];
    let (kept, first) = collect_upload_results(results);
    // every successful chunk is known for rollback, even after the failure
    let kept_ids: Vec<u32> = kept.iter().map(|c| c.index).collect();
    assert_eq!(kept_ids, vec![0, 2, 4]);
    assert!(matches!(first, Some(TgCloudError::ServerError(502))));
}

#[test]
fn upload_increments_participating_bot_usage() {
    let mut svc = small_engine();
    let data: Vec<u8> = vec![6; 25];
    let mut events: Vec<UploadEvent> = Vec::new();
    svc.upload_file("count.bin", &data, 0, &mut events).unwrap();
    // three chunks over three bots: each handled one
    for b in &svc.store.bots {
        assert_eq!(b.upload_count, 1);
    }
}

#[test]
fn hundred_mib_upload_is_a_single_chunk_with_exact_events() {
    let mut svc = TgCloudService::new(String::from("chat"), tgcloud::CHUNK_SIZE, 12, 3);
    svc.register_bot(bot("b1", 0, true));
    let data: Vec<u8> = vec![0u8; 104_857_600];
    let mut events: Vec<UploadEvent> = Vec::new();
    let fid = svc.upload_file("huge.bin", &data, 0, &mut events).unwrap();
    match &events[0].status {
        UploadStatus::Started { total_size, total_chunks, .. } => {
            assert_eq!(*total_size, 104_857_600);
            assert_eq!(*total_chunks, 1);
        }
        other => panic!("expected Started, got {:?}", other),
    }
    assert!(matches!(events[1].status, UploadStatus::Hashing));
    match &events[2].status {
        UploadStatus::HashComplete { sha256 } => assert_eq!(sha256.len(), 64),
        other => panic!("expected HashComplete, got {:?}", other),
    }
    assert!(matches!(events[3].status, UploadStatus::Completed { .. }));
    assert_eq!(fid.len(), 36);
    let meta = svc.store.get_file_by_path("huge.bin").unwrap();
    assert_eq!(meta.size, 104_857_600);
    assert_eq!(meta.chunks.len(), 1);
}
