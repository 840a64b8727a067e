use tgcloud::errors::TgCloudError;
use tgcloud::protocol::{
    delete_message_decision, delete_outcome, resolve_download_decision, send_document_decision,
};

#[test]
fn send_document_success_yields_ids() {
    let r = send_document_decision(200, Some(true), Some(String::from("F17")), Some(99));
    let (file_id, message_id) = r.unwrap();
    assert_eq!(file_id, "F17");
    assert_eq!(message_id, 99);
}

#[test]
fn send_document_transient_statuses_are_retryable_errors() {
    assert!(matches!(
        send_document_decision(429, Some(true), None, None),
        Err(TgCloudError::RateLimited(_))
    ));
    assert!(matches!(
        send_document_decision(503, Some(true), None, None),
        Err(TgCloudError::ServerError(503))
    ));
}

#[test]
fn send_document_rejects_bad_replies() {
    match send_document_decision(403, Some(true), None, None) {
        Err(TgCloudError::UploadFailed(m)) => assert_eq!(m, "Telegram API error (HTTP 403)"),
        other => panic!("expected UploadFailed, got {:?}", other),
    }
    match send_document_decision(200, Some(false), Some(String::from("F")), Some(1)) {
        Err(TgCloudError::UploadFailed(m)) => assert_eq!(m, "Telegram API error: response not ok"),
        other => panic!("expected UploadFailed, got {:?}", other),
    }
    match send_document_decision(200, Some(true), None, Some(1)) {
        Err(TgCloudError::UploadFailed(m)) => assert_eq!(m, "No file_id in response"),
        other => panic!("expected UploadFailed, got {:?}", other),
    }
    match send_document_decision(200, Some(true), Some(String::from("F")), None) {
        Err(TgCloudError::UploadFailed(m)) => assert_eq!(m, "No message_id in response"),
        other => panic!("expected UploadFailed, got {:?}", other),
    }
}

#[test]
fn resolve_download_builds_the_url() {
    let r = resolve_download_decision(
        "http://localhost:8081",
        "token123",
        Some(String::from("documents/file_7.bin")),
    );
    assert_eq!(
        r.unwrap(),
        "http://localhost:8081/file/bottoken123/documents/file_7.bin"
    );
    assert!(matches!(
        resolve_download_decision("http://localhost:8081", "token123", None),
        Err(TgCloudError::DownloadFailed(_))
    ));
}

#[test]
fn delete_message_requires_a_2xx() {
    assert!(delete_message_decision(200).is_ok());
    assert!(delete_message_decision(204).is_ok());
    match delete_message_decision(500) {
        Err(TgCloudError::DeleteFailed(m)) => assert_eq!(m, "Delete failed: HTTP 500"),
        other => panic!("expected DeleteFailed, got {:?}", other),
    }
}

#[test]
fn partial_delete_failure_enumerates_counts() {
    assert!(delete_outcome(&Vec::new(), 3).is_ok());
    let errors = vec![String::from("Delete failed: HTTP 502")];
    match delete_outcome(&errors, 3) {
        Err(TgCloudError::DeleteFailed(m)) => {
            assert_eq!(
                m,
                "Partial delete failure (1/3 chunks failed): Delete failed: HTTP 502"
            );
        }
        other => panic!("expected DeleteFailed, got {:?}", other),
    }
    let two = vec![String::from("boom"), String::from("bang")];
    match delete_outcome(&two, 5) {
        Err(TgCloudError::DeleteFailed(m)) => {
            assert_eq!(m, "Partial delete failure (2/5 chunks failed): boom; bang");
        }
        other => panic!("expected DeleteFailed, got {:?}", other),
    }
}
