//! Decisions over blob-tier responses. The HTTP exchange itself happens
//! outside the library; these functions take the status and the parsed
//! fields as plain values and decide exactly what each call returns.

use vstd::prelude::*;
use crate::errors::TgCloudError;
use crate::retry::check_transient_status;
use crate::strutil::{spec_dec, u64_to_dec};
use vstd::string::StringExecFns;

verus! {

/// HTTP success: a 2xx status.
pub open spec fn status_success(status: u16) -> bool {
    200 <= status <= 299
}

/// Decide the outcome of a `sendDocument` call from its HTTP status, the
/// parsed `ok` flag, and the parsed `file_id` / `message_id` fields: 429 and
/// 5xx are transient (and reported before the body is read); any other
/// non-2xx status, a missing `ok`, or missing fields fail the upload; a
/// well-formed reply yields the blob reference and message id.
pub fn send_document_decision(
    status: u16,
    ok: Option<bool>,
    file_id: Option<String>,
    message_id: Option<i64>,
) -> (r: Result<(String, i64), TgCloudError>)
    ensures
        status == 429 ==> (r matches Err(e) && e matches TgCloudError::RateLimited(_)),
        500 <= status <= 599 ==> (r matches Err(e) && e matches TgCloudError::ServerError(st) && st
            == status),
        status != 429 && !(500 <= status <= 599) && !status_success(status) ==> (r matches Err(e)
            && e matches TgCloudError::UploadFailed(m) && m@ == "Telegram API error (HTTP "@
            + spec_dec(status as int) + ")"@),
        status != 429 && !(500 <= status <= 599) && status_success(status) ==> {
            if ok != Some(true) {
                r matches Err(e) && e matches TgCloudError::UploadFailed(m) && m@
                    == "Telegram API error: response not ok"@
            } else if file_id is None {
                r matches Err(e) && e matches TgCloudError::UploadFailed(m) && m@
                    == "No file_id in response"@
            } else if message_id is None {
                r matches Err(e) && e matches TgCloudError::UploadFailed(m) && m@
                    == "No message_id in response"@
            } else {
                r matches Ok(p) && p.0 == file_id.unwrap() && p.1 == message_id.unwrap()
            }
        },
{
    match check_transient_status(status) {
        Err(e) => Err(e),
        Ok(()) => {
            if !(200 <= status && status <= 299) {
                Err(
                    TgCloudError::UploadFailed(
                        String::from_str("Telegram API error (HTTP ").concat(
                            u64_to_dec(status as u64).as_str(),
                        ).concat(")"),
                    ),
                )
            } else {
                match ok {
                    Some(true) => {
                        match (file_id, message_id) {
                            (Some(fid), Some(mid)) => Ok((fid, mid)),
                            (None, _) => Err(
                                TgCloudError::UploadFailed(
                                    String::from_str("No file_id in response"),
                                ),
                            ),
                            (Some(_), None) => Err(
                                TgCloudError::UploadFailed(
                                    String::from_str("No message_id in response"),
                                ),
                            ),
                        }
                    },
                    _ => Err(
                        TgCloudError::UploadFailed(
                            String::from_str("Telegram API error: response not ok"),
                        ),
                    ),
                }
            }
        },
    }
}

/// Decide the outcome of a `getFile` call: a missing `file_path` fails the
/// download; otherwise the download URL is
/// `<api>/file/bot<token>/<file_path>`.
pub fn resolve_download_decision(api_url: &str, token: &str, file_path: Option<String>) -> (r:
    Result<String, TgCloudError>)
    ensures
        file_path is None ==> (r matches Err(e) && e matches TgCloudError::DownloadFailed(m) && m@
            == "No file_path in Telegram response"@),
        file_path matches Some(p) ==> (r matches Ok(u) && u@ == api_url@ + "/file/bot"@ + token@
            + "/"@ + p@),
{
    match file_path {
        None => Err(
            TgCloudError::DownloadFailed(String::from_str("No file_path in Telegram response")),
        ),
        Some(p) => {
            let url = String::from_str(api_url).concat("/file/bot").concat(token).concat(
                "/",
            ).concat(p.as_str());
            Ok(url)
        },
    }
}

/// Decide the outcome of a `deleteMessage` call: any non-2xx status fails.
pub fn delete_message_decision(status: u16) -> (r: Result<(), TgCloudError>)
    ensures
        (r is Ok) == status_success(status),
        r matches Err(e) ==> (e matches TgCloudError::DeleteFailed(m) && m@
            == "Delete failed: HTTP "@ + spec_dec(status as int)),
{
    if 200 <= status && status <= 299 {
        Ok(())
    } else {
        Err(
            TgCloudError::DeleteFailed(
                String::from_str("Delete failed: HTTP ").concat(u64_to_dec(status as u64).as_str()),
            ),
        )
    }
}

/// The messages joined with `"; "` between them.
pub open spec fn spec_joined(msgs: Seq<Seq<char>>) -> Seq<char>
    decreases msgs.len(),
{
    if msgs.len() == 0 {
        Seq::empty()
    } else if msgs.len() == 1 {
        msgs[0]
    } else {
        spec_joined(msgs.drop_last()) + "; "@ + msgs.last()
    }
}

/// The error surfaced by a delete whose chunk removals partly failed:
/// metadata must stay, and the error counts the failures.
pub open spec fn spec_partial_delete_msg(failed: int, total: int, msgs: Seq<Seq<char>>) -> Seq<
    char,
> {
    "Partial delete failure ("@ + spec_dec(failed) + "/"@ + spec_dec(total) + " chunks failed): "@
        + spec_joined(msgs)
}

/// Decide the outcome of a delete run: with no failed chunk removal the
/// metadata row may go; with any failure the metadata stays and the error
/// enumerates the failure count against the chunk count and joins the
/// individual messages.
pub fn delete_outcome(errors: &Vec<String>, total_chunks: u64) -> (r: Result<(), TgCloudError>)
    ensures
        (r is Ok) == (errors@.len() == 0),
        r matches Err(e) ==> (e matches TgCloudError::DeleteFailed(m) && m@
            == spec_partial_delete_msg(
            errors@.len() as int,
            total_chunks as int,
            errors@.map_values(|s: String| s@),
        )),
{
    if errors.len() == 0 {
        return Ok(());
    }
    let mut joined = String::new();
    let n = errors.len();
    let mut i: usize = 0;
    while i < n
        invariant
            0 < i <= n || i == 0,
            i <= n,
            n == errors@.len(),
            joined@ == spec_joined(errors@.subrange(0, i as int).map_values(|s: String| s@)),
        decreases n - i,
    {
        let ghost before = errors@.subrange(0, i as int).map_values(|s: String| s@);
        if i > 0 {
            joined = joined.concat("; ");
        }
        joined = joined.concat(errors[i].as_str());
        proof {
            let after = errors@.subrange(0, i + 1).map_values(|s: String| s@);
            assert(after.drop_last() =~= before);
            assert(after.last() == errors@[i as int]@);
            if i == 0 {
                assert(joined@ =~= after[0]);
            }
        }
        i = i + 1;
    }
    proof {
        assert(errors@.subrange(0, n as int) =~= errors@);
    }
    let msg = String::from_str("Partial delete failure (").concat(
        u64_to_dec(errors.len() as u64).as_str(),
    ).concat("/").concat(u64_to_dec(total_chunks).as_str()).concat(" chunks failed): ").concat(
        joined.as_str(),
    );
    Err(TgCloudError::DeleteFailed(msg))
}

} // verus!
