//! Downloading the archive of a release, step by step.

use crate::files::{FileAction, FileReply};
use crate::github::{
    begin_download, check_download, continue_download, is_success, DownloadProgress,
    GithubCatalogClient, GithubError, OfficialAsset, MAX_ARCHIVE_BYTES,
};
use crate::paths::{parent_of, with_extension, FilePath, PathStyle};
use crate::traits::{error_text, lacks_privileges, CoreError};
use vstd::prelude::*;

verus! {

/// Where an archive goes.
#[derive(Debug, PartialEq, Eq)]
pub struct DownloadPlan {
    /// The directory that the archive goes to, if its path has one.
    pub directory: Option<FilePath>,
    /// The archive in it.
    pub destination: FilePath,
}

/// The plan to put an archive at `destination`.
pub fn download_plan(style: PathStyle, destination: &FilePath) -> (plan: DownloadPlan)
    ensures
        plan.destination == *destination,
        match parent_of(style, destination@) {
            Some(parent) => plan.directory matches Some(directory) && directory@ == parent,
            None => plan.directory is None,
        },
{
    DownloadPlan { directory: destination.parent(style), destination: destination.clone() }
}

/// Where an archive stands until it is complete.
pub open spec fn partial_archive(destination: Seq<char>) -> Seq<char> {
    with_extension(destination, "zip.partial"@)
}

/// How far a download has come.
#[derive(Debug, PartialEq, Eq)]
pub enum DownloadStage {
    CreatingDirectory,
    Requesting,
    Receiving { progress: DownloadProgress },
    Renaming,
    Discarding { error: GithubError },
    Ended { outcome: Result<(), GithubError> },
}

/// What a download asks for next.
#[derive(Debug, PartialEq, Eq)]
pub enum DownloadAction {
    File(FileAction),
    /// Send the request; answered by [`DownloadReply::Answered`] or
    /// [`DownloadReply::Failed`].
    Request,
    /// Read the next chunk of the body and, once it is counted, append it to the
    /// incomplete archive; answered by [`DownloadReply::Chunk`],
    /// [`DownloadReply::Complete`] or [`DownloadReply::Failed`].
    Receive,
    Rest,
}

/// What came of it.
#[derive(Debug, PartialEq, Eq)]
pub enum DownloadReply {
    File(FileReply),
    Answered { code: u16, status: String, message: String, content_length: Option<u64> },
    /// A chunk of this many bytes was read.
    Chunk(usize),
    /// The body is complete and written; its digest.
    Complete([u8; 32]),
    Failed(GithubError),
}

/// The error of the download that an error of the file system makes.
pub open spec fn is_transfer_error(error: CoreError, told: GithubError) -> bool {
    match error {
        CoreError::Io { permission_denied, message } => told == (GithubError::Io {
            permission_denied,
            message,
        }),
        _ => told matches GithubError::Io { permission_denied, message } && permission_denied
            == lacks_privileges(error) && message@ == error_text(error),
    }
}

fn transfer_error(error: CoreError) -> (told: GithubError)
    ensures
        is_transfer_error(error, told),
{
    match error {
        CoreError::Io { permission_denied, message } => GithubError::Io {
            permission_denied,
            message,
        },
        other => {
            let permission_denied = other.is_permission_denied();
            GithubError::Io { permission_denied, message: other.to_text() }
        },
    }
}

/// How large an archive will be: as large as the answer announces, or else as
/// the catalog says.
pub open spec fn expected_size(asset: OfficialAsset, content_length: Option<u64>) -> Option<u64> {
    match content_length {
        Some(length) => Some(length),
        None => if asset.size > 0 {
            Some(asset.size)
        } else {
            None
        },
    }
}

/// Whether a size is over the limit.
pub open spec fn is_too_large(size: Option<u64>) -> bool {
    size matches Some(size) && size > MAX_ARCHIVE_BYTES
}

/// Whether a download has failed.
pub open spec fn download_failed(stage: DownloadStage, error: GithubError) -> bool {
    stage == (DownloadStage::Ended { outcome: Err(error) })
}

/// What a download asks for at a stage.
pub open spec fn download_asks(
    plan: DownloadPlan,
    stage: DownloadStage,
    action: DownloadAction,
) -> bool {
    match stage {
        DownloadStage::CreatingDirectory => action == match plan.directory {
            Some(directory) => DownloadAction::File(
                FileAction::CreateDirectory { path: directory },
            ),
            None => DownloadAction::Rest,
        },
        DownloadStage::Requesting => action == DownloadAction::Request,
        DownloadStage::Receiving { progress: _ } => action == DownloadAction::Receive,
        DownloadStage::Renaming => action matches DownloadAction::File(
            FileAction::Rename { from, to },
        ) && from@ == partial_archive(plan.destination@) && to == plan.destination,
        DownloadStage::Discarding { error: _ } => action matches DownloadAction::File(
            FileAction::Remove { path },
        ) && path@ == partial_archive(plan.destination@),
        DownloadStage::Ended { outcome: _ } => action == DownloadAction::Rest,
    }
}

/// Whether `next` is the stage that `reply` leads to. A reply that answers some
/// other action changes nothing.
pub open spec fn download_follows(
    asset: OfficialAsset,
    stage: DownloadStage,
    reply: DownloadReply,
    next: DownloadStage,
) -> bool {
    match (stage, reply) {
        (DownloadStage::CreatingDirectory, DownloadReply::File(FileReply::Done(result))) => {
            match result {
                Ok(_) => next == DownloadStage::Requesting,
                Err(error) => next matches DownloadStage::Ended { outcome: Err(told) }
                    && is_transfer_error(error, told),
            }
        },
        (DownloadStage::Requesting, DownloadReply::Failed(error)) => download_failed(next, error),
        (
            DownloadStage::Requesting,
            DownloadReply::Answered { code, status, message, content_length },
        ) => if !is_success(code) {
            download_failed(next, GithubError::Status { status, message })
        } else if asset.size > MAX_ARCHIVE_BYTES || is_too_large(
            expected_size(asset, content_length),
        ) {
            download_failed(next, GithubError::TooLarge)
        } else {
            next == (DownloadStage::Receiving {
                progress: DownloadProgress {
                    received: 0,
                    total: expected_size(asset, content_length),
                },
            })
        },
        (DownloadStage::Receiving { progress }, DownloadReply::Chunk(length)) => {
            if progress.received + length > MAX_ARCHIVE_BYTES {
                next == (DownloadStage::Discarding { error: GithubError::TooLarge })
            } else {
                next == (DownloadStage::Receiving {
                    progress: DownloadProgress {
                        received: (progress.received + length) as u64,
                        total: progress.total,
                    },
                })
            }
        },
        (DownloadStage::Receiving { progress: _ }, DownloadReply::Complete(digest)) => {
            if asset.digest matches Some(published) && published != digest {
                next == (DownloadStage::Discarding { error: GithubError::DigestMismatch })
            } else {
                next == DownloadStage::Renaming
            }
        },
        (DownloadStage::Receiving { progress: _ }, DownloadReply::Failed(error)) => next == (
        DownloadStage::Discarding { error }),
        (DownloadStage::Renaming, DownloadReply::File(FileReply::Done(result))) => match result {
            Ok(_) => next == (DownloadStage::Ended { outcome: Ok(()) }),
            Err(error) => next matches DownloadStage::Discarding { error: told }
                && is_transfer_error(error, told),
        },
        (DownloadStage::Discarding { error }, DownloadReply::File(FileReply::Done(_))) => {
            download_failed(next, error)
        },
        _ => next == stage,
    }
}

/// Where a download begins.
pub open spec fn first_stage(plan: DownloadPlan, asset: OfficialAsset) -> DownloadStage {
    if asset.size > MAX_ARCHIVE_BYTES {
        DownloadStage::Ended { outcome: Err(GithubError::TooLarge) }
    } else if plan.directory is Some {
        DownloadStage::CreatingDirectory
    } else {
        DownloadStage::Requesting
    }
}

impl GithubCatalogClient {
    /// Where a download starts. An archive that is too large is not even asked
    /// for.
    pub fn begin_download(&self, plan: &DownloadPlan, asset: &OfficialAsset) -> (stage:
        DownloadStage)
        ensures
            stage == first_stage(*plan, *asset),
    {
        if asset.size > MAX_ARCHIVE_BYTES {
            DownloadStage::Ended { outcome: Err(GithubError::TooLarge) }
        } else if plan.directory.is_some() {
            DownloadStage::CreatingDirectory
        } else {
            DownloadStage::Requesting
        }
    }

    /// What a download asks for next.
    pub fn download_action(&self, plan: &DownloadPlan, stage: &DownloadStage) -> (action:
        DownloadAction)
        ensures
            download_asks(*plan, *stage, action),
    {
        match stage {
            DownloadStage::CreatingDirectory => match &plan.directory {
                Some(directory) => DownloadAction::File(
                    FileAction::CreateDirectory { path: directory.clone() },
                ),
                None => DownloadAction::Rest,
            },
            DownloadStage::Requesting => DownloadAction::Request,
            DownloadStage::Receiving { progress: _ } => DownloadAction::Receive,
            DownloadStage::Renaming => DownloadAction::File(
                FileAction::Rename {
                    from: plan.destination.with_extension("zip.partial"),
                    to: plan.destination.clone(),
                },
            ),
            DownloadStage::Discarding { error: _ } => DownloadAction::File(
                FileAction::Remove { path: plan.destination.with_extension("zip.partial") },
            ),
            DownloadStage::Ended { outcome: _ } => DownloadAction::Rest,
        }
    }

    /// The stage that `reply` leads to. While an archive is being received, the
    /// stage holds what is to be shown of the progress.
    pub fn download_with_progress(
        &self,
        asset: &OfficialAsset,
        stage: DownloadStage,
        reply: DownloadReply,
    ) -> (next: DownloadStage)
        ensures
            download_follows(*asset, stage, reply, next),
    {
        match (stage, reply) {
            (DownloadStage::CreatingDirectory, DownloadReply::File(FileReply::Done(result))) => {
                match result {
                    Ok(_) => DownloadStage::Requesting,
                    Err(error) => DownloadStage::Ended { outcome: Err(transfer_error(error)) },
                }
            },
            (DownloadStage::Requesting, DownloadReply::Failed(error)) => DownloadStage::Ended {
                outcome: Err(error),
            },
            (
                DownloadStage::Requesting,
                DownloadReply::Answered { code, status, message, content_length },
            ) => {
                if !(200 <= code && code < 300) {
                    return DownloadStage::Ended {
                        outcome: Err(GithubError::Status { status, message }),
                    };
                }
                match begin_download(asset.size, content_length) {
                    Ok(progress) => DownloadStage::Receiving { progress },
                    Err(error) => DownloadStage::Ended { outcome: Err(error) },
                }
            },
            (DownloadStage::Receiving { progress }, DownloadReply::Chunk(length)) => {
                match continue_download(progress, length) {
                    Ok(progress) => DownloadStage::Receiving { progress },
                    Err(error) => DownloadStage::Discarding { error },
                }
            },
            (DownloadStage::Receiving { progress: _ }, DownloadReply::Complete(digest)) => {
                match check_download(&asset.digest, &digest) {
                    Ok(_) => DownloadStage::Renaming,
                    Err(error) => DownloadStage::Discarding { error },
                }
            },
            (DownloadStage::Receiving { progress: _ }, DownloadReply::Failed(error)) => {
                DownloadStage::Discarding { error }
            },
            (DownloadStage::Renaming, DownloadReply::File(FileReply::Done(result))) => match result {
                Ok(_) => DownloadStage::Ended { outcome: Ok(()) },
                Err(error) => DownloadStage::Discarding { error: transfer_error(error) },
            },
            (DownloadStage::Discarding { error }, DownloadReply::File(FileReply::Done(_))) => {
                DownloadStage::Ended { outcome: Err(error) }
            },
            (stage, _) => stage,
        }
    }
}

/// Whether `stages` are what a download goes through as `replies` come in.
pub open spec fn is_download(
    plan: DownloadPlan,
    asset: OfficialAsset,
    replies: Seq<DownloadReply>,
    stages: Seq<DownloadStage>,
) -> bool {
    &&& stages.len() == replies.len() + 1
    &&& stages[0] == first_stage(plan, asset)
    &&& forall|i: int|
        #![trigger replies[i]]
        0 <= i < replies.len() ==> download_follows(asset, stages[i], replies[i], stages[i + 1])
}

/// How many bytes a download has taken in, from the chunks that came in while
/// it was receiving.
pub open spec fn bytes_received(stages: Seq<DownloadStage>, replies: Seq<DownloadReply>) -> nat
    decreases replies.len(),
{
    if replies.len() == 0 {
        0
    } else {
        let before = bytes_received(stages.drop_last(), replies.drop_last());
        match (stages[replies.len() - 1], replies.last()) {
            (DownloadStage::Receiving { progress: _ }, DownloadReply::Chunk(length)) => {
                before + length as nat
            },
            _ => before,
        }
    }
}

/// Whether the digest of the body is known and is the published one, if one was
/// published.
pub open spec fn digest_passed(asset: OfficialAsset, reply: DownloadReply) -> bool {
    reply matches DownloadReply::Complete(digest) && (asset.digest matches Some(published)
        ==> published == digest)
}

/// What holds at each stage of a download.
spec fn sound_at(
    asset: OfficialAsset,
    stages: Seq<DownloadStage>,
    replies: Seq<DownloadReply>,
) -> bool {
    let received = bytes_received(stages, replies);
    match stages.last() {
        DownloadStage::CreatingDirectory => received == 0,
        DownloadStage::Requesting => received == 0,
        DownloadStage::Receiving { progress } => received == progress.received && received
            <= MAX_ARCHIVE_BYTES,
        DownloadStage::Renaming => received <= MAX_ARCHIVE_BYTES && exists|i: int|
            0 <= i < replies.len() && digest_passed(asset, #[trigger] replies[i]),
        DownloadStage::Ended { outcome: Ok(_) } => received <= MAX_ARCHIVE_BYTES && exists|i: int|
            0 <= i < replies.len() && digest_passed(asset, #[trigger] replies[i]),
        _ => true,
    }
}

proof fn downloads_stay_sound(
    plan: DownloadPlan,
    asset: OfficialAsset,
    replies: Seq<DownloadReply>,
    stages: Seq<DownloadStage>,
)
    requires
        is_download(plan, asset, replies, stages),
    ensures
        sound_at(asset, stages, replies),
    decreases replies.len(),
{
    if replies.len() > 0 {
        let earlier = replies.drop_last();
        let before = stages.drop_last();
        assert forall|i: int|
            #![trigger earlier[i]]
            0 <= i < earlier.len() implies download_follows(
            asset,
            before[i],
            earlier[i],
            before[i + 1],
        ) by {
            assert(earlier[i] == replies[i]);
        }
        downloads_stay_sound(plan, asset, earlier, before);
        let last = replies.len() - 1;
        assert(replies[last] == replies.last());
        assert(download_follows(asset, stages[last], replies[last], stages[last + 1]));
        assert(before.last() == stages[last]);
        if exists|i: int| 0 <= i < earlier.len() && digest_passed(asset, #[trigger] earlier[i]) {
            let i = choose|i: int|
                0 <= i < earlier.len() && digest_passed(asset, #[trigger] earlier[i]);
            assert(digest_passed(asset, replies[i]));
        }
    }
}

/// A download that succeeds took in no more than the limit, and the digest of
/// what it took in was the published one, if one was published.
pub proof fn only_published_content_is_kept(
    plan: DownloadPlan,
    asset: OfficialAsset,
    replies: Seq<DownloadReply>,
    stages: Seq<DownloadStage>,
)
    requires
        is_download(plan, asset, replies, stages),
        stages.last() == (DownloadStage::Ended { outcome: Ok(()) }),
    ensures
        bytes_received(stages, replies) <= MAX_ARCHIVE_BYTES,
        exists|i: int|
            0 <= i < replies.len() && digest_passed(asset, #[trigger] replies[i]),
{
    downloads_stay_sound(plan, asset, replies, stages);
}

/// A download that nothing goes wrong with succeeds: the server answers with
/// success, the announced and the published size and what comes in are within
/// two gibibytes, the digest is the published one, and the archive is put in
/// place. After each chunk the progress is what came in so far, of the size
/// that was announced or, failing that, published. `totals` are the numbers of
/// bytes that came in before each chunk and in all.
pub proof fn a_smooth_download_succeeds(
    plan: DownloadPlan,
    asset: OfficialAsset,
    chunks: Seq<usize>,
    totals: Seq<int>,
    replies: Seq<DownloadReply>,
    stages: Seq<DownloadStage>,
    answer: int,
)
    requires
        is_download(plan, asset, replies, stages),
        asset.size <= 2147483648,
        answer == if plan.directory is Some {
            1int
        } else {
            0int
        },
        replies.len() == answer + chunks.len() + 3,
        answer == 1 ==> replies[0] == DownloadReply::File(FileReply::Done(Ok(()))),
        replies[answer] matches DownloadReply::Answered { code, content_length, .. } && 200 <= code
            < 300 && (content_length matches Some(length) ==> length <= 2147483648),
        totals.len() == chunks.len() + 1,
        totals[0] == 0,
        forall|k: int|
            0 <= k < chunks.len() ==> replies[answer + 1 + k] == DownloadReply::Chunk(
                #[trigger] chunks[k],
            ) && totals[k + 1] == totals[k] + chunks[k],
        totals.last() <= 2147483648,
        replies[answer + chunks.len() + 1] matches DownloadReply::Complete(digest) && (
        asset.digest matches Some(published) ==> published == digest),
        replies.last() == DownloadReply::File(FileReply::Done(Ok(()))),
    ensures
        forall|k: int|
            0 <= k <= chunks.len() ==> (#[trigger] stages[answer + 1 + k]
                matches DownloadStage::Receiving { progress } && progress.received == totals[k]
                && progress.total == match replies[answer]->content_length {
                Some(length) => Some(length),
                None => if asset.size == 0 {
                    None
                } else {
                    Some(asset.size)
                },
            }),
        stages.last() == (DownloadStage::Ended { outcome: Ok(()) }),
{
    assert(answer == 1 ==> download_follows(asset, stages[0], replies[0], stages[1]));
    assert(download_follows(asset, stages[answer], replies[answer], stages[answer + 1]));
    assert forall|k: int| 0 <= k <= chunks.len() implies (#[trigger] stages[answer + 1 + k]
        matches DownloadStage::Receiving { progress } && progress.received == totals[k]
        && progress.total == match replies[answer]->content_length {
        Some(length) => Some(length),
        None => if asset.size == 0 {
            None
        } else {
            Some(asset.size)
        },
    }) by {
        chunks_add_up(asset, chunks, totals, replies, stages, answer, k);
    }
    let complete = answer + chunks.len() + 1;
    assert(stages[answer + 1 + chunks.len()] is Receiving);
    assert(download_follows(asset, stages[complete], replies[complete], stages[complete + 1]));
    assert(download_follows(
        asset,
        stages[complete + 1],
        replies[complete + 1],
        stages[complete + 2],
    ));
}

proof fn totals_grow(chunks: Seq<usize>, totals: Seq<int>, k: int)
    requires
        totals.len() == chunks.len() + 1,
        forall|i: int|
            0 <= i < chunks.len() ==> totals[i + 1] == totals[i] + #[trigger] chunks[i],
        0 <= k <= chunks.len(),
    ensures
        totals[k] <= totals.last(),
    decreases chunks.len() - k,
{
    if k < chunks.len() {
        assert(totals[k + 1] == totals[k] + chunks[k]);
        totals_grow(chunks, totals, k + 1);
    }
}

proof fn chunks_add_up(
    asset: OfficialAsset,
    chunks: Seq<usize>,
    totals: Seq<int>,
    replies: Seq<DownloadReply>,
    stages: Seq<DownloadStage>,
    answer: int,
    k: int,
)
    requires
        forall|i: int|
            #![trigger replies[i]]
            0 <= i < replies.len() ==> download_follows(asset, stages[i], replies[i], stages[i + 1]),
        0 <= answer,
        replies.len() == answer + chunks.len() + 3,
        stages[answer + 1] matches DownloadStage::Receiving { progress } && progress.received == 0,
        totals.len() == chunks.len() + 1,
        totals[0] == 0,
        forall|i: int|
            0 <= i < chunks.len() ==> replies[answer + 1 + i] == DownloadReply::Chunk(
                #[trigger] chunks[i],
            ) && totals[i + 1] == totals[i] + chunks[i],
        totals.last() <= 2147483648,
        0 <= k <= chunks.len(),
    ensures
        stages[answer + 1 + k] matches DownloadStage::Receiving { progress } && progress.received
            == totals[k] && progress.total == stages[answer + 1]->Receiving_progress.total,
    decreases k,
{
    if k > 0 {
        chunks_add_up(asset, chunks, totals, replies, stages, answer, k - 1);
        let at = answer + k;
        assert(replies[answer + 1 + (k - 1)] == DownloadReply::Chunk(chunks[k - 1]));
        assert(download_follows(asset, stages[at], replies[at], stages[at + 1]));
        totals_grow(chunks, totals, k);
    }
}

/// What goes wrong ends a download, with nothing left behind: before anything
/// was written the download has failed at once; afterwards the incomplete
/// archive is deleted first.
pub proof fn failures_end_a_download(
    asset: OfficialAsset,
    stage: DownloadStage,
    reply: DownloadReply,
    next: DownloadStage,
)
    requires
        download_follows(asset, stage, reply, next),
    ensures
        stage == DownloadStage::CreatingDirectory && (reply matches DownloadReply::File(
            FileReply::Done(Err(_)),
        )) ==> (next matches DownloadStage::Ended { outcome: Err(GithubError::Io { .. }) }),
        stage == DownloadStage::Requesting ==> match reply {
            DownloadReply::Failed(error) => next == (DownloadStage::Ended { outcome: Err(error) }),
            DownloadReply::Answered { code, status, message, content_length } => {
                if code < 200 || code > 299 {
                    next == (DownloadStage::Ended {
                        outcome: Err(GithubError::Status { status, message }),
                    })
                } else {
                    next == (DownloadStage::Ended { outcome: Err(GithubError::TooLarge) }) <==> (
                    asset.size > 2147483648 || (content_length matches Some(length) && length
                        > 2147483648))
                }
            },
            _ => next == stage,
        },
        stage matches DownloadStage::Receiving { progress } ==> match reply {
            DownloadReply::Chunk(length) => next == (DownloadStage::Discarding {
                error: GithubError::TooLarge,
            }) <==> progress.received + length > 2147483648,
            DownloadReply::Complete(digest) => next == (DownloadStage::Discarding {
                error: GithubError::DigestMismatch,
            }) <==> asset.digest is Some && asset.digest != Some(digest),
            DownloadReply::Failed(error) => next == (DownloadStage::Discarding { error }),
            _ => next == stage,
        },
        stage == DownloadStage::Renaming && (reply matches DownloadReply::File(
            FileReply::Done(Err(_)),
        )) ==> (next matches DownloadStage::Discarding { error: GithubError::Io { .. } }),
        stage matches DownloadStage::Discarding { error } ==> (reply matches DownloadReply::File(
            FileReply::Done(_),
        ) ==> next == (DownloadStage::Ended { outcome: Err(error) })),
        stage is Ended ==> next == stage,
{
}

/// A download touches no file but the archive and the incomplete one beside
/// it: for an archive `name.zip` that is `name.zip.partial` in the same
/// directory, which becomes the archive, or is deleted.
pub proof fn downloads_touch_only_the_archive(
    plan: DownloadPlan,
    folder: Seq<char>,
    name: Seq<char>,
    stage: DownloadStage,
    action: FileAction,
)
    requires
        download_asks(plan, stage, DownloadAction::File(action)),
        plan.destination@ == folder + "/"@ + name + ".zip"@,
        name.len() > 0,
        !name.contains('/'),
    ensures
        match action {
            FileAction::CreateDirectory { path } => stage == DownloadStage::CreatingDirectory
                && plan.directory == Some(path),
            FileAction::Rename { from, to } => stage == DownloadStage::Renaming && from@ == folder
                + "/"@ + name + ".zip.partial"@ && to == plan.destination,
            FileAction::Remove { path } => stage is Discarding && path@ == folder + "/"@ + name
                + ".zip.partial"@,
            _ => false,
        },
{
    reveal_strlit("zip");
    crate::paths::extensions_are_replaced(folder, name, "zip"@, "zip.partial"@);
    reveal_strlit(".zip");
    reveal_strlit("zip.partial");
    reveal_strlit(".zip.partial");
    reveal_strlit("/");
    assert("."@ + "zip"@ =~= ".zip"@) by {
        reveal_strlit(".");
    }
    assert("."@ + "zip.partial"@ =~= ".zip.partial"@) by {
        reveal_strlit(".");
    }
    assert(folder + "/"@ + name + "."@ + "zip"@ =~= folder + "/"@ + name + ".zip"@);
    assert(folder + "/"@ + name + "."@ + "zip.partial"@ =~= folder + "/"@ + name
        + ".zip.partial"@);
}

} // verus!
