//! What the helper with more privileges checks before it does anything.
//!
//! The helper trusts nothing in the plan that it is handed. It looks everything
//! up again and compares.

use crate::digest::same_hash;
use crate::files::{FileAction, FileReply};
use crate::kinds::{classify_path, path_kind};
use crate::model::{
    DllInstallation, DllMetadata, ElevatedFilePlan, GameId, OperationPlan, PlannedSwap,
    SignatureStatus,
};
use crate::paths::{beside, has_name, is_within, joined, last_part, FilePath};
use crate::text::{begins, chars_of, join_two, push_decimal, same_text, starts_with};
use crate::tools::{SystemToolId, ToolChangePlan, DLSS_INDICATOR_TOOL_ID};
use crate::traits::{refused, CoreError};
use crate::trust::{is_nvidia_signature, nvidia_signature, TrustPolicy, TrustReport};
use vstd::prelude::*;

verus! {

/// Whether a character may stand in the nonce of a plan.
pub open spec fn is_nonce_char(character: char) -> bool {
    ||| '0' <= character <= '9'
    ||| 'a' <= character <= 'z'
    ||| 'A' <= character <= 'Z'
    ||| character == '-'
    ||| character == '_'
}

/// Whether `nonce` can name a plan: 16 to 128 letters, digits, hyphens and
/// underscores.
pub open spec fn is_nonce(nonce: Seq<char>) -> bool {
    16 <= nonce.len() <= 128 && forall|i: int|
        0 <= i < nonce.len() ==> is_nonce_char(#[trigger] nonce[i])
}

/// Where the result of the plan with the given nonce belongs.
pub open spec fn result_of(directory: Seq<char>, nonce: Seq<char>) -> Seq<char> {
    joined(directory, nonce + ".json"@)
}

/// Whether a validation error has the given wording.
pub open spec fn says(error: CoreError, wording: Seq<char>) -> bool {
    error matches CoreError::Validation(message) && message@ == wording
}

/// Decides [`is_nonce`].
pub fn is_valid_nonce(nonce: &str) -> (valid: bool)
    ensures
        valid == is_nonce(nonce@),
{
    let chars = chars_of(nonce);
    if chars.len() < 16 || chars.len() > 128 {
        return false;
    }
    let mut at: usize = 0;
    while at < chars.len()
        invariant
            at <= chars.len(),
            chars@ == nonce@,
            forall|i: int| 0 <= i < at ==> is_nonce_char(#[trigger] nonce@[i]),
        decreases chars.len() - at,
    {
        let character = chars[at];
        let allowed = '0' <= character && character <= '9' || 'a' <= character && character <= 'z'
            || 'A' <= character && character <= 'Z' || character == '-' || character == '_';
        if !allowed {
            proof {
                assert(!is_nonce_char(nonce@[at as int]));
            }
            return false;
        }
        at += 1;
    }
    true
}

/// Where the result of the plan with the given nonce belongs.
pub fn result_path(directory: &FilePath, nonce: &str) -> (path: FilePath)
    ensures
        path@ == result_of(directory@, nonce@),
{
    let name = join_two(nonce, ".json");
    directory.join(&name)
}

/// Checks the nonce of a plan, and that its result goes where the result of
/// that plan belongs and nowhere else.
pub fn validate_helper_paths(
    nonce: &str,
    result: &FilePath,
    result_directory: &FilePath,
) -> (checked: Result<(), CoreError>)
    ensures
        checked is Ok <==> is_nonce(nonce@) && result@ == result_of(result_directory@, nonce@),
        checked matches Err(error) ==> says(
            error,
            if !is_nonce(nonce@) {
                "invalid helper nonce"@
            } else {
                "invalid helper result path"@
            },
        ),
{
    if !is_valid_nonce(nonce) {
        return Err(refused("invalid helper nonce"));
    }
    let expected = result_path(result_directory, nonce);
    if !result.same(&expected) {
        return Err(refused("invalid helper result path"));
    }
    Ok(())
}

/// Whether a file lies directly in a directory.
pub open spec fn is_directly_in(path: Seq<char>, directory: Seq<char>) -> bool {
    has_name(path) && path == joined(directory, last_part(path))
}

/// Checks that a plan lies in the private directory for plans.
pub fn check_plan_place(plan: &FilePath, directory: &FilePath) -> (checked: Result<(), CoreError>)
    ensures
        checked is Ok <==> is_directly_in(plan@, directory@),
        checked matches Err(error) ==> says(
            error,
            "helper plan is outside the private plan directory"@,
        ),
{
    if let Some(name) = plan.file_name() {
        if plan.same(&directory.join(&name)) {
            return Ok(());
        }
    }
    Err(refused("helper plan is outside the private plan directory"))
}

/// Checks that a plan is the one that the helper was started for.
pub fn check_plan_digest(actual: &[u8; 32], expected: &[u8; 32]) -> (checked: Result<(), CoreError>)
    ensures
        checked is Ok <==> *actual == *expected,
        checked matches Err(error) ==> says(error, "elevated helper plan digest mismatch"@),
{
    if same_hash(actual, expected) {
        Ok(())
    } else {
        Err(refused("elevated helper plan digest mismatch"))
    }
}

/// Whether a tool is the DLSS on-screen indicator, the only one there is.
pub open spec fn is_indicator(id: SystemToolId) -> bool {
    id@ == DLSS_INDICATOR_TOOL_ID@
}

/// Checks that a tool is the DLSS on-screen indicator.
pub fn ensure_indicator_id(id: &SystemToolId) -> (checked: Result<(), CoreError>)
    ensures
        checked is Ok <==> is_indicator(*id),
        checked matches Err(error) ==> says(error, "unknown system tool ID"@),
{
    if same_text(&id.0, DLSS_INDICATOR_TOOL_ID) {
        Ok(())
    } else {
        Err(refused("unknown system tool ID"))
    }
}

/// Checks that a plan changes nothing but the indicator, and that what it
/// restores belongs to the same tool. The error is what the user is told.
pub fn admit_tool_plan(plan: &ToolChangePlan) -> (checked: Result<(), String>)
    ensures
        checked is Ok <==> is_indicator(plan.tool_id) && (plan.restore_point matches Some(point)
            ==> point.tool_id@ == plan.tool_id@),
        checked matches Err(message) ==> message@ == if is_indicator(plan.tool_id) {
            "restore tool ID mismatch"@
        } else {
            "validation failed: "@ + "unknown system tool ID"@
        },
{
    if let Err(error) = ensure_indicator_id(&plan.tool_id) {
        return Err(error.to_text());
    }
    if let Some(point) = &plan.restore_point {
        if !point.tool_id.same(&plan.tool_id) {
            return Err("restore tool ID mismatch".to_owned());
        }
    }
    Ok(())
}

/// Checks that the swaps of a plan belong to it.
pub fn admit_file_plan(plan: &ElevatedFilePlan) -> (checked: Result<(), String>)
    ensures
        checked is Ok <==> plan.operation.nonce@ == plan.nonce@,
        checked matches Err(message) ==> message@ == "file plan nonce mismatch"@,
{
    if same_text(&plan.operation.nonce, &plan.nonce) {
        Ok(())
    } else {
        Err("file plan nonce mismatch".to_owned())
    }
}

/// A game that was found again, with the place that its folder really is at.
#[derive(Debug, PartialEq, Eq)]
pub struct LocatedGame {
    pub id: GameId,
    pub root: Option<FilePath>,
}

/// A DLL that was found again, with the place that it really is at.
#[derive(Debug, PartialEq, Eq)]
pub struct LocatedDll {
    pub dll: DllInstallation,
    pub place: Result<FilePath, CoreError>,
}

/// Whether a located game is the one with the identifier `id` at `root`.
pub open spec fn is_game_at(game: LocatedGame, id: Seq<char>, root: Seq<char>) -> bool {
    game.id@ == id && (game.root matches Some(place) && place@ == root)
}

/// Whether the identifier of a game says that the user added it.
pub open spec fn is_manual_id(id: Seq<char>) -> bool {
    begins(id, "manual:"@)
}

/// Whether the identifier of a game says that the user added it.
pub fn is_manual_game(id: &GameId) -> (manual: bool)
    ensures
        manual == is_manual_id(id@),
{
    starts_with(&id.0, "manual:")
}

/// Whether the game with the identifier `id` is really at `root`: a store says
/// so, or it is a game that the user added and its identifier is made from that
/// folder.
pub open spec fn game_is_at(
    discovered: Seq<LocatedGame>,
    manual: Option<GameId>,
    id: Seq<char>,
    root: Seq<char>,
) -> bool {
    ||| exists|i: int| 0 <= i < discovered.len() && is_game_at(#[trigger] discovered[i], id, root)
    ||| is_manual_id(id) && (manual matches Some(made) && made@ == id)
}

/// Checks that a plan belongs to the game that it names. `manual` is the
/// identifier that a game added by the user has if its folder is `root`.
pub fn check_game(
    discovered: &Vec<LocatedGame>,
    manual: &Option<GameId>,
    id: &GameId,
    root: &FilePath,
) -> (checked: Result<(), CoreError>)
    ensures
        checked is Ok <==> game_is_at(discovered@, *manual, id@, root@),
        checked matches Err(error) ==> says(
            error,
            "file plan does not belong to the declared game"@,
        ),
{
    let mut at: usize = 0;
    while at < discovered.len()
        invariant
            at <= discovered.len(),
            forall|i: int|
                0 <= i < at ==> !is_game_at(#[trigger] discovered@[i], id@, root@),
        decreases discovered.len() - at,
    {
        if discovered[at].id.same(id) {
            if let Some(place) = &discovered[at].root {
                if place.same(root) {
                    proof {
                        assert(is_game_at(discovered@[at as int], id@, root@));
                    }
                    return Ok(());
                }
            }
        }
        at += 1;
    }
    if is_manual_game(id) {
        if let Some(made) = manual {
            if made.same(id) {
                return Ok(());
            }
        }
    }
    Err(refused("file plan does not belong to the declared game"))
}

/// What the helper found out before it looks at the swaps of a plan.
#[derive(Debug, PartialEq, Eq)]
pub struct PlanGround {
    pub game_id: GameId,
    pub game_root: FilePath,
    pub nonce: String,
    pub installations: Vec<LocatedDll>,
    /// The directory of the unpacked releases.
    pub releases: FilePath,
    /// The directory of the backups, if there is one.
    pub backups: Option<FilePath>,
    /// The directory of the imports, if there is one.
    pub imports: Option<FilePath>,
}

/// The position of the first located DLL with the identifier `id`, or the
/// number of DLLs if there is none.
pub open spec fn located_position(installations: Seq<LocatedDll>, id: Seq<char>) -> int
    decreases installations.len(),
{
    if installations.len() == 0 {
        0
    } else {
        let before = located_position(installations.drop_last(), id);
        if before < installations.len() - 1 {
            before
        } else if installations.last().dll.id@ == id {
            installations.len() - 1
        } else {
            installations.len() as int
        }
    }
}

/// What is wrong with the target of a swap, if anything is.
pub enum TargetFault {
    OutsideRoot,
    NotManaged,
    NotDiscovered,
    Unresolved(CoreError),
    Differs,
}

/// What is wrong with a target that really is at `target`.
pub open spec fn target_fault(
    ground: PlanGround,
    swap: PlannedSwap,
    target: Seq<char>,
) -> Option<TargetFault> {
    let at = located_position(ground.installations@, swap.installation@);
    if !is_within(target, ground.game_root@) {
        Some(TargetFault::OutsideRoot)
    } else if path_kind(target) is None {
        Some(TargetFault::NotManaged)
    } else if at >= ground.installations.len() {
        Some(TargetFault::NotDiscovered)
    } else {
        let found = ground.installations@[at];
        if found.dll.game_id@ != ground.game_id@ {
            Some(TargetFault::Differs)
        } else {
            match found.place {
                Err(error) => Some(TargetFault::Unresolved(error)),
                Ok(place) => if place@ != target || found.dll.metadata.sha256
                    != swap.expected_sha256 {
                    Some(TargetFault::Differs)
                } else {
                    None
                },
            }
        }
    }
}

/// How a fault is reported.
pub open spec fn is_fault_error(fault: TargetFault, error: CoreError) -> bool {
    match fault {
        TargetFault::OutsideRoot => says(error, "target is outside the game root"@),
        TargetFault::NotManaged => says(error, "target is not a managed NVIDIA DLL"@),
        TargetFault::NotDiscovered => says(error, "target is not a discovered DLL installation"@),
        TargetFault::Unresolved(reason) => match reason {
            CoreError::Io { permission_denied, message } => error matches CoreError::Io {
                permission_denied: denied,
                message: text,
            } && denied == permission_denied && text@ == message@,
            _ => error matches CoreError::Io { permission_denied: denied, message: text } && denied
                == crate::traits::lacks_privileges(reason) && text@ == crate::traits::error_text(
                reason,
            ),
        },
        TargetFault::Differs => says(
            error,
            "target does not match the discovered DLL installation"@,
        ),
    }
}

fn find_located(installations: &Vec<LocatedDll>, swap: &PlannedSwap) -> (at: usize)
    ensures
        at == located_position(installations@, swap.installation@),
        at <= installations.len(),
{
    let mut found: usize = 0;
    let mut at: usize = 0;
    while at < installations.len()
        invariant
            at <= installations.len(),
            found <= at,
            found == located_position(installations@.take(at as int), swap.installation@),
        decreases installations.len() - at,
    {
        proof {
            assert(installations@.take(at + 1).drop_last() =~= installations@.take(at as int));
        }
        if found == at && !installations[at].dll.id.same(&swap.installation) {
            found = at + 1;
        }
        at += 1;
    }
    proof {
        assert(installations@.take(at as int) =~= installations@);
    }
    found
}

fn repeat_error(error: &CoreError) -> (copy: CoreError)
    ensures
        is_fault_error(TargetFault::Unresolved(*error), copy),
{
    match error {
        CoreError::Io { permission_denied, message } => CoreError::Io {
            permission_denied: *permission_denied,
            message: message.clone(),
        },
        other => CoreError::Io {
            permission_denied: other.is_permission_denied(),
            message: other.to_text(),
        },
    }
}

/// Checks that a target that really is at `target` is a managed DLL of the
/// game, found again with the digest that the swap expects.
pub fn check_target(ground: &PlanGround, swap: &PlannedSwap, target: &FilePath) -> (checked:
    Result<(), CoreError>)
    ensures
        match target_fault(*ground, *swap, target@) {
            None => checked is Ok,
            Some(fault) => checked matches Err(error) && is_fault_error(fault, error),
        },
{
    if !target.lies_within(&ground.game_root) {
        return Err(refused("target is outside the game root"));
    }
    if classify_path(target).is_none() {
        return Err(refused("target is not a managed NVIDIA DLL"));
    }
    let at = find_located(&ground.installations, swap);
    if at >= ground.installations.len() {
        return Err(refused("target is not a discovered DLL installation"));
    }
    let found = &ground.installations[at];
    if !found.dll.game_id.same(&ground.game_id) {
        return Err(refused("target does not match the discovered DLL installation"));
    }
    match &found.place {
        Err(error) => Err(repeat_error(error)),
        Ok(place) => if !place.same(target) || !same_hash(
            &found.dll.metadata.sha256,
            &swap.expected_sha256,
        ) {
            Err(refused("target does not match the discovered DLL installation"))
        } else {
            Ok(())
        },
    }
}

/// Under which policy a source is verified: leniently if it is from a release,
/// strictly if it is a backup or an import. A source from elsewhere is not
/// accepted.
pub open spec fn source_policy(ground: PlanGround, source: Seq<char>) -> Option<TrustPolicy> {
    if is_within(source, ground.releases@) {
        Some(TrustPolicy::OfficialNvidiaCatalog)
    } else if (ground.backups matches Some(root) && is_within(source, root@)) || (
    ground.imports matches Some(root) && is_within(source, root@)) {
        Some(TrustPolicy::Strict)
    } else {
        None
    }
}

/// Decides [`source_policy`].
pub fn policy_for_source(ground: &PlanGround, source: &FilePath) -> (policy: Option<TrustPolicy>)
    ensures
        policy == source_policy(*ground, source@),
{
    if source.lies_within(&ground.releases) {
        return Some(TrustPolicy::OfficialNvidiaCatalog);
    }
    if let Some(root) = &ground.backups {
        if source.lies_within(root) {
            return Some(TrustPolicy::Strict);
        }
    }
    if let Some(root) = &ground.imports {
        if source.lies_within(root) {
            return Some(TrustPolicy::Strict);
        }
    }
    None
}

/// Whether a file is an x86-64 DLL with a version and a trusted signature by
/// NVIDIA.
pub open spec fn is_nvidia_dll(metadata: DllMetadata, trust: TrustReport) -> bool {
    &&& metadata.x86_64
    &&& metadata.version is Some
    &&& trust.signature == SignatureStatus::Trusted
    &&& nvidia_signature(trust.signer)
}

/// Checks [`is_nvidia_dll`].
pub fn check_nvidia_dll(metadata: &DllMetadata, trust: &TrustReport) -> (checked: Result<
    (),
    CoreError,
>)
    ensures
        checked is Ok <==> is_nvidia_dll(*metadata, *trust),
        checked matches Err(error) ==> says(
            error,
            "source failed elevated NVIDIA trust validation"@,
        ),
{
    if metadata.x86_64 && metadata.version.is_some() && trust.signature == SignatureStatus::Trusted
        && is_nvidia_signature(&trust.signer) {
        Ok(())
    } else {
        Err(refused("source failed elevated NVIDIA trust validation"))
    }
}

/// The name of the private copy of the source of swap number `index`.
pub open spec fn staged_name(nonce: Seq<char>, index: nat) -> Seq<char> {
    ".dlss-source-"@ + nonce + "-"@ + crate::text::decimal(index) + ".dll"@
}

/// The path of the private copy of the source of swap number `index`: next to
/// its target.
pub fn staged_source_path(target: &FilePath, nonce: &str, index: usize) -> (path: FilePath)
    ensures
        path@ == beside(target@, staged_name(nonce@, index as nat)),
{
    let mut name = ".dlss-source-".to_owned();
    name.append(nonce);
    name.append("-");
    push_decimal(&mut name, index as u64);
    name.append(".dll");
    target.neighbour(&name)
}

/// How far the check of a plan's swaps has come.
#[derive(Debug, PartialEq, Eq)]
pub enum FilePlanStage {
    ResolvingTarget { index: usize },
    ResolvingSource { index: usize, target: FilePath },
    HashingSource { index: usize, target: FilePath, source: FilePath, policy: TrustPolicy },
    InspectingSource { index: usize, target: FilePath, source: FilePath, policy: TrustPolicy },
    VerifyingSource {
        index: usize,
        target: FilePath,
        source: FilePath,
        policy: TrustPolicy,
        metadata: DllMetadata,
    },
    Copying { index: usize, target: FilePath, source: FilePath, policy: TrustPolicy },
    HashingCopy { index: usize, target: FilePath, policy: TrustPolicy },
    InspectingCopy { index: usize, target: FilePath, policy: TrustPolicy },
    VerifyingCopy { index: usize, target: FilePath, policy: TrustPolicy, metadata: DllMetadata },
    /// A copy that did not pass is deleted again.
    Discarding { index: usize, target: FilePath, error: CoreError },
    Ended { outcome: Result<(), CoreError> },
}

/// A plan whose swaps are being checked, and those that passed.
#[derive(Debug, PartialEq, Eq)]
pub struct FilePlanCheck {
    pub ground: PlanGround,
    pub swaps: Vec<PlannedSwap>,
    pub passed: Vec<PlannedSwap>,
}

/// The swap that the helper carries out in place of the one in the plan: the
/// same, with the target where it really is and its source replaced by the
/// private copy.
pub open spec fn is_staged_swap(
    ground: PlanGround,
    swap: PlannedSwap,
    index: nat,
    target: FilePath,
    staged: PlannedSwap,
) -> bool {
    &&& staged.game == swap.game
    &&& staged.installation == swap.installation
    &&& staged.target_path == target
    &&& staged.expected_sha256 == swap.expected_sha256
    &&& staged.source_path@ == beside(target@, staged_name(ground.nonce@, index))
    &&& staged.source_sha256 == swap.source_sha256
    &&& staged.comparison == swap.comparison
}

/// Whether `action` is the one that belongs to `stage`.
pub open spec fn file_plan_asks(
    check: FilePlanCheck,
    stage: FilePlanStage,
    action: Option<FileAction>,
) -> bool {
    let nonce = check.ground.nonce@;
    match stage {
        FilePlanStage::ResolvingTarget { index } => action == Some(
            FileAction::Resolve { path: check.swaps@[index as int].target_path },
        ),
        FilePlanStage::ResolvingSource { index, target: _ } => action == Some(
            FileAction::Resolve { path: check.swaps@[index as int].source_path },
        ),
        FilePlanStage::HashingSource { index: _, target: _, source, policy: _ } => action == Some(
            FileAction::Hash { path: source },
        ),
        FilePlanStage::InspectingSource { index: _, target: _, source, policy: _ } => action
            == Some(FileAction::Inspect { path: source }),
        FilePlanStage::VerifyingSource { index: _, target: _, source, policy, metadata: _ } => action
            == Some(FileAction::Verify { path: source, policy }),
        FilePlanStage::Copying { index, target, source, policy: _ } => action matches Some(
            FileAction::Duplicate { from, to },
        ) && from == source && to@ == beside(target@, staged_name(nonce, index as nat)),
        FilePlanStage::HashingCopy { index, target, policy: _ } => action matches Some(
            FileAction::Hash { path },
        ) && path@ == beside(target@, staged_name(nonce, index as nat)),
        FilePlanStage::InspectingCopy { index, target, policy: _ } => action matches Some(
            FileAction::Inspect { path },
        ) && path@ == beside(target@, staged_name(nonce, index as nat)),
        FilePlanStage::VerifyingCopy { index, target, policy, metadata: _ } => action matches Some(
            FileAction::Verify { path, policy: asked },
        ) && path@ == beside(target@, staged_name(nonce, index as nat)) && asked == policy,
        FilePlanStage::Discarding { index, target, error: _ } => action matches Some(
            FileAction::Remove { path },
        ) && path@ == beside(target@, staged_name(nonce, index as nat)),
        FilePlanStage::Ended { outcome: _ } => action is None,
    }
}

/// The number of the swap that a check is at.
pub open spec fn at_swap(stage: FilePlanStage) -> Option<usize> {
    match stage {
        FilePlanStage::ResolvingTarget { index } => Some(index),
        FilePlanStage::ResolvingSource { index, target: _ } => Some(index),
        FilePlanStage::HashingSource { index, target: _, source: _, policy: _ } => Some(index),
        FilePlanStage::InspectingSource { index, target: _, source: _, policy: _ } => Some(index),
        FilePlanStage::VerifyingSource {
            index,
            target: _,
            source: _,
            policy: _,
            metadata: _,
        } => Some(index),
        FilePlanStage::Copying { index, target: _, source: _, policy: _ } => Some(index),
        FilePlanStage::HashingCopy { index, target: _, policy: _ } => Some(index),
        FilePlanStage::InspectingCopy { index, target: _, policy: _ } => Some(index),
        FilePlanStage::VerifyingCopy { index, target: _, policy: _, metadata: _ } => Some(index),
        FilePlanStage::Discarding { index, target: _, error: _ } => Some(index),
        FilePlanStage::Ended { outcome: _ } => None,
    }
}

/// Whether a check has ended with `error`.
pub open spec fn check_failed(stage: FilePlanStage, error: CoreError) -> bool {
    stage == (FilePlanStage::Ended { outcome: Err(error) })
}

/// Whether a check has ended with a validation error of the given wording.
pub open spec fn check_refused(stage: FilePlanStage, wording: Seq<char>) -> bool {
    stage matches FilePlanStage::Ended { outcome: Err(error) } && says(error, wording)
}

/// Whether `stage` is where a check goes on with swap number `index`, or how it
/// ends when there is none left.
pub open spec fn check_goes_on(check: FilePlanCheck, index: int, stage: FilePlanStage) -> bool {
    if index >= check.swaps.len() {
        stage == (FilePlanStage::Ended { outcome: Ok(()) })
    } else if check.swaps@[index].game@ != check.ground.game_id@ {
        check_refused(stage, "file plan game ID mismatch"@)
    } else {
        stage matches FilePlanStage::ResolvingTarget { index: at } && at == index
    }
}

/// Whether `next` is the stage that `reply` leads to. A reply that answers some
/// other action changes nothing.
pub open spec fn file_plan_follows(
    check: FilePlanCheck,
    stage: FilePlanStage,
    reply: FileReply,
    after: FilePlanCheck,
    next: FilePlanStage,
) -> bool {
    &&& after.ground == check.ground
    &&& after.swaps == check.swaps
    &&& match (stage, reply) {
        (
            FilePlanStage::VerifyingCopy { index, target, policy: _, metadata },
            FileReply::Verified(Ok(trust)),
        ) if is_nvidia_dll(metadata, trust) => {
            &&& after.passed.len() == check.passed.len() + 1
            &&& after.passed@.drop_last() == check.passed@
            &&& is_staged_swap(
                check.ground,
                check.swaps@[index as int],
                index as nat,
                target,
                after.passed@.last(),
            )
            &&& check_goes_on(check, index + 1, next)
        },
        _ => after.passed@ == check.passed@ && file_plan_moves(check, stage, reply, next),
    }
}

/// The steps of a check that accept nothing.
pub open spec fn file_plan_moves(
    check: FilePlanCheck,
    stage: FilePlanStage,
    reply: FileReply,
    next: FilePlanStage,
) -> bool {
    match (stage, reply) {
        (FilePlanStage::ResolvingTarget { index }, FileReply::Resolved(result)) => match result {
            Err(error) => check_failed(next, error),
            Ok(target) => match target_fault(check.ground, check.swaps@[index as int], target@) {
                Some(fault) => next matches FilePlanStage::Ended { outcome: Err(error) }
                    && is_fault_error(fault, error),
                None => next == (FilePlanStage::ResolvingSource { index, target }),
            },
        },
        (FilePlanStage::ResolvingSource { index, target }, FileReply::Resolved(result)) => match result {
            Err(error) => check_failed(next, error),
            Ok(source) => match source_policy(check.ground, source@) {
                None => check_refused(next, "source is outside the validated cache"@),
                Some(policy) => next == (FilePlanStage::HashingSource {
                    index,
                    target,
                    source,
                    policy,
                }),
            },
        },
        (
            FilePlanStage::HashingSource { index, target, source, policy },
            FileReply::Hashed(result),
        ) => match result {
            Err(error) => check_failed(next, error),
            Ok(sha256) => if sha256 == check.swaps@[index as int].source_sha256 {
                next == (FilePlanStage::InspectingSource { index, target, source, policy })
            } else {
                check_refused(next, "source is outside the validated cache"@)
            },
        },
        (
            FilePlanStage::InspectingSource { index, target, source, policy },
            FileReply::Inspected(result),
        ) => match result {
            Err(error) => check_failed(next, error),
            Ok(metadata) => next == (FilePlanStage::VerifyingSource {
                index,
                target,
                source,
                policy,
                metadata,
            }),
        },
        (
            FilePlanStage::VerifyingSource { index, target, source, policy, metadata },
            FileReply::Verified(result),
        ) => match result {
            Err(error) => check_failed(next, error),
            Ok(trust) => if is_nvidia_dll(metadata, trust) {
                next == (FilePlanStage::Copying { index, target, source, policy })
            } else {
                check_refused(next, "source failed elevated NVIDIA trust validation"@)
            },
        },
        (
            FilePlanStage::Copying { index, target, source: _, policy },
            FileReply::Done(result),
        ) => match result {
            Err(error) => next == (FilePlanStage::Discarding { index, target, error }),
            Ok(_) => next == (FilePlanStage::HashingCopy { index, target, policy }),
        },
        (FilePlanStage::HashingCopy { index, target, policy }, FileReply::Hashed(result)) => match result {
            Err(error) => next == (FilePlanStage::Discarding { index, target, error }),
            Ok(sha256) => if sha256 == check.swaps@[index as int].source_sha256 {
                next == (FilePlanStage::InspectingCopy { index, target, policy })
            } else {
                is_discarding(
                    next,
                    index,
                    target,
                    "elevated source staging hash mismatch"@,
                )
            },
        },
        (
            FilePlanStage::InspectingCopy { index, target, policy },
            FileReply::Inspected(result),
        ) => match result {
            Err(error) => next == (FilePlanStage::Discarding { index, target, error }),
            Ok(metadata) => next == (FilePlanStage::VerifyingCopy {
                index,
                target,
                policy,
                metadata,
            }),
        },
        (
            FilePlanStage::VerifyingCopy { index, target, policy: _, metadata: _ },
            FileReply::Verified(result),
        ) => match result {
            Err(error) => next == (FilePlanStage::Discarding { index, target, error }),
            Ok(_) => is_discarding(
                next,
                index,
                target,
                "source failed elevated NVIDIA trust validation"@,
            ),
        },
        (FilePlanStage::Discarding { index: _, target: _, error }, FileReply::Done(_)) => {
            check_failed(next, error)
        },
        _ => next == stage,
    }
}

/// Whether a copy is being deleted because of a validation error of the given
/// wording.
pub open spec fn is_discarding(
    stage: FilePlanStage,
    index: usize,
    target: FilePath,
    wording: Seq<char>,
) -> bool {
    stage matches FilePlanStage::Discarding { index: at, target: place, error } && at == index
        && place == target && says(error, wording)
}

fn refuse(wording: &str) -> (stage: FilePlanStage)
    ensures
        check_refused(stage, wording@),
{
    FilePlanStage::Ended { outcome: Err(refused(wording)) }
}

fn fail(error: CoreError) -> (stage: FilePlanStage)
    ensures
        check_failed(stage, error),
{
    FilePlanStage::Ended { outcome: Err(error) }
}

impl FilePlanCheck {
    /// The check of the swaps of a plan.
    pub fn new(ground: PlanGround, swaps: Vec<PlannedSwap>) -> (check: FilePlanCheck)
        ensures
            check.ground == ground,
            check.swaps == swaps,
            check.passed.len() == 0,
    {
        FilePlanCheck { ground, swaps, passed: Vec::new() }
    }

    /// Where the check goes on with swap number `index`.
    pub fn go_on(&self, index: usize) -> (stage: FilePlanStage)
        ensures
            check_goes_on(*self, index as int, stage),
    {
        if index >= self.swaps.len() {
            return FilePlanStage::Ended { outcome: Ok(()) };
        }
        if !self.swaps[index].game.same(&self.ground.game_id) {
            return refuse("file plan game ID mismatch");
        }
        FilePlanStage::ResolvingTarget { index }
    }

    /// What the check asks for next.
    pub fn action(&self, stage: &FilePlanStage) -> (action: Option<FileAction>)
        requires
            at_swap(*stage) matches Some(index) ==> index < self.swaps.len(),
        ensures
            file_plan_asks(*self, *stage, action),
    {
        match stage {
            FilePlanStage::ResolvingTarget { index } => Some(
                FileAction::Resolve { path: self.swaps[*index].target_path.clone() },
            ),
            FilePlanStage::ResolvingSource { index, target: _ } => Some(
                FileAction::Resolve { path: self.swaps[*index].source_path.clone() },
            ),
            FilePlanStage::HashingSource { index: _, target: _, source, policy: _ } => Some(
                FileAction::Hash { path: source.clone() },
            ),
            FilePlanStage::InspectingSource { index: _, target: _, source, policy: _ } => Some(
                FileAction::Inspect { path: source.clone() },
            ),
            FilePlanStage::VerifyingSource { index: _, target: _, source, policy, metadata: _ } => {
                Some(FileAction::Verify { path: source.clone(), policy: *policy })
            },
            FilePlanStage::Copying { index, target, source, policy: _ } => Some(
                FileAction::Duplicate {
                    from: source.clone(),
                    to: staged_source_path(target, &self.ground.nonce, *index),
                },
            ),
            FilePlanStage::HashingCopy { index, target, policy: _ } => Some(
                FileAction::Hash { path: staged_source_path(target, &self.ground.nonce, *index) },
            ),
            FilePlanStage::InspectingCopy { index, target, policy: _ } => Some(
                FileAction::Inspect {
                    path: staged_source_path(target, &self.ground.nonce, *index),
                },
            ),
            FilePlanStage::VerifyingCopy { index, target, policy, metadata: _ } => Some(
                FileAction::Verify {
                    path: staged_source_path(target, &self.ground.nonce, *index),
                    policy: *policy,
                },
            ),
            FilePlanStage::Discarding { index, target, error: _ } => Some(
                FileAction::Remove { path: staged_source_path(target, &self.ground.nonce, *index) },
            ),
            FilePlanStage::Ended { outcome: _ } => None,
        }
    }

    fn pass(&mut self, index: usize, target: FilePath) -> (next: FilePlanStage)
        requires
            index < old(self).swaps.len(),
        ensures
            final(self).ground == old(self).ground,
            final(self).swaps == old(self).swaps,
            final(self).passed.len() == old(self).passed.len() + 1,
            final(self).passed@.drop_last() == old(self).passed@,
            is_staged_swap(
                old(self).ground,
                old(self).swaps@[index as int],
                index as nat,
                target,
                final(self).passed@.last(),
            ),
            check_goes_on(*old(self), index + 1, next),
    {
        let swap = self.swaps[index].clone();
        let staged = staged_source_path(&target, &self.ground.nonce, index);
        let ghost before = self.passed@;
        self.passed.push(PlannedSwap { target_path: target, source_path: staged, ..swap });
        proof {
            assert(self.passed@.drop_last() =~= before);
        }
        self.go_on(index + 1)
    }

    /// The stage that `reply` leads to.
    pub fn validate_file_plan(&mut self, stage: FilePlanStage, reply: FileReply) -> (next:
        FilePlanStage)
        requires
            at_swap(stage) matches Some(index) ==> index < old(self).swaps.len(),
        ensures
            file_plan_follows(*old(self), stage, reply, *final(self), next),
            at_swap(next) matches Some(index) ==> index < final(self).swaps.len(),
    {
        match (stage, reply) {
            (FilePlanStage::ResolvingTarget { index }, FileReply::Resolved(result)) => match result {
                Err(error) => fail(error),
                Ok(target) => match check_target(&self.ground, &self.swaps[index], &target) {
                    Err(error) => fail(error),
                    Ok(_) => FilePlanStage::ResolvingSource { index, target },
                },
            },
            (FilePlanStage::ResolvingSource { index, target }, FileReply::Resolved(result)) => match result {
                Err(error) => fail(error),
                Ok(source) => match policy_for_source(&self.ground, &source) {
                    None => refuse("source is outside the validated cache"),
                    Some(policy) => FilePlanStage::HashingSource { index, target, source, policy },
                },
            },
            (
                FilePlanStage::HashingSource { index, target, source, policy },
                FileReply::Hashed(result),
            ) => match result {
                Err(error) => fail(error),
                Ok(sha256) => if same_hash(&sha256, &self.swaps[index].source_sha256) {
                    FilePlanStage::InspectingSource { index, target, source, policy }
                } else {
                    refuse("source is outside the validated cache")
                },
            },
            (
                FilePlanStage::InspectingSource { index, target, source, policy },
                FileReply::Inspected(result),
            ) => match result {
                Err(error) => fail(error),
                Ok(metadata) => FilePlanStage::VerifyingSource {
                    index,
                    target,
                    source,
                    policy,
                    metadata,
                },
            },
            (
                FilePlanStage::VerifyingSource { index, target, source, policy, metadata },
                FileReply::Verified(result),
            ) => match result {
                Err(error) => fail(error),
                Ok(trust) => match check_nvidia_dll(&metadata, &trust) {
                    Ok(_) => FilePlanStage::Copying { index, target, source, policy },
                    Err(error) => fail(error),
                },
            },
            (
                FilePlanStage::Copying { index, target, source: _, policy },
                FileReply::Done(result),
            ) => match result {
                Err(error) => FilePlanStage::Discarding { index, target, error },
                Ok(_) => FilePlanStage::HashingCopy { index, target, policy },
            },
            (FilePlanStage::HashingCopy { index, target, policy }, FileReply::Hashed(result)) => match result {
                Err(error) => FilePlanStage::Discarding { index, target, error },
                Ok(sha256) => if same_hash(&sha256, &self.swaps[index].source_sha256) {
                    FilePlanStage::InspectingCopy { index, target, policy }
                } else {
                    FilePlanStage::Discarding {
                        index,
                        target,
                        error: refused("elevated source staging hash mismatch"),
                    }
                },
            },
            (
                FilePlanStage::InspectingCopy { index, target, policy },
                FileReply::Inspected(result),
            ) => match result {
                Err(error) => FilePlanStage::Discarding { index, target, error },
                Ok(metadata) => FilePlanStage::VerifyingCopy { index, target, policy, metadata },
            },
            (
                FilePlanStage::VerifyingCopy { index, target, policy: _, metadata },
                FileReply::Verified(result),
            ) => match result {
                Err(error) => FilePlanStage::Discarding { index, target, error },
                Ok(trust) => match check_nvidia_dll(&metadata, &trust) {
                    Ok(_) => self.pass(index, target),
                    Err(error) => FilePlanStage::Discarding { index, target, error },
                },
            },
            (FilePlanStage::Discarding { index: _, target: _, error }, FileReply::Done(_)) => fail(
                error,
            ),
            (stage, _) => stage,
        }
    }
}

/// A swap passes only at the end of a chain in which every link was checked:
/// its target is a managed DLL inside the game's folder, found again with the
/// expected digest; its source lies in one of the places that this program
/// fills, has its digest and is signed by NVIDIA; and the private copy that is
/// used in its place has that digest and is signed by NVIDIA as well.
pub proof fn only_checked_swaps_pass(
    check: FilePlanCheck,
    stage: FilePlanStage,
    reply: FileReply,
    after: FilePlanCheck,
    next: FilePlanStage,
)
    requires
        file_plan_follows(check, stage, reply, after, next),
        next != stage,
    ensures
        next matches FilePlanStage::ResolvingSource { index, target } ==> stage
            == (FilePlanStage::ResolvingTarget { index }) && is_within(
            target@,
            check.ground.game_root@,
        ) && path_kind(target@) is Some && target_fault(
            check.ground,
            check.swaps@[index as int],
            target@,
        ) is None,
        next matches FilePlanStage::HashingSource { index, target, source, policy } ==> stage
            == (FilePlanStage::ResolvingSource { index, target }) && source_policy(
            check.ground,
            source@,
        ) == Some(policy),
        next matches FilePlanStage::InspectingSource { index, target, source, policy } ==> stage
            == (FilePlanStage::HashingSource { index, target, source, policy }) && reply
            == FileReply::Hashed(Ok(check.swaps@[index as int].source_sha256)),
        next matches FilePlanStage::Copying { index, target, source, policy } ==> (stage
            matches FilePlanStage::VerifyingSource {
            index: at,
            target: place,
            source: origin,
            policy: asked,
            metadata,
        } && at == index && place == target && origin == source && asked == policy && (reply
            matches FileReply::Verified(Ok(trust)) && is_nvidia_dll(metadata, trust))),
        next matches FilePlanStage::InspectingCopy { index, target, policy } ==> stage
            == (FilePlanStage::HashingCopy { index, target, policy }) && reply
            == FileReply::Hashed(Ok(check.swaps@[index as int].source_sha256)),
        after.passed@ != check.passed@ ==> (stage matches FilePlanStage::VerifyingCopy {
            index,
            target,
            policy: _,
            metadata,
        } && (reply matches FileReply::Verified(Ok(trust)) && is_nvidia_dll(metadata, trust))
            && is_staged_swap(
            check.ground,
            check.swaps@[index as int],
            index as nat,
            target,
            after.passed@.last(),
        )),
{
}

/// The plan that the helper carries out.
pub fn checked_operation(nonce: String, passed: Vec<PlannedSwap>) -> (operation: OperationPlan)
    ensures
        operation.nonce == nonce,
        operation.swaps == passed,
{
    OperationPlan { nonce, swaps: passed }
}

/// The position that a DLL is found at is that of the first one with its
/// identifier; where none has it, there is no position.
pub proof fn the_first_located_dll_counts(installations: Seq<LocatedDll>, id: Seq<char>) -> (at:
    int)
    ensures
        at == located_position(installations, id),
        0 <= at <= installations.len(),
        at < installations.len() ==> installations[at].dll.id@ == id,
        forall|i: int| 0 <= i < at ==> (#[trigger] installations[i]).dll.id@ != id,
    decreases installations.len(),
{
    if installations.len() == 0 {
        0
    } else {
        let shorter = installations.drop_last();
        let before = the_first_located_dll_counts(shorter, id);
        assert forall|i: int| 0 <= i < before implies (#[trigger] installations[i]).dll.id@
            != id by {
            assert(shorter[i] == installations[i]);
        }
        if before < shorter.len() {
            assert(shorter[before] == installations[before]);
        }
        located_position(installations, id)
    }
}

/// Whether the target of a swap is what the plan says: a managed DLL inside the
/// game's folder, found again as number `at` with the identifier, the game, the
/// place and the digest that the plan names.
pub open spec fn is_sound_target(
    ground: PlanGround,
    swap: PlannedSwap,
    target: Seq<char>,
    at: int,
) -> bool {
    &&& is_within(target, ground.game_root@)
    &&& path_kind(target) is Some
    &&& 0 <= at < ground.installations.len()
    &&& ground.installations@[at].dll.id@ == swap.installation@
    &&& forall|i: int|
        0 <= i < at ==> (#[trigger] ground.installations@[i]).dll.id@ != swap.installation@
    &&& ground.installations@[at].dll.game_id@ == ground.game_id@
    &&& ground.installations@[at].place matches Ok(place) && place@ == target
    &&& ground.installations@[at].dll.metadata.sha256 == swap.expected_sha256
}

/// A target passes exactly where it is what the plan says.
pub proof fn sound_targets_pass(ground: PlanGround, swap: PlannedSwap, target: Seq<char>) -> (at:
    int)
    ensures
        target_fault(ground, swap, target) is None <==> is_sound_target(ground, swap, target, at),
        forall|other: int|
            #[trigger] is_sound_target(ground, swap, target, other) ==> other == at,
{
    let at = the_first_located_dll_counts(ground.installations@, swap.installation@);
    assert forall|other: int| #[trigger] is_sound_target(ground, swap, target, other) implies other
        == at by {
        if at < other {
            assert(ground.installations@[at].dll.id@ == swap.installation@);
        }
        if other < at {
            assert(ground.installations@[other].dll.id@ == swap.installation@);
        }
    }
    at
}

/// A swap that is sound all the way passes, and nothing else comes of the
/// check: its target is what the plan says; its source lies among the releases,
/// or else among the backups or imports, and is verified leniently in the first
/// case alone; the source and the copy of it have the digest that the plan
/// names and are signed by NVIDIA. The swap that is carried out is that of the
/// plan, at the place where the target really is and from the copy beside it.
/// The check then goes on to the next swap.
pub proof fn a_sound_swap_passes(
    index: usize,
    at: int,
    target: FilePath,
    source: FilePath,
    replies: Seq<FileReply>,
    checks: Seq<FilePlanCheck>,
    stages: Seq<FilePlanStage>,
)
    requires
        replies.len() == 9,
        checks.len() == 10,
        stages.len() == 10,
        index < checks[0].swaps.len(),
        stages[0] == (FilePlanStage::ResolvingTarget { index }),
        forall|i: int|
            0 <= i < 9 ==> file_plan_follows(
                checks[i],
                stages[i],
                #[trigger] replies[i],
                checks[i + 1],
                stages[i + 1],
            ),
        ({
            let ground = checks[0].ground;
            let swap = checks[0].swaps@[index as int];
            &&& replies[0] == FileReply::Resolved(Ok(target))
            &&& is_sound_target(ground, swap, target@, at)
            &&& replies[1] == FileReply::Resolved(Ok(source))
            &&& is_within(source@, ground.releases@) || (ground.backups matches Some(root)
                && is_within(source@, root@)) || (ground.imports matches Some(root) && is_within(
                source@,
                root@,
            ))
            &&& replies[2] == FileReply::Hashed(Ok(swap.source_sha256))
            &&& replies[6] == FileReply::Hashed(Ok(swap.source_sha256))
            &&& replies[5] == FileReply::Done(Ok(()))
        }),
        replies[3] matches FileReply::Inspected(Ok(metadata)) && metadata.x86_64
            && metadata.version is Some,
        replies[7] matches FileReply::Inspected(Ok(metadata)) && metadata.x86_64
            && metadata.version is Some,
        replies[4] matches FileReply::Verified(Ok(trust)) && trust.signature
            == SignatureStatus::Trusted && nvidia_signature(trust.signer),
        replies[8] matches FileReply::Verified(Ok(trust)) && trust.signature
            == SignatureStatus::Trusted && nvidia_signature(trust.signer),
    ensures
        file_plan_asks(
            checks[4],
            stages[4],
            Some(
                FileAction::Verify {
                    path: source,
                    policy: if is_within(source@, checks[0].ground.releases@) {
                        TrustPolicy::OfficialNvidiaCatalog
                    } else {
                        TrustPolicy::Strict
                    },
                },
            ),
        ),
        ({
            let swap = checks[0].swaps@[index as int];
            let passed = checks[9].passed@;
            &&& passed.len() == checks[0].passed.len() + 1
            &&& passed.drop_last() == checks[0].passed@
            &&& passed.last().game == swap.game
            &&& passed.last().installation == swap.installation
            &&& passed.last().target_path == target
            &&& passed.last().expected_sha256 == swap.expected_sha256
            &&& passed.last().source_path@ == beside(
                target@,
                staged_name(checks[0].ground.nonce@, index as nat),
            )
            &&& passed.last().source_sha256 == swap.source_sha256
            &&& passed.last().comparison == swap.comparison
        }),
        index + 1 == checks[0].swaps.len() ==> stages[9] == (FilePlanStage::Ended {
            outcome: Ok(()),
        }),
        index + 1 < checks[0].swaps.len() && checks[0].swaps@[index + 1].game@
            == checks[0].ground.game_id@ ==> (stages[9] matches FilePlanStage::ResolvingTarget {
            index: next,
        } && next == index + 1),
        index + 1 < checks[0].swaps.len() && checks[0].swaps@[index + 1].game@
            != checks[0].ground.game_id@ ==> (stages[9] matches FilePlanStage::Ended {
            outcome: Err(_),
        }),
{
    let swap = checks[0].swaps@[index as int];
    let found = sound_targets_pass(checks[0].ground, swap, target@);
    assert(is_sound_target(checks[0].ground, swap, target@, at));
    assert(file_plan_follows(checks[0], stages[0], replies[0], checks[1], stages[1]));
    assert(file_plan_follows(checks[1], stages[1], replies[1], checks[2], stages[2]));
    assert(file_plan_follows(checks[2], stages[2], replies[2], checks[3], stages[3]));
    assert(file_plan_follows(checks[3], stages[3], replies[3], checks[4], stages[4]));
    assert(file_plan_follows(checks[4], stages[4], replies[4], checks[5], stages[5]));
    assert(file_plan_follows(checks[5], stages[5], replies[5], checks[6], stages[6]));
    assert(file_plan_follows(checks[6], stages[6], replies[6], checks[7], stages[7]));
    assert(file_plan_follows(checks[7], stages[7], replies[7], checks[8], stages[8]));
    assert(file_plan_follows(checks[8], stages[8], replies[8], checks[9], stages[9]));
}

/// The private copies that the helper makes stand beside their targets under
/// names of their own: no two swaps of a plan share one.
pub proof fn copies_are_told_apart(nonce: Seq<char>, left: nat, right: nat)
    requires
        staged_name(nonce, left) == staged_name(nonce, right),
    ensures
        left == right,
{
    let head = ".dlss-source-"@ + nonce + "-"@;
    let tail = ".dll"@;
    let first = crate::text::decimal(left);
    let second = crate::text::decimal(right);
    let whole = head + first + tail;
    assert(whole == head + second + tail);
    assert((head + first + tail).len() == (head + second + tail).len());
    let end = (head.len() + first.len()) as int;
    assert(whole.subrange(head.len() as int, end) =~= first);
    assert((head + second + tail).subrange(head.len() as int, end) =~= second);
    crate::text::written_numbers_are_read_back(left);
    crate::text::written_numbers_are_read_back(right);
}

/// A plan belongs to the game that it names where a store has that game at that
/// place, or where it is a game that the user added and the identifier is the
/// one made from the folder. A game of a store is not taken on the word of its
/// identifier.
pub proof fn games_are_where_they_are_said_to_be(
    discovered: Seq<LocatedGame>,
    manual: Option<GameId>,
    id: Seq<char>,
    root: Seq<char>,
)
    ensures
        (exists|i: int|
            0 <= i < discovered.len() && (#[trigger] discovered[i]).id@ == id
                && discovered[i].root is Some && discovered[i].root->0@ == root) ==> game_is_at(
            discovered,
            manual,
            id,
            root,
        ),
        game_is_at(discovered, manual, id, root) && !begins(id, "manual:"@) ==> exists|i: int|
            0 <= i < discovered.len() && (#[trigger] discovered[i]).id@ == id
                && discovered[i].root is Some && discovered[i].root->0@ == root,
        begins(id, "manual:"@) && manual is Some && manual->0@ == id ==> game_is_at(
            discovered,
            manual,
            id,
            root,
        ),
        manual is None || manual->0@ != id ==> (game_is_at(discovered, manual, id, root)
            <==> exists|i: int|
            0 <= i < discovered.len() && (#[trigger] discovered[i]).id@ == id
                && discovered[i].root is Some && discovered[i].root->0@ == root),
{
    if exists|i: int|
        0 <= i < discovered.len() && (#[trigger] discovered[i]).id@ == id && discovered[i].root
            is Some && discovered[i].root->0@ == root {
        let i = choose|i: int|
            0 <= i < discovered.len() && (#[trigger] discovered[i]).id@ == id && discovered[i].root
                is Some && discovered[i].root->0@ == root;
        assert(is_game_at(discovered[i], id, root));
    }
    if exists|i: int| 0 <= i < discovered.len() && is_game_at(#[trigger] discovered[i], id, root) {
        let i = choose|i: int|
            0 <= i < discovered.len() && is_game_at(#[trigger] discovered[i], id, root);
        assert(discovered[i].id@ == id && discovered[i].root is Some && discovered[i].root->0@
            == root);
    }
}

} // verus!
