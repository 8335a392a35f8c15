//! The DLSS on-screen indicator: what its registry value says, how it is
//! changed, and how it is put back.

use crate::digest::{digest_of, same_hash, sha256};
use crate::discovery::{is_missing_registry_error, says_missing, RegistryError};
use crate::elevation::{ensure_indicator_id, is_indicator, says};
use crate::tools::{
    copy_bytes, list_bytes, RegistryValueSnapshot, RegistryView, SystemToolDefinition,
    SystemToolId, SystemToolScope, SystemToolState, ToolChangePlan, ToolChangeResult,
    ToolRestorePoint, DLSS_INDICATOR_TOOL_ID,
};
use crate::traits::{refused, CoreError};
use vstd::prelude::*;

verus! {

/// The registry type of a 32-bit number.
pub const REG_DWORD: u32 = 4;

/// The number that bytes stand for, the lowest first.
pub open spec fn little_endian(bytes: Seq<u8>) -> nat
    decreases bytes.len(),
{
    if bytes.len() == 0 {
        0
    } else {
        bytes[0] as nat + 256 * little_endian(bytes.drop_first())
    }
}

/// A number as `count` bytes, the lowest first.
pub open spec fn little_endian_bytes(value: nat, count: nat) -> Seq<u8>
    decreases count,
{
    if count == 0 {
        Seq::empty()
    } else {
        seq![(value % 256) as u8] + little_endian_bytes(value / 256, (count - 1) as nat)
    }
}

/// 256 to the power `count`.
pub open spec fn byte_range(count: nat) -> nat
    decreases count,
{
    if count == 0 {
        1
    } else {
        256 * byte_range((count - 1) as nat)
    }
}

/// A number that fits comes back from its bytes.
pub proof fn bytes_give_the_number_back(value: nat, count: nat)
    requires
        value < byte_range(count),
    ensures
        little_endian_bytes(value, count).len() == count,
        little_endian(little_endian_bytes(value, count)) == value,
    decreases count,
{
    if count > 0 {
        let rest = (count - 1) as nat;
        assert(value / 256 < byte_range(rest)) by (nonlinear_arith)
            requires
                value < 256 * byte_range(rest),
        ;
        bytes_give_the_number_back(value / 256, rest);
        let bytes = little_endian_bytes(value, count);
        assert(bytes.drop_first() =~= little_endian_bytes(value / 256, rest));
    }
}

/// Appends `value` as `count` bytes, the lowest first.
fn push_little_endian(bytes: &mut Vec<u8>, value: u64, count: usize)
    ensures
        final(bytes)@ == old(bytes)@ + little_endian_bytes(value as nat, count as nat),
    decreases count,
{
    if count == 0 {
        proof {
            assert(bytes@ =~= old(bytes)@ + Seq::<u8>::empty());
        }
        return ;
    }
    bytes.push((value % 256) as u8);
    push_little_endian(bytes, value / 256, count - 1);
    proof {
        assert(bytes@ =~= old(bytes)@ + little_endian_bytes(value as nat, count as nat));
    }
}

/// Whether `state` is what a registry value of this type and content says.
pub open spec fn tells(registry_type: u32, raw: Seq<u8>, state: SystemToolState) -> bool {
    if registry_type != REG_DWORD || raw.len() != 4 {
        state matches SystemToolState::UnexpectedType { registry_type: kept, raw: bytes } && kept
            == registry_type && bytes@ == raw
    } else {
        state == if little_endian(raw) == 0 {
            SystemToolState::Off
        } else if little_endian(raw) == 1 {
            SystemToolState::DlssIndicatorDebug
        } else if little_endian(raw) == 1024 {
            SystemToolState::DlssIndicatorProduction
        } else {
            SystemToolState::CustomDword(little_endian(raw) as u32)
        }
    }
}

/// The state that a registry value stands for. A value that the program does
/// not know is kept as it is.
pub fn indicator_state(value: Option<(u32, &[u8])>) -> (state: SystemToolState)
    ensures
        match value {
            None => state == SystemToolState::NotConfigured,
            Some((registry_type, raw)) => tells(registry_type, raw@, state),
        },
{
    let (registry_type, raw) = match value {
        None => {
            return SystemToolState::NotConfigured;
        },
        Some(pair) => pair,
    };
    if registry_type != REG_DWORD || raw.len() != 4 {
        return SystemToolState::UnexpectedType { registry_type, raw: list_bytes(raw) };
    }
    let number: u32 = raw[0] as u32 + 256 * (raw[1] as u32 + 256 * (raw[2] as u32 + 256 * (
    raw[3] as u32)));
    proof {
        reveal_with_fuel(little_endian, 5);
        assert(number == little_endian(raw@));
    }
    if number == 0 {
        SystemToolState::Off
    } else if number == 1 {
        SystemToolState::DlssIndicatorDebug
    } else if number == 1024 {
        SystemToolState::DlssIndicatorProduction
    } else {
        SystemToolState::CustomDword(number)
    }
}

/// Whether `state` is what a snapshot says.
pub open spec fn snapshot_tells(snapshot: RegistryValueSnapshot, state: SystemToolState) -> bool {
    if !snapshot.existed {
        state == SystemToolState::NotConfigured
    } else {
        tells(
            match snapshot.registry_type {
                Some(registry_type) => registry_type,
                None => 0,
            },
            snapshot.raw@,
            state,
        )
    }
}

/// The state that a snapshot stands for.
pub fn snapshot_state(snapshot: &RegistryValueSnapshot) -> (state: SystemToolState)
    ensures
        snapshot_tells(*snapshot, state),
{
    if !snapshot.existed {
        return SystemToolState::NotConfigured;
    }
    let registry_type: u32 = match snapshot.registry_type {
        Some(registry_type) => registry_type,
        None => 0,
    };
    indicator_state(Some((registry_type, snapshot.raw.as_slice())))
}

/// A snapshot as bytes, without the moment at which it was taken.
pub open spec fn snapshot_bytes(snapshot: RegistryValueSnapshot) -> Seq<u8> {
    let front = seq![
        if snapshot.existed {
            1u8
        } else {
            0u8
        },
        match snapshot.registry_view {
            RegistryView::View32 => 32u8,
            RegistryView::View64 => 64u8,
        },
    ];
    let kind = match snapshot.registry_type {
        Some(registry_type) => seq![1u8] + little_endian_bytes(registry_type as nat, 4),
        None => seq![0u8],
    };
    front + kind + little_endian_bytes(snapshot.raw@.len(), 8) + snapshot.raw@
}

/// The digest by which a registry value is recognized again.
pub fn snapshot_hash(snapshot: &RegistryValueSnapshot) -> (hash: [u8; 32])
    ensures
        hash@ == sha256(snapshot_bytes(*snapshot)),
{
    let mut bytes: Vec<u8> = Vec::new();
    bytes.push(if snapshot.existed {
        1
    } else {
        0
    });
    bytes.push(
        match snapshot.registry_view {
            RegistryView::View32 => 32,
            RegistryView::View64 => 64,
        },
    );
    match snapshot.registry_type {
        Some(registry_type) => {
            bytes.push(1);
            push_little_endian(&mut bytes, registry_type as u64, 4);
        },
        None => {
            bytes.push(0);
        },
    }
    push_little_endian(&mut bytes, snapshot.raw.len() as u64, 8);
    let mut at: usize = 0;
    let ghost front = bytes@;
    while at < snapshot.raw.len()
        invariant
            at <= snapshot.raw.len(),
            bytes@ == front + snapshot.raw@.take(at as int),
        decreases snapshot.raw.len() - at,
    {
        bytes.push(snapshot.raw[at]);
        at += 1;
        proof {
            assert(bytes@ =~= front + snapshot.raw@.take(at as int));
        }
    }
    proof {
        assert(snapshot.raw@.take(at as int) =~= snapshot.raw@);
        assert(bytes@ =~= snapshot_bytes(*snapshot));
    }
    digest_of(bytes.as_slice())
}

/// Snapshots that differ in more than the moment at which they were taken are
/// written as different bytes, so that only a collision of digests can confuse
/// them.
pub proof fn snapshots_are_told_apart(left: RegistryValueSnapshot, right: RegistryValueSnapshot)
    requires
        snapshot_bytes(left) == snapshot_bytes(right),
    ensures
        left.existed == right.existed,
        left.registry_view == right.registry_view,
        left.registry_type == right.registry_type,
        left.raw@ == right.raw@,
{
    let one = snapshot_bytes(left);
    let two = snapshot_bytes(right);
    assert(one[0] == two[0] && one[1] == two[1] && one[2] == two[2]);
    assert(byte_range(4) == 0x1_0000_0000) by {
        reveal_with_fuel(byte_range, 5);
    }
    let start: int = match left.registry_type {
        Some(_) => 7,
        None => 3,
    };
    if let Some(registry_type) = left.registry_type {
        let other = right.registry_type->0;
        bytes_give_the_number_back(registry_type as nat, 4);
        bytes_give_the_number_back(other as nat, 4);
        assert(one.subrange(3, 7) =~= little_endian_bytes(registry_type as nat, 4));
        assert(two.subrange(3, 7) =~= little_endian_bytes(other as nat, 4));
    }
    little_endian_length(left.raw@.len(), 8);
    little_endian_length(right.raw@.len(), 8);
    assert(one.skip(start + 8) =~= left.raw@);
    assert(two.skip(start + 8) =~= right.raw@);
}

proof fn little_endian_length(value: nat, count: nat)
    ensures
        little_endian_bytes(value, count).len() == count,
    decreases count,
{
    if count > 0 {
        little_endian_length(value / 256, (count - 1) as nat);
    }
}

/// The number written for a state, for the states that can be asked for.
pub open spec fn written_value(state: SystemToolState) -> Option<u32> {
    match state {
        SystemToolState::Off => Some(0),
        SystemToolState::DlssIndicatorDebug => Some(1),
        SystemToolState::DlssIndicatorProduction => Some(1024),
        _ => None,
    }
}

/// Checks a change before anything is read: it is for the indicator, and it
/// does not ask for a restore at the same time.
pub fn admit_change(plan: &ToolChangePlan) -> (checked: Result<(), CoreError>)
    ensures
        checked is Ok <==> is_indicator(plan.tool_id) && plan.restore_point is None,
        checked matches Err(error) ==> says(
            error,
            if is_indicator(plan.tool_id) {
                "apply plan unexpectedly contains a restore point"@
            } else {
                "unknown system tool ID"@
            },
        ),
{
    if let Err(error) = ensure_indicator_id(&plan.tool_id) {
        return Err(error);
    }
    if plan.restore_point.is_some() {
        return Err(refused("apply plan unexpectedly contains a restore point"));
    }
    Ok(())
}

/// The number to write for a change, given the value as it is: none if the
/// value is no longer what the plan was made for, or if the state asked for is
/// not one of those that can be set.
pub fn value_to_write(plan: &ToolChangePlan, before: &RegistryValueSnapshot) -> (value: Result<
    u32,
    CoreError,
>)
    ensures
        ({
            let fresh = sha256(snapshot_bytes(*before)) == plan.expected_current_hash@;
            &&& value matches Ok(number) ==> fresh && written_value(plan.desired) == Some(number)
            &&& value matches Err(error) ==> if fresh {
                written_value(plan.desired) is None && says(error, "unsupported indicator state"@)
            } else {
                error == CoreError::StalePlan
            }
        }),
{
    let hash = snapshot_hash(before);
    proof {
        if hash@ == plan.expected_current_hash@ {
            assert(hash =~= plan.expected_current_hash);
        }
    }
    if !same_hash(&hash, &plan.expected_current_hash) {
        return Err(CoreError::StalePlan);
    }
    match &plan.desired {
        SystemToolState::Off => Ok(0),
        SystemToolState::DlssIndicatorDebug => Ok(1),
        SystemToolState::DlssIndicatorProduction => Ok(1024),
        _ => Err(refused("unsupported indicator state")),
    }
}

/// Whether `result` is what a change gives back: the state as read after the
/// write, and the value before it as a restore point.
pub open spec fn is_change_result(
    plan: ToolChangePlan,
    before: RegistryValueSnapshot,
    after: RegistryValueSnapshot,
    app_version: Seq<char>,
    result: ToolChangeResult,
) -> bool {
    &&& result.tool_id == plan.tool_id
    &&& snapshot_tells(after, result.state)
    &&& result.restore_point matches Some(point)
    &&& point.tool_id == plan.tool_id
    &&& point.snapshot == before
    &&& point.state_after_hash@ == sha256(snapshot_bytes(after))
    &&& point.app_version@ == app_version
}

/// What a change gives back.
pub fn change_result(
    plan: &ToolChangePlan,
    before: RegistryValueSnapshot,
    after: &RegistryValueSnapshot,
    app_version: &str,
) -> (result: ToolChangeResult)
    ensures
        is_change_result(*plan, before, *after, app_version@, result),
{
    ToolChangeResult {
        tool_id: plan.tool_id.clone(),
        state: snapshot_state(after),
        restore_point: Some(
            ToolRestorePoint {
                tool_id: plan.tool_id.clone(),
                snapshot: before,
                state_after_hash: snapshot_hash(after),
                app_version: app_version.to_owned(),
            },
        ),
    }
}

/// What has to be done to the registry to go back.
#[derive(Debug, PartialEq, Eq)]
pub enum RestoreStep {
    /// Write these bytes under this type.
    Write { registry_type: u32, raw: Vec<u8> },
    /// Remove the value, if there is one.
    Remove,
}

/// Whether a restore may go ahead on the value as it is.
pub open spec fn may_restore(
    point: ToolRestorePoint,
    current: RegistryValueSnapshot,
    expected: Seq<u8>,
    allow_stale: bool,
) -> bool {
    &&& sha256(snapshot_bytes(current)) == expected
    &&& allow_stale || expected == point.state_after_hash@
}

/// Checks a restore against the value as it is. A value that changed since it
/// was last seen is not overwritten, nor is one that the recorded change did not
/// leave unless the user allowed that.
pub fn admit_restore(
    point: &ToolRestorePoint,
    current: &RegistryValueSnapshot,
    expected_current_hash: &[u8; 32],
    allow_stale: bool,
) -> (checked: Result<(), CoreError>)
    ensures
        checked == if may_restore(*point, *current, expected_current_hash@, allow_stale) {
            Ok::<(), CoreError>(())
        } else {
            Err(CoreError::StalePlan)
        },
{
    let hash = snapshot_hash(current);
    proof {
        if hash@ == expected_current_hash@ {
            assert(hash =~= *expected_current_hash);
        }
        if expected_current_hash@ == point.state_after_hash@ {
            assert(*expected_current_hash =~= point.state_after_hash);
        }
    }
    if !same_hash(&hash, expected_current_hash) || (!allow_stale && !same_hash(
        expected_current_hash,
        &point.state_after_hash,
    )) {
        return Err(CoreError::StalePlan);
    }
    Ok(())
}

/// Whether `step` is what puts a recorded value back.
pub open spec fn is_restore_step(
    point: ToolRestorePoint,
    step: Result<RestoreStep, CoreError>,
) -> bool {
    if !point.snapshot.existed {
        step == Ok::<RestoreStep, CoreError>(RestoreStep::Remove)
    } else {
        match point.snapshot.registry_type {
            Some(registry_type) => step matches Ok(
                RestoreStep::Write { registry_type: kind, raw },
            ) && kind == registry_type && raw@ == point.snapshot.raw@,
            None => step matches Err(error) && says(error, "restore type is missing"@),
        }
    }
}

/// The step that puts a recorded value back.
pub fn restore_step(point: &ToolRestorePoint) -> (step: Result<RestoreStep, CoreError>)
    ensures
        is_restore_step(*point, step),
{
    if !point.snapshot.existed {
        return Ok(RestoreStep::Remove);
    }
    match point.snapshot.registry_type {
        Some(registry_type) => Ok(
            RestoreStep::Write { registry_type, raw: copy_bytes(&point.snapshot.raw) },
        ),
        None => Err(refused("restore type is missing")),
    }
}

/// Whether `result` is what a restore gives back: the state as read after it,
/// and no way further back.
pub open spec fn is_restore_result(
    point: ToolRestorePoint,
    after: RegistryValueSnapshot,
    result: ToolChangeResult,
) -> bool {
    &&& result.tool_id == point.tool_id
    &&& snapshot_tells(after, result.state)
    &&& result.restore_point is None
}

/// What a restore gives back.
pub fn restore_result(point: &ToolRestorePoint, after: &RegistryValueSnapshot) -> (result:
    ToolChangeResult)
    ensures
        is_restore_result(*point, *after, result),
{
    ToolChangeResult {
        tool_id: point.tool_id.clone(),
        state: snapshot_state(after),
        restore_point: None,
    }
}

/// What became of the attempt to read the registry value.
#[derive(Debug, PartialEq, Eq)]
pub enum RegistryRead {
    /// The key that holds the value could not be opened.
    Closed,
    Failed(RegistryError),
    Value { registry_type: u32, raw: Vec<u8> },
}

/// Whether `snapshot` records a value of the registry that has these contents,
/// or that there is none.
pub open spec fn records(
    snapshot: RegistryValueSnapshot,
    value: Option<(u32, Seq<u8>)>,
) -> bool {
    &&& snapshot.registry_view == RegistryView::View64
    &&& match value {
        Some((registry_type, raw)) => {
            &&& snapshot.existed
            &&& snapshot.registry_type == Some(registry_type)
            &&& snapshot.raw@ == raw
        },
        None => !snapshot.existed && snapshot.registry_type is None && snapshot.raw.len() == 0,
    }
}

/// What a change or a restore asks for next.
#[derive(Debug, PartialEq, Eq)]
pub enum IndicatorAction {
    /// Read the value; answered by [`IndicatorReply::Read`].
    Read,
    /// Open the key for writing, and create it if need be; answered, as the
    /// following are, by [`IndicatorReply::Done`].
    Open,
    WriteNumber { number: u32 },
    WriteBytes { registry_type: u32, raw: Vec<u8> },
    /// Remove the value, if there is one.
    Remove,
    Rest,
}

/// What came of it.
#[derive(Debug, PartialEq, Eq)]
pub enum IndicatorReply {
    Read(Result<RegistryValueSnapshot, CoreError>),
    Done(Result<(), CoreError>),
}

/// How far a change has come.
#[derive(Debug, PartialEq, Eq)]
pub enum ChangeStage {
    Reading,
    Opening { before: RegistryValueSnapshot, number: u32 },
    Writing { before: RegistryValueSnapshot, number: u32 },
    ReadingBack { before: RegistryValueSnapshot },
    Ended { outcome: Result<ToolChangeResult, CoreError> },
}

/// How far a restore has come.
#[derive(Debug, PartialEq, Eq)]
pub enum RestoreStage {
    Reading,
    Opening,
    Writing { registry_type: u32, raw: Vec<u8> },
    Removing,
    ReadingBack,
    Ended { outcome: Result<ToolChangeResult, CoreError> },
}

/// Whether a change begins with this stage.
pub open spec fn change_begins(plan: ToolChangePlan, stage: ChangeStage) -> bool {
    if !is_indicator(plan.tool_id) {
        stage matches ChangeStage::Ended { outcome: Err(error) } && says(
            error,
            "unknown system tool ID"@,
        )
    } else if plan.restore_point is Some {
        stage matches ChangeStage::Ended { outcome: Err(error) } && says(
            error,
            "apply plan unexpectedly contains a restore point"@,
        )
    } else {
        stage == ChangeStage::Reading
    }
}

/// What a change asks for at a stage.
pub open spec fn change_asks(stage: ChangeStage) -> IndicatorAction {
    match stage {
        ChangeStage::Reading => IndicatorAction::Read,
        ChangeStage::Opening { before: _, number: _ } => IndicatorAction::Open,
        ChangeStage::Writing { before: _, number } => IndicatorAction::WriteNumber { number },
        ChangeStage::ReadingBack { before: _ } => IndicatorAction::Read,
        ChangeStage::Ended { outcome: _ } => IndicatorAction::Rest,
    }
}

/// Whether a change has failed.
pub open spec fn change_failed(stage: ChangeStage, error: CoreError) -> bool {
    stage == (ChangeStage::Ended { outcome: Err(error) })
}

/// Whether `next` is the stage of a change that `reply` leads to. A reply that
/// answers some other action changes nothing.
pub open spec fn change_follows(
    plan: ToolChangePlan,
    app_version: Seq<char>,
    stage: ChangeStage,
    reply: IndicatorReply,
    next: ChangeStage,
) -> bool {
    match (stage, reply) {
        (ChangeStage::Reading, IndicatorReply::Read(result)) => match result {
            Err(error) => change_failed(next, error),
            Ok(before) => if sha256(snapshot_bytes(before)) != plan.expected_current_hash@ {
                change_failed(next, CoreError::StalePlan)
            } else {
                match written_value(plan.desired) {
                    Some(number) => next == (ChangeStage::Opening { before, number }),
                    None => next matches ChangeStage::Ended { outcome: Err(error) } && says(
                        error,
                        "unsupported indicator state"@,
                    ),
                }
            },
        },
        (ChangeStage::Opening { before, number }, IndicatorReply::Done(result)) => match result {
            Err(error) => change_failed(next, error),
            Ok(_) => next == (ChangeStage::Writing { before, number }),
        },
        (ChangeStage::Writing { before, number: _ }, IndicatorReply::Done(result)) => {
            match result {
                Err(error) => change_failed(next, error),
                Ok(_) => next == (ChangeStage::ReadingBack { before }),
            }
        },
        (ChangeStage::ReadingBack { before }, IndicatorReply::Read(result)) => match result {
            Err(error) => change_failed(next, error),
            Ok(after) => next matches ChangeStage::Ended { outcome: Ok(given) }
                && is_change_result(plan, before, after, app_version, given),
        },
        _ => next == stage,
    }
}

/// Whether a restore begins with this stage.
pub open spec fn restore_begins(point: ToolRestorePoint, stage: RestoreStage) -> bool {
    if is_indicator(point.tool_id) {
        stage == RestoreStage::Reading
    } else {
        stage matches RestoreStage::Ended { outcome: Err(error) } && says(
            error,
            "unknown system tool ID"@,
        )
    }
}

/// Whether a restore asks for `action` at a stage.
pub open spec fn restore_asks(stage: RestoreStage, action: IndicatorAction) -> bool {
    match stage {
        RestoreStage::Reading => action == IndicatorAction::Read,
        RestoreStage::Opening => action == IndicatorAction::Open,
        RestoreStage::Writing { registry_type, raw } => action
            matches IndicatorAction::WriteBytes { registry_type: kind, raw: bytes } && kind
            == registry_type && bytes@ == raw@,
        RestoreStage::Removing => action == IndicatorAction::Remove,
        RestoreStage::ReadingBack => action == IndicatorAction::Read,
        RestoreStage::Ended { outcome: _ } => action == IndicatorAction::Rest,
    }
}

/// Whether a restore has failed.
pub open spec fn restore_failed(stage: RestoreStage, error: CoreError) -> bool {
    stage == (RestoreStage::Ended { outcome: Err(error) })
}

/// Whether `next` is the stage of a restore that `reply` leads to. A reply that
/// answers some other action changes nothing.
pub open spec fn restore_follows(
    point: ToolRestorePoint,
    expected: Seq<u8>,
    allow_stale: bool,
    stage: RestoreStage,
    reply: IndicatorReply,
    next: RestoreStage,
) -> bool {
    match (stage, reply) {
        (RestoreStage::Reading, IndicatorReply::Read(result)) => match result {
            Err(error) => restore_failed(next, error),
            Ok(current) => if may_restore(point, current, expected, allow_stale) {
                next == RestoreStage::Opening
            } else {
                restore_failed(next, CoreError::StalePlan)
            },
        },
        (RestoreStage::Opening, IndicatorReply::Done(result)) => match result {
            Err(error) => restore_failed(next, error),
            Ok(_) => match next {
                RestoreStage::Writing { registry_type, raw } => is_restore_step(
                    point,
                    Ok(RestoreStep::Write { registry_type, raw }),
                ),
                RestoreStage::Removing => is_restore_step(point, Ok(RestoreStep::Remove)),
                RestoreStage::Ended { outcome: Err(error) } => is_restore_step(point, Err(error)),
                _ => false,
            },
        },
        (
            RestoreStage::Writing { registry_type: _, raw: _ },
            IndicatorReply::Done(result),
        ) => match result {
            Err(error) => restore_failed(next, error),
            Ok(_) => next == RestoreStage::ReadingBack,
        },
        (RestoreStage::Removing, IndicatorReply::Done(result)) => match result {
            Err(error) => restore_failed(next, error),
            Ok(_) => next == RestoreStage::ReadingBack,
        },
        (RestoreStage::ReadingBack, IndicatorReply::Read(result)) => match result {
            Err(error) => restore_failed(next, error),
            Ok(after) => next matches RestoreStage::Ended { outcome: Ok(given) }
                && is_restore_result(point, after, given),
        },
        _ => next == stage,
    }
}

/// The tools that NVIDIA's drivers offer through the registry.
#[derive(Debug, PartialEq, Eq)]
pub struct NvidiaSystemTools;

impl NvidiaSystemTools {
    /// The tools that there are: the indicator alone.
    pub fn definitions(&self) -> (tools: Vec<SystemToolDefinition>)
        ensures
            tools.len() == 1,
            is_indicator(tools@[0].id),
            tools@[0].display_name@ == "DLSS on-screen indicator"@,
            tools@[0].warning@ == "Global setting that affects every compatible game"@,
            tools@[0].scope == SystemToolScope::Global,
            tools@[0].requires_elevation,
    {
        let mut tools: Vec<SystemToolDefinition> = Vec::new();
        tools.push(
            SystemToolDefinition {
                id: SystemToolId::new(DLSS_INDICATOR_TOOL_ID),
                display_name: "DLSS on-screen indicator".to_owned(),
                warning: "Global setting that affects every compatible game".to_owned(),
                scope: SystemToolScope::Global,
                requires_elevation: true,
            },
        );
        tools
    }

    /// The registry value as it is. A value that is not there is recorded as such;
    /// one that is there but cannot be read is an error.
    pub fn current_snapshot(&self, read: RegistryRead, captured_unix: i64) -> (snapshot: Result<
        RegistryValueSnapshot,
        CoreError,
    >)
        ensures
            match read {
                RegistryRead::Closed => snapshot matches Ok(snapshot) && records(snapshot, None)
                    && snapshot.captured_unix == captured_unix,
                RegistryRead::Failed(error) => if says_missing(error.code) {
                    snapshot matches Ok(snapshot) && records(snapshot, None) && snapshot.captured_unix
                        == captured_unix
                } else {
                    snapshot == Err::<RegistryValueSnapshot, CoreError>(
                        CoreError::Validation(error.text),
                    )
                },
                RegistryRead::Value { registry_type, raw } => snapshot matches Ok(snapshot)
                    && records(snapshot, Some((registry_type, raw@))) && snapshot.captured_unix
                    == captured_unix,
            },
    {
        match read {
            RegistryRead::Value { registry_type, raw } => Ok(
                RegistryValueSnapshot {
                    existed: true,
                    registry_view: RegistryView::View64,
                    registry_type: Some(registry_type),
                    raw,
                    captured_unix,
                },
            ),
            RegistryRead::Failed(error) if !is_missing_registry_error(error.code) => Err(
                CoreError::Validation(error.text),
            ),
            _ => Ok(
                RegistryValueSnapshot {
                    existed: false,
                    registry_view: RegistryView::View64,
                    registry_type: None,
                    raw: Vec::new(),
                    captured_unix,
                },
            ),
        }
    }

    /// The state of a tool, given what its value was found to be.
    pub fn read(
        &self,
        id: &SystemToolId,
        captured: Result<RegistryValueSnapshot, CoreError>,
    ) -> (state: Result<SystemToolState, CoreError>)
        ensures
            if !is_indicator(*id) {
                state matches Err(error) && says(error, "unknown system tool ID"@)
            } else {
                match captured {
                    Ok(snapshot) => state matches Ok(state) && snapshot_tells(snapshot, state),
                    Err(error) => state == Err::<SystemToolState, CoreError>(error),
                }
            },
    {
        if let Err(error) = ensure_indicator_id(id) {
            return Err(error);
        }
        match captured {
            Ok(snapshot) => Ok(snapshot_state(&snapshot)),
            Err(error) => Err(error),
        }
    }

    /// Where a change begins.
    pub fn begin_apply(&self, plan: &ToolChangePlan) -> (stage: ChangeStage)
        ensures
            change_begins(*plan, stage),
    {
        match admit_change(plan) {
            Ok(_) => ChangeStage::Reading,
            Err(error) => ChangeStage::Ended { outcome: Err(error) },
        }
    }

    /// What a change asks for next.
    pub fn apply_action(&self, stage: &ChangeStage) -> (action: IndicatorAction)
        ensures
            action == change_asks(*stage),
    {
        match stage {
            ChangeStage::Reading => IndicatorAction::Read,
            ChangeStage::Opening { before: _, number: _ } => IndicatorAction::Open,
            ChangeStage::Writing { before: _, number } => IndicatorAction::WriteNumber {
                number: *number,
            },
            ChangeStage::ReadingBack { before: _ } => IndicatorAction::Read,
            ChangeStage::Ended { outcome: _ } => IndicatorAction::Rest,
        }
    }

    /// The stage of a change that `reply` leads to. Nothing is written unless the
    /// value is still the one that the plan was made for.
    pub fn apply(
        &self,
        plan: &ToolChangePlan,
        app_version: &str,
        stage: ChangeStage,
        reply: IndicatorReply,
    ) -> (next: ChangeStage)
        ensures
            change_follows(*plan, app_version@, stage, reply, next),
    {
        match (stage, reply) {
            (ChangeStage::Reading, IndicatorReply::Read(result)) => match result {
                Err(error) => ChangeStage::Ended { outcome: Err(error) },
                Ok(before) => match value_to_write(plan, &before) {
                    Err(error) => ChangeStage::Ended { outcome: Err(error) },
                    Ok(number) => ChangeStage::Opening { before, number },
                },
            },
            (ChangeStage::Opening { before, number }, IndicatorReply::Done(result)) => match result {
                Err(error) => ChangeStage::Ended { outcome: Err(error) },
                Ok(_) => ChangeStage::Writing { before, number },
            },
            (ChangeStage::Writing { before, number: _ }, IndicatorReply::Done(result)) => match result {
                Err(error) => ChangeStage::Ended { outcome: Err(error) },
                Ok(_) => ChangeStage::ReadingBack { before },
            },
            (ChangeStage::ReadingBack { before }, IndicatorReply::Read(result)) => match result {
                Err(error) => ChangeStage::Ended { outcome: Err(error) },
                Ok(after) => ChangeStage::Ended {
                    outcome: Ok(change_result(plan, before, &after, app_version)),
                },
            },
            (stage, _) => stage,
        }
    }

    /// Where a restore begins.
    pub fn begin_restore(&self, point: &ToolRestorePoint) -> (stage: RestoreStage)
        ensures
            restore_begins(*point, stage),
    {
        match ensure_indicator_id(&point.tool_id) {
            Ok(_) => RestoreStage::Reading,
            Err(error) => RestoreStage::Ended { outcome: Err(error) },
        }
    }

    /// What a restore asks for next.
    pub fn restore_action(&self, stage: &RestoreStage) -> (action: IndicatorAction)
        ensures
            restore_asks(*stage, action),
    {
        match stage {
            RestoreStage::Reading => IndicatorAction::Read,
            RestoreStage::Opening => IndicatorAction::Open,
            RestoreStage::Writing { registry_type, raw } => IndicatorAction::WriteBytes {
                registry_type: *registry_type,
                raw: copy_bytes(raw),
            },
            RestoreStage::Removing => IndicatorAction::Remove,
            RestoreStage::ReadingBack => IndicatorAction::Read,
            RestoreStage::Ended { outcome: _ } => IndicatorAction::Rest,
        }
    }

    /// The stage of a restore that `reply` leads to.
    pub fn restore(
        &self,
        point: &ToolRestorePoint,
        expected_current_hash: &[u8; 32],
        allow_stale: bool,
        stage: RestoreStage,
        reply: IndicatorReply,
    ) -> (next: RestoreStage)
        ensures
            restore_follows(*point, expected_current_hash@, allow_stale, stage, reply, next),
    {
        match (stage, reply) {
            (RestoreStage::Reading, IndicatorReply::Read(result)) => match result {
                Err(error) => RestoreStage::Ended { outcome: Err(error) },
                Ok(current) => match admit_restore(
                    point,
                    &current,
                    expected_current_hash,
                    allow_stale,
                ) {
                    Err(error) => RestoreStage::Ended { outcome: Err(error) },
                    Ok(_) => RestoreStage::Opening,
                },
            },
            (RestoreStage::Opening, IndicatorReply::Done(result)) => match result {
                Err(error) => RestoreStage::Ended { outcome: Err(error) },
                Ok(_) => match restore_step(point) {
                    Ok(RestoreStep::Write { registry_type, raw }) => RestoreStage::Writing {
                        registry_type,
                        raw,
                    },
                    Ok(RestoreStep::Remove) => RestoreStage::Removing,
                    Err(error) => RestoreStage::Ended { outcome: Err(error) },
                },
            },
            (
                RestoreStage::Writing { registry_type: _, raw: _ },
                IndicatorReply::Done(result),
            ) => match result {
                Err(error) => RestoreStage::Ended { outcome: Err(error) },
                Ok(_) => RestoreStage::ReadingBack,
            },
            (RestoreStage::Removing, IndicatorReply::Done(result)) => match result {
                Err(error) => RestoreStage::Ended { outcome: Err(error) },
                Ok(_) => RestoreStage::ReadingBack,
            },
            (RestoreStage::ReadingBack, IndicatorReply::Read(result)) => match result {
                Err(error) => RestoreStage::Ended { outcome: Err(error) },
                Ok(after) => RestoreStage::Ended { outcome: Ok(restore_result(point, &after)) },
            },
            (stage, _) => stage,
        }
    }
}

/// The registry value after an action that succeeded.
pub open spec fn value_after(
    action: IndicatorAction,
    value: Option<(u32, Seq<u8>)>,
) -> Option<(u32, Seq<u8>)> {
    match action {
        IndicatorAction::WriteNumber { number } => Some(
            (REG_DWORD, little_endian_bytes(number as nat, 4)),
        ),
        IndicatorAction::WriteBytes { registry_type, raw } => Some((registry_type, raw@)),
        IndicatorAction::Remove => None,
        _ => value,
    }
}

/// Whether `reply` is how a registry with `value` answers an action, and `after`
/// what its value is then. Nobody else writes meanwhile, and a write that fails
/// leaves the value alone.
pub open spec fn registry_answers(
    action: IndicatorAction,
    value: Option<(u32, Seq<u8>)>,
    reply: IndicatorReply,
    after: Option<(u32, Seq<u8>)>,
) -> bool {
    match action {
        IndicatorAction::Read => after == value && (reply matches IndicatorReply::Read(result)
            && (result matches Ok(snapshot) ==> records(snapshot, value))),
        IndicatorAction::Rest => after == value,
        _ => reply matches IndicatorReply::Done(result) && after == if result is Ok {
            value_after(action, value)
        } else {
            value
        },
    }
}

/// Whether `stages` and `values` are what a change and the registry go through.
pub open spec fn is_change(
    plan: ToolChangePlan,
    app_version: Seq<char>,
    replies: Seq<IndicatorReply>,
    stages: Seq<ChangeStage>,
    values: Seq<Option<(u32, Seq<u8>)>>,
) -> bool {
    &&& stages.len() == replies.len() + 1
    &&& values.len() == replies.len() + 1
    &&& change_begins(plan, stages[0])
    &&& forall|i: int|
        #![trigger replies[i]]
        0 <= i < replies.len() ==> {
            &&& registry_answers(change_asks(stages[i]), values[i], replies[i], values[i + 1])
            &&& change_follows(plan, app_version, stages[i], replies[i], stages[i + 1])
        }
}

/// Whether `stages` and `values` are what a restore and the registry go through.
pub open spec fn is_restore(
    point: ToolRestorePoint,
    expected: Seq<u8>,
    allow_stale: bool,
    replies: Seq<IndicatorReply>,
    stages: Seq<RestoreStage>,
    values: Seq<Option<(u32, Seq<u8>)>>,
) -> bool {
    &&& stages.len() == replies.len() + 1
    &&& values.len() == replies.len() + 1
    &&& restore_begins(point, stages[0])
    &&& forall|i: int|
        #![trigger replies[i]]
        0 <= i < replies.len() ==> {
            &&& exists|action: IndicatorAction| #[trigger]
                restore_asks(stages[i], action) && registry_answers(
                    action,
                    values[i],
                    replies[i],
                    values[i + 1],
                )
            &&& restore_follows(point, expected, allow_stale, stages[i], replies[i], stages[i + 1])
        }
}

/// What is known at a stage of a change that began with `first` in the registry.
pub open spec fn change_keeps(
    plan: ToolChangePlan,
    first: Option<(u32, Seq<u8>)>,
    stage: ChangeStage,
    value: Option<(u32, Seq<u8>)>,
) -> bool {
    match stage {
        ChangeStage::Reading => is_indicator(plan.tool_id) && value == first,
        ChangeStage::Opening { before, number } => {
            &&& is_indicator(plan.tool_id)
            &&& value == first
            &&& records(before, first)
            &&& written_value(plan.desired) == Some(number)
        },
        ChangeStage::Writing { before, number } => {
            &&& is_indicator(plan.tool_id)
            &&& records(before, first)
            &&& written_value(plan.desired) == Some(number)
        },
        ChangeStage::ReadingBack { before } => {
            &&& is_indicator(plan.tool_id)
            &&& records(before, first)
            &&& written_value(plan.desired) matches Some(number)
            &&& value == Some((REG_DWORD, little_endian_bytes(number as nat, 4)))
        },
        ChangeStage::Ended { outcome } => match outcome {
            Ok(result) => {
                &&& written_value(plan.desired) matches Some(number)
                &&& value == Some((REG_DWORD, little_endian_bytes(number as nat, 4)))
                &&& result.tool_id == plan.tool_id
                &&& is_indicator(plan.tool_id)
                &&& result.state == plan.desired
                &&& result.restore_point matches Some(point)
                &&& point.tool_id == plan.tool_id
                &&& records(point.snapshot, first)
                &&& forall|current: RegistryValueSnapshot| #[trigger]
                    records(current, value) ==> sha256(snapshot_bytes(current))
                        == point.state_after_hash@
            },
            Err(_) => true,
        },
    }
}

/// Snapshots of one value are written as the same bytes.
proof fn same_value_same_bytes(
    left: RegistryValueSnapshot,
    right: RegistryValueSnapshot,
    value: Option<(u32, Seq<u8>)>,
)
    requires
        records(left, value),
        records(right, value),
    ensures
        snapshot_bytes(left) == snapshot_bytes(right),
{
    assert(left.raw@ =~= right.raw@);
}

/// A change that succeeds leaves the registry with the state that was asked for,
/// tells that state, and gives back a restore point that records the value from
/// before.
pub proof fn a_change_sets_what_was_asked_for(
    plan: ToolChangePlan,
    app_version: Seq<char>,
    replies: Seq<IndicatorReply>,
    stages: Seq<ChangeStage>,
    values: Seq<Option<(u32, Seq<u8>)>>,
)
    requires
        is_change(plan, app_version, replies, stages, values),
    ensures
        change_keeps(plan, values[0], stages.last(), values.last()),
    decreases replies.len(),
{
    if replies.len() > 0 {
        let last = replies.len() - 1;
        let fewer = replies.drop_last();
        let earlier = stages.drop_last();
        let before = values.drop_last();
        assert forall|i: int| #![trigger fewer[i]] 0 <= i < fewer.len() implies {
            &&& registry_answers(change_asks(earlier[i]), before[i], fewer[i], before[i + 1])
            &&& change_follows(plan, app_version, earlier[i], fewer[i], earlier[i + 1])
        } by {
            assert(fewer[i] == replies[i]);
        }
        a_change_sets_what_was_asked_for(plan, app_version, fewer, earlier, before);
        assert(replies[last] == replies.last());
        let value = values[last];
        if let ChangeStage::ReadingBack { before: kept } = stages[last] {
            if let IndicatorReply::Read(Ok(after)) = replies[last] {
                let number = written_value(plan.desired)->0;
                let result = stages.last()->outcome->Ok_0;
                a_written_state_is_read_back(plan.desired, number, after, result.state);
                assert forall|current: RegistryValueSnapshot| #[trigger]
                    records(current, value) implies sha256(snapshot_bytes(current))
                    == result.restore_point->0.state_after_hash@ by {
                    same_value_same_bytes(current, after, value);
                }
            }
        }
    }
}

/// What a change did can be undone. After a change that succeeded, and as long
/// as nobody else writes the value, a restore from the restore point of the
/// change is never refused as stale or incomplete; and if it succeeds, the value
/// in the registry is the one from before the change, with its type and its
/// bytes, or is gone if there was none, the state that is told is the state from
/// before the change, and there is no further restore point.
pub proof fn a_change_can_be_undone(
    plan: ToolChangePlan,
    app_version: Seq<char>,
    change_replies: Seq<IndicatorReply>,
    change_stages: Seq<ChangeStage>,
    change_values: Seq<Option<(u32, Seq<u8>)>>,
    changed: ToolChangeResult,
    point: ToolRestorePoint,
    replies: Seq<IndicatorReply>,
    stages: Seq<RestoreStage>,
    values: Seq<Option<(u32, Seq<u8>)>>,
    before: RegistryValueSnapshot,
)
    requires
        is_change(plan, app_version, change_replies, change_stages, change_values),
        change_stages.last() == (ChangeStage::Ended { outcome: Ok(changed) }),
        changed.restore_point == Some(point),
        is_restore(point, point.state_after_hash@, false, replies, stages, values),
        values[0] == change_values.last(),
        records(before, change_values[0]),
    ensures
        stages.last() matches RestoreStage::Ended { outcome } ==> match outcome {
            Ok(result) => {
                &&& values.last() == change_values[0]
                &&& snapshot_tells(before, result.state)
                &&& result.restore_point is None
            },
            Err(error) => exists|i: int|
                #![trigger replies[i]]
                0 <= i < replies.len() && tells_failure(replies[i], error),
        },
{
    a_change_sets_what_was_asked_for(
        plan,
        app_version,
        change_replies,
        change_stages,
        change_values,
    );
    a_restore_goes_back(
        point,
        change_values[0],
        change_values.last(),
        replies,
        stages,
        values,
        before,
    );
}

/// Whether a reply tells that an action failed.
pub open spec fn tells_failure(reply: IndicatorReply, error: CoreError) -> bool {
    match reply {
        IndicatorReply::Read(result) => result == Err::<RegistryValueSnapshot, CoreError>(error),
        IndicatorReply::Done(result) => result == Err::<(), CoreError>(error),
    }
}

/// What is known at a stage of a restore from `changed` to `first`.
spec fn restore_keeps(
    point: ToolRestorePoint,
    first: Option<(u32, Seq<u8>)>,
    changed: Option<(u32, Seq<u8>)>,
    replies: Seq<IndicatorReply>,
    stage: RestoreStage,
    value: Option<(u32, Seq<u8>)>,
    before: RegistryValueSnapshot,
) -> bool {
    match stage {
        RestoreStage::Reading | RestoreStage::Opening => value == changed,
        RestoreStage::Writing { registry_type, raw } => first == Some((registry_type, raw@)),
        RestoreStage::Removing => first is None,
        RestoreStage::ReadingBack => value == first,
        RestoreStage::Ended { outcome } => match outcome {
            Ok(result) => {
                &&& value == first
                &&& snapshot_tells(before, result.state)
                &&& result.restore_point is None
            },
            Err(error) => exists|i: int|
                #![trigger replies[i]]
                0 <= i < replies.len() && tells_failure(replies[i], error),
        },
    }
}

proof fn a_restore_goes_back(
    point: ToolRestorePoint,
    first: Option<(u32, Seq<u8>)>,
    changed: Option<(u32, Seq<u8>)>,
    replies: Seq<IndicatorReply>,
    stages: Seq<RestoreStage>,
    values: Seq<Option<(u32, Seq<u8>)>>,
    before: RegistryValueSnapshot,
)
    requires
        is_restore(point, point.state_after_hash@, false, replies, stages, values),
        values[0] == changed,
        is_indicator(point.tool_id),
        records(point.snapshot, first),
        records(before, first),
        forall|current: RegistryValueSnapshot| #[trigger]
            records(current, changed) ==> sha256(snapshot_bytes(current))
                == point.state_after_hash@,
    ensures
        restore_keeps(point, first, changed, replies, stages.last(), values.last(), before),
    decreases replies.len(),
{
    if replies.len() > 0 {
        let last = replies.len() - 1;
        let fewer = replies.drop_last();
        let earlier = stages.drop_last();
        let sooner = values.drop_last();
        assert forall|i: int| #![trigger fewer[i]] 0 <= i < fewer.len() implies {
            &&& exists|action: IndicatorAction| #[trigger]
                restore_asks(earlier[i], action) && registry_answers(
                    action,
                    sooner[i],
                    fewer[i],
                    sooner[i + 1],
                )
            &&& restore_follows(
                point,
                point.state_after_hash@,
                false,
                earlier[i],
                fewer[i],
                earlier[i + 1],
            )
        } by {
            assert(fewer[i] == replies[i]);
        }
        a_restore_goes_back(point, first, changed, fewer, earlier, sooner, before);
        let stage = stages[last];
        let reply = replies[last];
        let action = choose|action: IndicatorAction| #[trigger]
            restore_asks(stage, action) && registry_answers(
                action,
                values[last],
                reply,
                values[last + 1],
            );
        assert(restore_asks(stage, action));
        if let RestoreStage::Ended { outcome: Err(error) } = stages.last() {
            if stage is Ended {
                let i = choose|i: int|
                    #![trigger fewer[i]]
                    0 <= i < fewer.len() && tells_failure(fewer[i], error);
                assert(tells_failure(replies[i], error));
            } else {
                assert(tells_failure(reply, error));
            }
        }
        if let RestoreStage::ReadingBack = stage {
            if let IndicatorReply::Read(Ok(after)) = reply {
                same_value_same_bytes(after, before, first);
                snapshots_are_told_apart(after, before);
            }
        }
    }
}

/// The state that is read after a change is the state that was asked for.
pub proof fn a_written_state_is_read_back(
    desired: SystemToolState,
    number: u32,
    after: RegistryValueSnapshot,
    state: SystemToolState,
)
    requires
        written_value(desired) == Some(number),
        after.existed,
        after.registry_type == Some(REG_DWORD),
        after.raw@ == little_endian_bytes(number as nat, 4),
        snapshot_tells(after, state),
    ensures
        state == desired,
{
    assert(byte_range(4) == 0x1_0000_0000) by {
        reveal_with_fuel(byte_range, 5);
    }
    bytes_give_the_number_back(number as nat, 4);
}

/// The indicator is off at 0, shows itself in debug builds at 1 and in all at
/// 1024. Every other number is kept as it is, and a value that is not a number
/// of four bytes is told with its type and bytes.
pub proof fn states_have_their_numbers(
    snapshot: RegistryValueSnapshot,
    state: SystemToolState,
    desired: SystemToolState,
)
    requires
        snapshot_tells(snapshot, state),
    ensures
        written_value(desired) == Some(0u32) <==> desired == SystemToolState::Off,
        written_value(desired) == Some(1u32) <==> desired == SystemToolState::DlssIndicatorDebug,
        written_value(desired) == Some(1024u32) <==> desired
            == SystemToolState::DlssIndicatorProduction,
        written_value(desired) matches Some(number) ==> number == 0 || number == 1 || number
            == 1024,
        state == SystemToolState::NotConfigured <==> !snapshot.existed,
        snapshot.existed && snapshot.registry_type == Some(4u32) && snapshot.raw.len() == 4 ==> {
            let raw = snapshot.raw@;
            let number = raw[0] + 256 * raw[1] + 65536 * raw[2] + 16777216 * raw[3];
            &&& state == SystemToolState::Off <==> number == 0
            &&& state == SystemToolState::DlssIndicatorDebug <==> number == 1
            &&& state == SystemToolState::DlssIndicatorProduction <==> number == 1024
            &&& number != 0 && number != 1 && number != 1024 ==> (state
                matches SystemToolState::CustomDword(kept) && kept == number)
        },
        snapshot.existed && (snapshot.registry_type != Some(4u32) || snapshot.raw.len() != 4) ==> (
        state matches SystemToolState::UnexpectedType { registry_type, raw } && raw@
            == snapshot.raw@ && (snapshot.registry_type matches Some(kept) ==> registry_type
            == kept)),
{
    let raw = snapshot.raw@;
    if raw.len() == 4 {
        reveal_with_fuel(little_endian, 5);
        let one = raw.skip(1);
        let two = one.skip(1);
        let three = two.skip(1);
        assert(three.skip(1).len() == 0);
        assert(little_endian(raw) == raw[0] + 256 * raw[1] + 65536 * raw[2] + 16777216 * raw[3]);
    }
}

/// A change that nothing goes wrong with succeeds: the value is still the one
/// that the plan was made for, and the key can be opened, written and read. The
/// number of the state is written, and the result holds the value from before,
/// to go back to.
pub proof fn a_smooth_change_succeeds(
    plan: ToolChangePlan,
    app_version: Seq<char>,
    before: RegistryValueSnapshot,
    after: RegistryValueSnapshot,
    number: u32,
    stages: Seq<ChangeStage>,
)
    requires
        stages.len() == 5,
        plan.tool_id@ == "nvidia.dlss_indicator"@,
        plan.restore_point is None,
        change_begins(plan, stages[0]),
        change_follows(plan, app_version, stages[0], IndicatorReply::Read(Ok(before)), stages[1]),
        change_follows(plan, app_version, stages[1], IndicatorReply::Done(Ok(())), stages[2]),
        change_follows(plan, app_version, stages[2], IndicatorReply::Done(Ok(())), stages[3]),
        change_follows(plan, app_version, stages[3], IndicatorReply::Read(Ok(after)), stages[4]),
        sha256(snapshot_bytes(before)) == plan.expected_current_hash@,
        (plan.desired == SystemToolState::Off && number == 0) || (plan.desired
            == SystemToolState::DlssIndicatorDebug && number == 1) || (plan.desired
            == SystemToolState::DlssIndicatorProduction && number == 1024),
    ensures
        change_asks(stages[0]) == IndicatorAction::Read,
        change_asks(stages[1]) == IndicatorAction::Open,
        change_asks(stages[2]) == (IndicatorAction::WriteNumber { number }),
        change_asks(stages[3]) == IndicatorAction::Read,
        stages[4] matches ChangeStage::Ended { outcome: Ok(result) } && result.tool_id
            == plan.tool_id && snapshot_tells(after, result.state) && (result.restore_point
            matches Some(point) && point.tool_id == plan.tool_id && point.snapshot == before
            && point.state_after_hash@ == sha256(snapshot_bytes(after)) && point.app_version@
            == app_version),
{
}

/// A change is refused, and nothing written, where it is not for the indicator,
/// where it comes with a restore, where the value is no longer the one that the
/// plan was made for, or where the state cannot be set. A step that fails ends
/// it with its error.
pub proof fn other_changes_are_refused(
    plan: ToolChangePlan,
    app_version: Seq<char>,
    first: ChangeStage,
    stage: ChangeStage,
    reply: IndicatorReply,
    next: ChangeStage,
)
    requires
        change_begins(plan, first),
        change_follows(plan, app_version, stage, reply, next),
    ensures
        plan.tool_id@ != "nvidia.dlss_indicator"@ || plan.restore_point is Some ==> (first
            matches ChangeStage::Ended { outcome: Err(CoreError::Validation(_)) }),
        stage == ChangeStage::Reading ==> (reply matches IndicatorReply::Read(Ok(before)) ==> {
            &&& sha256(snapshot_bytes(before)) != plan.expected_current_hash@ <==> next == (
            ChangeStage::Ended { outcome: Err(CoreError::StalePlan) })
            &&& next is Opening <==> sha256(snapshot_bytes(before)) == plan.expected_current_hash@
                && (plan.desired == SystemToolState::Off || plan.desired
                == SystemToolState::DlssIndicatorDebug || plan.desired
                == SystemToolState::DlssIndicatorProduction)
        }),
        stage is Reading || stage is ReadingBack ==> (reply matches IndicatorReply::Read(Err(error))
            ==> next == (ChangeStage::Ended { outcome: Err(error) })),
        stage is Opening || stage is Writing ==> (reply matches IndicatorReply::Done(Err(error))
            ==> next == (ChangeStage::Ended { outcome: Err(error) })),
{
}

/// A restore that nothing goes wrong with succeeds: it is for the indicator,
/// the value is the one last seen, and it is the one that the change left or the
/// user allowed another. The value from before the change is written with its
/// type and bytes, or removed if there was none.
pub proof fn a_smooth_restore_succeeds(
    point: ToolRestorePoint,
    expected: Seq<u8>,
    allow_stale: bool,
    current: RegistryValueSnapshot,
    after: RegistryValueSnapshot,
    stages: Seq<RestoreStage>,
    action: IndicatorAction,
)
    requires
        stages.len() == 5,
        point.tool_id@ == "nvidia.dlss_indicator"@,
        restore_begins(point, stages[0]),
        restore_follows(
            point,
            expected,
            allow_stale,
            stages[0],
            IndicatorReply::Read(Ok(current)),
            stages[1],
        ),
        restore_follows(
            point,
            expected,
            allow_stale,
            stages[1],
            IndicatorReply::Done(Ok(())),
            stages[2],
        ),
        restore_follows(
            point,
            expected,
            allow_stale,
            stages[2],
            IndicatorReply::Done(Ok(())),
            stages[3],
        ),
        restore_follows(
            point,
            expected,
            allow_stale,
            stages[3],
            IndicatorReply::Read(Ok(after)),
            stages[4],
        ),
        sha256(snapshot_bytes(current)) == expected,
        allow_stale || expected == point.state_after_hash@,
        point.snapshot.existed ==> point.snapshot.registry_type is Some,
        restore_asks(stages[2], action),
    ensures
        if point.snapshot.existed {
            action matches IndicatorAction::WriteBytes { registry_type, raw } && Some(registry_type)
                == point.snapshot.registry_type && raw@ == point.snapshot.raw@
        } else {
            action == IndicatorAction::Remove
        },
        stages[4] matches RestoreStage::Ended { outcome: Ok(result) } && result.tool_id
            == point.tool_id && snapshot_tells(after, result.state) && result.restore_point is None,
{
}

/// A restore overwrites nothing that it does not know: it is refused where the
/// value changed since it was last seen, or is not the one that the change
/// left and the user did not allow that. A step that fails ends it with its
/// error.
pub proof fn other_restores_are_refused(
    point: ToolRestorePoint,
    expected: Seq<u8>,
    allow_stale: bool,
    first: RestoreStage,
    stage: RestoreStage,
    reply: IndicatorReply,
    next: RestoreStage,
)
    requires
        restore_begins(point, first),
        restore_follows(point, expected, allow_stale, stage, reply, next),
    ensures
        point.tool_id@ != "nvidia.dlss_indicator"@ ==> (first matches RestoreStage::Ended {
            outcome: Err(CoreError::Validation(_)),
        }),
        stage == RestoreStage::Reading ==> (reply matches IndicatorReply::Read(Ok(current)) ==> (
        next == (RestoreStage::Ended { outcome: Err(CoreError::StalePlan) }) <==> sha256(
            snapshot_bytes(current),
        ) != expected || (!allow_stale && expected != point.state_after_hash@))),
        stage is Reading || stage is ReadingBack ==> (reply matches IndicatorReply::Read(Err(error))
            ==> next == (RestoreStage::Ended { outcome: Err(error) })),
        stage is Opening || stage is Writing || stage is Removing ==> (reply
            matches IndicatorReply::Done(Err(error)) ==> next == (RestoreStage::Ended {
            outcome: Err(error),
        })),
{
}

} // verus!
