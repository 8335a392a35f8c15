//! The course that the helper with more privileges takes, from the plan it is
//! started for to the result that it leaves.

use crate::elevation::{
    admit_file_plan, admit_tool_plan, check_plan_digest, check_plan_place, is_directly_in,
    is_indicator, is_nonce, result_of, says, validate_helper_paths,
};
use crate::model::{BatchResult, ElevatedFilePlan, ElevatedHelperPlan};
use crate::paths::FilePath;
use crate::tools::{ToolChangePlan, ToolChangeResult};
use crate::traits::{error_text, CoreError};
use vstd::prelude::*;

verus! {

/// What the helper was started with, and where it looks.
#[derive(Debug, PartialEq, Eq)]
pub struct HelperRun {
    /// The plan, as the command line names it.
    pub plan: FilePath,
    /// The digest that the plan has to have.
    pub sha256: [u8; 32],
    /// The private directory for plans, and the one for results.
    pub plan_directory: FilePath,
    pub result_directory: FilePath,
}

/// What the helper tells the program that started it.
#[derive(Debug, PartialEq, Eq)]
pub enum HelperReport {
    Tool(Result<ToolChangeResult, String>),
    Files(Result<BatchResult, String>),
}

/// How far the helper has come.
#[derive(Debug, PartialEq, Eq)]
pub enum HelperStage {
    ResolvingPlan,
    ResolvingDirectory { plan: FilePath },
    Reading { plan: FilePath },
    /// The plan was read and had its digest; what was read is decoded.
    Decoding,
    ApplyingTool { plan: ToolChangePlan },
    RestoringTool { plan: ToolChangePlan },
    SwappingFiles { plan: ElevatedFilePlan },
    Reporting { to: FilePath, report: HelperReport },
    Ended { outcome: Result<(), CoreError> },
}

/// What the helper has to do next.
#[derive(Debug, PartialEq, Eq)]
pub enum HelperAction {
    /// Find out where a path really leads; answered by
    /// [`HelperReply::Resolved`].
    Resolve { path: FilePath },
    /// Read a file and compute its digest; answered by [`HelperReply::Read`].
    Read { path: FilePath },
    /// Decode what was read; answered by [`HelperReply::Decoded`].
    Decode,
    /// Carry out what the stage holds; answered by [`HelperReply::ToolChanged`]
    /// or [`HelperReply::FilesSwapped`].
    Work,
    /// Write the report that the stage holds; answered by
    /// [`HelperReply::Reported`].
    Report { to: FilePath },
    /// Nothing: the helper has ended.
    Rest,
}

/// What came of it.
#[derive(Debug, PartialEq, Eq)]
pub enum HelperReply {
    Resolved(Result<FilePath, CoreError>),
    Read(Result<[u8; 32], CoreError>),
    Decoded(Result<ElevatedHelperPlan, CoreError>),
    ToolChanged(Result<ToolChangeResult, CoreError>),
    FilesSwapped(Result<BatchResult, CoreError>),
    Reported(Result<(), CoreError>),
}

/// The action that belongs to a stage.
pub open spec fn helper_asks(run: HelperRun, stage: HelperStage) -> HelperAction {
    match stage {
        HelperStage::ResolvingPlan => HelperAction::Resolve { path: run.plan },
        HelperStage::ResolvingDirectory { plan: _ } => HelperAction::Resolve {
            path: run.plan_directory,
        },
        HelperStage::Reading { plan } => HelperAction::Read { path: plan },
        HelperStage::Decoding => HelperAction::Decode,
        HelperStage::ApplyingTool { plan: _ } => HelperAction::Work,
        HelperStage::RestoringTool { plan: _ } => HelperAction::Work,
        HelperStage::SwappingFiles { plan: _ } => HelperAction::Work,
        HelperStage::Reporting { to, report: _ } => HelperAction::Report { to },
        HelperStage::Ended { outcome: _ } => HelperAction::Rest,
    }
}

/// Whether the helper has given up with `error`, without a report.
pub open spec fn gave_up(stage: HelperStage, error: CoreError) -> bool {
    stage == (HelperStage::Ended { outcome: Err(error) })
}

/// Whether the helper has given up for a reason of the given wording, without a
/// report.
pub open spec fn gave_up_saying(stage: HelperStage, wording: Seq<char>) -> bool {
    stage matches HelperStage::Ended { outcome: Err(error) } && says(error, wording)
}

/// Whether a plan names its own result, and that in the directory for results.
pub open spec fn reports_properly(run: HelperRun, nonce: Seq<char>, path: Seq<char>) -> bool {
    is_nonce(nonce) && path == result_of(run.result_directory@, nonce)
}

/// What is said of a plan that does not.
pub open spec fn path_fault(nonce: Seq<char>) -> Seq<char> {
    if is_nonce(nonce) {
        "invalid helper result path"@
    } else {
        "invalid helper nonce"@
    }
}

/// Whether `next` is where a plan for a tool leads.
pub open spec fn tool_plan_leads(run: HelperRun, plan: ToolChangePlan, next: HelperStage) -> bool {
    if !reports_properly(run, plan.nonce@, plan.result_path@) {
        gave_up_saying(next, path_fault(plan.nonce@))
    } else if !is_indicator(plan.tool_id) {
        next matches HelperStage::Reporting { to, report: HelperReport::Tool(Err(message)) } && to
            == plan.result_path && message@ == "validation failed: "@ + "unknown system tool ID"@
    } else {
        match plan.restore_point {
            None => next == (HelperStage::ApplyingTool { plan }),
            Some(point) => if point.tool_id@ == plan.tool_id@ {
                next == (HelperStage::RestoringTool { plan })
            } else {
                next matches HelperStage::Reporting {
                    to,
                    report: HelperReport::Tool(Err(message)),
                } && to == plan.result_path && message@ == "restore tool ID mismatch"@
            },
        }
    }
}

/// Whether `next` is where a plan for files leads.
pub open spec fn file_plan_leads(
    run: HelperRun,
    plan: ElevatedFilePlan,
    next: HelperStage,
) -> bool {
    if !reports_properly(run, plan.nonce@, plan.result_path@) {
        gave_up_saying(next, path_fault(plan.nonce@))
    } else if plan.operation.nonce@ != plan.nonce@ {
        next matches HelperStage::Reporting { to, report: HelperReport::Files(Err(message)) } && to
            == plan.result_path && message@ == "file plan nonce mismatch"@
    } else {
        next == (HelperStage::SwappingFiles { plan })
    }
}

/// Whether `told` is what the user is told of the outcome `result`.
pub open spec fn is_told<T>(result: Result<T, CoreError>, told: Result<T, String>) -> bool {
    match result {
        Ok(value) => told == Ok::<T, String>(value),
        Err(error) => told matches Err(message) && message@ == error_text(error),
    }
}

/// Whether `next` is the stage that `reply` leads to. A reply that answers some
/// other action changes nothing.
pub open spec fn helper_follows(
    run: HelperRun,
    stage: HelperStage,
    reply: HelperReply,
    next: HelperStage,
) -> bool {
    match (stage, reply) {
        (HelperStage::ResolvingPlan, HelperReply::Resolved(result)) => match result {
            Err(error) => gave_up(next, error),
            Ok(plan) => next == (HelperStage::ResolvingDirectory { plan }),
        },
        (HelperStage::ResolvingDirectory { plan }, HelperReply::Resolved(result)) => match result {
            Err(error) => gave_up(next, error),
            Ok(directory) => if is_directly_in(plan@, directory@) {
                next == (HelperStage::Reading { plan })
            } else {
                gave_up_saying(next, "helper plan is outside the private plan directory"@)
            },
        },
        (HelperStage::Reading { plan: _ }, HelperReply::Read(result)) => match result {
            Err(error) => gave_up(next, error),
            Ok(sha256) => if sha256 == run.sha256 {
                next == HelperStage::Decoding
            } else {
                gave_up_saying(next, "elevated helper plan digest mismatch"@)
            },
        },
        (HelperStage::Decoding, HelperReply::Decoded(result)) => match result {
            Err(error) => gave_up(next, error),
            Ok(ElevatedHelperPlan::SystemTool(plan)) => tool_plan_leads(run, plan, next),
            Ok(ElevatedHelperPlan::FileSwap(plan)) => file_plan_leads(run, plan, next),
        },
        (HelperStage::ApplyingTool { plan }, HelperReply::ToolChanged(result)) => {
            next matches HelperStage::Reporting { to, report: HelperReport::Tool(told) } && to
                == plan.result_path && is_told(result, told)
        },
        (HelperStage::RestoringTool { plan }, HelperReply::ToolChanged(result)) => {
            next matches HelperStage::Reporting { to, report: HelperReport::Tool(told) } && to
                == plan.result_path && is_told(result, told)
        },
        (HelperStage::SwappingFiles { plan }, HelperReply::FilesSwapped(result)) => {
            next matches HelperStage::Reporting { to, report: HelperReport::Files(told) } && to
                == plan.result_path && is_told(result, told)
        },
        (HelperStage::Reporting { to: _, report: _ }, HelperReply::Reported(result)) => next
            == (HelperStage::Ended { outcome: result }),
        _ => next == stage,
    }
}

fn give_up(error: CoreError) -> (stage: HelperStage)
    ensures
        gave_up(stage, error),
{
    HelperStage::Ended { outcome: Err(error) }
}

fn tell<T>(result: Result<T, CoreError>) -> (told: Result<T, String>)
    ensures
        is_told(result, told),
{
    match result {
        Ok(value) => Ok(value),
        Err(error) => Err(error.to_text()),
    }
}

impl HelperRun {
    /// What the helper has to do next.
    pub fn action(&self, stage: &HelperStage) -> (action: HelperAction)
        ensures
            action == helper_asks(*self, *stage),
    {
        match stage {
            HelperStage::ResolvingPlan => HelperAction::Resolve { path: self.plan.clone() },
            HelperStage::ResolvingDirectory { plan: _ } => HelperAction::Resolve {
                path: self.plan_directory.clone(),
            },
            HelperStage::Reading { plan } => HelperAction::Read { path: plan.clone() },
            HelperStage::Decoding => HelperAction::Decode,
            HelperStage::ApplyingTool { plan: _ } => HelperAction::Work,
            HelperStage::RestoringTool { plan: _ } => HelperAction::Work,
            HelperStage::SwappingFiles { plan: _ } => HelperAction::Work,
            HelperStage::Reporting { to, report: _ } => HelperAction::Report { to: to.clone() },
            HelperStage::Ended { outcome: _ } => HelperAction::Rest,
        }
    }

    fn admit_tool(&self, plan: ToolChangePlan) -> (next: HelperStage)
        ensures
            tool_plan_leads(*self, plan, next),
    {
        if let Err(error) = validate_helper_paths(
            &plan.nonce,
            &plan.result_path,
            &self.result_directory,
        ) {
            return give_up(error);
        }
        match admit_tool_plan(&plan) {
            Err(message) => HelperStage::Reporting {
                to: plan.result_path,
                report: HelperReport::Tool(Err(message)),
            },
            Ok(_) => if plan.restore_point.is_some() {
                HelperStage::RestoringTool { plan }
            } else {
                HelperStage::ApplyingTool { plan }
            },
        }
    }

    fn admit_files(&self, plan: ElevatedFilePlan) -> (next: HelperStage)
        ensures
            file_plan_leads(*self, plan, next),
    {
        if let Err(error) = validate_helper_paths(
            &plan.nonce,
            &plan.result_path,
            &self.result_directory,
        ) {
            return give_up(error);
        }
        match admit_file_plan(&plan) {
            Err(message) => HelperStage::Reporting {
                to: plan.result_path,
                report: HelperReport::Files(Err(message)),
            },
            Ok(_) => HelperStage::SwappingFiles { plan },
        }
    }

    /// The stage that `reply` leads to. The path of the result is checked before
    /// anything else in the plan, so that every later failure can be reported
    /// there.
    pub fn run_elevated_helper(&self, stage: HelperStage, reply: HelperReply) -> (next: HelperStage)
        ensures
            helper_follows(*self, stage, reply, next),
    {
        match (stage, reply) {
            (HelperStage::ResolvingPlan, HelperReply::Resolved(result)) => match result {
                Err(error) => give_up(error),
                Ok(plan) => HelperStage::ResolvingDirectory { plan },
            },
            (HelperStage::ResolvingDirectory { plan }, HelperReply::Resolved(result)) => match result {
                Err(error) => give_up(error),
                Ok(directory) => match check_plan_place(&plan, &directory) {
                    Err(error) => give_up(error),
                    Ok(_) => HelperStage::Reading { plan },
                },
            },
            (HelperStage::Reading { plan: _ }, HelperReply::Read(result)) => match result {
                Err(error) => give_up(error),
                Ok(sha256) => match check_plan_digest(&sha256, &self.sha256) {
                    Err(error) => give_up(error),
                    Ok(_) => HelperStage::Decoding,
                },
            },
            (HelperStage::Decoding, HelperReply::Decoded(result)) => match result {
                Err(error) => give_up(error),
                Ok(ElevatedHelperPlan::SystemTool(plan)) => self.admit_tool(plan),
                Ok(ElevatedHelperPlan::FileSwap(plan)) => self.admit_files(plan),
            },
            (HelperStage::ApplyingTool { plan }, HelperReply::ToolChanged(result)) => {
                HelperStage::Reporting {
                    to: plan.result_path,
                    report: HelperReport::Tool(tell(result)),
                }
            },
            (HelperStage::RestoringTool { plan }, HelperReply::ToolChanged(result)) => {
                HelperStage::Reporting {
                    to: plan.result_path,
                    report: HelperReport::Tool(tell(result)),
                }
            },
            (HelperStage::SwappingFiles { plan }, HelperReply::FilesSwapped(result)) => {
                HelperStage::Reporting {
                    to: plan.result_path,
                    report: HelperReport::Files(tell(result)),
                }
            },
            (HelperStage::Reporting { to: _, report: _ }, HelperReply::Reported(result)) => {
                HelperStage::Ended { outcome: result }
            },
            (stage, _) => stage,
        }
    }
}

/// Whether `stages` are the stages that the helper goes through as `replies`
/// come in.
pub open spec fn is_helper_run(
    run: HelperRun,
    replies: Seq<HelperReply>,
    stages: Seq<HelperStage>,
) -> bool {
    &&& stages.len() == replies.len() + 1
    &&& stages[0] == HelperStage::ResolvingPlan
    &&& forall|i: int|
        0 <= i < replies.len() ==> helper_follows(
            run,
            stages[i],
            #[trigger] replies[i],
            stages[i + 1],
        )
}

/// Whether, before stage number `end`, the plan was found in the directory for
/// plans.
pub open spec fn plan_was_placed(
    replies: Seq<HelperReply>,
    stages: Seq<HelperStage>,
    end: int,
) -> bool {
    exists|i: int| 0 <= i < end && #[trigger] place_seen(replies, stages, i)
}

/// Whether reply number `at` put the plan directly into the directory for plans.
pub open spec fn place_seen(
    replies: Seq<HelperReply>,
    stages: Seq<HelperStage>,
    at: int,
) -> bool {
    &&& stages[at] matches HelperStage::ResolvingDirectory { plan }
    &&& replies[at] matches HelperReply::Resolved(Ok(directory))
    &&& is_directly_in(plan@, directory@)
}

/// Whether, before stage number `end`, the plan was found to have its digest.
pub open spec fn plan_was_genuine(
    run: HelperRun,
    replies: Seq<HelperReply>,
    stages: Seq<HelperStage>,
    end: int,
) -> bool {
    exists|i: int|
        0 <= i < end && stages[i] is Reading && #[trigger] replies[i] == HelperReply::Read(
            Ok(run.sha256),
        )
}

/// Whether a stage comes after the plan was found in its place.
pub open spec fn is_past_place(stage: HelperStage) -> bool {
    stage is Reading || is_past_digest(stage)
}

/// Whether a stage comes after the plan was found to be genuine.
pub open spec fn is_past_digest(stage: HelperStage) -> bool {
    ||| stage is Decoding
    ||| stage is ApplyingTool
    ||| stage is RestoringTool
    ||| stage is SwappingFiles
    ||| stage is Reporting
    ||| stage == (HelperStage::Ended { outcome: Ok(()) })
}

/// Whether a stage writes nowhere but to the result that belongs to its plan.
pub open spec fn keeps_to_its_result(run: HelperRun, stage: HelperStage) -> bool {
    match stage {
        HelperStage::ApplyingTool { plan } | HelperStage::RestoringTool { plan } => {
            reports_properly(run, plan.nonce@, plan.result_path@) && is_indicator(plan.tool_id)
        },
        HelperStage::SwappingFiles { plan } => reports_properly(
            run,
            plan.nonce@,
            plan.result_path@,
        ) && plan.operation.nonce@ == plan.nonce@,
        HelperStage::Reporting { to, report: _ } => exists|nonce: Seq<char>|
            #[trigger] reports_properly(run, nonce, to@),
        _ => true,
    }
}

/// The helper carries nothing out, and reports nothing, unless the plan lay in
/// the private directory and had the digest that the helper was started with;
/// and its report goes to the result of that plan and nowhere else.
pub proof fn only_genuine_plans_are_carried_out(
    run: HelperRun,
    replies: Seq<HelperReply>,
    stages: Seq<HelperStage>,
    at: int,
)
    requires
        is_helper_run(run, replies, stages),
        0 <= at < stages.len(),
    ensures
        is_past_place(stages[at]) ==> plan_was_placed(replies, stages, at),
        is_past_digest(stages[at]) ==> plan_was_genuine(run, replies, stages, at),
        keeps_to_its_result(run, stages[at]),
    decreases at,
{
    if at > 0 {
        only_genuine_plans_are_carried_out(run, replies, stages, at - 1);
        let before = stages[at - 1];
        let reply = replies[at - 1];
        let next = stages[at];
        assert(helper_follows(run, before, reply, next));
        if is_past_place(next) {
            if is_past_place(before) {
                let i = choose|i: int| 0 <= i < at - 1 && #[trigger] place_seen(replies, stages, i);
                assert(place_seen(replies, stages, i));
            } else {
                assert(place_seen(replies, stages, at - 1));
            }
        }
        if is_past_digest(next) {
            if is_past_digest(before) {
                let i = choose|i: int|
                    0 <= i < at - 1 && stages[i] is Reading && #[trigger] replies[i]
                        == HelperReply::Read(Ok(run.sha256));
                assert(replies[i] == HelperReply::Read(Ok(run.sha256)));
            } else {
                assert(replies[at - 1] == HelperReply::Read(Ok(run.sha256)));
            }
        }
        match (before, reply) {
            (HelperStage::Decoding, HelperReply::Decoded(Ok(ElevatedHelperPlan::SystemTool(plan)))) => {
                assert(reports_properly(run, plan.nonce@, plan.result_path@)
                    || next is Ended);
            },
            (HelperStage::Decoding, HelperReply::Decoded(Ok(ElevatedHelperPlan::FileSwap(plan)))) => {
                assert(reports_properly(run, plan.nonce@, plan.result_path@)
                    || next is Ended);
            },
            (HelperStage::ApplyingTool { plan }, HelperReply::ToolChanged(_)) => {
                assert(reports_properly(run, plan.nonce@, plan.result_path@));
            },
            (HelperStage::RestoringTool { plan }, HelperReply::ToolChanged(_)) => {
                assert(reports_properly(run, plan.nonce@, plan.result_path@));
            },
            (HelperStage::SwappingFiles { plan }, HelperReply::FilesSwapped(_)) => {
                assert(reports_properly(run, plan.nonce@, plan.result_path@));
            },
            _ => {},
        }
    }
}

/// A plan that is in order is carried out and reported: it lies in the
/// directory for plans, has its digest, names its own result in the directory
/// for results, and asks for what the helper does. What came of it, well or
/// not, is reported there, and then the helper ends.
pub proof fn plans_in_order_are_carried_out(
    run: HelperRun,
    plan: ElevatedHelperPlan,
    place: FilePath,
    directory: FilePath,
    name: Seq<char>,
    nonce: Seq<char>,
    replies: Seq<HelperReply>,
    stages: Seq<HelperStage>,
)
    requires
        is_helper_run(run, replies, stages),
        replies.len() == 6,
        replies[0] == HelperReply::Resolved(Ok(place)),
        replies[1] == HelperReply::Resolved(Ok(directory)),
        replies[2] == HelperReply::Read(Ok(run.sha256)),
        replies[3] == HelperReply::Decoded(Ok(plan)),
        name.len() > 2,
        !name.contains('/'),
        place@ == crate::paths::joined(directory@, name),
        16 <= nonce.len() <= 128,
        forall|i: int|
            0 <= i < nonce.len() ==> '0' <= #[trigger] nonce[i] <= '9' || 'a' <= nonce[i] <= 'z'
                || 'A' <= nonce[i] <= 'Z' || nonce[i] == '-' || nonce[i] == '_',
        match plan {
            ElevatedHelperPlan::SystemTool(tool) => {
                &&& tool.nonce@ == nonce
                &&& tool.result_path@ == crate::paths::joined(
                    run.result_directory@,
                    nonce + ".json"@,
                )
                &&& tool.tool_id@ == "nvidia.dlss_indicator"@
                &&& tool.restore_point matches Some(point) ==> point.tool_id@ == tool.tool_id@
                &&& replies[4] is ToolChanged
            },
            ElevatedHelperPlan::FileSwap(files) => {
                &&& files.nonce@ == nonce
                &&& files.operation.nonce@ == nonce
                &&& files.result_path@ == crate::paths::joined(
                    run.result_directory@,
                    nonce + ".json"@,
                )
                &&& replies[4] is FilesSwapped
            },
        },
        replies[5] == HelperReply::Reported(Ok(())),
    ensures
        helper_asks(run, stages[0]) == (HelperAction::Resolve { path: run.plan }),
        helper_asks(run, stages[1]) == (HelperAction::Resolve { path: run.plan_directory }),
        helper_asks(run, stages[2]) == (HelperAction::Read { path: place }),
        helper_asks(run, stages[4]) == HelperAction::Work,
        match plan {
            ElevatedHelperPlan::SystemTool(tool) => {
                &&& stages[4] == if tool.restore_point is Some {
                    HelperStage::RestoringTool { plan: tool }
                } else {
                    HelperStage::ApplyingTool { plan: tool }
                }
                &&& stages[5] matches HelperStage::Reporting { to, report }
                &&& to == tool.result_path
                &&& report matches HelperReport::Tool(told)
                &&& match replies[4]->ToolChanged_0 {
                    Ok(value) => told == Ok::<ToolChangeResult, String>(value),
                    Err(error) => told matches Err(message) && message@ == error_text(error),
                }
            },
            ElevatedHelperPlan::FileSwap(files) => {
                &&& stages[4] == (HelperStage::SwappingFiles { plan: files })
                &&& stages[5] matches HelperStage::Reporting { to, report }
                &&& to == files.result_path
                &&& report matches HelperReport::Files(told)
                &&& match replies[4]->FilesSwapped_0 {
                    Ok(value) => told == Ok::<BatchResult, String>(value),
                    Err(error) => told matches Err(message) && message@ == error_text(error),
                }
            },
        },
        stages[6] == (HelperStage::Ended { outcome: Ok(()) }),
{
    crate::paths::last_part_of_joined(directory@, name);
    assert(crate::paths::has_name(place@));
    assert(is_directly_in(place@, directory@));
    assert forall|i: int| 0 <= i < nonce.len() implies crate::elevation::is_nonce_char(
        #[trigger] nonce[i],
    ) by {}
    assert(is_nonce(nonce));
    assert(helper_follows(run, stages[0], replies[0], stages[1]));
    assert(helper_follows(run, stages[1], replies[1], stages[2]));
    assert(helper_follows(run, stages[2], replies[2], stages[3]));
    assert(helper_follows(run, stages[3], replies[3], stages[4]));
    assert(helper_follows(run, stages[4], replies[4], stages[5]));
    assert(helper_follows(run, stages[5], replies[5], stages[6]));
}

/// A plan that is not in order is not carried out. Without a place to report
/// to, the helper ends; with one, it says there what was wrong.
pub proof fn other_plans_are_refused(
    run: HelperRun,
    stage: HelperStage,
    reply: HelperReply,
    next: HelperStage,
)
    requires
        helper_follows(run, stage, reply, next),
    ensures
        stage is ResolvingPlan || stage is ResolvingDirectory ==> (reply
            matches HelperReply::Resolved(Err(error)) ==> next == (HelperStage::Ended {
            outcome: Err(error),
        })),
        stage is Reading ==> match reply {
            HelperReply::Read(Err(error)) => next == (HelperStage::Ended { outcome: Err(error) }),
            HelperReply::Read(Ok(sha256)) => sha256 != run.sha256 ==> (next
                matches HelperStage::Ended { outcome: Err(CoreError::Validation(message)) }
                && message@ == "elevated helper plan digest mismatch"@),
            _ => next == stage,
        },
        stage == HelperStage::Decoding ==> match reply {
            HelperReply::Decoded(Err(error)) => next == (HelperStage::Ended {
                outcome: Err(error),
            }),
            HelperReply::Decoded(Ok(ElevatedHelperPlan::SystemTool(tool))) => {
                &&& tool.nonce@.len() < 16 || tool.nonce@.len() > 128 || tool.result_path@
                    != crate::paths::joined(run.result_directory@, tool.nonce@ + ".json"@) ==> (
                next matches HelperStage::Ended { outcome: Err(_) })
                &&& next is ApplyingTool ==> next == (HelperStage::ApplyingTool { plan: tool })
                    && tool.restore_point is None && tool.tool_id@ == "nvidia.dlss_indicator"@
                &&& next is RestoringTool ==> next == (HelperStage::RestoringTool { plan: tool })
                    && tool.restore_point is Some && tool.tool_id@ == "nvidia.dlss_indicator"@
                &&& next matches HelperStage::Reporting { to, report } ==> to == tool.result_path
                    && (report matches HelperReport::Tool(Err(_)))
                &&& !(next is SwappingFiles)
            },
            HelperReply::Decoded(Ok(ElevatedHelperPlan::FileSwap(files))) => {
                &&& files.nonce@.len() < 16 || files.nonce@.len() > 128 || files.result_path@
                    != crate::paths::joined(run.result_directory@, files.nonce@ + ".json"@) ==> (
                next matches HelperStage::Ended { outcome: Err(_) })
                &&& next is SwappingFiles ==> next == (HelperStage::SwappingFiles { plan: files })
                    && files.operation.nonce@ == files.nonce@
                &&& next matches HelperStage::Reporting { to, report } ==> to == files.result_path
                    && (report matches HelperReport::Files(Err(_)))
                &&& !(next is ApplyingTool) && !(next is RestoringTool)
            },
            _ => next == stage,
        },
        stage is Reporting ==> (reply matches HelperReply::Reported(outcome) ==> next == (
        HelperStage::Ended { outcome })),
        stage is Ended ==> next == stage,
{
}

} // verus!
