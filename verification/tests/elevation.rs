use dlss_updater::elevation::{
    admit_file_plan, admit_tool_plan, check_game, check_nvidia_dll, check_plan_digest,
    check_plan_place, check_target, checked_operation, is_valid_nonce, policy_for_source,
    result_path, staged_source_path, validate_helper_paths, FilePlanCheck, FilePlanStage,
    LocatedDll, LocatedGame, PlanGround,
};
use dlss_updater::files::{FileAction, FileReply};
use dlss_updater::helper::{HelperAction, HelperReply, HelperReport, HelperRun, HelperStage};
use dlss_updater::model::{
    BatchResult, Comparison, DllInstallation, DllInstallationId, DllMetadata, DllVersion,
    ElevatedFilePlan, ElevatedHelperPlan, FileName, GameId, OperationPlan, PlannedSwap,
    SignatureStatus,
};
use dlss_updater::paths::{FilePath, PathStyle};
use dlss_updater::tools::{
    SystemToolId, SystemToolState, ToolChangePlan, ToolChangeResult, DLSS_INDICATOR_TOOL_ID,
};
use dlss_updater::traits::CoreError;
use dlss_updater::trust::{RevocationStatus, TrustPolicy, TrustReport};
use dlss_updater::worker::operation_nonce;

fn place(text: &str) -> FilePath {
    FilePath::parse(PathStyle::Windows, text)
}

#[test]
fn elevated_helper_rejects_bad_nonces_and_result_paths() {
    let results = place(r"C:\private\helper-results");
    assert!(validate_helper_paths("short", &place("x"), &results).is_err());
    assert!(validate_helper_paths(
        "0123456789abcdef",
        &place(r"C:\elsewhere\0123456789abcdef.json"),
        &results,
    )
    .is_err());
    assert!(validate_helper_paths(
        "0123456789abcdef",
        &results.join("0123456789abcdef.json"),
        &results,
    )
    .is_ok());
}

#[test]
fn nonces_of_operations_are_accepted() {
    let nonce = operation_nonce(u128::MAX, 7);
    assert_eq!(nonce, "ffffffffffffffffffffffffffffffff-00000007");
    assert!(is_valid_nonce(&nonce));
    assert!(!is_valid_nonce("0123456789abcde"));
    assert!(!is_valid_nonce(&"a".repeat(129)));
    assert!(!is_valid_nonce("0123456789abcdef/"));
}

#[test]
fn plans_have_to_lie_in_their_directory() {
    let plans = place("/base/helper-plans");
    assert!(check_plan_place(&place("/base/helper-plans/n.json"), &plans).is_ok());
    assert!(check_plan_place(&place("/base/helper-plans/sub/n.json"), &plans).is_err());
    assert!(check_plan_place(&place("/base/n.json"), &plans).is_err());
    assert!(check_plan_digest(&[1; 32], &[1; 32]).is_ok());
    assert!(check_plan_digest(&[1; 32], &[2; 32]).is_err());
}

const NONCE: &str = "0123456789abcdef";

fn run() -> HelperRun {
    HelperRun {
        plan: place("/base/helper-plans/n.json"),
        sha256: [4; 32],
        plan_directory: place("/base/helper-plans"),
        result_directory: place("/base/helper-results"),
    }
}

fn tool_plan() -> ToolChangePlan {
    ToolChangePlan {
        tool_id: SystemToolId::new(DLSS_INDICATOR_TOOL_ID),
        desired: SystemToolState::Off,
        restore_point: None,
        expected_current_hash: [0; 32],
        nonce: NONCE.into(),
        result_path: place("/base/helper-results/0123456789abcdef.json"),
        allow_stale_restore: false,
    }
}

fn file_plan() -> ElevatedFilePlan {
    ElevatedFilePlan {
        game_id: GameId::new("steam:1"),
        game_root: place("/games/one"),
        operation: OperationPlan { nonce: NONCE.into(), swaps: Vec::new() },
        nonce: NONCE.into(),
        result_path: place("/base/helper-results/0123456789abcdef.json"),
    }
}

/// Lets the helper run on a plan that lies where it should, and collects what
/// it was asked to do.
fn drive(
    run: &HelperRun,
    digest: [u8; 32],
    plan: ElevatedHelperPlan,
) -> (Vec<HelperAction>, Option<HelperReport>, Result<(), CoreError>) {
    let mut plan = Some(plan);
    let mut asked = Vec::new();
    let mut reported = None;
    let mut stage = HelperStage::ResolvingPlan;
    loop {
        let action = run.action(&stage);
        let reply = match &action {
            HelperAction::Resolve { path } => HelperReply::Resolved(Ok(path.clone())),
            HelperAction::Read { .. } => HelperReply::Read(Ok(digest)),
            HelperAction::Decode => HelperReply::Decoded(Ok(plan.take().unwrap())),
            HelperAction::Work => match &stage {
                HelperStage::SwappingFiles { .. } => {
                    HelperReply::FilesSwapped(Ok(BatchResult { swaps: Vec::new() }))
                }
                _ => HelperReply::ToolChanged(Ok(ToolChangeResult {
                    tool_id: SystemToolId::new(DLSS_INDICATOR_TOOL_ID),
                    state: SystemToolState::Off,
                    restore_point: None,
                })),
            },
            HelperAction::Report { .. } => {
                if let HelperStage::Reporting { report, .. } = stage {
                    reported = Some(report);
                }
                asked.push(action);
                return (asked, reported, Ok(()));
            }
            HelperAction::Rest => match stage {
                HelperStage::Ended { outcome } => return (asked, reported, outcome),
                _ => unreachable!(),
            },
        };
        asked.push(action);
        stage = run.run_elevated_helper(stage, reply);
    }
}

#[test]
fn the_helper_works_on_a_genuine_plan() {
    let (asked, report, outcome) =
        drive(&run(), [4; 32], ElevatedHelperPlan::SystemTool(tool_plan()));
    assert_eq!(outcome, Ok(()));
    assert!(asked.contains(&HelperAction::Work));
    assert_eq!(
        asked.last(),
        Some(&HelperAction::Report {
            to: place("/base/helper-results/0123456789abcdef.json")
        })
    );
    assert!(matches!(report, Some(HelperReport::Tool(Ok(_)))));
    let (_, report, _) = drive(&run(), [4; 32], ElevatedHelperPlan::FileSwap(file_plan()));
    assert!(matches!(report, Some(HelperReport::Files(Ok(_)))));
}

#[test]
fn the_helper_does_nothing_for_a_plan_that_was_exchanged() {
    let (asked, report, outcome) =
        drive(&run(), [5; 32], ElevatedHelperPlan::SystemTool(tool_plan()));
    assert_eq!(
        outcome.unwrap_err().to_text(),
        "validation failed: elevated helper plan digest mismatch"
    );
    assert!(!asked.contains(&HelperAction::Work));
    assert_eq!(report, None);
    let mut elsewhere = run();
    elsewhere.plan = place("/tmp/n.json");
    let (_, _, outcome) =
        drive(&elsewhere, [4; 32], ElevatedHelperPlan::SystemTool(tool_plan()));
    assert_eq!(
        outcome.unwrap_err().to_text(),
        "validation failed: helper plan is outside the private plan directory"
    );
}

#[test]
fn the_helper_reports_what_it_refuses() {
    let mut plan = tool_plan();
    plan.tool_id = SystemToolId::new("other");
    assert_eq!(
        admit_tool_plan(&plan),
        Err("validation failed: unknown system tool ID".into())
    );
    let (asked, report, _) = drive(&run(), [4; 32], ElevatedHelperPlan::SystemTool(plan));
    assert!(!asked.contains(&HelperAction::Work));
    assert!(matches!(report, Some(HelperReport::Tool(Err(_)))));
    let mut plan = file_plan();
    plan.operation.nonce = "another-nonce-of-it".into();
    assert_eq!(admit_file_plan(&plan), Err("file plan nonce mismatch".into()));
    let (_, report, _) = drive(&run(), [4; 32], ElevatedHelperPlan::FileSwap(plan));
    assert_eq!(report, Some(HelperReport::Files(Err("file plan nonce mismatch".into()))));
    let mut plan = file_plan();
    plan.result_path = place("/windows/system32/x.json");
    let (_, report, outcome) = drive(&run(), [4; 32], ElevatedHelperPlan::FileSwap(plan));
    assert_eq!(report, None);
    assert_eq!(
        outcome.unwrap_err().to_text(),
        "validation failed: invalid helper result path"
    );
}

fn metadata(hash: u8) -> DllMetadata {
    DllMetadata {
        version: Some(DllVersion::new(3, 0, 0, 0)),
        sha256: [hash; 32],
        signature: SignatureStatus::Trusted,
        x86_64: true,
    }
}

fn trust() -> TrustReport {
    TrustReport {
        signature: SignatureStatus::Trusted,
        signer: Some("NVIDIA Corporation".into()),
        revocation: RevocationStatus::Verified,
        native_failure: None,
    }
}

fn ground() -> PlanGround {
    let path = place("/games/one/nvngx_dlss.dll");
    PlanGround {
        game_id: GameId::new("steam:1"),
        game_root: place("/games/one"),
        nonce: NONCE.into(),
        installations: vec![LocatedDll {
            dll: DllInstallation {
                id: DllInstallationId::new("steam:1:a"),
                game_id: GameId::new("steam:1"),
                path: path.clone(),
                file_name: FileName::new("nvngx_dlss.dll"),
                metadata: metadata(1),
            },
            place: Ok(path),
        }],
        releases: place("/base/cache/releases"),
        backups: Some(place("/base/backups/objects")),
        imports: None,
    }
}

fn swap() -> PlannedSwap {
    PlannedSwap {
        game: GameId::new("steam:1"),
        installation: DllInstallationId::new("steam:1:a"),
        target_path: place("/games/one/nvngx_dlss.dll"),
        expected_sha256: [1; 32],
        source_path: place("/base/cache/releases/v3/nvngx_dlss.dll"),
        source_sha256: [2; 32],
        comparison: Comparison::Upgrade,
    }
}

#[test]
fn a_target_has_to_be_a_known_dll_of_the_game() {
    let target = place("/games/one/nvngx_dlss.dll");
    assert_eq!(check_target(&ground(), &swap(), &target), Ok(()));
    let why = |target: &str, swap: &PlannedSwap| {
        check_target(&ground(), swap, &place(target)).unwrap_err().to_text()
    };
    assert_eq!(
        why("/games/two/nvngx_dlss.dll", &swap()),
        "validation failed: target is outside the game root"
    );
    assert_eq!(
        why("/games/one/dxgi.dll", &swap()),
        "validation failed: target is not a managed NVIDIA DLL"
    );
    let mut unknown = swap();
    unknown.installation = DllInstallationId::new("other");
    assert_eq!(
        why("/games/one/nvngx_dlss.dll", &unknown),
        "validation failed: target is not a discovered DLL installation"
    );
    let mut stale = swap();
    stale.expected_sha256 = [9; 32];
    assert_eq!(
        why("/games/one/nvngx_dlss.dll", &stale),
        "validation failed: target does not match the discovered DLL installation"
    );
}

#[test]
fn sources_come_from_the_program_s_own_folders() {
    let policy = |path: &str| policy_for_source(&ground(), &place(path));
    assert_eq!(
        policy("/base/cache/releases/v3/a.dll"),
        Some(TrustPolicy::OfficialNvidiaCatalog)
    );
    assert_eq!(policy("/base/backups/objects/aa"), Some(TrustPolicy::Strict));
    assert_eq!(policy("/base/imports/objects/aa"), None);
    assert_eq!(policy("/tmp/a.dll"), None);
    assert!(check_nvidia_dll(&metadata(1), &trust()).is_ok());
    let mut other = trust();
    other.signer = Some("Example Publisher".into());
    assert!(check_nvidia_dll(&metadata(1), &other).is_err());
}

#[test]
fn a_checked_swap_runs_on_a_private_copy() {
    let mut check = FilePlanCheck::new(ground(), vec![swap()]);
    let mut stage = check.go_on(0);
    while let Some(action) = check.action(&stage) {
        let reply = match action {
            FileAction::Resolve { path } => FileReply::Resolved(Ok(path)),
            FileAction::Hash { .. } => FileReply::Hashed(Ok([2; 32])),
            FileAction::Inspect { .. } => FileReply::Inspected(Ok(metadata(2))),
            FileAction::Verify { .. } => FileReply::Verified(Ok(trust())),
            _ => FileReply::Done(Ok(())),
        };
        stage = check.validate_file_plan(stage, reply);
    }
    assert_eq!(stage, FilePlanStage::Ended { outcome: Ok(()) });
    let operation = checked_operation(NONCE.into(), check.passed);
    assert_eq!(operation.swaps.len(), 1);
    assert_eq!(
        operation.swaps[0].source_path,
        place("/games/one/.dlss-source-0123456789abcdef-0.dll")
    );
    assert_eq!(
        operation.swaps[0].source_path,
        staged_source_path(&place("/games/one/nvngx_dlss.dll"), NONCE, 0)
    );
}

#[test]
fn a_copy_that_changed_on_the_way_is_deleted() {
    let mut check = FilePlanCheck::new(ground(), vec![swap()]);
    let stage = check.validate_file_plan(
        FilePlanStage::HashingCopy {
            index: 0,
            target: place("/games/one/nvngx_dlss.dll"),
            policy: TrustPolicy::OfficialNvidiaCatalog,
        },
        FileReply::Hashed(Ok([7; 32])),
    );
    assert!(matches!(check.action(&stage), Some(FileAction::Remove { .. })));
    let ended = check.validate_file_plan(stage, FileReply::Done(Ok(())));
    let FilePlanStage::Ended { outcome: Err(error) } = ended else {
        panic!("the check has to fail");
    };
    assert_eq!(
        error.to_text(),
        "validation failed: elevated source staging hash mismatch"
    );
    assert!(check.passed.is_empty());
}

#[test]
fn the_plan_has_to_belong_to_a_game_that_is_there() {
    let located = |id: &str, root: Option<&str>| LocatedGame {
        id: GameId::new(id),
        root: root.map(place),
    };
    let root = place("/games/one");
    let id = GameId::new("steam:1");
    assert!(check_game(&vec![located("steam:1", Some("/games/one"))], &None, &id, &root).is_ok());
    assert!(check_game(&vec![located("steam:1", Some("/games/two"))], &None, &id, &root).is_err());
    assert!(check_game(&vec![located("steam:1", None)], &None, &id, &root).is_err());
    let manual = GameId::new("manual:2f");
    assert!(check_game(&Vec::new(), &Some(manual.clone()), &manual, &root).is_ok());
    assert!(check_game(&Vec::new(), &Some(id.clone()), &id, &root).is_err());
    assert_eq!(
        result_path(&place("/r"), NONCE),
        place("/r/0123456789abcdef.json")
    );
}
