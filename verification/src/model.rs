//! Games, their DLLs, releases, and the plans that connect them.

use crate::digest::same_hash;
use crate::lists::{picks, picks_grow, picks_nothing};
use crate::paths::FilePath;
use crate::text::{push_decimal, same_folded};
use crate::tools::ToolChangePlan;
use vstd::prelude::*;

verus! {

/// Identifies a game installation.
#[derive(Debug, PartialEq, Eq, PartialOrd, Ord, Hash)]
pub struct GameId(pub String);

impl View for GameId {
    type V = Seq<char>;

    open spec fn view(&self) -> Seq<char> {
        self.0@
    }
}

impl Clone for GameId {
    fn clone(&self) -> (copy: GameId)
        ensures
            copy == *self,
    {
        GameId(self.0.clone())
    }
}

impl GameId {
    /// The game identifier written as `text`.
    pub fn new(text: &str) -> (id: GameId)
        ensures
            id@ == text@,
    {
        GameId(text.to_owned())
    }

    /// Whether two identifiers have the same text.
    pub fn same(&self, other: &GameId) -> (same: bool)
        ensures
            same == (self@ == other@),
    {
        self.0 == other.0
    }
}

/// Identifies one DLL file of one game.
#[derive(Debug, PartialEq, Eq, PartialOrd, Ord, Hash)]
pub struct DllInstallationId(pub String);

impl View for DllInstallationId {
    type V = Seq<char>;

    open spec fn view(&self) -> Seq<char> {
        self.0@
    }
}

impl Clone for DllInstallationId {
    fn clone(&self) -> (copy: DllInstallationId)
        ensures
            copy == *self,
    {
        DllInstallationId(self.0.clone())
    }
}

impl DllInstallationId {
    /// The installation identifier written as `text`.
    pub fn new(text: &str) -> (id: DllInstallationId)
        ensures
            id@ == text@,
    {
        DllInstallationId(text.to_owned())
    }

    /// Whether two identifiers have the same text.
    pub fn same(&self, other: &DllInstallationId) -> (same: bool)
        ensures
            same == (self@ == other@),
    {
        self.0 == other.0
    }
}

/// Identifies a release in the catalog.
#[derive(Debug, PartialEq, Eq, PartialOrd, Ord, Hash)]
pub struct ReleaseId(pub String);

impl View for ReleaseId {
    type V = Seq<char>;

    open spec fn view(&self) -> Seq<char> {
        self.0@
    }
}

impl Clone for ReleaseId {
    fn clone(&self) -> (copy: ReleaseId)
        ensures
            copy == *self,
    {
        ReleaseId(self.0.clone())
    }
}

impl ReleaseId {
    /// The release identifier written as `text`.
    pub fn new(text: &str) -> (id: ReleaseId)
        ensures
            id@ == text@,
    {
        ReleaseId(text.to_owned())
    }

    /// Whether two identifiers have the same text.
    pub fn same(&self, other: &ReleaseId) -> (same: bool)
        ensures
            same == (self@ == other@),
    {
        self.0 == other.0
    }
}

/// Where a game was installed from.
#[derive(Clone, Copy, Debug, PartialEq, Eq, Structural)]
pub enum StoreKind {
    Steam,
    Epic,
    Gog,
    Manual,
}

/// The name of a file as the operating system gives it. A name that is not
/// Unicode text is kept in an escaped form and never equals any other name.
#[derive(Debug, PartialEq, Eq)]
pub enum FileName {
    Unicode(String),
    Other(String),
}

impl Clone for FileName {
    fn clone(&self) -> (copy: FileName)
        ensures
            copy == *self,
    {
        match self {
            FileName::Unicode(text) => FileName::Unicode(text.clone()),
            FileName::Other(text) => FileName::Other(text.clone()),
        }
    }
}

impl FileName {
    /// The name `text`.
    pub fn new(text: &str) -> (name: FileName)
        ensures
            name matches FileName::Unicode(written) && written@ == text@,
    {
        FileName::Unicode(text.to_owned())
    }
}

/// Whether two file names are the same to the catalog: both are Unicode text,
/// equal once `A` to `Z` are folded. Official DLL names are ASCII.
pub open spec fn names_match(left: FileName, right: FileName) -> bool {
    match (left, right) {
        (FileName::Unicode(left), FileName::Unicode(right)) => crate::text::ascii_folded(left@)
            == crate::text::ascii_folded(right@),
        _ => false,
    }
}

/// Decides [`names_match`].
pub fn same_file_name(left: &FileName, right: &FileName) -> (same: bool)
    ensures
        same == names_match(*left, *right),
{
    match (left, right) {
        (FileName::Unicode(left), FileName::Unicode(right)) => same_folded(left, right),
        _ => false,
    }
}

/// A game found on this machine.
#[derive(Debug, PartialEq, Eq)]
pub struct GameInstall {
    pub id: GameId,
    pub name: String,
    pub store: StoreKind,
    pub root: FilePath,
    pub dlls: Vec<DllInstallation>,
    /// How many candidate files could not be inspected.
    pub inspection_errors: usize,
}

/// Whether two records describe a game in the same way.
pub open spec fn same_game(left: GameInstall, right: GameInstall) -> bool {
    &&& left.id == right.id
    &&& left.name == right.name
    &&& left.store == right.store
    &&& left.root == right.root
    &&& left.dlls@ == right.dlls@
    &&& left.inspection_errors == right.inspection_errors
}

impl Clone for GameInstall {
    fn clone(&self) -> (copy: GameInstall)
        ensures
            same_game(copy, *self),
    {
        let dlls = self.dlls.clone();
        proof {
            assert(dlls@ =~= self.dlls@);
        }
        GameInstall {
            id: self.id.clone(),
            name: self.name.clone(),
            store: self.store,
            root: self.root.clone(),
            dlls,
            inspection_errors: self.inspection_errors,
        }
    }
}

/// The four-part version of a DLL.
#[derive(Clone, Copy, Debug, PartialEq, Eq, PartialOrd, Ord, Hash, Structural)]
pub struct DllVersion {
    pub major: u16,
    pub minor: u16,
    pub build: u16,
    pub revision: u16,
}

/// Version order: the first part that differs decides.
pub open spec fn version_less(left: DllVersion, right: DllVersion) -> bool {
    ||| left.major < right.major
    ||| left.major == right.major && left.minor < right.minor
    ||| left.major == right.major && left.minor == right.minor && left.build < right.build
    ||| left.major == right.major && left.minor == right.minor && left.build == right.build
        && left.revision < right.revision
}

/// A version as one number, the major part first.
pub open spec fn version_number(version: DllVersion) -> int {
    ((version.major * 65536 + version.minor) * 65536 + version.build) * 65536 + version.revision
}

/// Versions are ordered as their numbers are, and differ as they do.
pub proof fn version_numbers_keep_order(left: DllVersion, right: DllVersion)
    ensures
        version_less(left, right) <==> version_number(left) < version_number(right),
        left == right <==> version_number(left) == version_number(right),
        0 <= version_number(left) <= u64::MAX,
{
}

/// How a version is written: its parts in decimal, with dots between.
pub open spec fn version_text(version: DllVersion) -> Seq<char> {
    crate::text::decimal(version.major as nat).push('.') + crate::text::decimal(
        version.minor as nat,
    ).push('.') + crate::text::decimal(version.build as nat).push('.') + crate::text::decimal(
        version.revision as nat,
    )
}

impl DllVersion {
    /// The version with these parts.
    pub fn new(major: u16, minor: u16, build: u16, revision: u16) -> (version: DllVersion)
        ensures
            version == (DllVersion { major, minor, build, revision }),
    {
        DllVersion { major, minor, build, revision }
    }

    /// The version as one number.
    pub fn number(&self) -> (number: u64)
        ensures
            number == version_number(*self),
    {
        proof {
            version_numbers_keep_order(*self, *self);
        }
        ((self.major as u64 * 65536 + self.minor as u64) * 65536 + self.build as u64) * 65536
            + self.revision as u64
    }

    /// Whether this version comes before `other`.
    pub fn is_older_than(&self, other: &DllVersion) -> (older: bool)
        ensures
            older == version_less(*self, *other),
    {
        proof {
            version_numbers_keep_order(*self, *other);
        }
        self.number() < other.number()
    }

    /// The version in writing, such as `3.7.10.0`.
    pub fn to_text(&self) -> (text: String)
        ensures
            text@ == version_text(*self),
    {
        let mut text = String::new();
        push_decimal(&mut text, self.major as u64);
        text.push('.');
        push_decimal(&mut text, self.minor as u64);
        text.push('.');
        push_decimal(&mut text, self.build as u64);
        text.push('.');
        push_decimal(&mut text, self.revision as u64);
        proof {
            assert(text@ =~= version_text(*self));
        }
        text
    }
}

/// What signature verification said about a file.
#[derive(Clone, Copy, Debug, PartialEq, Eq, Structural)]
pub enum SignatureStatus {
    Trusted,
    Untrusted,
    Unsigned,
    Unavailable,
}

/// What is known of the content of a DLL.
#[derive(Debug, PartialEq, Eq)]
pub struct DllMetadata {
    pub version: Option<DllVersion>,
    pub sha256: [u8; 32],
    pub signature: SignatureStatus,
    pub x86_64: bool,
}

impl Clone for DllMetadata {
    fn clone(&self) -> (copy: DllMetadata)
        ensures
            copy == *self,
    {
        DllMetadata {
            version: self.version,
            sha256: self.sha256,
            signature: self.signature,
            x86_64: self.x86_64,
        }
    }
}

/// One DLL file of one game.
#[derive(Debug, PartialEq, Eq)]
pub struct DllInstallation {
    pub id: DllInstallationId,
    pub game_id: GameId,
    pub path: FilePath,
    pub file_name: FileName,
    pub metadata: DllMetadata,
}

impl Clone for DllInstallation {
    fn clone(&self) -> (copy: DllInstallation)
        ensures
            copy == *self,
    {
        DllInstallation {
            id: self.id.clone(),
            game_id: self.game_id.clone(),
            path: self.path.clone(),
            file_name: self.file_name.clone(),
            metadata: self.metadata.clone(),
        }
    }
}

/// How far a release has come on its way into the cache.
#[derive(Clone, Copy, Debug, PartialEq, Eq, Structural)]
pub enum ReleaseState {
    MetadataOnly,
    Downloading,
    Downloaded,
    Validating,
    Ready,
    Invalid,
}

/// What the catalog says of a release before it is downloaded.
#[derive(Debug, PartialEq, Eq)]
pub struct ReleaseMetadata {
    pub id: ReleaseId,
    pub tag: String,
    pub asset_name: String,
    pub published_unix: i64,
}

impl Clone for ReleaseMetadata {
    fn clone(&self) -> (copy: ReleaseMetadata)
        ensures
            copy == *self,
    {
        ReleaseMetadata {
            id: self.id.clone(),
            tag: self.tag.clone(),
            asset_name: self.asset_name.clone(),
            published_unix: self.published_unix,
        }
    }
}

/// A DLL that can be installed from the cache.
#[derive(Debug, PartialEq, Eq)]
pub struct CatalogDll {
    pub file_name: FileName,
    pub version: DllVersion,
    pub sha256: [u8; 32],
    pub source: FilePath,
    pub release: ReleaseId,
}

impl Clone for CatalogDll {
    fn clone(&self) -> (copy: CatalogDll)
        ensures
            copy == *self,
    {
        CatalogDll {
            file_name: self.file_name.clone(),
            version: self.version,
            sha256: self.sha256,
            source: self.source.clone(),
            release: self.release.clone(),
        }
    }
}

/// How thoroughly the signatures of a release were checked.
#[derive(Clone, Copy, Debug, PartialEq, Eq, Structural)]
pub enum ReleaseValidation {
    Full,
    /// Revocation could not be checked because the network was out of reach.
    RevocationUnavailableFallback,
}

/// A release as the catalog shows it.
#[derive(Debug, PartialEq, Eq)]
pub struct CachedRelease {
    pub metadata: ReleaseMetadata,
    pub state: ReleaseState,
    pub dlls: Vec<CatalogDll>,
    pub validation: ReleaseValidation,
}

/// Whether two releases have the same content.
pub open spec fn same_release(left: CachedRelease, right: CachedRelease) -> bool {
    &&& left.metadata == right.metadata
    &&& left.state == right.state
    &&& left.dlls@ == right.dlls@
    &&& left.validation == right.validation
}

impl Clone for CachedRelease {
    fn clone(&self) -> (copy: CachedRelease)
        ensures
            same_release(copy, *self),
    {
        let dlls = self.dlls.clone();
        proof {
            assert(dlls@ =~= self.dlls@);
        }
        CachedRelease {
            metadata: self.metadata.clone(),
            state: self.state,
            dlls,
            validation: self.validation,
        }
    }
}

/// What installing a target would mean for an installed DLL.
#[derive(Clone, Copy, Debug, PartialEq, Eq, Structural)]
pub enum Comparison {
    Upgrade,
    Downgrade,
    Identical,
    DifferentBuild,
    Unknown,
    Unavailable,
}

/// The meaning of [`compare_target`].
pub open spec fn comparison(
    installed_version: Option<DllVersion>,
    installed_hash: [u8; 32],
    target_version: Option<DllVersion>,
    target_hash: [u8; 32],
) -> Comparison {
    if installed_hash == target_hash {
        Comparison::Identical
    } else {
        match (installed_version, target_version) {
            (Some(installed), Some(target)) => if version_less(installed, target) {
                Comparison::Upgrade
            } else if version_less(target, installed) {
                Comparison::Downgrade
            } else {
                Comparison::DifferentBuild
            },
            _ => Comparison::Unknown,
        }
    }
}

/// Compares an installed DLL with one that could take its place. Equal content
/// is identical whatever the versions say.
pub fn compare_target(
    installed_version: Option<DllVersion>,
    installed_hash: [u8; 32],
    target_version: Option<DllVersion>,
    target_hash: [u8; 32],
) -> (result: Comparison)
    ensures
        result == comparison(installed_version, installed_hash, target_version, target_hash),
{
    if same_hash(&installed_hash, &target_hash) {
        return Comparison::Identical;
    }
    match (installed_version, target_version) {
        (Some(installed), Some(target)) => {
            if installed.is_older_than(&target) {
                Comparison::Upgrade
            } else if target.is_older_than(&installed) {
                Comparison::Downgrade
            } else {
                Comparison::DifferentBuild
            }
        },
        _ => Comparison::Unknown,
    }
}

/// The meaning of [`compare_dll`].
pub open spec fn dll_comparison(
    installed: Option<DllMetadata>,
    target: Option<CatalogDll>,
) -> Comparison {
    match (installed, target) {
        (Some(installed), Some(target)) => comparison(
            installed.version,
            installed.sha256,
            Some(target.version),
            target.sha256,
        ),
        (_, None) => Comparison::Unavailable,
        (None, Some(_)) => Comparison::Unknown,
    }
}

/// Compares an installed DLL with a DLL of the catalog.
pub fn compare_dll(installed: Option<&DllMetadata>, target: Option<&CatalogDll>) -> (result:
    Comparison)
    ensures
        result == dll_comparison(
            match installed {
                Some(installed) => Some(*installed),
                None => None,
            },
            match target {
                Some(target) => Some(*target),
                None => None,
            },
        ),
{
    match (installed, target) {
        (Some(installed), Some(target)) => compare_target(
            installed.version,
            installed.sha256,
            Some(target.version),
            target.sha256,
        ),
        (_, None) => Comparison::Unavailable,
        (None, Some(_)) => Comparison::Unknown,
    }
}

/// Swapping what is installed with its target turns an upgrade into a
/// downgrade and a downgrade into an upgrade, and changes no other outcome.
pub proof fn comparison_mirrors(
    left_version: Option<DllVersion>,
    left_hash: [u8; 32],
    right_version: Option<DllVersion>,
    right_hash: [u8; 32],
)
    ensures
        comparison(right_version, right_hash, left_version, left_hash) == mirrored(
            comparison(left_version, left_hash, right_version, right_hash),
        ),
{
}

/// The outcome of a comparison with the two sides exchanged.
pub open spec fn mirrored(outcome: Comparison) -> Comparison {
    match outcome {
        Comparison::Upgrade => Comparison::Downgrade,
        Comparison::Downgrade => Comparison::Upgrade,
        other => other,
    }
}

/// What the user wants in place of an installed DLL.
#[derive(Debug, PartialEq, Eq)]
pub enum DesiredDll {
    KeepInstalled,
    LatestOfficial,
    Cached { release: ReleaseId, sha256: [u8; 32] },
    Restore { backup_sha256: [u8; 32] },
}

impl Clone for DesiredDll {
    fn clone(&self) -> (copy: DesiredDll)
        ensures
            copy == *self,
    {
        match self {
            DesiredDll::KeepInstalled => DesiredDll::KeepInstalled,
            DesiredDll::LatestOfficial => DesiredDll::LatestOfficial,
            DesiredDll::Cached { release, sha256 } => DesiredDll::Cached {
                release: release.clone(),
                sha256: *sha256,
            },
            DesiredDll::Restore { backup_sha256 } => DesiredDll::Restore {
                backup_sha256: *backup_sha256,
            },
        }
    }
}

/// Replaces the content of one file by the content of another.
#[derive(Debug, PartialEq, Eq)]
pub struct PlannedSwap {
    pub game: GameId,
    pub installation: DllInstallationId,
    pub target_path: FilePath,
    /// The digest that the target must still have.
    pub expected_sha256: [u8; 32],
    pub source_path: FilePath,
    pub source_sha256: [u8; 32],
    pub comparison: Comparison,
}

impl Clone for PlannedSwap {
    fn clone(&self) -> (copy: PlannedSwap)
        ensures
            copy == *self,
    {
        PlannedSwap {
            game: self.game.clone(),
            installation: self.installation.clone(),
            target_path: self.target_path.clone(),
            expected_sha256: self.expected_sha256,
            source_path: self.source_path.clone(),
            source_sha256: self.source_sha256,
            comparison: self.comparison,
        }
    }
}

/// Swaps to be carried out together.
#[derive(Debug, PartialEq, Eq)]
pub struct OperationPlan {
    pub nonce: String,
    pub swaps: Vec<PlannedSwap>,
}

impl Clone for OperationPlan {
    fn clone(&self) -> (copy: OperationPlan)
        ensures
            copy.nonce == self.nonce,
            copy.swaps@ == self.swaps@,
    {
        let swaps = self.swaps.clone();
        proof {
            assert(swaps@ =~= self.swaps@);
        }
        OperationPlan { nonce: self.nonce.clone(), swaps }
    }
}

/// How many games and DLLs a plan touches.
#[derive(Clone, Copy, Debug, PartialEq, Eq, Structural)]
pub struct PlanSummary {
    pub games: usize,
    pub dlls: usize,
    pub upgrades: usize,
    pub downgrades: usize,
}

/// The games that `swaps` touch.
pub open spec fn touched_games(swaps: Seq<PlannedSwap>) -> Set<Seq<char>> {
    swaps.map_values(|swap: PlannedSwap| swap.game@).to_set()
}

/// How many of `swaps` have the outcome `wanted`.
pub open spec fn count_outcome(swaps: Seq<PlannedSwap>, wanted: Comparison) -> nat
    decreases swaps.len(),
{
    if swaps.len() == 0 {
        0
    } else {
        count_outcome(swaps.drop_last(), wanted) + if swaps.last().comparison == wanted {
            1nat
        } else {
            0nat
        }
    }
}

proof fn touched_games_grow(swaps: Seq<PlannedSwap>, at: int)
    requires
        0 <= at < swaps.len(),
    ensures
        touched_games(swaps.take(at + 1)) == touched_games(swaps.take(at)).insert(swaps[at].game@),
        touched_games(swaps.take(at)).finite(),
        touched_games(swaps.take(at)).contains(swaps[at].game@) <==> exists|i: int|
            0 <= i < at && (#[trigger] swaps[i]).game@ == swaps[at].game@,
{
    let games = swaps.take(at).map_values(|swap: PlannedSwap| swap.game@);
    let more = swaps.take(at + 1).map_values(|swap: PlannedSwap| swap.game@);
    assert(more =~= games.push(swaps[at].game@));
    games.lemma_push_to_set_commute(swaps[at].game@);
    vstd::seq_lib::seq_to_set_is_finite(games);
    if games.to_set().contains(swaps[at].game@) {
        let i = choose|i: int| 0 <= i < games.len() && games[i] == swaps[at].game@;
        assert(swaps[i].game@ == swaps[at].game@);
    }
    if exists|i: int| 0 <= i < at && (#[trigger] swaps[i]).game@ == swaps[at].game@ {
        let i = choose|i: int| 0 <= i < at && (#[trigger] swaps[i]).game@ == swaps[at].game@;
        assert(games[i] == swaps[at].game@);
    }
}

impl OperationPlan {
    /// Counts the games, the DLLs, the upgrades and the downgrades of the plan.
    pub fn summary(&self) -> (summary: PlanSummary)
        ensures
            summary.games == touched_games(self.swaps@).len(),
            summary.dlls == self.swaps.len(),
            summary.upgrades == count_outcome(self.swaps@, Comparison::Upgrade),
            summary.downgrades == count_outcome(self.swaps@, Comparison::Downgrade),
    {
        let mut summary = PlanSummary { games: 0, dlls: self.swaps.len(), upgrades: 0, downgrades: 0 };
        let mut at: usize = 0;
        proof {
            assert(touched_games(self.swaps@.take(0)) =~= Set::empty());
        }
        while at < self.swaps.len()
            invariant
                at <= self.swaps.len(),
                summary.dlls == self.swaps.len(),
                summary.games == touched_games(self.swaps@.take(at as int)).len(),
                summary.games <= at,
                summary.upgrades == count_outcome(self.swaps@.take(at as int), Comparison::Upgrade),
                summary.upgrades <= at,
                summary.downgrades == count_outcome(
                    self.swaps@.take(at as int),
                    Comparison::Downgrade,
                ),
                summary.downgrades <= at,
            decreases self.swaps.len() - at,
        {
            let mut seen = false;
            let mut earlier: usize = 0;
            while earlier < at && !seen
                invariant
                    earlier <= at < self.swaps.len(),
                    seen <==> exists|i: int|
                        0 <= i < earlier && (#[trigger] self.swaps@[i]).game@
                            == self.swaps@[at as int].game@,
                decreases at - earlier,
            {
                if self.swaps[earlier].game.same(&self.swaps[at].game) {
                    seen = true;
                }
                earlier += 1;
            }
            proof {
                touched_games_grow(self.swaps@, at as int);
                assert(self.swaps@.take(at + 1).drop_last() =~= self.swaps@.take(at as int));
            }
            if !seen {
                summary.games += 1;
            }
            match self.swaps[at].comparison {
                Comparison::Upgrade => {
                    summary.upgrades += 1;
                },
                Comparison::Downgrade => {
                    summary.downgrades += 1;
                },
                _ => {},
            }
            at += 1;
        }
        proof {
            assert(self.swaps@.take(at as int) =~= self.swaps@);
        }
        summary
    }
}

/// No part of a plan's summary exceeds the number of its DLLs, and upgrades
/// and downgrades are different DLLs.
pub proof fn summary_is_bounded(swaps: Seq<PlannedSwap>)
    ensures
        touched_games(swaps).len() <= swaps.len(),
        count_outcome(swaps, Comparison::Upgrade) + count_outcome(swaps, Comparison::Downgrade)
            <= swaps.len(),
    decreases swaps.len(),
{
    if swaps.len() == 0 {
        assert(touched_games(swaps) =~= Set::empty());
    } else {
        let at = swaps.len() - 1;
        summary_is_bounded(swaps.drop_last());
        touched_games_grow(swaps, at);
        assert(swaps.take(at) =~= swaps.drop_last());
        assert(swaps.take(at + 1) =~= swaps);
    }
}

/// What became of one planned swap.
#[derive(Debug, PartialEq, Eq)]
pub struct SwapResult {
    pub installation: DllInstallationId,
    pub result: Result<DllMetadata, String>,
    pub backup: Option<BackupRecord>,
    /// True when the swap failed solely because access was denied, so that a
    /// retry with more privileges may succeed.
    pub denied: bool,
}

impl Clone for SwapResult {
    fn clone(&self) -> (copy: SwapResult)
        ensures
            copy == *self,
    {
        SwapResult {
            installation: self.installation.clone(),
            result: match &self.result {
                Ok(metadata) => Ok(metadata.clone()),
                Err(message) => Err(message.clone()),
            },
            backup: match &self.backup {
                Some(backup) => Some(backup.clone()),
                None => None,
            },
            denied: self.denied,
        }
    }
}

/// What became of a whole plan, swap by swap.
#[derive(Debug, PartialEq, Eq)]
pub struct BatchResult {
    pub swaps: Vec<SwapResult>,
}

/// A copy of a file as it was before a swap.
#[derive(Debug, PartialEq, Eq)]
pub struct BackupRecord {
    pub sha256: [u8; 32],
    pub content_path: FilePath,
    pub original_path: FilePath,
    pub version: Option<DllVersion>,
    pub created_unix: i64,
}

impl Clone for BackupRecord {
    fn clone(&self) -> (copy: BackupRecord)
        ensures
            copy == *self,
    {
        BackupRecord {
            sha256: self.sha256,
            content_path: self.content_path.clone(),
            original_path: self.original_path.clone(),
            version: self.version,
            created_unix: self.created_unix,
        }
    }
}

/// One line of the activity list.
#[derive(Debug, PartialEq, Eq)]
pub struct ActivityRecord {
    pub timestamp_unix: i64,
    pub kind: String,
    pub detail: String,
}

impl Clone for ActivityRecord {
    fn clone(&self) -> (copy: ActivityRecord)
        ensures
            copy == *self,
    {
        ActivityRecord {
            timestamp_unix: self.timestamp_unix,
            kind: self.kind.clone(),
            detail: self.detail.clone(),
        }
    }
}

/// All backups.
#[derive(Debug, PartialEq, Eq)]
pub struct BackupIndex {
    pub records: Vec<BackupRecord>,
}

/// Swaps in one game folder, to be carried out with more privileges.
#[derive(Debug, PartialEq, Eq)]
pub struct ElevatedFilePlan {
    pub game_id: GameId,
    pub game_root: FilePath,
    pub operation: OperationPlan,
    pub nonce: String,
    pub result_path: FilePath,
}

/// What the helper process is asked to do.
#[derive(Debug, PartialEq, Eq)]
pub enum ElevatedHelperPlan {
    SystemTool(ToolChangePlan),
    FileSwap(ElevatedFilePlan),
}

/// A swap counts exactly where it has the outcome.
pub proof fn every_outcome_counts(
    swaps: Seq<PlannedSwap>,
    wanted: Comparison,
) -> (counted: Seq<int>)
    ensures
        picks(counted, swaps.len() as int, |i: int| swaps[i].comparison == wanted),
        count_outcome(swaps, wanted) == counted.len(),
    decreases swaps.len(),
{
    let here = |i: int| swaps[i].comparison == wanted;
    if swaps.len() == 0 {
        picks_nothing(here);
        Seq::empty()
    } else {
        let shorter = swaps.drop_last();
        let before = every_outcome_counts(shorter, wanted);
        picks_grow(before, shorter.len() as int, |i: int| shorter[i].comparison == wanted, here)
    }
}

/// A plan touches exactly the games that its swaps name.
pub proof fn every_named_game_is_touched(swaps: Seq<PlannedSwap>, game: Seq<char>)
    ensures
        touched_games(swaps).contains(game) <==> exists|i: int|
            0 <= i < swaps.len() && (#[trigger] swaps[i]).game@ == game,
{
    let games = swaps.map_values(|swap: PlannedSwap| swap.game@);
    if touched_games(swaps).contains(game) {
        let i = choose|i: int| 0 <= i < games.len() && games[i] == game;
        assert(swaps[i].game@ == game);
    }
    if exists|i: int| 0 <= i < swaps.len() && (#[trigger] swaps[i]).game@ == game {
        let i = choose|i: int| 0 <= i < swaps.len() && (#[trigger] swaps[i]).game@ == game;
        assert(games[i] == game);
    }
}

/// A target is identical exactly where its content is what is installed. Of
/// other content it is an upgrade where both versions are known and its own is
/// the greater, a downgrade where it is the smaller, another build where they
/// are equal, and unknown where one is not known.
pub proof fn comparisons_go_by_content_then_version(
    installed_version: Option<DllVersion>,
    installed_hash: [u8; 32],
    target_version: Option<DllVersion>,
    target_hash: [u8; 32],
)
    ensures
        ({
            let outcome = comparison(
                installed_version,
                installed_hash,
                target_version,
                target_hash,
            );
            let known = installed_hash != target_hash && installed_version is Some
                && target_version is Some;
            let before = version_number(installed_version->0);
            let after = version_number(target_version->0);
            &&& outcome == Comparison::Identical <==> installed_hash == target_hash
            &&& outcome == Comparison::Upgrade <==> known && before < after
            &&& outcome == Comparison::Downgrade <==> known && before > after
            &&& outcome == Comparison::DifferentBuild <==> known && before == after
            &&& outcome == Comparison::Unknown <==> installed_hash != target_hash && (
            installed_version is None || target_version is None)
            &&& outcome != Comparison::Unavailable
        }),
{
    if let (Some(installed), Some(target)) = (installed_version, target_version) {
        version_numbers_keep_order(installed, target);
        version_numbers_keep_order(target, installed);
    }
}

/// Names match exactly where both are text and differ at most in the case of
/// the letters `A` to `Z`.
pub proof fn names_match_whatever_the_case(left: String, right: String)
    ensures
        names_match(FileName::Unicode(left), FileName::Unicode(right)) <==> left@.len()
            == right@.len() && forall|i: int|
            #![trigger left@[i]]
            #![trigger right@[i]]
            0 <= i < left@.len() ==> left@[i] == right@[i] || ('A' <= left@[i] <= 'Z' && left@[i]
                as int + 32 == right@[i] as int) || ('A' <= right@[i] <= 'Z' && right@[i] as int
                + 32 == left@[i] as int),
        !names_match(FileName::Other(left), FileName::Unicode(right)),
        !names_match(FileName::Unicode(left), FileName::Other(right)),
        !names_match(FileName::Other(left), FileName::Other(right)),
{
    let one = crate::text::ascii_folded(left@);
    let two = crate::text::ascii_folded(right@);
    if one == two {
        assert(one.len() == left@.len() && two.len() == right@.len());
        assert forall|i: int|
            #![trigger left@[i]]
            #![trigger right@[i]]
            0 <= i < left@.len() implies left@[i] == right@[i] || ('A' <= left@[i] <= 'Z' && left@[i]
            as int + 32 == right@[i] as int) || ('A' <= right@[i] <= 'Z' && right@[i] as int + 32
            == left@[i] as int) by {
            assert(one[i] == two[i]);
        }
    }
    if left@.len() == right@.len() && forall|i: int|
        #![trigger left@[i]]
        #![trigger right@[i]]
        0 <= i < left@.len() ==> left@[i] == right@[i] || ('A' <= left@[i] <= 'Z' && left@[i] as int
            + 32 == right@[i] as int) || ('A' <= right@[i] <= 'Z' && right@[i] as int + 32
            == left@[i] as int) {
        assert(one =~= two);
    }
}

/// Of two versions the one is older whose first part that differs is smaller:
/// the major number, then the minor one, the build and the revision.
pub proof fn versions_go_by_their_parts(left: DllVersion, right: DllVersion)
    ensures
        left.major != right.major ==> (version_less(left, right) <==> left.major < right.major),
        left.major == right.major && left.minor != right.minor ==> (version_less(left, right)
            <==> left.minor < right.minor),
        left.major == right.major && left.minor == right.minor && left.build != right.build ==> (
        version_less(left, right) <==> left.build < right.build),
        left.major == right.major && left.minor == right.minor && left.build == right.build ==> (
        version_less(left, right) <==> left.revision < right.revision),
{
}

/// An installed DLL is compared with the one on offer by content and then by
/// version. Without one on offer there is nothing to compare with, and a file
/// that could not be read is unknown.
pub proof fn comparisons_need_both_sides(
    installed: Option<DllMetadata>,
    target: Option<CatalogDll>,
)
    ensures
        dll_comparison(installed, target) == Comparison::Unavailable <==> target is None,
        target is Some && installed is None ==> dll_comparison(installed, target)
            == Comparison::Unknown,
        installed matches Some(dll) ==> target matches Some(offer) ==> dll_comparison(
            installed,
            target,
        ) == comparison(dll.version, dll.sha256, Some(offer.version), offer.sha256),
{
}

} // verus!
