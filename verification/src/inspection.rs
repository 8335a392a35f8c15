//! The DLLs of the games: finding them, inspecting them, and putting the
//! results of a whole scan together.

use crate::discovery::{
    drop_repeats, game_position, game_views, installation_id, is_sorted_by, located_dll,
    lower_names, put_game, sort_games, without_repeats, DiscoveryOutcome, DiscoveryStatus,
    GameModel, StoreDiscoveryReport, StoreScan,
};
use crate::kinds::{is_managed_dll, name_kind};
use crate::lists::{picks, picks_grow, picks_nothing};
use crate::model::{DllInstallation, DllInstallationId, DllMetadata, FileName, GameId, GameInstall};
use crate::paths::FilePath;
use crate::text::{join_three, join_two, text_views};
use crate::traits::{error_text, CoreError, DllInspector};
use vstd::prelude::*;

verus! {

/// What the walk through a game's folder came across.
#[derive(Debug, PartialEq, Eq)]
pub enum WalkEntry {
    /// A file; `key` stands for its path inside the folder.
    File { path: FilePath, name: FileName, key: String },
    /// A directory, a link or something else.
    Other,
    /// Something that could not be read, and why.
    Failed(String),
}

/// A managed DLL that has not been inspected yet.
#[derive(Debug, PartialEq, Eq)]
pub struct FoundDll {
    pub id: DllInstallationId,
    pub path: FilePath,
    pub file_name: FileName,
}

/// Whether an entry counts: a managed DLL, or a failure, which has to be
/// reported so that a partly readable installation shows as such.
pub open spec fn counts(entry: WalkEntry) -> bool {
    match entry {
        WalkEntry::File { path: _, name, key: _ } => name_kind(name) is Some,
        WalkEntry::Other => false,
        WalkEntry::Failed(_) => true,
    }
}

/// The entries that count, in their order.
pub open spec fn counted(entries: Seq<WalkEntry>) -> Seq<WalkEntry>
    decreases entries.len(),
{
    if entries.len() == 0 {
        entries
    } else if counts(entries.last()) {
        counted(entries.drop_last()).push(entries.last())
    } else {
        counted(entries.drop_last())
    }
}

/// Whether `found` is what an entry that counts comes to.
pub open spec fn is_found_in(
    game: Seq<char>,
    entry: WalkEntry,
    found: Result<FoundDll, CoreError>,
) -> bool {
    match entry {
        WalkEntry::File { path, name, key } => found matches Ok(dll) && dll.id@ == game + ":"@ + key@
            && dll.path == path && dll.file_name == name,
        WalkEntry::Other => false,
        WalkEntry::Failed(reason) => found matches Err(CoreError::Validation(message)) && message@
            == "filesystem traversal failed: "@ + reason@,
    }
}

/// The managed DLLs in a game's folder, and what could not be walked through.
pub fn managed_dll_entries(game: &GameId, entries: &Vec<WalkEntry>) -> (found: Vec<
    Result<FoundDll, CoreError>,
>)
    ensures
        found.len() == counted(entries@).len(),
        forall|i: int|
            0 <= i < found.len() ==> is_found_in(game@, counted(entries@)[i], #[trigger] found@[i]),
{
    let mut found: Vec<Result<FoundDll, CoreError>> = Vec::new();
    let mut at: usize = 0;
    while at < entries.len()
        invariant
            at <= entries.len(),
            found.len() == counted(entries@.take(at as int)).len(),
            forall|i: int|
                0 <= i < found.len() ==> is_found_in(
                    game@,
                    counted(entries@.take(at as int))[i],
                    #[trigger] found@[i],
                ),
        decreases entries.len() - at,
    {
        proof {
            assert(entries@.take(at + 1).drop_last() =~= entries@.take(at as int));
        }
        match &entries[at] {
            WalkEntry::File { path, name, key } => {
                if is_managed_dll(name) {
                    let id = installation_id(game, key);
                    found.push(
                        Ok(FoundDll { id, path: path.clone(), file_name: name.clone() }),
                    );
                }
            },
            WalkEntry::Other => {},
            WalkEntry::Failed(reason) => {
                found.push(
                    Err(CoreError::Validation(join_two("filesystem traversal failed: ", reason))),
                );
            },
        }
        at += 1;
    }
    proof {
        assert(entries@.take(at as int) =~= entries@);
    }
    found
}

/// Whether `result` is what the inspection of `found` comes to, where
/// `metadata` is what the inspector said of it.
pub open spec fn is_inspection_of(
    game: GameId,
    found: Result<FoundDll, CoreError>,
    metadata: Result<DllMetadata, CoreError>,
    result: Result<DllInstallation, CoreError>,
) -> bool {
    match found {
        Err(error) => result == Err::<DllInstallation, CoreError>(error),
        Ok(dll) => match metadata {
            Err(error) => result == Err::<DllInstallation, CoreError>(error),
            Ok(metadata) => result == Ok::<DllInstallation, CoreError>(
                DllInstallation {
                    id: dll.id,
                    game_id: game,
                    path: dll.path,
                    file_name: dll.file_name,
                    metadata,
                },
            ),
        },
    }
}

/// The installation of a DLL that was found and inspected.
pub fn inspected_entry(
    game: &GameId,
    found: FoundDll,
    metadata: Result<DllMetadata, CoreError>,
) -> (result: Result<DllInstallation, CoreError>)
    ensures
        is_inspection_of(*game, Ok(found), metadata, result),
{
    match metadata {
        Ok(metadata) => Ok(located_dll(found.id, game, found.path, found.file_name, metadata)),
        Err(error) => Err(error),
    }
}

/// Whether `result` is what the inspection of `found` by `inspector` can come
/// to.
pub open spec fn is_scanned<I: DllInspector>(
    inspector: &I,
    game: GameId,
    found: Result<FoundDll, CoreError>,
    result: Result<DllInstallation, CoreError>,
) -> bool {
    match found {
        Err(error) => result == Err::<DllInstallation, CoreError>(error),
        Ok(dll) => exists|metadata: Result<DllMetadata, CoreError>|
            #[trigger] is_inspection_of(game, found, metadata, result) && call_ensures(
                I::inspect,
                (inspector, &dll.path),
                metadata,
            ),
    }
}

/// Inspects what was found, one after the other.
pub fn inspect_entries<I: DllInspector>(
    game: &GameId,
    found: Vec<Result<FoundDll, CoreError>>,
    inspector: &I,
) -> (results: Vec<Result<DllInstallation, CoreError>>)
    ensures
        results.len() == found.len(),
        forall|i: int|
            0 <= i < results.len() ==> is_scanned(inspector, *game, found@[i], #[trigger] results@[i]),
{
    let ghost given = found@;
    let mut rest = found;
    let mut results: Vec<Result<DllInstallation, CoreError>> = Vec::new();
    while rest.len() > 0
        invariant
            rest.len() <= given.len(),
            rest@ == given.skip(given.len() - rest.len()),
            results.len() == given.len() - rest.len(),
            forall|i: int|
                0 <= i < results.len() ==> is_scanned(
                    inspector,
                    *game,
                    given[i],
                    #[trigger] results@[i],
                ),
        decreases rest.len(),
    {
        let ghost done = given.len() - rest.len();
        proof {
            assert(rest@[0] == given[done]);
        }
        let next = rest.remove(0);
        proof {
            assert(given.skip(done).remove(0) =~= given.skip(done + 1));
        }
        let result = match next {
            Ok(dll) => {
                let ghost seen = dll;
                let metadata = inspector.inspect(&dll.path);
                let ghost said = metadata;
                let result = inspected_entry(game, dll, metadata);
                proof {
                    assert(is_inspection_of(*game, Ok(seen), said, result));
                }
                result
            },
            Err(error) => Err(error),
        };
        results.push(result);
    }
    results
}

/// Inspects the managed DLLs that a walk through a game's folder came across.
/// One that cannot be inspected does not hide the others.
pub fn scan_game<I: DllInspector>(game: &GameId, entries: &Vec<WalkEntry>, inspector: &I) -> (results:
    Vec<Result<DllInstallation, CoreError>>)
    ensures
        exists|found: Seq<Result<FoundDll, CoreError>>|
            #![trigger is_scan_of(inspector, *game, entries@, found, results@)]
            is_scan_of(inspector, *game, entries@, found, results@),
{
    let found = managed_dll_entries(game, entries);
    let ghost given = found@;
    let results = inspect_entries(game, found, inspector);
    proof {
        assert(is_scan_of(inspector, *game, entries@, given, results@));
    }
    results
}

/// Whether `found` are the managed DLLs of a walk, and `results` what their
/// inspection came to.
pub open spec fn is_scan_of<I: DllInspector>(
    inspector: &I,
    game: GameId,
    entries: Seq<WalkEntry>,
    found: Seq<Result<FoundDll, CoreError>>,
    results: Seq<Result<DllInstallation, CoreError>>,
) -> bool {
    &&& found.len() == counted(entries).len()
    &&& results.len() == found.len()
    &&& forall|i: int|
        0 <= i < found.len() ==> is_found_in(game@, counted(entries)[i], #[trigger] found[i])
    &&& forall|i: int|
        0 <= i < results.len() ==> is_scanned(inspector, game, found[i], #[trigger] results[i])
}

/// The most threads that a scan is spread across. Beyond a handful the disk
/// sets the pace.
pub const MAX_WORKERS: usize = 8;

/// How many threads a scan is spread across, where `cores` is how many run at
/// the same time, if that is known.
pub fn worker_count(cores: Option<usize>, games: usize) -> (workers: usize)
    ensures
        1 <= workers <= MAX_WORKERS,
        workers <= games || workers == 1,
        workers == {
            let cores = match cores {
                Some(cores) => cores,
                None => 4,
            };
            let capped = if cores < MAX_WORKERS { cores } else { MAX_WORKERS };
            let useful = if capped < games { capped } else { games };
            if useful < 1 { 1 } else { useful }
        },
{
    let cores: usize = match cores {
        Some(cores) => cores,
        None => 4,
    };
    let capped: usize = if cores < MAX_WORKERS { cores } else { MAX_WORKERS };
    let useful: usize = if capped < games { capped } else { games };
    if useful < 1 { 1 } else { useful }
}

/// The DLLs that could be inspected, in their order.
pub open spec fn inspected_of(results: Seq<Result<DllInstallation, CoreError>>) -> Seq<
    DllInstallation,
>
    decreases results.len(),
{
    if results.len() == 0 {
        Seq::empty()
    } else {
        match results.last() {
            Ok(dll) => inspected_of(results.drop_last()).push(dll),
            Err(_) => inspected_of(results.drop_last()),
        }
    }
}

/// The game with the results of a fresh inspection. A DLL that could not be
/// inspected is counted and does not hide the others.
pub fn with_inspection(game: GameInstall, results: Vec<Result<DllInstallation, CoreError>>) -> (
    fresh: GameInstall)
    ensures
        fresh.id == game.id,
        fresh.name == game.name,
        fresh.store == game.store,
        fresh.root == game.root,
        fresh.dlls@ == inspected_of(results@),
        fresh.inspection_errors == results.len() - inspected_of(results@).len(),
        forall|i: int|
            0 <= i < results.len() && (#[trigger] results@[i]) is Ok ==> fresh.dlls@.contains(
                results@[i]->Ok_0,
            ),
        exists|failed: Seq<int>|
            #![trigger failed.len()]
            picks(failed, results.len() as int, |i: int| results@[i] is Err)
                && fresh.inspection_errors == failed.len(),
{
    let total: usize = results.len();
    let ghost given = results@;
    let mut rest = results;
    let mut dlls: Vec<DllInstallation> = Vec::new();
    while rest.len() > 0
        invariant
            rest.len() <= given.len(),
            given.len() == total,
            rest@ == given.skip(given.len() - rest.len()),
            dlls@ == inspected_of(given.take(given.len() - rest.len())),
            dlls.len() <= given.len() - rest.len(),
        decreases rest.len(),
    {
        let ghost done = given.len() - rest.len();
        proof {
            assert(rest@[0] == given[done]);
            assert(given.take(done + 1).drop_last() =~= given.take(done));
        }
        let result = rest.remove(0);
        proof {
            assert(given.skip(done).remove(0) =~= given.skip(done + 1));
        }
        if let Ok(dll) = result {
            dlls.push(dll);
        }
    }
    proof {
        assert(given.take(given.len() as int) =~= given);
    }
    let inspection_errors: usize = total - dlls.len();
    proof {
        let sorted = every_inspected_dll_is_listed(given);
        assert(sorted.1.len() == inspection_errors);
    }
    GameInstall {
        id: game.id,
        name: game.name,
        store: game.store,
        root: game.root,
        dlls,
        inspection_errors,
    }
}

/// A game as it is after an inspection with these results.
pub open spec fn inspected_model(
    game: GameModel,
    results: Seq<Result<DllInstallation, CoreError>>,
) -> GameModel {
    GameModel {
        dlls: inspected_of(results),
        inspection_errors: (results.len() - inspected_of(results).len()) as usize,
        ..game
    }
}

/// The games after inspections, each of which names its game by position.
pub open spec fn inspected_games(
    games: Seq<GameModel>,
    outcomes: Seq<(usize, Vec<Result<DllInstallation, CoreError>>)>,
) -> Seq<GameModel>
    decreases outcomes.len(),
{
    if outcomes.len() == 0 {
        games
    } else {
        let before = inspected_games(games, outcomes.drop_last());
        let at = outcomes.last().0 as int;
        before.update(at, inspected_model(before[at], outcomes.last().1@))
    }
}

/// Gives each game the results of its inspection, in whatever order the
/// threads delivered them.
pub fn inspect_games(
    games: Vec<GameInstall>,
    outcomes: Vec<(usize, Vec<Result<DllInstallation, CoreError>>)>,
) -> (inspected: Vec<GameInstall>)
    requires
        forall|i: int| 0 <= i < outcomes.len() ==> (#[trigger] outcomes@[i]).0 < games.len(),
    ensures
        game_views(inspected@) == inspected_games(game_views(games@), outcomes@),
        inspected.len() == games.len(),
{
    let ghost given = outcomes@;
    let ghost before = game_views(games@);
    let mut games = games;
    let mut rest = outcomes;
    proof {
        assert(given.take(0) =~= Seq::empty());
    }
    while rest.len() > 0
        invariant
            rest.len() <= given.len(),
            rest@ == given.skip(given.len() - rest.len()),
            games.len() == before.len(),
            game_views(games@) == inspected_games(before, given.take(given.len() - rest.len())),
            forall|i: int| 0 <= i < given.len() ==> (#[trigger] given[i]).0 < before.len(),
        decreases rest.len(),
    {
        let ghost done = given.len() - rest.len();
        proof {
            assert(rest@[0] == given[done]);
            assert(given.take(done + 1).drop_last() =~= given.take(done));
        }
        let (at, results) = rest.remove(0);
        proof {
            assert(given.skip(done).remove(0) =~= given.skip(done + 1));
        }
        let ghost earlier = games@;
        let fresh = with_inspection(games[at].clone(), results);
        proof {
            assert(game_views(earlier)[at as int] == earlier[at as int]@);
            assert(fresh@ =~= inspected_model(earlier[at as int]@, results@));
        }
        games.set(at, fresh);
        proof {
            assert(game_views(games@) =~= game_views(earlier).update(at as int, fresh@));
        }
    }
    proof {
        assert(given.take(given.len() as int) =~= given);
    }
    games
}

/// Whether `report` is what the user is told of the search of `store`.
pub open spec fn is_report_of(scan: StoreScan, store: Seq<char>, report: StoreDiscoveryReport) -> bool {
    &&& report.store@ == store
    &&& report.status == if scan.games.len() == 0 {
        scan.empty_status
    } else {
        DiscoveryStatus::Found
    }
    &&& report.games_found == scan.games.len()
    &&& report.detail == scan.detail
}

/// The games of the three stores, in this order, and one report for each.
pub fn gather_stores(steam: StoreScan, epic: StoreScan, gog: StoreScan) -> (gathered: (
    Vec<GameInstall>,
    Vec<StoreDiscoveryReport>,
))
    ensures
        gathered.0@ == steam.games@ + epic.games@ + gog.games@,
        gathered.1.len() == 3,
        is_report_of(steam, "Steam"@, gathered.1@[0]),
        is_report_of(epic, "Epic"@, gathered.1@[1]),
        is_report_of(gog, "GOG"@, gathered.1@[2]),
{
    let mut reports: Vec<StoreDiscoveryReport> = Vec::new();
    reports.push(steam.report("Steam"));
    reports.push(epic.report("Epic"));
    reports.push(gog.report("GOG"));
    let mut games = steam.games;
    let mut epic = epic.games;
    let mut gog = gog.games;
    games.append(&mut epic);
    games.append(&mut gog);
    (games, reports)
}

/// Whether `kept` are `games` in the order of their names, without those that
/// follow one with the same identifier.
pub open spec fn is_concluded(
    games: Seq<GameInstall>,
    sorted: Seq<GameInstall>,
    kept: Seq<GameInstall>,
) -> bool {
    is_sorted_by(games, lower_names(games), sorted) && kept == without_repeats(sorted)
}

/// What the search of all stores comes to, once the games were inspected.
pub fn conclude_discovery(games: Vec<GameInstall>, reports: Vec<StoreDiscoveryReport>) -> (outcome:
    DiscoveryOutcome)
    ensures
        outcome.reports == reports,
        exists|sorted: Seq<GameInstall>| #[trigger]
            is_concluded(games@, sorted, outcome.games@),
{
    let sorted = sort_games(&games);
    let ghost in_order = sorted@;
    let kept = drop_repeats(sorted);
    let outcome = DiscoveryOutcome { games: kept, reports };
    proof {
        assert(is_concluded(games@, in_order, outcome.games@));
    }
    outcome
}

/// A folder that the user added: how its path is shown, and the game in it with
/// the results of its inspection.
pub struct RootScan {
    pub root: String,
    pub found: Result<(GameInstall, Vec<Result<DllInstallation, CoreError>>), CoreError>,
}

/// The position of the first game with the identifier `id`, or the number of
/// games if there is none.
pub open spec fn model_position(games: Seq<GameModel>, id: Seq<char>) -> int
    decreases games.len(),
{
    if games.len() == 0 {
        0
    } else {
        let before = model_position(games.drop_last(), id);
        if before < games.len() - 1 {
            before
        } else if games.last().id == id {
            games.len() - 1
        } else {
            games.len() as int
        }
    }
}

/// The games with `game` in place of the one with the same identifier, or at
/// the end.
pub open spec fn with_model(games: Seq<GameModel>, game: GameModel) -> Seq<GameModel> {
    let at = model_position(games, game.id);
    if at < games.len() {
        games.update(at, game)
    } else {
        games.push(game)
    }
}

/// The games once those in the folders of `roots` are among them.
pub open spec fn games_with(games: Seq<GameModel>, roots: Seq<RootScan>) -> Seq<GameModel>
    decreases roots.len(),
{
    if roots.len() == 0 {
        games
    } else {
        let before = games_with(games, roots.drop_last());
        match roots.last().found {
            Ok((game, results)) => with_model(before, inspected_model(game@, results@)),
            Err(_) => before,
        }
    }
}

/// The errors among the results of an inspection, each with the game's name.
pub open spec fn inspection_warnings(
    name: Seq<char>,
    results: Seq<Result<DllInstallation, CoreError>>,
) -> Seq<Seq<char>>
    decreases results.len(),
{
    if results.len() == 0 {
        Seq::empty()
    } else {
        let before = inspection_warnings(name, results.drop_last());
        match results.last() {
            Ok(_) => before,
            Err(error) => before.push(name + ": "@ + error_text(error)),
        }
    }
}

/// What the user has to be told of the folders of `roots`.
pub open spec fn root_warnings(roots: Seq<RootScan>) -> Seq<Seq<char>>
    decreases roots.len(),
{
    if roots.len() == 0 {
        Seq::empty()
    } else {
        let before = root_warnings(roots.drop_last());
        match roots.last().found {
            Ok((game, results)) => before + inspection_warnings(game.name@, results@),
            Err(error) => before.push(
                "Could not scan "@ + roots.last().root@ + ": "@ + error_text(error),
            ),
        }
    }
}

/// The games that a scan starts from.
pub open spec fn games_found(discovered: Result<Vec<GameInstall>, CoreError>) -> Seq<GameModel> {
    match discovered {
        Ok(games) => game_views(games@),
        Err(_) => Seq::empty(),
    }
}

/// What the user has to be told of the search of the stores.
pub open spec fn discovery_warnings(discovered: Result<Vec<GameInstall>, CoreError>) -> Seq<
    Seq<char>,
> {
    match discovered {
        Ok(_) => Seq::empty(),
        Err(error) => seq!["Automatic game discovery failed: "@ + error_text(error)],
    }
}

/// Whether `games` are `listed`, which are given by their contents, in the
/// order of their names.
pub open spec fn is_scan_result(
    models: Seq<GameModel>,
    listed: Seq<GameInstall>,
    games: Seq<GameInstall>,
) -> bool {
    game_views(listed) == models && is_sorted_by(listed, lower_names(listed), games)
}

proof fn positions_agree(games: Seq<GameInstall>, id: Seq<char>)
    ensures
        model_position(game_views(games), id) == game_position(games, id),
        0 <= game_position(games, id) <= games.len(),
    decreases games.len(),
{
    if games.len() > 0 {
        positions_agree(games.drop_last(), id);
        assert(game_views(games).drop_last() =~= game_views(games.drop_last()));
    }
}

fn push_warnings(
    warnings: &mut Vec<String>,
    name: &str,
    results: &Vec<Result<DllInstallation, CoreError>>,
)
    ensures
        text_views(final(warnings)@) == text_views(old(warnings)@) + inspection_warnings(
            name@,
            results@,
        ),
{
    let ghost before = text_views(warnings@);
    let mut at: usize = 0;
    proof {
        assert(before =~= before + inspection_warnings(name@, results@.take(0)));
    }
    while at < results.len()
        invariant
            at <= results.len(),
            text_views(warnings@) == before + inspection_warnings(name@, results@.take(at as int)),
        decreases results.len() - at,
    {
        proof {
            assert(results@.take(at + 1).drop_last() =~= results@.take(at as int));
        }
        if let Err(error) = &results[at] {
            let reason = error.to_text();
            let ghost so_far = text_views(warnings@);
            let warning = join_three(name, ": ", &reason);
            warnings.push(warning);
            proof {
                assert(text_views(warnings@) =~= so_far.push(warning@));
                assert(text_views(warnings@) =~= before + inspection_warnings(
                    name@,
                    results@.take(at + 1),
                ));
            }
        }
        at += 1;
    }
    proof {
        assert(results@.take(at as int) =~= results@);
    }
}

/// All games by name, and what the user has to be told of the scan. A game in
/// a folder that the user added takes the place of the one that was found
/// there.
pub fn scan_roots(discovered: Result<Vec<GameInstall>, CoreError>, roots: Vec<RootScan>) -> (scan: (
    Vec<GameInstall>,
    Vec<String>,
))
    ensures
        exists|listed: Seq<GameInstall>| #[trigger]
            is_scan_result(games_with(games_found(discovered), roots@), listed, scan.0@),
        text_views(scan.1@) == discovery_warnings(discovered) + root_warnings(roots@),
{
    let ghost first = games_found(discovered);
    let ghost told = discovery_warnings(discovered);
    let mut games: Vec<GameInstall> = Vec::new();
    let mut warnings: Vec<String> = Vec::new();
    match discovered {
        Ok(found) => {
            games = found;
        },
        Err(error) => {
            let reason = error.to_text();
            warnings.push(join_two("Automatic game discovery failed: ", &reason));
        },
    }
    let ghost given = roots@;
    let mut rest = roots;
    proof {
        assert(game_views(games@) =~= first);
        assert(text_views(warnings@) =~= told + root_warnings(given.take(0)));
    }
    while rest.len() > 0
        invariant
            rest.len() <= given.len(),
            rest@ == given.skip(given.len() - rest.len()),
            game_views(games@) == games_with(first, given.take(given.len() - rest.len())),
            text_views(warnings@) == told + root_warnings(given.take(given.len() - rest.len())),
        decreases rest.len(),
    {
        let ghost done = given.len() - rest.len();
        proof {
            assert(rest@[0] == given[done]);
            assert(given.take(done + 1).drop_last() =~= given.take(done));
        }
        let scanned = rest.remove(0);
        proof {
            assert(given.skip(done).remove(0) =~= given.skip(done + 1));
        }
        let ghost so_far = text_views(warnings@);
        match scanned.found {
            Ok((game, results)) => {
                push_warnings(&mut warnings, &game.name, &results);
                let ghost found = game@;
                let ghost earlier = games@;
                let fresh = with_inspection(game, results);
                proof {
                    assert(fresh@ =~= inspected_model(found, results@));
                    positions_agree(earlier, fresh.id@);
                }
                put_game(&mut games, fresh);
                proof {
                    assert(game_views(games@) =~= with_model(game_views(earlier), fresh@));
                    assert(text_views(warnings@) =~= told + root_warnings(given.take(done + 1)));
                }
            },
            Err(error) => {
                let reason = error.to_text();
                let mut warning = join_three("Could not scan ", &scanned.root, ": ");
                warning.append(&reason);
                warnings.push(warning);
                proof {
                    assert(text_views(warnings@) =~= so_far.push(warning@));
                    assert(text_views(warnings@) =~= told + root_warnings(given.take(done + 1)));
                }
            },
        }
    }
    proof {
        assert(given.take(given.len() as int) =~= given);
    }
    let sorted = sort_games(&games);
    let scan = (sorted, warnings);
    proof {
        assert(is_scan_result(games_with(first, given), games@, scan.0@));
    }
    scan
}

/// Each DLL that could be inspected is listed, in the order of the results, and
/// none else; each of the other results is an error.
pub proof fn every_inspected_dll_is_listed(
    results: Seq<Result<DllInstallation, CoreError>>,
) -> (sorted: (Seq<int>, Seq<int>))
    ensures
        picks(sorted.0, results.len() as int, |i: int| results[i] is Ok),
        picks(sorted.1, results.len() as int, |i: int| results[i] is Err),
        inspected_of(results).len() == sorted.0.len(),
        results.len() - inspected_of(results).len() == sorted.1.len(),
        forall|k: int|
            0 <= k < sorted.0.len() ==> results[sorted.0[k]] == Ok::<DllInstallation, CoreError>(
                #[trigger] inspected_of(results)[k],
            ),
        forall|i: int|
            0 <= i < results.len() && (#[trigger] results[i]) is Ok ==> inspected_of(
                results,
            ).contains(results[i]->Ok_0),
    decreases results.len(),
{
    let good = |i: int| results[i] is Ok;
    let bad = |i: int| results[i] is Err;
    if results.len() == 0 {
        picks_nothing(good);
        picks_nothing(bad);
        (Seq::empty(), Seq::empty())
    } else {
        let shorter = results.drop_last();
        let before = every_inspected_dll_is_listed(shorter);
        let read = picks_grow(
            before.0,
            shorter.len() as int,
            |i: int| shorter[i] is Ok,
            good,
        );
        let failed = picks_grow(
            before.1,
            shorter.len() as int,
            |i: int| shorter[i] is Err,
            bad,
        );
        assert forall|i: int| 0 <= i < results.len() && (#[trigger] results[i])
            is Ok implies inspected_of(results).contains(results[i]->Ok_0) by {
            if i < shorter.len() {
                assert(shorter[i] == results[i]);
                let k = choose|k: int|
                    0 <= k < inspected_of(shorter).len() && inspected_of(shorter)[k]
                        == shorter[i]->Ok_0;
                assert(inspected_of(results)[k] == results[i]->Ok_0);
            } else {
                assert(inspected_of(results).last() == results[i]->Ok_0);
            }
        }
        (read, failed)
    }
}

/// Of what a walk through a game's folder came across, each managed DLL and
/// each failure counts, in the order of the walk, and nothing else does.
pub proof fn every_managed_file_counts(entries: Seq<WalkEntry>) -> (picked: Seq<int>)
    ensures
        picks(
            picked,
            entries.len() as int,
            |i: int|
                (entries[i] matches WalkEntry::File { name, .. } && name_kind(name) is Some)
                    || entries[i] is Failed,
        ),
        counted(entries).len() == picked.len(),
        forall|k: int|
            0 <= k < picked.len() ==> #[trigger] counted(entries)[k] == entries[picked[k]],
    decreases entries.len(),
{
    let here = |i: int|
        (entries[i] matches WalkEntry::File { name, .. } && name_kind(name) is Some)
            || entries[i] is Failed;
    if entries.len() == 0 {
        picks_nothing(here);
        Seq::empty()
    } else {
        let shorter = entries.drop_last();
        let before = every_managed_file_counts(shorter);
        picks_grow(
            before,
            shorter.len() as int,
            |i: int|
                (shorter[i] matches WalkEntry::File { name, .. } && name_kind(name) is Some)
                    || shorter[i] is Failed,
            here,
        )
    }
}

/// A game keeps what it is, whatever was inspected. Its DLLs are those of the
/// last inspection that named it; a game that none named is as it was.
pub proof fn each_game_gets_its_results(
    games: Seq<GameModel>,
    outcomes: Seq<(usize, Vec<Result<DllInstallation, CoreError>>)>,
    game: int,
)
    requires
        0 <= game < games.len(),
        forall|i: int| 0 <= i < outcomes.len() ==> (#[trigger] outcomes[i]).0 < games.len(),
    ensures
        inspected_games(games, outcomes).len() == games.len(),
        inspected_games(games, outcomes)[game].id == games[game].id,
        inspected_games(games, outcomes)[game].name == games[game].name,
        inspected_games(games, outcomes)[game].store == games[game].store,
        inspected_games(games, outcomes)[game].root == games[game].root,
        (forall|i: int| 0 <= i < outcomes.len() ==> (#[trigger] outcomes[i]).0 != game)
            ==> inspected_games(games, outcomes)[game] == games[game],
        forall|last: int|
            0 <= last < outcomes.len() && (#[trigger] outcomes[last]).0 == game && (forall|i: int|
                last < i < outcomes.len() ==> (#[trigger] outcomes[i]).0 != game) ==> {
                &&& inspected_games(games, outcomes)[game].dlls == inspected_of(outcomes[last].1@)
                &&& inspected_games(games, outcomes)[game].inspection_errors == outcomes[last].1@.len()
                    - inspected_of(outcomes[last].1@).len()
            },
    decreases outcomes.len(),
{
    if outcomes.len() > 0 {
        let shorter = outcomes.drop_last();
        let after = inspected_games(games, outcomes);
        let before = inspected_games(games, shorter);
        assert forall|i: int| 0 <= i < shorter.len() implies (#[trigger] shorter[i]).0
            < games.len() by {
            assert(shorter[i] == outcomes[i]);
        }
        each_game_gets_its_results(games, shorter, game);
        let at = outcomes.last().0 as int;
        assert(outcomes[outcomes.len() - 1] == outcomes.last());
        every_inspected_dll_is_listed(outcomes.last().1@);
        if forall|i: int| 0 <= i < outcomes.len() ==> (#[trigger] outcomes[i]).0 != game {
            assert forall|i: int| 0 <= i < shorter.len() implies (#[trigger] shorter[i]).0
                != game by {
                assert(shorter[i] == outcomes[i]);
            }
        }
        assert forall|last: int|
            0 <= last < outcomes.len() && (#[trigger] outcomes[last]).0 == game && (forall|i: int|
                last < i < outcomes.len() ==> (#[trigger] outcomes[i]).0 != game) implies {
            &&& after[game].dlls == inspected_of(outcomes[last].1@)
            &&& after[game].inspection_errors == outcomes[last].1@.len() - inspected_of(
                outcomes[last].1@,
            ).len()
        } by {
            assert(outcomes[last].1@.len() == outcomes[last].1.len());
            if last < shorter.len() {
                assert(shorter[last] == outcomes[last]);
                assert forall|i: int| last < i < shorter.len() implies (#[trigger] shorter[i]).0
                    != game by {
                    assert(shorter[i] == outcomes[i]);
                }
            }
        }
    }
}

/// The first game with an identifier is where it is looked for.
proof fn models_are_found(games: Seq<GameModel>, id: Seq<char>)
    ensures
        0 <= model_position(games, id) <= games.len(),
        model_position(games, id) < games.len() ==> games[model_position(games, id)].id == id,
        forall|i: int| 0 <= i < model_position(games, id) ==> (#[trigger] games[i]).id != id,
    decreases games.len(),
{
    if games.len() > 0 {
        let shorter = games.drop_last();
        models_are_found(shorter, id);
        assert forall|i: int| 0 <= i < model_position(games, id) implies (#[trigger] games[i]).id
            != id by {
            if i < shorter.len() {
                assert(shorter[i] == games[i]);
            }
        }
    }
}

/// Folders that the user added list no game twice, and leave the games that
/// were found in their places.
pub proof fn added_folders_repeat_nothing(games: Seq<GameModel>, roots: Seq<RootScan>)
    requires
        forall|i: int, j: int| 0 <= i < j < games.len() ==> games[i].id != games[j].id,
    ensures
        games_with(games, roots).len() >= games.len(),
        forall|i: int, j: int|
            0 <= i < j < games_with(games, roots).len() ==> games_with(games, roots)[i].id
                != games_with(games, roots)[j].id,
        forall|i: int|
            0 <= i < games.len() ==> (#[trigger] games_with(games, roots)[i]).id == games[i].id,
    decreases roots.len(),
{
    if roots.len() > 0 {
        let shorter = roots.drop_last();
        added_folders_repeat_nothing(games, shorter);
        if roots.last().found is Ok {
            models_are_found(games_with(games, shorter), roots.last().found->Ok_0.0.id@);
        }
    }
}

/// A game that was found and that no added folder holds stays as it was found.
pub proof fn other_games_stay(games: Seq<GameModel>, roots: Seq<RootScan>, at: int)
    requires
        0 <= at < games.len(),
        forall|r: int|
            0 <= r < roots.len() ==> ((#[trigger] roots[r]).found matches Ok((game, _))
                ==> game.id@ != games[at].id),
    ensures
        games_with(games, roots).len() >= games.len(),
        games_with(games, roots)[at] == games[at],
    decreases roots.len(),
{
    if roots.len() > 0 {
        let shorter = roots.drop_last();
        assert forall|r: int| 0 <= r < shorter.len() implies ((#[trigger] shorter[r]).found matches Ok(
            (game, _),
        ) ==> game.id@ != games[at].id) by {
            assert(shorter[r] == roots[r]);
        }
        other_games_stay(games, shorter, at);
        assert(roots[roots.len() - 1] == roots.last());
        if roots.last().found is Ok {
            models_are_found(games_with(games, shorter), roots.last().found->Ok_0.0.id@);
        }
    }
}

/// The game in a folder that the user added is listed with the results of its
/// inspection, in place of one with the same identifier, unless a later folder
/// holds the same game.
pub proof fn added_folders_are_listed(games: Seq<GameModel>, roots: Seq<RootScan>, root: int) -> (at:
    int)
    requires
        0 <= root < roots.len(),
        roots[root].found is Ok,
        forall|later: int|
            root < later < roots.len() ==> ((#[trigger] roots[later]).found matches Ok((game, _))
                ==> game.id@ != roots[root].found->Ok_0.0.id@),
    ensures
        0 <= at < games_with(games, roots).len(),
        ({
            let listed = games_with(games, roots)[at];
            let (game, results) = roots[root].found->Ok_0;
            &&& listed.id == game.id@
            &&& listed.name == game.name@
            &&& listed.store == game.store
            &&& listed.root == game.root@
            &&& listed.dlls == inspected_of(results@)
            &&& listed.inspection_errors == results@.len() - inspected_of(results@).len()
        }),
    decreases roots.len(),
{
    let shorter = roots.drop_last();
    let before = games_with(games, shorter);
    let (game, results) = roots[root].found->Ok_0;
    if root < shorter.len() {
        assert(shorter[root] == roots[root]);
        assert forall|later: int| root < later < shorter.len() implies ((#[trigger] shorter[later]).found matches Ok(
            (game, _),
        ) ==> game.id@ != shorter[root].found->Ok_0.0.id@) by {
            assert(shorter[later] == roots[later]);
        }
        let at = added_folders_are_listed(games, shorter, root);
        assert(roots[roots.len() - 1] == roots.last());
        if roots.last().found is Ok {
            models_are_found(before, roots.last().found->Ok_0.0.id@);
        }
        assert(games_with(games, roots)[at] == before[at]);
        at
    } else {
        assert(roots[root] == roots.last());
        models_are_found(before, game.id@);
        every_inspected_dll_is_listed(results@);
        assert(results@.len() == results.len());
        let at = model_position(before, game.id@);
        assert(games_with(games, roots)[at] == inspected_model(game@, results@));
        at
    }
}

/// The user is told of each error of an inspection, under the name of the game,
/// in order, and of nothing else.
pub proof fn every_inspection_error_is_told(
    name: Seq<char>,
    results: Seq<Result<DllInstallation, CoreError>>,
) -> (failed: Seq<int>)
    ensures
        picks(failed, results.len() as int, |i: int| results[i] is Err),
        inspection_warnings(name, results).len() == failed.len(),
        forall|k: int|
            0 <= k < failed.len() ==> #[trigger] inspection_warnings(name, results)[k] == name
                + ": "@ + error_text(results[failed[k]]->Err_0),
    decreases results.len(),
{
    let bad = |i: int| results[i] is Err;
    if results.len() == 0 {
        picks_nothing(bad);
        Seq::empty()
    } else {
        let shorter = results.drop_last();
        let before = every_inspection_error_is_told(name, shorter);
        picks_grow(before, shorter.len() as int, |i: int| shorter[i] is Err, bad)
    }
}

/// The user is told of each folder that could not be scanned, and of each error
/// of the inspection of one that could.
pub proof fn every_folder_error_is_told(roots: Seq<RootScan>, root: int)
    requires
        0 <= root < roots.len(),
    ensures
        roots[root].found matches Err(error) ==> root_warnings(roots).contains(
            "Could not scan "@ + roots[root].root@ + ": "@ + error_text(error),
        ),
        roots[root].found matches Ok((game, results)) ==> forall|i: int|
            0 <= i < results@.len() && (#[trigger] results@[i]) is Err ==> root_warnings(
                roots,
            ).contains(game.name@ + ": "@ + error_text(results@[i]->Err_0)),
    decreases roots.len(),
{
    let shorter = roots.drop_last();
    let told = root_warnings(roots);
    let before = root_warnings(shorter);
    assert(told.len() >= before.len());
    assert(told.take(before.len() as int) =~= before);
    if root < shorter.len() {
        every_folder_error_is_told(shorter, root);
        assert(shorter[root] == roots[root]);
        assert forall|text: Seq<char>| before.contains(text) implies #[trigger] told.contains(
            text,
        ) by {
            let k = choose|k: int| 0 <= k < before.len() && before[k] == text;
            assert(told[k] == text);
        }
    } else {
        match roots[root].found {
            Err(error) => {
                assert(told.last() == "Could not scan "@ + roots[root].root@ + ": "@ + error_text(
                    error,
                ));
            },
            Ok((game, results)) => {
                let failed = every_inspection_error_is_told(game.name@, results@);
                let own = inspection_warnings(game.name@, results@);
                let bad = |i: int| results@[i] is Err;
                assert forall|i: int|
                    0 <= i < results@.len() && (#[trigger] results@[i]) is Err implies told.contains(
                    game.name@ + ": "@ + error_text(results@[i]->Err_0),
                ) by {
                    assert(bad(i));
                    let k = choose|k: int| 0 <= k < failed.len() && failed[k] == i;
                    assert(told[before.len() + k] == own[k]);
                }
            },
        }
    }
}

/// A scan tells of each managed DLL and of each failure of the walk, in the
/// order of the walk. What it tells of a DLL is where it is, what it is called,
/// which game it belongs to and what the inspector read; the identifier is that
/// of the game and the place of the DLL within it.
pub proof fn scans_tell_of_every_managed_file<I: DllInspector>(
    inspector: &I,
    game: GameId,
    entries: Seq<WalkEntry>,
    found: Seq<Result<FoundDll, CoreError>>,
    results: Seq<Result<DllInstallation, CoreError>>,
) -> (picked: Seq<int>)
    requires
        is_scan_of(inspector, game, entries, found, results),
    ensures
        picks(
            picked,
            entries.len() as int,
            |i: int|
                (entries[i] matches WalkEntry::File { name, .. } && name_kind(name) is Some)
                    || entries[i] is Failed,
        ),
        results.len() == picked.len(),
        forall|k: int|
            #![trigger results[k]]
            0 <= k < picked.len() ==> match entries[picked[k]] {
                WalkEntry::File { path, name, key } => results[k] matches Ok(dll) ==> dll.id@
                    == game@ + ":"@ + key@ && dll.game_id == game && dll.path == path
                    && dll.file_name == name && call_ensures(
                    I::inspect,
                    (inspector, &path),
                    Ok(dll.metadata),
                ),
                WalkEntry::Failed(reason) => results[k] matches Err(
                    CoreError::Validation(message),
                ) && message@ == "filesystem traversal failed: "@ + reason@,
                WalkEntry::Other => false,
            },
{
    let picked = every_managed_file_counts(entries);
    assert forall|k: int| #![trigger results[k]] 0 <= k < picked.len() implies match entries[picked[k]] {
        WalkEntry::File { path, name, key } => results[k] matches Ok(dll) ==> dll.id@ == game@
            + ":"@ + key@ && dll.game_id == game && dll.path == path && dll.file_name == name
            && call_ensures(I::inspect, (inspector, &path), Ok(dll.metadata)),
        WalkEntry::Failed(reason) => results[k] matches Err(CoreError::Validation(message))
            && message@ == "filesystem traversal failed: "@ + reason@,
        WalkEntry::Other => false,
    } by {
        assert(counted(entries)[k] == entries[picked[k]]);
        assert(is_found_in(game@, counted(entries)[k], found[k]));
        assert(is_scanned(inspector, game, found[k], results[k]));
    }
    picked
}

/// A store reports how many games were found in it, and that it found some
/// where it did.
pub proof fn stores_report_what_they_found(
    scan: StoreScan,
    store: Seq<char>,
    report: StoreDiscoveryReport,
)
    requires
        is_report_of(scan, store, report),
    ensures
        report.store@ == store,
        report.games_found == scan.games.len(),
        scan.games.len() > 0 ==> report.status == DiscoveryStatus::Found,
        scan.games.len() == 0 ==> report.status == scan.empty_status,
        report.detail == scan.detail,
{
}

} // verus!
