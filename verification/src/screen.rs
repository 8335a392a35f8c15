//! What the parts of the screen show, and what they offer.

use crate::discovery::{DiscoveryStatus, StoreDiscoveryReport};
use crate::labels::{counted, plural};
use crate::latest::{latest_listed, latest_release_meta, tag_text};
use crate::library::{GameRow, RowStatus};
use crate::lists::{picks, picks_grow, picks_nothing};
use crate::model::{CachedRelease, GameId, ReleaseState, ReleaseValidation};
use crate::review::download_label;
use crate::session::Session;
use crate::text::{decimal, decimal_text, join_three, join_two};
use vstd::prelude::*;

verus! {

/// The state of a box that stands for several.
#[derive(Clone, Copy, Debug, PartialEq, Eq, Structural)]
pub enum TriState {
    Nothing,
    Part,
    All,
}

impl TriState {
    /// The state of a box that stands for `total` others, of which `checked`
    /// are checked.
    pub fn of(checked: usize, total: usize) -> (state: TriState)
        ensures
            state == if total == 0 || checked == 0 {
                TriState::Nothing
            } else if checked >= total {
                TriState::All
            } else {
                TriState::Part
            },
    {
        if total == 0 || checked == 0 {
            TriState::Nothing
        } else if checked >= total {
            TriState::All
        } else {
            TriState::Part
        }
    }

    /// Whether a click on the box checks all: it does unless all are checked.
    pub fn click_selects(self) -> (selects: bool)
        ensures
            selects == (self != TriState::All),
    {
        self != TriState::All
    }
}

/// How many rows satisfy a condition.
pub open spec fn count_rows(games: Seq<GameRow>, wanted: spec_fn(GameRow) -> bool) -> nat
    decreases games.len(),
{
    if games.len() == 0 {
        0
    } else {
        count_rows(games.drop_last(), wanted) + if wanted(games.last()) {
            1nat
        } else {
            0nat
        }
    }
}

/// Whether a game has managed DLLs.
pub open spec fn with_dlls() -> spec_fn(GameRow) -> bool {
    |game: GameRow| game.dlls > 0
}

/// Whether DLSS could be upgraded in a game.
pub open spec fn with_dlss_updates() -> spec_fn(GameRow) -> bool {
    |game: GameRow| game.dlss_upgrades > 0
}

/// Whether a game is selected.
pub open spec fn is_selected() -> spec_fn(GameRow) -> bool {
    |game: GameRow| game.selected
}

/// How many games have managed DLLs, and in how many DLSS could be upgraded.
pub fn library_counts(games: &[GameRow]) -> (counts: (usize, usize))
    ensures
        counts.0 == count_rows(games@, with_dlls()),
        counts.1 == count_rows(games@, with_dlss_updates()),
{
    let mut have: usize = 0;
    let mut updates: usize = 0;
    let mut at: usize = 0;
    while at < games.len()
        invariant
            at <= games@.len(),
            have == count_rows(games@.take(at as int), with_dlls()),
            updates == count_rows(games@.take(at as int), with_dlss_updates()),
            have <= at,
            updates <= at,
        decreases games@.len() - at,
    {
        proof {
            assert(games@.take(at + 1).drop_last() =~= games@.take(at as int));
        }
        if games[at].dlls > 0 {
            have += 1;
        }
        if games[at].dlss_upgrades > 0 {
            updates += 1;
        }
        at += 1;
    }
    proof {
        assert(games@.take(at as int) =~= games@);
    }
    (have, updates)
}

/// What the bar at the bottom says of the library.
pub open spec fn library_wording(games: Seq<GameRow>, ready: bool) -> Seq<char> {
    let start = counted(games.len(), "game"@) + " · "@ + decimal(count_rows(games, with_dlls()))
        + " with NVIDIA DLLs"@;
    if ready {
        start + " · "@ + decimal(count_rows(games, with_dlss_updates())) + " with DLSS updates"@
    } else {
        start
    }
}

/// What the bar at the bottom says of the library. Updates are counted once
/// there is a release to compare with.
pub fn library_summary(games: &[GameRow], ready: bool) -> (summary: String)
    ensures
        summary@ == library_wording(games@, ready),
{
    let (have, updates) = library_counts(games);
    let start = join_two(
        &join_three(&plural(games.len(), "game"), " · ", &decimal_text(have as u64)),
        " with NVIDIA DLLs",
    );
    if ready {
        join_two(
            &join_three(&start, " · ", &decimal_text(updates as u64)),
            " with DLSS updates",
        )
    } else {
        start
    }
}

/// The identifiers of the games that satisfy a condition, in their order.
pub open spec fn ids_where(games: Seq<GameRow>, wanted: spec_fn(GameRow) -> bool) -> Seq<GameId>
    decreases games.len(),
{
    if games.len() == 0 {
        Seq::empty()
    } else if wanted(games.last()) {
        ids_where(games.drop_last(), wanted).push(games.last().id)
    } else {
        ids_where(games.drop_last(), wanted)
    }
}

/// The games that are selected.
pub fn selected_games(games: &[GameRow]) -> (ids: Vec<GameId>)
    ensures
        ids@ == ids_where(games@, is_selected()),
{
    let mut ids: Vec<GameId> = Vec::new();
    let mut at: usize = 0;
    while at < games.len()
        invariant
            at <= games@.len(),
            ids@ == ids_where(games@.take(at as int), is_selected()),
        decreases games@.len() - at,
    {
        proof {
            assert(games@.take(at + 1).drop_last() =~= games@.take(at as int));
        }
        if games[at].selected {
            ids.push(games[at].id.clone());
        }
        at += 1;
    }
    proof {
        assert(games@.take(at as int) =~= games@);
    }
    ids
}

/// Whether the button that updates all games means a game: if there is a
/// release to compare with, a game in which DLSS could be upgraded, and else
/// any game with DLLs.
pub open spec fn in_update_all(ready: bool) -> spec_fn(GameRow) -> bool {
    |game: GameRow|
        if ready {
            game.dlss_upgrades > 0
        } else {
            game.dlls > 0
        }
}

/// The games that the button that updates all games means.
pub fn update_all_games(games: &[GameRow], ready: bool) -> (ids: Vec<GameId>)
    ensures
        ids@ == ids_where(games@, in_update_all(ready)),
{
    let mut ids: Vec<GameId> = Vec::new();
    let mut at: usize = 0;
    while at < games.len()
        invariant
            at <= games@.len(),
            ids@ == ids_where(games@.take(at as int), in_update_all(ready)),
        decreases games@.len() - at,
    {
        proof {
            assert(games@.take(at + 1).drop_last() =~= games@.take(at as int));
        }
        let meant = if ready {
            games[at].dlss_upgrades > 0
        } else {
            games[at].dlls > 0
        };
        if meant {
            ids.push(games[at].id.clone());
        }
        at += 1;
    }
    proof {
        assert(games@.take(at as int) =~= games@);
    }
    ids
}

/// What the button that updates all games says. Its count is the number of
/// games that the review will list.
pub fn update_all_label(count: usize, ready: bool) -> (label: String)
    ensures
        label@ == if ready && count > 0 {
            "Update DLSS in "@ + decimal(count as nat) + " games"@
        } else {
            "Update DLSS"@
        },
{
    if ready && count > 0 {
        join_three("Update DLSS in ", &decimal_text(count as u64), " games")
    } else {
        "Update DLSS".to_owned()
    }
}

/// What the button that updates all games says about itself.
pub fn update_all_hint(count: usize, ready: bool, catalog_known: bool, busy: bool) -> (hint:
    &'static str)
    ensures
        hint@ == if busy {
            "Wait for the current update to finish"@
        } else if ready && count == 0 {
            "Every game already has the latest DLSS"@
        } else if !catalog_known {
            "The release catalog has not loaded yet"@
        } else {
            "Review DLSS updates for every game at once. Streamline and Reflex are left alone."@
        },
{
    if busy {
        "Wait for the current update to finish"
    } else if ready && count == 0 {
        "Every game already has the latest DLSS"
    } else if !catalog_known {
        "The release catalog has not loaded yet"
    } else {
        "Review DLSS updates for every game at once. Streamline and Reflex are left alone."
    }
}

/// What the status column says of a row.
pub open spec fn status_wording(game: GameRow, status: RowStatus) -> Seq<char> {
    match status {
        RowStatus::UpdateAvailable => "Update"@,
        RowStatus::NotChecked => "Update"@,
        RowStatus::Problem => counted(game.inspection_errors as nat, "file"@) + " unreadable"@,
        RowStatus::OptionalUpdates => "DLSS up to date"@,
        RowStatus::VersionUnknown => "Version unknown"@,
        RowStatus::UpToDate => "Up to date"@,
        RowStatus::NoDlls => "No NVIDIA DLLs"@,
    }
}

/// What the status column says of a row.
pub fn status_text(game: &GameRow, status: RowStatus) -> (text: String)
    ensures
        text@ == status_wording(*game, status),
{
    match status {
        RowStatus::UpdateAvailable => "Update".to_owned(),
        RowStatus::NotChecked => "Update".to_owned(),
        RowStatus::Problem => join_two(&plural(game.inspection_errors, "file"), " unreadable"),
        RowStatus::OptionalUpdates => "DLSS up to date".to_owned(),
        RowStatus::VersionUnknown => "Version unknown".to_owned(),
        RowStatus::UpToDate => "Up to date".to_owned(),
        RowStatus::NoDlls => "No NVIDIA DLLs".to_owned(),
    }
}

/// What the status column explains when it is pointed at.
pub open spec fn status_explanation(game: GameRow, status: RowStatus) -> Seq<char> {
    match status {
        RowStatus::UpdateAvailable => "Review "@ + counted(
            game.dlss_upgrades as nat,
            "DLSS update"@,
        ) + " for this game"@,
        RowStatus::NotChecked =>
            "Download the latest release, then review this game's DLSS updates"@,
        RowStatus::Problem =>
            "Some files in this game's folder could not be inspected. The log folder, under About, has the details."@,
        RowStatus::OptionalUpdates => counted(game.upgrades as nat, "update"@)
            + " for Streamline or Reflex. These are optional; open the game to review them."@,
        RowStatus::VersionUnknown =>
            "A DLL in this game has no readable version, so it is never updated"@,
        RowStatus::UpToDate => ""@,
        RowStatus::NoDlls => ""@,
    }
}

/// What the status column explains when it is pointed at.
pub fn status_hint(game: &GameRow, status: RowStatus) -> (text: String)
    ensures
        text@ == status_explanation(*game, status),
{
    match status {
        RowStatus::UpdateAvailable => join_three(
            "Review ",
            &plural(game.dlss_upgrades, "DLSS update"),
            " for this game",
        ),
        RowStatus::NotChecked =>
            "Download the latest release, then review this game's DLSS updates".to_owned(),
        RowStatus::Problem =>
            "Some files in this game's folder could not be inspected. The log folder, under About, has the details.".to_owned(),
        RowStatus::OptionalUpdates => join_two(
            &plural(game.upgrades, "update"),
            " for Streamline or Reflex. These are optional; open the game to review them.",
        ),
        RowStatus::VersionUnknown =>
            "A DLL in this game has no readable version, so it is never updated".to_owned(),
        RowStatus::UpToDate => "".to_owned(),
        RowStatus::NoDlls => "".to_owned(),
    }
}

/// What is said about the search of one store.
pub open spec fn store_status_wording(report: StoreDiscoveryReport) -> Seq<char> {
    match report.status {
        DiscoveryStatus::Found => counted(report.games_found as nat, "game"@),
        DiscoveryStatus::NotDetected => "Not installed"@,
        DiscoveryStatus::Error => "Could not read"@,
    }
}

/// What is said about the search of one store.
pub fn store_status(report: &StoreDiscoveryReport) -> (text: String)
    ensures
        text@ == store_status_wording(*report),
{
    match report.status {
        DiscoveryStatus::Found => plural(report.games_found, "game"),
        DiscoveryStatus::NotDetected => "Not installed".to_owned(),
        DiscoveryStatus::Error => "Could not read".to_owned(),
    }
}

/// What the button that undoes the last run says.
pub fn undo_label(count: usize) -> (label: String)
    ensures
        label@ == if count == 1 {
            "Undo last update"@
        } else {
            "Undo last update ("@ + decimal(count as nat) + " games)"@
        },
{
    if count == 1 {
        "Undo last update".to_owned()
    } else {
        join_three("Undo last update (", &decimal_text(count as u64), " games)")
    }
}

/// What the chip for the latest release says.
#[derive(Debug, PartialEq, Eq)]
pub enum ReleaseChip {
    Ready(String),
    NotDownloaded(String),
    Checking,
    Missing,
}

/// What the chip for the latest release says.
pub fn release_chip(tag: &Option<String>, ready: bool, loading: bool) -> (chip: ReleaseChip)
    ensures
        match *tag {
            Some(tag) => if ready {
                chip matches ReleaseChip::Ready(text) && text@ == "Streamline "@ + tag@
            } else {
                chip matches ReleaseChip::NotDownloaded(text) && text@ == "Streamline "@ + tag@
                    + " · not downloaded"@
            },
            None => chip == if loading {
                ReleaseChip::Checking
            } else {
                ReleaseChip::Missing
            },
        },
{
    match tag {
        Some(tag) => {
            if ready {
                ReleaseChip::Ready(join_two("Streamline ", tag))
            } else {
                ReleaseChip::NotDownloaded(join_three("Streamline ", tag, " · not downloaded"))
            }
        },
        None => {
            if loading {
                ReleaseChip::Checking
            } else {
                ReleaseChip::Missing
            }
        },
    }
}

/// What a line in the list of releases offers.
#[derive(Debug, PartialEq, Eq)]
pub enum ReleaseOffer {
    /// The content is on its way.
    InProgress,
    /// The content is there and can be removed.
    Remove { status: String },
    /// The content can be downloaded.
    Download { label: &'static str, failed: bool, recommended: bool },
}

/// What a line in the list of releases offers.
pub fn release_offer(release: &CachedRelease, latest: bool, in_progress: bool, has_error: bool) -> (
    offer: ReleaseOffer)
    ensures
        if in_progress {
            offer == ReleaseOffer::InProgress
        } else if release.state == ReleaseState::Ready {
            offer matches ReleaseOffer::Remove { status } && status@ == "Downloaded · "@ + counted(
                release.dlls@.len(),
                "DLL"@,
            )
        } else {
            let broken = release.state == ReleaseState::Invalid || has_error;
            offer matches ReleaseOffer::Download { label, failed, recommended } && failed == broken
                && recommended == (latest && !broken) && label@ == if broken {
                "Retry"@
            } else {
                "Download"@
            }
        },
{
    if in_progress {
        return ReleaseOffer::InProgress;
    }
    if release.state == ReleaseState::Ready {
        return ReleaseOffer::Remove {
            status: join_two("Downloaded · ", &plural(release.dlls.len(), "DLL")),
        };
    }
    let failed = release.state == ReleaseState::Invalid || has_error;
    ReleaseOffer::Download {
        label: if failed {
            "Retry"
        } else {
            "Download"
        },
        failed,
        recommended: latest && !failed,
    }
}

/// Whether a release was checked without the online list of revoked
/// certificates.
pub fn lacks_revocation_check(release: &CachedRelease) -> (lacks: bool)
    ensures
        lacks == (release.state == ReleaseState::Ready && release.validation
            == ReleaseValidation::RevocationUnavailableFallback),
{
    release.state == ReleaseState::Ready && release.validation
        == ReleaseValidation::RevocationUnavailableFallback
}

/// What the card above the library shows until a release is downloaded.
#[derive(Debug, PartialEq, Eq)]
pub enum SetupCard {
    /// A release is there, so there is nothing to set up.
    Hidden,
    InProgress,
    /// The latest release can be downloaded.
    Download { label: String, error: Option<String> },
    Checking,
    /// The catalog could not be loaded.
    Retry { reason: String },
}

/// Whether some release is ready.
pub open spec fn some_release_ready(releases: Seq<CachedRelease>) -> bool {
    exists|i: int| 0 <= i < releases.len() && (#[trigger] releases[i]).state == ReleaseState::Ready
}

fn any_release_ready(releases: &Vec<CachedRelease>) -> (ready: bool)
    ensures
        ready == some_release_ready(releases@),
{
    let mut at: usize = 0;
    while at < releases.len()
        invariant
            at <= releases.len(),
            forall|i: int|
                0 <= i < at ==> (#[trigger] releases@[i]).state != ReleaseState::Ready,
        decreases releases.len() - at,
    {
        if releases[at].state == ReleaseState::Ready {
            return true;
        }
        at += 1;
    }
    false
}

/// What the card above the library shows.
pub open spec fn is_setup_card(session: Session, card: SetupCard) -> bool {
    if some_release_ready(session.releases@) {
        card == SetupCard::Hidden
    } else if session.inspecting_release is Some {
        card == SetupCard::InProgress
    } else {
        match latest_listed(session.releases@, tag_text(session.catalog_release)) {
            Some(release) => {
                let id = release.metadata.id@;
                let failed = session.release_errors@.dom().contains(id);
                &&& card matches SetupCard::Download { label, error } && {
                    &&& label@ == if failed {
                        "Try again"@
                    } else {
                        "Download "@ + release.metadata.tag@
                    }
                    &&& error == if failed {
                        Some(session.release_errors@[id])
                    } else {
                        None
                    }
                }
            },
            None => if session.catalog_loading {
                card == SetupCard::Checking
            } else {
                card matches SetupCard::Retry { reason } && reason@
                    == match session.catalog_error {
                    Some(error) => error@,
                    None => "GitHub returned no stable Streamline release archives"@,
                }
            },
        }
    }
}

impl Session {
    /// What the card above the library shows.
    pub fn setup_card(&self) -> (card: SetupCard)
        requires
            self.well_formed(),
        ensures
            is_setup_card(*self, card),
    {
        if any_release_ready(&self.releases) {
            return SetupCard::Hidden;
        }
        if self.inspecting_release.is_some() {
            return SetupCard::InProgress;
        }
        match latest_release_meta(self.releases.as_slice(), &self.catalog_release) {
            Some(release) => {
                let error = match self.release_errors.get(&release.metadata.id.0) {
                    Some(error) => Some(error.clone()),
                    None => None,
                };
                SetupCard::Download {
                    label: download_label(&release.metadata.tag, error.is_some()),
                    error,
                }
            },
            None => {
                if self.catalog_loading {
                    SetupCard::Checking
                } else {
                    SetupCard::Retry {
                        reason: match &self.catalog_error {
                            Some(error) => error.clone(),
                            None =>
                                "GitHub returned no stable Streamline release archives".to_owned(),
                        },
                    }
                }
            },
        }
    }

    /// The state of the release that is on its way, how much of it has arrived,
    /// and how much there is.
    pub fn release_progress_now(&self) -> (progress: (ReleaseState, u64, Option<u64>))
        ensures
            progress == match self.release_progress {
                Some(amount) => (
                    match crate::catalog::release_with_id(self.releases@, amount.id@) {
                        Some(release) => release.state,
                        None => ReleaseState::Downloading,
                    },
                    amount.received,
                    amount.total,
                ),
                None => (ReleaseState::Downloading, 0u64, None),
            },
    {
        match &self.release_progress {
            Some(amount) => {
                let at = crate::catalog::find_release(&self.releases, &amount.id);
                let state = if at < self.releases.len() {
                    self.releases[at].state
                } else {
                    ReleaseState::Downloading
                };
                (state, amount.received, amount.total)
            },
            None => (ReleaseState::Downloading, 0, None),
        }
    }
}

/// A row counts exactly where it satisfies the condition.
pub proof fn every_wanted_row_counts(games: Seq<GameRow>, wanted: spec_fn(GameRow) -> bool) -> (counted: Seq<int>)
    ensures
        picks(counted, games.len() as int, |i: int| wanted(games[i])),
        count_rows(games, wanted) == counted.len(),
    decreases games.len(),
{
    let here = |i: int| wanted(games[i]);
    if games.len() == 0 {
        picks_nothing(here);
        Seq::empty()
    } else {
        let shorter = games.drop_last();
        let before = every_wanted_row_counts(shorter, wanted);
        picks_grow(before, shorter.len() as int, |i: int| wanted(shorter[i]), here)
    }
}

/// Exactly the games that satisfy the condition are named, in their order.
pub proof fn every_wanted_row_is_named(games: Seq<GameRow>, wanted: spec_fn(GameRow) -> bool) -> (named: Seq<int>)
    ensures
        picks(named, games.len() as int, |i: int| wanted(games[i])),
        ids_where(games, wanted).len() == named.len(),
        forall|k: int|
            #![trigger ids_where(games, wanted)[k]]
            0 <= k < named.len() ==> ids_where(games, wanted)[k] == games[named[k]].id,
    decreases games.len(),
{
    let here = |i: int| wanted(games[i]);
    if games.len() == 0 {
        picks_nothing(here);
        Seq::empty()
    } else {
        let shorter = games.drop_last();
        let before = every_wanted_row_is_named(shorter, wanted);
        picks_grow(before, shorter.len() as int, |i: int| wanted(shorter[i]), here)
    }
}

/// The games that are counted, selected or meant by the button that updates all
/// are those with DLLs, those with DLSS updates and those that are selected.
pub proof fn conditions_on_rows(game: GameRow)
    ensures
        with_dlls()(game) <==> game.dlls > 0,
        with_dlss_updates()(game) <==> game.dlss_upgrades > 0,
        is_selected()(game) <==> game.selected,
        in_update_all(true)(game) <==> game.dlss_upgrades > 0,
        in_update_all(false)(game) <==> game.dlls > 0,
{
}

/// The card that helps to set up goes once a release is ready. Until then it
/// shows that a release is on its way, offers the latest one that is listed,
/// under its tag or for another try if it failed, tells that the catalog is
/// being read, or why it could not be.
pub proof fn the_card_leads_to_a_release(session: Session, card: SetupCard) -> (at: int)
    requires
        is_setup_card(session, card),
    ensures
        card == SetupCard::Hidden <==> exists|i: int|
            0 <= i < session.releases.len() && (#[trigger] session.releases@[i]).state
                == ReleaseState::Ready,
        card == SetupCard::InProgress <==> session.inspecting_release is Some && forall|i: int|
            0 <= i < session.releases.len() ==> (#[trigger] session.releases@[i]).state
                != ReleaseState::Ready,
        card matches SetupCard::Download { label, error } ==> {
            &&& session.catalog_release is Some
            &&& 0 <= at < session.releases.len()
            &&& session.releases@[at].metadata.tag@ == session.catalog_release->0@
            &&& forall|i: int|
                0 <= i < at ==> (#[trigger] session.releases@[i]).metadata.tag@
                    != session.catalog_release->0@
            &&& error is Some <==> session.release_errors@.contains_key(
                session.releases@[at].metadata.id@,
            )
            &&& error is None ==> label@ == "Download "@ + session.releases@[at].metadata.tag@
            &&& error is Some ==> error == Some(
                session.release_errors@[session.releases@[at].metadata.id@],
            )
        },
        card == SetupCard::Checking ==> session.catalog_loading,
        card is Retry ==> !session.catalog_loading,
        card == SetupCard::Checking || card is Retry ==> forall|i: int|
            0 <= i < session.releases.len() && session.catalog_release is Some ==> (
            #[trigger] session.releases@[i]).metadata.tag@ != session.catalog_release->0@,
{
    if let Some(tag) = session.catalog_release {
        let wanted = crate::latest::has_tag(tag@);
        crate::lists::first_is_wanted(session.releases@, wanted);
        let at = crate::lists::first_where(session.releases@, wanted);
        assert forall|i: int| 0 <= i < at implies (
        #[trigger] session.releases@[i]).metadata.tag@ != tag@ by {
            assert(!wanted(session.releases@[i]));
        }
        if at < session.releases.len() {
            assert(wanted(session.releases@[at]));
        }
        at
    } else {
        0
    }
}

} // verus!
