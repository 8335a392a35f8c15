//! Short notices, and the counts behind the notice that ends a run of updates.
//!
//! A notice reports progress or a result. Moments are in milliseconds of any
//! clock that does not go back.

use crate::labels::{counted, plural};
use crate::model::GameId;
use crate::text::{
    chars_of, decimal, decimal_text, join_three, join_two, lower_chars, lower_of, part_of,
    same_text, text_of,
};
use vstd::prelude::*;

verus! {

/// How long the notice of a result stays, in milliseconds.
pub const RESULT_TIMEOUT: u64 = 8000;

/// What a notice is about.
#[derive(Clone, Copy, Debug, PartialEq, Eq, Structural)]
pub enum ToastKind {
    /// Work in progress. Stays until the work reports a result.
    Progress,
    Success,
    /// A result worth a second look.
    Info,
}

/// A short notice.
#[derive(Debug, PartialEq, Eq)]
pub struct Toast {
    pub message: String,
    pub kind: ToastKind,
    /// When it was shown, or last looked at.
    pub shown: u64,
    /// Whether it offers to undo what it reports.
    pub offers_undo: bool,
}

/// Whether a notice has been up for long enough.
pub open spec fn has_expired(toast: Toast, now: u64) -> bool {
    toast.kind != ToastKind::Progress && now >= toast.shown + RESULT_TIMEOUT
}

impl Toast {
    /// Whether the notice has been up for long enough.
    pub fn expired(&self, now: u64) -> (expired: bool)
        ensures
            expired == has_expired(*self, now),
    {
        self.kind != ToastKind::Progress && now >= self.shown && now - self.shown >= RESULT_TIMEOUT
    }
}

/// A notice of progress never expires; any other does, once its time is over
/// and no sooner.
pub proof fn only_results_expire(toast: Toast, now: u64)
    ensures
        toast.kind == ToastKind::Progress ==> !has_expired(toast, now),
        toast.kind != ToastKind::Progress ==> (has_expired(toast, now) <==> now >= toast.shown
            + RESULT_TIMEOUT),
{
}

/// What stands in the place of the current notice after another is given.
pub open spec fn is_notified(
    before: Option<Toast>,
    kind: ToastKind,
    message: Seq<char>,
    now: u64,
    after: Option<Toast>,
) -> bool {
    if before matches Some(toast) && toast.kind == kind && toast.message@ == message {
        after == before
    } else {
        after matches Some(toast) && toast.kind == kind && toast.message@ == message && toast.shown
            == now && !toast.offers_undo
    }
}

/// Gives a notice in place of the current one. The same notice again keeps its
/// time.
pub fn notify(toast: &mut Option<Toast>, kind: ToastKind, message: String, now: u64)
    ensures
        is_notified(*old(toast), kind, message@, now, *final(toast)),
{
    let repeats = match &*toast {
        Some(current) => current.kind == kind && same_text(&current.message, &message),
        None => false,
    };
    if !repeats {
        *toast = Some(Toast { message, kind, shown: now, offers_undo: false });
    }
}

/// Takes an expired notice away.
pub fn expire(toast: &mut Option<Toast>, now: u64)
    ensures
        *final(toast) == if *old(toast) matches Some(current) && has_expired(current, now) {
            None
        } else {
            *old(toast)
        },
{
    let over = match &*toast {
        Some(current) => current.expired(now),
        None => false,
    };
    if over {
        *toast = None;
    }
}

/// What a run does to its games.
#[derive(Clone, Copy, Debug, PartialEq, Eq, Structural)]
pub enum BatchKind {
    Update,
    Undo,
}

/// What is said while a run goes on.
pub open spec fn verb(kind: BatchKind) -> Seq<char> {
    match kind {
        BatchKind::Update => "Updating"@,
        BatchKind::Undo => "Undoing changes in"@,
    }
}

impl BatchKind {
    /// What is said while a run goes on.
    pub fn verb_ing(self) -> (words: &'static str)
        ensures
            words@ == verb(self),
    {
        match self {
            BatchKind::Update => "Updating",
            BatchKind::Undo => "Undoing changes in",
        }
    }
}

/// One user action that is carried out game by game.
#[derive(Debug, PartialEq, Eq)]
pub struct Batch {
    pub kind: BatchKind,
    pub total: usize,
    pub done: usize,
    pub changed: usize,
    pub failed: usize,
    pub games_changed: usize,
    /// Games for which the operation failed before any DLL was tried.
    pub failed_games: usize,
    pub undoable: Vec<GameId>,
    pub single_name: Option<String>,
}

/// How a run, or its part in one game, is summed up.
pub open spec fn operation_wording(undo: bool, changed: nat, failed: nat) -> Seq<char> {
    let done = if changed == 0 && failed == 0 {
        "Nothing needed changing"@
    } else if changed == 0 && !undo {
        "No DLLs updated"@
    } else if changed == 0 {
        "No DLLs restored"@
    } else if !undo {
        "Updated "@ + counted(changed, "DLL"@)
    } else {
        "Restored "@ + counted(changed, "DLL"@)
    };
    if failed > 0 {
        done + ", "@ + decimal(failed) + " failed"@
    } else {
        done
    }
}

/// Sums an operation up: "Updated 3 DLLs", "Restored 1 DLL, 1 failed", or
/// "Nothing needed changing".
pub fn operation_summary(undo: bool, changed: usize, failed: usize) -> (summary: String)
    ensures
        summary@ == operation_wording(undo, changed as nat, failed as nat),
{
    let done = if changed == 0 && failed == 0 {
        "Nothing needed changing".to_owned()
    } else if changed == 0 && !undo {
        "No DLLs updated".to_owned()
    } else if changed == 0 {
        "No DLLs restored".to_owned()
    } else if !undo {
        join_two("Updated ", &plural(changed, "DLL"))
    } else {
        join_two("Restored ", &plural(changed, "DLL"))
    };
    if failed > 0 {
        join_two(&join_three(&done, ", ", &decimal_text(failed as u64)), " failed")
    } else {
        done
    }
}

/// A text with its first character in lower case.
pub open spec fn first_lowered(text: Seq<char>) -> Seq<char> {
    if text.len() == 0 {
        text
    } else {
        lower_chars(text[0]) + text.skip(1)
    }
}

/// A text with its first character in lower case, for use behind a name.
pub fn lower_first(text: &str) -> (lowered: String)
    ensures
        lowered@ == first_lowered(text@),
{
    let chars = chars_of(text);
    if chars.len() == 0 {
        return String::new();
    }
    let mut lowered = lower_of(chars[0]);
    let mut rest = part_of(&chars, 1, chars.len());
    lowered.append(&mut rest);
    proof {
        assert(lowered@ =~= first_lowered(text@));
    }
    text_of(&lowered)
}

/// How a whole run is summed up.
pub open spec fn run_wording(batch: Batch) -> Seq<char> {
    let counts = operation_wording(
        batch.kind == BatchKind::Undo,
        batch.changed as nat,
        batch.failed as nat,
    );
    let placed = match batch.single_name {
        Some(name) => name@ + ": "@ + first_lowered(counts),
        None => if batch.games_changed > 0 {
            counts + " across "@ + counted(batch.games_changed as nat, "game"@)
        } else {
            counts
        },
    };
    if batch.failed_games > 0 {
        placed + ". "@ + counted(batch.failed_games as nat, "game"@)
            + " could not be changed; see the error above"@
    } else {
        placed
    }
}

impl Batch {
    /// A run over `total` games that has not begun.
    pub fn new(kind: BatchKind, total: usize, single_name: Option<String>) -> (batch: Batch)
        ensures
            batch.kind == kind,
            batch.total == total,
            batch.done == 0,
            batch.changed == 0,
            batch.failed == 0,
            batch.games_changed == 0,
            batch.failed_games == 0,
            batch.undoable@ == Seq::<GameId>::empty(),
            batch.single_name == single_name,
    {
        Batch {
            kind,
            total,
            done: 0,
            changed: 0,
            failed: 0,
            games_changed: 0,
            failed_games: 0,
            undoable: Vec::new(),
            single_name,
        }
    }

    /// The one line that reports the whole run.
    pub fn summary(&self) -> (summary: String)
        ensures
            summary@ == run_wording(*self),
    {
        let undo = self.kind == BatchKind::Undo;
        let counts = operation_summary(undo, self.changed, self.failed);
        let placed = match &self.single_name {
            Some(name) => join_three(name, ": ", &lower_first(&counts)),
            None => {
                if self.games_changed > 0 {
                    join_three(&counts, " across ", &plural(self.games_changed, "game"))
                } else {
                    counts
                }
            },
        };
        if self.failed_games > 0 {
            join_two(
                &join_three(&placed, ". ", &plural(self.failed_games, "game")),
                " could not be changed; see the error above",
            )
        } else {
            placed
        }
    }
}

/// A message that is told is shown: a new one from now on and without an offer
/// to undo, and the same one again as it already is.
pub proof fn told_messages_are_shown(
    before: Option<Toast>,
    kind: ToastKind,
    message: Seq<char>,
    now: u64,
    after: Option<Toast>,
)
    requires
        is_notified(before, kind, message, now, after),
    ensures
        after matches Some(toast) && toast.kind == kind && toast.message@ == message,
        before is None || before->0.kind != kind || before->0.message@ != message ==> after->0.shown
            == now && !after->0.offers_undo,
        before is Some && before->0.kind == kind && before->0.message@ == message ==> after
            == before,
{
}

} // verus!
