//! The diagnostics log: one file a day, capped in size, a week of them kept.

use crate::lists::{picks, picks_grow, picks_nothing};
use crate::order::{
    code_points, is_sorted_list, precedes, sort_texts, sorted_texts_are_in_order,
};
use crate::text::{begins, ends, ends_with, join_three, same_text, starts_with, text_views};
use vstd::prelude::*;

verus! {

/// How large one log file may grow.
pub const MAX_LOG_BYTES: u64 = 10485760;

/// How many log files are kept.
pub const MAX_LOG_DAYS: usize = 7;

/// Whether a file is named like a log.
pub open spec fn is_log_name(name: Seq<char>) -> bool {
    begins(name, "dlss-updater-"@) && ends(name, ".log"@)
}

/// The name of the log of a day.
pub fn log_file_name(date: &str) -> (name: String)
    ensures
        name@ == "dlss-updater-"@ + date@ + ".log"@,
{
    join_three("dlss-updater-", date, ".log")
}

/// The log of every day is named like a log.
pub proof fn logs_are_recognized(date: Seq<char>)
    ensures
        is_log_name("dlss-updater-"@ + date + ".log"@),
{
    let name = "dlss-updater-"@ + date + ".log"@;
    let start = "dlss-updater-"@;
    let end = ".log"@;
    assert(name.subrange(0, start.len() as int) =~= start);
    assert(name.subrange(name.len() - end.len(), name.len() as int) =~= end);
}

/// Those of `names` that are named like logs, in their order.
pub open spec fn log_names(names: Seq<Seq<char>>) -> Seq<Seq<char>>
    decreases names.len(),
{
    if names.len() == 0 {
        names
    } else if is_log_name(names.last()) {
        log_names(names.drop_last()).push(names.last())
    } else {
        log_names(names.drop_last())
    }
}

/// How many of `count` logs are too many.
pub open spec fn excess(count: nat) -> nat {
    if count <= MAX_LOG_DAYS {
        0
    } else {
        (count - MAX_LOG_DAYS) as nat
    }
}

/// Whether `removed` are the first of the logs among `names` in the order of
/// their names, which is that of their days, down to the number that is kept.
pub open spec fn are_outdated(names: Seq<Seq<char>>, removed: Seq<Seq<char>>) -> bool {
    exists|sorted: Seq<Seq<char>>|
        #[trigger] is_sorted_list(log_names(names), sorted) && removed == sorted.take(
            excess(log_names(names).len()) as int,
        )
}

/// The logs to delete, given the names of the files in the log directory.
pub fn logs_to_remove(names: &Vec<String>) -> (removed: Vec<String>)
    ensures
        are_outdated(text_views(names@), text_views(removed@)),
        removed.len() == excess(log_names(text_views(names@)).len()),
{
    let mut logs: Vec<String> = Vec::new();
    let mut at: usize = 0;
    let ghost given = text_views(names@);
    proof {
        assert(text_views(logs@) =~= Seq::<Seq<char>>::empty());
    }
    while at < names.len()
        invariant
            at <= names.len(),
            given == text_views(names@),
            text_views(logs@) == log_names(given.take(at as int)),
        decreases names.len() - at,
    {
        let name = names[at].as_str();
        let ghost before = text_views(logs@);
        proof {
            assert(given.take(at + 1).drop_last() =~= given.take(at as int));
        }
        if starts_with(name, "dlss-updater-") && ends_with(name, ".log") {
            logs.push(name.to_owned());
            proof {
                assert(text_views(logs@) =~= before.push(name@));
            }
        }
        at += 1;
    }
    proof {
        assert(given.take(at as int) =~= given);
    }
    let sorted = sort_texts(&logs);
    let ghost ordered = text_views(sorted@);
    let many: usize = if sorted.len() <= MAX_LOG_DAYS {
        0
    } else {
        sorted.len() - MAX_LOG_DAYS
    };
    let mut removed: Vec<String> = Vec::new();
    let mut next: usize = 0;
    while next < many
        invariant
            next <= many <= sorted.len(),
            ordered == text_views(sorted@),
            removed.len() == next,
            forall|i: int| 0 <= i < next ==> (#[trigger] removed@[i])@ == ordered[i],
        decreases many - next,
    {
        removed.push(sorted[next].clone());
        next += 1;
    }
    proof {
        assert(text_views(removed@) =~= ordered.take(many as int));
        assert(is_sorted_list(log_names(given), ordered));
    }
    removed
}

/// After the outdated logs are deleted, no more than a week of logs is left.
pub proof fn a_week_of_logs_is_kept(names: Seq<Seq<char>>, removed: Seq<Seq<char>>)
    requires
        are_outdated(names, removed),
    ensures
        log_names(names).len() - removed.len() <= MAX_LOG_DAYS,
        log_names(names).len() <= MAX_LOG_DAYS ==> removed.len() == 0,
{
    let sorted = choose|sorted: Seq<Seq<char>>|
        #[trigger] is_sorted_list(log_names(names), sorted) && removed == sorted.take(
            excess(log_names(names).len()) as int,
        );
    let order = choose|order: Seq<usize>|
        #![trigger crate::order::is_stable_order(crate::order::text_keys(log_names(names)), false, order)]
        crate::order::is_stable_order(crate::order::text_keys(log_names(names)), false, order)
            && sorted == crate::order::picked(log_names(names), order);
    assert(order.len() == log_names(names).len());
}

/// The log file that is open: its day and how much it holds.
#[derive(Debug, PartialEq, Eq)]
pub struct LogFile {
    pub date: String,
    pub bytes: u64,
}

impl LogFile {
    /// No file yet.
    pub fn new() -> (file: LogFile)
        ensures
            file.date@ == ""@,
            file.bytes == 0,
    {
        LogFile { date: "".to_owned(), bytes: 0 }
    }

    /// Whether the file of another day has to be opened.
    pub fn is_outdated(&self, today: &str) -> (outdated: bool)
        ensures
            outdated == (self.date@ != today@),
    {
        !same_text(&self.date, today)
    }

    /// How much of a message of `length` bytes still fits, or nothing if the
    /// file is full.
    pub fn room_for(&self, length: usize) -> (room: Option<usize>)
        ensures
            room == if self.bytes >= MAX_LOG_BYTES {
                None::<usize>
            } else if length <= MAX_LOG_BYTES - self.bytes {
                Some(length)
            } else {
                Some((MAX_LOG_BYTES - self.bytes) as usize)
            },
    {
        if self.bytes >= MAX_LOG_BYTES {
            return None;
        }
        let left: usize = (MAX_LOG_BYTES - self.bytes) as usize;
        if length <= left {
            Some(length)
        } else {
            Some(left)
        }
    }

    /// Takes note of what was written.
    pub fn wrote(&mut self, written: usize)
        requires
            old(self).bytes + written <= u64::MAX,
        ensures
            final(self).bytes == old(self).bytes + written,
            final(self).date == old(self).date,
    {
        self.bytes = self.bytes + written as u64;
    }
}

/// Writing no more than there is room for never takes a file beyond its cap.
pub proof fn logs_stay_below_their_cap(before: u64, length: usize, room: Option<usize>, written: usize)
    requires
        before <= MAX_LOG_BYTES,
        room == if before >= MAX_LOG_BYTES {
            None::<usize>
        } else if length <= MAX_LOG_BYTES - before {
            Some(length)
        } else {
            Some((MAX_LOG_BYTES - before) as usize)
        },
        written <= (match room {
            Some(room) => room,
            None => 0,
        }),
    ensures
        before + written <= MAX_LOG_BYTES,
{
}

/// Exactly the names that begin and end like a log are those of logs.
pub proof fn every_log_is_recognized(names: Seq<Seq<char>>) -> (logs: Seq<int>)
    ensures
        picks(
            logs,
            names.len() as int,
            |i: int| begins(names[i], "dlss-updater-"@) && ends(names[i], ".log"@),
        ),
        log_names(names).len() == logs.len(),
        forall|k: int|
            #![trigger log_names(names)[k]]
            0 <= k < logs.len() ==> log_names(names)[k] == names[logs[k]],
    decreases names.len(),
{
    let here = |i: int| begins(names[i], "dlss-updater-"@) && ends(names[i], ".log"@);
    if names.len() == 0 {
        picks_nothing(here);
        Seq::empty()
    } else {
        let shorter = names.drop_last();
        let before = every_log_is_recognized(shorter);
        picks_grow(
            before,
            shorter.len() as int,
            |i: int| begins(shorter[i], "dlss-updater-"@) && ends(shorter[i], ".log"@),
            here,
        )
    }
}

/// What is deleted are the oldest logs, as many as there are beyond seven, and
/// nothing that is no log: each log is either deleted or kept, and none that is
/// kept comes before one that is deleted.
pub proof fn the_oldest_logs_are_deleted(names: Seq<Seq<char>>, removed: Seq<Seq<char>>) -> (order: Seq<
    usize,
>)
    requires
        are_outdated(names, removed),
    ensures
        order.len() == log_names(names).len(),
        forall|i: int| 0 <= i < order.len() ==> #[trigger] order[i] < log_names(names).len(),
        forall|i: int, j: int| 0 <= i < j < order.len() ==> order[i] != order[j],
        order.len() <= 7 ==> removed.len() == 0,
        order.len() > 7 ==> removed.len() == order.len() - 7,
        forall|i: int|
            0 <= i < removed.len() ==> #[trigger] removed[i] == log_names(names)[order[i] as int],
        forall|i: int, j: int|
            #![trigger order[i], order[j]]
            0 <= i < removed.len() <= j < order.len() ==> !precedes(
                code_points(log_names(names)[order[j] as int]),
                code_points(log_names(names)[order[i] as int]),
            ),
{
    let sorted = choose|sorted: Seq<Seq<char>>|
        #[trigger] is_sorted_list(log_names(names), sorted) && removed == sorted.take(
            excess(log_names(names).len()) as int,
        );
    let order = sorted_texts_are_in_order(log_names(names), sorted);
    assert forall|i: int, j: int|
        #![trigger order[i], order[j]]
        0 <= i < removed.len() <= j < order.len() implies !precedes(
        code_points(log_names(names)[order[j] as int]),
        code_points(log_names(names)[order[i] as int]),
    ) by {
        assert(sorted[i] == log_names(names)[order[i] as int]);
        assert(sorted[j] == log_names(names)[order[j] as int]);
    }
    order
}

} // verus!
