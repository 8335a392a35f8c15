//! Games for which replacing DLLs is known to be risky.
//!
//! The table is a snapshot of the list at
//! <https://raw.githubusercontent.com/Recol/DLSS-Updater-Whitelist/main/whitelist.csv>
//! as it was on 2026-07-11. Despite the name of that repository its entries
//! are games for which updates are not supported, for several reasons; none of
//! them is a confirmed ban. The match is therefore an advice only.

use crate::model::GameInstall;
use crate::paths::{has_name, last_part, readable, readable_text};
use crate::text::{chars_of, is_alphanumeric_char, lower_chars, lower_of, same_chars};
use vstd::prelude::*;

verus! {

/// The advice that is shown for such a game.
pub const KNOWN_GAME_RISK_WARNING: &'static str = "Known online/anti-cheat risk. Replacing game DLLs may be treated as tampering and could result in a ban.";

/// How many entries the table has.
pub const RISK_ENTRIES: usize = 36;

/// The table: what a game or its folder is called, and the name that is shown
/// for it. Several entries can show one name.
pub open spec fn risk_table() -> Seq<(Seq<char>, Seq<char>)> {
    seq![
        ("3DMark"@, "3DMark"@),
        ("Fortnite"@, "Fortnite"@),
        ("The First Descendant"@, "The First Descendant"@),
        ("EVIL DEAD The Game"@, "EVIL DEAD The Game"@),
        ("EvilDead"@, "EVIL DEAD The Game"@),
        ("Escape From Tarkov"@, "Escape From Tarkov"@),
        ("Escape from Tarkov Arena"@, "Escape from Tarkov Arena"@),
        ("Planetside 2"@, "Planetside 2"@),
        ("AFOP"@, "Avatar: Frontiers of Pandora"@),
        ("Back 4 Blood"@, "Back 4 Blood"@),
        ("Squad"@, "Squad"@),
        ("Squad 44"@, "Squad 44"@),
        ("Chivalry 2"@, "Chivalry 2"@),
        ("Call of Duty"@, "Call of Duty"@),
        ("Hunt Showdown"@, "Hunt Showdown"@),
        ("Hunt"@, "Hunt Showdown"@),
        ("Need For Speed Unbound"@, "Need For Speed Unbound"@),
        ("StarshipTroopersExtermination"@, "Starship Troopers: Extermination"@),
        ("Space Marine 2"@, "Space Marine 2"@),
        ("Dark and Darker"@, "Dark and Darker"@),
        ("Throne and Liberty"@, "Throne and Liberty"@),
        ("War Thunder"@, "War Thunder"@),
        ("The Finals"@, "The Finals"@),
        ("FINAL FANTASY XV"@, "FINAL FANTASY XV"@),
        ("GZW"@, "Gray Zone Warfare"@),
        ("Lords of the Fallen"@, "Lords of the Fallen"@),
        ("Monster Hunter World"@, "Monster Hunter World"@),
        ("For Honor"@, "For Honor"@),
        ("Tom Clancy's Rainbow Six Siege"@, "Tom Clancy's Rainbow Six Siege"@),
        ("FINAL FANTASY TACTICS - The Ivalice Chronicles"@, "FINAL FANTASY TACTICS - The Ivalice Chronicles"@),
        ("Battlefield 6"@, "Battlefield 6"@),
        ("Dead by Daylight"@, "Dead by Daylight"@),
        ("7 Days To Die"@, "7 Days To Die"@),
        ("NINJAGAIDEN4"@, "NINJA GAIDEN 4"@),
        ("MonsterHunterWilds"@, "Monster Hunter Wilds"@),
        ("FINAL FANTASY XVI"@, "FINAL FANTASY XVI"@),
    ]
}

/// One entry of the table.
fn risk_entry(at: usize) -> (entry: (&'static str, &'static str))
    requires
        at < RISK_ENTRIES,
    ensures
        entry.0@ == risk_table()[at as int].0,
        entry.1@ == risk_table()[at as int].1,
{
    match at {
        0 => ("3DMark", "3DMark"),
        1 => ("Fortnite", "Fortnite"),
        2 => ("The First Descendant", "The First Descendant"),
        3 => ("EVIL DEAD The Game", "EVIL DEAD The Game"),
        4 => ("EvilDead", "EVIL DEAD The Game"),
        5 => ("Escape From Tarkov", "Escape From Tarkov"),
        6 => ("Escape from Tarkov Arena", "Escape from Tarkov Arena"),
        7 => ("Planetside 2", "Planetside 2"),
        8 => ("AFOP", "Avatar: Frontiers of Pandora"),
        9 => ("Back 4 Blood", "Back 4 Blood"),
        10 => ("Squad", "Squad"),
        11 => ("Squad 44", "Squad 44"),
        12 => ("Chivalry 2", "Chivalry 2"),
        13 => ("Call of Duty", "Call of Duty"),
        14 => ("Hunt Showdown", "Hunt Showdown"),
        15 => ("Hunt", "Hunt Showdown"),
        16 => ("Need For Speed Unbound", "Need For Speed Unbound"),
        17 => ("StarshipTroopersExtermination", "Starship Troopers: Extermination"),
        18 => ("Space Marine 2", "Space Marine 2"),
        19 => ("Dark and Darker", "Dark and Darker"),
        20 => ("Throne and Liberty", "Throne and Liberty"),
        21 => ("War Thunder", "War Thunder"),
        22 => ("The Finals", "The Finals"),
        23 => ("FINAL FANTASY XV", "FINAL FANTASY XV"),
        24 => ("GZW", "Gray Zone Warfare"),
        25 => ("Lords of the Fallen", "Lords of the Fallen"),
        26 => ("Monster Hunter World", "Monster Hunter World"),
        27 => ("For Honor", "For Honor"),
        28 => ("Tom Clancy's Rainbow Six Siege", "Tom Clancy's Rainbow Six Siege"),
        29 => ("FINAL FANTASY TACTICS - The Ivalice Chronicles", "FINAL FANTASY TACTICS - The Ivalice Chronicles"),
        30 => ("Battlefield 6", "Battlefield 6"),
        31 => ("Dead by Daylight", "Dead by Daylight"),
        32 => ("7 Days To Die", "7 Days To Die"),
        33 => ("NINJAGAIDEN4", "NINJA GAIDEN 4"),
        34 => ("MonsterHunterWilds", "Monster Hunter Wilds"),
        _ => ("FINAL FANTASY XVI", "FINAL FANTASY XVI"),
    }
}

/// A name reduced to its letters and digits, in lower case.
pub open spec fn normalized(text: Seq<char>) -> Seq<char>
    decreases text.len(),
{
    if text.len() == 0 {
        text
    } else if is_alphanumeric_char(text.last()) {
        normalized(text.drop_last()) + lower_chars(text.last())
    } else {
        normalized(text.drop_last())
    }
}

/// Reduces a name to its letters and digits, in lower case.
fn normalize(text: &str) -> (result: Vec<char>)
    ensures
        result@ == normalized(text@),
{
    let chars = chars_of(text);
    let mut result: Vec<char> = Vec::new();
    let mut at: usize = 0;
    while at < chars.len()
        invariant
            at <= chars.len(),
            result@ == normalized(chars@.take(at as int)),
        decreases chars.len() - at,
    {
        let character = chars[at];
        proof {
            assert(chars@.take(at + 1).drop_last() =~= chars@.take(at as int));
        }
        if character.is_alphanumeric() {
            let mut lower = lower_of(character);
            result.append(&mut lower);
        }
        at += 1;
    }
    proof {
        assert(chars@.take(at as int) =~= chars@);
    }
    result
}

/// Whether an entry is the name of a game or of its folder, both reduced.
pub open spec fn entry_matches(at: int, name: Seq<char>, folder: Option<Seq<char>>) -> bool {
    let entry = normalized(risk_table()[at].0);
    entry == name || folder == Some(entry)
}

/// The name that the first matching entry of the first `count` shows.
pub open spec fn first_match(count: nat, name: Seq<char>, folder: Option<Seq<char>>) -> Option<
    Seq<char>,
>
    decreases count,
{
    if count == 0 {
        None
    } else {
        let earlier = first_match((count - 1) as nat, name, folder);
        if earlier is Some {
            earlier
        } else if entry_matches(count - 1, name, folder) {
            Some(risk_table()[count - 1].1)
        } else {
            None
        }
    }
}

/// The name of the folder at `root` as it is shown, if it has one.
pub open spec fn folder_name(root: Seq<char>) -> Option<Seq<char>> {
    if has_name(root) {
        Some(readable(last_part(root)))
    } else {
        None
    }
}

/// The risk that is known of a game called `name` in the folder `root`.
pub open spec fn game_risk(name: Seq<char>, root: Seq<char>) -> Option<Seq<char>> {
    first_match(
        RISK_ENTRIES as nat,
        normalized(name),
        match folder_name(root) {
            Some(folder) => Some(normalized(folder)),
            None => None,
        },
    )
}

spec fn reduced(folder: Option<Vec<char>>) -> Option<Seq<char>> {
    match folder {
        Some(folder) => Some(folder@),
        None => None,
    }
}

/// The name under which a game is known to be risky: where its own name or the
/// name of its folder is that of an entry, apart from case, spaces and
/// punctuation. A part of a name is not enough, nor is a folder further up.
pub fn known_game_risk(game: &GameInstall) -> (risk: Option<&'static str>)
    ensures
        match risk {
            Some(risk) => game_risk(game.name@, game.root@) == Some(risk@),
            None => game_risk(game.name@, game.root@) is None,
        },
{
    let name = normalize(&game.name);
    let folder = match game.root.file_name() {
        Some(folder) => Some(normalize(&readable_text(&folder))),
        None => None,
    };
    let ghost folder_view = reduced(folder);
    let mut at: usize = 0;
    while at < RISK_ENTRIES
        invariant
            at <= RISK_ENTRIES,
            name@ == normalized(game.name@),
            folder_view == reduced(folder),
            folder_view == (match folder_name(game.root@) {
                Some(folder) => Some(normalized(folder)),
                None => None,
            }),
            first_match(at as nat, name@, folder_view) is None,
        decreases RISK_ENTRIES - at,
    {
        let (entry, shown) = risk_entry(at);
        let entry = normalize(entry);
        let named = same_chars(&entry, &name) || match &folder {
            Some(folder) => same_chars(&entry, folder),
            None => false,
        };
        if named {
            proof {
                matches_stay(at as nat + 1, RISK_ENTRIES as nat, name@, folder_view);
            }
            return Some(shown);
        }
        at += 1;
    }
    None
}

/// The first match does not change when more entries are looked at.
proof fn matches_stay(count: nat, more: nat, name: Seq<char>, folder: Option<Seq<char>>)
    requires
        count <= more,
        first_match(count, name, folder) is Some,
    ensures
        first_match(more, name, folder) == first_match(count, name, folder),
    decreases more,
{
    if count < more {
        matches_stay(count, (more - 1) as nat, name, folder);
    }
}

/// A risk is known of a game exactly where its name or that of its folder is,
/// once reduced, that of an entry; the first such entry names it.
pub proof fn the_first_matching_entry_counts(
    count: nat,
    name: Seq<char>,
    folder: Option<Seq<char>>,
) -> (at: int)
    ensures
        first_match(count, name, folder) is Some ==> 0 <= at < count && first_match(
            count,
            name,
            folder,
        ) == Some(risk_table()[at].1) && (normalized(risk_table()[at].0) == name || folder == Some(
            normalized(risk_table()[at].0),
        )) && (forall|i: int|
            0 <= i < at ==> normalized((#[trigger] risk_table()[i]).0) != name && folder != Some(
                normalized(risk_table()[i].0),
            )),
        first_match(count, name, folder) is None ==> forall|i: int|
            0 <= i < count ==> normalized((#[trigger] risk_table()[i]).0) != name && folder != Some(
                normalized(risk_table()[i].0),
            ),
    decreases count,
{
    if count == 0 {
        0
    } else {
        let before = the_first_matching_entry_counts((count - 1) as nat, name, folder);
        if first_match((count - 1) as nat, name, folder) is Some {
            before
        } else {
            count - 1
        }
    }
}

/// Reducing a name takes its letters and digits one by one, in lower case, and
/// drops everything else.
pub proof fn names_are_reduced_piece_by_piece(first: Seq<char>, last: Seq<char>)
    ensures
        normalized(first + last) == normalized(first) + normalized(last),
        last.len() == 0 ==> normalized(last).len() == 0,
        last.len() == 1 && is_alphanumeric_char(last[0]) ==> normalized(last) == lower_chars(
            last[0],
        ),
        last.len() == 1 && !is_alphanumeric_char(last[0]) ==> normalized(last).len() == 0,
    decreases last.len(),
{
    if last.len() == 0 {
        assert(first + last =~= first);
        assert(normalized(first) + normalized(last) =~= normalized(first));
    } else {
        let shorter = last.drop_last();
        names_are_reduced_piece_by_piece(first, shorter);
        assert((first + last).drop_last() =~= first + shorter);
        assert((first + last).last() == last.last());
        assert(normalized(first + last) =~= normalized(first) + normalized(last));
        if last.len() == 1 {
            assert(shorter =~= Seq::empty());
            assert(normalized(last) =~= if is_alphanumeric_char(last[0]) {
                lower_chars(last[0])
            } else {
                Seq::empty()
            });
        }
    }
}

/// The risk of a game is looked up by its name and by the last part of its
/// folder, and by nothing else.
pub proof fn risks_go_by_name_and_folder(name: Seq<char>, root: Seq<char>)
    ensures
        game_risk(name, root) == first_match(
            36,
            normalized(name),
            if has_name(root) {
                Some(normalized(readable(last_part(root))))
            } else {
                None
            },
        ),
        risk_table().len() == 36,
{
}

} // verus!
