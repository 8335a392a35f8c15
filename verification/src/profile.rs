//! What the user staged for each installed DLL.

use crate::lists::{picks, picks_grow, picks_nothing};
use crate::model::{DesiredDll, DllInstallation, DllInstallationId};
use crate::order::{
    chars_precede, code_points, precedes, precedes_is_irreflexive, precedes_is_total,
    precedes_is_transitive,
};
use crate::text::chars_of;
use vstd::prelude::*;

verus! {

/// One staged choice.
#[derive(Debug, PartialEq, Eq)]
pub struct ProfileEntry {
    pub id: DllInstallationId,
    pub desired: DesiredDll,
}

impl Clone for ProfileEntry {
    fn clone(&self) -> (copy: ProfileEntry)
        ensures
            copy == *self,
    {
        ProfileEntry { id: self.id.clone(), desired: self.desired.clone() }
    }
}

/// The staged choices, at most one for an installation, in the order of the
/// identifiers.
#[derive(Debug, PartialEq, Eq)]
pub struct TargetProfile {
    pub targets: Vec<ProfileEntry>,
}

/// Whether one entry comes before another.
pub open spec fn entry_less(left: ProfileEntry, right: ProfileEntry) -> bool {
    precedes(code_points(left.id@), code_points(right.id@))
}

/// Whether entries are in strictly ascending order of their identifiers.
pub open spec fn ascending(entries: Seq<ProfileEntry>) -> bool {
    forall|i: int, j: int|
        0 <= i < j < entries.len() ==> entry_less(#[trigger] entries[i], #[trigger] entries[j])
}

/// What is staged for `id`.
pub open spec fn staged_for(entries: Seq<ProfileEntry>, id: Seq<char>) -> Option<DesiredDll>
    decreases entries.len(),
{
    if entries.len() == 0 {
        None
    } else if entries.last().id@ == id {
        Some(entries.last().desired)
    } else {
        staged_for(entries.drop_last(), id)
    }
}

/// The entries whose identifier is in `ids`, in their order.
pub open spec fn only_listed(entries: Seq<ProfileEntry>, ids: Set<Seq<char>>) -> Seq<ProfileEntry>
    decreases entries.len(),
{
    if entries.len() == 0 {
        entries
    } else if ids.contains(entries.last().id@) {
        only_listed(entries.drop_last(), ids).push(entries.last())
    } else {
        only_listed(entries.drop_last(), ids)
    }
}

/// Whether a list holds the identifier of an installation.
pub open spec fn holds_installation(ids: Seq<DllInstallationId>, id: Seq<char>) -> bool {
    exists|i: int| 0 <= i < ids.len() && (#[trigger] ids[i])@ == id
}

/// The identifiers of a list.
pub open spec fn id_set(ids: Seq<DllInstallationId>) -> Set<Seq<char>> {
    Set::new(|id: Seq<char>| holds_installation(ids, id))
}

/// The identifiers of `dlls`, in their order.
pub open spec fn ids_of(dlls: Seq<DllInstallation>) -> Seq<DllInstallationId> {
    dlls.map_values(|dll: DllInstallation| dll.id)
}

/// The identifiers of `dlls`, in their order.
pub fn installation_ids(dlls: &[DllInstallation]) -> (ids: Vec<DllInstallationId>)
    ensures
        ids@ == ids_of(dlls@),
{
    let mut ids: Vec<DllInstallationId> = Vec::new();
    let mut at: usize = 0;
    while at < dlls.len()
        invariant
            at <= dlls@.len(),
            ids@ == ids_of(dlls@).take(at as int),
        decreases dlls@.len() - at,
    {
        ids.push(dlls[at].id.clone());
        at += 1;
        proof {
            assert(ids@ =~= ids_of(dlls@).take(at as int));
        }
    }
    proof {
        assert(ids_of(dlls@).take(at as int) =~= ids_of(dlls@));
    }
    ids
}

/// Decides [`holds_installation`].
pub fn contains_installation(ids: &[DllInstallationId], id: &DllInstallationId) -> (found: bool)
    ensures
        found == holds_installation(ids@, id@),
{
    let mut at: usize = 0;
    while at < ids.len()
        invariant
            at <= ids@.len(),
            forall|i: int| 0 <= i < at ==> (#[trigger] ids@[i])@ != id@,
        decreases ids@.len() - at,
    {
        if ids[at].same(id) {
            return true;
        }
        at += 1;
    }
    false
}

/// Leaving entries out keeps the others in order, and what is staged by them.
pub proof fn listed_entries_stay(entries: Seq<ProfileEntry>, ids: Set<Seq<char>>)
    ensures
        ascending(entries) ==> ascending(only_listed(entries, ids)),
        forall|id: Seq<char>|
            #[trigger] staged_for(only_listed(entries, ids), id) == if ids.contains(id) {
                staged_for(entries, id)
            } else {
                None
            },
    decreases entries.len(),
{
    if entries.len() > 0 {
        let shorter = entries.drop_last();
        listed_entries_stay(shorter, ids);
        let kept = only_listed(entries, ids);
        let before = only_listed(shorter, ids);
        if ascending(entries) {
            assert(ascending(shorter)) by {
                assert forall|i: int, j: int| 0 <= i < j < shorter.len() implies entry_less(
                    #[trigger] shorter[i],
                    #[trigger] shorter[j],
                ) by {
                    assert(shorter[i] == entries[i] && shorter[j] == entries[j]);
                }
            }
            if ids.contains(entries.last().id@) {
                assert forall|i: int, j: int| 0 <= i < j < kept.len() implies entry_less(
                    #[trigger] kept[i],
                    #[trigger] kept[j],
                ) by {
                    if j < before.len() {
                        assert(kept[i] == before[i] && kept[j] == before[j]);
                    } else {
                        assert(kept[i] == before[i]);
                        kept_entry_is_given(shorter, ids, i);
                        let k = choose|k: int| 0 <= k < shorter.len() && shorter[k] == before[i];
                        assert(entries[k] == kept[i]);
                        assert(entry_less(entries[k], entries[entries.len() - 1]));
                    }
                }
            }
        }
        assert forall|id: Seq<char>| #[trigger] staged_for(kept, id) == if ids.contains(id) {
            staged_for(entries, id)
        } else {
            None
        } by {
            assert(staged_for(before, id) == if ids.contains(id) {
                staged_for(shorter, id)
            } else {
                None
            });
            if ids.contains(entries.last().id@) {
                assert(kept.drop_last() =~= before);
            }
        }
    }
}

proof fn kept_entry_is_given(entries: Seq<ProfileEntry>, ids: Set<Seq<char>>, at: int)
    requires
        0 <= at < only_listed(entries, ids).len(),
    ensures
        exists|k: int| 0 <= k < entries.len() && entries[k] == only_listed(entries, ids)[at],
    decreases entries.len(),
{
    let shorter = entries.drop_last();
    if at < only_listed(shorter, ids).len() {
        kept_entry_is_given(shorter, ids, at);
        let k = choose|k: int| 0 <= k < shorter.len() && shorter[k] == only_listed(shorter, ids)[at];
        assert(entries[k] == only_listed(entries, ids)[at]);
    } else {
        assert(entries[entries.len() - 1] == only_listed(entries, ids)[at]);
    }
}

impl TargetProfile {
    /// Whether each installation has at most one choice and the choices are in
    /// order.
    pub open spec fn well_formed(&self) -> bool {
        ascending(self.targets@)
    }

    /// What is staged for `id`.
    pub open spec fn staged(&self, id: Seq<char>) -> Option<DesiredDll> {
        staged_for(self.targets@, id)
    }
}

proof fn staged_for_absent(entries: Seq<ProfileEntry>, id: Seq<char>)
    requires
        forall|i: int| 0 <= i < entries.len() ==> (#[trigger] entries[i]).id@ != id,
    ensures
        staged_for(entries, id) is None,
    decreases entries.len(),
{
    if entries.len() > 0 {
        staged_for_absent(entries.drop_last(), id);
    }
}

proof fn staged_for_at(entries: Seq<ProfileEntry>, at: int)
    requires
        ascending(entries),
        0 <= at < entries.len(),
    ensures
        staged_for(entries, entries[at].id@) == Some(entries[at].desired),
    decreases entries.len(),
{
    if at < entries.len() - 1 {
        assert(entry_less(entries[at], entries[entries.len() - 1]));
        precedes_is_irreflexive(code_points(entries[at].id@));
        assert(entries.drop_last()[at] == entries[at]);
        staged_for_at(entries.drop_last(), at);
    }
}

/// Two lists that agree on an identifier's entries stage the same for it.
proof fn staged_for_insert(
    entries: Seq<ProfileEntry>,
    at: int,
    entry: ProfileEntry,
    other: Seq<char>,
)
    requires
        0 <= at <= entries.len(),
        other != entry.id@,
    ensures
        staged_for(entries.insert(at, entry), other) == staged_for(entries, other),
    decreases entries.len(),
{
    let more = entries.insert(at, entry);
    if at == entries.len() {
        assert(more.drop_last() =~= entries);
    } else {
        assert(more.drop_last() =~= entries.drop_last().insert(at, entry));
        assert(more.last() == entries.last());
        staged_for_insert(entries.drop_last(), at, entry, other);
    }
}

impl TargetProfile {
    /// A profile in which nothing is staged.
    pub fn new() -> (profile: TargetProfile)
        ensures
            profile.well_formed(),
            profile.targets.len() == 0,
    {
        TargetProfile { targets: Vec::new() }
    }

    /// What is staged for `id`.
    pub fn get(&self, id: &DllInstallationId) -> (desired: Option<&DesiredDll>)
        ensures
            match desired {
                Some(desired) => self.staged(id@) == Some(*desired),
                None => self.staged(id@) is None,
            },
    {
        let mut left: usize = self.targets.len();
        proof {
            assert(self.targets@.take(left as int) =~= self.targets@);
        }
        while left > 0
            invariant
                left <= self.targets.len(),
                staged_for(self.targets@, id@) == staged_for(self.targets@.take(left as int), id@),
            decreases left,
        {
            proof {
                assert(self.targets@.take(left as int).drop_last() =~= self.targets@.take(
                    left - 1,
                ));
            }
            if self.targets[left - 1].id.same(id) {
                return Some(&self.targets[left - 1].desired);
            }
            left -= 1;
        }
        None
    }

    /// The position of the first entry that does not come before `id`.
    fn place_of(&self, id: &DllInstallationId) -> (place: usize)
        requires
            self.well_formed(),
        ensures
            place <= self.targets.len(),
            forall|i: int|
                0 <= i < place ==> precedes(
                    code_points((#[trigger] self.targets@[i]).id@),
                    code_points(id@),
                ),
            forall|i: int|
                place <= i < self.targets.len() ==> !precedes(
                    code_points((#[trigger] self.targets@[i]).id@),
                    code_points(id@),
                ),
    {
        let wanted = chars_of(&id.0);
        let mut place: usize = 0;
        while place < self.targets.len()
            invariant_except_break
                forall|i: int|
                    0 <= i < place ==> precedes(
                        code_points((#[trigger] self.targets@[i]).id@),
                        code_points(id@),
                    ),
            invariant
                place <= self.targets.len(),
                wanted@ == id@,
                self.well_formed(),
            ensures
                forall|i: int|
                    0 <= i < place ==> precedes(
                        code_points((#[trigger] self.targets@[i]).id@),
                        code_points(id@),
                    ),
                place < self.targets.len() ==> !precedes(
                    code_points(self.targets@[place as int].id@),
                    code_points(id@),
                ),
            decreases self.targets.len() - place,
        {
            let here = chars_of(&self.targets[place].id.0);
            if !chars_precede(&here, &wanted) {
                break;
            }
            place += 1;
        }
        proof {
            assert forall|i: int| place <= i < self.targets.len() implies !precedes(
                code_points((#[trigger] self.targets@[i]).id@),
                code_points(id@),
            ) by {
                let first = code_points(self.targets@[place as int].id@);
                let later = code_points(self.targets@[i].id@);
                if place < i && precedes(later, code_points(id@)) {
                    assert(entry_less(self.targets@[place as int], self.targets@[i]));
                    precedes_is_transitive(first, later, code_points(id@));
                }
            }
        }
        place
    }

    /// The choices for the installations in `ids`, or for all others.
    pub fn part(&self, ids: &[DllInstallationId], listed: bool) -> (profile: TargetProfile)
        ensures
            profile.targets@ == only_listed(
                self.targets@,
                if listed {
                    id_set(ids@)
                } else {
                    id_set(ids@).complement()
                },
            ),
            self.well_formed() ==> profile.well_formed(),
            forall|id: Seq<char>|
                #[trigger] profile.staged(id) == if holds_installation(ids@, id) == listed {
                    self.staged(id)
                } else {
                    None
                },
    {
        let ghost chosen = if listed {
            id_set(ids@)
        } else {
            id_set(ids@).complement()
        };
        let mut targets: Vec<ProfileEntry> = Vec::new();
        let mut at: usize = 0;
        while at < self.targets.len()
            invariant
                at <= self.targets.len(),
                chosen == (if listed {
                    id_set(ids@)
                } else {
                    id_set(ids@).complement()
                }),
                targets@ == only_listed(self.targets@.take(at as int), chosen),
            decreases self.targets.len() - at,
        {
            proof {
                assert(self.targets@.take(at + 1).drop_last() =~= self.targets@.take(at as int));
            }
            if contains_installation(ids, &self.targets[at].id) == listed {
                targets.push(self.targets[at].clone());
            }
            at += 1;
        }
        proof {
            assert(self.targets@.take(at as int) =~= self.targets@);
            listed_entries_stay(self.targets@, chosen);
        }
        TargetProfile { targets }
    }

    /// Stages `desired` for `id`, in place of what was staged before.
    pub fn insert(&mut self, id: DllInstallationId, desired: DesiredDll)
        requires
            old(self).well_formed(),
        ensures
            final(self).well_formed(),
            final(self).staged(id@) == Some(desired),
            forall|other: Seq<char>|
                other != id@ ==> #[trigger] final(self).staged(other) == old(self).staged(other),
    {
        let place = self.place_of(&id);
        let ghost before = self.targets@;
        let ghost key = code_points(id@);
        let entry = ProfileEntry { id, desired };
        let replaces = place < self.targets.len() && self.targets[place].id.same(&entry.id);
        if replaces {
            self.targets.set(place, entry);
            proof {
                let after = self.targets@;
                assert forall|i: int, j: int| 0 <= i < j < after.len() implies entry_less(
                    #[trigger] after[i],
                    #[trigger] after[j],
                ) by {
                    assert(entry_less(before[i], before[j]));
                    assert(after[i].id@ == before[i].id@);
                    assert(after[j].id@ == before[j].id@);
                }
                staged_for_at(after, place as int);
                assert forall|other: Seq<char>| other != id@ implies #[trigger] staged_for(
                    after,
                    other,
                ) == staged_for(before, other) by {
                    staged_for_update(before, place as int, entry, other);
                }
            }
        } else {
            self.targets.insert(place, entry);
            proof {
                let after = self.targets@;
                assert forall|i: int, j: int| 0 <= i < j < after.len() implies entry_less(
                    #[trigger] after[i],
                    #[trigger] after[j],
                ) by {
                    if i < place && place < j {
                        assert(after[i] == before[i] && after[j] == before[j - 1]);
                        assert(entry_less(before[i], before[j - 1]));
                    } else if i < place && j < place {
                        assert(entry_less(before[i], before[j]));
                    } else if place < i {
                        assert(entry_less(before[i - 1], before[j - 1]));
                    } else if i == place {
                        assert(after[j] == before[j - 1]);
                        precedes_is_total(code_points(before[j - 1].id@), key);
                        if code_points(before[j - 1].id@) == key {
                            crate::order::equal_code_points(before[j - 1].id@, id@);
                            if j - 1 > place {
                                assert(entry_less(before[place as int], before[j - 1]));
                            }
                        }
                    }
                }
                staged_for_at(after, place as int);
                assert forall|other: Seq<char>| other != id@ implies #[trigger] staged_for(
                    after,
                    other,
                ) == staged_for(before, other) by {
                    staged_for_insert(before, place as int, entry, other);
                }
            }
        }
    }

    /// Unstages what was staged for `id`.
    pub fn remove(&mut self, id: &DllInstallationId)
        requires
            old(self).well_formed(),
        ensures
            final(self).well_formed(),
            final(self).staged(id@) is None,
            forall|other: Seq<char>|
                other != id@ ==> #[trigger] final(self).staged(other) == old(self).staged(other),
    {
        let place = self.place_of(id);
        let ghost before = self.targets@;
        if place < self.targets.len() && self.targets[place].id.same(id) {
            let removed = self.targets.remove(place);
            proof {
                let after = self.targets@;
                assert(after.insert(place as int, removed) =~= before);
                assert forall|i: int, j: int| 0 <= i < j < after.len() implies entry_less(
                    #[trigger] after[i],
                    #[trigger] after[j],
                ) by {
                    let from = if i < place { i } else { i + 1 };
                    let to = if j < place { j } else { j + 1 };
                    assert(after[i] == before[from] && after[j] == before[to]);
                    assert(entry_less(before[from], before[to]));
                }
                assert forall|i: int| 0 <= i < after.len() implies (#[trigger] after[i]).id@
                    != id@ by {
                    let from = if i < place { i } else { i + 1 };
                    assert(after[i] == before[from]);
                    if i < place {
                        assert(entry_less(before[from], before[place as int]));
                    } else {
                        assert(entry_less(before[place as int], before[from]));
                    }
                    precedes_is_irreflexive(code_points(id@));
                }
                staged_for_absent(after, id@);
                assert forall|other: Seq<char>| other != id@ implies #[trigger] staged_for(
                    after,
                    other,
                ) == staged_for(before, other) by {
                    staged_for_insert(after, place as int, removed, other);
                }
            }
        } else {
            proof {
                assert forall|i: int| 0 <= i < before.len() implies (#[trigger] before[i]).id@
                    != id@ by {
                    precedes_is_irreflexive(code_points(id@));
                    if before[i].id@ == id@ && i > place {
                        assert(entry_less(before[place as int], before[i]));
                    }
                }
                staged_for_absent(before, id@);
            }
        }
    }
}

proof fn staged_for_update(
    entries: Seq<ProfileEntry>,
    at: int,
    entry: ProfileEntry,
    other: Seq<char>,
)
    requires
        0 <= at < entries.len(),
        entries[at].id@ == entry.id@,
        other != entry.id@,
    ensures
        staged_for(entries.update(at, entry), other) == staged_for(entries, other),
    decreases entries.len(),
{
    let changed = entries.update(at, entry);
    if at == entries.len() - 1 {
        assert(changed.drop_last() =~= entries.drop_last());
    } else {
        assert(changed.drop_last() =~= entries.drop_last().update(at, entry));
        staged_for_update(entries.drop_last(), at, entry, other);
    }
}

/// What is staged for an installation is what the profile has for it, and
/// nothing where it has none.
pub proof fn staged_choices_are_listed(profile: TargetProfile, id: Seq<char>) -> (at: int)
    requires
        profile.well_formed(),
    ensures
        profile.staged(id) is Some ==> 0 <= at < profile.targets@.len() && profile.targets@[at].id@
            == id && profile.staged(id) == Some(profile.targets@[at].desired),
        profile.staged(id) is None ==> forall|i: int|
            0 <= i < profile.targets@.len() ==> (#[trigger] profile.targets@[i]).id@ != id,
        forall|i: int|
            0 <= i < profile.targets@.len() && (#[trigger] profile.targets@[i]).id@ == id
                ==> profile.staged(id) == Some(profile.targets@[i].desired),
{
    let entries = profile.targets@;
    if exists|i: int| 0 <= i < entries.len() && (#[trigger] entries[i]).id@ == id {
        let at = choose|i: int| 0 <= i < entries.len() && (#[trigger] entries[i]).id@ == id;
        assert forall|i: int| 0 <= i < entries.len() && (#[trigger] entries[i]).id@
            == id implies profile.staged(id) == Some(entries[i].desired) by {
            staged_for_at(entries, i);
        }
        staged_for_at(entries, at);
        at
    } else {
        staged_for_absent(entries, id);
        0
    }
}

/// Leaving out the entries of other installations keeps exactly the entries
/// whose identifier is listed, in their order.
pub proof fn every_listed_entry_stays(
    entries: Seq<ProfileEntry>,
    ids: Set<Seq<char>>,
) -> (kept: Seq<int>)
    ensures
        picks(kept, entries.len() as int, |i: int| ids.contains(entries[i].id@)),
        only_listed(entries, ids).len() == kept.len(),
        forall|k: int|
            #![trigger only_listed(entries, ids)[k]]
            0 <= k < kept.len() ==> only_listed(entries, ids)[k] == entries[kept[k]],
    decreases entries.len(),
{
    let here = |i: int| ids.contains(entries[i].id@);
    if entries.len() == 0 {
        picks_nothing(here);
        Seq::empty()
    } else {
        let shorter = entries.drop_last();
        let before = every_listed_entry_stays(shorter, ids);
        picks_grow(before, shorter.len() as int, |i: int| ids.contains(shorter[i].id@), here)
    }
}

} // verus!
