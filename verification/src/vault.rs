//! The in-memory vault: a flat arena of groups and entries addressed by
//! their stable identifiers.  Every mutation keeps the vault well formed:
//! identifiers stay unique and every entry's group reference names an
//! existing group or the root.

use vstd::prelude::*;
use vstd::string::*;
use crate::errors::VaultError;
use crate::model::{
    entry_views, group_views, PasswordEntry, PasswordEntryV, PasswordGroup, PasswordGroupV,
};
use crate::record::string_eq_str;
use crate::timeid::{uuid_is_valid, uuid_valid};

verus! {

/// The unlocked vault tree, flattened: all groups sit directly under the
/// implicit root, and each entry names its group or sits at the root.
#[derive(Debug)]
pub struct Vault {
    pub groups: Vec<PasswordGroup>,
    pub entries: Vec<PasswordEntry>,
}

#[verifier::ext_equal]
pub struct VaultV {
    pub groups: Seq<PasswordGroupV>,
    pub entries: Seq<PasswordEntryV>,
}

impl View for Vault {
    type V = VaultV;

    open spec fn view(&self) -> VaultV {
        VaultV { groups: group_views(self.groups@), entries: entry_views(self.entries@) }
    }
}

pub open spec fn has_group(v: VaultV, id: Seq<char>) -> bool {
    exists|i: int| 0 <= i < v.groups.len() && (#[trigger] v.groups[i]).id == id
}

pub open spec fn has_entry(v: VaultV, id: Seq<char>) -> bool {
    exists|i: int| 0 <= i < v.entries.len() && (#[trigger] v.entries[i]).id == id
}

/// True when some entry sits directly in the group.
pub open spec fn group_in_use(v: VaultV, id: Seq<char>) -> bool {
    exists|i: int|
        0 <= i < v.entries.len() && (#[trigger] v.entries[i]).group_id == Option::Some(id)
}

/// Well-formedness: unique group identifiers, unique entry identifiers,
/// and every group reference resolving to a stored group.
pub open spec fn wf(v: VaultV) -> bool {
    &&& forall|i: int, j: int|
        0 <= i < j < v.groups.len() ==> (#[trigger] v.groups[i]).id != (#[trigger] v.groups[j]).id
    &&& forall|i: int, j: int|
        0 <= i < j < v.entries.len() ==> (#[trigger] v.entries[i]).id != (
        #[trigger] v.entries[j]).id
    &&& forall|i: int|
        0 <= i < v.entries.len() ==> match (#[trigger] v.entries[i]).group_id {
            Option::Some(g) => has_group(v, g),
            Option::None => true,
        }
}

/// The group reference an entry is stored under: a reference that is not
/// even a well-formed identifier means the root.
pub open spec fn resolved_ref(gid: Option<Seq<char>>) -> Option<Seq<char>> {
    match gid {
        Option::Some(g) => if uuid_valid(g) {
            Option::Some(g)
        } else {
            Option::None
        },
        Option::None => Option::None,
    }
}

/// The entry as stored: its group reference resolved.
pub open spec fn stored_entry(e: PasswordEntryV) -> PasswordEntryV {
    PasswordEntryV { group_id: resolved_ref(e.group_id), ..e }
}

/// The add-entry error condition: a well-formed group reference that names
/// no stored group.
pub open spec fn bad_group_ref(v: VaultV, gid: Option<Seq<char>>) -> bool {
    match gid {
        Option::Some(g) => uuid_valid(g) && !has_group(v, g),
        Option::None => false,
    }
}

impl Vault {
    /// A fresh, empty vault.
    pub fn new() -> (v: Vault)
        ensures
            v@.groups.len() == 0,
            v@.entries.len() == 0,
            wf(v@),
    {
        Vault { groups: Vec::new(), entries: Vec::new() }
    }

    fn find_group_index(&self, id: &str) -> (r: Option<usize>)
        ensures
            match r {
                Option::Some(i) => i < self@.groups.len() && self@.groups[i as int].id == id@,
                Option::None => !has_group(self@, id@),
            },
    {
        let mut i: usize = 0;
        while i < self.groups.len()
            invariant
                i <= self.groups@.len(),
                forall|j: int| 0 <= j < i ==> (#[trigger] self@.groups[j]).id != id@,
            decreases self.groups@.len() - i,
        {
            if string_eq_str(&self.groups[i].id, id) {
                assert(self@.groups[i as int].id == id@);
                return Option::Some(i);
            }
            i = i + 1;
        }
        Option::None
    }

    pub(crate) fn find_entry_index(&self, id: &str) -> (r: Option<usize>)
        ensures
            match r {
                Option::Some(i) => i < self@.entries.len() && self@.entries[i as int].id == id@,
                Option::None => !has_entry(self@, id@),
            },
    {
        let mut i: usize = 0;
        while i < self.entries.len()
            invariant
                i <= self.entries@.len(),
                forall|j: int| 0 <= j < i ==> (#[trigger] self@.entries[j]).id != id@,
            decreases self.entries@.len() - i,
        {
            if string_eq_str(&self.entries[i].id, id) {
                assert(self@.entries[i as int].id == id@);
                return Option::Some(i);
            }
            i = i + 1;
        }
        Option::None
    }

    fn any_entry_in_group(&self, id: &str) -> (r: bool)
        ensures
            r == group_in_use(self@, id@),
    {
        let mut i: usize = 0;
        while i < self.entries.len()
            invariant
                i <= self.entries@.len(),
                forall|j: int|
                    0 <= j < i ==> (#[trigger] self@.entries[j]).group_id != Option::Some(id@),
            decreases self.entries@.len() - i,
        {
            match &self.entries[i].group_id {
                Option::Some(g) => {
                    if string_eq_str(g, id) {
                        assert(self@.entries[i as int].group_id == Option::Some(id@));
                        return true;
                    }
                },
                Option::None => {},
            }
            i = i + 1;
        }
        false
    }

    /// Appends an entry already known fresh and homed at the root: the
    /// building block of the import paths.
    pub(crate) fn push_root_entry(&mut self, e: PasswordEntry)
        requires
            wf(old(self)@),
            !has_entry(old(self)@, e@.id),
            e@.group_id is None,
        ensures
            wf(final(self)@),
            final(self)@.entries == old(self)@.entries.push(e@),
            final(self)@.groups == old(self)@.groups,
    {
        let ghost olde = self@.entries;
        let ghost ev = e@;
        self.entries.push(e);
        proof {
            assert(entry_views(self.entries@) =~= olde.push(ev));
            assert(forall|i: int|
                0 <= i < olde.len() ==> (#[trigger] self@.entries[i]) == olde[i]);
        }
    }

    /// Every stored entry, in storage order.
    pub fn get_all_entries(&self) -> (r: Vec<PasswordEntry>)
        ensures
            r@.len() == self@.entries.len(),
            forall|i: int| 0 <= i < r@.len() ==> (#[trigger] r@[i])@ == self@.entries[i],
    {
        let mut r: Vec<PasswordEntry> = Vec::new();
        let mut i: usize = 0;
        while i < self.entries.len()
            invariant
                i <= self.entries@.len(),
                r@.len() == i,
                forall|j: int| 0 <= j < i ==> (#[trigger] r@[j])@ == self@.entries[j],
            decreases self.entries@.len() - i,
        {
            r.push(self.entries[i].duplicate());
            i = i + 1;
        }
        r
    }

    /// Every stored group, in storage order.
    pub fn get_all_groups(&self) -> (r: Vec<PasswordGroup>)
        ensures
            r@.len() == self@.groups.len(),
            forall|i: int| 0 <= i < r@.len() ==> (#[trigger] r@[i])@ == self@.groups[i],
    {
        let mut r: Vec<PasswordGroup> = Vec::new();
        let mut i: usize = 0;
        while i < self.groups.len()
            invariant
                i <= self.groups@.len(),
                r@.len() == i,
                forall|j: int| 0 <= j < i ==> (#[trigger] r@[j])@ == self@.groups[j],
            decreases self.groups@.len() - i,
        {
            r.push(self.groups[i].duplicate());
            i = i + 1;
        }
        r
    }

    /// Adds a group under the root.  A duplicate identifier is a conflict.
    pub fn add_group(&mut self, g: PasswordGroup) -> (r: Result<PasswordGroup, VaultError>)
        requires
            wf(old(self)@),
        ensures
            wf(final(self)@),
            r is Err <==> has_group(old(self)@, g@.id),
            r matches Err(er) ==> er == VaultError::DuplicateGroup && *final(self) == *old(self),
            r matches Ok(rg) ==> rg@ == g@ && final(self)@.groups == old(self)@.groups.push(g@)
                && final(self)@.entries == old(self)@.entries,
    {
        if let Option::Some(_i) = self.find_group_index(g.id.as_str()) {
            return Result::Err(VaultError::DuplicateGroup);
        }
        let ghost oldg = self@.groups;
        let stored = g.duplicate();
        self.groups.push(stored);
        proof {
            assert(group_views(self.groups@) =~= oldg.push(g@));
            assert(forall|i: int|
                0 <= i < old(self)@.entries.len() ==> match (#[trigger] old(self)@.entries[i]).group_id {
                    Option::Some(gr) => has_group(old(self)@, gr),
                    Option::None => true,
                });
            assert(forall|i: int|
                0 <= i < oldg.len() ==> (#[trigger] final(self)@.groups[i]) == oldg[i]);
            assert(forall|i: int|
                0 <= i < final(self)@.entries.len() ==> match (#[trigger] final(self)@.entries[i]).group_id {
                    Option::Some(gr) => has_group(final(self)@, gr),
                    Option::None => true,
                }) by {
                assert forall|gr: Seq<char>| has_group(old(self)@, gr) implies has_group(
                    final(self)@,
                    gr,
                ) by {
                    let gi = choose|gi: int|
                        0 <= gi < oldg.len() && (#[trigger] oldg[gi]).id == gr;
                    assert(final(self)@.groups[gi].id == gr);
                }
            }
        }
        Result::Ok(g)
    }

    /// Renames a group.  Only the display name has a durable slot, so only
    /// the name changes.
    pub fn update_group(&mut self, g: &PasswordGroup) -> (r: Result<(), VaultError>)
        requires
            wf(old(self)@),
        ensures
            wf(final(self)@),
            r is Err <==> (!uuid_valid(g@.id) || !has_group(old(self)@, g@.id)),
            r matches Err(er) ==> *final(self) == *old(self) && er == (if !uuid_valid(g@.id) {
                VaultError::InvalidId
            } else {
                VaultError::GroupNotFound
            }),
            r matches Ok(u) ==> exists|i: int|
                0 <= i < old(self)@.groups.len() && (#[trigger] old(self)@.groups[i]).id == g@.id
                    && final(self)@.groups == old(self)@.groups.update(
                    i,
                    PasswordGroupV { name: g@.name, ..old(self)@.groups[i] },
                ) && final(self)@.entries == old(self)@.entries,
    {
        if !uuid_is_valid(g.id.as_str()) {
            return Result::Err(VaultError::InvalidId);
        }
        let idx = match self.find_group_index(g.id.as_str()) {
            Option::Some(i) => i,
            Option::None => {
                return Result::Err(VaultError::GroupNotFound);
            },
        };
        let ghost oldv = self@;
        let name = g.name.clone();
        self.groups[idx].name = name;
        proof {
            assert(group_views(self.groups@) =~= oldv.groups.update(
                idx as int,
                PasswordGroupV { name: g@.name, ..oldv.groups[idx as int] },
            ));
            assert(final(self)@.entries =~= oldv.entries);
            assert(forall|i: int|
                0 <= i < final(self)@.groups.len() ==> (#[trigger] final(self)@.groups[i]).id
                    == oldv.groups[i].id);
            assert forall|gr: Seq<char>| has_group(oldv, gr) implies has_group(
                final(self)@,
                gr,
            ) by {
                let gi = choose|gi: int|
                    0 <= gi < oldv.groups.len() && (#[trigger] oldv.groups[gi]).id == gr;
                assert(final(self)@.groups[gi].id == gr);
            }
        }
        Result::Ok(())
    }

    /// Deletes a group.  A group still holding direct entries is a
    /// conflict and nothing changes; deleting an empty group removes it
    /// from the listing.
    pub fn delete_group(&mut self, id: &str) -> (r: Result<(), VaultError>)
        requires
            wf(old(self)@),
        ensures
            wf(final(self)@),
            r is Err <==> (!uuid_valid(id@) || !has_group(old(self)@, id@) || group_in_use(
                old(self)@,
                id@,
            )),
            r matches Err(er) ==> *final(self) == *old(self) && er == (if !uuid_valid(id@) {
                VaultError::InvalidId
            } else if !has_group(old(self)@, id@) {
                VaultError::GroupNotFound
            } else {
                VaultError::GroupNotEmpty
            }),
            r matches Ok(u) ==> exists|i: int|
                0 <= i < old(self)@.groups.len() && (#[trigger] old(self)@.groups[i]).id == id@
                    && final(self)@.groups == old(self)@.groups.remove(i) && final(self)@.entries
                    == old(self)@.entries,
            r is Ok ==> !has_group(final(self)@, id@),
    {
        if !uuid_is_valid(id) {
            return Result::Err(VaultError::InvalidId);
        }
        let idx = match self.find_group_index(id) {
            Option::Some(i) => i,
            Option::None => {
                return Result::Err(VaultError::GroupNotFound);
            },
        };
        if self.any_entry_in_group(id) {
            return Result::Err(VaultError::GroupNotEmpty);
        }
        let ghost oldv = self@;
        self.groups.remove(idx);
        proof {
            assert(group_views(self.groups@) =~= oldv.groups.remove(idx as int));
            assert(final(self)@.entries =~= oldv.entries);
            let newg = final(self)@.groups;
            assert(forall|i: int|
                0 <= i < newg.len() ==> #[trigger] newg[i] == (if i < idx as int {
                    oldv.groups[i]
                } else {
                    oldv.groups[i + 1]
                }));
            assert(!has_group(final(self)@, id@)) by {
                assert(forall|i: int|
                    0 <= i < newg.len() ==> (#[trigger] newg[i]).id != id@);
            }
            assert(forall|i: int|
                0 <= i < final(self)@.entries.len() ==> match (#[trigger] final(self)@.entries[i]).group_id {
                    Option::Some(gr) => has_group(final(self)@, gr),
                    Option::None => true,
                }) by {
                assert forall|i: int|
                    0 <= i < oldv.entries.len() && (#[trigger] oldv.entries[i]).group_id
                        is Some implies has_group(
                    final(self)@,
                    oldv.entries[i].group_id->0,
                ) by {
                    let gr = oldv.entries[i].group_id->0;
                    assert(gr != id@);
                    let j = choose|j: int|
                        0 <= j < oldv.groups.len() && (#[trigger] oldv.groups[j]).id == gr;
                    if j < idx as int {
                        assert(newg[j].id == gr);
                    } else {
                        assert(j != idx as int);
                        assert(newg[j - 1].id == gr);
                    }
                }
            }
        }
        Result::Ok(())
    }

    /// Adds an entry.  A group reference that is a well-formed identifier
    /// must name a stored group; any other reference means the root.
    pub fn add_entry(&mut self, e: PasswordEntry) -> (r: Result<PasswordEntry, VaultError>)
        requires
            wf(old(self)@),
        ensures
            wf(final(self)@),
            r is Err <==> (has_entry(old(self)@, e@.id) || (!has_entry(old(self)@, e@.id)
                && bad_group_ref(old(self)@, e@.group_id))),
            r matches Err(er) ==> *final(self) == *old(self) && er == (if has_entry(
                old(self)@,
                e@.id,
            ) {
                VaultError::DuplicateEntry
            } else {
                VaultError::GroupNotFound
            }),
            r matches Ok(re) ==> re@ == stored_entry(e@) && final(self)@.entries == old(self)@.entries.push(stored_entry(e@)) && final(self)@.groups == old(self)@.groups,
    {
        if let Option::Some(_i) = self.find_entry_index(e.id.as_str()) {
            return Result::Err(VaultError::DuplicateEntry);
        }
        let resolved: Option<String> = match &e.group_id {
            Option::Some(g) => {
                if uuid_is_valid(g.as_str()) {
                    match self.find_group_index(g.as_str()) {
                        Option::Some(_j) => Option::Some(g.clone()),
                        Option::None => {
                            return Result::Err(VaultError::GroupNotFound);
                        },
                    }
                } else {
                    Option::None
                }
            },
            Option::None => Option::None,
        };
        let mut stored = e;
        stored.group_id = resolved;
        let ghost olde = self@.entries;
        let copy = stored.duplicate();
        self.entries.push(copy);
        proof {
            assert(entry_views(self.entries@) =~= olde.push(stored@));
            assert(forall|i: int|
                0 <= i < olde.len() ==> (#[trigger] final(self)@.entries[i]) == olde[i]);
            match stored@.group_id {
                Option::Some(gr) => {
                    assert(has_group(final(self)@, gr));
                },
                Option::None => {},
            }
        }
        Result::Ok(stored)
    }

    /// Replaces the entry carrying the same identifier: an atomic remove
    /// and reinsert, re-homed under the (resolved) target group.  The
    /// target is checked before anything is removed.
    pub fn update_entry(&mut self, e: PasswordEntry) -> (r: Result<(), VaultError>)
        requires
            wf(old(self)@),
        ensures
            wf(final(self)@),
            r is Err <==> (!uuid_valid(e@.id) || !has_entry(old(self)@, e@.id) || bad_group_ref(
                old(self)@,
                e@.group_id,
            )),
            r matches Err(er) ==> *final(self) == *old(self) && er == (if !uuid_valid(e@.id) {
                VaultError::InvalidId
            } else if !has_entry(old(self)@, e@.id) {
                VaultError::EntryNotFound
            } else {
                VaultError::GroupNotFound
            }),
            r matches Ok(u) ==> exists|i: int|
                0 <= i < old(self)@.entries.len() && (#[trigger] old(self)@.entries[i]).id == e@.id
                    && final(self)@.entries == old(self)@.entries.remove(i).push(stored_entry(e@))
                    && final(self)@.groups == old(self)@.groups,
    {
        if !uuid_is_valid(e.id.as_str()) {
            return Result::Err(VaultError::InvalidId);
        }
        let idx = match self.find_entry_index(e.id.as_str()) {
            Option::Some(i) => i,
            Option::None => {
                return Result::Err(VaultError::EntryNotFound);
            },
        };
        let resolved: Option<String> = match &e.group_id {
            Option::Some(g) => {
                if uuid_is_valid(g.as_str()) {
                    match self.find_group_index(g.as_str()) {
                        Option::Some(_j) => Option::Some(g.clone()),
                        Option::None => {
                            return Result::Err(VaultError::GroupNotFound);
                        },
                    }
                } else {
                    Option::None
                }
            },
            Option::None => Option::None,
        };
        let mut stored = e;
        stored.group_id = resolved;
        let ghost oldv = self@;
        self.entries.remove(idx);
        proof {
            assert(entry_views(self.entries@) =~= oldv.entries.remove(idx as int));
        }
        let ghost mid = entry_views(self.entries@);
        self.entries.push(stored);
        proof {
            assert(entry_views(self.entries@) =~= mid.push(stored@));
            assert(forall|i: int|
                0 <= i < mid.len() ==> #[trigger] mid[i] == (if i < idx as int {
                    oldv.entries[i]
                } else {
                    oldv.entries[i + 1]
                }));
            assert(forall|i: int| 0 <= i < mid.len() ==> (#[trigger] mid[i]).id != e@.id) by {
                assert(oldv.entries[idx as int].id == e@.id);
            }
            assert(forall|gr: Seq<char>| has_group(oldv, gr) ==> has_group(final(self)@, gr));
            match stored@.group_id {
                Option::Some(gr) => {
                    assert(has_group(final(self)@, gr));
                },
                Option::None => {},
            }
        }
        Result::Ok(())
    }

    /// Deletes the entry carrying the identifier.
    pub fn delete_entry(&mut self, id: &str) -> (r: Result<(), VaultError>)
        requires
            wf(old(self)@),
        ensures
            wf(final(self)@),
            r is Err <==> (!uuid_valid(id@) || !has_entry(old(self)@, id@)),
            r matches Err(er) ==> *final(self) == *old(self) && er == (if !uuid_valid(id@) {
                VaultError::InvalidId
            } else {
                VaultError::EntryNotFound
            }),
            r matches Ok(u) ==> exists|i: int|
                0 <= i < old(self)@.entries.len() && (#[trigger] old(self)@.entries[i]).id == id@
                    && final(self)@.entries == old(self)@.entries.remove(i) && final(self)@.groups
                    == old(self)@.groups,
            r is Ok ==> !has_entry(final(self)@, id@),
    {
        if !uuid_is_valid(id) {
            return Result::Err(VaultError::InvalidId);
        }
        let idx = match self.find_entry_index(id) {
            Option::Some(i) => i,
            Option::None => {
                return Result::Err(VaultError::EntryNotFound);
            },
        };
        let ghost oldv = self@;
        self.entries.remove(idx);
        proof {
            assert(entry_views(self.entries@) =~= oldv.entries.remove(idx as int));
            let newe = final(self)@.entries;
            assert(forall|i: int|
                0 <= i < newe.len() ==> #[trigger] newe[i] == (if i < idx as int {
                    oldv.entries[i]
                } else {
                    oldv.entries[i + 1]
                }));
            assert(!has_entry(final(self)@, id@)) by {
                assert(forall|i: int|
                    0 <= i < newe.len() ==> (#[trigger] newe[i]).id != id@);
            }
            assert(forall|gr: Seq<char>| has_group(oldv, gr) ==> has_group(final(self)@, gr));
        }
        Result::Ok(())
    }
}

// ------------------------------------------------------------------
// Importing entries from another container
// ------------------------------------------------------------------

pub open spec fn has_entry_id_seq(es: Seq<PasswordEntryV>, id: Seq<char>) -> bool {
    exists|i: int| 0 <= i < es.len() && (#[trigger] es[i]).id == id
}

/// An imported entry as stored: re-homed to the root, renumbered.
pub open spec fn import_adjusted(e: PasswordEntryV, n: i64) -> PasswordEntryV {
    PasswordEntryV { group_id: Option::None, sort_order: Option::Some(n), ..e }
}

/// The import fold: each incoming entry whose identifier is not yet
/// present is appended, re-homed to the root and renumbered in arrival
/// order; the rest are skipped.
pub open spec fn import_fold(cur: Seq<PasswordEntryV>, added: int, inc: Seq<PasswordEntryV>) -> (
    Seq<PasswordEntryV>,
    int,
)
    decreases inc.len(),
{
    if inc.len() == 0 {
        (cur, added)
    } else if has_entry_id_seq(cur, inc[0].id) {
        import_fold(cur, added, inc.drop_first())
    } else {
        import_fold(cur.push(import_adjusted(inc[0], added as i64)), added + 1, inc.drop_first())
    }
}

impl Vault {
    /// Merges entries read out of another container: entries whose
    /// identifier already exists are skipped, the rest are appended at the
    /// root with fresh sort keys.  Returns how many were added.
    pub fn import_entries(&mut self, incoming: &Vec<PasswordEntry>) -> (count: usize)
        requires
            wf(old(self)@),
            old(self)@.entries.len() + incoming@.len() <= 0x7fff_ffff_ffff_ffff,
        ensures
            wf(final(self)@),
            final(self)@.groups == old(self)@.groups,
            ({
                let folded = import_fold(old(self)@.entries, 0, entry_views(incoming@));
                final(self)@.entries == folded.0 && count == folded.1
            }),
    {
        let ghost inc_all = entry_views(incoming@);
        let ghost goal = import_fold(old(self)@.entries, 0, inc_all);
        let mut count: usize = 0;
        let mut i: usize = 0;
        proof {
            assert(inc_all.skip(0) =~= inc_all);
        }
        while i < incoming.len()
            invariant
                wf(old(self)@),
                i <= incoming@.len(),
                count <= old(self)@.entries.len() + i,
                old(self)@.entries.len() + incoming@.len() <= 0x7fff_ffff_ffff_ffff,
                inc_all == entry_views(incoming@),
                wf(self@),
                self@.groups == old(self)@.groups,
                self@.entries.len() == old(self)@.entries.len() + count,
                goal == import_fold(self@.entries, count as int, inc_all.skip(i as int)),
                goal == import_fold(old(self)@.entries, 0, inc_all),
            decreases incoming@.len() - i,
        {
            proof {
                assert(inc_all.skip(i as int)[0] == incoming@[i as int]@);
                assert(inc_all.skip(i as int).drop_first() =~= inc_all.skip(i + 1));
            }
            let exists_already = match self.find_entry_index(incoming[i].id.as_str()) {
                Option::Some(_j) => true,
                Option::None => false,
            };
            if !exists_already {
                let mut e = incoming[i].duplicate();
                e.group_id = Option::None;
                e.sort_order = Option::Some(count as i64);
                let ghost olde = self@.entries;
                proof {
                    assert(e@ == import_adjusted(incoming@[i as int]@, count as i64));
                }
                self.entries.push(e);
                proof {
                    assert(entry_views(self.entries@) =~= olde.push(
                        import_adjusted(incoming@[i as int]@, count as i64),
                    ));
                    assert(forall|j: int|
                        0 <= j < olde.len() ==> (#[trigger] self@.entries[j]) == olde[j]);
                    assert forall|gi: int|
                        0 <= gi < self@.entries.len() && (#[trigger] self@.entries[gi]).group_id
                            is Some implies has_group(self@, self@.entries[gi].group_id->0) by {
                        assert(gi < olde.len());
                    }
                }
                let l = self.entries.len();
                assert(count < l);
                count = count + 1;
            }
            i = i + 1;
        }
        proof {
            assert(inc_all.skip(inc_all.len() as int) =~= Seq::<PasswordEntryV>::empty());
        }
        count
    }
}

// ------------------------------------------------------------------
// The unlocked session
// ------------------------------------------------------------------

/// An unlocked vault together with the passphrase that keys it.
#[derive(Debug)]
pub struct VaultSession {
    pub vault: Vault,
    pub master_password: String,
}

impl VaultSession {
    /// Opens a session over an unlocked vault.
    pub fn new(vault: Vault, master_password: String) -> (s: VaultSession)
        ensures
            s.vault == vault,
            s.master_password@ == master_password@,
    {
        VaultSession { vault, master_password }
    }

    /// Changes the passphrase that keys the vault.  The old passphrase
    /// must match; the stored tree is untouched either way.
    pub fn change_master_password(&mut self, old_password: &str, new_password: &str) -> (r:
        Result<(), VaultError>)
        ensures
            final(self).vault == old(self).vault,
            r is Err <==> old_password@ != old(self).master_password@,
            r matches Err(er) ==> er == VaultError::InvalidOldPassword && final(
                self).master_password == old(self).master_password,
            r is Ok ==> final(self).master_password@ == new_password@,
    {
        if !string_eq_str(&self.master_password, old_password) {
            return Result::Err(VaultError::InvalidOldPassword);
        }
        self.master_password = new_password.to_owned();
        Result::Ok(())
    }
}

} // verus!
