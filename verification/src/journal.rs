//! The journal store and its three operations.
//!
//! The store models the records the host runtime keeps alive for this
//! program: at most one record per (owner, title) pair, since a record's
//! address is derived from exactly those two values. Its mathematical
//! view is a map from that pair to the stored message, and every
//! operation's contract is stated over that map.
//!
//! The host runtime authenticates the calling identity before a handler
//! runs; the context types below carry that already-verified identity.
//! Ownership is enforced by addressing alone: an update or delete by an
//! identity other than the creator derives an address that holds no
//! record, and is rejected.

use vstd::prelude::*;

use crate::state::JournalEntryState;
use crate::state::JournalError;
use crate::state::Pubkey;
use crate::state::bytes_eq;
use crate::state::make_journal_entry;
use crate::state::message_fits;
use crate::state::pubkey_eq;
use crate::state::replace_message;
use crate::state::title_fits;

verus! {

/// The mathematical content of a journal store: which (owner, title)
/// pairs hold a record, and the message each record carries.
pub type JournalMap = Map<(Seq<u8>, Seq<u8>), Seq<u8>>;

/// The accounts resolved for a create call: the signing identity that
/// will own the new record and pay for its storage.
pub struct CreateJournalEntry {
    pub owner: Pubkey,
}

/// The accounts resolved for an update call: the signing identity under
/// which the record's address is derived.
pub struct UpdateJournalEntry {
    pub owner: Pubkey,
}

/// The accounts resolved for a delete call: the signing identity under
/// which the record's address is derived, and to which its storage
/// balance returns.
pub struct DeleteJournalEntry {
    pub owner: Pubkey,
}

/// The message stored for (owner, title), if a record lives there.
pub open spec fn lookup(m: JournalMap, owner: Seq<u8>, title: Seq<u8>) -> Option<Seq<u8>> {
    if m.contains_key((owner, title)) {
        Some(m[(owner, title)])
    } else {
        None
    }
}

/// A create call goes through exactly when both texts fit their bounds
/// and no record lives at the derived address yet.
pub open spec fn create_accepted(
    m: JournalMap,
    owner: Seq<u8>,
    title: Seq<u8>,
    message: Seq<u8>,
) -> bool {
    title_fits(title) && message_fits(message) && !m.contains_key((owner, title))
}

/// The store after a successful create: one new record, holding the
/// message supplied by the caller.
pub open spec fn create_effect(
    m: JournalMap,
    owner: Seq<u8>,
    title: Seq<u8>,
    message: Seq<u8>,
) -> JournalMap {
    m.insert((owner, title), message)
}

/// The error a rejected create reports: an oversized title first, then
/// an oversized message, then an occupied address.
pub open spec fn create_rejection(
    m: JournalMap,
    owner: Seq<u8>,
    title: Seq<u8>,
    message: Seq<u8>,
) -> JournalError {
    if !title_fits(title) {
        JournalError::TitleTooLong
    } else if !message_fits(message) {
        JournalError::MessageTooLong
    } else {
        JournalError::DuplicateEntry
    }
}

/// An update call goes through exactly when a record lives at the
/// derived address and the new message fits its bound.
pub open spec fn update_accepted(
    m: JournalMap,
    owner: Seq<u8>,
    title: Seq<u8>,
    message: Seq<u8>,
) -> bool {
    m.contains_key((owner, title)) && message_fits(message)
}

/// The store after a successful update: the same records, with the
/// message at (owner, title) replaced.
pub open spec fn update_effect(
    m: JournalMap,
    owner: Seq<u8>,
    title: Seq<u8>,
    message: Seq<u8>,
) -> JournalMap {
    m.insert((owner, title), message)
}

/// The error a rejected update reports. The host resolves the record's
/// address before the handler runs, so a missing record is reported
/// ahead of an oversized message.
pub open spec fn update_rejection(
    m: JournalMap,
    owner: Seq<u8>,
    title: Seq<u8>,
    message: Seq<u8>,
) -> JournalError {
    if !m.contains_key((owner, title)) {
        JournalError::EntryNotFound
    } else {
        JournalError::MessageTooLong
    }
}

/// A delete call goes through exactly when a record lives at the
/// derived address.
pub open spec fn delete_accepted(m: JournalMap, owner: Seq<u8>, title: Seq<u8>) -> bool {
    m.contains_key((owner, title))
}

/// The store after a successful delete: the record at (owner, title) is
/// gone; every other record is untouched.
pub open spec fn delete_effect(m: JournalMap, owner: Seq<u8>, title: Seq<u8>) -> JournalMap {
    m.remove((owner, title))
}

/// No two records of the sequence share an address key.
pub open spec fn distinct_keys(s: Seq<JournalEntryState>) -> bool {
    forall|i: int, j: int|
        0 <= i < j < s.len() ==> s[i].entry_key() != s[j].entry_key()
}

/// The map a sequence of records denotes: each record's key maps to its
/// message.
pub closed spec fn entries_map(s: Seq<JournalEntryState>) -> JournalMap
    decreases s.len(),
{
    if s.len() == 0 {
        Map::empty()
    } else {
        entries_map(s.drop_last()).insert(s.last().entry_key(), s.last().message@)
    }
}

/// A key is in the denoted map exactly when some record of the sequence
/// carries it.
proof fn lemma_entries_map_contains(s: Seq<JournalEntryState>, k: (Seq<u8>, Seq<u8>))
    ensures
        entries_map(s).contains_key(k) <==> exists|i: int|
            0 <= i < s.len() && s[i].entry_key() == k,
    decreases s.len(),
{
    if s.len() == 0 {
    } else {
        let t = s.drop_last();
        lemma_entries_map_contains(t, k);
        assert(forall|i: int| 0 <= i < t.len() ==> t[i] == s[i]);
        if k == s.last().entry_key() {
            assert(s[s.len() - 1].entry_key() == k);
        } else {
            if exists|i: int| 0 <= i < s.len() && s[i].entry_key() == k {
                let i = choose|i: int| 0 <= i < s.len() && s[i].entry_key() == k;
                assert(i < s.len() - 1);
                assert(t[i].entry_key() == k);
            }
        }
    }
}

/// With distinct keys, the denoted map sends each record's key to that
/// record's message.
proof fn lemma_entries_map_index(s: Seq<JournalEntryState>, i: int)
    requires
        distinct_keys(s),
        0 <= i < s.len(),
    ensures
        entries_map(s).contains_key(s[i].entry_key()),
        entries_map(s)[s[i].entry_key()] == s[i].message@,
    decreases s.len(),
{
    let t = s.drop_last();
    if i == s.len() - 1 {
    } else {
        assert(forall|a: int| 0 <= a < t.len() ==> t[a] == s[a]);
        assert(distinct_keys(t));
        lemma_entries_map_index(t, i);
        assert(s[i].entry_key() != s[s.len() - 1].entry_key());
    }
}

/// Appending a record inserts its key into the denoted map.
proof fn lemma_entries_map_push(s: Seq<JournalEntryState>, e: JournalEntryState)
    ensures
        entries_map(s.push(e)) == entries_map(s).insert(e.entry_key(), e.message@),
{
    assert(s.push(e).drop_last() =~= s);
    assert(s.push(e).last() == e);
}

/// Replacing the record at an index by one with the same key replaces
/// that key's message in the denoted map.
proof fn lemma_entries_map_update(s: Seq<JournalEntryState>, i: int, e: JournalEntryState)
    requires
        distinct_keys(s),
        0 <= i < s.len(),
        e.entry_key() == s[i].entry_key(),
    ensures
        entries_map(s.update(i, e)) =~= entries_map(s).insert(e.entry_key(), e.message@),
    decreases s.len(),
{
    let t = s.drop_last();
    let u = s.update(i, e);
    if i == s.len() - 1 {
        assert(u.drop_last() =~= t);
        assert(u.last() == e);
    } else {
        assert(forall|a: int| 0 <= a < t.len() ==> t[a] == s[a]);
        assert(distinct_keys(t));
        assert(u.drop_last() =~= t.update(i, e));
        assert(u.last() == s.last());
        lemma_entries_map_update(t, i, e);
        assert(s[i].entry_key() != s[s.len() - 1].entry_key());
    }
}

/// Removing the record at an index removes its key from the denoted
/// map, provided keys are distinct.
proof fn lemma_entries_map_remove(s: Seq<JournalEntryState>, i: int)
    requires
        distinct_keys(s),
        0 <= i < s.len(),
    ensures
        entries_map(s.remove(i)) =~= entries_map(s).remove(s[i].entry_key()),
    decreases s.len(),
{
    let t = s.drop_last();
    let u = s.remove(i);
    if i == s.len() - 1 {
        assert(u =~= t);
        lemma_entries_map_contains(t, s[i].entry_key());
        assert(forall|a: int| 0 <= a < t.len() ==> t[a] == s[a]);
        assert(!entries_map(t).contains_key(s[i].entry_key()));
    } else {
        assert(forall|a: int| 0 <= a < t.len() ==> t[a] == s[a]);
        assert(distinct_keys(t));
        assert(u.drop_last() =~= t.remove(i));
        assert(u.last() == s.last());
        lemma_entries_map_remove(t, i);
        assert(s[i].entry_key() != s[s.len() - 1].entry_key());
    }
}

/// The records the host runtime keeps for this program, one slot per
/// occupied (owner, title) address.
pub struct Journal {
    entries: Vec<JournalEntryState>,
}

impl View for Journal {
    type V = JournalMap;

    closed spec fn view(&self) -> JournalMap {
        entries_map(self.entries@)
    }
}

impl Journal {
    /// A journal is well formed when every record fits its bounds and
    /// no two records share an address key.
    pub closed spec fn wf(self) -> bool {
        &&& distinct_keys(self.entries@)
        &&& forall|i: int| 0 <= i < self.entries@.len() ==> self.entries@[i].wf()
    }

    /// An empty journal: no record resolves anywhere.
    pub fn new() -> (r: Journal)
        ensures
            r.wf(),
            r@ == JournalMap::empty(),
    {
        Journal { entries: Vec::new() }
    }

    /// The slot, if any, holding the record addressed by (owner, title).
    fn find_entry(&self, owner: &Pubkey, title: &Vec<u8>) -> (r: Option<usize>)
        ensures
            match r {
                Some(i) => i < self.entries@.len() && self.entries@[i as int].entry_key() == (
                    owner@,
                    title@,
                ),
                None => forall|i: int|
                    0 <= i < self.entries@.len() ==> self.entries@[i].entry_key() != (
                        owner@,
                        title@,
                    ),
            },
    {
        let mut i: usize = 0;
        while i < self.entries.len()
            invariant
                i <= self.entries@.len(),
                forall|j: int|
                    0 <= j < i ==> self.entries@[j].entry_key() != (owner@, title@),
            decreases self.entries@.len() - i,
        {
            let entry = &self.entries[i];
            if pubkey_eq(&entry.owner, owner) && bytes_eq(&entry.title, title) {
                return Some(i);
            }
            i = i + 1;
        }
        None
    }

    /// The record addressed by (owner, title), if one lives there. The
    /// returned record carries exactly that owner, that title, and the
    /// message the store holds for the pair.
    pub fn read_journal_entry(&self, owner: &Pubkey, title: &Vec<u8>) -> (r: Option<
        &JournalEntryState,
    >)
        requires
            self.wf(),
        ensures
            match r {
                Some(entry) => {
                    &&& lookup(self@, owner@, title@) == Some(entry.message@)
                    &&& entry.owner@ == owner@
                    &&& entry.title@ == title@
                    &&& entry.wf()
                },
                None => lookup(self@, owner@, title@) is None,
            },
    {
        proof {
            lemma_entries_map_contains(self.entries@, (owner@, title@));
        }
        match self.find_entry(owner, title) {
            Some(i) => {
                proof {
                    lemma_entries_map_index(self.entries@, i as int);
                }
                Some(&self.entries[i])
            },
            None => None,
        }
    }
}

/// Create a record for (owner, title) holding the given message. The
/// call goes through exactly when both texts fit their bounds and the
/// derived address is free; any rejection leaves the store unchanged.
pub fn create_journal_entry(
    journal: &mut Journal,
    ctx: CreateJournalEntry,
    title: Vec<u8>,
    message: Vec<u8>,
) -> (r: Result<(), JournalError>)
    requires
        old(journal).wf(),
    ensures
        final(journal).wf(),
        create_accepted(old(journal)@, ctx.owner@, title@, message@) ==> {
            &&& r == Ok::<(), JournalError>(())
            &&& final(journal)@ == create_effect(old(journal)@, ctx.owner@, title@, message@)
        },
        !create_accepted(old(journal)@, ctx.owner@, title@, message@) ==> {
            &&& r == Err::<(), JournalError>(
                create_rejection(old(journal)@, ctx.owner@, title@, message@),
            )
            &&& final(journal)@ == old(journal)@
        },
{
    let ghost s = journal.entries@;
    proof {
        lemma_entries_map_contains(s, (ctx.owner@, title@));
    }
    let entry = match make_journal_entry(ctx.owner, title, message) {
        Ok(entry) => entry,
        Err(err) => {
            return Err(err);
        },
    };
    match journal.find_entry(&entry.owner, &entry.title) {
        Some(_occupied) => Err(JournalError::DuplicateEntry),
        None => {
            proof {
                lemma_entries_map_push(s, entry);
            }
            journal.entries.push(entry);
            proof {
                let u = journal.entries@;
                assert(forall|j: int| 0 <= j < s.len() ==> u[j] == s[j]);
                assert(u[s.len() as int] == entry);
                assert(distinct_keys(u));
            }
            Ok(())
        },
    }
}

/// Replace the message of the record addressed by (owner, title). The
/// call goes through exactly when such a record exists and the new
/// message fits its bound; the record's owner and title are untouched,
/// and any rejection leaves the store unchanged.
pub fn update_journal_entry(
    journal: &mut Journal,
    ctx: UpdateJournalEntry,
    title: Vec<u8>,
    message: Vec<u8>,
) -> (r: Result<(), JournalError>)
    requires
        old(journal).wf(),
    ensures
        final(journal).wf(),
        update_accepted(old(journal)@, ctx.owner@, title@, message@) ==> {
            &&& r == Ok::<(), JournalError>(())
            &&& final(journal)@ == update_effect(old(journal)@, ctx.owner@, title@, message@)
        },
        !update_accepted(old(journal)@, ctx.owner@, title@, message@) ==> {
            &&& r == Err::<(), JournalError>(
                update_rejection(old(journal)@, ctx.owner@, title@, message@),
            )
            &&& final(journal)@ == old(journal)@
        },
{
    let ghost s = journal.entries@;
    proof {
        lemma_entries_map_contains(s, (ctx.owner@, title@));
    }
    match journal.find_entry(&ctx.owner, &title) {
        None => Err(JournalError::EntryNotFound),
        Some(i) => {
            let slot = &mut journal.entries[i];
            let r = replace_message(slot, message);
            proof {
                let u = journal.entries@;
                assert(forall|j: int| 0 <= j < u.len() && j != i ==> u[j] == s[j]);
                assert(u[i as int].entry_key() == s[i as int].entry_key());
                assert(distinct_keys(u));
                lemma_entries_map_update(s, i as int, u[i as int]);
                if !message_fits(message@) {
                    assert(u =~= s);
                }
            }
            r
        },
    }
}

/// Remove the record addressed by (owner, title), releasing its slot.
/// The call goes through exactly when such a record exists; a rejection
/// leaves the store unchanged, and every other record is untouched
/// either way.
pub fn delete_journal_entry(
    journal: &mut Journal,
    ctx: DeleteJournalEntry,
    title: Vec<u8>,
) -> (r: Result<(), JournalError>)
    requires
        old(journal).wf(),
    ensures
        final(journal).wf(),
        delete_accepted(old(journal)@, ctx.owner@, title@) ==> {
            &&& r == Ok::<(), JournalError>(())
            &&& final(journal)@ == delete_effect(old(journal)@, ctx.owner@, title@)
        },
        !delete_accepted(old(journal)@, ctx.owner@, title@) ==> {
            &&& r == Err::<(), JournalError>(JournalError::EntryNotFound)
            &&& final(journal)@ == old(journal)@
        },
{
    let ghost s = journal.entries@;
    proof {
        lemma_entries_map_contains(s, (ctx.owner@, title@));
    }
    match journal.find_entry(&ctx.owner, &title) {
        None => Err(JournalError::EntryNotFound),
        Some(i) => {
            proof {
                lemma_entries_map_remove(s, i as int);
            }
            let _removed = journal.entries.remove(i);
            proof {
                let u = journal.entries@;
                assert(forall|j: int|
                    0 <= j < u.len() ==> u[j] == (if j < i { s[j] } else {
                        s[j + 1]
                    }));
                assert(distinct_keys(u));
            }
            Ok(())
        },
    }
}

} // verus!
