//! The journal-entry record and the plain values it is made of.
//!
//! A record stores the identity of its creator, a bounded title and a
//! bounded message, both kept as byte strings exactly as they are
//! persisted. The title takes part in the record's address, so it is
//! fixed at creation; only the message may change afterwards.

use vstd::prelude::*;

verus! {

/// Largest number of bytes a title may hold.
pub const MAX_TITLE_LEN: usize = 50;

/// Largest number of bytes a message may hold.
pub const MAX_MESSAGE_LEN: usize = 1000;

/// A 32-byte identity, the key under which the host runtime verifies
/// signatures and derives record addresses.
#[derive(Clone, Copy)]
pub struct Pubkey {
    pub bytes: [u8; 32],
}

impl View for Pubkey {
    type V = Seq<u8>;

    open spec fn view(&self) -> Seq<u8> {
        self.bytes@
    }
}

/// True exactly when the two identities are made of the same bytes.
pub fn pubkey_eq(a: &Pubkey, b: &Pubkey) -> (r: bool)
    ensures
        r == (a@ == b@),
{
    let mut i: usize = 0;
    while i < 32
        invariant
            i <= 32,
            forall|j: int| 0 <= j < i ==> a.bytes@[j] == b.bytes@[j],
        decreases 32 - i,
    {
        if a.bytes[i] != b.bytes[i] {
            assert(a@ != b@);
            return false;
        }
        i = i + 1;
    }
    assert(a@ =~= b@);
    true
}

/// True exactly when the two byte strings are equal.
pub fn bytes_eq(a: &Vec<u8>, b: &Vec<u8>) -> (r: bool)
    ensures
        r == (a@ == b@),
{
    if a.len() != b.len() {
        return false;
    }
    let mut i: usize = 0;
    while i < a.len()
        invariant
            i <= a@.len(),
            a@.len() == b@.len(),
            forall|j: int| 0 <= j < i ==> a@[j] == b@[j],
        decreases a@.len() - i,
    {
        if a[i] != b[i] {
            assert(a@ != b@);
            return false;
        }
        i = i + 1;
    }
    assert(a@ =~= b@);
    true
}

/// True when a title fits the declared bound.
pub open spec fn title_fits(title: Seq<u8>) -> bool {
    title.len() <= MAX_TITLE_LEN
}

/// True when a message fits the declared bound.
pub open spec fn message_fits(message: Seq<u8>) -> bool {
    message.len() <= MAX_MESSAGE_LEN
}

/// Why an operation on the store was rejected. Every rejection leaves
/// the store exactly as it was.
#[derive(Clone, Copy, Debug, PartialEq, Eq, Structural)]
pub enum JournalError {
    /// The title offered at creation exceeds its declared bound.
    TitleTooLong,
    /// The message exceeds its declared bound.
    MessageTooLong,
    /// A record already lives at the address derived for (owner, title).
    DuplicateEntry,
    /// No record lives at the address derived for (owner, title).
    EntryNotFound,
}

/// One persisted journal entry: the identity that created it, the title
/// it is addressed under, and its current message.
pub struct JournalEntryState {
    pub owner: Pubkey,
    pub title: Vec<u8>,
    pub message: Vec<u8>,
}

impl JournalEntryState {
    /// The address key of this record: a record lives at the location
    /// derived from its owner's identity together with its title.
    pub open spec fn entry_key(self) -> (Seq<u8>, Seq<u8>) {
        (self.owner@, self.title@)
    }

    /// A record is well formed when both of its texts fit their bounds.
    pub open spec fn wf(self) -> bool {
        title_fits(self.title@) && message_fits(self.message@)
    }
}

/// What the create handler writes into a freshly allocated record: the
/// caller's identity and both texts, verbatim, provided they fit their
/// declared bounds. An oversized title is reported before an oversized
/// message.
pub fn make_journal_entry(owner: Pubkey, title: Vec<u8>, message: Vec<u8>) -> (r: Result<
    JournalEntryState,
    JournalError,
>)
    ensures
        match r {
            Ok(entry) => {
                &&& title_fits(title@)
                &&& message_fits(message@)
                &&& entry.owner@ == owner@
                &&& entry.title@ == title@
                &&& entry.message@ == message@
                &&& entry.wf()
            },
            Err(err) => {
                &&& !(title_fits(title@) && message_fits(message@))
                &&& err == (if !title_fits(title@) {
                    JournalError::TitleTooLong
                } else {
                    JournalError::MessageTooLong
                })
            },
        },
{
    if title.len() > MAX_TITLE_LEN {
        return Err(JournalError::TitleTooLong);
    }
    if message.len() > MAX_MESSAGE_LEN {
        return Err(JournalError::MessageTooLong);
    }
    Ok(JournalEntryState { owner, title, message })
}

/// What the update handler does to a resolved record: replace the
/// message and touch nothing else. The owner and the title are left
/// exactly as they were, whether or not the new message is accepted.
pub fn replace_message(entry: &mut JournalEntryState, message: Vec<u8>) -> (r: Result<
    (),
    JournalError,
>)
    ensures
        final(entry).owner@ == old(entry).owner@,
        final(entry).title@ == old(entry).title@,
        message_fits(message@) ==> {
            &&& r == Ok::<(), JournalError>(())
            &&& final(entry).message@ == message@
        },
        !message_fits(message@) ==> {
            &&& r == Err::<(), JournalError>(JournalError::MessageTooLong)
            &&& *final(entry) == *old(entry)
        },
{
    if message.len() > MAX_MESSAGE_LEN {
        return Err(JournalError::MessageTooLong);
    }
    entry.message = message;
    Ok(())
}

} // verus!
