//! Laws of the store, proved once and for all over its mathematical
//! model. Each law speaks about the spec-level acceptance conditions
//! and effects that the operations' own contracts are stated with, so
//! together with those contracts it holds of every run of the store.

use vstd::prelude::*;

use crate::journal::JournalMap;
use crate::journal::create_accepted;
use crate::journal::create_effect;
use crate::journal::delete_accepted;
use crate::journal::delete_effect;
use crate::journal::lookup;
use crate::journal::update_accepted;
use crate::journal::update_effect;
use crate::state::message_fits;
use crate::state::title_fits;

verus! {

/// Create then read: after an accepted create, the record for
/// (owner, title) holds exactly the message supplied at creation.
pub proof fn lemma_create_then_read(
    m: JournalMap,
    owner: Seq<u8>,
    title: Seq<u8>,
    message: Seq<u8>,
)
    requires
        create_accepted(m, owner, title, message),
    ensures
        lookup(create_effect(m, owner, title, message), owner, title) == Some(message),
{
}

/// A create never disturbs other records: every pair other than the
/// one created resolves exactly as before.
pub proof fn lemma_create_isolated(
    m: JournalMap,
    owner: Seq<u8>,
    title: Seq<u8>,
    message: Seq<u8>,
    other_owner: Seq<u8>,
    other_title: Seq<u8>,
)
    requires
        (other_owner, other_title) != (owner, title),
    ensures
        lookup(create_effect(m, owner, title, message), other_owner, other_title) == lookup(
            m,
            other_owner,
            other_title,
        ),
{
}

/// A duplicate create for an occupied (owner, title) pair is rejected,
/// whatever message it offers. (That the rejection leaves the occupied
/// record unchanged is part of the create operation's own contract.)
pub proof fn lemma_duplicate_create_rejected(
    m: JournalMap,
    owner: Seq<u8>,
    title: Seq<u8>,
    message: Seq<u8>,
)
    requires
        lookup(m, owner, title) is Some,
    ensures
        !create_accepted(m, owner, title, message),
{
}

/// An accepted update replaces the message of the addressed record and
/// changes nothing else: the set of live records is the same, and every
/// other record keeps its message. The record's owner and title are its
/// address key, which the update leaves in place.
pub proof fn lemma_update_changes_message_only(
    m: JournalMap,
    owner: Seq<u8>,
    title: Seq<u8>,
    message: Seq<u8>,
)
    requires
        update_accepted(m, owner, title, message),
    ensures
        lookup(update_effect(m, owner, title, message), owner, title) == Some(message),
        update_effect(m, owner, title, message).dom() == m.dom(),
        forall|k: (Seq<u8>, Seq<u8>)|
            k != (owner, title) ==> lookup(update_effect(m, owner, title, message), k.0, k.1)
                == lookup(m, k.0, k.1),
{
    assert(update_effect(m, owner, title, message).dom() =~= m.dom());
}

/// An update under an identity that never created a record for the
/// title is rejected: the address it derives holds nothing.
pub proof fn lemma_update_by_non_owner_rejected(
    m: JournalMap,
    caller: Seq<u8>,
    title: Seq<u8>,
    message: Seq<u8>,
)
    requires
        lookup(m, caller, title) is None,
    ensures
        !update_accepted(m, caller, title, message),
{
}

/// An update under one identity never touches the record another
/// identity keeps under the same title: the two derive different
/// addresses.
pub proof fn lemma_update_isolated_between_owners(
    m: JournalMap,
    owner: Seq<u8>,
    caller: Seq<u8>,
    title: Seq<u8>,
    message: Seq<u8>,
)
    requires
        caller != owner,
    ensures
        lookup(update_effect(m, caller, title, message), owner, title) == lookup(m, owner, title),
{
}

/// A delete under an identity that never created a record for the
/// title is rejected: the address it derives holds nothing.
pub proof fn lemma_delete_by_non_owner_rejected(m: JournalMap, caller: Seq<u8>, title: Seq<u8>)
    requires
        lookup(m, caller, title) is None,
    ensures
        !delete_accepted(m, caller, title),
{
}

/// An accepted delete removes the record: the pair no longer resolves,
/// a further update or delete of it is rejected, and every other record
/// is untouched.
pub proof fn lemma_delete_removes(
    m: JournalMap,
    owner: Seq<u8>,
    title: Seq<u8>,
    message: Seq<u8>,
)
    requires
        delete_accepted(m, owner, title),
    ensures
        lookup(delete_effect(m, owner, title), owner, title) is None,
        !update_accepted(delete_effect(m, owner, title), owner, title, message),
        !delete_accepted(delete_effect(m, owner, title), owner, title),
        forall|k: (Seq<u8>, Seq<u8>)|
            k != (owner, title) ==> lookup(delete_effect(m, owner, title), k.0, k.1) == lookup(
                m,
                k.0,
                k.1,
            ),
{
}

/// A create offering an oversized title or message is rejected, for
/// every store and every identity.
pub proof fn lemma_oversized_create_rejected(
    m: JournalMap,
    owner: Seq<u8>,
    title: Seq<u8>,
    message: Seq<u8>,
)
    requires
        !title_fits(title) || !message_fits(message),
    ensures
        !create_accepted(m, owner, title, message),
{
}

} // verus!
