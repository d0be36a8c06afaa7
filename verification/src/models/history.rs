//! The undo history of creature edits, kept by `undo::Record`.

use vstd::prelude::*;

use super::creature::Creatures;
use super::edit::{edit_applied, edit_reverted, CreatureEdit};

verus! {

#[verifier::external_type_specification]
#[verifier::external_body]
#[verifier::reject_recursive_types(E)]
#[verifier::reject_recursive_types(S)]
pub struct ExRecord<E, S>(undo::Record<E, S>);

/// What a record holds: its edits, oldest first, and its head, the number of
/// edits currently applied.
pub uninterp spec fn record_state(record: undo::Record<CreatureEdit>) -> (Seq<CreatureEdit>, nat);

/// The most edits the record keeps.
pub uninterp spec fn record_limit(record: undo::Record<CreatureEdit>) -> nat;

/// The edits of a record.
pub open spec fn history_entries(record: undo::Record<CreatureEdit>) -> Seq<CreatureEdit> {
    record_state(record).0
}

/// The head of a record: how many of its edits are applied.
pub open spec fn history_head(record: undo::Record<CreatureEdit>) -> nat {
    record_state(record).1
}

/// The edits after pushing `e` onto a record with edits `entries`, head
/// `head` and limit `limit`: the undone edits are dropped, and when the head
/// has reached the limit the oldest edit goes too.
pub open spec fn pushed(entries: Seq<CreatureEdit>, head: nat, limit: nat, e: CreatureEdit) -> (Seq<CreatureEdit>, nat) {
    if head < limit {
        (entries.take(head as int).push(e), head + 1)
    } else {
        (entries.take(head as int).drop_first().push(e), head)
    }
}

/// A new, empty record (`Record::new`), keeping up to `usize::MAX` edits.
#[verifier::external_body]
pub(crate) fn history_new() -> (record: undo::Record<CreatureEdit>)
    ensures
        record_state(record) == (Seq::<CreatureEdit>::empty(), 0nat),
        record_limit(record) == usize::MAX,
{
    undo::Record::new()
}

/// Applies `edit` to `target` and pushes it on the record (`Record::edit`).
/// The record calls the edit's `Edit::edit`, which is `CreatureEdit::apply_to`;
/// the edit never merges with the previous one.
#[verifier::external_body]
pub(crate) fn history_edit(record: &mut undo::Record<CreatureEdit>, target: &mut Creatures, edit: CreatureEdit)
    requires
        history_head(*old(record)) <= history_entries(*old(record)).len(),
    ensures
        edit_applied(*old(target), *final(target), edit),
        record_state(*final(record)) == pushed(
            history_entries(*old(record)),
            history_head(*old(record)),
            record_limit(*old(record)),
            edit,
        ),
        record_limit(*final(record)) == record_limit(*old(record)),
{
    record.edit(target, edit)
}

/// Reverts the edit below the head and moves the head down (`Record::undo`);
/// does nothing at the bottom. Returns whether an edit was reverted.
#[verifier::external_body]
pub(crate) fn history_undo(record: &mut undo::Record<CreatureEdit>, target: &mut Creatures) -> (undone: bool)
    requires
        history_head(*old(record)) <= history_entries(*old(record)).len(),
    ensures
        undone == (history_head(*old(record)) > 0),
        undone ==> edit_reverted(
            *old(target),
            *final(target),
            history_entries(*old(record))[history_head(*old(record)) - 1],
        ),
        undone ==> record_state(*final(record)) == (
            history_entries(*old(record)),
            (history_head(*old(record)) - 1) as nat,
        ),
        !undone ==> *final(target) == *old(target) && *final(record) == *old(record),
        record_limit(*final(record)) == record_limit(*old(record)),
{
    record.undo(target).is_some()
}

/// Re-applies the edit at the head and moves the head up (`Record::redo`);
/// does nothing at the top. Returns whether an edit was re-applied.
#[verifier::external_body]
pub(crate) fn history_redo(record: &mut undo::Record<CreatureEdit>, target: &mut Creatures) -> (redone: bool)
    requires
        history_head(*old(record)) <= history_entries(*old(record)).len(),
    ensures
        redone == (history_head(*old(record)) < history_entries(*old(record)).len()),
        redone ==> edit_applied(
            *old(target),
            *final(target),
            history_entries(*old(record))[history_head(*old(record)) as int],
        ),
        redone ==> record_state(*final(record)) == (
            history_entries(*old(record)),
            history_head(*old(record)) + 1,
        ),
        !redone ==> *final(target) == *old(target) && *final(record) == *old(record),
        record_limit(*final(record)) == record_limit(*old(record)),
{
    record.redo(target).is_some()
}

} // verus!
