//! Attachment slot validation. `try_attach` is the single entry point when the player
//! drops an attachment onto a weapon — it enforces the slot rules atomically (no partial
//! state on failure).
//!
//! Rules:
//! 1. The base item declares the attachment's `slot_type` in its `attachment_slots` list.
//! 2. The attachment's `allowed_categories` includes the base's `category`.
//! 3. The item doesn't already have an attachment occupying that slot type (one
//!    attachment per slot type).

use vstd::prelude::*;

use crate::rules::item::{Attachment, BaseItem, ItemInstance};
use crate::text::{contains_string, copy_strings, lists, same_text};

verus! {

#[derive(Debug, PartialEq, Eq)]
pub enum AttachError {
    UnknownAttachment(String),
    NoSuchSlot { slot_type: String, available: Vec<String> },
    CategoryNotAllowed { attachment_id: String, category: String, allowed: Vec<String> },
    SlotAlreadyOccupied { slot_type: String, current: String },
}

/// Whether the `k`-th attachment is the first with the given id.
pub open spec fn first_with_id(attachments: Seq<Attachment>, id: Seq<char>, k: int) -> bool {
    &&& 0 <= k < attachments.len()
    &&& attachments[k].id@ == id
    &&& forall|j: int| 0 <= j < k ==> (#[trigger] attachments[j]).id@ != id
}

/// Whether some attachment has the given id.
pub open spec fn known(attachments: Seq<Attachment>, id: Seq<char>) -> bool {
    exists|k: int| first_with_id(attachments, id, k)
}

/// The first attachment with the given id.
pub open spec fn attachment_of(attachments: Seq<Attachment>, id: Seq<char>) -> Attachment {
    attachments[choose|k: int| first_with_id(attachments, id, k)]
}

/// Whether an attached id is known and occupies the given kind of slot.
pub open spec fn occupies(attachments: Seq<Attachment>, id: Seq<char>, slot: Seq<char>) -> bool {
    known(attachments, id) && attachment_of(attachments, id).slot_type@ == slot
}

/// Whether the `i`-th of the attached ids is the first that occupies the given kind of
/// slot.
pub open spec fn first_occupant(
    attached: Seq<String>,
    attachments: Seq<Attachment>,
    slot: Seq<char>,
    i: int,
) -> bool {
    &&& 0 <= i < attached.len()
    &&& occupies(attachments, attached[i]@, slot)
    &&& forall|j: int| 0 <= j < i ==> !occupies(attachments, (#[trigger] attached[j])@, slot)
}

/// There is only one first attachment with a given id.
pub proof fn lemma_first_is_unique(attachments: Seq<Attachment>, id: Seq<char>, k: int)
    requires
        first_with_id(attachments, id, k),
    ensures
        known(attachments, id),
        attachment_of(attachments, id) == attachments[k],
{
    let j = choose|j: int| first_with_id(attachments, id, j);
    assert(first_with_id(attachments, id, j));
    if j < k {
        assert(attachments[j].id@ != id);
    } else if k < j {
        assert(attachments[k].id@ != id);
    }
}

/// Finds the first attachment with the given id.
pub fn find_attachment(attachments: &[Attachment], id: &str) -> (found: Option<usize>)
    ensures
        match found {
            None => !known(attachments@, id@),
            Some(k) => first_with_id(attachments@, id@, k as int) && known(attachments@, id@)
                && attachment_of(attachments@, id@) == attachments@[k as int],
        },
{
    for k in 0..attachments.len()
        invariant
            forall|j: int| 0 <= j < k ==> (#[trigger] attachments@[j]).id@ != id@,
    {
        if same_text(attachments[k].id.as_str(), id) {
            proof {
                lemma_first_is_unique(attachments@, id@, k as int);
            }
            return Some(k);
        }
    }
    None
}

/// Slot the attachment onto `item` if all rules pass. Mutates `item.attached` only on
/// success — on `Err`, `item` is left untouched.
pub fn try_attach(
    item: &mut ItemInstance,
    base: &BaseItem,
    attachment_id: &str,
    attachments: &[Attachment],
) -> (r: Result<(), AttachError>)
    ensures
        ({
            let new = attachment_of(attachments@, attachment_id@);
            let found = known(attachments@, attachment_id@);
            let has_slot = lists(base.attachment_slots@, new.slot_type@);
            let allowed = lists(new.allowed_categories@, base.category@);
            let free = forall|i: int|
                0 <= i < old(item).attached@.len() ==> !occupies(
                    attachments@,
                    (#[trigger] old(item).attached@[i])@,
                    new.slot_type@,
                );
            &&& r is Ok <==> found && has_slot && allowed && free
            &&& r is Err ==> *final(item) == *old(item)
            &&& r is Ok ==> final(item).attached@ == old(item).attached@.push(new.id) && new.id@
                == attachment_id@ && *final(item) == (ItemInstance {
                attached: final(item).attached,
                ..*old(item)
            })
            &&& r matches Err(e) ==> match e {
                AttachError::UnknownAttachment(id) => !found && id@ == attachment_id@,
                AttachError::NoSuchSlot { slot_type, available } => found && !has_slot
                    && slot_type@ == new.slot_type@ && available@ == base.attachment_slots@,
                AttachError::CategoryNotAllowed { attachment_id: id, category, allowed: list } => {
                    &&& found && has_slot && !allowed
                    &&& id@ == attachment_id@
                    &&& category@ == base.category@
                    &&& list@ == new.allowed_categories@
                },
                AttachError::SlotAlreadyOccupied { slot_type, current } => {
                    &&& found && has_slot && allowed && !free
                    &&& slot_type@ == new.slot_type@
                    &&& exists|i: int|
                        first_occupant(old(item).attached@, attachments@, new.slot_type@, i)
                            && current@ == (#[trigger] old(item).attached@[i])@
                },
            }
        }),
{
    let new = match find_attachment(attachments, attachment_id) {
        None => {
            return Err(AttachError::UnknownAttachment(attachment_id.to_owned()));
        },
        Some(k) => &attachments[k],
    };
    if !contains_string(&base.attachment_slots, &new.slot_type) {
        return Err(
            AttachError::NoSuchSlot {
                slot_type: new.slot_type.clone(),
                available: copy_strings(&base.attachment_slots),
            },
        );
    }
    if !contains_string(&new.allowed_categories, &base.category) {
        return Err(
            AttachError::CategoryNotAllowed {
                attachment_id: new.id.clone(),
                category: base.category.clone(),
                allowed: copy_strings(&new.allowed_categories),
            },
        );
    }
    for i in 0..item.attached.len()
        invariant
            *item == *old(item),
            known(attachments@, attachment_id@),
            *new == attachment_of(attachments@, attachment_id@),
            lists(base.attachment_slots@, new.slot_type@),
            lists(new.allowed_categories@, base.category@),
            forall|j: int|
                0 <= j < i ==> !occupies(
                    attachments@,
                    (#[trigger] item.attached@[j])@,
                    new.slot_type@,
                ),
    {
        if let Some(k) = find_attachment(attachments, item.attached[i].as_str()) {
            let existing = &attachments[k];
            if existing.slot_type == new.slot_type {
                assert(first_occupant(item.attached@, attachments@, new.slot_type@, i as int));
                return Err(
                    AttachError::SlotAlreadyOccupied {
                        slot_type: new.slot_type.clone(),
                        current: existing.id.clone(),
                    },
                );
            }
        }
    }
    let id = new.id.clone();
    item.attached.push(id);
    Ok(())
}

/// Whether no two attached ids occupy the same kind of slot.
pub open spec fn one_per_slot(attached: Seq<String>, attachments: Seq<Attachment>) -> bool {
    forall|i: int, j: int|
        0 <= i < j < attached.len() && known(attachments, (#[trigger] attached[i])@) && known(
            attachments,
            (#[trigger] attached[j])@,
        ) ==> attachment_of(attachments, attached[i]@).slot_type@ != attachment_of(
            attachments,
            attached[j]@,
        ).slot_type@
}

/// Attaching something keeps it that every kind of slot is occupied at most once.
pub proof fn law_one_attachment_per_slot(
    attached: Seq<String>,
    id: String,
    attachments: Seq<Attachment>,
)
    requires
        one_per_slot(attached, attachments),
        known(attachments, id@),
        forall|i: int|
            0 <= i < attached.len() ==> !occupies(
                attachments,
                (#[trigger] attached[i])@,
                attachment_of(attachments, id@).slot_type@,
            ),
    ensures
        one_per_slot(attached.push(id), attachments),
{
}

/// What occupies a slot: an attached id whose attachment, the first of that id, is for it.
/// Ids that no attachment has occupy nothing.
pub proof fn law_slots_are_occupied_by_the_first(
    attachments: Seq<Attachment>,
    id: Seq<char>,
    slot: Seq<char>,
    k: int,
)
    requires
        0 <= k <= attachments.len(),
        forall|j: int| 0 <= j < k ==> (#[trigger] attachments[j]).id@ != id,
        k < attachments.len() ==> attachments[k].id@ == id,
    ensures
        known(attachments, id) <==> k < attachments.len(),
        k < attachments.len() ==> attachment_of(attachments, id) == attachments[k],
        occupies(attachments, id, slot) <==> k < attachments.len() && attachments[k].slot_type@
            == slot,
{
    if k < attachments.len() {
        lemma_first_is_unique(attachments, id, k);
    } else if known(attachments, id) {
        let j = choose|j: int| first_with_id(attachments, id, j);
        assert(attachments[j].id@ == id);
    }
}

} // verus!
