//! The inventory screen: the equipped rack on top (click to switch), the collected items
//! below (click a weapon to equip; armor is listed but inert).

use vstd::prelude::*;

use crate::game::entity::{Appraisal, Content};
use crate::game::rack::{base_of, first_base, has_base, lemma_base_of, racked, weapon_base, Rack};
use crate::game::world::World;
use crate::rules::item::{BaseItem, ItemInstance, Rarity};
use crate::scalar::Scalar;
use crate::text::{decimal, law_digits_spell_the_number, push_decimal, same_text, spelled};

verus! {

/// How many cells of the bag stand side by side.
pub const COLUMNS: usize = 4;

/// A rectangle on the screen, given by its edges.
#[derive(Debug, Clone, Copy, PartialEq, Eq, Structural)]
pub struct Rect {
    pub left: Scalar,
    pub top: Scalar,
    pub right: Scalar,
    pub bottom: Scalar,
}

/// Whether a number lies between two others, or on one of them.
pub open spec fn between(lo: Scalar, s: Scalar, hi: Scalar) -> bool {
    &&& !lo.is_nan() && !s.is_nan() && !hi.is_nan()
    &&& lo.value() <= s.value() <= hi.value()
}

impl Rect {
    /// Whether a point lies in the rectangle or on its edge.
    pub fn contains(&self, x: &Scalar, y: &Scalar) -> (r: bool)
        ensures
            r == (between(self.left, *x, self.right) && between(self.top, *y, self.bottom)),
    {
        self.left.le(x) && x.le(&self.right) && self.top.le(y) && y.le(&self.bottom)
    }
}

/// What a click on the screen does.
#[derive(Debug, Clone, Copy, PartialEq, Eq, Structural)]
pub enum InvAction {
    /// Close the inventory.
    Close,
    /// Switch the active weapon to a rack slot.
    Switch(usize),
    /// Equip the inventory item at an index into the rack.
    Equip(usize),
}

/// A weapon's damage (without decimals) and rate (with one), written out.
#[derive(Debug)]
pub struct WeaponFigures {
    pub damage: String,
    pub rate: String,
}

/// A slot of the rack.
#[derive(Debug)]
pub struct RackCell {
    pub label: String,
    pub detail: String,
    pub active: bool,
    pub rarity: Rarity,
}

/// An item in the bag.
#[derive(Debug)]
pub struct BagCell {
    pub name: String,
    pub detail: String,
    /// Only weapons can be clicked.
    pub equippable: bool,
    pub rarity: Rarity,
}

/// What the screen shows.
#[derive(Debug)]
pub struct InventoryView {
    pub rack: Vec<RackCell>,
    pub bag: Vec<BagCell>,
}

pub open spec fn rack_label(i: int, name: Seq<char>) -> Seq<char> {
    decimal((i + 1) as nat) + ": "@ + name
}

pub open spec fn rack_detail(f: WeaponFigures) -> Seq<char> {
    "dmg "@ + f.damage@ + "  rate "@ + f.rate@
}

/// The cell of the `i`-th weapon on the rack.
pub open spec fn is_rack_cell(c: RackCell, w: World, i: int, f: WeaponFigures) -> bool {
    &&& c.label@ == rack_label(i, w.loadout@[i].name@)
    &&& c.detail@ == rack_detail(f)
    &&& c.active == (i == w.active)
    &&& c.rarity == w.loadout@[i].item.rarity
}

/// The display name of an item: that of its base, or else the base's id.
pub open spec fn display_name(item: ItemInstance, bases: Seq<BaseItem>) -> Seq<char> {
    if has_base(bases, item.base@) {
        base_of(bases, item.base@).name@
    } else {
        item.base@
    }
}

pub open spec fn bag_detail(rarity: Rarity, equippable: bool) -> Seq<char> {
    rarity.label() + " · "@ + (if equippable {
        "click to equip"@
    } else {
        "armor"@
    })
}

/// The cell of an item in the bag.
pub open spec fn is_bag_cell(c: BagCell, item: ItemInstance, bases: Seq<BaseItem>) -> bool {
    &&& c.name@ == display_name(item, bases)
    &&& c.equippable == (weapon_base(bases, item.base@) is Some)
    &&& c.detail@ == bag_detail(item.rarity, c.equippable)
    &&& c.rarity == item.rarity
}

/// What an empty bag says.
pub fn empty_note() -> (s: &'static str)
    ensures
        s@ == "(empty — walk over drops to collect them)"@,
{
    "(empty — walk over drops to collect them)"
}

/// The hint below the bag.
pub fn footer() -> (s: &'static str)
    ensures
        s@ == "click a weapon to equip  ·  I / Tab / Esc to close"@,
{
    "click a weapon to equip  ·  I / Tab / Esc to close"
}

/// The column and the row of a cell of the bag.
pub fn cell_place(i: usize) -> (p: (usize, usize))
    ensures
        p.0 < COLUMNS,
        i == p.1 * COLUMNS + p.0,
{
    (i % COLUMNS, i / COLUMNS)
}

/// How many cells of the bag are laid out where `rows` rows fit above the footer.
pub fn cells_shown(items: usize, rows: usize) -> (n: usize)
    ensures
        n <= items,
        n == items || n == rows * COLUMNS,
        n <= rows * COLUMNS,
{
    if rows <= items / COLUMNS && rows * COLUMNS < items {
        rows * COLUMNS
    } else {
        items
    }
}

fn rack_cell(w: &World, i: usize, f: &WeaponFigures) -> (c: RackCell)
    requires
        i < w.loadout.len(),
    ensures
        is_rack_cell(c, *w, i as int, *f),
{
    let mut label = String::new();
    push_decimal(&mut label, i as u64 + 1);
    label.append(": ");
    label.append(w.loadout[i].name.as_str());
    assert(label@ =~= rack_label(i as int, w.loadout@[i as int].name@));
    let mut detail = String::new();
    detail.append("dmg ");
    detail.append(f.damage.as_str());
    detail.append("  rate ");
    detail.append(f.rate.as_str());
    assert(detail@ =~= rack_detail(*f));
    RackCell { label, detail, active: i == w.active, rarity: w.loadout[i].item.rarity }
}

fn bag_cell(item: &ItemInstance, bases: &[BaseItem]) -> (c: BagCell)
    ensures
        is_bag_cell(c, *item, bases@),
{
    let mut name: String = item.base.clone();
    let mut equippable = false;
    let mut i: usize = 0;
    while i < bases.len()
        invariant_except_break
            i <= bases.len(),
            forall|k: int| 0 <= k < i ==> (#[trigger] bases@[k]).id@ != item.base@,
            name@ == item.base@,
            !equippable,
        ensures
            name@ == display_name(*item, bases@),
            equippable == (weapon_base(bases@, item.base@) is Some),
        decreases bases.len() - i,
    {
        if bases[i].id == item.base {
            proof {
                assert(first_base(bases@, item.base@, i as int));
                lemma_base_of(bases@, item.base@, i as int);
            }
            name = bases[i].name.clone();
            equippable = same_text(bases[i].slot.as_str(), "weapon");
            break ;
        }
        i = i + 1;
    }
    let mut detail = String::new();
    detail.append(item.rarity.name());
    detail.append(" · ");
    detail.append(
        if equippable {
            "click to equip"
        } else {
            "armor"
        },
    );
    assert(detail@ =~= bag_detail(item.rarity, equippable));
    BagCell { name, detail, equippable, rarity: item.rarity }
}

/// What the screen shows of a world. The figures are those of the weapons on the rack.
pub fn inventory_view(w: &World, content: &Content, figures: &Vec<WeaponFigures>) -> (v:
    InventoryView)
    requires
        figures.len() == w.loadout@.len(),
    ensures
        v.rack.len() == w.loadout@.len(),
        forall|i: int|
            0 <= i < w.loadout@.len() ==> is_rack_cell(#[trigger] v.rack@[i], *w, i, figures@[i]),
        v.bag.len() == w.inventory@.len(),
        forall|i: int|
            0 <= i < w.inventory@.len() ==> is_bag_cell(
                #[trigger] v.bag@[i],
                w.inventory@[i],
                content.bases@,
            ),
{
    let mut rack: Vec<RackCell> = Vec::new();
    for i in 0..w.loadout.len()
        invariant
            figures.len() == w.loadout@.len(),
            rack.len() == i,
            forall|k: int| 0 <= k < i ==> is_rack_cell(#[trigger] rack@[k], *w, k, figures@[k]),
    {
        rack.push(rack_cell(w, i, &figures[i]));
    }
    let mut bag: Vec<BagCell> = Vec::new();
    for i in 0..w.inventory.len()
        invariant
            bag.len() == i,
            forall|k: int|
                0 <= k < i ==> is_bag_cell(#[trigger] bag@[k], w.inventory@[k], content.bases@),
    {
        bag.push(bag_cell(&w.inventory[i], content.bases.as_slice()));
    }
    InventoryView { rack, bag }
}

/// What the mouse is over: the close button, slots of the rack, cells of the bag. Cells
/// that are not laid out are not in the list.
#[derive(Debug)]
pub struct Hover {
    pub close: bool,
    pub rack: Vec<bool>,
    pub bag: Vec<bool>,
}

/// Whether the mouse is over the given slot of the rack.
pub open spec fn over_slot(h: Hover, rack: Seq<RackCell>, i: int) -> bool {
    0 <= i < h.rack@.len() && i < rack.len() && h.rack@[i]
}

/// Whether the mouse is over the given weapon in the bag.
pub open spec fn over_weapon(h: Hover, bag: Seq<BagCell>, i: int) -> bool {
    0 <= i < h.bag@.len() && i < bag.len() && h.bag@[i] && bag[i].equippable
}

/// What a click does: what it hits last in the order of the screen, from the close button
/// over the rack to the bag.
pub fn clicked(view: &InventoryView, h: &Hover, click: bool) -> (action: Option<InvAction>)
    ensures
        match action {
            Some(InvAction::Equip(i)) => {
                &&& click
                &&& over_weapon(*h, view.bag@, i as int)
                &&& forall|k: int| i < k ==> !over_weapon(*h, view.bag@, k)
            },
            Some(InvAction::Switch(i)) => {
                &&& click
                &&& over_slot(*h, view.rack@, i as int)
                &&& forall|k: int| i < k ==> !over_slot(*h, view.rack@, k)
                &&& forall|k: int| !over_weapon(*h, view.bag@, k)
            },
            Some(InvAction::Close) => {
                &&& click
                &&& h.close
                &&& forall|k: int| !over_slot(*h, view.rack@, k)
                &&& forall|k: int| !over_weapon(*h, view.bag@, k)
            },
            None => click ==> {
                &&& !h.close
                &&& forall|k: int| !over_slot(*h, view.rack@, k)
                &&& forall|k: int| !over_weapon(*h, view.bag@, k)
            },
        },
{
    if !click {
        return None;
    }
    let mut i: usize = if h.bag.len() < view.bag.len() { h.bag.len() } else { view.bag.len() };
    while i > 0
        invariant
            click,
            i <= h.bag.len(),
            i <= view.bag.len(),
            forall|k: int| i <= k ==> !over_weapon(*h, view.bag@, k),
        decreases i,
    {
        i = i - 1;
        if h.bag[i] && view.bag[i].equippable {
            assert(over_weapon(*h, view.bag@, i as int));
            return Some(InvAction::Equip(i));
        }
        assert(!over_weapon(*h, view.bag@, i as int));
    }
    let mut i: usize = if h.rack.len() < view.rack.len() { h.rack.len() } else { view.rack.len() };
    while i > 0
        invariant
            click,
            i <= h.rack.len(),
            i <= view.rack.len(),
            forall|k: int| !over_weapon(*h, view.bag@, k),
            forall|k: int| i <= k ==> !over_slot(*h, view.rack@, k),
        decreases i,
    {
        i = i - 1;
        if h.rack[i] {
            assert(over_slot(*h, view.rack@, i as int));
            return Some(InvAction::Switch(i));
        }
        assert(!over_slot(*h, view.rack@, i as int));
    }
    if h.close {
        Some(InvAction::Close)
    } else {
        None
    }
}

/// What the screen's modal needs in a frame.
#[derive(Debug, Clone, Copy, PartialEq, Eq, Structural)]
pub enum Modal {
    Spawn,
    Despawn,
    Keep,
}

/// The modal is there while the inventory is open: it is put up when that opens and taken
/// down when it closes.
pub fn manage_inventory(open: bool, present: bool) -> (m: Modal)
    ensures
        m == (if open && !present {
            Modal::Spawn
        } else if !open && present {
            Modal::Despawn
        } else {
            Modal::Keep
        }),
{
    if open && !present {
        Modal::Spawn
    } else if !open && present {
        Modal::Despawn
    } else {
        Modal::Keep
    }
}

impl World {
    /// Does what a click asked for, and tells whether the inventory stays open. The
    /// appraisal is that of the item that is to be equipped. A screen that stays open has
    /// to be built anew.
    pub fn inventory_click(&mut self, action: InvAction, a: &Appraisal, content: &Content) -> (
        open: bool)
        requires
            old(self).wf(),
        ensures
            final(self).wf(),
            final(self).same_but_rack(*old(self)),
            open == !(action == InvAction::Close),
            match action {
                InvAction::Close => *final(self) == *old(self),
                InvAction::Switch(slot) => final(self).rack() == old(self).rack().activated(
                    slot as int,
                ),
                InvAction::Equip(index) => {
                    let item = old(self).inventory@[index as int];
                    let base = weapon_base(content.bases@, item.base@);
                    if index < old(self).inventory@.len() && base is Some {
                        let without = Rack {
                            inventory: old(self).inventory@.remove(index as int),
                            ..old(self).rack()
                        };
                        final(self).rack() == without.swapped(
                            racked(item, *a, base->0),
                        ).activated(without.slot_for(item.base@))
                    } else {
                        *final(self) == *old(self)
                    }
                },
            },
    {
        match action {
            InvAction::Close => false,
            InvAction::Switch(slot) => {
                self.switch_weapon(slot);
                true
            },
            InvAction::Equip(index) => {
                self.equip_from_inventory(index, a, content);
                true
            },
        }
    }
}

/// What the mouse is over: a slot or a cell that is listed as hovered and that is shown. In
/// the bag only weapons count.
pub proof fn law_hovering(h: Hover, view: InventoryView, i: int)
    ensures
        over_slot(h, view.rack@, i) <==> 0 <= i < view.rack@.len() && i < h.rack@.len()
            && h.rack@[i],
        over_weapon(h, view.bag@, i) <==> 0 <= i < view.bag@.len() && i < h.bag@.len()
            && h.bag@[i] && view.bag@[i].equippable,
{
}

/// How an item in the bag reads: by the name of its base, the first of its id, or by that id
/// where there is none. It can be clicked if that base goes into the weapon slot.
pub proof fn law_cells_of_the_bag(c: BagCell, item: ItemInstance, bases: Seq<BaseItem>, k: int)
    requires
        is_bag_cell(c, item, bases),
        0 <= k <= bases.len(),
        forall|j: int| 0 <= j < k ==> (#[trigger] bases[j]).id@ != item.base@,
        k < bases.len() ==> bases[k].id@ == item.base@,
    ensures
        c.name@ == if k < bases.len() {
            bases[k].name@
        } else {
            item.base@
        },
        c.equippable <==> k < bases.len() && bases[k].slot@ == "weapon"@,
        c.rarity == item.rarity,
        c.detail@ == item.rarity.label() + " · "@ + if c.equippable {
            "click to equip"@
        } else {
            "armor"@
        },
{
    if k < bases.len() {
        assert(first_base(bases, item.base@, k));
        lemma_base_of(bases, item.base@, k);
    } else if has_base(bases, item.base@) {
        let j = choose|j: int| first_base(bases, item.base@, j);
        assert(bases[j].id@ == item.base@);
    }
}

/// How a slot of the rack reads: by its number, counted from one, and the name of its weapon;
/// the active one is marked.
pub proof fn law_cells_of_the_rack(c: RackCell, w: World, i: int, f: WeaponFigures)
    requires
        is_rack_cell(c, w, i, f),
        0 <= i < w.loadout@.len(),
    ensures
        c.active <==> i == w.active,
        c.rarity == w.loadout@[i].item.rarity,
        exists|number: Seq<char>|
            c.label@ == #[trigger] (number + ": "@) + w.loadout@[i].name@ && spelled(number, 10)
                == i + 1,
        c.detail@ == "dmg "@ + f.damage@ + "  rate "@ + f.rate@,
{
    let number = decimal((i + 1) as nat);
    law_digits_spell_the_number((i + 1) as nat);
    assert(c.label@ == (number + ": "@) + w.loadout@[i].name@);
}

} // verus!
