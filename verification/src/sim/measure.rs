//! What a drop is worth: its damage and its time to kill, as it fell and fully kitted.

use vstd::prelude::*;

use crate::rules::affix::Affix;
use crate::rules::aggregate::{aggregate_item, is_sheet, StatSheet};
use crate::rules::item::{Attachment, BaseItem, ItemInstance};
use crate::scalar::Scalar;

verus! {

/// Damage per second, and seconds to kill the baseline target.
#[derive(Debug, Clone, Copy, PartialEq, Eq, Structural)]
pub struct Estimate {
    pub dps: Scalar,
    pub ttk: Scalar,
}

/// The estimates of one drop. The times to kill per enemy are those of the drop as it fell.
#[derive(Debug)]
pub struct DropMetrics {
    pub dps: Scalar,
    pub ttk: Scalar,
    pub kit_dps: Scalar,
    pub kit_ttk: Scalar,
    pub ttk_per_enemy: Vec<Scalar>,
}

/// A time to kill as a figure: zero stands for never.
pub open spec fn figure(ttk: Option<Scalar>) -> Scalar {
    match ttk {
        Some(t) => t,
        None => Scalar { bits: 0 },
    }
}

/// The estimate of a weapon that does `dps` to a target without defenses. One that does no
/// damage never kills.
pub open spec fn estimate_of(dps: Scalar, ttk: Option<Scalar>) -> Estimate {
    Estimate {
        dps,
        ttk: if !dps.is_nan() && dps.value() > 0 {
            figure(ttk)
        } else {
            Scalar { bits: 0 }
        },
    }
}

fn figure_or_zero(ttk: Option<Scalar>) -> (t: Scalar)
    ensures
        t == figure(ttk),
{
    match ttk {
        Some(t) => t,
        None => Scalar::zero(),
    }
}

/// The estimate of a weapon that does `dps` to a target without defenses and kills the
/// baseline target in `ttk`.
pub fn naked_metrics(dps: Scalar, ttk: Option<Scalar>) -> (e: Estimate)
    ensures
        e == estimate_of(dps, ttk),
{
    let ttk = if dps.is_positive() {
        figure_or_zero(ttk)
    } else {
        Scalar::zero()
    };
    Estimate { dps, ttk }
}

/// The stats of a drop as it fell, and those of the same drop with `combo` attached in
/// place of what is. The drop itself stays as it is.
pub fn kit_sheets(
    item: &mut ItemInstance,
    base: &BaseItem,
    affixes: &[Affix],
    attachments: &[Attachment],
    combo: Vec<String>,
) -> (sheets: (StatSheet, StatSheet))
    ensures
        *final(item) == *old(item),
        is_sheet(sheets.0, *old(item), *base, affixes@, Seq::empty()),
        is_sheet(
            sheets.1,
            (ItemInstance { attached: combo, ..*old(item) }),
            *base,
            affixes@,
            attachments@,
        ),
{
    let nothing: Vec<Attachment> = Vec::new();
    let naked = aggregate_item(item, base, affixes, nothing.as_slice());
    assert(nothing@ =~= Seq::empty());
    let mut other = combo;
    std::mem::swap(&mut item.attached, &mut other);
    let kitted = aggregate_item(item, base, affixes, attachments);
    std::mem::swap(&mut item.attached, &mut other);
    (naked, kitted)
}

/// The estimates of a drop, put together.
pub fn measure(naked: Estimate, kitted: Estimate, per_enemy: &Vec<Option<Scalar>>) -> (m:
    DropMetrics)
    ensures
        m.dps == naked.dps,
        m.ttk == naked.ttk,
        m.kit_dps == kitted.dps,
        m.kit_ttk == kitted.ttk,
        m.ttk_per_enemy@ == per_enemy@.map_values(|t: Option<Scalar>| figure(t)),
{
    let mut ttk_per_enemy: Vec<Scalar> = Vec::new();
    for i in 0..per_enemy.len()
        invariant
            ttk_per_enemy@ == per_enemy@.take(i as int).map_values(
                |t: Option<Scalar>| figure(t),
            ),
    {
        ttk_per_enemy.push(figure_or_zero(per_enemy[i]));
        assert(ttk_per_enemy@ =~= per_enemy@.take(i + 1).map_values(
            |t: Option<Scalar>| figure(t),
        ));
    }
    assert(per_enemy@.take(per_enemy@.len() as int) =~= per_enemy@);
    DropMetrics {
        dps: naked.dps,
        ttk: naked.ttk,
        kit_dps: kitted.dps,
        kit_ttk: kitted.ttk,
        ttk_per_enemy,
    }
}

/// A weapon is estimated at the damage that it does, and at the time in which it kills if it
/// ever does; that is zero where it does no damage or never kills.
pub proof fn law_estimates(dps: Scalar, seconds: Scalar)
    ensures
        estimate_of(dps, Some(seconds)).dps == dps,
        estimate_of(dps, None).ttk.bits == 0,
        !dps.is_nan() && dps.value() > 0 ==> estimate_of(dps, Some(seconds)).ttk == seconds,
        dps.is_nan() || dps.value() <= 0 ==> estimate_of(dps, Some(seconds)).ttk.bits == 0,
        figure(Some(seconds)) == seconds,
        figure(None).bits == 0,
{
}

} // verus!
