//! Combat statistics of a unit and its ranged damage profile.

use vstd::prelude::*;
use crate::arith::{
    clamp_i32, lemma_mul_bounded, quotient, sat_mul, saturate, saturating_product, trunc_div,
};

verus! {

/// One distance interval of a ranged profile.  Inside `[start, end]` the
/// damage modifier (a percentage) runs linearly from
/// `start_damage_modifier` to `end_damage_modifier`.
#[derive(Clone, Copy, Debug, PartialEq, Eq, Structural)]
pub struct RangedBand {
    pub ranged_attack: i32,
    pub start: i32,
    pub end: i32,
    pub start_damage_modifier: i32,
    pub end_damage_modifier: i32,
    pub org_damage_ratio: i32,
}

impl RangedBand {
    /// The band covers `range`.
    pub open spec fn covers(self, range: int) -> bool {
        self.start <= range <= self.end
    }

    /// A band of zero width cannot be interpolated over.
    pub open spec fn degenerate(self) -> bool {
        self.start == self.end
    }

    /// Numerator of the damage at `range`, over the denominator
    /// [`Self::damage_denominator`]: the base attack times
    /// `100 + modifier(range)`, with the interpolation kept exact.
    pub open spec fn damage_numerator(self, range: int) -> int {
        let width = self.end - self.start;
        let offset = range - self.start;
        self.ranged_attack * (100 * width + self.start_damage_modifier * width - (
        self.start_damage_modifier - self.end_damage_modifier) * offset)
    }

    /// Denominator of the damage: a hundred times the width of the band.
    pub open spec fn damage_denominator(self) -> int {
        100 * (self.end - self.start)
    }

    /// Damage dealt at `range`: `ranged_attack * (1 + modifier / 100)`
    /// with the modifier interpolated between the two ends of the band,
    /// rounded toward zero; 0 outside the band.
    pub open spec fn raw_damage(self, range: int) -> int {
        if self.covers(range) {
            clamp_i32(trunc_div(self.damage_numerator(range), self.damage_denominator()))
        } else {
            0
        }
    }

    /// A band from its six values.
    pub fn new(
        ranged_attack: i32,
        start: i32,
        end: i32,
        start_damage_modifier: i32,
        end_damage_modifier: i32,
        org_damage_ratio: i32,
    ) -> (band: RangedBand)
        ensures
            band == (RangedBand {
                ranged_attack,
                start,
                end,
                start_damage_modifier,
                end_damage_modifier,
                org_damage_ratio,
            }),
    {
        RangedBand {
            ranged_attack,
            start,
            end,
            start_damage_modifier,
            end_damage_modifier,
            org_damage_ratio,
        }
    }

    /// Damage of this band at `range`, as a whole number.
    pub fn get_raw_damage(&self, range: i32) -> (damage: i32)
        requires
            self.covers(range as int) ==> !self.degenerate(),
        ensures
            damage as int == self.raw_damage(range as int),
    {
        if range < self.start || range > self.end {
            return 0;
        }
        let width: i128 = self.end as i128 - self.start as i128;
        let offset: i128 = range as i128 - self.start as i128;
        let start_modifier: i128 = self.start_damage_modifier as i128;
        let slope: i128 = self.start_damage_modifier as i128 - self.end_damage_modifier as i128;
        proof {
            lemma_mul_bounded(start_modifier as int, width as int, 0x8000_0000, 0x1_0000_0000);
            lemma_mul_bounded(slope as int, offset as int, 0x1_0000_0000, 0x1_0000_0000);
        }
        let scaled: i128 = 100 * width + start_modifier * width - slope * offset;
        proof {
            lemma_mul_bounded(
                self.ranged_attack as int,
                scaled as int,
                0x8000_0000,
                0x4_0000_0000_0000_0000,
            );
        }
        let numerator: i128 = self.ranged_attack as i128 * scaled;
        saturate(quotient(numerator, 100 * width))
    }
}

/// The first band of `bands`, at or after index `from`, that covers `range`.
pub open spec fn first_band_from(bands: Seq<RangedBand>, range: int, from: int) -> Option<
    RangedBand,
>
    decreases bands.len() - from,
{
    if from < 0 || from >= bands.len() {
        None
    } else if bands[from].covers(range) {
        Some(bands[from])
    } else {
        first_band_from(bands, range, from + 1)
    }
}

/// The first band that covers `range`.
pub open spec fn first_band(bands: Seq<RangedBand>, range: int) -> Option<RangedBand> {
    first_band_from(bands, range, 0)
}

/// Damage of a profile at `range`: that of the first covering band, 0
/// where no band covers it.
pub open spec fn damage_at(bands: Seq<RangedBand>, range: int) -> int {
    match first_band(bands, range) {
        Some(band) => band.raw_damage(range),
        None => 0,
    }
}

/// Organization-damage ratio at `range`: that of the first covering band.
pub open spec fn org_ratio_at(bands: Seq<RangedBand>, range: int) -> int {
    match first_band(bands, range) {
        Some(band) => band.org_damage_ratio as int,
        None => 0,
    }
}

/// Organization-damage potential at `range`: ratio times damage.
pub open spec fn odp_at(bands: Seq<RangedBand>, range: int) -> int {
    sat_mul(org_ratio_at(bands, range), damage_at(bands, range))
}

/// Sum of the damage at every whole range in `[from, to)`.
pub open spec fn damage_sum(bands: Seq<RangedBand>, from: int, to: int) -> int
    decreases to - from,
{
    if from >= to {
        0
    } else {
        damage_sum(bands, from, to - 1) + damage_at(bands, to - 1)
    }
}

/// Sum of the organization-damage potential at every whole range in `[from, to)`.
pub open spec fn odp_sum(bands: Seq<RangedBand>, from: int, to: int) -> int
    decreases to - from,
{
    if from >= to {
        0
    } else {
        odp_sum(bands, from, to - 1) + odp_at(bands, to - 1)
    }
}

/// Mean damage over the ranges `[from, to)`, rounded toward zero.  An
/// empty band `(a, a)` gives the value at `a`; a reversed one gives 0.
pub open spec fn average_damage(bands: Seq<RangedBand>, from: int, to: int) -> int {
    if from == to {
        damage_at(bands, from)
    } else if from > to {
        0
    } else {
        clamp_i32(trunc_div(damage_sum(bands, from, to), to - from))
    }
}

/// Mean organization-damage potential over the ranges `[from, to)`.
pub open spec fn average_odp(bands: Seq<RangedBand>, from: int, to: int) -> int {
    if from == to {
        odp_at(bands, from)
    } else if from > to {
        0
    } else {
        clamp_i32(trunc_div(odp_sum(bands, from, to), to - from))
    }
}

/// No band of the profile has zero width.
pub open spec fn bands_wf(bands: Seq<RangedBand>) -> bool {
    forall|i: int| 0 <= i < bands.len() ==> !(#[trigger] bands[i]).degenerate()
}

/// An ordered list of distance bands.
#[derive(Debug)]
pub struct RangedStats {
    bands: Vec<RangedBand>,
}

impl View for RangedStats {
    type V = Seq<RangedBand>;

    closed spec fn view(&self) -> Seq<RangedBand> {
        self.bands@
    }
}

impl Clone for RangedStats {
    fn clone(&self) -> (copy: Self)
        ensures
            copy@ == self@,
    {
        RangedStats::new(self.bands.as_slice())
    }
}

impl RangedStats {
    /// No band of the profile has zero width.
    pub open spec fn wf(&self) -> bool {
        bands_wf(self@)
    }

    /// A profile of the given bands, in their order.
    pub fn new(bands: &[RangedBand]) -> (stats: RangedStats)
        ensures
            stats@ == bands@,
    {
        let mut copy: Vec<RangedBand> = Vec::new();
        let mut i: usize = 0;
        while i < bands.len()
            invariant
                i <= bands.len(),
                copy@ == bands@.take(i as int),
            decreases bands.len() - i,
        {
            copy.push(bands[i]);
            assert(bands@.take(i as int + 1) == bands@.take(i as int).push(bands@[i as int]));
            i += 1;
        }
        assert(bands@.take(bands.len() as int) == bands@);
        RangedStats { bands: copy }
    }

    /// Whether no band of the profile has zero width.
    pub fn is_sound(&self) -> (sound: bool)
        ensures
            sound == self.wf(),
    {
        let mut i: usize = 0;
        while i < self.bands.len()
            invariant
                i <= self.bands.len(),
                forall|j: int| 0 <= j < i ==> !(#[trigger] self@[j]).degenerate(),
            decreases self.bands.len() - i,
        {
            if self.bands[i].start == self.bands[i].end {
                assert(self@[i as int].degenerate());
                return false;
            }
            i += 1;
        }
        true
    }

    /// The bands of the profile, in order.
    pub fn bands(&self) -> (bands: &Vec<RangedBand>)
        ensures
            bands@ == self@,
    {
        &self.bands
    }

    /// Index of the first band that covers `range`.
    fn find_band(&self, range: i32) -> (found: Option<usize>)
        ensures
            match found {
                Some(i) => i < self@.len() && first_band(self@, range as int) == Some(self@[i as int]),
                None => first_band(self@, range as int).is_none(),
            },
    {
        let mut i: usize = 0;
        while i < self.bands.len()
            invariant
                i <= self.bands.len(),
                first_band(self@, range as int) == first_band_from(self@, range as int, i as int),
            decreases self.bands.len() - i,
        {
            let band = &self.bands[i];
            if range >= band.start && range <= band.end {
                return Some(i);
            }
            i += 1;
        }
        None
    }

    /// Damage at `range`: that of the first band that covers it, 0 where
    /// none does.
    pub fn get_damage_at_range(&self, range: i32) -> (damage: i32)
        requires
            self.wf(),
        ensures
            damage as int == damage_at(self@, range as int),
    {
        match self.find_band(range) {
            Some(i) => self.bands[i].get_raw_damage(range),
            None => 0,
        }
    }

    /// Organization-damage ratio at `range`: that of the first band that
    /// covers it, 0 where none does.
    pub fn get_org_ratio_at_range(&self, range: i32) -> (ratio: i32)
        ensures
            ratio as int == org_ratio_at(self@, range as int),
    {
        match self.find_band(range) {
            Some(i) => self.bands[i].org_damage_ratio,
            None => 0,
        }
    }

    /// Organization-damage potential at `range`.
    pub fn get_odp_at_range(&self, range: i32) -> (odp: i32)
        requires
            self.wf(),
        ensures
            odp as int == odp_at(self@, range as int),
    {
        saturating_product(self.get_org_ratio_at_range(range), self.get_damage_at_range(range))
    }

    /// Mean damage over the ranges from `band.0` up to, but without,
    /// `band.1`.  A band `(a, a)` gives the damage at `a`; a reversed band
    /// gives 0.
    pub fn get_average_damage_over_band(&self, band: (i32, i32)) -> (damage: i32)
        requires
            self.wf(),
        ensures
            damage as int == average_damage(self@, band.0 as int, band.1 as int),
            band.0 == band.1 ==> damage as int == damage_at(self@, band.0 as int),
            band.0 > band.1 ==> damage == 0,
    {
        if band.0 == band.1 {
            return self.get_damage_at_range(band.0);
        } else if band.0 > band.1 {
            return 0;
        }
        let mut total: i128 = 0;
        let mut n: i32 = band.0;
        while n < band.1
            invariant
                self.wf(),
                band.0 <= n <= band.1,
                total as int == damage_sum(self@, band.0 as int, n as int),
                -(n - band.0) * 0x8000_0000 <= total <= (n - band.0) * 0x8000_0000,
            decreases band.1 - n,
        {
            total = total + self.get_damage_at_range(n) as i128;
            n += 1;
        }
        saturate(quotient(total, band.1 as i128 - band.0 as i128))
    }

    /// Mean organization-damage potential over the ranges from `band.0`
    /// up to, but without, `band.1`.  A band `(a, a)` gives the value at
    /// `a`; a reversed band gives 0.
    pub fn get_average_odp_over_band(&self, band: (i32, i32)) -> (odp: i32)
        requires
            self.wf(),
        ensures
            odp as int == average_odp(self@, band.0 as int, band.1 as int),
            band.0 == band.1 ==> odp as int == odp_at(self@, band.0 as int),
            band.0 > band.1 ==> odp == 0,
    {
        if band.0 == band.1 {
            return self.get_odp_at_range(band.0);
        } else if band.0 > band.1 {
            return 0;
        }
        let mut total: i128 = 0;
        let mut n: i32 = band.0;
        while n < band.1
            invariant
                self.wf(),
                band.0 <= n <= band.1,
                total as int == odp_sum(self@, band.0 as int, n as int),
                -(n - band.0) * 0x8000_0000 <= total <= (n - band.0) * 0x8000_0000,
            decreases band.1 - n,
        {
            total = total + self.get_odp_at_range(n) as i128;
            n += 1;
        }
        saturate(quotient(total, band.1 as i128 - band.0 as i128))
    }
}

/// Cost and combat statistics of a unit.
#[derive(Debug)]
pub struct UnitStats {
    pub manpower_cost: i32,
    pub gold_cost: i32,
    pub hp: i32,
    pub organization: i32,
    pub stamina: Option<i32>,
    pub melee_attack: i32,
    pub melee_defense: i32,
    pub charge_penetration: i32,
    pub charge_resistance: i32,
    pub ranged_stats: Option<RangedStats>,
    pub has_skirmishers: bool,
}

/// What a [`UnitStats`] holds, as plain values.
pub struct UnitStatsView {
    pub manpower_cost: i32,
    pub gold_cost: i32,
    pub hp: i32,
    pub organization: i32,
    pub stamina: Option<i32>,
    pub melee_attack: i32,
    pub melee_defense: i32,
    pub charge_penetration: i32,
    pub charge_resistance: i32,
    pub ranged_stats: Option<Seq<RangedBand>>,
    pub has_skirmishers: bool,
}

impl View for UnitStats {
    type V = UnitStatsView;

    open spec fn view(&self) -> UnitStatsView {
        UnitStatsView {
            manpower_cost: self.manpower_cost,
            gold_cost: self.gold_cost,
            hp: self.hp,
            organization: self.organization,
            stamina: self.stamina,
            melee_attack: self.melee_attack,
            melee_defense: self.melee_defense,
            charge_penetration: self.charge_penetration,
            charge_resistance: self.charge_resistance,
            ranged_stats: match self.ranged_stats {
                Some(ranged) => Some(ranged@),
                None => None,
            },
            has_skirmishers: self.has_skirmishers,
        }
    }
}

impl UnitStatsView {
    /// The ranged profile, if there is one, has no band of zero width.
    pub open spec fn wf(self) -> bool {
        match self.ranged_stats {
            Some(bands) => bands_wf(bands),
            None => true,
        }
    }
}

impl Clone for UnitStats {
    fn clone(&self) -> (copy: Self)
        ensures
            copy@ == self@,
    {
        UnitStats {
            manpower_cost: self.manpower_cost,
            gold_cost: self.gold_cost,
            hp: self.hp,
            organization: self.organization,
            stamina: self.stamina,
            melee_attack: self.melee_attack,
            melee_defense: self.melee_defense,
            charge_penetration: self.charge_penetration,
            charge_resistance: self.charge_resistance,
            ranged_stats: match &self.ranged_stats {
                Some(ranged) => Some(ranged.clone()),
                None => None,
            },
            has_skirmishers: self.has_skirmishers,
        }
    }
}

} // verus!
