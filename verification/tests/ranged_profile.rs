use army_optimizer::{RangedBand, RangedStats};

fn sloped() -> RangedBand {
    RangedBand::new(10, 0, 100, 0, -50, 3)
}

#[test]
fn damage_is_interpolated_across_the_band() {
    let band = sloped();
    assert_eq!(band.get_raw_damage(0), 10);
    assert_eq!(band.get_raw_damage(100), 5);
    assert_eq!(band.get_raw_damage(50), 7);
}

#[test]
fn profile_takes_damage_from_its_band() {
    let stats = RangedStats::new(&[sloped()]);
    assert_eq!(stats.get_damage_at_range(0), 10);
    assert_eq!(stats.get_damage_at_range(100), 5);
    assert_eq!(stats.get_damage_at_range(50), 7);
}

#[test]
fn damage_outside_every_band_is_zero() {
    let stats = RangedStats::new(&[sloped()]);
    assert_eq!(stats.get_damage_at_range(101), 0);
    assert_eq!(stats.get_damage_at_range(-1), 0);
    assert_eq!(stats.get_org_ratio_at_range(101), 0);
    assert_eq!(sloped().get_raw_damage(101), 0);
}

#[test]
fn first_covering_band_wins() {
    let near = RangedBand::new(20, 0, 50, 0, 0, 7);
    let far = RangedBand::new(8, 40, 120, 0, 0, 2);
    let stats = RangedStats::new(&[near, far]);
    assert_eq!(stats.get_damage_at_range(45), 20);
    assert_eq!(stats.get_org_ratio_at_range(45), 7);
    assert_eq!(stats.get_damage_at_range(51), 8);
    assert_eq!(stats.get_org_ratio_at_range(51), 2);
    assert_eq!(stats.get_odp_at_range(45), 140);
}

#[test]
fn rising_modifier_raises_damage() {
    let band = RangedBand::new(200, 10, 20, -100, 100, 1);
    assert_eq!(band.get_raw_damage(10), 0);
    assert_eq!(band.get_raw_damage(15), 200);
    assert_eq!(band.get_raw_damage(20), 400);
    assert_eq!(band.get_raw_damage(13), 120);
}

#[test]
fn negative_damage_is_cut_toward_zero() {
    let band = RangedBand::new(3, 0, 10, -150, -150, 1);
    assert_eq!(band.get_raw_damage(5), -1);
}

#[test]
fn damage_is_held_at_the_limits() {
    let band = RangedBand::new(i32::MAX, 0, 10, i32::MAX, i32::MAX, 1);
    assert_eq!(band.get_raw_damage(5), i32::MAX);
    let band = RangedBand::new(i32::MIN, 0, 10, i32::MAX, i32::MAX, 1);
    assert_eq!(band.get_raw_damage(5), i32::MIN);
}

#[test]
fn average_over_an_empty_band_is_the_point_value() {
    let stats = RangedStats::new(&[sloped()]);
    for range in [0, 37, 50, 100, 150] {
        assert_eq!(
            stats.get_average_damage_over_band((range, range)),
            stats.get_damage_at_range(range)
        );
        assert_eq!(
            stats.get_average_odp_over_band((range, range)),
            stats.get_odp_at_range(range)
        );
    }
}

#[test]
fn average_over_a_reversed_band_is_zero() {
    let stats = RangedStats::new(&[sloped()]);
    assert_eq!(stats.get_average_damage_over_band((40, 20)), 0);
    assert_eq!(stats.get_average_odp_over_band((40, 20)), 0);
    assert_eq!(stats.get_average_damage_over_band((1, 0)), 0);
}

#[test]
fn average_is_the_mean_over_the_ranges_without_the_last() {
    let stats = RangedStats::new(&[sloped()]);
    // ranges 0, 1, 2, 3 give 10, 9, 9, 9
    assert_eq!(stats.get_damage_at_range(1), 9);
    assert_eq!(stats.get_average_damage_over_band((0, 4)), 9);
    // ranges 98 to 101: 5, 5, 5, 0
    assert_eq!(stats.get_average_damage_over_band((98, 102)), 3);
    assert_eq!(stats.get_average_odp_over_band((0, 4)), 27);
    assert_eq!(stats.get_average_odp_over_band((98, 102)), 11);
}

#[test]
fn profile_keeps_its_bands_in_order() {
    let near = RangedBand::new(20, 0, 50, 0, 0, 7);
    let far = RangedBand::new(8, 40, 120, 0, 0, 2);
    let stats = RangedStats::new(&[near, far]);
    assert_eq!(stats.bands().len(), 2);
    assert_eq!(stats.bands()[0], near);
    assert_eq!(stats.bands()[1], far);
    let copy = stats.clone();
    assert_eq!(copy.bands()[1], far);
}
