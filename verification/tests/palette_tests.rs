use dino_run::fx::FX_ONE;
use dino_run::palette::generate_normal_hue_vec;

#[test]
fn sixteen_hues_subdivide_evenly() {
    let hues = generate_normal_hue_vec(16);
    assert_eq!(hues.len(), 16);
    assert_eq!(
        hues,
        vec![
            0, 500_000, 250_000, 750_000, 125_000, 625_000, 375_000, 875_000, 62_500, 562_500,
            312_500, 812_500, 187_500, 687_500, 437_500, 937_500,
        ]
    );
}

#[test]
fn count_rounds_up_to_a_doubling() {
    let hues = generate_normal_hue_vec(3);
    assert_eq!(hues.len(), 4, "rounds always finish: three hues need a table of four");
    assert_eq!(hues, vec![0, 500_000, 250_000, 750_000]);
}

#[test]
fn single_hue_is_zero() {
    assert_eq!(generate_normal_hue_vec(1), vec![0]);
    assert_eq!(generate_normal_hue_vec(0), vec![0]);
}

#[test]
fn thirty_two_hues_stay_in_range_and_distinct() {
    let hues = generate_normal_hue_vec(32);
    assert_eq!(hues.len(), 32);
    for (i, &h) in hues.iter().enumerate() {
        assert!((0..FX_ONE).contains(&h));
        for &other in &hues[..i] {
            assert_ne!(h, other, "hues must be pairwise distinct");
        }
    }
}
