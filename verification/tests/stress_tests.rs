use proteus::stress::{
    churn_grid_rows, churn_slot_cell, solid_rgba, StressRng, STRESS_RNG_SEED,
    TEXTURE_CHURN_COLS, TEXTURE_CHURN_SLOTS,
};

fn xorshift(mut x: u32) -> u32 {
    x ^= x << 13;
    x ^= x >> 17;
    x ^= x << 5;
    x
}

#[test]
fn rng_steps_are_xorshift32_from_the_seed() {
    let mut rng = StressRng::new();
    let mut expected = STRESS_RNG_SEED;
    for _ in 0..1000 {
        expected = xorshift(expected);
        let got = rng.next_u32();
        assert_eq!(got, expected);
        assert_ne!(got, 0);
    }
}

#[test]
fn rng_first_value_is_fixed() {
    let mut rng = StressRng::new();
    assert_eq!(rng.next_u32(), xorshift(0x9E37_79B9));
}

#[test]
fn solid_rgba_repeats_the_pixel() {
    let buf = solid_rgba([10, 20, 30, 255], 3, 2);
    assert_eq!(buf.len(), 24);
    assert_eq!(buf, [10u8, 20, 30, 255].repeat(6));
    assert!(solid_rgba([1, 2, 3, 4], 0, 5).is_empty());
}

#[test]
fn churn_slots_fill_rows_left_to_right() {
    assert_eq!(churn_slot_cell(0), (0, 0));
    assert_eq!(churn_slot_cell(3), (3, 0));
    assert_eq!(churn_slot_cell(4), (0, 1));
    assert_eq!(churn_slot_cell(7), (3, 1));
    assert_eq!(churn_grid_rows(), 2);
    assert_eq!(TEXTURE_CHURN_SLOTS, 8);
    assert_eq!(TEXTURE_CHURN_COLS, 4);
}
