use sav1n::macroblocks::{align_power_of_two, mbs};

#[test]
fn align_rounds_up_to_the_power_of_two() {
    assert_eq!(align_power_of_two(13, 3), 16);
    assert_eq!(align_power_of_two(16, 3), 16);
    assert_eq!(align_power_of_two(17, 3), 24);
    assert_eq!(align_power_of_two(0, 3), 0);
    assert_eq!(align_power_of_two(5, 0), 5);
    assert_eq!(align_power_of_two(1, 30), 1 << 30);
    assert_eq!(align_power_of_two(-5, 3), 0);
    assert_eq!(align_power_of_two(-8, 3), -8);
    assert_eq!(align_power_of_two(-9, 3), -8);
    assert_eq!(align_power_of_two(i32::MAX - 7, 3), i32::MAX - 7);
    assert_eq!(align_power_of_two(i32::MIN, 4), i32::MIN);
}

#[test]
fn macroblock_counts() {
    assert_eq!(mbs(384, 288), 432);
    assert_eq!(mbs(240, 160), 150);
    assert_eq!(mbs(640, 480), 1200);
    assert_eq!(mbs(1920, 1080), 8160);
    assert_eq!(mbs(1, 1), 1);
    assert_eq!(mbs(0, 0), 0);
    assert_eq!(mbs(9, 1), 1);
    assert_eq!(mbs(17, 1), 2);
}
