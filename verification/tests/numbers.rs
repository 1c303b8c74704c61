use graph_renderer::layout::scale_length;
use graph_renderer::utils::{
    ceil_power_of_two, clamp_to_u32, floor_div, lerp, NumUtils, PreAllocatedCollection, UNIT,
};

#[test]
fn to_u32_saturates() {
    assert_eq!((-5i32).to_u32(), 0);
    assert_eq!(0i32.to_u32(), 0);
    assert_eq!(17i32.to_u32(), 17);
    assert_eq!(i32::MAX.to_u32(), 2147483647);
    assert_eq!((-1i64).to_u32(), 0);
    assert_eq!(4294967295i64.to_u32(), u32::MAX);
    assert_eq!(4294967296i64.to_u32(), u32::MAX);
    assert_eq!(i64::MAX.to_u32(), u32::MAX);
}

#[test]
fn ceil_nearest_power_2_rounds_up() {
    assert_eq!(1i32.ceil_nearest_power_2(), 1);
    assert_eq!(2i32.ceil_nearest_power_2(), 2);
    assert_eq!(3i32.ceil_nearest_power_2(), 4);
    assert_eq!(10i32.ceil_nearest_power_2(), 16);
    assert_eq!(16i32.ceil_nearest_power_2(), 16);
    assert_eq!(17i64.ceil_nearest_power_2(), 32);
    assert_eq!(i32::MAX.ceil_nearest_power_2(), 1 << 31);
    assert_eq!(i64::MAX.ceil_nearest_power_2(), 1 << 63);
}

#[test]
fn ceil_nearest_power_2_of_nothing_is_zero() {
    assert_eq!(0i32.ceil_nearest_power_2(), 0);
    assert_eq!((-3i32).ceil_nearest_power_2(), 0);
    assert_eq!(i64::MIN.ceil_nearest_power_2(), 0);
}

#[test]
fn ceil_power_of_two_of_wide_numbers() {
    assert_eq!(ceil_power_of_two(0), 0);
    assert_eq!(ceil_power_of_two(1), 1);
    assert_eq!(ceil_power_of_two((1u128 << 100) + 1), 1u128 << 101);
    assert_eq!(ceil_power_of_two(1u128 << 126), 1u128 << 126);
}

#[test]
fn lerp_interpolates_both_ways() {
    assert_eq!(lerp(10, 20, 0), 10);
    assert_eq!(lerp(10, 20, UNIT), 20);
    assert_eq!(lerp(10, 20, UNIT / 2), 15);
    assert_eq!(lerp(20, 10, UNIT / 2), 15);
    assert_eq!(lerp(20, 10, UNIT), 10);
    assert_eq!(lerp(0, u32::MAX, UNIT), u32::MAX);
    assert_eq!(lerp(u32::MAX, 0, UNIT), 0);
    // Rounded towards the start.
    assert_eq!(lerp(0, 3, UNIT / 2), 1);
    assert_eq!(lerp(3, 0, UNIT / 2), 2);
}

#[test]
fn floor_div_rounds_down() {
    assert_eq!(floor_div(7, 2), 3);
    assert_eq!(floor_div(-7, 2), -4);
    assert_eq!(floor_div(-8, 2), -4);
    assert_eq!(floor_div(0, 5), 0);
    assert_eq!(floor_div(-1, 5), -1);
}

#[test]
fn clamp_to_u32_saturates() {
    assert_eq!(clamp_to_u32(-1), 0);
    assert_eq!(clamp_to_u32(5), 5);
    assert_eq!(clamp_to_u32(1 << 40), u32::MAX);
}

#[test]
fn scale_length_takes_a_fraction() {
    assert_eq!(scale_length(100, UNIT), 100);
    assert_eq!(scale_length(100, UNIT / 2), 50);
    assert_eq!(scale_length(100, 0), 0);
    assert_eq!(scale_length(3, UNIT / 2), 1);
    assert_eq!(scale_length(u32::MAX, u32::MAX), u32::MAX);
}

#[test]
fn collection_keeps_its_storage_when_resized() {
    let mut collection = PreAllocatedCollection::new(7u32, 2, 5);
    assert_eq!(collection.len(), 2);
    assert_eq!(collection.to_vec(), vec![7, 7]);
    collection.set(1, 9);
    collection.set_size(4);
    assert_eq!(collection.to_vec(), vec![7, 9, 7, 7]);
    collection.set(3, 1);
    collection.set_size(1);
    assert_eq!(collection.to_vec(), vec![7]);
    collection.set_size(5);
    assert_eq!(collection.to_vec(), vec![7, 9, 7, 1, 7]);
    assert_eq!(collection.get(3), 1);
}

#[test]
fn collection_may_be_empty() {
    let collection = PreAllocatedCollection::new(0u8, 0, 0);
    assert_eq!(collection.len(), 0);
    assert_eq!(collection.to_vec(), Vec::<u8>::new());
}
