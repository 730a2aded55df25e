use ref_arena::exercises::closures::{
    call_twice, call_twice2, count_selected_cities, count_selected_cities2, has_monster_attack,
    City,
};
use ref_arena::exercises::collections::{concat_slices, sort_in_place, use_array, use_collections};
use ref_arena::exercises::iterators::{
    cmp, consume_iterators, factorial, fibonacci, parse_number, partition, reverse_values,
    take_values, triangle, use_adapters, use_fuse, Flaky, Fused,
};
use ref_arena::exercises::moves::move_control_flow;
use ref_arena::exercises::numeric::{
    overflowed_arithmetic_methods, overflowing_add_u8, overflowing_sub_u8,
};
use ref_arena::exercises::references::{
    factorial as full_factorial, g, ref_to_expr, ref_to_ref, return_ref, smallest,
    struct_containing_ref,
};
use ref_arena::exercises::robot::Robot;
use ref_arena::exercises::strings::byte_strings;
use ref_arena::exercises::traits::{dot, dot_g, use_dot_g};
use ref_arena::exercises::utility::{clamp_to_i32, use_utility_traits};
use std::cmp::Ordering;

#[test]
fn overflowing_byte_arithmetic() {
    assert_eq!(overflowing_sub_u8(255, 2), (253, false));
    assert_eq!(overflowing_add_u8(255, 2), (1, true));
    assert_eq!(overflowing_add_u8(200, 55), (255, false));
    assert_eq!(overflowing_add_u8(200, 56), (0, true));
    assert_eq!(overflowing_sub_u8(0, 1), (255, true));
    overflowed_arithmetic_methods();
}

#[test]
fn byte_string_demo_runs() {
    byte_strings();
}

#[test]
fn smallest_returns_the_minimum() {
    assert_eq!(*smallest(&[3, 1, 2]), 1);
    assert_eq!(*smallest(&[9, 4, 1, 0, 1, 4, 9]), 0);
    assert_eq!(*smallest(&[5]), 5);
    assert_eq!(*smallest(&[-2, 7, -8, 3]), -8);
    return_ref();
}

#[test]
fn reference_demos_run() {
    struct_containing_ref();
    ref_to_expr();
    ref_to_ref();
    move_control_flow();
    assert_eq!(g(&10), 11);
}

#[test]
fn full_factorial_of_six_is_720() {
    assert_eq!(full_factorial(0), 1);
    assert_eq!(full_factorial(1), 1);
    assert_eq!(full_factorial(6), 720);
    assert_eq!(full_factorial(10), 3628800);
}

#[test]
fn exclusive_range_accumulations() {
    // Summing and multiplying over the exclusive range `1..n`.
    assert_eq!(triangle(0), 0);
    assert_eq!(triangle(1), 0);
    assert_eq!(triangle(20), 190);
    assert_eq!(factorial(0), 1);
    assert_eq!(factorial(1), 1);
    assert_eq!(factorial(20), 121645100408832000);
}

#[test]
fn fibonacci_numbers() {
    assert_eq!(fibonacci(0), 0);
    assert_eq!(fibonacci(1), 1);
    assert_eq!(fibonacci(2), 1);
    assert_eq!(fibonacci(10), 55);
    assert_eq!(fibonacci(50), 12586269025);
}

#[test]
fn cmp_orders_integers_totally() {
    assert_eq!(cmp(&1, &2), Ordering::Less);
    assert_eq!(cmp(&2, &2), Ordering::Equal);
    assert_eq!(cmp(&3, &2), Ordering::Greater);
}

#[test]
fn parse_number_reads_leading_digits() {
    let chars: Vec<char> = "226153980,176".chars().collect();
    let (value, next) = parse_number(&chars, 0);
    assert_eq!(value, 226153980);
    assert_eq!(next, 9);
    let (value2, next2) = parse_number(&chars, 10);
    assert_eq!(value2, 176);
    assert_eq!(next2, 13);
    let (nothing, same) = parse_number(&chars, 9);
    assert_eq!(nothing, 0);
    assert_eq!(same, 9);
    let empty: Vec<char> = Vec::new();
    assert_eq!(parse_number(&empty, 0), (0, 0));
}

#[test]
fn flaky_revives_but_fused_stays_exhausted() {
    let mut flaky = Flaky { primed: true };
    assert_eq!(flaky.next(), Some("totaly the last item"));
    assert_eq!(flaky.next(), None);
    assert_eq!(flaky.next(), Some("totaly the last item"));
    let mut not_flaky = Fused::new(Flaky { primed: true });
    assert_eq!(not_flaky.next(), Some("totaly the last item"));
    assert_eq!(not_flaky.next(), None);
    assert_eq!(not_flaky.next(), None);
    assert_eq!(not_flaky.next(), None);
    use_fuse();
}

#[test]
fn sorting_orders_a_permutation() {
    let mut chaos: Vec<i64> = vec![2, 5, 4, 1, 3];
    sort_in_place(&mut chaos);
    assert_eq!(chaos, vec![1, 2, 3, 4, 5]);
    let mut with_duplicates: Vec<i64> = vec![3, -1, 3, 0, -1];
    sort_in_place(&mut with_duplicates);
    assert_eq!(with_duplicates, vec![-1, -1, 0, 3, 3]);
    let mut empty: Vec<i64> = Vec::new();
    sort_in_place(&mut empty);
    assert!(empty.is_empty());
    use_array();
}

#[test]
fn concatenation_joins_in_order() {
    assert_eq!(concat_slices(&[1, 2], &[3, 4]), vec![1, 2, 3, 4]);
    assert_eq!(concat_slices(&[], &[7]), vec![7]);
    assert_eq!(concat_slices(&[7], &[]), vec![7]);
    use_collections();
}

#[test]
fn partition_splits_by_threshold() {
    let populations: Vec<i64> = vec![583776, 553776, 449, 2, 7762, 15340];
    let (big, small) = partition(&populations, 500000);
    assert_eq!(big, vec![583776, 553776]);
    assert_eq!(small, vec![449, 2, 7762, 15340]);
    consume_iterators();
}

#[test]
fn adapters_take_reverse_and_chain() {
    assert_eq!(take_values(&[1, 2, 3], 2), vec![1, 2]);
    assert_eq!(take_values(&[1, 2, 3], 9), vec![1, 2, 3]);
    assert_eq!(reverse_values(&[1, 2, 3]), vec![3, 2, 1]);
    assert_eq!(reverse_values(&[]), Vec::<i64>::new());
    use_adapters();
}

#[test]
fn dot_product_of_slices() {
    assert_eq!(dot(&[1, 2, 3], &[4, 5, 6]), 32);
    assert_eq!(dot_g(&[1, 2, 3, 4], &[1, 1, 1, 1]), 10);
    assert_eq!(dot(&[], &[]), 0);
    use_dot_g();
}

#[test]
fn counting_selected_cities() {
    let cities = vec![
        City { name: "bj".to_string(), population: 18, monster_attack_risk: 90 },
        City { name: "sh".to_string(), population: 25, monster_attack_risk: 0 },
    ];
    assert_eq!(count_selected_cities(&cities, has_monster_attack), 1);
    assert_eq!(count_selected_cities2(&cities, has_monster_attack), 1);
    assert_eq!(count_selected_cities(&cities, |city: &City| city.monster_attack_risk > 0), 1);
    assert_eq!(count_selected_cities2(&cities, |city: &City| city.population > 10), 2);
    ref_arena::exercises::closures::use_fn_closure();
}

#[test]
fn closures_called_twice() {
    call_twice(|| ());
    let mut calls: u32 = 0;
    call_twice2(|| calls += 1);
    assert_eq!(calls, 2);
}

#[test]
fn robot_counts_faults_and_logs() {
    let mut robot = Robot::new();
    assert_eq!(robot.hardware_error_count, 0);
    assert_eq!(robot.log, vec!["Initialized".to_string()]);
    robot.add_hardware_error();
    robot.write_log("found an hardware error");
    assert_eq!(robot.hardware_error_count, 1);
    assert_eq!(
        robot.log,
        vec!["Initialized".to_string(), "found an hardware error".to_string()]
    );
}

#[test]
fn clamping_narrows_into_range() {
    assert_eq!(clamp_to_i32(2_000_000_000_000), i32::MAX);
    assert_eq!(clamp_to_i32(-2_000_000_000_000), i32::MIN);
    assert_eq!(clamp_to_i32(-7), -7);
    assert_eq!(clamp_to_i32(i32::MAX as i64), i32::MAX);
    use_utility_traits();
}
