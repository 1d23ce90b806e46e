use stack_analyzer::program1::{function1, function2, function3, function4};
use stack_analyzer::stack_usage::{get_path_result, results_are_analyzable};
use stack_analyzer::text::{format_decimal, format_hex, lossy_string};
use stack_analyzer::{analyze_path_results, PathResult};

fn path(initial_sp: u64, stack: &[u64]) -> PathResult {
    PathResult { initial_sp, stack_usage: Some(stack.to_vec()) }
}

#[test]
fn path_depth_is_distance_to_lowest_address() {
    let p = get_path_result(&path(0x2004_0000, &[0x2003_fff0, 0x2003_ff50, 0x2003_ffa0]));
    assert_eq!(p.initial_sp(), 0x2004_0000);
    assert_eq!(p.lowest_address(), 0x2003_ff50);
    assert_eq!(p.max_stack_depth(), 176);
}

#[test]
fn deepest_path_is_chosen() {
    let results = vec![
        path(0x2004_0000, &[0x2003_fff0]),
        path(0x2004_0000, &[0x2003_ff48, 0x2003_fff8]),
        path(0x2004_0000, &[0x2003_ff80]),
    ];
    assert!(results_are_analyzable(&results));
    let best = analyze_path_results(&results);
    assert_eq!(best.max_stack_depth(), 184);
    assert_eq!(best.lowest_address(), 0x2003_ff48);
}

#[test]
fn first_of_equal_depths_is_kept() {
    let results = vec![
        path(100, &[80]),
        path(200, &[180, 190]),
        path(50, &[30]),
    ];
    let best = analyze_path_results(&results);
    assert_eq!(best.initial_sp(), 100);
    assert_eq!(best.max_stack_depth(), 20);
}

#[test]
fn analyzability_is_checked() {
    assert!(!results_are_analyzable(&[]));
    assert!(!results_are_analyzable(&[path(10, &[10])]));
    assert!(!results_are_analyzable(&[PathResult { initial_sp: 10, stack_usage: None }, path(10, &[2])]));
    assert!(!results_are_analyzable(&[path(10, &[]), path(10, &[2])]));
    assert!(!results_are_analyzable(&[path(10, &[2]), path(10, &[12])]));
    assert!(results_are_analyzable(&[path(10, &[10]), path(10, &[9, 11])]));
}

#[test]
fn entry_point_text() {
    let p = get_path_result(&path(0x2004_0000, &[0x2003_ff50]));
    assert_eq!(p.to_string(), "Initial SP: 0x20040000\nLowest Address: 0x2003ff50\nMax Stack Depth: 176 bytes");
    let z = get_path_result(&path(0, &[0]));
    assert_eq!(z.to_string(), "Initial SP: 0x0\nLowest Address: 0x0\nMax Stack Depth: 0 bytes");
}

#[test]
fn number_formats() {
    assert_eq!(format_hex(0), "0x0");
    assert_eq!(format_hex(255), "0xff");
    assert_eq!(format_hex(u64::MAX), "0xffffffffffffffff");
    assert_eq!(format_decimal(0), "0");
    assert_eq!(format_decimal(1234567890), "1234567890");
    assert_eq!(lossy_string(b"ok"), "ok");
    assert_eq!(lossy_string(b"a\xffb"), "a\u{FFFD}b");
}

#[test]
fn sample_functions_fill_linear_arrays() {
    let v1 = function1();
    let v2 = function2();
    let v3 = function3();
    let v4 = function4();
    for i in 0..10 {
        assert_eq!(v1[i], i as i32);
        assert_eq!(v4[i], 4 * i as i32);
    }
    for i in 0..100 {
        assert_eq!(v2[i], 2 * i as i32);
    }
    for i in 0..500 {
        assert_eq!(v3[i], i as i32);
    }
}

#[test]
fn number_texts_agree_with_std_formatting() {
    let mut values: Vec<u64> = vec![1, 9, 10, 15, 16, 99, 100, 4095, 4096, 0x2000_0000, u64::MAX - 1];
    let mut v: u64 = 1;
    for _ in 0..40 {
        v = v.wrapping_mul(6364136223846793005).wrapping_add(1442695040888963407);
        values.push(v);
        values.push(v >> 37);
    }
    for v in values {
        assert_eq!(format_hex(v), format!("{:#x}", v));
        assert_eq!(format_decimal(v), format!("{}", v));
    }
}
