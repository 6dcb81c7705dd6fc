use cleanroom::cpulist::{encode, format_cpu_list};
use cleanroom::decimal::decimal_string;
use cleanroom::error::InvalidInput;

#[test]
fn test_format_cpu_list() {
    assert_eq!(format_cpu_list(&[0, 1, 2, 4, 6, 7, 8]), "0-2,4,6-8");
    assert_eq!(format_cpu_list(&[0]), "0");
    assert_eq!(format_cpu_list(&[0, 1]), "0-1");
    assert_eq!(format_cpu_list(&[0, 2, 4]), "0,2,4");
}

#[test]
fn encode_gives_the_same_texts() {
    assert_eq!(encode(&[0, 1, 2, 4, 6, 7, 8]), Ok("0-2,4,6-8".to_string()));
    assert_eq!(encode(&[0]), Ok("0".to_string()));
    assert_eq!(encode(&[0, 1]), Ok("0-1".to_string()));
    assert_eq!(encode(&[0, 2, 4]), Ok("0,2,4".to_string()));
}

#[test]
fn encode_refuses_the_empty_list() {
    assert_eq!(encode(&[]), Err(InvalidInput::EmptyCpuList));
}

#[test]
fn order_of_entries_does_not_matter() {
    let expected = "0-2,4,6-8";
    assert_eq!(format_cpu_list(&[8, 7, 6, 4, 2, 1, 0]), expected);
    assert_eq!(format_cpu_list(&[4, 0, 8, 1, 7, 2, 6]), expected);
    assert_eq!(format_cpu_list(&[6, 7, 8, 0, 1, 2, 4]), expected);
    assert_eq!(format_cpu_list(&[1, 0]), "0-1");
    assert_eq!(format_cpu_list(&[4, 2, 0]), "0,2,4");
}

#[test]
fn all_orders_of_three_entries_agree() {
    let orders: [[u32; 3]; 6] =
        [[1, 2, 5], [1, 5, 2], [2, 1, 5], [2, 5, 1], [5, 1, 2], [5, 2, 1]];
    for order in orders.iter() {
        assert_eq!(format_cpu_list(order), "1-2,5");
    }
}

#[test]
fn repeated_entries_are_absorbed() {
    assert_eq!(format_cpu_list(&[0, 0, 1]), "0-1");
    assert_eq!(format_cpu_list(&[3, 3, 3]), "3");
    assert_eq!(format_cpu_list(&[5, 1, 5, 2, 1, 9, 2]), "1-2,5,9");
    assert_eq!(format_cpu_list(&[0, 1, 2, 4, 6, 7, 8, 4, 0, 8]), "0-2,4,6-8");
}

#[test]
fn largest_identifiers_are_written() {
    assert_eq!(format_cpu_list(&[u32::MAX]), "4294967295");
    assert_eq!(format_cpu_list(&[u32::MAX, u32::MAX - 1]), "4294967294-4294967295");
    assert_eq!(format_cpu_list(&[0, u32::MAX]), "0,4294967295");
    assert_eq!(
        format_cpu_list(&[u32::MAX - 2, u32::MAX, 0, 1]),
        "0-1,4294967293,4294967295"
    );
}

#[test]
fn runs_of_two_and_more_are_joined_by_a_dash() {
    assert_eq!(format_cpu_list(&[9, 10]), "9-10");
    assert_eq!(format_cpu_list(&[9, 10, 11, 12]), "9-12");
    assert_eq!(format_cpu_list(&[99, 100, 102]), "99-100,102");
    assert_eq!(format_cpu_list(&[10, 12, 13, 14, 16]), "10,12-14,16");
}

#[test]
fn decimal_notation_is_exact() {
    assert_eq!(decimal_string(0), "0");
    assert_eq!(decimal_string(7), "7");
    assert_eq!(decimal_string(9), "9");
    assert_eq!(decimal_string(10), "10");
    assert_eq!(decimal_string(109), "109");
    assert_eq!(decimal_string(1000), "1000");
    assert_eq!(decimal_string(65535), "65535");
    assert_eq!(decimal_string(4294967295), "4294967295");
}

#[test]
fn decimal_notation_agrees_with_the_standard_library() {
    let mut n: u32 = 1;
    for _ in 0..32 {
        assert_eq!(decimal_string(n), n.to_string());
        assert_eq!(decimal_string(n - 1), (n - 1).to_string());
        n = n.wrapping_mul(2);
    }
}

#[test]
fn long_lists_are_encoded() {
    let mut cores: Vec<u32> = Vec::new();
    for core in (0..2000u32).rev() {
        if core % 10 != 9 {
            cores.push(core);
        }
    }
    let text = format_cpu_list(&cores);
    assert!(text.starts_with("0-8,10-18,20-28,"));
    assert!(text.ends_with(",1980-1988,1990-1998"));
    assert_eq!(text.split(',').count(), 200);
}
