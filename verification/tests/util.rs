use ruverta::text::{decimal_string, pad_left_string, pad_right_string};
use ruverta::util::{address_bits, clog2, range, sel};

#[test]
fn clog2_of_zero_is_none() {
    assert_eq!(clog2(0), None);
}

#[test]
fn clog2_small_values() {
    assert_eq!(clog2(1), Some(0));
    assert_eq!(clog2(2), Some(1));
    assert_eq!(clog2(3), Some(2));
    assert_eq!(clog2(4), Some(2));
    assert_eq!(clog2(5), Some(3));
    assert_eq!(clog2(6), Some(3));
    assert_eq!(clog2(8), Some(3));
    assert_eq!(clog2(9), Some(4));
    assert_eq!(clog2(32), Some(5));
    assert_eq!(clog2(33), Some(6));
}

#[test]
fn clog2_of_the_largest_value() {
    assert_eq!(clog2(usize::MAX), Some(usize::BITS as usize));
    assert_eq!(clog2(usize::MAX / 2 + 1), Some(usize::BITS as usize - 1));
    assert_eq!(clog2(usize::MAX / 2 + 2), Some(usize::BITS as usize));
}

#[test]
fn sel_of_a_scalar_is_empty() {
    assert_eq!(sel(0, 1), "");
    assert_eq!(sel(7, 1), "");
}

#[test]
fn sel_of_an_array_element() {
    assert_eq!(sel(0, 4), "[0]");
    assert_eq!(sel(3, 4), "[3]");
    assert_eq!(sel(12, 100), "[12]");
    assert_eq!(sel(0, 0), "[0]");
}

#[test]
fn range_of_no_bits_is_empty() {
    assert_eq!(range(0, 0), "");
    assert_eq!(range(0, 5), "");
}

#[test]
fn range_of_some_bits() {
    assert_eq!(range(8, 0), "[7:0]");
    assert_eq!(range(1, 0), "[0:0]");
    assert_eq!(range(32, 16), "[31:16]");
}

#[test]
fn decimal_numerals() {
    assert_eq!(decimal_string(0), "0");
    assert_eq!(decimal_string(7), "7");
    assert_eq!(decimal_string(10), "10");
    assert_eq!(decimal_string(109), "109");
    assert_eq!(decimal_string(65535), "65535");
    assert_eq!(decimal_string(usize::MAX), format!("{}", usize::MAX));
}

#[test]
fn decimal_matches_std_formatting() {
    let mut n: usize = 0;
    while n < 2000 {
        assert_eq!(decimal_string(n), format!("{}", n));
        n += 1;
    }
}

#[test]
fn padding_matches_std_formatting() {
    assert_eq!(pad_left_string("7", 2), format!("{:>2}", 7));
    assert_eq!(pad_left_string("31", 2), format!("{:>2}", 31));
    assert_eq!(pad_left_string("127", 2), format!("{:>2}", 127));
    assert_eq!(pad_left_string("", 3), "   ");
    assert_eq!(pad_right_string("input", 6), format!("{:<6}", "input"));
    assert_eq!(pad_right_string("output", 6), format!("{:<6}", "output"));
    assert_eq!(pad_right_string("inout", 6), format!("{:<6}", "inout"));
    assert_eq!(pad_right_string("longer_than", 6), "longer_than");
}

#[test]
fn address_is_at_least_one_bit_wide() {
    assert_eq!(address_bits(0), 1);
    assert_eq!(address_bits(1), 1);
    assert_eq!(address_bits(2), 1);
    assert_eq!(address_bits(3), 2);
    assert_eq!(address_bits(4), 2);
    assert_eq!(address_bits(5), 3);
    assert_eq!(address_bits(6), 3);
    assert_eq!(address_bits(256), 8);
    assert_eq!(address_bits(257), 9);
}
