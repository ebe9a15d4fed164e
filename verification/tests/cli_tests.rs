use fujimura_silence::cli::parse_u8_list;

#[test]
fn parses_comma_and_space_separated_values() {
    assert_eq!(parse_u8_list("2,3,4,5"), vec![2, 3, 4, 5]);
    assert_eq!(parse_u8_list("2, 3  4,,5"), vec![2, 3, 4, 5]);
    assert_eq!(parse_u8_list(""), Vec::<u8>::new());
}

#[test]
fn skips_items_that_are_not_u8() {
    assert_eq!(parse_u8_list("1,256,x,-3,+7,007"), vec![1, 7, 7]);
    assert_eq!(parse_u8_list("255,+,\t9\t"), vec![255, 9]);
    assert_eq!(parse_u8_list("1.5,12"), vec![12]);
}
