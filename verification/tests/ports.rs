use port_scanner::error::{InputField, ScanError};
use port_scanner::ports::build_port_list;

fn ports(text: &str) -> Result<Vec<u16>, ScanError> {
    build_port_list(String::from(text))
}

#[test]
fn single_port() {
    assert_eq!(ports("80"), Ok(vec![80]));
}

#[test]
fn list_keeps_the_written_order() {
    assert_eq!(ports("22,80"), Ok(vec![22, 80]));
    assert_eq!(ports("443,22,8080"), Ok(vec![443, 22, 8080]));
}

#[test]
fn duplicates_are_kept() {
    assert_eq!(ports("80,22,80"), Ok(vec![80, 22, 80]));
}

#[test]
fn range_includes_its_start() {
    let got = ports("20-23").unwrap();
    assert_eq!(got.first(), Some(&20));
}

#[test]
fn range_excludes_its_end() {
    let got = ports("20-23").unwrap();
    assert_eq!(got, vec![20, 21, 22]);
    assert!(!got.contains(&23));
}

#[test]
fn range_of_one_port() {
    assert_eq!(ports("80-81"), Ok(vec![80]));
}

#[test]
fn range_with_equal_bounds_is_empty() {
    assert_eq!(ports("5-5"), Ok(vec![]));
}

#[test]
fn range_with_end_below_start_is_empty() {
    assert_eq!(ports("9-3"), Ok(vec![]));
}

#[test]
fn ranges_and_ports_mix() {
    assert_eq!(ports("22,80-83,443"), Ok(vec![22, 80, 81, 82, 443]));
    assert_eq!(ports("1-3,2-4"), Ok(vec![1, 2, 2, 3]));
}

#[test]
fn widest_range() {
    let got = ports("0-65535").unwrap();
    assert_eq!(got.len(), 65535);
    assert_eq!(got[0], 0);
    assert_eq!(got[65534], 65534);
}

#[test]
fn whitespace_around_the_input_is_dropped() {
    assert_eq!(ports(" 22,80 \n"), Ok(vec![22, 80]));
    assert_eq!(ports("\t80\r\n"), Ok(vec![80]));
    assert_eq!(ports("\u{a0}80\u{3000}"), Ok(vec![80]));
}

#[test]
fn whitespace_inside_a_single_port_is_an_error() {
    assert_eq!(ports("22, 80"), Err(ScanError::PortParseFailure));
    assert_eq!(ports("22 ,80"), Err(ScanError::PortParseFailure));
}

#[test]
fn whitespace_around_a_range_is_dropped() {
    assert_eq!(ports("22, 80-82 ,443"), Ok(vec![22, 80, 81, 443]));
}

#[test]
fn whitespace_inside_a_range_is_an_error() {
    assert_eq!(
        ports("80 -82"),
        Err(ScanError::InvalidVariable(InputField::PortRangeStart))
    );
    assert_eq!(
        ports("80- 82"),
        Err(ScanError::InvalidVariable(InputField::PortRangeEnd))
    );
}

#[test]
fn plus_sign_and_leading_zeros() {
    assert_eq!(ports("+80"), Ok(vec![80]));
    assert_eq!(ports("0080"), Ok(vec![80]));
    assert_eq!(ports("+0-+2"), Ok(vec![0, 1]));
    assert_eq!(ports("000000000000065535"), Ok(vec![65535]));
}

#[test]
fn port_bounds() {
    assert_eq!(ports("0"), Ok(vec![0]));
    assert_eq!(ports("65535"), Ok(vec![65535]));
    assert_eq!(ports("65536"), Err(ScanError::PortParseFailure));
    assert_eq!(ports("99999999999999999999"), Err(ScanError::PortParseFailure));
}

#[test]
fn empty_input_is_no_port() {
    assert_eq!(ports(""), Err(ScanError::PortParseFailure));
    assert_eq!(ports("   "), Err(ScanError::PortParseFailure));
}

#[test]
fn empty_element_is_no_port() {
    assert_eq!(ports("80,"), Err(ScanError::PortParseFailure));
    assert_eq!(ports(",80"), Err(ScanError::PortParseFailure));
    assert_eq!(ports("22,,80"), Err(ScanError::PortParseFailure));
}

#[test]
fn text_that_is_no_number() {
    assert_eq!(ports("http"), Err(ScanError::PortParseFailure));
    assert_eq!(ports("8o"), Err(ScanError::PortParseFailure));
    assert_eq!(ports("+"), Err(ScanError::PortParseFailure));
    assert_eq!(ports("\u{ff18}\u{ff10}"), Err(ScanError::PortParseFailure));
}

#[test]
fn range_start_that_is_no_number() {
    let expected = Err(ScanError::InvalidVariable(InputField::PortRangeStart));
    assert_eq!(ports("a-5"), expected);
    assert_eq!(ports("-5"), expected);
    assert_eq!(ports("65536-5"), expected);
    assert_eq!(ports("-"), expected);
}

#[test]
fn range_end_that_is_no_number() {
    let expected = Err(ScanError::InvalidVariable(InputField::PortRangeEnd));
    assert_eq!(ports("5-b"), expected);
    assert_eq!(ports("5-"), expected);
    assert_eq!(ports("5-65536"), expected);
    assert_eq!(ports("5--9"), expected);
}

#[test]
fn range_start_is_read_before_range_end() {
    assert_eq!(
        ports("a-b"),
        Err(ScanError::InvalidVariable(InputField::PortRangeStart))
    );
}

#[test]
fn what_follows_a_second_dash_is_not_read() {
    assert_eq!(ports("1-3-9"), Ok(vec![1, 2]));
    assert_eq!(ports("1-3-x"), Ok(vec![1, 2]));
}

#[test]
fn first_failing_element_decides() {
    assert_eq!(
        ports("a-1,zz"),
        Err(ScanError::InvalidVariable(InputField::PortRangeStart))
    );
    assert_eq!(ports("zz,a-1"), Err(ScanError::PortParseFailure));
    assert_eq!(ports("22,zz,a-1"), Err(ScanError::PortParseFailure));
}

#[test]
fn building_twice_gives_the_same_ports() {
    assert_eq!(ports("22,80-90,443"), ports("22,80-90,443"));
}
