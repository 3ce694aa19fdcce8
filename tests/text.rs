use aurion_rs::{find_first, find_last, join_with, parse_u32, parse_u8, remove_all, split_on};

fn chars(s: &str) -> Vec<char> {
    s.chars().collect()
}

fn text(v: &[char]) -> String {
    v.iter().collect()
}

#[test]
fn find_first_and_last() {
    assert_eq!(find_first(&chars("a - b - c"), &chars(" - "), 0), Some(1));
    assert_eq!(find_first(&chars("a - b - c"), &chars(" - "), 2), Some(5));
    assert_eq!(find_first(&chars("abc"), &chars("x"), 0), None);
    assert_eq!(find_last(&chars("a - b - c"), &chars(" - ")), Some(5));
    assert_eq!(find_last(&chars("abc"), &chars("abcd")), None);
}

#[test]
fn split_and_join() {
    let parts = split_on(&chars("a - b - - c"), &chars(" - "));
    let parts: Vec<String> = parts.iter().map(|p| text(p)).collect();
    assert_eq!(parts, vec!["a", "b", "- c"]);
    let joined = join_with(&vec![chars("x"), chars("y"), chars("z")], &chars(", "));
    assert_eq!(text(&joined), "x, y, z");
    assert_eq!(split_on(&chars(""), &chars("/")).len(), 1);
}

#[test]
fn remove_all_occurrences() {
    assert_eq!(text(&remove_all(&chars("Plannings Planning x"), &chars("Planning"))), "s  x");
}

#[test]
fn decimal_numbers() {
    assert_eq!(parse_u8(&chars("255")), Some(255));
    assert_eq!(parse_u8(&chars("256")), None);
    assert_eq!(parse_u8(&chars("+7")), Some(7));
    assert_eq!(parse_u8(&chars("+")), None);
    assert_eq!(parse_u8(&chars("")), None);
    assert_eq!(parse_u8(&chars("-1")), None);
    assert_eq!(parse_u8(&chars("0004")), Some(4));
    assert_eq!(parse_u32(&chars("4294967295")), Some(4294967295));
    assert_eq!(parse_u32(&chars("4294967296")), None);
    assert_eq!(parse_u32(&chars("12a")), None);
}
