use smart_jump::text::{
    chars_of, contains_chars, find_from, matches_at, parse_usize, same_chars, slice_of,
    split_chars,
};

fn cs(s: &str) -> Vec<char> {
    s.chars().collect()
}

fn split_strings(s: &str, sep: char) -> Vec<String> {
    split_chars(&cs(s), sep).into_iter().map(|p| p.into_iter().collect()).collect()
}

#[test]
fn chars_of_keeps_every_character() {
    assert_eq!(chars_of("John.3.16"), cs("John.3.16"));
    assert_eq!(chars_of(""), Vec::<char>::new());
    assert_eq!(chars_of("Ésaïe.40"), vec!['É', 's', 'a', 'ï', 'e', '.', '4', '0']);
}

#[test]
fn slice_of_copies_the_half_open_range() {
    assert_eq!(slice_of(&cs("John.3.16"), 5, 6), cs("3"));
    assert_eq!(slice_of(&cs("John.3.16"), 0, 9), cs("John.3.16"));
    assert_eq!(slice_of(&cs("John"), 2, 2), cs(""));
}

#[test]
fn find_from_gives_first_separator_or_length() {
    let chars = cs("a.b.c");
    assert_eq!(find_from(&chars, 0, '.'), 1);
    assert_eq!(find_from(&chars, 1, '.'), 1);
    assert_eq!(find_from(&chars, 2, '.'), 3);
    assert_eq!(find_from(&chars, 4, '.'), 5);
    assert_eq!(find_from(&chars, 5, '.'), 5);
}

#[test]
fn split_matches_std_split() {
    for s in ["", ".", "a", "a.b", "a.b.c", "a..b", ".a", "a.", "John.3.16-18", "..."] {
        let expected: Vec<String> = s.split('.').map(|p| p.to_string()).collect();
        assert_eq!(split_strings(s, '.'), expected, "input {:?}", s);
    }
}

#[test]
fn split_of_empty_is_one_empty_piece() {
    assert_eq!(split_strings("", '-'), vec![String::new()]);
}

#[test]
fn split_on_dash() {
    assert_eq!(split_strings("5-7", '-'), vec!["5".to_string(), "7".to_string()]);
    assert_eq!(split_strings("-7", '-'), vec!["".to_string(), "7".to_string()]);
    assert_eq!(split_strings("16", '-'), vec!["16".to_string()]);
}

#[test]
fn same_chars_compares_contents() {
    assert!(same_chars(&cs("3"), &cs("3")));
    assert!(same_chars(&cs(""), &cs("")));
    assert!(!same_chars(&cs("3"), &cs("03")));
    assert!(!same_chars(&cs("13"), &cs("31")));
}

#[test]
fn matches_at_checks_one_position() {
    assert!(matches_at(&cs("1 John 3:16"), &cs("John"), 2));
    assert!(!matches_at(&cs("1 John 3:16"), &cs("John"), 0));
    assert!(matches_at(&cs("abc"), &cs(""), 3));
}

#[test]
fn contains_matches_std_contains() {
    let cases = [
        ("1 John 3:16", "John"),
        ("John.3.16", "John"),
        ("John", "John.3"),
        ("Jude.1.1", "John"),
        ("", ""),
        ("abc", ""),
        ("", "a"),
        ("aaab", "aab"),
        ("abab", "bb"),
        ("Genesis", "sis"),
    ];
    for (hay, needle) in cases {
        assert_eq!(contains_chars(&cs(hay), &cs(needle)), hay.contains(needle), "{:?} in {:?}", needle, hay);
    }
}

#[test]
fn parse_reads_decimal_numbers() {
    assert_eq!(parse_usize(&cs("16")), Some(16));
    assert_eq!(parse_usize(&cs("0")), Some(0));
    assert_eq!(parse_usize(&cs("007")), Some(7));
    assert_eq!(parse_usize(&cs("+5")), Some(5));
    assert_eq!(parse_usize(&cs("176")), Some(176));
}

#[test]
fn parse_rejects_what_is_no_number() {
    assert_eq!(parse_usize(&cs("")), None);
    assert_eq!(parse_usize(&cs("+")), None);
    assert_eq!(parse_usize(&cs("a")), None);
    assert_eq!(parse_usize(&cs("-1")), None);
    assert_eq!(parse_usize(&cs("1a")), None);
    assert_eq!(parse_usize(&cs(" 1")), None);
    assert_eq!(parse_usize(&cs("1 ")), None);
    assert_eq!(parse_usize(&cs("++1")), None);
    assert_eq!(parse_usize(&cs("1_000")), None);
    assert_eq!(parse_usize(&cs("٣")), None);
}

#[test]
fn parse_agrees_with_std_at_the_limit() {
    let max = usize::MAX.to_string();
    assert_eq!(parse_usize(&cs(&max)), Some(usize::MAX));
    let mut over = max.clone();
    over.push('0');
    assert_eq!(parse_usize(&cs(&over)), None);
    assert_eq!(parse_usize(&cs("340282366920938463463374607431768211456")), None);
    let almost = (usize::MAX - 1).to_string();
    assert_eq!(parse_usize(&cs(&almost)), Some(usize::MAX - 1));
    for s in ["18446744073709551616", "18446744073709551615", "4294967296", "4294967295"] {
        assert_eq!(parse_usize(&cs(s)), s.parse::<usize>().ok(), "input {:?}", s);
    }
}
