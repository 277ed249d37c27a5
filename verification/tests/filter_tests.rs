use smart_jump::filter::{
    filter_verses, find_smart_verses, parse_range, parse_verse_query, verse_matches, VerseQuery,
};
use smart_jump::model::{Bible, Chapter, Verse};

fn verse(book: &str, chapter: &str, num: &str) -> Verse {
    Verse::new(
        format!("{}.{}.{}", book, chapter, num),
        chapter.to_string(),
        num.to_string(),
        format!("text of {} {}:{}", book, chapter, num),
    )
}

fn chapter(book: &str, number: &str, count: usize) -> Chapter {
    let mut made = Chapter::new(
        book.to_string(),
        number.to_string(),
        format!("all of {} {}", book, number),
        format!("{} {}", book, number),
    );
    for n in 1..=count {
        assert!(made.add_verse(verse(book, number, &n.to_string())));
    }
    made
}

fn sample() -> Bible {
    let mut bible = Bible::new();
    bible.add_chapter(chapter("Book", "2", 6));
    bible.add_chapter(chapter("Book", "3", 10));
    bible.add_chapter(chapter("Other", "3", 10));
    bible.add_chapter(chapter("John", "3", 36));
    bible
}

fn numbers(found: &[Verse]) -> Vec<&str> {
    found.iter().map(|v| v.verse_num.as_str()).collect()
}

fn cs(s: &str) -> Vec<char> {
    s.chars().collect()
}

#[test]
fn single_verse_reference_gives_that_verse_only() {
    let found = find_smart_verses(&sample(), "Book.3.5");
    assert_eq!(found, vec![verse("Book", "3", "5")]);
}

#[test]
fn verse_range_gives_its_verses_only() {
    let found = find_smart_verses(&sample(), "Book.3.5-7");
    assert_eq!(
        found,
        vec![verse("Book", "3", "5"), verse("Book", "3", "6"), verse("Book", "3", "7")]
    );
}

#[test]
fn range_is_cut_to_the_verses_that_exist() {
    let mut bible = Bible::new();
    bible.add_chapter(chapter("Book", "3", 10));
    assert_eq!(numbers(&find_smart_verses(&bible, "Book.3.8-20")), vec!["8", "9", "10"]);
    assert_eq!(numbers(&find_smart_verses(&bible, "Book.3.0-2")), vec!["1", "2"]);
    assert_eq!(
        numbers(&find_smart_verses(&bible, "Book.3.1-10")),
        vec!["1", "2", "3", "4", "5", "6", "7", "8", "9", "10"]
    );
    assert_eq!(numbers(&find_smart_verses(&bible, "Book.3.11-20")), Vec::<&str>::new());
    assert_eq!(numbers(&find_smart_verses(&bible, "Book.3.7-5")), Vec::<&str>::new());
}

#[test]
fn chapter_only_reference_names_no_verses() {
    assert_eq!(find_smart_verses(&sample(), "Book.3"), Vec::<Verse>::new());
    assert_eq!(find_smart_verses(&sample(), "Book"), Vec::<Verse>::new());
    assert_eq!(find_smart_verses(&sample(), ""), Vec::<Verse>::new());
    assert_eq!(parse_verse_query("Book.3"), None);
}

#[test]
fn non_numeric_verse_number_is_excluded_whatever_the_range() {
    let mut ch = chapter("Book", "3", 2);
    assert!(ch.add_verse(verse("Book", "3", "a")));
    assert!(ch.add_verse(verse("Book", "3", "3")));
    let mut bible = Bible::new();
    bible.add_chapter(ch);
    for reference in ["Book.3.1-3", "Book.3.0-18446744073709551615", "Book.3.a", "Book.3.", "Book.3.2"] {
        let found = find_smart_verses(&bible, reference);
        assert!(found.iter().all(|v| v.verse_num != "a"), "reference {:?}", reference);
    }
    assert_eq!(numbers(&find_smart_verses(&bible, "Book.3.1-3")), vec!["1", "2", "3"]);
}

#[test]
fn book_token_matches_as_substring_of_the_reference() {
    let mut bible = Bible::new();
    let mut ch = Chapter::new("1 John".to_string(), "3".to_string(), String::new(), String::new());
    assert!(ch.add_verse(Verse::new(
        "1 John 3:16".to_string(),
        "3".to_string(),
        "16".to_string(),
        "t".to_string()
    )));
    bible.add_chapter(ch);
    bible.add_chapter(chapter("John", "3", 20));
    let found = find_smart_verses(&bible, "John.3.16");
    assert_eq!(found.len(), 2);
    assert_eq!(found[0].reference, "1 John 3:16");
    assert_eq!(found[1].reference, "John.3.16");
}

#[test]
fn chapter_is_compared_as_text() {
    let mut bible = Bible::new();
    bible.add_chapter(chapter("Book", "03", 5));
    assert_eq!(find_smart_verses(&bible, "Book.3.1-5"), Vec::<Verse>::new());
    assert_eq!(numbers(&find_smart_verses(&bible, "Book.03.2")), vec!["2"]);
}

#[test]
fn result_keeps_the_order_of_the_text() {
    let mut bible = Bible::new();
    bible.add_chapter(chapter("Book II", "1", 3));
    bible.add_chapter(chapter("Book I", "1", 3));
    bible.add_chapter(chapter("Book", "1", 3));
    let found = find_smart_verses(&bible, "Book.1.2-3");
    let refs: Vec<&str> = found.iter().map(|v| v.reference.as_str()).collect();
    assert_eq!(
        refs,
        vec!["Book II.1.2", "Book II.1.3", "Book I.1.2", "Book I.1.3", "Book.1.2", "Book.1.3"]
    );
}

#[test]
fn unknown_book_or_chapter_gives_nothing() {
    assert_eq!(find_smart_verses(&sample(), "Nobody.3.5"), Vec::<Verse>::new());
    assert_eq!(find_smart_verses(&sample(), "Book.9.5"), Vec::<Verse>::new());
    assert_eq!(find_smart_verses(&Bible::new(), "Book.3.5"), Vec::<Verse>::new());
}

#[test]
fn query_defaults() {
    let q = |s: &str| parse_verse_query(s).map(|q| (q.start, q.end));
    assert_eq!(q("Book.3.5"), Some((5, 5)));
    assert_eq!(q("Book.3.5-7"), Some((5, 7)));
    assert_eq!(q("Book.3."), Some((1, 1)));
    assert_eq!(q("Book.3.-7"), Some((1, 7)));
    assert_eq!(q("Book.3.5-"), Some((5, 5)));
    assert_eq!(q("Book.3.x-y"), Some((1, 1)));
    assert_eq!(q("Book.3.x-4"), Some((1, 4)));
    assert_eq!(q("Book.3.5-7-9"), Some((5, 7)));
    assert_eq!(q("Book.3.5.9"), Some((5, 5)));
    assert_eq!(q("Book.3"), None);
    assert_eq!(q("Book"), None);
}

#[test]
fn query_holds_book_and_chapter() {
    assert_eq!(
        parse_verse_query("John.3.16-18"),
        Some(VerseQuery { book: cs("John"), chapter: cs("3"), start: 16, end: 18 })
    );
}

#[test]
fn parse_range_reads_both_ends() {
    assert_eq!(parse_range(&cs("16")), (16, 16));
    assert_eq!(parse_range(&cs("16-18")), (16, 18));
    assert_eq!(parse_range(&cs("")), (1, 1));
    assert_eq!(parse_range(&cs("+2-+4")), (2, 4));
}

#[test]
fn verse_matches_needs_all_three_conditions() {
    let query = VerseQuery { book: cs("John"), chapter: cs("3"), start: 16, end: 17 };
    assert!(verse_matches(&verse("John", "3", "16"), &query));
    assert!(verse_matches(&verse("John", "3", "17"), &query));
    assert!(!verse_matches(&verse("John", "3", "18"), &query));
    assert!(!verse_matches(&verse("John", "3", "15"), &query));
    assert!(!verse_matches(&verse("John", "4", "16"), &query));
    assert!(!verse_matches(&verse("Jude", "3", "16"), &query));
    assert!(!verse_matches(&verse("John", "3", "a"), &query));
}

#[test]
fn filter_verses_agrees_with_find_smart_verses() {
    let bible = sample();
    let query = parse_verse_query("John.3.16").unwrap();
    assert_eq!(filter_verses(&bible, &query), find_smart_verses(&bible, "John.3.16"));
    assert_eq!(filter_verses(&bible, &query), vec![verse("John", "3", "16")]);
}

#[test]
fn add_verse_refuses_a_verse_of_another_chapter() {
    let mut ch = chapter("Book", "3", 2);
    assert!(!ch.add_verse(verse("Book", "4", "1")));
    assert!(!ch.add_verse(verse("Other", "3", "1")));
    assert_eq!(ch.verses.len(), 2);
    assert!(ch.add_verse(verse("Book", "3", "3")));
    assert_eq!(ch.verses.len(), 3);
    assert_eq!(ch.verses[2], verse("Book", "3", "3"));
}

#[test]
fn verse_clone_is_equal() {
    let v = verse("John", "3", "16");
    assert_eq!(v.clone(), v);
}

#[test]
fn text_clone_is_equal_and_independent() {
    let bible = sample();
    let mut copy = bible.clone();
    assert_eq!(copy, bible);
    copy.add_chapter(chapter("Extra", "1", 1));
    assert_eq!(copy.chapters.len(), bible.chapters.len() + 1);
    assert_eq!(bible.chapters[1].clone(), chapter("Book", "3", 10));
}

#[test]
fn numbered_chapter_between_others_gives_the_overlap() {
    let bible = sample();
    for (s, e) in [(1usize, 1usize), (1, 10), (3, 8), (9, 40), (0, 3), (11, 12), (6, 2)] {
        let reference = format!("Book.3.{}-{}", s, e);
        let expected: Vec<Verse> = (1..=10usize)
            .filter(|n| s <= *n && *n <= e)
            .map(|n| verse("Book", "3", &n.to_string()))
            .collect();
        assert_eq!(find_smart_verses(&bible, &reference), expected, "reference {:?}", reference);
    }
}
