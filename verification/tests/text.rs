use code_ledger::export::{create_key_export, EXPORT_FOLDER};
use code_ledger::report::CategoryListing;
use code_ledger::text::{
    chars_of, encode_title, export_file_name, is_whitespace, join_lines, push_decimal, trim,
};

#[test]
fn is_whitespace_agrees_with_std() {
    for u in 0..=0x10FFFFu32 {
        if let Some(c) = char::from_u32(u) {
            assert_eq!(is_whitespace(c), c.is_whitespace(), "U+{:04X}", u);
        }
    }
}

#[test]
fn trim_agrees_with_std() {
    let samples = [
        "",
        " ",
        "\n",
        "AAA",
        "  AAA",
        "AAA  ",
        " \t AAA-BBB \r\n",
        "a b",
        "  a  b  ",
        "\u{a0}x\u{3000}",
        "\u{2003}\u{2003}",
        "\u{200b}x\u{200b}",
        "é\n",
        " 1 2 3 ",
    ];
    for s in samples {
        assert_eq!(trim(s), s.trim(), "{:?}", s);
    }
}

#[test]
fn trim_removes_surrounding_white_space_only() {
    assert_eq!(trim("  AB CD \n"), "AB CD");
    assert_eq!(trim("\t\r\n"), "");
    assert_eq!(trim("x"), "x");
}

#[test]
fn chars_of_lists_every_character() {
    assert_eq!(chars_of("aé b"), vec!['a', 'é', ' ', 'b']);
    assert!(chars_of("").is_empty());
}

#[test]
fn encode_title_puts_underscores_for_spaces() {
    assert_eq!(encode_title("spring promo 2024"), "spring_promo_2024");
    assert_eq!(encode_title("  "), "__");
    assert_eq!(encode_title("a\tb"), "a\tb");
    assert_eq!(encode_title(""), "");
    assert_eq!(encode_title("spring-promo"), "spring-promo");
}

#[test]
fn encode_title_marks_underscores_and_tildes() {
    assert_eq!(encode_title("a_b"), "a~_b");
    assert_eq!(encode_title("a~b"), "a~~b");
    assert_eq!(encode_title("~ "), "~~_");
    assert_eq!(encode_title("~_"), "~~~_");
    assert_eq!(encode_title("_ ~"), "~__~~");
}

#[test]
fn encode_title_never_writes_two_titles_alike() {
    let alphabet = [' ', '_', '~', 'a'];
    let mut titles: Vec<String> = vec![String::new()];
    let mut last: Vec<String> = vec![String::new()];
    for _ in 0..5 {
        let mut next = Vec::new();
        for t in &last {
            for c in alphabet {
                let mut longer = t.clone();
                longer.push(c);
                next.push(longer);
            }
        }
        titles.extend(next.iter().cloned());
        last = next;
    }
    let mut written: Vec<String> = titles.iter().map(|t| encode_title(t)).collect();
    written.sort();
    written.dedup();
    assert_eq!(written.len(), titles.len());
}

#[test]
fn push_decimal_writes_base_ten() {
    for n in [0usize, 1, 9, 10, 11, 99, 100, 101, 12345, 1_000_000, usize::MAX] {
        let mut s = String::from("n=");
        push_decimal(&mut s, n);
        assert_eq!(s, format!("n={}", n));
    }
}

#[test]
fn join_lines_separates_by_line_feed() {
    let none: Vec<String> = Vec::new();
    assert_eq!(join_lines(&none), "");
    assert_eq!(join_lines(&vec!["a".to_string()]), "a");
    assert_eq!(join_lines(&vec!["a".to_string(), "b".to_string(), "".to_string()]), "a\nb\n");
    let v = vec!["x".to_string(), "".to_string(), "z".to_string()];
    assert_eq!(join_lines(&v), v.join("\n"));
}

#[test]
fn export_file_name_from_title_and_size() {
    assert_eq!(export_file_name("spring-promo", 2), "export_spring-promo_2x.txt");
    assert_eq!(export_file_name("Big Summer Sale", 120), "export_Big_Summer_Sale_120x.txt");
    assert_eq!(export_file_name("", 0), "export__0x.txt");
    assert_eq!(export_file_name("spring promo", 2), "export_spring_promo_2x.txt");
}

#[test]
fn export_file_name_differs_where_title_or_size_differs() {
    assert_eq!(export_file_name("a b", 3), "export_a_b_3x.txt");
    assert_eq!(export_file_name("a_b", 3), "export_a~_b_3x.txt");
    let titles = ["a b", "a_b", "a~b", "a", "a ", "a_1", "a 1", "a~_b", "a~ b", "", "_", " ", "~"];
    let sizes = [0usize, 1, 2, 10, 11, 100];
    let mut names: Vec<String> = Vec::new();
    for t in titles {
        for n in sizes {
            names.push(export_file_name(t, n));
        }
    }
    let all = names.len();
    names.sort();
    names.dedup();
    assert_eq!(names.len(), all);
}

#[test]
fn create_key_export_names_and_lays_out() {
    let keys = vec!["AAA".to_string(), "BBB".to_string()];
    let export = create_key_export(&keys, "spring promo");
    assert_eq!(export.file_name, "export_spring_promo_2x.txt");
    assert_eq!(export.contents, "AAA\nBBB");
    let empty = create_key_export(&Vec::new(), "t");
    assert_eq!(empty.file_name, "export_t_0x.txt");
    assert_eq!(empty.contents, "");
    assert_eq!(EXPORT_FOLDER, "./exports");
}

#[test]
fn listing_from_counts_takes_missing_as_zero() {
    let e = CategoryListing::from_counts("t".to_string(), Some(3), None, Some(3));
    assert_eq!((e.title.as_str(), e.total_keys, e.used_keys, e.unused_keys), ("t", 3, 0, 3));
    assert!(e.is_balanced());
    let e = CategoryListing::from_counts(String::new(), None, None, None);
    assert_eq!((e.total_keys, e.used_keys, e.unused_keys), (0, 0, 0));
    let e = CategoryListing::from_counts("u".to_string(), Some(5), Some(1), Some(3));
    assert!(!e.is_balanced());
    let e = CategoryListing::from_counts("v".to_string(), Some(i64::MAX), Some(i64::MAX), Some(1));
    assert!(!e.is_balanced());
}
