use kreuzberg::number::{parse_hex_byte, parse_int};
use kreuzberg::text::{chars_of, contains, push_decimal, split, string_of, trim, utf8_len_mod};
use kreuzberg::types::{Metadata, MetadataMap, MetadataValue, Table};

fn chars(s: &str) -> Vec<char> {
    s.chars().collect()
}

#[test]
fn strings_and_characters_convert_both_ways() {
    assert_eq!(chars_of("a\u{e9}\u{20ac}"), vec!['a', '\u{e9}', '\u{20ac}']);
    assert_eq!(string_of(&vec!['x', '\u{1f600}']), "x\u{1f600}");
    assert_eq!(string_of(&chars_of("")), "");
}

#[test]
fn trim_removes_unicode_whitespace() {
    assert_eq!(trim(&chars(" \t\u{a0}a b\u{2003}\n")), chars("a b"));
    assert_eq!(trim(&chars(" \n ")), chars(""));
    assert_eq!(trim(&chars("x")), chars("x"));
}

#[test]
fn decimal_digits() {
    for (n, expected) in [(0u128, "0"), (7, "7"), (10, "10"), (999, "999"), (1_000_000, "1000000")] {
        let mut out = chars("#");
        push_decimal(&mut out, n);
        assert_eq!(out.iter().collect::<String>(), format!("#{}", expected));
    }
}

#[test]
fn utf8_length_counts_bytes() {
    assert_eq!(utf8_len_mod(&chars("a\u{e9}\u{20ac}\u{1f600}"), 1000), 10);
    assert_eq!(utf8_len_mod(&vec!['a'; 2500], 1000), 500);
    assert_eq!(utf8_len_mod(&chars(""), 7), 0);
}

#[test]
fn substring_search_and_split() {
    assert!(contains(&chars("noscript"), "script"));
    assert!(!contains(&chars("scrip"), "script"));
    assert!(contains(&chars("abc"), ""));
    let parts: Vec<String> = split(&chars("a, b,, c"), ", ").iter().map(|p| p.iter().collect()).collect();
    assert_eq!(parts, vec!["a", "b,", "c"]);
    let whole: Vec<String> = split(&chars("abc"), "x").iter().map(|p| p.iter().collect()).collect();
    assert_eq!(whole, vec!["abc"]);
    let ends: Vec<String> = split(&chars("xax"), "x").iter().map(|p| p.iter().collect()).collect();
    assert_eq!(ends, vec!["", "a", ""]);
}

#[test]
fn hex_bytes() {
    assert_eq!(parse_hex_byte('e', '9'), Some(0xe9));
    assert_eq!(parse_hex_byte('F', 'f'), Some(0xff));
    assert_eq!(parse_hex_byte('0', '0'), Some(0));
    assert_eq!(parse_hex_byte('+', 'a'), None);
    assert_eq!(parse_hex_byte('-', '1'), None);
    assert_eq!(parse_hex_byte('g', '1'), None);
    assert_eq!(parse_hex_byte('1', '+'), None);
    for (h1, h2) in [('e', '9'), ('0', 'A'), ('-', '1'), ('1', ' '), ('\u{e9}', '0')] {
        let text: String = [h1, h2].iter().collect();
        assert_eq!(parse_hex_byte(h1, h2), u8::from_str_radix(&text, 16).ok());
    }
}

#[test]
fn signed_numbers() {
    for text in [
        "0", "233", "-4064", "+5", "2147483647", "2147483648", "-2147483648", "-2147483649",
        "", "-", "+", "--5", "1-2", "12a", "00000000000000000012", "99999999999999999999", " 1",
    ] {
        assert_eq!(parse_int(&chars(text)), text.parse::<i32>().ok(), "{:?}", text);
    }
}

#[test]
fn metadata_keys_are_unique() {
    let mut map = MetadataMap::new();
    assert!(map.is_empty());
    map.insert("title".to_string(), MetadataValue::Text("a".to_string()));
    map.insert("authors".to_string(), MetadataValue::List(vec!["x".to_string()]));
    map.insert("title".to_string(), MetadataValue::Text("b".to_string()));
    assert_eq!(map.len(), 2);
    assert_eq!(map.get("title").and_then(|v| v.as_str()), Some("b"));
    assert!(map.get("title").and_then(|v| v.as_list()).is_none());
    assert_eq!(map.get("authors").and_then(|v| v.as_list()), Some(&vec!["x".to_string()]));
    assert!(map.contains_key("authors"));
    assert!(!map.contains_key("date"));
    let empty = Metadata::new();
    assert!(empty.additional.is_empty());
    assert_eq!(empty.date, None);
}

#[test]
fn table_markdown_is_a_projection_of_its_cells() {
    let cells = vec![
        vec![chars("h1"), chars("h2")],
        vec![chars("a")],
        vec![],
    ];
    let table = Table::from_cells(&cells, 3);
    assert_eq!(table.markdown, "| h1 | h2 |\n|---|---|\n| a |\n|\n");
    assert_eq!(table.cells.len(), 3);
    assert_eq!(table.cells[0], vec!["h1".to_string(), "h2".to_string()]);
    assert_eq!(table.page_number, 3);
    let none = Table::from_cells(&Vec::new(), 1);
    assert_eq!(none.markdown, "");
}
