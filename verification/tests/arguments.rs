use lotus_extract::arguments::{parse_arguments, ArgumentValue, Scalar};
use lotus_extract::text::{from_chars, is_float, is_whitespace_char, parse_integer, to_chars, trim};

fn entries(value: &ArgumentValue) -> &Vec<(String, ArgumentValue)> {
    match value {
        ArgumentValue::Mapping(entries) => entries,
        other => panic!("not a map: {:?}", other),
    }
}

fn items(value: &ArgumentValue) -> &Vec<ArgumentValue> {
    match value {
        ArgumentValue::List(items) => items,
        other => panic!("not a list: {:?}", other),
    }
}

fn integer(value: &ArgumentValue) -> i64 {
    match value {
        ArgumentValue::Scalar(Scalar::Integer(n)) => *n,
        other => panic!("not an integer: {:?}", other),
    }
}

fn float(value: &ArgumentValue) -> &str {
    match value {
        ArgumentValue::Scalar(Scalar::Float(text)) => text.as_str(),
        other => panic!("not a float: {:?}", other),
    }
}

fn text(value: &ArgumentValue) -> &str {
    match value {
        ArgumentValue::Scalar(Scalar::Text(text)) => text.as_str(),
        other => panic!("not text: {:?}", other),
    }
}

#[test]
fn two_lines_give_two_numbers() {
    let value = parse_arguments("a=1\nb=2".to_string());
    let map = entries(&value);
    assert_eq!(map.len(), 2);
    assert_eq!(map[0].0, "a");
    assert_eq!(integer(&map[0].1), 1);
    assert_eq!(map[1].0, "b");
    assert_eq!(integer(&map[1].1), 2);
}

#[test]
fn trailing_line_feed_changes_nothing() {
    let value = parse_arguments("a=1\nb=2\n".to_string());
    let map = entries(&value);
    assert_eq!(map.len(), 2);
    assert_eq!(integer(&map[1].1), 2);
}

#[test]
fn empty_text_is_an_empty_map() {
    let value = parse_arguments(String::new());
    assert_eq!(entries(&value).len(), 0);
}

#[test]
fn keys_are_trimmed_and_values_are_not() {
    let value = parse_arguments("  key  = x \n".to_string());
    let map = entries(&value);
    assert_eq!(map.len(), 1);
    assert_eq!(map[0].0, "key");
    assert_eq!(text(&map[0].1), " x ");
}

#[test]
fn scalars_are_integer_then_float_then_text() {
    let value = parse_arguments("i=-42\nf=1.5\ng=1e3\nh=.5\nn=nan\nt=1.5x\nu=\nv=+7\nw=99999999999999999999\n".to_string());
    let map = entries(&value);
    assert_eq!(map.len(), 9);
    assert_eq!(integer(&map[0].1), -42);
    assert_eq!(float(&map[1].1), "1.5");
    assert_eq!(float(&map[2].1), "1e3");
    assert_eq!(float(&map[3].1), ".5");
    assert_eq!(float(&map[4].1), "nan");
    assert_eq!(text(&map[5].1), "1.5x");
    assert_eq!(map[6].0, "u");
    assert_eq!(text(&map[6].1), "");
    assert_eq!(map[7].0, "v");
    assert_eq!(integer(&map[7].1), 7);
    assert_eq!(float(&map[8].1), "99999999999999999999");
}

#[test]
fn braces_without_equals_are_a_list() {
    let value = parse_arguments("l={1, two ,3.0}\n".to_string());
    let map = entries(&value);
    let list = items(&map[0].1);
    assert_eq!(list.len(), 3);
    assert_eq!(integer(&list[0]), 1);
    assert_eq!(text(&list[1]), "two");
    assert_eq!(float(&list[2]), "3.0");
}

#[test]
fn braces_with_equals_are_a_map() {
    let value = parse_arguments("m={x=1\ny={2,3}\n}\n".to_string());
    let map = entries(&value);
    assert_eq!(map.len(), 1);
    assert_eq!(map[0].0, "m");
    let inner = entries(&map[0].1);
    assert_eq!(inner.len(), 2);
    assert_eq!(inner[0].0, "x");
    assert_eq!(integer(&inner[0].1), 1);
    assert_eq!(inner[1].0, "y");
    let list = items(&inner[1].1);
    assert_eq!(list.len(), 2);
    assert_eq!(integer(&list[1]), 3);
}

#[test]
fn nested_lists_keep_their_braces() {
    let value = parse_arguments("l={{1,2},{3}}\n".to_string());
    let map = entries(&value);
    let outer = items(&map[0].1);
    assert_eq!(outer.len(), 2);
    assert_eq!(items(&outer[0]).len(), 2);
    assert_eq!(integer(&items(&outer[1])[0]), 3);
}

#[test]
fn duplicate_keys_are_kept_in_order() {
    let value = parse_arguments("a=1\na=2\n".to_string());
    let map = entries(&value);
    assert_eq!(map.len(), 2);
    assert_eq!(integer(&map[0].1), 1);
    assert_eq!(integer(&map[1].1), 2);
}

#[test]
fn lookup_takes_the_last_entry_with_the_key() {
    let value = parse_arguments("a=1\nb=x\na=2\n".to_string());
    assert_eq!(integer(value.get("a").unwrap()), 2);
    assert_eq!(text(value.get("b").unwrap()), "x");
    assert!(value.get("c").is_none());
    assert!(value.get("").is_none());
    assert!(value.get("b").unwrap().get("b").is_none());
}

#[test]
fn malformed_text_never_fails() {
    for raw in ["}", "{", "a=}", "a={", "a={1,2", "=", "\n\n", "a=}{", "a={{}", "a=b=c\n", "{a=1}", "a=\u{fffd}\n", "a={=}\n", "}}}}=1\n"] {
        let value = parse_arguments(raw.to_string());
        entries(&value);
    }
    let value = parse_arguments("a={1,2".to_string());
    let list = items(&entries(&value)[0].1);
    assert_eq!(list.len(), 1);
    assert_eq!(integer(&list[0]), 1);
    let value = parse_arguments("a=b=c\n".to_string());
    let map = entries(&value);
    assert_eq!(map.len(), 1);
    assert_eq!(map[0].0, "b");
    assert_eq!(text(&map[0].1), "c");
    let value = parse_arguments("a=}x\n".to_string());
    assert_eq!(text(&entries(&value)[0].1), "");
}

#[test]
fn empty_braces_are_a_list_of_one_empty_text() {
    let value = parse_arguments("a={}\n".to_string());
    let list = items(&entries(&value)[0].1);
    assert_eq!(list.len(), 1);
    assert_eq!(text(&list[0]), "");
}

#[test]
fn whitespace_is_that_of_unicode() {
    let mut n: u32 = 0;
    while n <= 0x10FFFF {
        if let Some(c) = char::from_u32(n) {
            assert_eq!(is_whitespace_char(c), c.is_whitespace(), "U+{:04X}", n);
        }
        n += 1;
    }
}

#[test]
fn trim_removes_space_at_both_ends() {
    for raw in ["", " ", "a", " a", "a ", "\t a b \n", "\u{3000}x\u{a0}", "   "] {
        let chars: Vec<char> = raw.chars().collect();
        let trimmed: String = trim(&chars).into_iter().collect();
        assert_eq!(trimmed, raw.trim());
    }
}

#[test]
fn chars_and_strings_convert_both_ways() {
    let chars = to_chars("héllo, wörld");
    assert_eq!(chars.len(), 12);
    assert_eq!(from_chars(&chars), "héllo, wörld");
}

#[test]
fn integers_are_read_as_std_reads_them() {
    for raw in ["0", "-0", "+0", "007", "-9223372036854775808", "9223372036854775807", "9223372036854775808", "-9223372036854775809", "", "+", "-", "1 ", " 1", "1_0", "0x10", "--1", "123456789012345678901234567890", "١"] {
        let chars: Vec<char> = raw.chars().collect();
        assert_eq!(parse_integer(&chars), raw.parse::<i64>().ok(), "{:?}", raw);
    }
}

#[test]
fn floats_are_recognised_as_std_recognises_them() {
    for raw in ["0", "1.", ".5", ".", "", "+", "-", "1e5", "1E5", "1e", "1e+", "1e+5", "1e-5", "1.e5", ".e5", "e5", "1.5.5", "inf", "-inf", "+INF", "Infinity", "infinit", "nan", "NaN", "-nan", "nanx", " 1", "1 ", "1e5.5", "0x10", "1_000.0", "1.0f", "1,5", "İnf", "١.٥"] {
        let chars: Vec<char> = raw.chars().collect();
        assert_eq!(is_float(&chars), raw.parse::<f64>().is_ok(), "{:?}", raw);
    }
}
