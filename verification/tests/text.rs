use oi_checker::text::{
    clone_strings, from_chars, str_eq, str_to_u32, to_chars, to_lowercase, u32_to_string,
    u64_to_string, width_of,
};

#[test]
fn numbers_are_written_as_the_standard_library_writes_them() {
    for n in [0u64, 1, 9, 10, 11, 99, 100, 101, 4294967295, 4294967296, u64::MAX] {
        assert_eq!(u64_to_string(n), n.to_string());
    }
    for n in [0u32, 5, 10, 1234567890, u32::MAX] {
        assert_eq!(u32_to_string(n), n.to_string());
    }
}

#[test]
fn numbers_are_read_as_the_standard_library_reads_them() {
    assert_eq!(str_to_u32("0"), Some(0));
    assert_eq!(str_to_u32("+17"), Some(17));
    assert_eq!(str_to_u32("0000000000000042"), Some(42));
    assert_eq!(str_to_u32("4294967295"), Some(u32::MAX));
    assert_eq!(str_to_u32("4294967296"), None);
    assert_eq!(str_to_u32("18446744073709551616"), None);
    for text in ["", "+", "-1", "1-", "a", "1a", "+-1", " 1", "١"] {
        assert_eq!(str_to_u32(text), text.parse::<u32>().ok(), "for {:?}", text);
        assert_eq!(str_to_u32(text), None);
    }
}

#[test]
fn only_ascii_letters_are_lowered() {
    for text in ["", "FC", "fc", "Diff", "AZaz@[`{", "ÀÉ Straße", "Custom-1"] {
        assert_eq!(to_lowercase(text), text.to_ascii_lowercase());
    }
}

#[test]
fn characters_go_to_text_and_back() {
    let text = "a{é}€𝄞\n";
    let chars = to_chars(text);
    assert_eq!(chars, text.chars().collect::<Vec<char>>());
    assert_eq!(from_chars(&chars, 0, chars.len()), text);
    assert_eq!(from_chars(&chars, 2, 5), "é}€");
    assert_eq!(from_chars(&chars, 3, 3), "");
    for c in chars {
        assert_eq!(width_of(c), c.len_utf8());
    }
    assert_eq!(width_of('\u{7f}'), 1);
    assert_eq!(width_of('\u{80}'), 2);
    assert_eq!(width_of('\u{7ff}'), 2);
    assert_eq!(width_of('\u{800}'), 3);
    assert_eq!(width_of('\u{ffff}'), 3);
    assert_eq!(width_of('\u{10000}'), 4);
}

#[test]
fn texts_are_compared_and_copied() {
    assert!(str_eq("", ""));
    assert!(str_eq("abc", "abc"));
    assert!(!str_eq("abc", "abd"));
    assert!(!str_eq("abc", "ab"));
    let v = vec!["a".to_string(), "".to_string(), "b c".to_string()];
    assert_eq!(clone_strings(&v), v);
    assert_eq!(clone_strings(&Vec::new()), Vec::<String>::new());
}

#[test]
fn numbers_are_read_as_the_standard_library_reads_them_on_every_short_text() {
    let alphabet = ['+', '-', '0', '1', '9', ' ', 'a'];
    let mut last = vec![String::new()];
    for _ in 0..5 {
        let mut next = Vec::new();
        for text in last.iter() {
            assert_eq!(str_to_u32(text), text.parse::<u32>().ok(), "for {:?}", text);
            for c in alphabet {
                let mut longer = text.clone();
                longer.push(c);
                next.push(longer);
            }
        }
        last = next;
    }
    for text in last.iter() {
        assert_eq!(str_to_u32(text), text.parse::<u32>().ok(), "for {:?}", text);
    }
    for n in [4294967290u64, 4294967295, 4294967296, 4294967300, 42949672950] {
        let text = n.to_string();
        assert_eq!(str_to_u32(&text), text.parse::<u32>().ok());
    }
}
