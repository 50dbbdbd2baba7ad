use oi_checker::dyn_formatting::{Dictionary, DynamicFormatError, _dynamic_format};

fn dict(pairs: &[(&str, &str)]) -> Dictionary {
    let mut d = Dictionary::new();
    for (key, value) in pairs {
        d.insert(key, value);
    }
    d
}

#[test]
fn test_no_replace() {
    assert_eq!(_dynamic_format("", &dict(&[])).unwrap(), "".to_string());
    assert_eq!(
        _dynamic_format("abcdefg", &dict(&[])).unwrap(),
        "abcdefg".to_string()
    );
    assert_eq!(
        _dynamic_format("abc", &dict(&[("abc", "")])).unwrap(),
        "abc".to_string()
    );
    assert_eq!(
        _dynamic_format("we-have", &dict(&[("we", "")])).unwrap(),
        "we-have".to_string()
    );
}

#[test]
fn test_escape() {
    assert_eq!(_dynamic_format("}}", &dict(&[])).unwrap(), "}".to_string());
    assert_eq!(
        _dynamic_format("{{ab}}", &dict(&[("ab", "1")])).unwrap(),
        "{ab}".to_string()
    );
    assert_eq!(
        _dynamic_format("{{234", &dict(&[])).unwrap(),
        "{234".to_string()
    );
    assert_eq!(
        _dynamic_format("{{{{a}}", &dict(&[])).unwrap(),
        "{{a}".to_string()
    );
}

#[test]
fn test_replace() {
    assert_eq!(
        _dynamic_format("{ab}", &dict(&[("ab", "1")])).unwrap(),
        "1".to_string()
    );
    assert_eq!(
        _dynamic_format("1{a}32{a}4", &dict(&[("a", "555"), ("b", "")])).unwrap(),
        "1555325554".to_string()
    );
    assert_eq!(
        _dynamic_format("{key1}-{key2}", &dict(&[("key1", "0"), ("key2", "a")])).unwrap(),
        "0-a".to_string()
    );
}

#[test]
fn test_mixed() {
    assert_eq!(
        _dynamic_format("{{{a}", &dict(&[("a", "1")])).unwrap(),
        "{1".to_string()
    );
    assert_eq!(
        _dynamic_format("{{|{k}}}", &dict(&[("k", "x123")])).unwrap(),
        "{|x123}".to_string()
    );
    assert_eq!(
        _dynamic_format("{{{key1}}}-}}}}{key2}", &dict(&[("key1", "0"), ("key2", "a")])).unwrap(),
        "{0}-}}a".to_string()
    );
}

#[test]
fn test_key_error() {
    match _dynamic_format("{abc}", &dict(&[("abd", "1")])) {
        Err(DynamicFormatError::KeyError {
            pattern,
            key,
            pos,
            dict_keys,
        }) => {
            assert_eq!(pattern.as_str(), "{abc}");
            assert_eq!(key, "abc");
            assert_eq!(dict_keys, vec!["abd"]);
            assert_eq!(pos, 0);
        }
        _ => unreachable!(),
    }
    match _dynamic_format("234{ac}{ab}", &dict(&[("ac", "1"), ("aa", ".")])) {
        Err(DynamicFormatError::KeyError { key, pos, .. }) => {
            assert_eq!(key, "ab");
            assert_eq!(pos, 7);
        }
        _ => unreachable!(),
    }
}

#[test]
fn test_token_error() {
    match _dynamic_format("{abc", &dict(&[("abc", "1")])) {
        Err(DynamicFormatError::TokenError { pattern, desc, pos }) => {
            assert_eq!(pattern.as_str(), "{abc");
            assert!(desc.find("'{'").is_some());
            assert_eq!(pos, 0);
        }
        _ => unreachable!(),
    }
    match _dynamic_format("{{a}}}324", &dict(&[])) {
        Err(DynamicFormatError::TokenError { desc, pos, .. }) => {
            assert!(desc.find("'}'").is_some());
            assert_eq!(pos, 5);
        }
        _ => unreachable!(),
    }
}

#[test]
fn stray_close_before_text_is_an_error() {
    match _dynamic_format("}a}", &dict(&[])) {
        Err(DynamicFormatError::TokenError { desc, pos, .. }) => {
            assert_eq!(desc, "Unmatched token '}'");
            assert_eq!(pos, 0);
        }
        _ => unreachable!(),
    }
}

#[test]
fn first_error_from_the_left_is_reported() {
    match _dynamic_format("{missing} }", &dict(&[])) {
        Err(DynamicFormatError::KeyError { key, pos, .. }) => {
            assert_eq!(key, "missing");
            assert_eq!(pos, 0);
        }
        _ => unreachable!(),
    }
    match _dynamic_format("} {missing}", &dict(&[])) {
        Err(DynamicFormatError::TokenError { pos, .. }) => assert_eq!(pos, 0),
        _ => unreachable!(),
    }
}

#[test]
fn key_is_taken_up_to_the_next_closing_brace() {
    assert_eq!(
        _dynamic_format("{a{b}", &dict(&[("a{b", "x")])).unwrap(),
        "x".to_string()
    );
    match _dynamic_format("{a{b}", &dict(&[("a", "1"), ("b", "2")])) {
        Err(DynamicFormatError::KeyError { key, pos, .. }) => {
            assert_eq!(key, "a{b");
            assert_eq!(pos, 0);
        }
        _ => unreachable!(),
    }
    assert_eq!(_dynamic_format("{}", &dict(&[("", "e")])).unwrap(), "e");
}

#[test]
fn positions_are_byte_offsets() {
    // 'é' takes two bytes, '€' three, '𝄞' four.
    match _dynamic_format("é€𝄞{k}", &dict(&[])) {
        Err(DynamicFormatError::KeyError { pos, .. }) => assert_eq!(pos, 9),
        _ => unreachable!(),
    }
    match _dynamic_format("é}", &dict(&[])) {
        Err(DynamicFormatError::TokenError { pos, .. }) => assert_eq!(pos, 2),
        _ => unreachable!(),
    }
    match _dynamic_format("{é}€{", &dict(&[("é", "")])) {
        Err(DynamicFormatError::TokenError { desc, pos, .. }) => {
            assert_eq!(desc, "Unmatched token '{'");
            assert_eq!(pos, 7);
        }
        _ => unreachable!(),
    }
}

#[test]
fn escaped_text_round_trips() {
    let text = "a{b}c}}d{{e";
    let escaped = text.replace('{', "{{").replace('}', "}}");
    assert_eq!(_dynamic_format(&escaped, &dict(&[])).unwrap(), text);
    assert_eq!(_dynamic_format(&escaped, &dict(&[("b", "no")])).unwrap(), text);
}

#[test]
fn placeholders_between_escaped_literals_are_substituted() {
    let d = dict(&[("file", "a.cpp"), ("target", "a.out")]);
    assert_eq!(
        _dynamic_format("{{{file}}} -o }}{target}{{", &d).unwrap(),
        "{a.cpp} -o }a.out{"
    );
}

#[test]
fn later_value_replaces_earlier_one() {
    let d = dict(&[("k", "1"), ("j", "x"), ("k", "2")]);
    assert_eq!(_dynamic_format("{k}{j}", &d).unwrap(), "2x");
    assert_eq!(d.keys(), vec!["k", "j"]);
    assert_eq!(d.get("k").map(|s| s.as_str()), Some("2"));
    assert!(d.get("z").is_none());
}

/// A part of a template: text to reproduce, or a placeholder.
enum Part {
    Literal(&'static str),
    Placeholder(&'static str),
}

#[test]
fn every_short_template_formats_to_what_its_parts_stand_for() {
    let d = dict(&[("", "<>"), ("k", "{v}"), ("key 2", "}"), ("n", "")]);
    let choices = [
        Part::Literal("a"),
        Part::Literal("{"),
        Part::Literal("}"),
        Part::Literal("{{x}}"),
        Part::Literal(""),
        Part::Placeholder(""),
        Part::Placeholder("k"),
        Part::Placeholder("key 2"),
        Part::Placeholder("n"),
    ];
    let mut count = 0;
    for a in choices.iter() {
        for b in choices.iter() {
            for c in choices.iter() {
                for e in choices.iter() {
                    let mut pattern = String::new();
                    let mut expected = String::new();
                    for part in [a, b, c, e] {
                        match part {
                            Part::Literal(text) => {
                                pattern.push_str(&text.replace('{', "{{").replace('}', "}}"));
                                expected.push_str(text);
                            }
                            Part::Placeholder(key) => {
                                pattern.push('{');
                                pattern.push_str(key);
                                pattern.push('}');
                                expected.push_str(d.get(key).unwrap());
                            }
                        }
                    }
                    assert_eq!(
                        _dynamic_format(&pattern, &d).unwrap(),
                        expected,
                        "for {:?}",
                        pattern
                    );
                    count += 1;
                }
            }
        }
    }
    assert_eq!(count, 6561);
}

#[test]
fn every_short_pattern_is_text_or_an_error_at_a_brace() {
    let d = dict(&[("a", "1")]);
    let mut last = vec![String::new()];
    for _ in 0..7 {
        let mut next = Vec::new();
        for pattern in last.iter() {
            for c in ['{', '}', 'a'] {
                let mut longer = pattern.clone();
                longer.push(c);
                next.push(longer);
            }
        }
        for pattern in next.iter() {
            match _dynamic_format(pattern, &d) {
                Ok(text) => assert!(text.len() <= pattern.len(), "for {:?}", pattern),
                Err(DynamicFormatError::TokenError { pattern: p, desc, pos }) => {
                    assert_eq!(&p, pattern);
                    let brace = pattern.as_bytes()[pos] as char;
                    assert_eq!(desc, format!("Unmatched token '{}'", brace));
                }
                Err(DynamicFormatError::KeyError { pattern: p, key, dict_keys, pos }) => {
                    assert_eq!(&p, pattern);
                    assert_eq!(pattern.as_bytes()[pos], b'{');
                    assert_eq!(&pattern[pos + 1..pos + 1 + key.len()], key);
                    assert_eq!(pattern.as_bytes()[pos + 1 + key.len()], b'}');
                    assert_ne!(key, "a");
                    assert_eq!(dict_keys, vec!["a"]);
                }
            }
        }
        last = next;
    }
}
