use oi_checker::launch::filter::{lines_of, squeeze_line, trim_line_end, OutputFilter};

#[test]
fn test_strip_trailing_whitespace() {
    let content = "12345  \n 12345 \n  123 45 \n ".into();
    let res = OutputFilter::run_strip_trailing_whitespace(&content);
    assert_eq!(res[0].to_string(), "12345".to_string());
    assert_eq!(res[1].to_string(), " 12345".to_string());
    assert_eq!(res[2].to_string(), "  123 45".to_string());
    assert!(res[3].is_empty());
}

#[test]
fn test_strip_trailing_empty_lines() {
    let content = "12345 \n 12345 \n 123 45 \n \n\n\n".into();
    let res = OutputFilter::run_strip_trailing_empty_lines(&content);
    assert_eq!(res[0].to_string(), "12345 ".to_string());
    assert_eq!(res[1].to_string(), " 12345 ".to_string());
    assert_eq!(res[2].to_string(), " 123 45 ".to_string());
    assert_eq!(res[3].to_string(), " ".to_string());
    assert!(res.get(4).is_none());
}

#[test]
fn test_strip_all_whitespace() {
    let content = "1 2 3 45 \n 12345 \n 123 45 \n \n\n\n".into();
    let res = OutputFilter::run_strip_all_whitespace(&content);
    assert_eq!(res[0].to_string(), "12345".to_string());
    assert_eq!(res[1].to_string(), "12345".to_string());
    assert_eq!(res[2].to_string(), "12345".to_string());
    assert_eq!(res[3].to_string(), "".to_string());
    assert!(res.get(5).is_some());
    assert!(res.get(7).is_none());
}

#[test]
fn lines_agree_with_the_standard_library() {
    for text in [
        "",
        "\n",
        "a",
        "a\n",
        "a\nb",
        "a\r\nb\r\n",
        "foo\r\nbar\n\nbaz\r",
        "\r\n\r\n",
        "\r",
        "a\r\r\nb",
        "\n\n\nx",
        "x\n\n\n",
    ] {
        let expected: Vec<String> = text.lines().map(|l| l.to_string()).collect();
        assert_eq!(lines_of(text), expected, "lines of {:?}", text);
    }
}

#[test]
fn trimming_agrees_with_the_standard_library() {
    for line in ["", " ", "a", "a ", " a \t", "a\u{a0}\u{3000}", "\u{2028}b\u{85}", "a b"] {
        assert_eq!(trim_line_end(line), line.trim_end(), "trim of {:?}", line);
        let squeezed: String = line.chars().filter(|c| !c.is_whitespace()).collect();
        assert_eq!(squeeze_line(line), squeezed, "squeeze of {:?}", line);
    }
}

#[test]
fn run_ends_every_line_with_the_line_end() {
    let content = "a  \nb\t\n\n".to_string();
    assert_eq!(
        OutputFilter::StripTrailingWhitespace.run(&content, "\n"),
        "a\nb\n\n"
    );
    assert_eq!(
        OutputFilter::StripTrailingEmptyLines.run(&content, "\n"),
        "a  \nb\t\n"
    );
    assert_eq!(
        OutputFilter::StripAllWhitespace.run(&"a b\n c".to_string(), "\r\n"),
        "ab\r\nc\r\n"
    );
    assert_eq!(OutputFilter::StripAllWhitespace.run(&"".to_string(), "\n"), "");
}

#[test]
fn filters_are_named_as_in_the_configuration() {
    assert_eq!(
        OutputFilter::try_from("strip-trailing-whitespace"),
        Ok(OutputFilter::StripTrailingWhitespace)
    );
    assert_eq!(
        OutputFilter::try_from("strip-trailing-empty-lines"),
        Ok(OutputFilter::StripTrailingEmptyLines)
    );
    assert_eq!(
        OutputFilter::try_from("strip-all-whitespace"),
        Ok(OutputFilter::StripAllWhitespace)
    );
    assert_eq!(
        OutputFilter::try_from("strip"),
        Err("filter strip is not defined in field `default.filters`".to_string())
    );
    assert_eq!(
        OutputFilter::StripTrailingEmptyLines.to_str(),
        "strip trailing empty lines"
    );
    assert_eq!(
        OutputFilter::StripTrailingWhitespace.to_str(),
        "strip trailing whitespace"
    );
    assert_eq!(OutputFilter::StripAllWhitespace.to_str(), "strip all whitespace");
}

/// All the texts of at most `max_len` characters over `alphabet`.
fn texts(alphabet: &[char], max_len: usize) -> Vec<String> {
    let mut all = vec![String::new()];
    let mut last = vec![String::new()];
    for _ in 0..max_len {
        let mut next = Vec::new();
        for text in last.iter() {
            for c in alphabet {
                let mut longer = text.clone();
                longer.push(*c);
                next.push(longer);
            }
        }
        all.extend(next.iter().cloned());
        last = next;
    }
    all
}

#[test]
fn lines_agree_with_the_standard_library_on_every_short_text() {
    for text in texts(&['a', ' ', '\n', '\r'], 6) {
        let expected: Vec<String> = text.lines().map(|l| l.to_string()).collect();
        assert_eq!(lines_of(&text), expected, "lines of {:?}", text);
    }
}

#[test]
fn filters_agree_with_the_standard_library_on_every_short_text() {
    for text in texts(&['a', ' ', '\n', '\t', '\u{a0}'], 5) {
        let trimmed: Vec<String> = text.lines().map(|l| l.trim_end().to_string()).collect();
        assert_eq!(OutputFilter::run_strip_trailing_whitespace(&text), trimmed);
        let squeezed: Vec<String> = text
            .lines()
            .map(|l| l.chars().filter(|c| !c.is_whitespace()).collect())
            .collect();
        assert_eq!(OutputFilter::run_strip_all_whitespace(&text), squeezed);
        let mut kept: Vec<String> = text.lines().map(|l| l.to_string()).collect();
        while kept.last().map(|l| l.is_empty()).unwrap_or(false) {
            kept.pop();
        }
        assert_eq!(OutputFilter::run_strip_trailing_empty_lines(&text), kept);
        assert_eq!(OutputFilter::StripTrailingEmptyLines.apply(&text), kept);
    }
}
