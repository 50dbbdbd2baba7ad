use oi_checker::logging::{Level, Logger};
use oi_checker::util::IgnoreResult;

const LEVELS: [Level; 5] = [
    Level::Trace,
    Level::Info,
    Level::Warning,
    Level::Error,
    Level::Fatal,
];

#[test]
fn levels_are_ranked_and_named() {
    let values: Vec<u32> = LEVELS.iter().map(|l| l.as_value()).collect();
    assert_eq!(values, vec![1, 2, 3, 4, 5]);
    let names: Vec<&str> = LEVELS.iter().map(|l| l.to_str()).collect();
    assert_eq!(names, vec!["TRACE", "INFO", "WARNING", "ERROR", "FATAL"]);
    for v in 1..=5 {
        assert_eq!(Level::from(v).as_value(), v);
    }
}

#[test]
fn lines_look_as_the_standard_library_formats_them() {
    for name in ["", "a", "ab", "OIChecker", "seven77", "six666", "ünï"] {
        for elapsed in [0u128, 7, 42, 999, 1000, 12345, u128::MAX] {
            for level in LEVELS {
                let logger = Logger::new(name.to_string(), Level::Trace);
                let expected = format!(
                    "[{2:^7}] {0:>4} {1:^7} {3}",
                    elapsed,
                    level.to_str(),
                    name,
                    "content here"
                );
                assert_eq!(
                    logger.print_log(elapsed, &level, "content here"),
                    Some(expected)
                );
            }
        }
    }
}

#[test]
fn one_line_exactly() {
    let logger = Logger::new("OIC".into(), Level::Info);
    assert_eq!(
        logger.info(5, "Program begins running."),
        Some("[  OIC  ]    5  INFO   Program begins running.".to_string())
    );
    assert_eq!(
        logger.print_log(12345, &Level::Warning, ""),
        Some("[  OIC  ] 12345 WARNING ".to_string())
    );
}

#[test]
fn lines_below_the_least_level_are_not_shown() {
    for (rank, min_level) in LEVELS.iter().enumerate() {
        let logger = Logger::new("n".into(), *min_level);
        for (r, level) in LEVELS.iter().enumerate() {
            assert_eq!(logger.print_log(1, level, "c").is_some(), r >= rank);
        }
        assert_eq!(logger.trace(1, "c").is_some(), rank == 0);
        assert_eq!(logger.info(1, "c").is_some(), rank <= 1);
    }
}

#[test]
fn ignored_result_is_left_alone() {
    let r: Result<u8, String> = Err("x".into());
    r.ignore();
    assert_eq!(r, Err("x".to_string()));
    let r: Result<u8, String> = Ok(1);
    r.ignore();
    assert_eq!(r, Ok(1));
}
