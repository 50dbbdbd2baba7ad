use oi_checker::checker_error::{CheckerError, Stage};
use oi_checker::compilation::{CompilationConfig, CompilerOutput};
use oi_checker::config::cf_parsing;
use oi_checker::path_lib::FilePath;

fn strings(v: &[&str]) -> Vec<String> {
    v.iter().map(|s| s.to_string()).collect()
}

fn source() -> FilePath {
    FilePath {
        path: "src/a.cpp".into(),
        file_name: "a.cpp".into(),
        file_stem: "a".into(),
        extension: Some("cpp".into()),
        is_current_dir: false,
    }
}

fn work_folder() -> FilePath {
    FilePath {
        path: "work".into(),
        file_name: "work".into(),
        file_stem: "work".into(),
        extension: None,
        is_current_dir: false,
    }
}

fn rule(target: &str, args: &[&str]) -> CompilationConfig {
    CompilationConfig {
        target: target.into(),
        optimize_flag: "-O2".into(),
        command: "g++".into(),
        args: strings(args),
    }
}

#[test]
fn rule_of_the_configuration_file_is_taken_over() {
    let r = CompilationConfig::from(cf_parsing::CompilationConfig {
        ext: strings(&["cpp"]),
        target: "t".into(),
        optimize_flag: "o".into(),
        command: "c".into(),
        args: strings(&["a", "b"]),
    });
    assert_eq!(r.target, "t");
    assert_eq!(r.optimize_flag, "o");
    assert_eq!(r.command, "c");
    assert_eq!(r.args, strings(&["a", "b"]));
}

#[test]
fn target_and_arguments_are_formatted() {
    let r = rule(
        "{work_folder}/{filename_no_extension}.exe",
        &["{optimize_flag}", "{file}", "-o", "{target}", "{{}}"],
    );
    let (target, args) = r
        .get_args(&work_folder(), &source(), Stage::CompileTP)
        .unwrap();
    assert_eq!(target, "work/a.exe");
    assert_eq!(args, strings(&["-O2", "src/a.cpp", "-o", "work/a.exe", "{}"]));
    let (target, args) = rule("{filename}.bin", &[])
        .get_args(&work_folder(), &source(), Stage::CompileTP)
        .unwrap();
    assert_eq!(target, "a.cpp.bin");
    assert!(args.is_empty());
}

#[test]
fn target_is_formatted_before_the_arguments() {
    let r = rule("{file}", &["{work_folder}"]);
    match r.get_args(&work_folder(), &source(), Stage::CompileDG) {
        Err(e) => match *e {
            CheckerError::ArgFormattingKeyError {
                stage,
                pattern,
                key,
                entries,
                pos,
            } => {
                assert_eq!(stage, Stage::CompileDG);
                assert_eq!(pattern, "{file}");
                assert_eq!(key, "file");
                assert_eq!(
                    entries,
                    vec![
                        ("work_folder".to_string(), "work".to_string()),
                        ("filename_no_extension".to_string(), "a".to_string()),
                        ("filename".to_string(), "a.cpp".to_string()),
                    ]
                );
                assert_eq!(pos, 0);
            }
            other => panic!("unexpected {:?}", other),
        },
        other => panic!("unexpected {:?}", other),
    }
}

#[test]
fn first_bad_argument_is_reported() {
    let r = rule("{filename_no_extension}", &["{file}", "x{work_folder}", "}"]);
    match r.get_args(&work_folder(), &source(), Stage::CompileAC) {
        Err(e) => match *e {
            CheckerError::ArgFormattingKeyError {
                pattern,
                key,
                entries,
                pos,
                ..
            } => {
                assert_eq!(pattern, "x{work_folder}");
                assert_eq!(key, "work_folder");
                assert_eq!(
                    entries,
                    vec![
                        ("optimize_flag".to_string(), "-O2".to_string()),
                        ("file".to_string(), "src/a.cpp".to_string()),
                        ("target".to_string(), "a".to_string()),
                    ]
                );
                assert_eq!(pos, 1);
            }
            other => panic!("unexpected {:?}", other),
        },
        other => panic!("unexpected {:?}", other),
    }
}

#[test]
fn answer_of_the_compiler() {
    let r = rule("t", &[]);
    assert_eq!(
        r.compile_result(
            &source(),
            Stage::CompileTP,
            "work/a".into(),
            strings(&["x"]),
            CompilerOutput::Success
        )
        .unwrap(),
        "work/a"
    );
    let e = r
        .compile_result(
            &source(),
            Stage::CompileTP,
            "work/a".into(),
            strings(&["x", "y"]),
            CompilerOutput::Failure("exit status: 1".into()),
        )
        .unwrap_err();
    assert_eq!(
        e.to_message(),
        "Error during compiling tested program (file: src/a.cpp): Compiler exited with exit \
         status: 1.\nCommand: \"g++\" \"x\" \"y\""
    );
    let e = r
        .compile_result(
            &source(),
            Stage::CompileDG,
            "work/a".into(),
            Vec::new(),
            CompilerOutput::NotRun("No such file or directory".into()),
        )
        .unwrap_err();
    match *e {
        CheckerError::CommandError {
            stage,
            command,
            args,
            file,
            msg,
        } => {
            assert_eq!(stage, Stage::CompileDG);
            assert_eq!(command, "g++");
            assert!(args.is_empty());
            assert_eq!(file, "src/a.cpp");
            assert_eq!(msg, "IOError: No such file or directory");
        }
        other => panic!("unexpected {:?}", other),
    }
}
