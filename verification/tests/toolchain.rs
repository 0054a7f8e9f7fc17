use hoshino::collect::project::{Detection, Language};
use hoshino::collect::toolchain::{
    collect_with_runner, patience, runtimes, told_version, BoundedOutput, Ended, Inquiry, Patience,
    Runtime,
};
use std::cell::Cell;

fn ended(stdout: Option<&str>, stderr: Option<&str>, success: bool) -> Ended {
    Ended {
        truncated: false,
        stdout: stdout.map(|text| text.to_string()),
        stderr: stderr.map(|text| text.to_string()),
        success,
        status: "exit status: 3".into(),
    }
}

#[test]
fn probes_success_missing_nonzero_invalid_and_metacharacters_without_a_shell() {
    assert_eq!(
        told_version(&ended(Some("good --version"), Some(""), true), 256).unwrap(),
        "good --version"
    );
    let error = told_version(&ended(Some(""), Some("nope\n"), false), 256).unwrap_err();
    assert!(error.contains("exited"), "unexpected error: {error}");
    assert_eq!(error, "exited exit status: 3: nope");
    let error = told_version(&ended(None, Some(""), true), 256).unwrap_err();
    assert!(error.contains("non UTF-8"), "unexpected error: {error}");
    let error = told_version(&ended(Some(""), None, true), 256).unwrap_err();
    assert_eq!(error, "non UTF-8 stderr");
    assert_eq!(told_version(&ended(Some(" \n"), Some(" 1.8 \n"), true), 256).unwrap(), "1.8");
}

#[test]
fn python_falls_back_and_full_mode_deduplicates_runtime_argv() {
    let detection = Detection {
        primary: Some(Language::Python),
        detected: vec![Language::Python],
        bun: false,
    };
    let mut diagnostics = Vec::new();
    let toolchains = collect_with_runner(&detection, false, &mut diagnostics, &|runtime: Runtime| {
        if runtime == Runtime::Python {
            Ok("Python fallback".into())
        } else {
            Err("missing".into())
        }
    });
    assert_eq!(toolchains[0].runtime, "python");
    assert!(diagnostics.is_empty());

    let count = Cell::new(0);
    let detection = Detection {
        primary: Some(Language::TypeScript),
        detected: vec![Language::TypeScript, Language::JavaScript],
        bun: false,
    };
    assert_eq!(
        collect_with_runner(&detection, true, &mut diagnostics, &|_: Runtime| {
            count.set(count.get() + 1);
            Ok("node".into())
        })
        .len(),
        2
    );
    assert_eq!(count.get(), 1);
}

#[test]
fn flood_and_hang_are_diagnostics_and_timed_child_is_gone() {
    let mut output = BoundedOutput::new(32);
    let flood = b"123456789012345678901234567890123".to_vec();
    assert!(output.wanted() > 0);
    assert!(output.take(&flood));
    assert!(output.truncated);
    assert_eq!(output.bytes.len(), 32);
    let truncated = Ended { truncated: true, ..ended(Some(""), Some(""), true) };
    let error = told_version(&truncated, 32).unwrap_err();
    assert!(error.contains("truncated"), "unexpected error: {error}");
    assert_eq!(error, "output truncated at 32 bytes");
}

#[test]
fn output_is_kept_as_it_comes() {
    let mut output = BoundedOutput::new(5);
    assert!(!output.take(&b"ab".to_vec()));
    assert!(!output.take(&b"cde".to_vec()));
    assert_eq!(output.bytes, b"abcde");
    assert!(output.take(&vec![]));
    assert!(!output.truncated);
}

#[test]
fn a_language_whose_programs_all_fail_leaves_a_warning() {
    let detection = Detection { primary: Some(Language::Go), detected: vec![Language::Go], bun: false };
    let mut diagnostics = Vec::new();
    let toolchains = collect_with_runner(&detection, false, &mut diagnostics, &|_: Runtime| {
        Err("not found".into())
    });
    assert_eq!(diagnostics.len(), 1);
    assert!(diagnostics[0].message.contains("not found"));
}

#[test]
fn programs_are_asked_in_their_order() {
    assert_eq!(runtimes(Language::Python, false), [Runtime::Python3, Runtime::Python]);
    assert_eq!(runtimes(Language::Rust, true), [Runtime::Rustc]);
    assert_eq!(runtimes(Language::JavaScript, false), [Runtime::Node]);
    assert_eq!(Runtime::Go.bin(), "go");
    assert_eq!(Runtime::Go.argument(), "version");
    assert_eq!(Runtime::Rustc.argument(), "--version");
}

#[test]
fn an_inquiry_asks_each_program_once_and_python_after_python_3() {
    let detection = Detection {
        primary: Some(Language::Python),
        detected: vec![
            Language::Python,
            Language::TypeScript,
            Language::JavaScript,
            Language::Rust,
            Language::Go,
        ],
        bun: true,
    };
    let mut inquiry = Inquiry::new(&detection, true);
    let mut asked = Vec::new();
    while let Some(runtime) = inquiry.question() {
        assert_eq!(inquiry.question(), Some(runtime));
        asked.push(runtime);
        inquiry.answer(match runtime {
            Runtime::Python3 | Runtime::Rustc => Err("missing".into()),
            _ => Ok(format!("{} 1", runtime.bin())),
        });
    }
    assert_eq!(
        asked,
        [Runtime::Python3, Runtime::Python, Runtime::Bun, Runtime::Rustc, Runtime::Go]
    );
    inquiry.answer(Ok("late".into()));
    assert_eq!(inquiry.heard.len(), 5);
    let mut diagnostics = Vec::new();
    let toolchains = inquiry.conclude(&mut diagnostics);
    let found: Vec<_> =
        toolchains.iter().map(|tool| (tool.runtime.as_str(), tool.version.as_deref())).collect();
    assert_eq!(
        found,
        [
            ("python", Some("python 1")),
            ("bun", Some("bun 1")),
            ("bun", Some("bun 1")),
            ("rustc", None),
            ("go", Some("go 1")),
        ]
    );
    assert_eq!(diagnostics.len(), 1);
    assert_eq!(diagnostics[0].message, "rustc: missing");

    let mut short = Inquiry::new(&detection, false);
    assert_eq!(short.question(), Some(Runtime::Python3));
    short.answer(Ok("Python 3".into()));
    assert_eq!(short.question(), None);
}

#[test]
fn a_program_is_waited_for_up_to_its_timeout() {
    assert_eq!(patience(0, 5_000), Patience::Wait { milliseconds: 5 });
    assert_eq!(patience(4_999_999_999, 5_000), Patience::Wait { milliseconds: 5 });
    assert_eq!(patience(5_000_000_000, 5_000), Patience::End);
    assert_eq!(patience(0, 0), Patience::End);
}
