use pandocx::convert::{
    conversion_outcome, greet, output_path_for, plan_conversion, spawn_failure,
    split_nonblank_lines, version_command, version_outcome,
};
use pandocx::log::{create_log_entry, log_entry_at, stamp, Level, LogRecord};
use pandocx::text::{ends_with, trim};

fn pairs(logs: &[LogRecord]) -> Vec<(Level, String)> {
    logs.iter().map(|r| (r.level, r.message.clone())).collect()
}

#[test]
fn output_path_beside_input() {
    assert_eq!(output_path_for("report.md", "pdf").unwrap(), "report.pdf");
    assert_eq!(output_path_for("docs/notes/report.md", "docx").unwrap(), "docs/notes/report.docx");
    assert_eq!(output_path_for("/report.md", "pdf").unwrap(), "/report.pdf");
    assert_eq!(output_path_for("C:\\work\\a.b.md", "html").unwrap(), "C:\\work\\a.b.html");
}

#[test]
fn output_path_stem_rules() {
    assert_eq!(output_path_for("x", "pdf").unwrap(), "x.pdf");
    assert_eq!(output_path_for("dir/.bashrc", "pdf").unwrap(), "dir/.bashrc.pdf");
    assert_eq!(output_path_for("dir/a.", "pdf").unwrap(), "dir/a.pdf");
    assert_eq!(output_path_for("dir.v2/readme", "pdf").unwrap(), "dir.v2/readme.pdf");
}

#[test]
fn output_path_drops_trailing_separators_and_dot_components() {
    assert_eq!(output_path_for("docs/", "pdf").unwrap(), "docs.pdf");
    assert_eq!(output_path_for("a/.", "pdf").unwrap(), "a.pdf");
    assert_eq!(output_path_for("report.md/.", "pdf").unwrap(), "report.pdf");
    assert_eq!(output_path_for("dir/sub//", "pdf").unwrap(), "dir/sub.pdf");
    assert_eq!(output_path_for("a/./b.md", "pdf").unwrap(), "a/b.pdf");
    assert_eq!(output_path_for("a//b.md", "pdf").unwrap(), "a/b.pdf");
    assert_eq!(output_path_for("./x.md", "pdf").unwrap(), "./x.pdf");
    assert_eq!(output_path_for("//x.md", "pdf").unwrap(), "/x.pdf");
    assert_eq!(output_path_for("/./x.md", "pdf").unwrap(), "/x.pdf");
    assert_eq!(output_path_for("..md", "pdf").unwrap(), "..pdf");
}

#[test]
fn conversion_of_directory_style_input() {
    let plan = plan_conversion("pandoc", "notes/", "html").unwrap();
    assert_eq!(plan.output_path, "notes.html");
    assert_eq!(plan.args, vec!["notes/", "-o", "notes.html"]);
    let (logs, result) = conversion_outcome(&plan.output_path, "", "", true);
    assert_eq!(pairs(&logs), vec![(Level::Success, "Successfully created: notes.html".to_string())]);
    assert!(result.success);
    let (_, failed) = conversion_outcome(&plan.output_path, "", " bad \n", false);
    assert!(!failed.success);
    assert_eq!(failed.error.as_deref(), Some("bad"));
}

#[test]
fn output_path_rejects_paths_without_a_file() {
    for input in ["", "/", "//", "/.", ".", "./", "docs/..", "docs/../"] {
        assert_eq!(output_path_for(input, "pdf").unwrap_err(), "Invalid input file name");
        assert!(plan_conversion("pandoc", input, "pdf").is_err());
    }
}

#[test]
fn plan_echoes_quoted_command_and_arguments() {
    let plan = plan_conversion("/opt/pandoc", "in dir/report.md", "pdf").unwrap();
    assert_eq!(plan.output_path, "in dir/report.pdf");
    assert_eq!(plan.echo.level, Level::Info);
    assert_eq!(plan.echo.message, "$ /opt/pandoc \"in dir/report.md\" -o \"in dir/report.pdf\"");
    assert_eq!(plan.args, vec!["in dir/report.md", "-o", "in dir/report.pdf"]);
}

#[test]
fn report_md_to_pdf_scenario() {
    let plan = plan_conversion("pandoc", "report.md", "pdf").unwrap();
    let (logs, result) = conversion_outcome(&plan.output_path, "", "", true);
    let mut all = vec![(plan.echo.level, plan.echo.message.clone())];
    all.extend(pairs(&logs));
    assert_eq!(
        all,
        vec![
            (Level::Info, "$ pandoc \"report.md\" -o \"report.pdf\"".to_string()),
            (Level::Success, "Successfully created: report.pdf".to_string()),
        ]
    );
    assert!(result.success);
    assert_eq!(result.output_path.as_deref(), Some("report.pdf"));
    assert_eq!(result.error, None);
}

#[test]
fn success_logs_output_then_warnings_then_one_success() {
    let (logs, result) =
        conversion_outcome("out/a.html", "  written\n", "\n[WARNING] missing title \n", true);
    assert_eq!(
        pairs(&logs),
        vec![
            (Level::Info, "written".to_string()),
            (Level::Info, "[WARNING] missing title".to_string()),
            (Level::Success, "Successfully created: out/a.html".to_string()),
        ]
    );
    assert_eq!(logs.iter().filter(|r| r.level == Level::Success).count(), 1);
    assert!(result.success);
    assert_eq!(result.output_path.as_deref(), Some("out/a.html"));
}

#[test]
fn failure_returns_trimmed_diagnostics() {
    let (logs, result) = conversion_outcome("a.pdf", "", "  pdflatex not found\n", false);
    assert_eq!(pairs(&logs), vec![(Level::Error, "pdflatex not found".to_string())]);
    assert!(!result.success);
    assert_eq!(result.output_path, None);
    assert_eq!(result.error.as_deref(), Some("pdflatex not found"));
}

#[test]
fn failure_without_diagnostics_logs_nothing() {
    let (logs, result) = conversion_outcome("a.pdf", " \n", "", false);
    assert!(logs.is_empty());
    assert!(!result.success);
    assert_eq!(result.error.as_deref(), Some(""));
}

#[test]
fn spawn_failure_message() {
    let rec = spawn_failure("No such file or directory (os error 2)");
    assert_eq!(rec.level, Level::Error);
    assert_eq!(rec.message, "Failed to execute pandoc: No such file or directory (os error 2)");
}

#[test]
fn version_probe_logs_each_nonblank_line() {
    let echo = version_command("/usr/bin/pandoc");
    assert_eq!(echo.level, Level::Info);
    assert_eq!(echo.message, "$ /usr/bin/pandoc --version");
    let out = "pandoc 3.8\r\n  Features: +server\n\n   \nCopyright (C) 2006\n";
    let (logs, result) = version_outcome(out, "", true);
    assert_eq!(
        pairs(&logs),
        vec![
            (Level::Success, "pandoc 3.8".to_string()),
            (Level::Success, "Features: +server".to_string()),
            (Level::Success, "Copyright (C) 2006".to_string()),
        ]
    );
    assert_eq!(result.unwrap(), out);
}

#[test]
fn version_probe_failure_keeps_whole_stderr() {
    let (logs, result) = version_outcome("ignored", " bad option\n", false);
    assert_eq!(pairs(&logs), vec![(Level::Error, "bad option".to_string())]);
    assert_eq!(result.unwrap_err(), " bad option\n");
}

#[test]
fn split_lines_without_trailing_newline() {
    assert_eq!(split_nonblank_lines("a\nb"), vec!["a", "b"]);
    assert!(split_nonblank_lines("").is_empty());
    assert!(split_nonblank_lines("\n \n\t").is_empty());
}

#[test]
fn trim_removes_unicode_white_space() {
    assert_eq!(trim("\u{3000} a b\t\n\u{85}"), "a b");
    assert_eq!(trim("   "), "");
    assert_eq!(trim("x"), "x");
    assert_eq!(trim("\u{200b}x"), "\u{200b}x");
}

#[test]
fn suffix_test() {
    assert!(ends_with("bin/pandoc", "pandoc"));
    assert!(!ends_with("pandoc", "bin/pandoc"));
    assert!(ends_with("anything", ""));
}

#[test]
fn greeting() {
    assert_eq!(greet("Ada"), "Hello, Ada! You've been greeted from Rust!");
}

#[test]
fn log_entries_keep_their_fields() {
    let e = create_log_entry("info", "hello", Some("more".to_string()));
    assert_eq!(e.level, "info");
    assert_eq!(e.message, "hello");
    assert_eq!(e.details.as_deref(), Some("more"));
    assert!(e.timestamp.contains('T'));
    assert!(e.timestamp.ends_with("+00:00"), "{}", e.timestamp);
    let fixed = log_entry_at("2024-01-01T00:00:00+00:00".to_string(), "error", "x", None);
    assert_eq!(fixed.timestamp, "2024-01-01T00:00:00+00:00");
    let s = stamp(&LogRecord { level: Level::Success, message: "done".to_string() });
    assert_eq!(s.level, "success");
    assert_eq!(s.message, "done");
    assert_eq!(Level::Error.name(), "error");
}
