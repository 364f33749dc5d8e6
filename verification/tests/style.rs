use owo_colors::OwoColorize;
use xeedee_cli::style::{
    heading_style, note_style, ok_tag, reason_style, tree_dir_style, warn_tag,
};
use xeedee_cli::ui::{heading_label, OutputFormat, UiCtx};

#[test]
fn colored_labels() {
    assert_eq!(ok_tag("done", true), format!("{}", "done".green().bold()));
    assert_eq!(warn_tag("skip:", true), format!("{}", "skip:".yellow().bold()));
    assert_eq!(tree_dir_style("d", true, true), format!("{}", "d".blue().bold()));
    assert_eq!(heading_style("ls", true, true), format!("{}", "ls".cyan().bold()));
    assert_eq!(reason_style("no", true), format!("{}", "no".red()));
    assert_eq!(note_style("(1 B)", true), format!("{}", "(1 B)".dimmed()));
    assert_ne!(ok_tag("done", true), "done");
    assert_ne!(warn_tag("skip:", true), "skip:");
    assert_ne!(tree_dir_style("d", true, true), "d");
    assert_ne!(heading_style("ls", true, true), "ls");
    assert_ne!(reason_style("no", true), "no");
    assert_ne!(note_style("(1 B)", true), "(1 B)");
}

#[test]
fn plain_labels() {
    assert_eq!(ok_tag("done", false), "done");
    assert_eq!(warn_tag("skip:", false), "skip:");
    assert_eq!(tree_dir_style("d", true, false), "d");
    assert_eq!(tree_dir_style("f", false, true), "f");
    assert_eq!(heading_style("ls", true, false), "ls");
    assert_eq!(heading_style("ls", false, true), "ls");
    assert_eq!(reason_style("no", false), "no");
    assert_eq!(note_style("n", false), "n");
}

#[test]
fn headings_follow_the_format() {
    let pretty = UiCtx { format: OutputFormat::Pretty, no_progress: false, raw_bytes: false };
    let plain = UiCtx { format: OutputFormat::Plain, no_progress: false, raw_bytes: false };
    assert_eq!(heading_label("ls", &pretty, true), format!("{}", "ls".cyan().bold()));
    assert_eq!(heading_label("ls", &plain, true), "ls");
    assert!(pretty.pretty());
    assert!(!plain.pretty());
    assert_eq!(pretty.fmt_bytes(2048), "2.00 KiB");
    let raw = UiCtx { format: OutputFormat::Plain, no_progress: false, raw_bytes: true };
    assert_eq!(raw.fmt_bytes(2048), "2048");
}
