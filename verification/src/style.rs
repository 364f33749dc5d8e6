//! Terminal colors.

use owo_colors::OwoColorize;
use vstd::prelude::*;

verus! {

/// `s` between two escape sequences.
pub open spec fn wrapped(on: Seq<char>, s: Seq<char>, off: Seq<char>) -> Seq<char> {
    on + s + off
}

/// `owo_colors::OwoColorize::blue`, displayed: the text between the escape
/// sequences for a blue and for the default foreground.
#[verifier::external_body]
fn blue(s: &str) -> (r: String)
    ensures
        r@ == wrapped("\x1b[34m"@, s@, "\x1b[39m"@),
{
    format!("{}", s.blue())
}

/// `owo_colors::OwoColorize::cyan`, displayed: the text between the escape
/// sequences for a cyan and for the default foreground.
#[verifier::external_body]
fn cyan(s: &str) -> (r: String)
    ensures
        r@ == wrapped("\x1b[36m"@, s@, "\x1b[39m"@),
{
    format!("{}", s.cyan())
}

/// `owo_colors::OwoColorize::green`, displayed: the text between the escape
/// sequences for a green and for the default foreground.
#[verifier::external_body]
fn green(s: &str) -> (r: String)
    ensures
        r@ == wrapped("\x1b[32m"@, s@, "\x1b[39m"@),
{
    format!("{}", s.green())
}

/// `owo_colors::OwoColorize::yellow`, displayed: the text between the escape
/// sequences for a yellow and for the default foreground.
#[verifier::external_body]
fn yellow(s: &str) -> (r: String)
    ensures
        r@ == wrapped("\x1b[33m"@, s@, "\x1b[39m"@),
{
    format!("{}", s.yellow())
}

/// `owo_colors::OwoColorize::red`, displayed: the text between the escape
/// sequences for a red and for the default foreground.
#[verifier::external_body]
fn red(s: &str) -> (r: String)
    ensures
        r@ == wrapped("\x1b[31m"@, s@, "\x1b[39m"@),
{
    format!("{}", s.red())
}

/// `owo_colors::OwoColorize::bold`, displayed: the text between the escape
/// sequences that turn bold on and all attributes off.
#[verifier::external_body]
fn bold(s: &str) -> (r: String)
    ensures
        r@ == wrapped("\x1b[1m"@, s@, "\x1b[0m"@),
{
    format!("{}", s.bold())
}

/// `owo_colors::OwoColorize::dimmed`, displayed: the text between the escape
/// sequences that turn dimming on and all attributes off.
#[verifier::external_body]
fn dimmed(s: &str) -> (r: String)
    ensures
        r@ == wrapped("\x1b[2m"@, s@, "\x1b[0m"@),
{
    format!("{}", s.dimmed())
}

/// Bold text in the foreground color that `on` selects.
pub open spec fn bold_in(on: Seq<char>, s: Seq<char>) -> Seq<char> {
    wrapped("\x1b[1m"@, wrapped(on, s, "\x1b[39m"@), "\x1b[0m"@)
}

/// A label in bold green where colors are on.
pub open spec fn ok_label(s: Seq<char>, colors: bool) -> Seq<char> {
    if colors {
        bold_in("\x1b[32m"@, s)
    } else {
        s
    }
}

/// A label in bold yellow where colors are on.
pub open spec fn warn_label(s: Seq<char>, colors: bool) -> Seq<char> {
    if colors {
        bold_in("\x1b[33m"@, s)
    } else {
        s
    }
}

/// A directory's name in bold blue where colors are on; other names plain.
pub open spec fn dir_label(s: Seq<char>, is_dir: bool, colors: bool) -> Seq<char> {
    if colors && is_dir {
        bold_in("\x1b[34m"@, s)
    } else {
        s
    }
}

/// A table's heading in bold cyan where it is shown pretty and in color.
pub open spec fn heading_text(s: Seq<char>, pretty: bool, colors: bool) -> Seq<char> {
    if pretty && colors {
        bold_in("\x1b[36m"@, s)
    } else {
        s
    }
}

/// A failure's reason in red where colors are on.
pub open spec fn reason_label(s: Seq<char>, colors: bool) -> Seq<char> {
    if colors {
        wrapped("\x1b[31m"@, s, "\x1b[39m"@)
    } else {
        s
    }
}

/// A side note, dimmed where colors are on.
pub open spec fn note_label(s: Seq<char>, colors: bool) -> Seq<char> {
    if colors {
        wrapped("\x1b[2m"@, s, "\x1b[0m"@)
    } else {
        s
    }
}

/// Tags an outcome that went well.
pub fn ok_tag(label: &str, colors: bool) -> (r: String)
    ensures
        r@ == ok_label(label@, colors),
{
    if colors {
        let inner = green(label);
        bold(inner.as_str())
    } else {
        label.to_owned()
    }
}

/// Tags a warning.
pub fn warn_tag(label: &str, colors: bool) -> (r: String)
    ensures
        r@ == warn_label(label@, colors),
{
    if colors {
        let inner = yellow(label);
        bold(inner.as_str())
    } else {
        label.to_owned()
    }
}

/// Styles a name in a directory tree.
pub fn tree_dir_style(name: &str, is_dir: bool, colors: bool) -> (r: String)
    ensures
        r@ == dir_label(name@, is_dir, colors),
{
    if !colors || !is_dir {
        return name.to_owned();
    }
    let inner = blue(name);
    bold(inner.as_str())
}

/// Styles the heading of a table.
pub fn heading_style(label: &str, pretty: bool, colors: bool) -> (r: String)
    ensures
        r@ == heading_text(label@, pretty, colors),
{
    if pretty && colors {
        let inner = cyan(label);
        bold(inner.as_str())
    } else {
        label.to_owned()
    }
}

/// Styles the reason of a failure.
pub fn reason_style(reason: &str, colors: bool) -> (r: String)
    ensures
        r@ == reason_label(reason@, colors),
{
    if colors {
        red(reason)
    } else {
        reason.to_owned()
    }
}

/// Styles a side note.
pub fn note_style(note: &str, colors: bool) -> (r: String)
    ensures
        r@ == note_label(note@, colors),
{
    if colors {
        dimmed(note)
    } else {
        note.to_owned()
    }
}

/// Without colors every text is shown as it is.
pub proof fn no_colors_no_escapes(s: Seq<char>, flag: bool)
    ensures
        ok_label(s, false) == s,
        warn_label(s, false) == s,
        dir_label(s, flag, false) == s,
        heading_text(s, flag, false) == s,
        reason_label(s, false) == s,
        note_label(s, false) == s,
{
}

/// The text stands between what turns a style on and what turns it off.
pub open spec fn styles(shown: Seq<char>, on: Seq<char>, s: Seq<char>, off: Seq<char>) -> bool {
    &&& shown.len() == on.len() + s.len() + off.len()
    &&& shown.take(on.len() as int) == on
    &&& shown.subrange(on.len() as int, (on.len() + s.len()) as int) == s
    &&& shown.skip((on.len() + s.len()) as int) == off
}

proof fn bold_styles(on: Seq<char>, s: Seq<char>)
    ensures
        styles(bold_in(on, s), "\x1b[1m"@ + on, s, "\x1b[39m"@ + "\x1b[0m"@),
{
    let shown = bold_in(on, s);
    let head = "\x1b[1m"@ + on;
    let tail = "\x1b[39m"@ + "\x1b[0m"@;
    assert(shown.take(head.len() as int) =~= head);
    assert(shown.subrange(head.len() as int, (head.len() + s.len()) as int) =~= s);
    assert(shown.skip((head.len() + s.len()) as int) =~= tail);
}

/// With colors, what went well is bold green, warnings are bold yellow,
/// directories bold blue, headings of tables bold cyan, reasons red and notes
/// dim; the text itself stays as it is, and all styles end behind it.
pub proof fn colors_surround_the_text(s: Seq<char>)
    ensures
        styles(ok_label(s, true), "\x1b[1m"@ + "\x1b[32m"@, s, "\x1b[39m"@ + "\x1b[0m"@),
        styles(warn_label(s, true), "\x1b[1m"@ + "\x1b[33m"@, s, "\x1b[39m"@ + "\x1b[0m"@),
        styles(dir_label(s, true, true), "\x1b[1m"@ + "\x1b[34m"@, s, "\x1b[39m"@ + "\x1b[0m"@),
        dir_label(s, false, true) == s,
        styles(heading_text(s, true, true), "\x1b[1m"@ + "\x1b[36m"@, s, "\x1b[39m"@ + "\x1b[0m"@),
        heading_text(s, false, true) == s,
        styles(reason_label(s, true), "\x1b[31m"@, s, "\x1b[39m"@),
        styles(note_label(s, true), "\x1b[2m"@, s, "\x1b[0m"@),
{
    bold_styles("\x1b[32m"@, s);
    bold_styles("\x1b[33m"@, s);
    bold_styles("\x1b[34m"@, s);
    bold_styles("\x1b[36m"@, s);
    wrapped_styles("\x1b[31m"@, s, "\x1b[39m"@);
    wrapped_styles("\x1b[2m"@, s, "\x1b[0m"@);
}

proof fn wrapped_styles(on: Seq<char>, s: Seq<char>, off: Seq<char>)
    ensures
        styles(wrapped(on, s, off), on, s, off),
{
    let shown = wrapped(on, s, off);
    assert(shown.take(on.len() as int) =~= on);
    assert(shown.subrange(on.len() as int, (on.len() + s.len()) as int) =~= s);
    assert(shown.skip((on.len() + s.len()) as int) =~= off);
}

} // verus!
