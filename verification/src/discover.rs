//! Finding consoles on the network.

use vstd::prelude::*;

use crate::error::{ErrorKind, Failure};
use crate::records::{consoles_output, lines_of, rows_of, FoundConsole, Record};
use crate::report::{listing, one_line, plain_output, tabbed, Output};
use crate::style::{warn_label, warn_tag};
use crate::text::{decimal, decimal_text, quote, quoted};
use crate::ui::UiCtx;

verus! {

/// The texts that a broadcast destination is read from, in turn: as it was
/// given, and with the port behind it.
pub fn destination_texts(raw: &str, port: u16) -> (r: (String, String))
    ensures
        r.0@ == raw@,
        r.1@ == raw@ + ":"@ + decimal(port as nat),
{
    let mut with_port = raw.to_owned();
    with_port.append(":");
    let number = decimal_text(port as u64);
    with_port.append(number.as_str());
    (raw.to_owned(), with_port)
}

/// Which of the two texts is the destination: the first that is an address.
pub fn pick_destination(raw: &str, first_parses: bool, second_parses: bool) -> (r: Result<
    bool,
    Failure,
>)
    ensures
        match r {
            Ok(second) => second == !first_parses && (first_parses || second_parses),
            Err(f) => !first_parses && !second_parses && f.reports(
                ErrorKind::QuotedContainsCrlf,
                Some("invalid --broadcast value "@ + quoted(raw@)),
            ),
        },
{
    if first_parses {
        Ok(false)
    } else if second_parses {
        Ok(true)
    } else {
        let mut note = "invalid --broadcast value ".to_owned();
        let shown = quote(raw);
        note.append(shown.as_str());
        Err(Failure::noted(ErrorKind::QuotedContainsCrlf, note))
    }
}

/// What is shown of a search.
#[derive(Debug)]
pub enum SearchOutput {
    /// No console answered: a warning.
    Warning(String),
    Found(Output),
}

/// Shows the consoles that answered a broadcast.
pub fn search_output(found: &Vec<FoundConsole>, ui: &UiCtx, colors: bool) -> (r: SearchOutput)
    ensures
        if found@.len() == 0 {
            r matches SearchOutput::Warning(m) && m@ == warn_label("warning:"@, colors)
                + " no consoles responded"@
        } else {
            r matches SearchOutput::Found(o) && o@ == listing(
                *ui,
                colors,
                "discover"@,
                seq!["name"@, "address"@],
                rows_of(found@),
                lines_of(found@),
            )
        },
{
    if found.len() == 0 {
        let mut m = warn_tag("warning:", colors);
        m.append(" no consoles responded");
        SearchOutput::Warning(m)
    } else {
        SearchOutput::Found(consoles_output(found, ui, colors))
    }
}

/// Shows the console that a name stands for, or fails where none answered.
pub fn resolve_output(name: &str, found: Option<FoundConsole>) -> (r: Result<Output, Failure>)
    ensures
        match found {
            Some(console) => r matches Ok(o) && o@ == one_line(
                console.name@ + "\t"@ + console.addr@,
            ),
            None => r matches Err(f) && f.reports(
                ErrorKind::ConnectTimeout,
                Some("no reply from console named "@ + quoted(name@)),
            ),
        },
{
    match found {
        Some(console) => {
            let line = console.line_text();
            proof {
                let row = console.row();
                assert(row.drop_last() =~= seq![console.name@]);
                assert(tabbed(row.drop_last()) == console.name@);
            }
            Ok(plain_output(line.as_str()))
        },
        None => {
            let mut note = "no reply from console named ".to_owned();
            let shown = quote(name);
            note.append(shown.as_str());
            Err(Failure::noted(ErrorKind::ConnectTimeout, note))
        },
    }
}

} // verus!
