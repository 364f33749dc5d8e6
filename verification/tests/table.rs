use xeedee_cli::report::Output;
use xeedee_cli::table::{printed, table_pieces, table_records};

fn s(text: &str) -> String {
    text.to_owned()
}

#[test]
fn prints_lines_as_they_are() {
    assert_eq!(printed(Output::Lines(vec![s("a"), s(""), s("b")])), ["a", "", "b"]);
    assert!(printed(Output::Lines(vec![])).is_empty());
}

#[test]
fn prints_tables_in_boxes() {
    let table = |heading: &str| Output::Table {
        heading: s(heading),
        columns: vec![s("a"), s("b")],
        rows: vec![vec![s("1"), s("22")], vec![s("333"), s("")]],
    };
    let body = "╭─────┬────╮\n\
                │ a   │ b  │\n\
                ├─────┼────┤\n\
                │ 1   │ 22 │\n\
                │ 333 │    │\n\
                ╰─────┴────╯";
    assert_eq!(printed(table("drives")), ["drives", body]);
    assert_eq!(printed(table("")), [body]);
}

#[test]
fn assembles_tables() {
    assert_eq!(
        table_records(vec![s("h")], vec![vec![s("x")], vec![s("y")]]),
        [[s("h")], [s("x")], [s("y")]]
    );
    assert_eq!(table_pieces(s("h"), s("b")), ["h", "b"]);
    assert_eq!(table_pieces(s(""), s("b")), ["b"]);
}
