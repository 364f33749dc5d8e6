use xeedee_cli::listing::DirEntry;
use xeedee_cli::segments::select_segments;

fn entry(name: String) -> DirEntry {
    DirEntry { name, size: 0, is_directory: false, create_time: 0, change_time: 0 }
}

#[test]
fn orders_many_segments_and_keeps_ties() {
    let mut x: u32 = 7;
    let mut entries = Vec::new();
    let mut expected: Vec<(u32, String)> = Vec::new();
    for i in 0..777usize {
        x = x.wrapping_mul(1_664_525).wrapping_add(1_013_904_223);
        let name = format!("c{}{}.x", "0".repeat(i % 4), x % 300);
        entries.push(entry(name.clone()));
        expected.push((x % 300, name));
    }
    expected.sort_by_key(|pair| pair.0);
    let found: Vec<(u32, String)> = select_segments(&entries, "c", ".x")
        .into_iter()
        .map(|s| (s.index, s.name))
        .collect();
    assert_eq!(found, expected);
}
