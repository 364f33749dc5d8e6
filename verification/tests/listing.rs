use xeedee_cli::listing::{sort_dir_entries, sorted_copy, DirEntry, LsSortBy, SortOrder};

fn entry(name: &str, size: u64, is_directory: bool, created: u64, changed: u64) -> DirEntry {
    DirEntry {
        name: name.to_owned(),
        size,
        is_directory,
        create_time: created,
        change_time: changed,
    }
}

fn sample() -> Vec<DirEntry> {
    vec![
        entry("beta", 5, false, 3, 9),
        entry("Alpha", 5, false, 1, 9),
        entry("dir", 77, true, 2, 1),
        entry("alpha", 9, false, 1, 2),
        entry("Zed", 0, false, 8, 2),
        entry("ALPHA", 1, true, 1, 2),
    ]
}

fn names(v: &[DirEntry]) -> Vec<&str> {
    v.iter().map(|e| e.name.as_str()).collect()
}

fn sorted(by: LsSortBy, order: SortOrder) -> Vec<String> {
    let mut v = sample();
    sort_dir_entries(&mut v, by, order);
    v.into_iter().map(|e| e.name).collect()
}

#[test]
fn sorts_by_name() {
    assert_eq!(
        sorted(LsSortBy::Name, SortOrder::Asc),
        ["Alpha", "alpha", "ALPHA", "beta", "dir", "Zed"]
    );
    assert_eq!(
        sorted(LsSortBy::Name, SortOrder::Desc),
        ["Zed", "dir", "beta", "Alpha", "alpha", "ALPHA"]
    );
}

#[test]
fn sorts_by_size_with_directories_as_zero() {
    assert_eq!(
        sorted(LsSortBy::Size, SortOrder::Asc),
        ["ALPHA", "dir", "Zed", "Alpha", "beta", "alpha"]
    );
    assert_eq!(
        sorted(LsSortBy::Size, SortOrder::Desc),
        ["alpha", "Alpha", "beta", "ALPHA", "dir", "Zed"]
    );
}

#[test]
fn sorts_by_kind_in_groups() {
    assert_eq!(
        sorted(LsSortBy::Kind, SortOrder::Desc),
        ["ALPHA", "dir", "Alpha", "alpha", "beta", "Zed"]
    );
    assert_eq!(
        sorted(LsSortBy::Kind, SortOrder::Asc),
        ["Alpha", "alpha", "beta", "Zed", "ALPHA", "dir"]
    );
}

#[test]
fn sorts_by_times() {
    assert_eq!(
        sorted(LsSortBy::Modified, SortOrder::Asc),
        ["dir", "alpha", "ALPHA", "Zed", "Alpha", "beta"]
    );
    assert_eq!(
        sorted(LsSortBy::Created, SortOrder::Desc),
        ["Zed", "beta", "dir", "Alpha", "alpha", "ALPHA"]
    );
}

#[test]
fn sorting_agrees_with_std() {
    let mut x: u32 = 12345;
    let mut v: Vec<DirEntry> = Vec::new();
    for i in 0..500u64 {
        x = x.wrapping_mul(1_664_525).wrapping_add(1_013_904_223);
        let c = char::from_u32(0x41 + (x >> 16) % 58).unwrap();
        v.push(entry(&format!("{c}{}", (x >> 8) % 4), (x >> 4) as u64 % 7, x % 3 == 0, i % 5, i % 3));
    }
    let mut expected: Vec<DirEntry> = v.iter().map(|e| e.copy()).collect();
    expected.sort_by(|a, b| {
        let key = |e: &DirEntry| if e.is_directory { 0 } else { e.size };
        key(a).cmp(&key(b)).reverse().then_with(|| {
            a.name.to_ascii_lowercase().cmp(&b.name.to_ascii_lowercase())
        })
    });
    let ours = sorted_copy(&v, LsSortBy::Size, SortOrder::Desc);
    assert_eq!(names(&ours), names(&expected));
    let times: Vec<(u64, u64)> = ours.iter().map(|e| (e.create_time, e.change_time)).collect();
    let others: Vec<(u64, u64)> = expected.iter().map(|e| (e.create_time, e.change_time)).collect();
    assert_eq!(times, others);
}

#[test]
fn sorting_is_idempotent_and_keeps_entries() {
    let once = sorted_copy(&sample(), LsSortBy::Modified, SortOrder::Desc);
    let twice = sorted_copy(&once, LsSortBy::Modified, SortOrder::Desc);
    assert_eq!(names(&once), names(&twice));
    let mut all = names(&once);
    all.sort();
    let again = sample();
    let mut given = names(&again);
    given.sort();
    assert_eq!(all, given);
    assert!(sorted_copy(&Vec::new(), LsSortBy::Name, SortOrder::Asc).is_empty());
}

#[test]
fn names_beyond_ascii_sort_by_code_point() {
    let v = vec![
        entry("\u{10000}", 0, false, 0, 0),
        entry("\u{ffff}", 0, false, 0, 0),
        entry("é", 0, false, 0, 0),
        entry("É", 0, false, 0, 0),
        entry("z", 0, false, 0, 0),
    ];
    let mut expected: Vec<String> = v.iter().map(|e| e.name.clone()).collect();
    expected.sort_by_key(|n| n.to_ascii_lowercase());
    let ours = sorted_copy(&v, LsSortBy::Name, SortOrder::Asc);
    assert_eq!(names(&ours), expected);
}
