use xeedee_cli::error::ErrorKind;
use xeedee_cli::paths::{
    is_local_name, join_path, mp4_path, normalize_dir_path, remote_basename, resolve_get_dir_output,
    resolve_get_output, split_capture_remote, CaptureRemotePath, LocalTarget,
};

#[test]
fn splits_nt_device_path() {
    let CaptureRemotePath { parent, stem, ext } =
        split_capture_remote(r"\Device\Harddisk0\Partition1\DEVKIT\foo.xbm");
    assert_eq!(parent, r"DEVKIT:\");
    assert_eq!(stem, "foo");
    assert_eq!(ext, ".xbm");
}

#[test]
fn splits_dos_path_unchanged() {
    let CaptureRemotePath { parent, stem, ext } = split_capture_remote(r"DEVKIT:\bar.xbm");
    assert_eq!(parent, r"DEVKIT:\");
    assert_eq!(stem, "bar");
    assert_eq!(ext, ".xbm");
}

#[test]
fn splits_nt_nested() {
    let CaptureRemotePath { parent, stem, ext } =
        split_capture_remote(r"\Device\Harddisk0\Partition1\DEVKIT\sub\baz.xbm");
    assert_eq!(parent, r"DEVKIT:\sub\");
    assert_eq!(stem, "baz");
    assert_eq!(ext, ".xbm");
}

#[test]
fn splits_drive_without_file() {
    let parts = split_capture_remote(r"\Device\Harddisk0\Partition1\DEVKIT");
    assert_eq!(parts.parent, r"DEVKIT:\");
    assert_eq!(parts.stem, "");
    assert_eq!(parts.ext, "");
}

#[test]
fn splits_name_without_dot() {
    let parts = split_capture_remote(r"E:\dir.x\movie");
    assert_eq!(parts.parent, r"E:\dir.x\");
    assert_eq!(parts.stem, "movie");
    assert_eq!(parts.ext, "");
}

#[test]
fn splits_name_with_several_dots() {
    let parts = split_capture_remote(r"E:\a.b.xbm");
    assert_eq!(parts.stem, "a.b");
    assert_eq!(parts.ext, ".xbm");
    assert_eq!(format!("{}{}{}", parts.parent, parts.stem, parts.ext), r"E:\a.b.xbm");
}

#[test]
fn bare_names_lie_in_the_root() {
    for (remote, stem, ext) in [
        ("foo.xbm", "foo", ".xbm"),
        ("é.xbm", "é", ".xbm"),
        ("DEVKIT:foo", "DEVKIT:foo", ""),
        ("", "", ""),
    ] {
        let parts = split_capture_remote(remote);
        assert_eq!(parts.parent, "\\");
        assert_eq!(parts.stem, stem);
        assert_eq!(parts.ext, ext);
    }
}

#[test]
fn parents_end_in_a_backslash() {
    for remote in [
        "",
        "x",
        "\\",
        "E:\\a\\b.c",
        r"\Device\Harddisk0\Partition1\",
        r"\Device\Harddisk0\Partition1\DEVKIT",
    ] {
        assert!(split_capture_remote(remote).parent.ends_with('\\'), "{remote:?}");
    }
}

#[test]
fn tells_local_names() {
    for name in ["a", "a.b", "...", ".hidden", "é", "a b"] {
        assert!(is_local_name(name, false), "{name:?}");
        assert!(is_local_name(name, true), "{name:?}");
    }
    for name in ["", ".", "..", "../x", "/x", "a/b"] {
        assert!(!is_local_name(name, false), "{name:?}");
        assert!(!is_local_name(name, true), "{name:?}");
    }
    for name in ["a\\b", "C:x", "..\\x"] {
        assert!(is_local_name(name, false), "{name:?}");
        assert!(!is_local_name(name, true), "{name:?}");
    }
}

#[test]
fn normalizes_once() {
    assert_eq!(normalize_dir_path(r"DEVKIT:"), r"DEVKIT:\");
    assert_eq!(normalize_dir_path(r"DEVKIT:\"), r"DEVKIT:\");
    assert_eq!(normalize_dir_path(""), "");
    let once = normalize_dir_path(r"E:\x");
    assert_eq!(normalize_dir_path(&once), once);
}

#[test]
fn joins_with_one_backslash() {
    assert_eq!(join_path(r"E:\", "a"), r"E:\a");
    assert_eq!(join_path(r"E:\x", "a"), r"E:\x\a");
    assert_eq!(join_path("", "a"), r"\a");
    assert_eq!(join_path(&normalize_dir_path(""), "a"), join_path("", "a"));
    assert_eq!(join_path(&normalize_dir_path(r"E:\x"), "a"), join_path(r"E:\x", "a"));
}

#[test]
fn takes_basename() {
    assert_eq!(remote_basename(r"DEVKIT:\dir\game.xex").as_deref(), Some("game.xex"));
    assert_eq!(remote_basename(r"DEVKIT:\dir\").as_deref(), Some("dir"));
    assert_eq!(remote_basename("a/b//").as_deref(), Some("b"));
    assert_eq!(remote_basename(r"FLASH:\"), None);
    assert_eq!(remote_basename("FLASH:"), None);
    assert_eq!(remote_basename(""), None);
    assert_eq!(remote_basename("E:x:y").as_deref(), Some("x:y"));
    assert_eq!(remote_basename(&join_path(r"E:\x", "name")).as_deref(), Some("name"));
}

#[test]
fn resolves_file_output() {
    assert!(matches!(
        resolve_get_output(r"E:\a.bin", None, false),
        Ok(LocalTarget::Exactly(p)) if p == "a.bin"
    ));
    assert!(matches!(
        resolve_get_output(r"E:\a.bin", Some("out"), false),
        Ok(LocalTarget::Exactly(p)) if p == "out"
    ));
    assert!(matches!(
        resolve_get_output(r"E:\a.bin", Some("out"), true),
        Ok(LocalTarget::Inside { dir, name }) if dir == "out" && name == "a.bin"
    ));
}

#[test]
fn refuses_file_output_without_name() {
    let failure = resolve_get_output(r"FLASH:\", Some("out"), false).unwrap_err();
    assert_eq!(failure.kind, ErrorKind::EmptyFilename);
    assert_eq!(
        failure.note.as_deref(),
        Some(r#"cannot derive local filename from "FLASH:\\""#)
    );
}

#[test]
fn resolves_tree_output() {
    assert!(matches!(
        resolve_get_dir_output(r"E:\dir", None, false),
        LocalTarget::Exactly(p) if p == "dir"
    ));
    assert!(matches!(
        resolve_get_dir_output(r"E:\", None, false),
        LocalTarget::Exactly(p) if p == "download"
    ));
    assert!(matches!(
        resolve_get_dir_output(r"E:\", Some("here"), true),
        LocalTarget::Inside { dir, name } if dir == "here" && name == "download"
    ));
    assert!(matches!(
        resolve_get_dir_output(r"E:\dir", Some("here"), false),
        LocalTarget::Exactly(p) if p == "here"
    ));
}

#[test]
fn names_movie_after_segment() {
    assert_eq!(mp4_path("out/cap0.xbm"), "out/cap0.mp4");
    assert_eq!(mp4_path("out/cap0.bin"), "out/cap0.bin.mp4");
    assert_eq!(mp4_path(".xbm"), ".mp4");
    assert_ne!(mp4_path("out/cap0.mp4"), "out/cap0.mp4");
}
