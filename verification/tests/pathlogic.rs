use unarchive::entry::{entry_kind, EntryKind};
use unarchive::error::ExtractError;
use unarchive::format::{detect_format, Format};
use unarchive::paths::{join_path_exec, split_path_exec, starts_with_components};
use unarchive::transform::{transform_path, ExtractConfig};

fn comps(raw: &[u8]) -> Vec<Vec<u8>> {
    split_path_exec(raw)
}

#[test]
fn split_drops_empty_and_dot_segments() {
    assert_eq!(comps(b"a//b/./c/"), vec![b"a".to_vec(), b"b".to_vec(), b"c".to_vec()]);
    assert_eq!(comps(b"/etc/passwd"), vec![b"etc".to_vec(), b"passwd".to_vec()]);
    assert_eq!(comps(b""), Vec::<Vec<u8>>::new());
    assert_eq!(comps(b"./."), Vec::<Vec<u8>>::new());
    assert_eq!(comps(b".."), vec![b"..".to_vec()]);
}

#[test]
fn join_rebuilds_relative_paths() {
    assert_eq!(join_path_exec(&comps(b"a//b/./c/")), b"a/b/c".to_vec());
    assert_eq!(join_path_exec(&comps(b"one")), b"one".to_vec());
    assert_eq!(join_path_exec(&Vec::new()), Vec::<u8>::new());
}

#[test]
fn component_prefix_is_not_byte_prefix() {
    let p = comps(b"srcextra/file");
    let f = comps(b"src");
    assert!(!starts_with_components(&p, &f));
    let p2 = comps(b"src/main.rs");
    assert!(starts_with_components(&p2, &f));
    assert!(starts_with_components(&p2, &comps(b"src/main.rs")));
}

#[test]
fn transform_strips_and_filters() {
    let cfg = ExtractConfig::new(1, None);
    assert_eq!(transform_path(comps(b"pkg/bin/tool"), &cfg), Some(comps(b"bin/tool")));
    assert_eq!(transform_path(comps(b"pkg"), &cfg), None);
    assert_eq!(transform_path(comps(b"pkg/"), &cfg), None);

    let filtered = ExtractConfig::new(1, Some(b"bin".as_slice()));
    assert_eq!(transform_path(comps(b"pkg/bin/tool"), &filtered), Some(comps(b"bin/tool")));
    assert_eq!(transform_path(comps(b"pkg/README"), &filtered), None);

    let hardened = ExtractConfig::new(0, None);
    assert_eq!(transform_path(comps(b"../evil"), &hardened), None);
}

#[test]
fn detect_format_by_extension() {
    assert_eq!(detect_format(b"bundle.tar.gz"), Ok(Format::TarGz));
    assert_eq!(detect_format(b"dir/bundle.tar.xz"), Ok(Format::TarXz));
    assert_eq!(detect_format(b"files.zip"), Ok(Format::Zip));
    assert_eq!(detect_format(b"archive.tgz"), Err(ExtractError::UnrecognizedFormat));
    assert_eq!(detect_format(b"noext"), Err(ExtractError::UnrecognizedFormat));
    assert_eq!(detect_format(b".gz"), Err(ExtractError::UnrecognizedFormat));
    assert_eq!(detect_format(b"trailingdot."), Err(ExtractError::UnrecognizedFormat));
    assert_eq!(detect_format(b""), Err(ExtractError::UnrecognizedFormat));
}

#[test]
fn tar_type_bytes_classify() {
    assert!(matches!(entry_kind(b'0'), EntryKind::File));
    assert!(matches!(entry_kind(b'5'), EntryKind::Directory));
    assert!(matches!(entry_kind(b'2'), EntryKind::Symlink));
    assert!(matches!(entry_kind(b'1'), EntryKind::Other));
    assert!(matches!(entry_kind(b'x'), EntryKind::Other));
}
