use unarchive::decode::plan_tar_gz;
use unarchive::entry::EntryKind;
use unarchive::error::ExtractError;
use unarchive::transform::ExtractConfig;

fn add_file(b: &mut tar::Builder<Vec<u8>>, path: &str, data: &[u8]) {
    let mut h = tar::Header::new_gnu();
    h.set_entry_type(tar::EntryType::Regular);
    h.set_size(data.len() as u64);
    h.set_mode(0o644);
    b.append_data(&mut h, path, data).unwrap();
}

fn add_dir(b: &mut tar::Builder<Vec<u8>>, path: &str) {
    let mut h = tar::Header::new_gnu();
    h.set_entry_type(tar::EntryType::Directory);
    h.set_size(0);
    h.set_mode(0o755);
    b.append_data(&mut h, path, &[] as &[u8]).unwrap();
}

fn add_symlink(b: &mut tar::Builder<Vec<u8>>, path: &str, target: &str) {
    let mut h = tar::Header::new_gnu();
    h.set_entry_type(tar::EntryType::Symlink);
    h.set_size(0);
    h.set_mode(0o777);
    b.append_link(&mut h, path, target).unwrap();
}

fn gzip(tarball: &[u8]) -> Vec<u8> {
    let mut enc = flate2::write::GzEncoder::new(Vec::new(), flate2::Compression::default());
    std::io::Write::write_all(&mut enc, tarball).unwrap();
    enc.finish().unwrap()
}

fn pkg_archive() -> Vec<u8> {
    let mut b = tar::Builder::new(Vec::new());
    add_dir(&mut b, "pkg/");
    add_file(&mut b, "pkg/bin/tool", b"#!tool");
    add_file(&mut b, "pkg/README", b"read me");
    gzip(&b.into_inner().unwrap())
}

#[test]
fn strip_one_extracts_deep_entries_only() {
    let archive = pkg_archive();
    let cfg = ExtractConfig::new(1, None);
    let plan = plan_tar_gz(&archive, &cfg).unwrap();
    assert_eq!(plan.len(), 2);
    assert_eq!(plan[0].rel_path(), b"bin/tool".to_vec());
    assert!(matches!(plan[0].kind, EntryKind::File));
    assert_eq!(plan[0].mode, 0o644);
    assert_eq!(plan[0].data, b"#!tool".to_vec());
    assert_eq!(plan[1].rel_path(), b"README".to_vec());
    assert_eq!(plan[1].data, b"read me".to_vec());
}

#[test]
fn strip_one_with_filter_keeps_one_subtree() {
    let archive = pkg_archive();
    let cfg = ExtractConfig::new(1, Some(b"bin".as_slice()));
    let plan = plan_tar_gz(&archive, &cfg).unwrap();
    assert_eq!(plan.len(), 1);
    assert_eq!(plan[0].rel_path(), b"bin/tool".to_vec());
}

#[test]
fn no_strip_keeps_all_entries() {
    let archive = pkg_archive();
    let cfg = ExtractConfig::new(0, None);
    let plan = plan_tar_gz(&archive, &cfg).unwrap();
    assert_eq!(plan.len(), 3);
    assert_eq!(plan[0].rel_path(), b"pkg".to_vec());
    assert!(matches!(plan[0].kind, EntryKind::Directory));
    assert_eq!(plan[1].rel_path(), b"pkg/bin/tool".to_vec());
    assert_eq!(plan[2].rel_path(), b"pkg/README".to_vec());
}

#[test]
fn round_trip_preserves_paths_and_bytes() {
    let mut b = tar::Builder::new(Vec::new());
    add_dir(&mut b, "tree/");
    add_dir(&mut b, "tree/sub/");
    add_file(&mut b, "tree/a.txt", b"alpha");
    add_file(&mut b, "tree/sub/b.bin", &[0u8, 1, 2, 254, 255]);
    let archive = gzip(&b.into_inner().unwrap());

    let cfg = ExtractConfig::new(0, None);
    let plan = plan_tar_gz(&archive, &cfg).unwrap();
    let got: Vec<(Vec<u8>, Vec<u8>)> =
        plan.iter().map(|a| (a.rel_path(), a.data.clone())).collect();
    let want: Vec<(Vec<u8>, Vec<u8>)> = vec![
        (b"tree".to_vec(), Vec::new()),
        (b"tree/sub".to_vec(), Vec::new()),
        (b"tree/a.txt".to_vec(), b"alpha".to_vec()),
        (b"tree/sub/b.bin".to_vec(), vec![0u8, 1, 2, 254, 255]),
    ];
    assert_eq!(got, want);
}

#[test]
fn planning_twice_gives_identical_writes() {
    let archive = pkg_archive();
    let cfg1 = ExtractConfig::new(1, None);
    let cfg2 = ExtractConfig::new(1, None);
    let first = plan_tar_gz(&archive, &cfg1).unwrap();
    let second = plan_tar_gz(&archive, &cfg2).unwrap();
    assert_eq!(first.len(), second.len());

    // Replay both runs over one simulated output tree: the second run
    // only overwrites what the first already wrote.
    let mut tree: std::collections::HashMap<Vec<u8>, Vec<u8>> = std::collections::HashMap::new();
    for a in first.iter() {
        tree.insert(a.rel_path(), a.data.clone());
    }
    let after_first = tree.clone();
    for a in second.iter() {
        tree.insert(a.rel_path(), a.data.clone());
    }
    assert_eq!(tree, after_first);
}

#[test]
fn entry_with_exactly_stripped_depth_is_skipped() {
    let mut b = tar::Builder::new(Vec::new());
    add_file(&mut b, "single", b"x");
    let archive = gzip(&b.into_inner().unwrap());
    let deep = plan_tar_gz(&archive, &ExtractConfig::new(1, None)).unwrap();
    assert!(deep.is_empty());
    let shallow = plan_tar_gz(&archive, &ExtractConfig::new(0, None)).unwrap();
    assert_eq!(shallow.len(), 1);
    assert_eq!(shallow[0].rel_path(), b"single".to_vec());
}

#[test]
fn truncated_gzip_is_corrupt() {
    let mut archive = pkg_archive();
    archive.truncate(archive.len() / 2);
    let r = plan_tar_gz(&archive, &ExtractConfig::new(0, None));
    assert_eq!(r.unwrap_err(), ExtractError::CorruptArchive);
}

#[test]
fn garbage_tar_is_corrupt() {
    // A well-formed gzip stream whose content is no tar container.
    let archive = gzip(&[0xffu8; 512]);
    let r = plan_tar_gz(&archive, &ExtractConfig::new(0, None));
    assert_eq!(r.unwrap_err(), ExtractError::CorruptArchive);
}

#[test]
fn empty_tar_gives_empty_plan() {
    let b = tar::Builder::new(Vec::new());
    let archive = gzip(&b.into_inner().unwrap());
    let plan = plan_tar_gz(&archive, &ExtractConfig::new(0, None)).unwrap();
    assert!(plan.is_empty());
}

#[test]
fn filter_matches_components_not_raw_prefix() {
    let mut b = tar::Builder::new(Vec::new());
    add_file(&mut b, "src/main.rs", b"fn main() {}");
    add_file(&mut b, "srcextra/file", b"nope");
    let archive = gzip(&b.into_inner().unwrap());
    let plan = plan_tar_gz(&archive, &ExtractConfig::new(0, Some(b"src".as_slice()))).unwrap();
    assert_eq!(plan.len(), 1);
    assert_eq!(plan[0].rel_path(), b"src/main.rs".to_vec());
}

#[test]
fn traversal_entries_are_skipped() {
    let mut b = tar::Builder::new(Vec::new());
    // The builder refuses `..` in declared paths, so write the raw
    // header name bytes directly, as a hostile archive would.
    let mut h = tar::Header::new_gnu();
    let name = b"pkg/../evil";
    h.as_old_mut().name[..name.len()].copy_from_slice(name);
    h.set_entry_type(tar::EntryType::Regular);
    h.set_size(3);
    h.set_mode(0o644);
    h.set_cksum();
    b.append(&h, b"bad".as_slice()).unwrap();
    add_file(&mut b, "pkg/ok", b"good");
    let archive = gzip(&b.into_inner().unwrap());
    let plan = plan_tar_gz(&archive, &ExtractConfig::new(0, None)).unwrap();
    assert_eq!(plan.len(), 1);
    assert_eq!(plan[0].rel_path(), b"pkg/ok".to_vec());
}

#[test]
fn symlink_entries_carry_their_target() {
    let mut b = tar::Builder::new(Vec::new());
    add_file(&mut b, "pkg/bin/tool", b"#!tool");
    add_symlink(&mut b, "pkg/bin/alias", "tool");
    let archive = gzip(&b.into_inner().unwrap());
    let plan = plan_tar_gz(&archive, &ExtractConfig::new(1, None)).unwrap();
    assert_eq!(plan.len(), 2);
    assert_eq!(plan[1].rel_path(), b"bin/alias".to_vec());
    assert!(matches!(plan[1].kind, EntryKind::Symlink));
    assert_eq!(plan[1].link, Some(b"tool".to_vec()));
}

#[test]
fn dot_and_empty_segments_are_dropped() {
    let mut b = tar::Builder::new(Vec::new());
    add_file(&mut b, "./pkg//tool", b"t");
    let archive = gzip(&b.into_inner().unwrap());
    let plan = plan_tar_gz(&archive, &ExtractConfig::new(0, None)).unwrap();
    assert_eq!(plan.len(), 1);
    assert_eq!(plan[0].rel_path(), b"pkg/tool".to_vec());
}
