use std::io::{Cursor, Write};

use antman::unzip::{read_zip_entries, split_path, unpack_steps, UnpackStep, ZipEntry};
use zip::write::SimpleFileOptions;
use zip::{CompressionMethod, ZipWriter};

fn archive(files: &[(&str, Option<&[u8]>)]) -> Vec<u8> {
    let mut w = ZipWriter::new(Cursor::new(Vec::new()));
    let opts = SimpleFileOptions::default().compression_method(CompressionMethod::Stored);
    for (name, data) in files {
        match data {
            None => w.add_directory(*name, opts).unwrap(),
            Some(d) => {
                w.start_file(*name, opts).unwrap();
                w.write_all(d).unwrap();
            }
        }
    }
    w.finish().unwrap().into_inner()
}

fn strings(v: &[&str]) -> Vec<String> {
    v.iter().map(|s| s.to_string()).collect()
}

#[test]
fn split_path_splits_on_slash() {
    assert_eq!(split_path(""), Vec::<String>::new());
    assert_eq!(split_path("a"), strings(&["a"]));
    assert_eq!(split_path("a/bc/d.txt"), strings(&["a", "bc", "d.txt"]));
    assert_eq!(split_path("a//b/"), strings(&["a", "", "b", ""]));
}

#[test]
fn reads_entries_in_order() {
    let bytes = archive(&[("dir/", None), ("dir/a.txt", Some(b"hello")), ("top.ta", Some(b""))]);
    let r = read_zip_entries(&bytes).unwrap();
    assert!(r.complete);
    assert_eq!(
        r.entries,
        vec![
            ZipEntry { components: strings(&["dir"]), is_dir: true, data: vec![] },
            ZipEntry { components: strings(&["dir", "a.txt"]), is_dir: false, data: b"hello".to_vec() },
            ZipEntry { components: strings(&["top.ta"]), is_dir: false, data: vec![] },
        ]
    );
}

#[test]
fn names_cannot_leave_the_target() {
    let bytes = archive(&[("../evil.txt", Some(b"x")), ("/abs/p.txt", Some(b"y")), ("a/./../b", Some(b"z"))]);
    let r = read_zip_entries(&bytes).unwrap();
    assert!(r.complete);
    assert_eq!(r.entries[0].components, strings(&["evil.txt"]));
    assert_eq!(r.entries[1].components, strings(&["abs", "p.txt"]));
    assert_eq!(r.entries[2].components, strings(&["a", "b"]));
    for e in &r.entries {
        for c in &e.components {
            assert!(!c.is_empty() && c != "." && c != ".." && !c.contains('/'));
        }
    }
}

#[test]
fn not_an_archive() {
    assert!(read_zip_entries(&b"definitely not a zip file".to_vec()).is_none());
    assert!(read_zip_entries(&vec![]).is_none());
}

#[test]
fn stops_at_unreadable_entry() {
    let mut bytes = archive(&[("ok.txt", Some(b"fine")), ("bad.txt", Some(b"hello")), ("c.txt", Some(b"c"))]);
    let pos = bytes.windows(5).position(|w| w == b"hello").unwrap();
    bytes[pos] = b'j';
    let r = read_zip_entries(&bytes).unwrap();
    assert!(!r.complete);
    // The broken file is kept with what was read of it, as unpacking it
    // would leave it; the entry after it is not read.
    assert_eq!(r.entries.len(), 2);
    assert_eq!(r.entries[0].data, b"fine".to_vec());
    assert_eq!(r.entries[1].components, strings(&["bad.txt"]));
    assert!(!r.entries[1].is_dir);
    assert_eq!(r.entries[1].data, b"jello".to_vec());
}

#[test]
fn one_step_per_entry() {
    let entries = vec![
        ZipEntry { components: strings(&["d"]), is_dir: true, data: vec![] },
        ZipEntry { components: strings(&["d", "f"]), is_dir: false, data: vec![1, 2] },
    ];
    assert_eq!(
        unpack_steps(entries),
        vec![
            UnpackStep::CreateDir(strings(&["d"])),
            UnpackStep::WriteFile(strings(&["d", "f"]), vec![1, 2]),
        ]
    );
    assert!(unpack_steps(vec![]).is_empty());
}

#[test]
fn reads_entries_of_every_compression_method() {
    for method in [CompressionMethod::Deflated, CompressionMethod::Bzip2, CompressionMethod::Zstd] {
        let mut w = ZipWriter::new(Cursor::new(Vec::new()));
        w.start_file("a.txt", SimpleFileOptions::default().compression_method(method)).unwrap();
        w.write_all(b"compressed contents").unwrap();
        let bytes = w.finish().unwrap().into_inner();
        let r = read_zip_entries(&bytes).unwrap();
        assert!(r.complete);
        assert_eq!(r.entries[0].data, b"compressed contents".to_vec());
    }
}
