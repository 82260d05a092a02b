use hitair::update::{extract, member_of, ExtractError, TarListing};
use std::io::Write;

fn tar_gz(files: &[(&str, &[u8])]) -> Vec<u8> {
    let enc = flate2::write::GzEncoder::new(Vec::new(), flate2::Compression::default());
    let mut builder = tar::Builder::new(enc);
    for (path, data) in files {
        let mut header = tar::Header::new_gnu();
        header.set_size(data.len() as u64);
        header.set_mode(0o755);
        header.set_cksum();
        builder.append_data(&mut header, path, *data).unwrap();
    }
    builder.into_inner().unwrap().finish().unwrap()
}

fn zip_of(files: &[(&str, &[u8])]) -> Vec<u8> {
    let mut w = zip::ZipWriter::new(std::io::Cursor::new(Vec::new()));
    let opts = zip::write::SimpleFileOptions::default()
        .compression_method(zip::CompressionMethod::Stored);
    for (name, data) in files {
        w.start_file(*name, opts).unwrap();
        w.write_all(data).unwrap();
    }
    w.finish().unwrap().into_inner()
}

#[test]
fn tar_gz_gives_the_named_binary() {
    let bytes = tar_gz(&[
        ("hitair-gui-linux-x86_64/README.md", b"read me"),
        ("hitair-gui-linux-x86_64/hitair-gui", b"\x7fELF binary"),
    ]);
    assert_eq!(extract(&bytes, "hitair-gui", false), Ok(b"\x7fELF binary".to_vec()));
}

#[test]
fn tar_gz_without_the_binary_is_missing() {
    let bytes = tar_gz(&[("notes.txt", b"nothing here")]);
    assert_eq!(extract(&bytes, "hitair-gui", false), Err(ExtractError::Missing));
}

#[test]
fn garbage_is_unreadable() {
    let bytes = b"this is not an archive at all".to_vec();
    assert_eq!(extract(&bytes, "hitair-gui", false), Err(ExtractError::Unreadable));
    assert_eq!(extract(&bytes, "hitair-gui.exe", true), Err(ExtractError::Unreadable));
}

#[test]
fn zip_gives_the_named_binary() {
    let bytes = zip_of(&[("readme.txt", b"hi"), ("hitair-gui.exe", b"MZ binary")]);
    assert_eq!(extract(&bytes, "hitair-gui.exe", true), Ok(b"MZ binary".to_vec()));
    assert_eq!(extract(&bytes, "hitair-gui", true), Err(ExtractError::Missing));
}

#[test]
fn first_entry_of_a_name_wins() {
    let listing = TarListing {
        names: vec![None, Some("app".to_string()), Some("app".to_string())],
        contents: vec![vec![0], vec![1], vec![2]],
        complete: true,
    };
    assert_eq!(member_of(listing, "app"), Ok(vec![1]));
}

#[test]
fn a_damaged_archive_still_gives_an_earlier_match() {
    let found = TarListing {
        names: vec![Some("app".to_string())],
        contents: vec![vec![7, 7]],
        complete: false,
    };
    assert_eq!(member_of(found, "app"), Ok(vec![7, 7]));
    let lost = TarListing {
        names: vec![Some("other".to_string())],
        contents: vec![vec![1]],
        complete: false,
    };
    assert_eq!(member_of(lost, "app"), Err(ExtractError::Unreadable));
}
