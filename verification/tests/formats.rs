use std::io::Write;

use unwrapper::format::{classify, format_of_mime, sniff_window, WrappedFormat, SNIFF_WINDOW};

fn zip_of(files: &[(&str, &[u8])]) -> Vec<u8> {
    let mut writer = zip::ZipWriter::new(std::io::Cursor::new(Vec::new()));
    for (name, data) in files {
        writer.start_file(*name, zip::write::FileOptions::default()).unwrap();
        writer.write_all(data).unwrap();
    }
    writer.finish().unwrap().into_inner()
}

fn tar_of(files: &[(&str, &[u8])]) -> Vec<u8> {
    let mut builder = tar::Builder::new(Vec::new());
    for (name, data) in files {
        let mut header = tar::Header::new_ustar();
        header.set_size(data.len() as u64);
        header.set_mode(0o644);
        header.set_cksum();
        builder.append_data(&mut header, name, *data).unwrap();
    }
    builder.into_inner().unwrap()
}

fn gzip(data: &[u8]) -> Vec<u8> {
    let mut encoder = flate2::write::GzEncoder::new(Vec::new(), flate2::Compression::default());
    encoder.write_all(data).unwrap();
    encoder.finish().unwrap()
}

#[test]
fn each_known_mime_type_has_its_format() {
    assert_eq!(format_of_mime("application/zip"), WrappedFormat::Zip);
    assert_eq!(format_of_mime("application/x-xz"), WrappedFormat::Xz);
    assert_eq!(format_of_mime("application/x-tar"), WrappedFormat::Tar);
    assert_eq!(format_of_mime("application/gzip"), WrappedFormat::Gzip);
    assert_eq!(format_of_mime("application/x-bzip"), WrappedFormat::Bzip2);
    assert_eq!(format_of_mime("application/vnd.rar"), WrappedFormat::Rar);
    assert_eq!(format_of_mime("application/x-rar-compressed"), WrappedFormat::Rar);
}

#[test]
fn any_other_mime_type_is_unsupported() {
    for mime in [
        "text/plain",
        "application/octet-stream",
        "application/x-7z-compressed",
        "image/png",
        "inode/directory",
        "",
        "application/zip ",
        "Application/Zip",
        "application/zi",
        "application/zipp",
        "application/x-gzip",
        "application/base64",
    ] {
        assert_eq!(format_of_mime(mime), WrappedFormat::Unsupported, "{:?}", mime);
    }
}

#[test]
fn archives_and_compressors_are_told_apart() {
    for format in [WrappedFormat::Zip, WrappedFormat::Tar, WrappedFormat::Rar] {
        assert!(format.is_archive());
        assert!(!format.is_compressor());
    }
    for format in [WrappedFormat::Xz, WrappedFormat::Gzip, WrappedFormat::Bzip2] {
        assert!(format.is_compressor());
        assert!(!format.is_archive());
    }
    for format in [WrappedFormat::Base64, WrappedFormat::Unsupported] {
        assert!(!format.is_archive());
        assert!(!format.is_compressor());
    }
}

#[test]
fn a_zip_archive_is_recognised() {
    let bytes = zip_of(&[("a.txt", b"hello")]);
    assert_eq!(classify(&bytes), WrappedFormat::Zip);
}

#[test]
fn a_tar_archive_is_recognised() {
    let bytes = tar_of(&[("x.txt", b"data")]);
    assert_eq!(classify(&bytes), WrappedFormat::Tar);
}

#[test]
fn a_gzip_stream_is_recognised() {
    assert_eq!(classify(&gzip(b"hello")), WrappedFormat::Gzip);
}

#[test]
fn a_bzip2_stream_is_recognised() {
    let mut encoder = bzip2::write::BzEncoder::new(Vec::new(), bzip2::Compression::best());
    encoder.write_all(b"hello").unwrap();
    assert_eq!(classify(&encoder.finish().unwrap()), WrappedFormat::Bzip2);
}

#[test]
fn an_xz_stream_is_recognised() {
    assert_eq!(classify(&lzma::compress(b"hello", 6).unwrap()), WrappedFormat::Xz);
}

#[test]
fn a_rar_archive_is_recognised_by_its_signature() {
    let mut bytes = b"Rar!\x1a\x07\x00".to_vec();
    bytes.extend_from_slice(&[0u8; 64]);
    assert_eq!(classify(&bytes), WrappedFormat::Rar);
}

#[test]
fn plain_text_is_unsupported() {
    assert_eq!(classify(b"just some plain text\n"), WrappedFormat::Unsupported);
    assert_eq!(classify(b"aGVsbG8="), WrappedFormat::Unsupported);
    assert_eq!(classify(b""), WrappedFormat::Unsupported);
}

#[test]
fn arbitrary_bytes_are_unsupported() {
    let bytes: Vec<u8> = (0..4096u32).map(|i| (i * 7 % 256) as u8).collect();
    assert_eq!(classify(&bytes), WrappedFormat::Unsupported);
}

#[test]
fn content_is_never_taken_for_base64() {
    for sample in [&b"aGVsbG8="[..], &b"QUJD"[..], &gzip(b"x")[..], &b""[..]] {
        assert_ne!(classify(sample), WrappedFormat::Base64);
    }
}

#[test]
fn only_the_start_of_the_content_counts() {
    assert_eq!(SNIFF_WINDOW, 2048);
    let mut bytes = zip_of(&[("a.txt", b"hello")]);
    bytes.resize(bytes.len().max(3 * SNIFF_WINDOW), 0);
    assert_eq!(classify(&bytes), WrappedFormat::Zip);
    let mut late = vec![b' '; SNIFF_WINDOW];
    late.extend_from_slice(&gzip(b"hello"));
    assert_eq!(classify(&late), WrappedFormat::Unsupported);
}

#[test]
fn the_window_is_the_start_of_the_content() {
    let bytes: Vec<u8> = (0..5000u32).map(|i| (i % 251) as u8).collect();
    assert_eq!(sniff_window(&bytes), &bytes[..2048]);
    assert_eq!(sniff_window(&bytes[..2049]), &bytes[..2048]);
    assert_eq!(sniff_window(&bytes[..2048]), &bytes[..2048]);
    assert_eq!(sniff_window(&bytes[..2047]), &bytes[..2047]);
    assert_eq!(sniff_window(&bytes[..1]), &bytes[..1]);
    assert_eq!(sniff_window(&[]), &[] as &[u8]);
}

#[test]
fn the_signature_of_a_tar_archive_stands_within_the_window() {
    let bytes = tar_of(&[("x.txt", b"data")]);
    assert_eq!(&bytes[257..262], b"ustar");
    assert_eq!(classify(sniff_window(&bytes)), WrappedFormat::Tar);
}
