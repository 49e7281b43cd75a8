use pdfiron::error::ErrorKind;
use pdfiron::paths::{extension, join_path};
use pdfiron::run::{validate_input_file, Format, Run};
use pdfiron::util::file_name;

fn sample_run(output: Option<String>) -> Run {
    Run::new(
        String::from("/docs/scan.pdf"),
        output,
        false,
        false,
        false,
        true,
        String::from("/tmp/work"),
    )
    .unwrap()
}

#[test]
fn output_path_derives_default_beside_source() {
    let run = sample_run(None);
    assert_eq!(run.output_path(), "/docs/scan-ironed.pdf");
}

#[test]
fn output_path_keeps_every_dot_after_the_first() {
    let mut run = sample_run(None);
    run.input = String::from("/docs/a.b.pdf");
    assert_eq!(run.output_path(), "/docs/a-ironed.b.pdf");
}

#[test]
fn output_path_returns_explicit_path_verbatim() {
    let run = sample_run(Some(String::from("/elsewhere/out.pdf")));
    assert_eq!(run.output_path(), "/elsewhere/out.pdf");
}

#[test]
fn validation_rejects_missing_file() {
    let e = validate_input_file("/docs/scan.pdf", false).unwrap_err();
    assert!(matches!(e.kind, ErrorKind::InvalidInput));
}

#[test]
fn validation_rejects_wrong_extension() {
    let e = validate_input_file("/docs/scan.txt", true).unwrap_err();
    assert!(matches!(e.kind, ErrorKind::InvalidInput));
    let e = validate_input_file("/docs/noext", true).unwrap_err();
    assert!(matches!(e.kind, ErrorKind::InvalidInput));
    let e = validate_input_file("/docs/.pdf", true).unwrap_err();
    assert!(matches!(e.kind, ErrorKind::InvalidInput));
}

#[test]
fn validation_accepts_pdf_case_insensitively() {
    assert!(validate_input_file("/docs/scan.pdf", true).is_ok());
    assert!(validate_input_file("/docs/SCAN.PDF", true).is_ok());
    assert!(validate_input_file("/docs/scan.Pdf", true).is_ok());
}

#[test]
fn run_creation_fails_with_invalid_input() {
    let r = Run::new(
        String::from("/docs/scan.txt"),
        None,
        false,
        false,
        false,
        true,
        String::from("/tmp/work"),
    );
    assert!(matches!(r.unwrap_err().kind, ErrorKind::InvalidInput));
}

#[test]
fn run_creation_records_the_configuration() {
    let run = Run::new(
        String::from("/docs/scan.pdf"),
        Some(String::from("/out.pdf")),
        true,
        false,
        true,
        true,
        String::from("/tmp/work"),
    )
    .unwrap();
    assert_eq!(run.input, "/docs/scan.pdf");
    assert_eq!(run.output, Some(String::from("/out.pdf")));
    assert_eq!(run.folder, "/tmp/work");
    assert!(run.do_step);
    assert!(matches!(run.format, Format::Graymap));
}

#[test]
fn format_follows_the_color_switches() {
    assert!(matches!(Format::from(true, false), Format::Graymap));
    assert!(matches!(Format::from(false, true), Format::Pixmap));
    assert!(matches!(Format::from(false, false), Format::Bitmap));
    assert!(matches!(Format::from(true, true), Format::Bitmap));
}

#[test]
fn format_extensions() {
    assert_eq!(Format::Bitmap.extension(), "pbm");
    assert_eq!(Format::Graymap.extension(), "pgm");
    assert_eq!(Format::Pixmap.extension(), "ppm");
    assert_eq!(Format::Tiff.extension(), "tiff");
}

#[test]
fn build_path_appends_extension_of_the_format() {
    let run = sample_run(None);
    assert_eq!(run.build_path("a_0", None), "/tmp/work/a_0.pbm");
    assert_eq!(run.build_path("d_x", Some("pdf")), "/tmp/work/d_x.pdf");
}

#[test]
fn build_path_replaces_an_existing_extension() {
    let run = sample_run(None);
    assert_eq!(run.build_path("a_0.png", Some("tiff")), "/tmp/work/a_0.tiff");
    assert_eq!(run.build_path("a.b.c", Some("pdf")), "/tmp/work/a.b.pdf");
    // A leading dot marks a hidden file, not an extension.
    assert_eq!(run.build_path(".cfg", Some("pdf")), "/tmp/work/.cfg.pdf");
}

#[test]
fn prepend_with_temp_folder_joins() {
    let run = sample_run(None);
    assert_eq!(run.prepend_with_temp_folder("input.pdf"), "/tmp/work/input.pdf");
    assert_eq!(join_path("/a", "b"), "/a/b");
}

#[test]
fn file_name_takes_stem_before_first_dot() {
    assert_eq!(file_name("/tmp/x/a_3.pbm"), "a_3");
    assert_eq!(file_name("/tmp/x/a.b.c"), "a");
    assert_eq!(file_name("plain"), "plain");
}

#[test]
fn extension_follows_the_last_dot_of_the_name() {
    assert_eq!(extension("/x/a.PDF"), Some(String::from("PDF")));
    assert_eq!(extension("/x/a.tar.gz"), Some(String::from("gz")));
    assert_eq!(extension("/x/.pdf"), None);
    assert_eq!(extension("/x/name"), None);
    assert_eq!(extension("/x.y/name"), None);
}

#[test]
fn query_files_returns_exactly_the_prefixed_entries() {
    let run = sample_run(None);
    let entries = vec![
        String::from("input.pdf"),
        String::from("a_0.pbm"),
        String::from("b_a_0_00001.pbm"),
        String::from("a_1.pbm"),
    ];
    let a = run.query_files(&entries, "a_");
    assert_eq!(a, vec![String::from("/tmp/work/a_0.pbm"), String::from("/tmp/work/a_1.pbm")]);
    let b = run.query_files(&entries, "b_");
    assert_eq!(b, vec![String::from("/tmp/work/b_a_0_00001.pbm")]);
    let d = run.query_files(&entries, "d_");
    assert!(d.is_empty());
}

#[test]
fn expand_path_normalizes_relative_paths() {
    let r = Run::expand_path("scan.pdf", "/home/user").unwrap();
    assert_eq!(r, "/home/user/scan.pdf");
    let r = Run::expand_path("/abs/scan.pdf", "/home/user").unwrap();
    assert_eq!(r, "/abs/scan.pdf");
}
