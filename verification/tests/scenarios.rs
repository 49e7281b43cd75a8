use pdfiron::convert::{convert_invocation, normalize_items, parse_resolution, rasterize_items};
use pdfiron::error::ErrorKind;
use pdfiron::pdf::unite;
use pdfiron::pipeline::{initial_state, next_state, normalize_input_prefix, PipelineState};
use pdfiron::pool::WorkItem;
use pdfiron::run::{Format, Run};
use pdfiron::tesseract::{parse_thread_count, tesseract_invocation, tesseract_items};
use pdfiron::unpaper::{unpaper_invocation, unpaper_items};
use pdfiron::util::pdfinfo_invocation;

fn sample_run() -> Run {
    Run::new(
        String::from("/docs/scan.pdf"),
        None,
        false,
        false,
        false,
        true,
        String::from("/tmp/work"),
    )
    .unwrap()
}

#[test]
fn resolution_argument_must_be_a_positive_integer() {
    let e = parse_resolution(&Some(String::from("-5"))).unwrap_err();
    assert!(matches!(e.kind, ErrorKind::InvalidConfiguration));
    let e = parse_resolution(&Some(String::from("0"))).unwrap_err();
    assert!(matches!(e.kind, ErrorKind::InvalidConfiguration));
    let e = parse_resolution(&Some(String::from("dpi"))).unwrap_err();
    assert!(matches!(e.kind, ErrorKind::InvalidConfiguration));
    assert_eq!(parse_resolution(&None).unwrap(), 300);
    assert_eq!(parse_resolution(&Some(String::from("600"))).unwrap(), 600);
}

#[test]
fn thread_count_argument_must_be_a_positive_integer() {
    let e = parse_thread_count(&Some(String::from("zero"))).unwrap_err();
    assert!(matches!(e.kind, ErrorKind::InvalidConfiguration));
    assert_eq!(parse_thread_count(&None).unwrap(), 2);
    assert_eq!(parse_thread_count(&Some(String::from("4"))).unwrap(), 4);
}

#[test]
fn rasterize_builds_one_item_per_page() {
    let run = sample_run();
    let items = rasterize_items(&run, 3);
    assert_eq!(items.len(), 3);
    assert_eq!(items[0].input, "/tmp/work/input.pdf[0]");
    assert_eq!(items[0].output, "/tmp/work/a_0.pbm");
    assert_eq!(items[2].input, "/tmp/work/input.pdf[2]");
    assert_eq!(items[2].output, "/tmp/work/a_2.pbm");
}

#[test]
fn convert_invocation_for_grayscale() {
    let item = WorkItem::new(
        String::from("/tmp/work/input.pdf[0]"),
        String::from("/tmp/work/a_0.pgm"),
    );
    let inv = convert_invocation(Format::Graymap, 300, &Some(String::from("-x y")), &item);
    assert_eq!(inv.binary, "convert");
    assert_eq!(
        inv.args,
        vec![
            "-units",
            "PixelsPerInch",
            "-colorspace",
            "gray",
            "-depth",
            "8",
            "-background",
            "white",
            "-alpha",
            "Off",
            "-density",
            "300x300",
            "-x",
            "y",
            "/tmp/work/input.pdf[0]",
            "/tmp/work/a_0.pgm",
        ]
    );
}

#[test]
fn convert_invocation_for_tiff_takes_no_options() {
    let item = WorkItem::new(
        String::from("/tmp/work/b_a_0_00001.pbm"),
        String::from("/tmp/work/c_b_a_0_00001_%03d.tiff"),
    );
    let inv = convert_invocation(Format::Tiff, 300, &Some(String::from("-x y")), &item);
    assert_eq!(
        inv.args,
        vec![
            "-units",
            "PixelsPerInch",
            "-density",
            "300x300",
            "/tmp/work/b_a_0_00001.pbm",
            "/tmp/work/c_b_a_0_00001_%03d.tiff",
        ]
    );
}

#[test]
fn unpaper_invocation_carries_the_configured_switches() {
    let item = WorkItem::new(
        String::from("/tmp/work/a_0.pbm"),
        String::from("/tmp/work/b_a_0_%05d.pbm"),
    );
    let inv = unpaper_invocation(
        &Some(String::from("double")),
        &Some(String::from("2")),
        &Some(String::from("--size a4")),
        true,
        false,
        &item,
    );
    assert_eq!(inv.binary, "unpaper");
    assert_eq!(
        inv.args,
        vec![
            "--size",
            "a4",
            "--layout",
            "double",
            "--output-pages",
            "2",
            "--no-blackfilter",
            "/tmp/work/a_0.pbm",
            "/tmp/work/b_a_0_%05d.pbm",
        ]
    );
}

#[test]
fn tesseract_invocation_defaults_to_english() {
    let item = WorkItem::new(
        String::from("/tmp/work/c_b_a_0_00001_001.tiff"),
        String::from("/tmp/work/d_c_b_a_0_00001_001.pdf"),
    );
    let inv = tesseract_invocation(&None, &None, &item);
    assert_eq!(inv.binary, "tesseract");
    assert_eq!(
        inv.args,
        vec![
            "-l",
            "eng",
            "/tmp/work/c_b_a_0_00001_001.tiff",
            "/tmp/work/d_c_b_a_0_00001_001.pdf",
            "pdf",
        ]
    );
}

#[test]
fn pdfinfo_invocation_queries_the_copied_source() {
    let run = sample_run();
    let inv = pdfinfo_invocation(&run);
    assert_eq!(inv.binary, "pdfinfo");
    assert_eq!(inv.args, vec!["/tmp/work/input.pdf"]);
}

/// A three-page end-to-end run over the naming protocol: all stages
/// enabled, default configuration.  The merge receives exactly three
/// inputs, sorted, and writes to the default derived output path.
#[test]
fn three_page_run_reaches_the_merge_with_three_sorted_inputs() {
    let run = sample_run();

    let raster = rasterize_items(&run, 3);
    assert_eq!(raster.len(), 3);

    // The rasterizer wrote one a_-prefixed image per page.
    let listing = vec![
        String::from("input.pdf"),
        String::from("a_1.pbm"),
        String::from("a_0.pbm"),
        String::from("a_2.pbm"),
    ];
    let a_files = run.query_files(&listing, "a_");
    assert_eq!(a_files.len(), 3);

    let cleanup = unpaper_items(&run, &a_files);
    assert_eq!(cleanup[0].output, "/tmp/work/b_a_1_%05d.pbm");

    // The cleanup filter wrote one b_-prefixed image per page.
    let listing = vec![
        String::from("input.pdf"),
        String::from("a_1.pbm"),
        String::from("a_0.pbm"),
        String::from("a_2.pbm"),
        String::from("b_a_0_00001.pbm"),
        String::from("b_a_1_00001.pbm"),
        String::from("b_a_2_00001.pbm"),
    ];
    let b_files = run.query_files(&listing, normalize_input_prefix(true));
    assert_eq!(b_files.len(), 3);

    let normalize = normalize_items(&run, &b_files);
    assert_eq!(normalize[0].output, "/tmp/work/c_b_a_0_00001_%03d.tiff");

    let listing = vec![
        String::from("c_b_a_0_00001_001.tiff"),
        String::from("c_b_a_1_00001_001.tiff"),
        String::from("c_b_a_2_00001_001.tiff"),
    ];
    let c_files = run.query_files(&listing, "c_");
    let ocr = tesseract_items(&run, &c_files);
    assert_eq!(ocr[1].output, "/tmp/work/d_c_b_a_1_00001_001.pdf");

    // The OCR engine wrote one d_-prefixed PDF per page; the merge sorts
    // them and appends the derived output path.
    let d_files = vec![
        String::from("/tmp/work/d_c_b_a_2_00001_001.pdf"),
        String::from("/tmp/work/d_c_b_a_0_00001_001.pdf"),
        String::from("/tmp/work/d_c_b_a_1_00001_001.pdf"),
    ];
    let inv = unite(&run, d_files);
    assert_eq!(inv.binary, "pdfunite");
    assert_eq!(
        inv.args,
        vec![
            "/tmp/work/d_c_b_a_0_00001_001.pdf",
            "/tmp/work/d_c_b_a_1_00001_001.pdf",
            "/tmp/work/d_c_b_a_2_00001_001.pdf",
            "/docs/scan-ironed.pdf",
        ]
    );
}

/// With cleanup disabled the normalize pass reads the raw rasterized
/// images: the a_ prefix, and no b_-prefixed file is ever created.
#[test]
fn disabled_cleanup_feeds_normalize_from_raw_images() {
    let run = sample_run();
    assert_eq!(normalize_input_prefix(false), "a_");
    let listing = vec![
        String::from("input.pdf"),
        String::from("a_0.pbm"),
        String::from("a_1.pbm"),
    ];
    let inputs = run.query_files(&listing, normalize_input_prefix(false));
    assert_eq!(
        inputs,
        vec![String::from("/tmp/work/a_0.pbm"), String::from("/tmp/work/a_1.pbm")]
    );
    let items = normalize_items(&run, &inputs);
    assert_eq!(items[0].input, "/tmp/work/a_0.pbm");
    assert_eq!(items[0].output, "/tmp/work/c_a_0_%03d.tiff");
    assert!(run.query_files(&listing, "b_").is_empty());
}

#[test]
fn sequencer_walks_the_stages_in_order() {
    let mut s = initial_state();
    assert!(matches!(s, PipelineState::Rasterizing));
    s = next_state(s, true, true, true);
    assert!(matches!(s, PipelineState::Cleaning));
    s = next_state(s, true, true, true);
    assert!(matches!(s, PipelineState::Normalizing));
    s = next_state(s, true, true, true);
    assert!(matches!(s, PipelineState::Recognizing));
    s = next_state(s, true, true, true);
    assert!(matches!(s, PipelineState::Merging));
    s = next_state(s, true, true, true);
    assert!(matches!(s, PipelineState::Done));
    s = next_state(s, true, true, false);
    assert!(matches!(s, PipelineState::Done));
}

#[test]
fn sequencer_skips_disabled_stages() {
    // Cleanup disabled: rasterizing feeds normalizing directly.
    let s = next_state(PipelineState::Rasterizing, false, true, true);
    assert!(matches!(s, PipelineState::Normalizing));
    // OCR disabled: the run ends after cleanup; the merge is not reached.
    let s = next_state(PipelineState::Cleaning, true, false, true);
    assert!(matches!(s, PipelineState::Done));
    // Both disabled: the run ends after rasterizing.
    let s = next_state(PipelineState::Rasterizing, false, false, true);
    assert!(matches!(s, PipelineState::Done));
}

/// A failing stage, such as a rasterizer binary missing from the search
/// path, moves the run to the failed state and stays there.
#[test]
fn sequencer_aborts_on_the_first_failure() {
    let s = next_state(PipelineState::Rasterizing, true, true, false);
    assert!(matches!(s, PipelineState::Failed));
    let s = next_state(s, true, true, true);
    assert!(matches!(s, PipelineState::Failed));
}
