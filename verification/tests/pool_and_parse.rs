use std::collections::HashSet;
use std::sync::atomic::{AtomicUsize, Ordering};
use std::sync::Mutex;

use pdfiron::error::{ErrorKind, ErrorMessage};
use pdfiron::pool::{default_worker_count, run_pool, WorkItem};
use pdfiron::text::{parse_u64, sort_strings, split_spaces, str_has_prefix, str_lex_leq, u64_to_string};
use pdfiron::util::{command_outcome, count_pdf_pages, spawn_error};

fn items(n: usize) -> Vec<WorkItem> {
    let mut v = Vec::new();
    for i in 0..n {
        v.push(WorkItem::new(format!("in_{}", i), format!("out_{}", i)));
    }
    v
}

#[test]
fn pool_processes_every_item_exactly_once() {
    for workers in [1usize, 4] {
        let seen = Mutex::new(Vec::<String>::new());
        let (processed, result) = run_pool(items(7), workers, |item: WorkItem| {
            seen.lock().unwrap().push(item.input.clone());
            Ok::<(), ErrorMessage>(())
        });
        assert!(result.is_ok());
        assert_eq!(processed.len(), 7);
        let seen = seen.into_inner().unwrap();
        let seen_set: HashSet<String> = seen.iter().cloned().collect();
        let expected: HashSet<String> = (0..7).map(|i| format!("in_{}", i)).collect();
        assert_eq!(seen.len(), 7);
        assert_eq!(seen_set, expected);
        let processed_set: HashSet<String> =
            processed.iter().map(|w| w.input.clone()).collect();
        assert_eq!(processed_set, expected);
    }
}

#[test]
fn pool_handles_an_empty_queue() {
    let (processed, result) = run_pool(Vec::new(), 3, |_item: WorkItem| {
        Err::<(), ErrorMessage>(spawn_error("never", true, ""))
    });
    assert!(result.is_ok());
    assert!(processed.is_empty());
}

#[test]
fn pool_stops_at_the_first_failure() {
    let attempts = AtomicUsize::new(0);
    let (processed, result) = run_pool(items(5), 2, |item: WorkItem| {
        attempts.fetch_add(1, Ordering::SeqCst);
        if item.input == "in_2" {
            Err(ErrorMessage::new(
                ErrorKind::ExternalToolFailed,
                String::from("tool failed"),
            ))
        } else {
            Ok(())
        }
    });
    let e = result.unwrap_err();
    assert!(matches!(e.kind, ErrorKind::ExternalToolFailed));
    let n = attempts.load(Ordering::SeqCst);
    assert_eq!(processed.len(), n);
    assert!(1 <= n && n <= 5);
    assert_eq!(processed.last().unwrap().input, "in_2");
}

#[test]
fn default_worker_count_has_a_floor_of_one() {
    assert!(default_worker_count() >= 1);
}

#[test]
fn decimal_rendering() {
    assert_eq!(u64_to_string(0), "0");
    assert_eq!(u64_to_string(7), "7");
    assert_eq!(u64_to_string(12345), "12345");
    assert_eq!(u64_to_string(u64::MAX), "18446744073709551615");
}

#[test]
fn decimal_parsing() {
    assert_eq!(parse_u64("0"), Some(0));
    assert_eq!(parse_u64("007"), Some(7));
    assert_eq!(parse_u64("18446744073709551615"), Some(u64::MAX));
    assert_eq!(parse_u64("18446744073709551616"), None);
    assert_eq!(parse_u64(""), None);
    assert_eq!(parse_u64("12a"), None);
    assert_eq!(parse_u64("-5"), None);
}

#[test]
fn splitting_on_spaces_mirrors_argument_splitting() {
    assert_eq!(split_spaces("a b"), vec!["a", "b"]);
    assert_eq!(split_spaces(""), vec![""]);
    assert_eq!(split_spaces("a  b"), vec!["a", "", "b"]);
    assert_eq!(split_spaces("-layout double"), vec!["-layout", "double"]);
}

#[test]
fn lexicographic_order_and_sort() {
    assert!(str_lex_leq("a", "b"));
    assert!(str_lex_leq("a", "a"));
    assert!(!str_lex_leq("b", "a"));
    assert!(str_lex_leq("a", "ab"));
    assert!(!str_lex_leq("ab", "a"));
    let sorted = sort_strings(vec![
        String::from("d_c_a_2"),
        String::from("d_c_a_0"),
        String::from("d_c_a_1"),
    ]);
    assert_eq!(sorted, vec!["d_c_a_0", "d_c_a_1", "d_c_a_2"]);
}

#[test]
fn prefix_test() {
    assert!(str_has_prefix("a_0.pbm", "a_"));
    assert!(!str_has_prefix("b_0.pbm", "a_"));
    assert!(!str_has_prefix("a", "a_"));
}

#[test]
fn page_count_is_read_from_the_report() {
    assert_eq!(count_pdf_pages("Pages: 3").unwrap(), 3);
    assert_eq!(count_pdf_pages("Title: x\nPages:   12\nEncrypted: no").unwrap(), 12);
    assert_eq!(count_pdf_pages("Pages:7").unwrap(), 7);
}

#[test]
fn page_count_failures_are_distinguished() {
    let e = count_pdf_pages("no marker here").unwrap_err();
    assert!(matches!(e.kind, ErrorKind::PageCountUnavailable));
    let e = count_pdf_pages("Pages: none").unwrap_err();
    assert!(matches!(e.kind, ErrorKind::PageCountUnavailable));
    let e = count_pdf_pages("Pages: 99999999999999999999999").unwrap_err();
    assert!(matches!(e.kind, ErrorKind::PageCountUnavailable));
}

#[test]
fn page_count_takes_the_first_marker() {
    assert_eq!(count_pdf_pages("Pages: 4\nPages: 9").unwrap(), 4);
}

#[test]
fn command_outcome_classification() {
    assert!(command_outcome(true, "out", "err", "convert").is_ok());
    let e = command_outcome(false, "out", "err", "convert").unwrap_err();
    assert!(matches!(e.kind, ErrorKind::ExternalToolFailed));
    assert_eq!(e.text(), "Execution of convert failed out err");
}

#[test]
fn spawn_errors_distinguish_a_missing_binary() {
    let e = spawn_error("convert", true, "");
    assert!(matches!(e.kind, ErrorKind::ExecutableNotFound));
    assert_eq!(e.text(), "couldn't find the convert binary on your system");
    let e = spawn_error("convert", false, "permission denied");
    assert!(matches!(e.kind, ErrorKind::SpawnFailed));
    assert_eq!(e.text(), "Failed to call convert, permission denied");
}

#[test]
fn a_missing_page_count_tool_makes_the_count_unavailable() {
    let e = pdfiron::util::page_count_query_error(spawn_error("pdfinfo", true, ""));
    assert!(matches!(e.kind, ErrorKind::PageCountUnavailable));
    let e = pdfiron::util::page_count_query_error(command_outcome(false, "", "boom", "pdfinfo").unwrap_err());
    assert!(matches!(e.kind, ErrorKind::ExternalToolFailed));
}
