use itazuraneko_backup::entry::Entry;
use itazuraneko_backup::error::BackupError;
use itazuraneko_backup::fetch::{
    entry_url, fetch_request, fetch_requests, index_request, job_lines, output_path, FetchRequest,
    DOWNLOAD_DIR, FETCH_TOOL, INDEX_FILE, INDEX_URL,
};
use itazuraneko_backup::orchestrator::{
    reconcile, Action, Event, FetchOutcome, Orchestrator, Phase, Reconciliation,
};

fn entry_with_id(id: &str) -> Entry {
    Entry::new(
        id.to_string(),
        format!("Title {}", id),
        "Author".to_string(),
        "Publisher".to_string(),
        format!("http://x/{}.epub", id),
        "1MB".to_string(),
        "2020-01-01".to_string(),
    )
}

#[test]
fn page_address_comes_from_the_identifier() {
    assert_eq!(entry_url("42"), "https://yonde.itazuraneko.org/novelhtml/42.html");
    assert_eq!(entry_url(""), "https://yonde.itazuraneko.org/novelhtml/.html");
}

#[test]
fn output_path_comes_from_the_identifier() {
    assert_eq!(output_path("download", "42"), "download/42.html");
    assert_eq!(output_path("/tmp/mirror", "7"), "/tmp/mirror/7.html");
    assert_eq!(output_path("download", ""), "download/.html");
}

#[test]
fn request_of_an_entry() {
    let request = fetch_request(&entry_with_id("1234"), DOWNLOAD_DIR);
    assert_eq!(
        request,
        FetchRequest {
            url: "https://yonde.itazuraneko.org/novelhtml/1234.html".to_string(),
            output_path: "download/1234.html".to_string(),
        }
    );
    assert_eq!(
        request.arguments(),
        vec![
            "-s".to_string(),
            "https://yonde.itazuraneko.org/novelhtml/1234.html".to_string(),
            "-o".to_string(),
            "download/1234.html".to_string(),
        ]
    );
    assert_eq!(
        request.job_line(),
        "monolith -s https://yonde.itazuraneko.org/novelhtml/1234.html -o download/1234.html\n"
    );
}

#[test]
fn requests_do_not_depend_on_the_title() {
    let mut other = entry_with_id("5");
    other.title = "Something / else: entirely?".to_string();
    assert_eq!(fetch_request(&other, "download"), fetch_request(&entry_with_id("5"), "download"));
}

#[test]
fn same_entries_give_same_requests() {
    let entries: Vec<Entry> = ["3", "1", "2"].iter().map(|id| entry_with_id(id)).collect();
    let first = fetch_requests(&entries, "download");
    let second = fetch_requests(&entries, "download");
    assert_eq!(first, second);
    assert_eq!(first.len(), 3);
    assert_eq!(first[0].output_path, "download/3.html");
    assert_eq!(first[1].output_path, "download/1.html");
    assert_eq!(first[2].url, "https://yonde.itazuraneko.org/novelhtml/2.html");
}

#[test]
fn request_of_the_index_page() {
    let request = index_request();
    assert_eq!(request.url, "https://yonde.itazuraneko.org/other/kensaku.html");
    assert_eq!(request.output_path, "index.html");
    assert_eq!(INDEX_URL, "https://yonde.itazuraneko.org/other/kensaku.html");
    assert_eq!(INDEX_FILE, "index.html");
    assert_eq!(FETCH_TOOL, "monolith");
    assert_eq!(
        request.arguments(),
        vec!["-s", "https://yonde.itazuraneko.org/other/kensaku.html", "-o", "index.html"]
    );
}

#[test]
fn job_file_has_one_line_per_entry() {
    let entries: Vec<Entry> = ["10", "11"].iter().map(|id| entry_with_id(id)).collect();
    assert_eq!(
        job_lines(&entries, "download"),
        "monolith -s https://yonde.itazuraneko.org/novelhtml/10.html -o download/10.html\n\
monolith -s https://yonde.itazuraneko.org/novelhtml/11.html -o download/11.html\n"
    );
    assert_eq!(job_lines(&Vec::new(), "download"), "");
}

#[test]
fn five_entries_and_five_files_match() {
    let outcome = reconcile(5, 5);
    assert_eq!(outcome, Reconciliation::Complete { entries: 5 });
    assert_eq!(outcome.difference(), 0);
    assert_eq!(outcome.summary(), "5 entries and as many files: everything is finished");
}

#[test]
fn five_entries_and_four_files_differ_by_one() {
    let outcome = reconcile(5, 4);
    assert_eq!(outcome, Reconciliation::Mismatch { entries: 5, files: 4 });
    assert_eq!(outcome.difference(), 1);
    assert_eq!(outcome.summary(), "5 entries in total, but 4 files found");
}

#[test]
fn more_files_than_entries_is_a_mismatch_too() {
    let outcome = reconcile(3, 10);
    assert_eq!(outcome, Reconciliation::Mismatch { entries: 3, files: 10 });
    assert_eq!(outcome.difference(), 7);
    assert_eq!(outcome.summary(), "3 entries in total, but 10 files found");
    assert_eq!(reconcile(0, 0), Reconciliation::Complete { entries: 0 });
}

#[test]
fn run_over_five_entries() {
    let mut run = Orchestrator::new(5);
    assert_eq!(run.phase(), Phase::Preparing);
    assert_eq!(run.total(), 5);
    assert_eq!(run.processed(), 0);
    assert_eq!(run.step(Event::DirectoryReady), Action::StartFetches);
    assert_eq!(run.phase(), Phase::Fetching);
    for n in 1..5 {
        assert_eq!(run.step(Event::FetchFinished(FetchOutcome::Succeeded)), Action::AwaitFetches);
        assert_eq!(run.processed(), n);
    }
    assert_eq!(run.step(Event::FetchFinished(FetchOutcome::Succeeded)), Action::CountFiles);
    assert_eq!(run.processed(), 5);
    assert_eq!(run.phase(), Phase::Counting);
    assert_eq!(
        run.step(Event::FilesCounted(5)),
        Action::Report(Reconciliation::Complete { entries: 5 })
    );
    assert_eq!(run.phase(), Phase::Finished(Reconciliation::Complete { entries: 5 }));
}

#[test]
fn run_that_ends_with_a_file_missing() {
    let mut run = Orchestrator::new(5);
    run.step(Event::DirectoryReady);
    for _ in 0..5 {
        run.step(Event::FetchFinished(FetchOutcome::Succeeded));
    }
    let action = run.step(Event::FilesCounted(4));
    assert_eq!(action, Action::Report(Reconciliation::Mismatch { entries: 5, files: 4 }));
    match action {
        Action::Report(outcome) => assert_eq!(outcome.difference(), 1),
        _ => panic!("the run must end with a report"),
    }
}

#[test]
fn hundred_fetches_bring_progress_to_hundred() {
    let mut run = Orchestrator::new(100);
    assert_eq!(run.step(Event::DirectoryReady), Action::StartFetches);
    let mut last = run.processed();
    for n in 1..=100 {
        let action = run.step(Event::FetchFinished(FetchOutcome::Succeeded));
        let now = run.processed();
        assert!(now >= last);
        assert!(now <= 100);
        assert_eq!(now, n);
        assert_eq!(action, if n == 100 { Action::CountFiles } else { Action::AwaitFetches });
        last = now;
    }
    assert_eq!(run.processed(), 100);
    assert_eq!(run.step(Event::FetchFinished(FetchOutcome::Succeeded)), Action::Ignore);
    assert_eq!(run.processed(), 100);
    assert_eq!(run.failed(), 0);
}

#[test]
fn failed_fetch_is_counted_and_the_batch_goes_on() {
    let mut run = Orchestrator::new(3);
    run.step(Event::DirectoryReady);
    assert_eq!(run.step(Event::FetchFinished(FetchOutcome::Failed)), Action::AwaitFetches);
    assert_eq!(run.phase(), Phase::Fetching);
    assert_eq!(run.processed(), 1);
    assert_eq!(run.failed(), 1);
    assert_eq!(run.step(Event::FetchFinished(FetchOutcome::Succeeded)), Action::AwaitFetches);
    assert_eq!(run.step(Event::FetchFinished(FetchOutcome::Failed)), Action::CountFiles);
    assert_eq!(run.processed(), 3);
    assert_eq!(run.failed(), 2);
    assert_eq!(
        run.step(Event::FilesCounted(1)),
        Action::Report(Reconciliation::Mismatch { entries: 3, files: 1 })
    );
}

#[test]
fn no_fetch_without_directory() {
    let mut run = Orchestrator::new(4);
    assert_eq!(run.step(Event::FetchFinished(FetchOutcome::Succeeded)), Action::Ignore);
    assert_eq!(run.processed(), 0);
    assert_eq!(run.phase(), Phase::Preparing);
    assert_eq!(run.step(Event::DirectoryFailed), Action::Abort(BackupError::DirectoryError));
    assert_eq!(run.phase(), Phase::Aborted);
    assert_eq!(run.step(Event::DirectoryReady), Action::Ignore);
    assert_eq!(run.step(Event::FetchFinished(FetchOutcome::Succeeded)), Action::Ignore);
    assert_eq!(run.step(Event::FilesCounted(0)), Action::Ignore);
    assert_eq!(run.phase(), Phase::Aborted);
    assert_eq!(run.processed(), 0);
}

#[test]
fn files_are_not_counted_before_every_fetch_is_back() {
    let mut run = Orchestrator::new(2);
    assert_eq!(run.step(Event::FilesCounted(2)), Action::Ignore);
    run.step(Event::DirectoryReady);
    assert_eq!(run.step(Event::FilesCounted(2)), Action::Ignore);
    run.step(Event::FetchFinished(FetchOutcome::Succeeded));
    assert_eq!(run.step(Event::FilesCounted(2)), Action::Ignore);
    assert_eq!(run.phase(), Phase::Fetching);
    assert_eq!(run.step(Event::FetchFinished(FetchOutcome::Succeeded)), Action::CountFiles);
    assert_eq!(run.step(Event::DirectoryReady), Action::Ignore);
    assert_eq!(
        run.step(Event::FilesCounted(2)),
        Action::Report(Reconciliation::Complete { entries: 2 })
    );
    assert_eq!(run.step(Event::FilesCounted(3)), Action::Ignore);
    assert_eq!(run.phase(), Phase::Finished(Reconciliation::Complete { entries: 2 }));
}

#[test]
fn run_over_no_entries_goes_straight_to_counting() {
    let mut run = Orchestrator::new(0);
    assert_eq!(run.step(Event::DirectoryReady), Action::CountFiles);
    assert_eq!(run.phase(), Phase::Counting);
    assert_eq!(
        run.step(Event::FilesCounted(2)),
        Action::Report(Reconciliation::Mismatch { entries: 0, files: 2 })
    );
}

#[test]
fn different_identifiers_give_different_files() {
    let entries: Vec<Entry> = ["1", "10", "01", "100", ""].iter().map(|id| entry_with_id(id)).collect();
    let requests = fetch_requests(&entries, "download");
    for i in 0..requests.len() {
        for j in 0..requests.len() {
            if i != j {
                assert_ne!(requests[i].output_path, requests[j].output_path);
                assert_ne!(requests[i].url, requests[j].url);
            }
        }
    }
}
