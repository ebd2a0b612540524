use cache_broker::catalog::{BaseBook, BookWithRemote, Page, Source};
use cache_broker::coordinator::{Action, Binary, Event, Goal, Outcome, Session};
use cache_broker::paging::{Pagination, Paging, PAGE_SIZE};
use cache_broker::prewarm::{targets, IndexLookup, Job, JobAction, JobEvent};
use cache_broker::records::UploadData;
use cache_broker::repository::CachedFileRepository;

fn books(from: i32, count: i32) -> Vec<BaseBook> {
    (from..from + count)
        .map(|id| BaseBook { id, available_types: vec!["fb2".to_string()] })
        .collect()
}

fn page(number: u32, pages: u32, items: Vec<BaseBook>) -> Page<BaseBook> {
    Page { items, total: 63, page: number, size: PAGE_SIZE, pages }
}

/// Reads a catalog whose pages are given in order; `None` is a page that
/// cannot be had. Returns how the reading ended and the pages asked for.
fn read(catalog: Vec<Option<Page<BaseBook>>>) -> (Paging, Vec<u32>) {
    let mut catalog = catalog.into_iter();
    let (mut reading, mut paging) = Pagination::start();
    let mut asked = Vec::new();
    loop {
        match paging {
            Paging::Request { page, page_size } => {
                assert_eq!(page_size, 50);
                asked.push(page);
                let next = reading.step(catalog.next().expect("a page for every request"));
                reading = next.0;
                paging = next.1;
            }
            end => {
                assert!(catalog.next().is_none(), "pages left over");
                return (end, asked);
            }
        }
    }
}

#[test]
fn two_pages_of_50_and_13_give_63_books() {
    let (end, asked) = read(vec![Some(page(1, 2, books(0, 50))), Some(page(2, 2, books(50, 13)))]);
    assert_eq!(asked, [1, 2]);
    match end {
        Paging::Complete(all) => {
            assert_eq!(all.len(), 63);
            let ids: Vec<i32> = all.iter().map(|b| b.id).collect();
            assert_eq!(ids, (0..63).collect::<Vec<i32>>());
        }
        other => panic!("unexpected end {:?}", other),
    }
}

#[test]
fn reading_ends_with_the_last_page_even_if_it_is_empty() {
    let (end, asked) = read(vec![
        Some(page(1, 3, books(0, 50))),
        Some(page(2, 3, books(50, 50))),
        Some(page(3, 3, vec![])),
    ]);
    assert_eq!(asked, [1, 2, 3]);
    match end {
        Paging::Complete(all) => assert_eq!(all.len(), 100),
        other => panic!("unexpected end {:?}", other),
    }
}

#[test]
fn reading_goes_by_the_count_of_the_first_page() {
    // Later pages may report another count: the first one stands.
    let (end, asked) = read(vec![
        Some(page(1, 2, books(0, 1))),
        Some(page(2, 9, books(1, 1))),
    ]);
    assert_eq!(asked, [1, 2]);
    assert!(matches!(end, Paging::Complete(all) if all.len() == 2));
}

#[test]
fn catalog_without_pages_is_read_once() {
    let (end, asked) = read(vec![Some(page(1, 0, vec![]))]);
    assert_eq!(asked, [1]);
    assert!(matches!(end, Paging::Complete(all) if all.is_empty()));
    let (end, asked) = read(vec![Some(page(1, 1, books(0, 4)))]);
    assert_eq!(asked, [1]);
    assert!(matches!(end, Paging::Complete(all) if all.len() == 4));
}

#[test]
fn a_page_that_cannot_be_had_ends_the_reading() {
    let (end, asked) = read(vec![None]);
    assert_eq!(asked, [1]);
    assert!(matches!(end, Paging::Aborted));
    let (end, asked) = read(vec![Some(page(1, 3, books(0, 50))), None]);
    assert_eq!(asked, [1, 2]);
    assert!(matches!(end, Paging::Aborted));
}

#[test]
fn targets_are_every_type_of_every_book_in_order() {
    let all = targets(&vec![
        BaseBook { id: 1, available_types: vec!["fb2".to_string(), "epub".to_string()] },
        BaseBook { id: 2, available_types: vec![] },
        BaseBook { id: 3, available_types: vec!["mobi".to_string()] },
    ]);
    let pairs: Vec<(i32, &str)> =
        all.iter().map(|t| (t.object_id, t.object_type.as_str())).collect();
    assert_eq!(pairs, [(1, "fb2"), (1, "epub"), (3, "mobi")]);
}

#[test]
fn job_without_targets_is_done_at_once() {
    let (_, action) = Job::start(&vec![]);
    assert!(matches!(action, JobAction::Done));
    let (_, action) = Job::start(&vec![BaseBook { id: 1, available_types: vec![] }]);
    assert!(matches!(action, JobAction::Done));
}

#[test]
fn job_stores_only_what_the_index_reports_missing() {
    let (job, action) = Job::start(&books(1, 3));
    assert!(matches!(&action, JobAction::Look { object_id: 1, object_type } if object_type == "fb2"));
    let (job, action) = job.step(JobEvent::Looked(IndexLookup::Present));
    assert!(matches!(&action, JobAction::Look { object_id: 2, .. }));
    let (job, action) = job.step(JobEvent::Looked(IndexLookup::Failed));
    assert!(matches!(&action, JobAction::Look { object_id: 3, .. }));
    let (job, action) = job.step(JobEvent::Looked(IndexLookup::Missing));
    assert!(matches!(&action, JobAction::Store { object_id: 3, object_type } if object_type == "fb2"));
    let (job, action) = job.step(JobEvent::Stored);
    assert!(matches!(action, JobAction::Done));
    let (_, action) = job.step(JobEvent::Stored);
    assert!(matches!(action, JobAction::Done));
}

fn book(id: u32) -> BookWithRemote {
    BookWithRemote {
        id,
        remote_id: id + 1000,
        title: format!("Book {}", id),
        lang: "en".to_string(),
        file_type: "fb2".to_string(),
        uploaded: "2024-01-01".to_string(),
        authors: vec![],
        source: Source { id: 1 },
    }
}

/// Stores one target through the coordinator; the catalog fails for the
/// book `failing`.
fn store(index: &mut CachedFileRepository, object_id: i32, object_type: &str, failing: i32) -> bool {
    let (mut session, mut action) = Session::start(Goal::Populate, object_id, object_type.to_string());
    loop {
        let event = match index.answer(&action) {
            Some(event) => event,
            None => match &action {
                Action::GetBook { book_id } if *book_id == failing => Event::Book(None),
                Action::GetBook { book_id } => Event::Book(Some(book(*book_id as u32))),
                Action::FetchBinary { .. } => Event::Binary(Binary::Stream),
                Action::Store { .. } => Event::Stored(Some(UploadData {
                    chat_id: -100,
                    message_id: 5000 + object_id as i64,
                })),
                Action::Finish(outcome) => return matches!(outcome, Outcome::Entry(_)),
                other => panic!("unexpected action {:?}", other),
            },
        };
        let next = session.step(event);
        session = next.0;
        action = next.1;
    }
}

#[test]
fn prewarm_over_63_books_stores_the_missing_and_survives_a_failure() {
    let (end, _) = read(vec![Some(page(1, 2, books(0, 50))), Some(page(2, 2, books(50, 13)))]);
    let all = match end {
        Paging::Complete(all) => all,
        other => panic!("unexpected end {:?}", other),
    };
    assert_eq!(all.len(), 63);

    let mut index = CachedFileRepository::new();
    // Ten of the books are in the index already.
    for id in 0..10 {
        index.insert(id, "fb2".to_string(), 100 + id as i64, -100).unwrap();
    }
    let failing = 40;

    let (mut job, mut action) = Job::start(&all);
    let mut looked = Vec::new();
    let mut stored = Vec::new();
    let mut failed = 0;
    loop {
        let event = match &action {
            JobAction::Look { object_id, object_type } => {
                looked.push(*object_id);
                match index.find_by_object_id_object_type(*object_id, object_type) {
                    Some(_) => JobEvent::Looked(IndexLookup::Present),
                    None => JobEvent::Looked(IndexLookup::Missing),
                }
            }
            JobAction::Store { object_id, object_type } => {
                stored.push(*object_id);
                if !store(&mut index, *object_id, object_type, failing) {
                    failed += 1;
                }
                JobEvent::Stored
            }
            JobAction::Done => break,
        };
        let next = job.step(event);
        job = next.0;
        action = next.1;
    }
    assert_eq!(looked, (0..63).collect::<Vec<i32>>());
    assert_eq!(stored, (10..63).collect::<Vec<i32>>());
    assert_eq!(failed, 1);
    assert_eq!(index.len(), 62);
    assert!(index.find_by_object_id_object_type(failing, &"fb2".to_string()).is_none());
    assert!(index.find_by_object_id_object_type(62, &"fb2".to_string()).is_some());
}
