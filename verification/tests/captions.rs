use cache_broker::catalog::{Book, BookAuthor, BookWithRemote, Source, CAPTION_LIMIT};

fn author(last: &str, first: &str, middle: &str) -> BookAuthor {
    BookAuthor {
        id: 1,
        first_name: first.to_string(),
        last_name: last.to_string(),
        middle_name: middle.to_string(),
    }
}

fn book(title: &str, authors: Vec<BookAuthor>) -> BookWithRemote {
    BookWithRemote {
        id: 10,
        remote_id: 20,
        title: title.to_string(),
        lang: "ru".to_string(),
        file_type: "fb2".to_string(),
        uploaded: "2023-01-01".to_string(),
        authors,
        source: Source { id: 3 },
    }
}

#[test]
fn author_caption_puts_family_name_first() {
    assert_eq!(author("Tolstoy", "Leo", "Nikolayevich").get_caption(), "👤 Tolstoy Leo Nikolayevich");
}

#[test]
fn author_caption_skips_empty_names() {
    assert_eq!(author("Tolstoy", "", "Nikolayevich").get_caption(), "👤 Tolstoy Nikolayevich");
    assert_eq!(author("", "Leo", "").get_caption(), "👤 Leo");
}

#[test]
fn author_caption_without_names_is_the_sign_alone() {
    assert_eq!(author("", "", "").get_caption(), "👤 ");
}

#[test]
fn from_book_keeps_every_field() {
    let plain = Book {
        id: 5,
        title: "War and Peace".to_string(),
        lang: "ru".to_string(),
        file_type: "epub".to_string(),
        uploaded: "2020-02-02".to_string(),
        authors: vec![author("Tolstoy", "Leo", "")],
        source: Source { id: 9 },
    };
    let with_remote = BookWithRemote::from_book(plain, 77);
    assert_eq!(with_remote.id, 5);
    assert_eq!(with_remote.remote_id, 77);
    assert_eq!(with_remote.title, "War and Peace");
    assert_eq!(with_remote.lang, "ru");
    assert_eq!(with_remote.file_type, "epub");
    assert_eq!(with_remote.uploaded, "2020-02-02");
    assert_eq!(with_remote.authors.len(), 1);
    assert_eq!(with_remote.authors[0].last_name, "Tolstoy");
    assert_eq!(with_remote.source.id, 9);
}

#[test]
fn book_caption_lists_title_and_authors() {
    let caption = book("War and Peace", vec![author("Tolstoy", "Leo", ""), author("Maude", "Louise", "")])
        .get_caption();
    assert_eq!(caption, "📖 War and Peace\n\n👤 Tolstoy Leo\n👤 Maude Louise");
}

#[test]
fn book_caption_without_authors_ends_with_the_empty_line() {
    assert_eq!(book("Alone", vec![]).get_caption(), "📖 Alone\n\n");
}

#[test]
fn book_caption_stops_at_the_first_author_without_room() {
    // The title line takes 5 + 900 bytes; the first author line takes 5 + 100.
    let title = "t".repeat(900);
    let short = author(&"a".repeat(100), "", "");
    let long = author(&"b".repeat(200), "", "");
    let after = author("c", "", "");
    // first: 905 + 3 + 105 + 1 = 1014 <= 1024, kept
    // second: 905 + 106 + 205 + 1 > 1024, dropped, and so is everything after it
    let caption = book(&title, vec![short, long, after]).get_caption();
    let expected = format!("📖 {}\n\n👤 {}", title, "a".repeat(100));
    assert_eq!(caption, expected);
}

#[test]
fn book_caption_measures_against_the_line_before_only() {
    // Each author line is weighed with the title and the one line before it,
    // not with all the lines so far.
    let title = "t".repeat(500);
    let authors: Vec<BookAuthor> = (0..6).map(|_| author(&"a".repeat(250), "", "")).collect();
    // title 505; every line 255: 505 + 256 + 255 + 1 = 1017 <= 1024, all kept
    let caption = book(&title, authors).get_caption();
    assert_eq!(caption.matches("👤").count(), 6);
    assert!(caption.len() > CAPTION_LIMIT);
}

#[test]
fn book_caption_room_is_counted_to_the_byte() {
    // title line 5 + 10 = 15 bytes; first author: 15 + 3 + len + 1 <= 1024
    // holds up to a line of 1005 bytes, that is a name of 1000.
    let fits = book(&"t".repeat(10), vec![author(&"a".repeat(1000), "", "")]).get_caption();
    assert!(fits.ends_with(&"a".repeat(1000)));
    let too_long = book(&"t".repeat(10), vec![author(&"a".repeat(1001), "", "")]).get_caption();
    assert_eq!(too_long, format!("📖 {}\n\n", "t".repeat(10)));
}

#[test]
fn book_caption_counts_bytes_not_letters() {
    // 'я' takes two bytes: a name of 501 letters makes a line of 1007 bytes.
    let fits = book(&"t".repeat(10), vec![author(&"я".repeat(500), "", "")]).get_caption();
    assert!(fits.ends_with(&"я".repeat(500)));
    let too_long = book(&"t".repeat(10), vec![author(&"я".repeat(501), "", "")]).get_caption();
    assert_eq!(too_long, format!("📖 {}\n\n", "t".repeat(10)));
}
