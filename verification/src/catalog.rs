//! What the catalog says about a book, and the caption built from it.

use crate::text::{byte_len, join, joined};
use vstd::prelude::*;
use vstd::string::StringExecFns;

verus! {

/// The library a book was taken from.
#[derive(Debug)]
pub struct Source {
    pub id: u32,
}

/// One author of a book.
#[derive(Debug)]
pub struct BookAuthor {
    pub id: u32,
    pub first_name: String,
    pub last_name: String,
    pub middle_name: String,
}

/// A book as the catalog lists it.
#[derive(Debug)]
pub struct Book {
    pub id: u32,
    pub title: String,
    pub lang: String,
    pub file_type: String,
    pub uploaded: String,
    pub authors: Vec<BookAuthor>,
    pub source: Source,
}

/// A book together with its number in the source library.
#[derive(Debug)]
pub struct BookWithRemote {
    pub id: u32,
    pub remote_id: u32,
    pub title: String,
    pub lang: String,
    pub file_type: String,
    pub uploaded: String,
    pub authors: Vec<BookAuthor>,
    pub source: Source,
}

/// The little that the batch job needs of a book: its number and the file
/// types it can be had in.
#[derive(Debug)]
pub struct BaseBook {
    pub id: i32,
    pub available_types: Vec<String>,
}

/// One page of a listing.
#[derive(Debug)]
pub struct Page<T> {
    pub items: Vec<T>,
    pub total: u32,
    pub page: u32,
    pub size: u32,
    pub pages: u32,
}

/// Mathematical value of a [`BookAuthor`].
pub struct AuthorView {
    pub id: int,
    pub first_name: Seq<char>,
    pub last_name: Seq<char>,
    pub middle_name: Seq<char>,
}

impl View for BookAuthor {
    type V = AuthorView;

    open spec fn view(&self) -> AuthorView {
        AuthorView {
            id: self.id as int,
            first_name: self.first_name@,
            last_name: self.last_name@,
            middle_name: self.middle_name@,
        }
    }
}

/// Mathematical value of a [`BookWithRemote`].
pub struct BookView {
    pub id: int,
    pub remote_id: int,
    pub title: Seq<char>,
    pub lang: Seq<char>,
    pub file_type: Seq<char>,
    pub uploaded: Seq<char>,
    pub authors: Seq<AuthorView>,
    pub source_id: int,
}

impl View for BookWithRemote {
    type V = BookView;

    open spec fn view(&self) -> BookView {
        BookView {
            id: self.id as int,
            remote_id: self.remote_id as int,
            title: self.title@,
            lang: self.lang@,
            file_type: self.file_type@,
            uploaded: self.uploaded@,
            authors: Seq::new(self.authors@.len(), |i: int| self.authors@[i]@),
            source_id: self.source.id as int,
        }
    }
}

/// Mathematical value of a [`BaseBook`].
pub struct BaseBookView {
    pub id: int,
    pub available_types: Seq<Seq<char>>,
}

impl View for BaseBook {
    type V = BaseBookView;

    open spec fn view(&self) -> BaseBookView {
        BaseBookView { id: self.id as int, available_types: self.available_types.deep_view() }
    }
}

/// Mathematical value of a page of books.
pub struct PageView {
    pub items: Seq<BaseBookView>,
    pub total: nat,
    pub page: nat,
    pub size: nat,
    pub pages: nat,
}

/// The mathematical values of the books, in their order.
pub open spec fn book_views(books: Seq<BaseBook>) -> Seq<BaseBookView> {
    Seq::new(books.len(), |i: int| books[i]@)
}

impl View for Page<BaseBook> {
    type V = PageView;

    open spec fn view(&self) -> PageView {
        PageView {
            items: book_views(self.items@),
            total: self.total as nat,
            page: self.page as nat,
            size: self.size as nat,
            pages: self.pages as nat,
        }
    }
}

/// The bytes against which an author line is weighed before it is let into
/// a caption. It is no limit on the whole caption: a line is weighed with
/// the title and the one line before it only, so a caption of several
/// lines may well be longer.
pub const CAPTION_LIMIT: usize = 1024;

/// The names of an author that are not empty: family name, given name,
/// middle name, in this order.
pub open spec fn name_parts(author: AuthorView) -> Seq<Seq<char>> {
    let last = if author.last_name.len() > 0 {
        seq![author.last_name]
    } else {
        seq![]
    };
    let first = if author.first_name.len() > 0 {
        seq![author.first_name]
    } else {
        seq![]
    };
    let middle = if author.middle_name.len() > 0 {
        seq![author.middle_name]
    } else {
        seq![]
    };
    last + first + middle
}

/// The line that names an author.
pub open spec fn author_caption(author: AuthorView) -> Seq<char> {
    "👤 "@ + joined(name_parts(author), " "@)
}

/// The lines that name the authors, one for each, in their order.
pub open spec fn author_captions(authors: Seq<AuthorView>) -> Seq<Seq<char>> {
    Seq::new(authors.len(), |i: int| author_caption(authors[i]))
}

/// The line that names the book.
pub open spec fn title_line(title: Seq<char>) -> Seq<char> {
    "📖 "@ + title
}

/// Whether the author line `j` is let into a caption whose title line takes
/// `title_len` bytes: the title, the line before it (three bytes stand for
/// it at the first author) and the line itself with its line break must
/// stay within the limit.
pub open spec fn has_room(title_len: nat, lines: Seq<Seq<char>>, j: int) -> bool
    recommends
        0 <= j < lines.len(),
{
    let before = if j == 0 {
        3
    } else {
        byte_len(lines[j - 1]) + 1
    };
    title_len + before + byte_len(lines[j]) + 1 <= CAPTION_LIMIT
}

/// How many author lines a caption lists: all those before the first that
/// has no room.
pub open spec fn listed_authors(title_len: nat, lines: Seq<Seq<char>>) -> nat
    decreases lines.len(),
{
    if lines.len() == 0 {
        0
    } else {
        let before = listed_authors(title_len, lines.drop_last());
        if before == lines.len() - 1 && has_room(title_len, lines, lines.len() - 1) {
            lines.len()
        } else {
            before
        }
    }
}

/// The caption under which a book is stored: its title line, an empty line,
/// and the lines of the authors that are listed.
pub open spec fn book_caption(book: BookView) -> Seq<char> {
    let title = title_line(book.title);
    let lines = author_captions(book.authors);
    let listed = listed_authors(byte_len(title), lines);
    title + "\n\n"@ + joined(lines.take(listed as int), "\n"@)
}

/// The authors listed are those before the first one without room.
pub proof fn lemma_listed_authors(title_len: nat, lines: Seq<Seq<char>>)
    ensures
        listed_authors(title_len, lines) <= lines.len(),
        forall|j: int|
            0 <= j < listed_authors(title_len, lines) ==> has_room(title_len, lines, j),
        listed_authors(title_len, lines) < lines.len() ==> !has_room(
            title_len,
            lines,
            listed_authors(title_len, lines) as int,
        ),
    decreases lines.len(),
{
    if lines.len() > 0 {
        let shorter = lines.drop_last();
        lemma_listed_authors(title_len, shorter);
        let before = listed_authors(title_len, shorter);
        assert forall|j: int| 0 <= j < shorter.len() implies has_room(title_len, shorter, j)
            == has_room(title_len, lines, j) by {}
    }
}

proof fn lemma_listed_prefix(title_len: nat, lines: Seq<Seq<char>>, n: int)
    requires
        0 <= n <= lines.len(),
        listed_authors(title_len, lines.take(n)) < n || n == lines.len(),
    ensures
        listed_authors(title_len, lines) == listed_authors(title_len, lines.take(n)),
    decreases lines.len() - n,
{
    if n == lines.len() {
        assert(lines.take(n) =~= lines);
    } else {
        let longer = lines.take(n + 1);
        assert(longer.drop_last() =~= lines.take(n));
        lemma_listed_authors(title_len, lines.take(n));
        lemma_listed_prefix(title_len, lines, n + 1);
    }
}

impl BookWithRemote {
    /// The same book with `remote_id` attached.
    pub fn from_book(book: Book, remote_id: u32) -> (with_remote: Self)
        ensures
            with_remote.id == book.id,
            with_remote.remote_id == remote_id,
            with_remote.title == book.title,
            with_remote.lang == book.lang,
            with_remote.file_type == book.file_type,
            with_remote.uploaded == book.uploaded,
            with_remote.authors == book.authors,
            with_remote.source == book.source,
            with_remote@.remote_id == remote_id,
            with_remote@.title == book.title@,
    {
        BookWithRemote {
            id: book.id,
            remote_id,
            title: book.title,
            lang: book.lang,
            file_type: book.file_type,
            uploaded: book.uploaded,
            authors: book.authors,
            source: book.source,
        }
    }
}

impl BookAuthor {
    fn caption(&self) -> (caption: String)
        ensures
            caption@ == author_caption(self@),
    {
        let mut parts: Vec<String> = Vec::new();
        if !self.last_name.as_str().is_empty() {
            parts.push(self.last_name.clone());
        }
        if !self.first_name.as_str().is_empty() {
            parts.push(self.first_name.clone());
        }
        if !self.middle_name.as_str().is_empty() {
            parts.push(self.middle_name.clone());
        }
        assert(parts.deep_view() =~= name_parts(self@));
        let names = join(&parts, " ");
        let mut caption = "👤 ".to_owned();
        caption.append(names.as_str());
        caption
    }

    /// The line that names the author: a figure, then the family name, the
    /// given name and the middle name, those that are not empty, with one
    /// space between them.
    pub fn get_caption(self) -> (caption: String)
        ensures
            caption@ == author_caption(self@),
    {
        self.caption()
    }
}

fn fits(title_len: usize, before: usize, line_len: usize) -> (room: bool)
    ensures
        room == (title_len + before + line_len + 1 <= CAPTION_LIMIT),
{
    title_len <= CAPTION_LIMIT && before <= CAPTION_LIMIT && line_len <= CAPTION_LIMIT && title_len
        + before + line_len + 1 <= CAPTION_LIMIT
}

impl BookWithRemote {
    /// The caption under which the book is stored: a book sign and the
    /// title, an empty line, then one line for each author up to the first
    /// that has no room. A line has room where the title line, the author
    /// line before it and the line itself, with its line break, stay
    /// within `CAPTION_LIMIT` bytes; at the first author three bytes stand
    /// for the line before. The lines further up are not counted, so the
    /// whole caption can exceed `CAPTION_LIMIT`: a short title and three
    /// author lines of 400 bytes each give more than 1200 bytes.
    pub fn get_caption(self) -> (caption: String)
        ensures
            caption@ == book_caption(self@),
    {
        let mut title = "📖 ".to_owned();
        title.append(self.title.as_str());
        let title_len: usize = title.as_str().as_bytes().len();
        let ghost lines = author_captions(self@.authors);
        let mut listed: Vec<String> = Vec::new();
        let mut before: usize = 3;
        let mut i: usize = 0;
        assert(lines.take(0) =~= Seq::<Seq<char>>::empty());
        loop
            invariant_except_break
                i <= self.authors.len(),
                listed.len() == i,
                listed.deep_view() == lines.take(i as int),
                listed_authors(title_len as nat, lines.take(i as int)) == i,
                before == if i == 0 {
                    3
                } else {
                    byte_len(lines[i - 1]) + 1
                },
            invariant
                lines == author_captions(self@.authors),
                lines.len() == self.authors.len(),
                title_len == byte_len(title_line(self@.title)),
            ensures
                listed.deep_view() == lines.take(listed.len() as int),
                listed.len() <= lines.len(),
                listed_authors(title_len as nat, lines) == listed.len(),
            decreases self.authors.len() - i,
        {
            if i >= self.authors.len() {
                assert(lines.take(i as int) =~= lines);
                break ;
            }
            let line = self.authors[i].caption();
            let line_len: usize = line.as_str().as_bytes().len();
            let ghost upto = lines.take(i + 1);
            assert(upto.drop_last() =~= lines.take(i as int));
            assert(line@ == lines[i as int]);
            assert(has_room(title_len as nat, upto, i as int) == (title_len + before + line_len + 1
                <= CAPTION_LIMIT));
            if fits(title_len, before, line_len) {
                before = line_len + 1;
                listed.push(line);
                assert(listed.deep_view() =~= upto);
                i += 1;
            } else {
                proof {
                    lemma_listed_prefix(title_len as nat, lines, i + 1);
                }
                break ;
            }
        }
        let authors = join(&listed, "\n");
        title.append("\n\n");
        title.append(authors.as_str());
        title
    }
}

} // verus!
