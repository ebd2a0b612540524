//! Reading the catalog page by page.
//!
//! A [`Pagination`] asks for the first page, learns from it how many pages
//! there are, and asks for the rest in turn. One page that cannot be had
//! ends the whole reading.

use crate::catalog::{book_views, BaseBook, BaseBookView, Page, PageView};
use vstd::prelude::*;

verus! {

/// Books asked for with each page.
pub const PAGE_SIZE: u32 = 50;

/// What to do next to read the catalog.
#[derive(Debug)]
pub enum Paging {
    /// Ask the catalog for this page.
    Request { page: u32, page_size: u32 },
    /// Every page has been read: these are the books, in the order of the
    /// pages.
    Complete(Vec<BaseBook>),
    /// A page could not be had: the reading is given up.
    Aborted,
}

/// Mathematical value of a [`Paging`].
pub enum PagingView {
    Request { page: nat, page_size: nat },
    Complete(Seq<BaseBookView>),
    Aborted,
}

impl View for Paging {
    type V = PagingView;

    open spec fn view(&self) -> PagingView {
        match *self {
            Paging::Request { page, page_size } => PagingView::Request {
                page: page as nat,
                page_size: page_size as nat,
            },
            Paging::Complete(books) => PagingView::Complete(book_views(books@)),
            Paging::Aborted => PagingView::Aborted,
        }
    }
}

/// A reading of the catalog on its way.
#[derive(Debug)]
pub struct Pagination {
    awaiting: u32,
    pages: u32,
    items: Vec<BaseBook>,
}

/// Mathematical value of a [`Pagination`].
pub struct PaginationView {
    /// The page that has been asked for.
    pub awaiting: nat,
    /// How many pages the first page said there are; not known before the
    /// first page is in.
    pub pages: nat,
    /// The books of the pages read so far.
    pub items: Seq<BaseBookView>,
}

impl View for Pagination {
    type V = PaginationView;

    closed spec fn view(&self) -> PaginationView {
        PaginationView {
            awaiting: self.awaiting as nat,
            pages: self.pages as nat,
            items: book_views(self.items@),
        }
    }
}

impl PaginationView {
    /// A new reading, which asks for the first page.
    pub open spec fn start() -> (PaginationView, PagingView) {
        (
            PaginationView { awaiting: 1, pages: 0, items: Seq::empty() },
            PagingView::Request { page: 1, page_size: PAGE_SIZE as nat },
        )
    }

    /// The reading after the catalog answered for the page asked for, and
    /// what to do next. The first page says how many pages there are. The
    /// page after the one read is asked for as long as there is one; after
    /// the last the reading is complete, whatever the pages held.
    pub open spec fn step(self, answer: Option<PageView>) -> (PaginationView, PagingView) {
        match answer {
            None => (self, PagingView::Aborted),
            Some(page) => {
                let pages = if self.awaiting == 1 {
                    page.pages
                } else {
                    self.pages
                };
                let items = self.items + page.items;
                if self.awaiting < pages {
                    (
                        PaginationView { awaiting: self.awaiting + 1, pages, items },
                        PagingView::Request {
                            page: self.awaiting + 1,
                            page_size: PAGE_SIZE as nat,
                        },
                    )
                } else {
                    (
                        PaginationView { awaiting: self.awaiting, pages, items: Seq::empty() },
                        PagingView::Complete(items),
                    )
                }
            },
        }
    }
}

impl Pagination {
    /// A new reading, and the request for the first page.
    pub fn start() -> (begun: (Pagination, Paging))
        ensures
            (begun.0@, begun.1@) == PaginationView::start(),
    {
        let reading = Pagination { awaiting: 1, pages: 0, items: Vec::new() };
        assert(book_views(reading.items@) =~= Seq::<BaseBookView>::empty());
        (reading, Paging::Request { page: 1, page_size: PAGE_SIZE })
    }

    /// Takes the catalog's answer for the page asked for, `None` where the
    /// catalog failed, and says what to do next.
    pub fn step(self, answer: Option<Page<BaseBook>>) -> (next: (Pagination, Paging))
        ensures
            (next.0@, next.1@) == self@.step(
                match answer {
                    Some(page) => Some(page@),
                    None => None,
                },
            ),
    {
        match answer {
            None => (self, Paging::Aborted),
            Some(page) => {
                let Pagination { awaiting, pages, items } = self;
                let pages: u32 = if awaiting == 1 {
                    page.pages
                } else {
                    pages
                };
                let ghost before = book_views(items@);
                let ghost added = book_views(page.items@);
                let mut items = items;
                let mut more = page.items;
                items.append(&mut more);
                assert(book_views(items@) =~= before + added);
                if awaiting < pages {
                    (
                        Pagination { awaiting: awaiting + 1, pages, items },
                        Paging::Request { page: awaiting + 1, page_size: PAGE_SIZE },
                    )
                } else {
                    let rest = Pagination { awaiting, pages, items: Vec::new() };
                    assert(book_views(rest.items@) =~= Seq::<BaseBookView>::empty());
                    (rest, Paging::Complete(items))
                }
            },
        }
    }
}

/// How a reading of the catalog went.
pub struct Reading {
    /// How it ended, or `None` where it was cut short.
    pub outcome: Option<PagingView>,
    /// How many pages were asked for.
    pub asked: nat,
}

/// The reading that has asked for a page, over a catalog that answers
/// `catalog(n)` for page `n`, and over at most `fuel` pages.
pub open spec fn read_on(
    reading: PaginationView,
    catalog: spec_fn(nat) -> Option<PageView>,
    fuel: nat,
) -> Reading
    decreases fuel,
{
    if fuel == 0 {
        Reading { outcome: None, asked: 0 }
    } else {
        let (next, paging) = reading.step(catalog(reading.awaiting));
        if paging is Request {
            let rest = read_on(next, catalog, (fuel - 1) as nat);
            Reading { outcome: rest.outcome, asked: rest.asked + 1 }
        } else {
            Reading { outcome: Some(paging), asked: 1 }
        }
    }
}

/// A whole reading of the catalog.
pub open spec fn read_all(catalog: spec_fn(nat) -> Option<PageView>) -> Reading {
    read_on(PaginationView::start().0, catalog, pages_to_read(catalog))
}

/// How many pages a reading asks for where none fails: as many as the
/// first page says there are, and the first page in any case.
pub open spec fn pages_to_read(catalog: spec_fn(nat) -> Option<PageView>) -> nat {
    match catalog(1) {
        Some(first) => if first.pages >= 1 {
            first.pages
        } else {
            1
        },
        None => 1,
    }
}

/// The books of the pages `from` to `to`, in the order of the pages.
pub open spec fn books_of_pages(
    catalog: spec_fn(nat) -> Option<PageView>,
    from: nat,
    to: nat,
) -> Seq<BaseBookView>
    decreases to + 1 - from,
{
    if from > to {
        Seq::empty()
    } else {
        (match catalog(from) {
            Some(page) => page.items,
            None => Seq::empty(),
        }) + books_of_pages(catalog, from + 1, to)
    }
}

proof fn lemma_read_on(
    reading: PaginationView,
    catalog: spec_fn(nat) -> Option<PageView>,
    last: nat,
    fuel: nat,
)
    requires
        1 <= reading.awaiting <= last,
        last == pages_to_read(catalog),
        reading.awaiting > 1 ==> reading.pages == last,
        fuel >= last + 1 - reading.awaiting,
    ensures
        (forall|page: nat| reading.awaiting <= page <= last ==> (#[trigger] catalog(page)) is Some)
            ==> read_on(reading, catalog, fuel) == (Reading {
            outcome: Some(
                PagingView::Complete(
                    reading.items + books_of_pages(catalog, reading.awaiting, last),
                ),
            ),
            asked: (last + 1 - reading.awaiting) as nat,
        }),
        forall|failed: nat|
            reading.awaiting <= failed <= last && (#[trigger] catalog(failed)) is None && (forall|
                page: nat,
            |
                reading.awaiting <= page < failed ==> (#[trigger] catalog(page)) is Some)
                ==> read_on(reading, catalog, fuel) == (Reading {
                outcome: Some(PagingView::Aborted),
                asked: (failed + 1 - reading.awaiting) as nat,
            }),
    decreases last - reading.awaiting,
{
    let answer = catalog(reading.awaiting);
    let (next, paging) = reading.step(answer);
    if answer is Some {
        if reading.awaiting < last {
            lemma_read_on(next, catalog, last, (fuel - 1) as nat);
            assert((reading.items + answer->0.items) + books_of_pages(
                catalog,
                reading.awaiting + 1,
                last,
            ) =~= reading.items + books_of_pages(catalog, reading.awaiting, last));
        } else {
            assert(books_of_pages(catalog, reading.awaiting + 1, last) =~= Seq::<
                BaseBookView,
            >::empty());
            assert(reading.items + answer->0.items =~= reading.items + books_of_pages(
                catalog,
                reading.awaiting,
                last,
            ));
        }
    }
}

/// A reading asks for the pages one after another, starting with the
/// first. Where every page can be had it ends complete after exactly as
/// many pages as the first page said there are (after the first page where
/// that said none), with the books of all of them in order, whatever the
/// pages held and also where the last is empty. Where a page cannot be had
/// it is given up at that page.
pub proof fn lemma_reading_ends_with_last_page(catalog: spec_fn(nat) -> Option<PageView>)
    ensures
        (forall|page: nat| 1 <= page <= pages_to_read(catalog) ==> (#[trigger] catalog(page)) is Some)
            ==> read_all(catalog) == (Reading {
            outcome: Some(
                PagingView::Complete(books_of_pages(catalog, 1, pages_to_read(catalog))),
            ),
            asked: pages_to_read(catalog),
        }),
        forall|failed: nat|
            1 <= failed <= pages_to_read(catalog) && (#[trigger] catalog(failed)) is None && (forall|
                page: nat,
            |
                1 <= page < failed ==> (#[trigger] catalog(page)) is Some) ==> read_all(catalog) == (
            Reading { outcome: Some(PagingView::Aborted), asked: failed }),
{
    let (reading, _) = PaginationView::start();
    let last = pages_to_read(catalog);
    lemma_read_on(reading, catalog, last, last);
    assert(reading.items + books_of_pages(catalog, 1, last) =~= books_of_pages(catalog, 1, last));
}

} // verus!
