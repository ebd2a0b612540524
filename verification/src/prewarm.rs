//! The batch job that warms the cache: every file type of every book that
//! changed of late is looked up in the index and stored where it is
//! missing.

use crate::catalog::{BaseBook, BaseBookView};
use vstd::prelude::*;

verus! {

/// One file to have in the cache: a book and one of its file types.
#[derive(Debug)]
pub struct Target {
    pub object_id: i32,
    pub object_type: String,
}

impl View for Target {
    type V = (int, Seq<char>);

    open spec fn view(&self) -> (int, Seq<char>) {
        (self.object_id as int, self.object_type@)
    }
}

/// The mathematical values of the targets, in their order.
pub open spec fn target_views(targets: Seq<Target>) -> Seq<(int, Seq<char>)> {
    Seq::new(targets.len(), |i: int| targets[i]@)
}

/// The targets that one book gives: one for each of its file types, in
/// their order.
pub open spec fn targets_of_book(book: BaseBookView) -> Seq<(int, Seq<char>)> {
    Seq::new(book.available_types.len(), |i: int| (book.id, book.available_types[i]))
}

/// The targets that the books give: those of the first book, then those of
/// the second, and so on.
pub open spec fn targets_of(books: Seq<BaseBookView>) -> Seq<(int, Seq<char>)>
    decreases books.len(),
{
    if books.len() == 0 {
        Seq::empty()
    } else {
        targets_of(books.drop_last()) + targets_of_book(books.last())
    }
}

/// Every file type of every book, book by book.
pub fn targets(books: &Vec<BaseBook>) -> (all: Vec<Target>)
    ensures
        target_views(all@) == targets_of(crate::catalog::book_views(books@)),
{
    let ghost views = crate::catalog::book_views(books@);
    let mut all: Vec<Target> = Vec::new();
    let mut b: usize = 0;
    assert(views.take(0) =~= Seq::<BaseBookView>::empty());
    assert(target_views(all@) =~= targets_of(views.take(0)));
    while b < books.len()
        invariant
            b <= books.len(),
            views == crate::catalog::book_views(books@),
            target_views(all@) == targets_of(views.take(b as int)),
        decreases books.len() - b,
    {
        let book = &books[b];
        let ghost before = target_views(all@);
        assert(before + targets_of_book(book@).take(0) =~= before);
        let mut t: usize = 0;
        while t < book.available_types.len()
            invariant
                t <= book.available_types.len(),
                target_views(all@) == before + targets_of_book(book@).take(t as int),
            decreases book.available_types.len() - t,
        {
            let ghost so_far = target_views(all@);
            let ghost held = all@;
            let target = Target { object_id: book.id, object_type: book.available_types[t].clone() };
            assert(target@ == targets_of_book(book@)[t as int]);
            all.push(target);
            assert(all@ == held.push(target));
            assert(target_views(all@) =~= so_far.push(target@));
            assert(so_far.push(target@) =~= before + targets_of_book(book@).take(t + 1));
            t += 1;
        }
        proof {
            let upto = views.take(b + 1);
            assert(upto.drop_last() =~= views.take(b as int));
            assert(upto.last() == book@);
            assert(targets_of_book(book@).take(t as int) =~= targets_of_book(book@));
        }
        b += 1;
    }
    assert(views.take(books.len() as int) =~= views);
    all
}

/// What the index said of a target.
#[derive(Debug, Clone, Copy, PartialEq, Eq, Structural)]
pub enum IndexLookup {
    /// It holds a row for it.
    Present,
    /// It holds none.
    Missing,
    /// It could not be asked.
    Failed,
}

/// The answer to the action that the job asked for last.
#[derive(Debug, Clone, Copy, PartialEq, Eq, Structural)]
pub enum JobEvent {
    /// The index was asked for the target.
    Looked(IndexLookup),
    /// The attempt to store the target has come to its end, well or not.
    Stored,
}

/// The next thing to do for the job.
#[derive(Debug)]
pub enum JobAction {
    /// Ask the index for this target.
    Look { object_id: i32, object_type: String },
    /// Store this target.
    Store { object_id: i32, object_type: String },
    /// Every target has been seen to.
    Done,
}

/// Mathematical value of a [`JobAction`].
pub enum JobActionView {
    Look { target: (int, Seq<char>) },
    Store { target: (int, Seq<char>) },
    Done,
}

impl View for JobAction {
    type V = JobActionView;

    open spec fn view(&self) -> JobActionView {
        match *self {
            JobAction::Look { object_id, object_type } => JobActionView::Look {
                target: (object_id as int, object_type@),
            },
            JobAction::Store { object_id, object_type } => JobActionView::Store {
                target: (object_id as int, object_type@),
            },
            JobAction::Done => JobActionView::Done,
        }
    }
}

/// The batch job on its way through the targets.
#[derive(Debug)]
pub struct Job {
    targets: Vec<Target>,
    position: usize,
    storing: bool,
}

/// Mathematical value of a [`Job`].
pub struct JobView {
    /// All the targets of the job.
    pub targets: Seq<(int, Seq<char>)>,
    /// How many of them have been seen to.
    pub position: nat,
    /// Whether the target at hand is being stored.
    pub storing: bool,
}

impl View for Job {
    type V = JobView;

    closed spec fn view(&self) -> JobView {
        JobView {
            targets: target_views(self.targets@),
            position: self.position as nat,
            storing: self.storing,
        }
    }
}

impl JobView {
    /// The job at the target `position`, and the action that opens it:
    /// the index is asked for the target, or the job is done where no
    /// target is left.
    pub open spec fn open(targets: Seq<(int, Seq<char>)>, position: nat) -> (JobView, JobActionView) {
        if position < targets.len() {
            (
                JobView { targets, position, storing: false },
                JobActionView::Look { target: targets[position as int] },
            )
        } else {
            (JobView { targets, position: targets.len(), storing: false }, JobActionView::Done)
        }
    }

    /// A new job over `targets`.
    pub open spec fn start(targets: Seq<(int, Seq<char>)>) -> (JobView, JobActionView) {
        JobView::open(targets, 0)
    }

    /// The job and the action that follow `event`. A target that the index
    /// reports missing is stored; every other answer, and the end of a
    /// store, well or not, leads on to the next target.
    pub open spec fn step(self, event: JobEvent) -> (JobView, JobActionView) {
        if self.position >= self.targets.len() {
            JobView::open(self.targets, self.position)
        } else if !self.storing && event == JobEvent::Looked(IndexLookup::Missing) {
            (
                JobView { storing: true, ..self },
                JobActionView::Store { target: self.targets[self.position as int] },
            )
        } else {
            JobView::open(self.targets, self.position + 1)
        }
    }
}

impl Job {
    fn open(targets: Vec<Target>, position: usize) -> (next: (Job, JobAction))
        ensures
            (next.0@, next.1@) == JobView::open(target_views(targets@), position as nat),
    {
        if position < targets.len() {
            let action = JobAction::Look {
                object_id: targets[position].object_id,
                object_type: targets[position].object_type.clone(),
            };
            (Job { targets, position, storing: false }, action)
        } else {
            let position = targets.len();
            (Job { targets, position, storing: false }, JobAction::Done)
        }
    }

    /// A job over every file type of every book, and its first action.
    pub fn start(books: &Vec<BaseBook>) -> (begun: (Job, JobAction))
        ensures
            (begun.0@, begun.1@) == JobView::start(targets_of(crate::catalog::book_views(books@))),
    {
        Job::open(targets(books), 0)
    }

    /// Takes the answer to the action asked for last and says what to do
    /// next.
    pub fn step(self, event: JobEvent) -> (next: (Job, JobAction))
        ensures
            (next.0@, next.1@) == self@.step(event),
    {
        let Job { targets, position, storing } = self;
        if position >= targets.len() {
            return Job::open(targets, position);
        }
        let missing = match event {
            JobEvent::Looked(IndexLookup::Missing) => true,
            _ => false,
        };
        if !storing && missing {
            let action = JobAction::Store {
                object_id: targets[position].object_id,
                object_type: targets[position].object_type.clone(),
            };
            (Job { targets, position, storing: true }, action)
        } else {
            Job::open(targets, position + 1)
        }
    }
}

/// What the job does for the targets from `from` on when the index says
/// `lookups(i)` of target `i`: each target is looked up, one after
/// another, and stored right after where the index reported it missing;
/// then the job is done.
pub open spec fn job_trace(
    targets: Seq<(int, Seq<char>)>,
    lookups: spec_fn(nat) -> IndexLookup,
    from: nat,
) -> Seq<JobActionView>
    decreases targets.len() - from,
{
    if from >= targets.len() {
        seq![JobActionView::Done]
    } else {
        let look = seq![JobActionView::Look { target: targets[from as int] }];
        let store = if lookups(from) == IndexLookup::Missing {
            seq![JobActionView::Store { target: targets[from as int] }]
        } else {
            seq![]
        };
        look + store + job_trace(targets, lookups, from + 1)
    }
}

/// The actions of a job that has just asked for `action`, where the index
/// says `lookups(i)` of target `i` and every store comes to its end.
pub open spec fn run_job(
    job: JobView,
    action: JobActionView,
    lookups: spec_fn(nat) -> IndexLookup,
) -> Seq<JobActionView>
    decreases 2 * (job.targets.len() - job.position) + if job.storing {
        0int
    } else {
        1int
    }, 
    when job.position <= job.targets.len()
{
    match action {
        JobActionView::Done => seq![action],
        JobActionView::Look { .. } => {
            if job.position < job.targets.len() && !job.storing {
                let (next, asks) = job.step(JobEvent::Looked(lookups(job.position)));
                seq![action] + run_job(next, asks, lookups)
            } else {
                seq![action]
            }
        },
        JobActionView::Store { .. } => {
            if job.position < job.targets.len() && job.storing {
                let (next, asks) = job.step(JobEvent::Stored);
                seq![action] + run_job(next, asks, lookups)
            } else {
                seq![action]
            }
        },
    }
}

proof fn lemma_run_job(
    targets: Seq<(int, Seq<char>)>,
    lookups: spec_fn(nat) -> IndexLookup,
    from: nat,
)
    requires
        from <= targets.len(),
    ensures
        ({
            let (job, action) = JobView::open(targets, from);
            run_job(job, action, lookups) == job_trace(targets, lookups, from)
        }),
    decreases targets.len() - from,
{
    let (job, action) = JobView::open(targets, from);
    if from < targets.len() {
        lemma_run_job(targets, lookups, from + 1);
        let (next, asks) = job.step(JobEvent::Looked(lookups(from)));
        if lookups(from) == IndexLookup::Missing {
            let (after, then) = next.step(JobEvent::Stored);
            assert(run_job(next, asks, lookups) == seq![asks] + run_job(after, then, lookups));
            assert(seq![action] + (seq![asks] + run_job(after, then, lookups)) =~= seq![action]
                + seq![asks] + run_job(after, then, lookups));
        } else {
            assert(seq![action] + run_job(next, asks, lookups) =~= seq![action] + Seq::<
                JobActionView,
            >::empty() + run_job(next, asks, lookups));
        }
    }
}

/// The job looks every target up exactly once, in order, stores exactly
/// those that the index reports missing, each right after its lookup, and
/// comes to its end whatever the stores come to.
pub proof fn lemma_job_stores_what_is_missing(
    targets: Seq<(int, Seq<char>)>,
    lookups: spec_fn(nat) -> IndexLookup,
)
    ensures
        ({
            let (job, action) = JobView::start(targets);
            run_job(job, action, lookups) == job_trace(targets, lookups, 0)
        }),
        job_trace(targets, lookups, 0).last() == JobActionView::Done,
{
    lemma_run_job(targets, lookups, 0);
    lemma_trace_ends_done(targets, lookups, 0);
}

proof fn lemma_trace_ends_done(
    targets: Seq<(int, Seq<char>)>,
    lookups: spec_fn(nat) -> IndexLookup,
    from: nat,
)
    ensures
        job_trace(targets, lookups, from).len() > 0,
        job_trace(targets, lookups, from).last() == JobActionView::Done,
    decreases targets.len() - from,
{
    if from < targets.len() {
        lemma_trace_ends_done(targets, lookups, from + 1);
    }
}

} // verus!
