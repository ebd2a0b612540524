//! Sessions run to their end against a model of what surrounds them.
//!
//! The model keeps an index and answers the index actions of a session as
//! the index would; every other action is answered by `upstream`, about
//! which nothing is supposed. What is proved here of a run therefore holds
//! whatever the catalog, the download service, the storage backend and the
//! object store answer.

use crate::coordinator::{ActionView, Binary, EventView, Goal, OutcomeView, PhaseView, SessionView, StoredFile, STATUS_OK};
use crate::prewarm::{job_trace, run_job, IndexLookup, JobView};
use crate::records::CachedFileView;
use crate::repository::{index_answer, key_of, well_numbered, without_id, ObjectKey};
use vstd::prelude::*;

verus! {

/// The surroundings of a session.
pub struct World {
    /// The object index.
    pub index: Map<ObjectKey, CachedFileView>,
    /// The number that the next new row of the index will carry.
    pub next_id: int,
    /// What the collaborators answer: the answer to the first action that
    /// is not for the index, to the second, and so on.
    pub upstream: spec_fn(nat) -> EventView,
    /// How many of these answers have been given.
    pub asked: nat,
}

impl World {
    /// The row that the index writes for an object stored at a place.
    pub open spec fn new_row(
        self,
        object_id: int,
        object_type: Seq<char>,
        message_id: int,
        chat_id: int,
    ) -> CachedFileView {
        CachedFileView { id: self.next_id, object_id, object_type, message_id, chat_id }
    }

    /// The surroundings after `action` was performed, and the answer to it:
    /// the index answers what is for the index, `upstream` everything else.
    pub open spec fn respond(self, action: ActionView) -> (World, EventView) {
        match index_answer(self.index, self.next_id, action) {
            Some((index, next_id, event)) => (World { index, next_id, ..self }, event),
            None => (World { asked: self.asked + 1, ..self }, (self.upstream)(self.asked)),
        }
    }

    /// Whether a new copy of an object will reach the index from here: the
    /// catalog knows the book, the download service sends the file, the
    /// storage backend takes it, and the index has a number left.
    pub open spec fn populates(self) -> bool {
        &&& (self.upstream)(self.asked) matches EventView::Book(Some(_))
        &&& (self.upstream)(self.asked + 1) == EventView::Binary(Binary::Stream)
        &&& (self.upstream)(self.asked + 2) matches EventView::Stored(Some(_))
        &&& self.next_id < i32::MAX
    }

    /// The row that a new copy of an object puts into the index, where
    /// `populates` holds.
    pub open spec fn populated_row(self, object_id: int, object_type: Seq<char>) -> CachedFileView {
        let place = (self.upstream)(self.asked + 2)->Stored_0->0;
        self.new_row(object_id, object_type, place.message_id as int, place.chat_id as int)
    }
}

/// How a run went.
pub struct Run {
    /// The surroundings at its end.
    pub world: World,
    /// How the request ended, or `None` where the run was cut short.
    pub outcome: Option<OutcomeView>,
    /// The actions that the session asked for, in their order.
    pub trace: Seq<ActionView>,
}

/// The run of a session that has just asked for `action`, over at most
/// `fuel` answers.
pub open spec fn run(session: SessionView, action: ActionView, world: World, fuel: nat) -> Run
    decreases fuel,
{
    if action is Finish {
        Run { world, outcome: Some(action->Finish_0), trace: seq![action] }
    } else if fuel == 0 {
        Run { world, outcome: None, trace: seq![action] }
    } else {
        let (answered, event) = world.respond(action);
        let (next, asks) = session.step(event);
        let rest = run(next, asks, answered, (fuel - 1) as nat);
        Run { trace: seq![action] + rest.trace, ..rest }
    }
}

/// Answers after which every session has ended.
pub open spec fn enough() -> nat {
    25
}

/// The run of a new session for `goal` on an object.
pub open spec fn conduct(goal: Goal, object_id: int, object_type: Seq<char>, world: World) -> Run {
    let (session, action) = SessionView::start(goal, object_id, object_type);
    run(session, action, world, enough())
}

/// How many times the trace sets out to make a new copy.
pub open spec fn populations(trace: Seq<ActionView>) -> nat
    decreases trace.len(),
{
    if trace.len() == 0 {
        0
    } else {
        populations(trace.drop_last()) + if trace.last() is GetBook {
            1nat
        } else {
            0nat
        }
    }
}

/// How many times the trace hands a file to the storage backend.
pub open spec fn stores(trace: Seq<ActionView>) -> nat
    decreases trace.len(),
{
    if trace.len() == 0 {
        0
    } else {
        stores(trace.drop_last()) + if trace.last() is Store {
            1nat
        } else {
            0nat
        }
    }
}

proof fn lemma_counts_from_front(first: ActionView, rest: Seq<ActionView>)
    ensures
        populations(seq![first] + rest) == populations(rest) + if first is GetBook {
            1nat
        } else {
            0nat
        },
        stores(seq![first] + rest) == stores(rest) + if first is Store {
            1nat
        } else {
            0nat
        },
    decreases rest.len(),
{
    let whole = seq![first] + rest;
    if rest.len() == 0 {
        assert(whole.drop_last() =~= Seq::<ActionView>::empty());
        assert(whole.last() == first);
        assert(populations(whole.drop_last()) == 0);
        assert(stores(whole.drop_last()) == 0);
    } else {
        lemma_counts_from_front(first, rest.drop_last());
        assert(whole.drop_last() =~= seq![first] + rest.drop_last());
        assert(whole.last() == rest.last());
    }
    assert(populations(whole) == populations(whole.drop_last()) + if whole.last() is GetBook {
        1nat
    } else {
        0nat
    });
    assert(stores(whole) == stores(whole.drop_last()) + if whole.last() is Store {
        1nat
    } else {
        0nat
    });
}

proof fn lemma_run_counts(session: SessionView, action: ActionView, world: World, fuel: nat)
    requires
        !(action is Finish),
        fuel > 0,
    ensures
        ({
            let (answered, event) = world.respond(action);
            let (next, asks) = session.step(event);
            let rest = run(next, asks, answered, (fuel - 1) as nat);
            let whole = run(session, action, world, fuel);
            &&& whole.world == rest.world
            &&& whole.outcome == rest.outcome
            &&& whole.trace == seq![action] + rest.trace
            &&& populations(whole.trace) == populations(rest.trace) + if action is GetBook {
                1nat
            } else {
                0nat
            }
            &&& stores(whole.trace) == stores(rest.trace) + if action is Store {
                1nat
            } else {
                0nat
            }
        }),
{
    let (answered, event) = world.respond(action);
    let (next, asks) = session.step(event);
    let rest = run(next, asks, answered, (fuel - 1) as nat);
    lemma_counts_from_front(action, rest.trace);
}

proof fn lemma_end_counts(session: SessionView, outcome: OutcomeView, world: World, fuel: nat)
    ensures
        ({
            let whole = run(session, ActionView::Finish(outcome), world, fuel);
            &&& whole.world == world
            &&& whole.outcome == Some(outcome)
            &&& whole.trace == seq![ActionView::Finish(outcome)]
            &&& populations(whole.trace) == 0
            &&& stores(whole.trace) == 0
        }),
{
    lemma_counts_from_front(ActionView::Finish(outcome), Seq::empty());
    assert(seq![ActionView::Finish(outcome)] + Seq::<ActionView>::empty() =~= seq![
        ActionView::Finish(outcome),
    ]);
    assert(populations(Seq::<ActionView>::empty()) == 0);
    assert(stores(Seq::<ActionView>::empty()) == 0);
}

/// An upper bound on the answers that a session still takes.
pub open spec fn answers_left(session: SessionView) -> nat {
    let again: nat = if session.goal == Goal::Download && !session.retried {
        13
    } else {
        0
    };
    let here: nat = match session.phase {
        PhaseView::Find => 12,
        PhaseView::Book => 11,
        PhaseView::Binary { .. } => 10,
        PhaseView::Store => 9,
        PhaseView::Insert => 8,
        PhaseView::Join => 7,
        PhaseView::Delete => 6,
        PhaseView::Spool { .. } => 5,
        PhaseView::Container { .. } => 4,
        PhaseView::MakeContainer { .. } => 3,
        PhaseView::Put { .. } => 2,
        PhaseView::Presign { .. } => 1,
        PhaseView::Done => 0,
    };
    again + here
}

/// Every answer brings a session nearer to its end, and a session asks for
/// nothing more exactly when it has ended.
pub proof fn lemma_step_nears_end(session: SessionView, event: EventView)
    requires
        !(session.phase is Done),
    ensures
        answers_left(session.step(event).0) < answers_left(session),
        session.step(event).1 is Finish <==> session.step(event).0.phase is Done,
{
}

/// A run ends within the answers that its session has left.
pub proof fn lemma_run_ends(session: SessionView, action: ActionView, world: World, fuel: nat)
    requires
        action is Finish <==> session.phase is Done,
        answers_left(session) <= fuel,
    ensures
        run(session, action, world, fuel).outcome is Some,
    decreases fuel,
{
    if !(action is Finish) {
        let (answered, event) = world.respond(action);
        let (next, asks) = session.step(event);
        lemma_step_nears_end(session, event);
        lemma_run_ends(next, asks, answered, (fuel - 1) as nat);
    }
}

/// Every request ends, whatever it is after and whatever it is answered.
pub proof fn lemma_every_request_ends(
    goal: Goal,
    object_id: int,
    object_type: Seq<char>,
    world: World,
)
    ensures
        conduct(goal, object_id, object_type, world).outcome is Some,
{
    let (session, action) = SessionView::start(goal, object_id, object_type);
    lemma_run_ends(session, action, world, enough());
}

/// Whether `event` answers a request for the stored file, its names and the
/// book, with the storage backend not handing out the file.
pub open spec fn file_refused(event: EventView) -> bool {
    event matches EventView::Joined { file, .. } && file != (StoredFile::Answered {
        status: STATUS_OK,
    })
}

/// Whether `event` answers a request for the stored file, its names and the
/// book, with the storage backend handing out the file.
pub open spec fn file_served(event: EventView) -> bool {
    event matches EventView::Joined { file, .. } && file == (StoredFile::Answered {
        status: STATUS_OK,
    })
}

/// The surroundings after a new copy of an object has reached the index.
pub open spec fn populated(world: World, object_id: int, object_type: Seq<char>) -> World {
    World {
        index: world.index.insert(
            (object_id, object_type),
            world.populated_row(object_id, object_type),
        ),
        next_id: world.next_id + 1,
        asked: world.asked + 3,
        ..world
    }
}

/// A new copy is set out for once. Where it does not come about, the
/// request ends with nothing and the index is as before; where it does,
/// the index holds the new row and the request goes on from there.
proof fn lemma_populate(session: SessionView, world: World, fuel: nat)
    requires
        session.phase is Book,
        fuel >= 4,
    ensures
        ({
            let whole = run(
                session,
                ActionView::GetBook { book_id: session.object_id },
                world,
                fuel,
            );
            let row = world.populated_row(session.object_id, session.object_type);
            let (next, asks) = session.at(PhaseView::Insert).with_entry(row);
            let rest = run(
                next,
                asks,
                populated(world, session.object_id, session.object_type),
                (fuel - 4) as nat,
            );
            &&& !world.populates() ==> {
                &&& whole.outcome == Some(OutcomeView::Absent)
                &&& whole.world.index == world.index
                &&& whole.world.next_id == world.next_id
                &&& populations(whole.trace) == 1
                &&& stores(whole.trace) <= 1
            }
            &&& world.populates() ==> {
                &&& whole.outcome == rest.outcome
                &&& whole.world == rest.world
                &&& populations(whole.trace) == 1 + populations(rest.trace)
                &&& stores(whole.trace) == 1 + stores(rest.trace)
            }
        }),
{
    let a0 = ActionView::GetBook { book_id: session.object_id };
    lemma_run_counts(session, a0, world, fuel);
    let (w1, e1) = world.respond(a0);
    let (s1, a1) = session.step(e1);
    if a1 is Finish {
        lemma_end_counts(s1, a1->Finish_0, w1, (fuel - 1) as nat);
    } else {
        lemma_run_counts(s1, a1, w1, (fuel - 1) as nat);
        let (w2, e2) = w1.respond(a1);
        let (s2, a2) = s1.step(e2);
        if a2 is Finish {
            lemma_end_counts(s2, a2->Finish_0, w2, (fuel - 2) as nat);
        } else {
            lemma_run_counts(s2, a2, w2, (fuel - 2) as nat);
            let (w3, e3) = w2.respond(a2);
            let (s3, a3) = s2.step(e3);
            if a3 is Finish {
                lemma_end_counts(s3, a3->Finish_0, w3, (fuel - 3) as nat);
            } else {
                lemma_run_counts(s3, a3, w3, (fuel - 3) as nat);
                let (w4, e4) = w3.respond(a3);
                let (s4, a4) = s3.step(e4);
                if world.next_id < i32::MAX {
                    assert(w4 == populated(world, session.object_id, session.object_type));
                } else {
                    lemma_end_counts(s4, a4->Finish_0, w4, (fuel - 4) as nat);
                }
            }
        }
    }
}

/// A lookup of an object that the index lacks either leaves the index as
/// it was and ends with nothing, or puts exactly one new row under the
/// object's key and ends with that row. The row comes about exactly where
/// the catalog, the download service and the storage backend all answer
/// well and the index has a number left. It lies where the backend said,
/// it carries a number that no row of the index carries, and every row
/// that the index held is held afterwards as it was.
pub proof fn lemma_missing_lookup_adds_at_most_one(
    object_id: int,
    object_type: Seq<char>,
    world: World,
)
    requires
        well_numbered(world.index, world.next_id),
        !world.index.contains_key((object_id, object_type)),
    ensures
        ({
            let whole = conduct(Goal::Lookup, object_id, object_type, world);
            let row = world.populated_row(object_id, object_type);
            let place = (world.upstream)(world.asked + 2)->Stored_0->0;
            &&& !world.populates() ==> {
                &&& whole.outcome == Some(OutcomeView::Absent)
                &&& whole.world.index == world.index
            }
            &&& world.populates() ==> {
                &&& whole.outcome == Some(OutcomeView::Entry(row))
                &&& whole.world.index == world.index.insert((object_id, object_type), row)
                &&& whole.world.index.dom() == world.index.dom().insert((object_id, object_type))
                &&& key_of(row) == (object_id, object_type)
                &&& row.message_id == place.message_id && row.chat_id == place.chat_id
                &&& forall|key: ObjectKey| #[trigger]
                    world.index.contains_key(key) ==> world.index[key].id != row.id
            }
            &&& forall|key: ObjectKey| #[trigger]
                world.index.contains_key(key) ==> whole.world.index.contains_key(key)
                    && whole.world.index[key] == world.index[key]
            &&& well_numbered(whole.world.index, whole.world.next_id)
            &&& populations(whole.trace) == 1
            &&& stores(whole.trace) <= 1
        }),
{
    let (s0, a0) = SessionView::start(Goal::Lookup, object_id, object_type);
    lemma_run_counts(s0, a0, world, enough());
    let (w1, e1) = world.respond(a0);
    let (s1, a1) = s0.step(e1);
    lemma_populate(s1, w1, 24);
    let row = world.populated_row(object_id, object_type);
    if world.populates() {
        let (s5, a5) = s1.at(PhaseView::Insert).with_entry(row);
        lemma_end_counts(s5, a5->Finish_0, populated(world, object_id, object_type), 20);
        assert(world.index.insert((object_id, object_type), row).dom() =~= world.index.dom().insert(
            (object_id, object_type),
        ));
    }
}

/// A lookup of an object that the index holds asks nobody but the index,
/// stores nothing, leaves everything as it was and ends with the row that
/// the index holds.
pub proof fn lemma_indexed_lookup_only_reads(object_id: int, object_type: Seq<char>, world: World)
    requires
        world.index.contains_key((object_id, object_type)),
    ensures
        ({
            let whole = conduct(Goal::Lookup, object_id, object_type, world);
            &&& whole.outcome == Some(OutcomeView::Entry(world.index[(object_id, object_type)]))
            &&& whole.world == world
            &&& populations(whole.trace) == 0
            &&& stores(whole.trace) == 0
        }),
{
    let (s0, a0) = SessionView::start(Goal::Lookup, object_id, object_type);
    lemma_run_counts(s0, a0, world, enough());
    let (w1, e1) = world.respond(a0);
    let (s1, a1) = s0.step(e1);
    lemma_end_counts(s1, a1->Finish_0, w1, 24);
}

/// Two lookups of one object in a row: where the first ends with a row,
/// the second ends with the same row, stores nothing and leaves
/// everything as the first left it.
pub proof fn lemma_second_lookup_repeats_first(
    object_id: int,
    object_type: Seq<char>,
    world: World,
)
    requires
        well_numbered(world.index, world.next_id),
    ensures
        ({
            let first = conduct(Goal::Lookup, object_id, object_type, world);
            let second = conduct(Goal::Lookup, object_id, object_type, first.world);
            first.outcome matches Some(OutcomeView::Entry(row)) ==> {
                &&& second.outcome == Some(OutcomeView::Entry(row))
                &&& second.world == first.world
                &&& stores(second.trace) == 0
                &&& populations(second.trace) == 0
            }
        }),
{
    let first = conduct(Goal::Lookup, object_id, object_type, world);
    if world.index.contains_key((object_id, object_type)) {
        lemma_indexed_lookup_only_reads(object_id, object_type, world);
        lemma_indexed_lookup_only_reads(object_id, object_type, first.world);
    } else {
        lemma_missing_lookup_adds_at_most_one(object_id, object_type, world);
        if world.populates() {
            lemma_indexed_lookup_only_reads(object_id, object_type, first.world);
        }
    }
}

/// The second try of a download asks for the stored file once more and
/// then ends, with the download or with nothing, without setting out for
/// another copy. It ends with nothing and no row where the stored file is
/// not handed out.
proof fn lemma_second_try(session: SessionView, row: CachedFileView, world: World, fuel: nat)
    requires
        session.goal == Goal::Download,
        session.retried,
        fuel >= 3,
    ensures
        ({
            let (next, asks) = session.with_entry(row);
            let whole = run(next, asks, world, fuel);
            &&& populations(whole.trace) == 0
            &&& whole.outcome is Some
            &&& whole.outcome->0 is Download || whole.outcome->0 is Absent
            &&& whole.outcome->0 is Download ==> whole.world.index == world.index
            &&& !file_served((world.upstream)(world.asked)) ==> whole.outcome->0 is Absent
            &&& file_refused((world.upstream)(world.asked)) ==> whole.world.index
                == world.index.remove((session.object_id, session.object_type))
        }),
{
    let (s0, a0) = session.with_entry(row);
    lemma_run_counts(s0, a0, world, fuel);
    let (w1, e1) = world.respond(a0);
    let (s1, a1) = s0.step(e1);
    if a1 is Finish {
        lemma_end_counts(s1, a1->Finish_0, w1, (fuel - 1) as nat);
    } else {
        lemma_run_counts(s1, a1, w1, (fuel - 1) as nat);
        let (w2, e2) = w1.respond(a1);
        let (s2, a2) = s1.step(e2);
        lemma_end_counts(s2, a2->Finish_0, w2, (fuel - 2) as nat);
    }
}

/// A download of an object that the index holds, whose stored file the
/// backend does not hand out: the row is taken out of the index; a new
/// copy is set out for exactly once; where that copy does not come about,
/// the request ends with nothing and the index holds no row for the
/// object. Whatever happens, the request ends with the download or with
/// nothing, and with nothing it leaves no row behind unless the second
/// try got the stored file and lacked only its names or caption.
pub proof fn lemma_stale_entry_heals_once(object_id: int, object_type: Seq<char>, world: World)
    requires
        world.index.contains_key((object_id, object_type)),
        file_refused((world.upstream)(world.asked)),
    ensures
        ({
            let whole = conduct(Goal::Download, object_id, object_type, world);
            let key = (object_id, object_type);
            let healed = World { index: world.index.remove(key), asked: world.asked + 1, ..world };
            &&& whole.trace.len() > 2
            &&& whole.trace[2] == (ActionView::Delete { object_id, object_type })
            &&& populations(whole.trace) == 1
            &&& whole.outcome is Some
            &&& whole.outcome->0 is Download || whole.outcome->0 is Absent
            &&& !healed.populates() ==> {
                &&& whole.outcome == Some(OutcomeView::Absent)
                &&& whole.world.index == world.index.remove(key)
                &&& !whole.world.index.contains_key(key)
            }
        }),
{
    let key = (object_id, object_type);
    let (s0, a0) = SessionView::start(Goal::Download, object_id, object_type);
    lemma_run_counts(s0, a0, world, enough());
    let (w1, e1) = world.respond(a0);
    let (s1, a1) = s0.step(e1);
    lemma_run_counts(s1, a1, w1, 24);
    let (w2, e2) = w1.respond(a1);
    let (s2, a2) = s1.step(e2);
    lemma_run_counts(s2, a2, w2, 23);
    let (w3, e3) = w2.respond(a2);
    let (s3, a3) = s2.step(e3);
    lemma_run_counts(s3, a3, w3, 22);
    let (w4, e4) = w3.respond(a3);
    let (s4, a4) = s3.step(e4);
    let whole = conduct(Goal::Download, object_id, object_type, world);
    let r1 = run(s1, a1, w1, 24);
    let r2 = run(s2, a2, w2, 23);
    let r3 = run(s3, a3, w3, 22);
    assert(whole.trace == seq![a0] + (seq![a1] + (seq![a2] + r3.trace)));
    assert(whole.trace[2] == a2);
    lemma_populate(s4, w4, 21);
    assert(w4 == World { index: world.index.remove(key), asked: world.asked + 1, ..world });
    if w4.populates() {
        let row = w4.populated_row(object_id, object_type);
        lemma_second_try(s4.at(PhaseView::Insert), row, populated(w4, object_id, object_type), 17);
    }
}

/// What the replacement of an index row comes to: the row that carries the
/// number `entry_id` is dropped, and the object is looked up anew.
pub open spec fn heal(world: World, entry_id: int, object_id: int, object_type: Seq<char>) -> Run {
    conduct(
        Goal::Lookup,
        object_id,
        object_type,
        World { index: without_id(world.index, entry_id), ..world },
    )
}

/// The replacement of a row that the index holds: the row is gone from the
/// index whatever follows; where a new copy comes about, the index holds a
/// row with another number under the same key and the replacement ends
/// with it; where none does, the index holds no row for the object and
/// the replacement ends with nothing. No other row is touched.
pub proof fn lemma_heal_replaces_row(world: World, canonical: CachedFileView)
    requires
        well_numbered(world.index, world.next_id),
        world.index.contains_key(key_of(canonical)),
        world.index[key_of(canonical)] == canonical,
    ensures
        ({
            let key = key_of(canonical);
            let healed = heal(world, canonical.id, canonical.object_id, canonical.object_type);
            let row = world.populated_row(canonical.object_id, canonical.object_type);
            &&& without_id(world.index, canonical.id) == world.index.remove(key)
            &&& world.populates() ==> {
                &&& healed.outcome == Some(OutcomeView::Entry(row))
                &&& healed.world.index == world.index.insert(key, row)
                &&& row.id != canonical.id
            }
            &&& !world.populates() ==> {
                &&& healed.outcome == Some(OutcomeView::Absent)
                &&& healed.world.index == world.index.remove(key)
            }
            &&& forall|other: ObjectKey|
                other != key && #[trigger] world.index.contains_key(other)
                    ==> healed.world.index.contains_key(other) && healed.world.index[other]
                    == world.index[other]
        }),
{
    let key = key_of(canonical);
    let dropped = World { index: without_id(world.index, canonical.id), ..world };
    assert(without_id(world.index, canonical.id) =~= world.index.remove(key));
    lemma_missing_lookup_adds_at_most_one(canonical.object_id, canonical.object_type, dropped);
    let row = world.populated_row(canonical.object_id, canonical.object_type);
    assert(dropped.populated_row(canonical.object_id, canonical.object_type) == row);
    assert(world.index.remove(key).insert(key, row) =~= world.index.insert(key, row));
}

/// A new copy of an object that the index lacks: where it comes about the
/// index gains exactly its row, and where it does not the index is as
/// before. No row that the index held is touched.
pub proof fn lemma_populate_adds_at_most_one(object_id: int, object_type: Seq<char>, world: World)
    requires
        well_numbered(world.index, world.next_id),
        !world.index.contains_key((object_id, object_type)),
    ensures
        ({
            let whole = conduct(Goal::Populate, object_id, object_type, world);
            let row = world.populated_row(object_id, object_type);
            &&& world.populates() ==> {
                &&& whole.outcome == Some(OutcomeView::Entry(row))
                &&& whole.world.index == world.index.insert((object_id, object_type), row)
            }
            &&& !world.populates() ==> {
                &&& whole.outcome == Some(OutcomeView::Absent)
                &&& whole.world.index == world.index
            }
            &&& well_numbered(whole.world.index, whole.world.next_id)
            &&& whole.world.upstream == world.upstream
            &&& populations(whole.trace) == 1
        }),
{
    let (s0, a0) = SessionView::start(Goal::Populate, object_id, object_type);
    lemma_populate(s0, world, enough());
    lemma_upstream_stays(s0, a0, world, enough());
    if world.populates() {
        let row = world.populated_row(object_id, object_type);
        let (s4, a4) = s0.at(PhaseView::Insert).with_entry(row);
        lemma_end_counts(s4, a4->Finish_0, populated(world, object_id, object_type), 21);
    }
}

proof fn lemma_upstream_stays(session: SessionView, action: ActionView, world: World, fuel: nat)
    ensures
        run(session, action, world, fuel).world.upstream == world.upstream,
    decreases fuel,
{
    if !(action is Finish) && fuel > 0 {
        let (answered, event) = world.respond(action);
        let (next, asks) = session.step(event);
        lemma_upstream_stays(next, asks, answered, (fuel - 1) as nat);
    }
}

/// The surroundings after the batch job has seen to one target: nothing
/// happens where the index holds a row for it; else a new copy is set out
/// for.
pub open spec fn see_to(world: World, target: ObjectKey) -> World {
    if world.index.contains_key(target) {
        world
    } else {
        conduct(Goal::Populate, target.0, target.1, world).world
    }
}

/// The surroundings when the batch job comes to the target `turn`, having
/// seen to all the targets before it, one after another.
pub open spec fn world_at(targets: Seq<ObjectKey>, world: World, turn: nat) -> World
    decreases turn,
{
    if turn == 0 {
        world
    } else {
        see_to(world_at(targets, world, (turn - 1) as nat), targets[turn - 1])
    }
}

/// What the index says of each target when the batch job comes to it.
pub open spec fn lookups_of(targets: Seq<ObjectKey>, world: World) -> spec_fn(nat) -> IndexLookup {
    |turn: nat|
        if world_at(targets, world, turn).index.contains_key(targets[turn as int]) {
            IndexLookup::Present
        } else {
            IndexLookup::Missing
        }
}

/// One target of the batch job: where the index holds a row for it, or no
/// new copy comes about, the index is left as it is; else the index gains
/// exactly the row of the new copy.
pub proof fn lemma_batch_turn(targets: Seq<ObjectKey>, world: World, turn: nat)
    requires
        well_numbered(world.index, world.next_id),
        turn < targets.len(),
    ensures
        ({
            let here = world_at(targets, world, turn);
            let after = world_at(targets, world, turn + 1);
            let target = targets[turn as int];
            &&& well_numbered(here.index, here.next_id)
            &&& well_numbered(after.index, after.next_id)
            &&& after.index == if !here.index.contains_key(target) && here.populates() {
                here.index.insert(target, here.populated_row(target.0, target.1))
            } else {
                here.index
            }
        }),
    decreases turn,
{
    if turn > 0 {
        lemma_batch_turn(targets, world, (turn - 1) as nat);
    }
    let here = world_at(targets, world, turn);
    let target = targets[turn as int];
    if !here.index.contains_key(target) {
        lemma_populate_adds_at_most_one(target.0, target.1, here);
    }
}

/// The index over a run of the batch job: a row that the index holds when
/// the job comes to one target is held, as it is, when the job comes to
/// any later one and at the end; and a row that is held later and was not
/// held before lies under a target in between whose copy came about.
pub proof fn lemma_batch_grows(targets: Seq<ObjectKey>, world: World, from: nat, to: nat)
    requires
        well_numbered(world.index, world.next_id),
        from <= to <= targets.len(),
    ensures
        ({
            let early = world_at(targets, world, from);
            let late = world_at(targets, world, to);
            &&& forall|key: ObjectKey| #[trigger]
                early.index.contains_key(key) ==> late.index.contains_key(key) && late.index[key]
                    == early.index[key]
            &&& forall|key: ObjectKey| #[trigger]
                late.index.contains_key(key) && !early.index.contains_key(key) ==> exists|
                    turn: nat,
                |
                    from <= turn < to && targets[turn as int] == key && (#[trigger] world_at(
                        targets,
                        world,
                        turn,
                    )).populates()
        }),
    decreases to - from,
{
    if from < to {
        lemma_batch_grows(targets, world, from, (to - 1) as nat);
        lemma_batch_turn(targets, world, (to - 1) as nat);
        let early = world_at(targets, world, from);
        let before = world_at(targets, world, (to - 1) as nat);
        let late = world_at(targets, world, to);
        assert forall|key: ObjectKey| #[trigger]
            late.index.contains_key(key) && !early.index.contains_key(key) implies exists|
            turn: nat,
        |
            from <= turn < to && targets[turn as int] == key && (#[trigger] world_at(
                targets,
                world,
                turn,
            )).populates() by {
            if before.index.contains_key(key) {
                let turn = choose|turn: nat|
                    from <= turn < to - 1 && targets[turn as int] == key && (#[trigger] world_at(
                        targets,
                        world,
                        turn,
                    )).populates();
                assert(from <= turn < to);
            } else {
                assert(before.populates());
                assert(targets[to - 1] == key);
            }
        }
    }
}

/// A whole run of the batch job against the index: the job looks every
/// target up once, in order, and sets out for a copy of exactly those
/// that the index lacks when their turn comes, whatever became of the
/// copies before.
pub proof fn lemma_batch_follows_the_index(targets: Seq<ObjectKey>, world: World)
    ensures
        ({
            let (job, action) = JobView::start(targets);
            run_job(job, action, lookups_of(targets, world)) == job_trace(
                targets,
                lookups_of(targets, world),
                0,
            )
        }),
{
    crate::prewarm::lemma_job_stores_what_is_missing(targets, lookups_of(targets, world));
}

} // verus!
