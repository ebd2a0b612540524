//! The object index: at most one stored file per object variant.

use crate::coordinator::{Action, ActionView, Event, EventView};
use crate::records::{CachedFile, CachedFileView};
use vstd::prelude::*;

verus! {

/// Identity of an object variant: the number of the object and its file type.
pub type ObjectKey = (int, Seq<char>);

/// The key under which the index holds `row`.
pub open spec fn key_of(row: CachedFileView) -> ObjectKey {
    (row.object_id, row.object_type)
}

/// What an index that holds `index` and will number its next row `next_id`
/// does on `action`: the index and the number afterwards, and the answer.
/// A search finds the row under the key. A write puts a row with the next
/// number under the key, unless the numbers have run out. A removal takes
/// the row under the key away. Any other action is not for the index.
pub open spec fn index_answer(
    index: Map<ObjectKey, CachedFileView>,
    next_id: int,
    action: ActionView,
) -> Option<(Map<ObjectKey, CachedFileView>, int, EventView)> {
    match action {
        ActionView::Find { object_id, object_type } => Some(
            (
                index,
                next_id,
                EventView::Found(
                    if index.contains_key((object_id, object_type)) {
                        Some(index[(object_id, object_type)])
                    } else {
                        None
                    },
                ),
            ),
        ),
        ActionView::Insert { object_id, object_type, message_id, chat_id } => {
            if next_id < i32::MAX {
                let row = CachedFileView {
                    id: next_id,
                    object_id,
                    object_type,
                    message_id,
                    chat_id,
                };
                Some(
                    (
                        index.insert((object_id, object_type), row),
                        next_id + 1,
                        EventView::Inserted(Some(row)),
                    ),
                )
            } else {
                Some((index, next_id, EventView::Inserted(None)))
            }
        },
        ActionView::Delete { object_id, object_type } => Some(
            (index.remove((object_id, object_type)), next_id, EventView::Deleted),
        ),
        _ => None,
    }
}

/// Mathematical value of a [`CachedFileRepository`].
pub struct IndexView {
    /// The row held for each object variant.
    pub rows: Map<ObjectKey, CachedFileView>,
    /// The number that the next new row will carry.
    pub next_id: int,
}

/// The rows without the one that carries the number `id`.
pub open spec fn without_id(rows: Map<ObjectKey, CachedFileView>, id: int) -> Map<
    ObjectKey,
    CachedFileView,
> {
    rows.remove_keys(Set::new(|key: ObjectKey| rows.contains_key(key) && rows[key].id == id))
}

/// Every row lies under its own key, the rows carry numbers that differ,
/// and each of them was handed out before `next_id`.
pub open spec fn well_numbered(rows: Map<ObjectKey, CachedFileView>, next_id: int) -> bool {
    &&& next_id >= 1
    &&& forall|key: ObjectKey| #[trigger]
        rows.contains_key(key) ==> key_of(rows[key]) == key && 1 <= rows[key].id < next_id
    &&& forall|one: ObjectKey, other: ObjectKey|
        rows.contains_key(one) && rows.contains_key(other) && one != other ==> (#[trigger] rows[one]).id
            != (#[trigger] rows[other]).id
}

/// Why the index could not answer.
#[derive(Debug, Clone, Copy, PartialEq, Eq, Structural)]
pub enum IndexError {
    /// No row is held for the key.
    RowNotFound,
}

/// The relation of cached files, keyed by object variant.
pub struct CachedFileRepository {
    rows: Vec<CachedFile>,
    next_id: i32,
}

impl CachedFileRepository {
    spec fn holds_at(&self, key: ObjectKey, i: int) -> bool {
        0 <= i < self.rows@.len() && key_of(self.rows@[i]@) == key
    }

    spec fn table(&self) -> Map<ObjectKey, CachedFileView> {
        Map::new(
            |key: ObjectKey| exists|i: int| self.holds_at(key, i),
            |key: ObjectKey| self.rows@[choose|i: int| self.holds_at(key, i)]@,
        )
    }

    /// The index as a mapping from object variant to its row, with the
    /// number that the next new row will carry.
    pub closed spec fn view(&self) -> IndexView {
        IndexView { rows: self.table(), next_id: self.next_id as int }
    }

    /// No two rows share a key, and every row carries a number that was
    /// handed out before.
    pub closed spec fn wf(&self) -> bool {
        &&& self.next_id >= 1
        &&& forall|i: int, j: int|
            0 <= i < j < self.rows@.len() ==> key_of(#[trigger] self.rows@[i]@) != key_of(
                #[trigger] self.rows@[j]@,
            )
        &&& forall|i: int, j: int|
            0 <= i < j < self.rows@.len() ==> (#[trigger] self.rows@[i]).id != (
            #[trigger] self.rows@[j]).id
        &&& forall|i: int|
            0 <= i < self.rows@.len() ==> 1 <= (#[trigger] self.rows@[i]).id < self.next_id
    }

    /// Every row lies under its own key, no two rows carry the same number,
    /// and every number is below the next one.
    pub proof fn lemma_rows_lie_under_their_keys(&self)
        requires
            self.wf(),
        ensures
            well_numbered(self@.rows, self@.next_id),
    {
        assert forall|key: ObjectKey| #[trigger] self@.rows.contains_key(key) implies key_of(
            self@.rows[key],
        ) == key && 1 <= self@.rows[key].id < self@.next_id by {
            let i = choose|i: int| self.holds_at(key, i);
            assert(self.holds_at(key, i));
        }
        assert forall|one: ObjectKey, other: ObjectKey|
            self@.rows.contains_key(one) && self@.rows.contains_key(other) && one
                != other implies (#[trigger] self@.rows[one]).id != (#[trigger] self@.rows[other]).id by {
            let i = choose|i: int| self.holds_at(one, i);
            let j = choose|j: int| self.holds_at(other, j);
            assert(self.holds_at(one, i));
            assert(self.holds_at(other, j));
            assert(i != j);
            if i < j {
                assert(self.rows@[i].id != self.rows@[j].id);
            } else {
                assert(self.rows@[j].id != self.rows@[i].id);
            }
        }
    }

    proof fn lemma_row_is_entry(&self, i: int)
        requires
            self.wf(),
            0 <= i < self.rows@.len(),
        ensures
            self@.rows.contains_key(key_of(self.rows@[i]@)),
            self@.rows[key_of(self.rows@[i]@)] == self.rows@[i]@,
    {
        let key = key_of(self.rows@[i]@);
        assert(self.holds_at(key, i));
        let j = choose|j: int| self.holds_at(key, j);
        assert(self.holds_at(key, j));
        assert(i == j);
    }

    /// An empty index whose first row will carry the number 1.
    pub fn new() -> (index: Self)
        ensures
            index.wf(),
            index@.rows == Map::<ObjectKey, CachedFileView>::empty(),
            index@.next_id == 1,
    {
        let index = CachedFileRepository { rows: Vec::new(), next_id: 1 };
        assert(index@.rows =~= Map::<ObjectKey, CachedFileView>::empty());
        index
    }

    /// Number of rows held.
    pub fn len(&self) -> (n: usize)
        requires
            self.wf(),
        ensures
            n == self@.rows.dom().len(),
            self@.rows.dom().finite(),
    {
        proof {
            self.lemma_domain_size(self.rows@.len() as int);
            assert(self.keys_below(self.rows@.len() as int) =~= self@.rows.dom());
        }
        self.rows.len()
    }

    spec fn keys_below(&self, n: int) -> Set<ObjectKey> {
        Set::new(|key: ObjectKey| exists|i: int| self.holds_at(key, i) && i < n)
    }

    proof fn lemma_domain_size(&self, n: int)
        requires
            self.wf(),
            0 <= n <= self.rows@.len(),
        ensures
            self.keys_below(n).finite(),
            self.keys_below(n).len() == n,
        decreases n,
    {
        if n == 0 {
            assert(self.keys_below(0) =~= Set::<ObjectKey>::empty());
        } else {
            self.lemma_domain_size(n - 1);
            let key = key_of(self.rows@[n - 1]@);
            assert(self.holds_at(key, n - 1));
            assert(self.keys_below(n) =~= self.keys_below(n - 1).insert(key)) by {
                assert forall|k: ObjectKey| self.keys_below(n).contains(k) implies self.keys_below(
                    n - 1,
                ).insert(key).contains(k) by {
                    let i = choose|i: int| self.holds_at(k, i) && i < n;
                    if i < n - 1 {
                        assert(self.holds_at(k, i) && i < n - 1);
                    }
                }
            }
            assert(!self.keys_below(n - 1).contains(key)) by {
                if self.keys_below(n - 1).contains(key) {
                    let i = choose|i: int| self.holds_at(key, i) && i < n - 1;
                    assert(key_of(self.rows@[i]@) != key_of(self.rows@[n - 1]@));
                }
            }
        }
    }

    fn position(&self, object_id: i32, object_type: &String) -> (at: usize)
        requires
            self.wf(),
        ensures
            at <= self.rows@.len(),
            at < self.rows@.len() ==> key_of(self.rows@[at as int]@) == (
                object_id as int,
                object_type@,
            ),
            at == self.rows@.len() ==> !self@.rows.contains_key((object_id as int, object_type@)),
    {
        let ghost key: ObjectKey = (object_id as int, object_type@);
        let mut at: usize = 0;
        while at < self.rows.len()
            invariant
                at <= self.rows@.len(),
                key == (object_id as int, object_type@),
                forall|i: int| 0 <= i < at ==> key_of(#[trigger] self.rows@[i]@) != key,
            decreases self.rows@.len() - at,
        {
            if self.rows[at].object_id == object_id && self.rows[at].object_type == *object_type {
                return at;
            }
            at += 1;
        }
        assert(!self@.rows.contains_key(key)) by {
            if self@.rows.contains_key(key) {
                let i = choose|i: int| self.holds_at(key, i);
                assert(self.holds_at(key, i));
            }
        }
        at
    }

    /// The row held for an object variant, if there is one.
    pub fn find_by_object_id_object_type(&self, object_id: i32, object_type: &String) -> (found:
        Option<CachedFile>)
        requires
            self.wf(),
        ensures
            found matches Some(row) ==> self@.rows.contains_key((object_id as int, object_type@))
                && row@ == self@.rows[(object_id as int, object_type@)],
            found is None ==> !self@.rows.contains_key((object_id as int, object_type@)),
    {
        let at = self.position(object_id, object_type);
        if at < self.rows.len() {
            proof {
                self.lemma_row_is_entry(at as int);
            }
            Some(self.rows[at].duplicate())
        } else {
            None
        }
    }

    /// Takes the row of an object variant out of the index and hands it
    /// back; the index is left as it was where no such row is held.
    pub fn delete_by_object_id_object_type(&mut self, object_id: i32, object_type: String) -> (gone:
        Result<CachedFile, IndexError>)
        requires
            old(self).wf(),
        ensures
            final(self).wf(),
            final(self)@.next_id == old(self)@.next_id,
            final(self)@.rows == old(self)@.rows.remove((object_id as int, object_type@)),
            gone matches Ok(row) ==> old(self)@.rows.contains_key((object_id as int, object_type@))
                && row@ == old(self)@.rows[(object_id as int, object_type@)],
            gone matches Err(e) ==> e == IndexError::RowNotFound && !old(self)@.rows.contains_key(
                (object_id as int, object_type@),
            ),
    {
        let ghost key: ObjectKey = (object_id as int, object_type@);
        let at = self.position(object_id, &object_type);
        if at >= self.rows.len() {
            assert(self@.rows =~= old(self)@.rows.remove(key));
            return Err(IndexError::RowNotFound);
        }
        proof {
            self.lemma_row_is_entry(at as int);
        }
        let row = self.rows.remove(at);
        proof {
            let before = *old(self);
            let after = *self;
            assert(after.rows@ == before.rows@.remove(at as int));
            assert(after.wf());
            assert forall|k: ObjectKey| #[trigger] after@.rows.contains_key(k) <==> before@.rows.remove(
                key,
            ).contains_key(k) by {
                if after@.rows.contains_key(k) {
                    let i = choose|i: int| after.holds_at(k, i);
                    assert(after.holds_at(k, i));
                    if i < at {
                        assert(before.holds_at(k, i));
                    } else {
                        assert(before.holds_at(k, i + 1));
                    }
                }
                if before@.rows.remove(key).contains_key(k) {
                    let i = choose|i: int| before.holds_at(k, i);
                    assert(before.holds_at(k, i));
                    assert(i != at);
                    if i < at {
                        assert(after.holds_at(k, i));
                    } else {
                        assert(after.holds_at(k, i - 1));
                    }
                }
            }
            assert forall|k: ObjectKey| #[trigger] after@.rows.contains_key(k) implies after@.rows[k]
                == before@.rows.remove(key)[k] by {
                let i = choose|i: int| after.holds_at(k, i);
                assert(after.holds_at(k, i));
                after.lemma_row_is_entry(i);
                if i < at {
                    before.lemma_row_is_entry(i);
                } else {
                    before.lemma_row_is_entry(i + 1);
                }
            }
            assert(after@.rows =~= before@.rows.remove(key));
        }
        Ok(row)
    }

    /// Takes the row that carries the number `id` out of the index and
    /// hands it back; the index is left as it was where no row carries it.
    pub fn delete_by_id(&mut self, id: i32) -> (gone: Result<CachedFile, IndexError>)
        requires
            old(self).wf(),
        ensures
            final(self).wf(),
            final(self)@.next_id == old(self)@.next_id,
            final(self)@.rows == without_id(old(self)@.rows, id as int),
            gone matches Ok(row) ==> row.id == id && old(self)@.rows.contains_key(key_of(row@))
                && old(self)@.rows[key_of(row@)] == row@ && final(self)@.rows == old(
                self,
            )@.rows.remove(key_of(row@)),
            gone matches Err(e) ==> e == IndexError::RowNotFound && final(self)@.rows == old(
                self,
            )@.rows && forall|key: ObjectKey| #[trigger]
                old(self)@.rows.contains_key(key) ==> old(self)@.rows[key].id != id,
    {
        let mut at: usize = 0;
        while at < self.rows.len()
            invariant
                at <= self.rows@.len(),
                forall|i: int| 0 <= i < at ==> (#[trigger] self.rows@[i]).id != id,
            ensures
                at <= self.rows@.len(),
                forall|i: int| 0 <= i < at ==> (#[trigger] self.rows@[i]).id != id,
                at < self.rows@.len() ==> self.rows@[at as int].id == id,
            decreases self.rows@.len() - at,
        {
            if self.rows[at].id == id {
                break ;
            }
            at += 1;
        }
        proof {
            self.lemma_rows_lie_under_their_keys();
        }
        if at >= self.rows.len() {
            proof {
                assert forall|key: ObjectKey| #[trigger]
                    self@.rows.contains_key(key) implies self@.rows[key].id != id by {
                    let i = choose|i: int| self.holds_at(key, i);
                    assert(self.holds_at(key, i));
                    self.lemma_row_is_entry(i);
                }
                assert(self@.rows =~= without_id(self@.rows, id as int));
            }
            return Err(IndexError::RowNotFound);
        }
        let object_id = self.rows[at].object_id;
        let object_type = self.rows[at].object_type.clone();
        let ghost key: ObjectKey = (object_id as int, object_type@);
        proof {
            self.lemma_row_is_entry(at as int);
            assert(self@.rows.remove(key) =~= without_id(self@.rows, id as int));
        }
        self.delete_by_object_id_object_type(object_id, object_type)
    }

    /// Records where the file of an object variant lies, under a new number,
    /// in place of any row held for that variant before. Where the numbers
    /// have run out nothing is recorded.
    pub fn insert(
        &mut self,
        object_id: i32,
        object_type: String,
        message_id: i64,
        chat_id: i64,
    ) -> (stored: Option<CachedFile>)
        requires
            old(self).wf(),
        ensures
            final(self).wf(),
            stored is Some <==> old(self)@.next_id < i32::MAX,
            stored is None ==> final(self)@.rows == old(self)@.rows && final(self)@.next_id == old(self)@.next_id,
            stored matches Some(row) ==> {
                &&& row@ == (CachedFileView {
                    id: old(self)@.next_id,
                    object_id: object_id as int,
                    object_type: object_type@,
                    message_id: message_id as int,
                    chat_id: chat_id as int,
                })
                &&& final(self)@.rows == old(self)@.rows.insert((object_id as int, object_type@), row@)
                &&& final(self)@.next_id == old(self)@.next_id + 1
            },
    {
        if self.next_id == i32::MAX {
            return None;
        }
        let ghost key: ObjectKey = (object_id as int, object_type@);
        let _ = self.delete_by_object_id_object_type(object_id, object_type.clone());
        let ghost middle = *self;
        let row = CachedFile { id: self.next_id, object_id, object_type, message_id, chat_id };
        let copy = row.duplicate();
        self.rows.push(row);
        self.next_id = self.next_id + 1;
        proof {
            let after = *self;
            let n = middle.rows@.len() as int;
            assert(after.rows@ == middle.rows@.push(row));
            assert(!middle@.rows.contains_key(key));
            assert forall|i: int| 0 <= i < n implies key_of(#[trigger] after.rows@[i]@) != key by {
                assert(after.rows@[i] == middle.rows@[i]);
                if key_of(middle.rows@[i]@) == key {
                    middle.lemma_row_is_entry(i);
                }
            }
            assert(after.wf());
            assert forall|k: ObjectKey| #[trigger] after@.rows.contains_key(k) <==> middle@.rows.insert(
                key,
                row@,
            ).contains_key(k) by {
                if after@.rows.contains_key(k) {
                    let i = choose|i: int| after.holds_at(k, i);
                    assert(after.holds_at(k, i));
                    if i < n {
                        assert(middle.holds_at(k, i));
                    }
                }
                if middle@.rows.contains_key(k) {
                    let i = choose|i: int| middle.holds_at(k, i);
                    assert(middle.holds_at(k, i));
                    assert(after.holds_at(k, i));
                }
                if k == key {
                    assert(after.holds_at(k, n));
                }
            }
            assert forall|k: ObjectKey| #[trigger] after@.rows.contains_key(k) implies after@.rows[k]
                == middle@.rows.insert(key, row@)[k] by {
                let i = choose|i: int| after.holds_at(k, i);
                assert(after.holds_at(k, i));
                after.lemma_row_is_entry(i);
                if i < n {
                    middle.lemma_row_is_entry(i);
                }
            }
            assert(after@.rows =~= middle@.rows.insert(key, row@));
            assert(old(self)@.rows.remove(key).insert(key, row@) =~= old(self)@.rows.insert(key, row@));
        }
        Some(copy)
    }

    /// Performs `action` where it is for the index and hands back the
    /// answer; does nothing and hands back nothing where it is for someone
    /// else.
    pub fn answer(&mut self, action: &Action) -> (reply: Option<Event>)
        requires
            old(self).wf(),
        ensures
            final(self).wf(),
            match index_answer(old(self)@.rows, old(self)@.next_id, action@) {
                Some((index, next_id, event)) => {
                    &&& reply matches Some(e) && e@ == event
                    &&& final(self)@.rows == index
                    &&& final(self)@.next_id == next_id
                },
                None => {
                    &&& reply is None
                    &&& final(self)@.rows == old(self)@.rows
                    &&& final(self)@.next_id == old(self)@.next_id
                },
            },
    {
        match action {
            Action::Find { object_id, object_type } => Some(
                Event::Found(self.find_by_object_id_object_type(*object_id, object_type)),
            ),
            Action::Insert { object_id, object_type, message_id, chat_id } => Some(
                Event::Inserted(
                    self.insert(*object_id, object_type.clone(), *message_id, *chat_id),
                ),
            ),
            Action::Delete { object_id, object_type } => {
                let _ = self.delete_by_object_id_object_type(*object_id, object_type.clone());
                Some(Event::Deleted)
            },
            _ => None,
        }
    }
}

} // verus!
