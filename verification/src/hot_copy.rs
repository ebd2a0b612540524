//! Hot copies: short-lived duplicates of stored files in a staging
//! conversation, kept track of in an idle-timed cache.

use crate::records::{CacheData, CachedFile, CachedFileView};
use vstd::prelude::*;

verus! {

/// Seconds that a hot copy may lie unread before it is dropped.
pub const IDLE_SECONDS: u64 = 16;

/// Hot copies that the cache keeps track of at most.
pub const MAX_COPIES: u64 = 4098;

/// The longest idle time that a cache can be built with: a thousand years.
pub const LONGEST_IDLE_SECONDS: u64 = 31536000000;

/// The cache of moka, of which nothing is seen but what `staged` and
/// `limits` name.
#[verifier::external_type_specification]
#[verifier::external_body]
#[verifier::reject_recursive_types(K)]
#[verifier::reject_recursive_types(V)]
#[verifier::reject_recursive_types(S)]
pub struct ExCache<K, V, S>(moka::sync::Cache<K, V, S>);

/// Why moka dropped an entry, carried through as it is.
#[verifier::external_type_specification]
#[verifier::external_body]
pub struct ExRemovalCause(moka::notification::RemovalCause);

/// The hot copies that a cache keeps track of: the message of the copy
/// under the number of the index row it was made of.
pub uninterp spec fn staged(store: moka::sync::Cache<i32, i32>) -> Map<int, int>;

/// The limits that a cache was built with: the seconds that an entry may
/// lie unread, and the entries that it holds at most.
pub uninterp spec fn limits(store: moka::sync::Cache<i32, i32>) -> (int, int);

/// Whether a cache was built to keep what it is given: with an idle time
/// above zero and with room for an entry.
pub open spec fn keeps(store: moka::sync::Cache<i32, i32>) -> bool {
    limits(store).0 > 0 && limits(store).1 > 0
}

/// No hot copy at all.
pub open spec fn no_copies() -> Map<int, int> {
    Map::empty()
}

/// Whether every entry of `part` is an entry of `whole`.
pub open spec fn within(part: Map<int, int>, whole: Map<int, int>) -> bool {
    forall|key: int| #[trigger]
        part.contains_key(key) ==> whole.contains_key(key) && whole[key] == part[key]
}

/// `builder`, `time_to_idle`, `max_capacity`, `eviction_listener` and
/// `build` of moka's `sync::Cache`. Trusted: the new cache holds nothing,
/// and its limits are the idle time and the capacity that it was built
/// with. moka stops on an idle time of more than a thousand years.
#[verifier::external_body]
fn cache_build<F>(idle_seconds: u64, capacity: u64, on_drop: F) -> (store: moka::sync::Cache<i32, i32>)
    where
        F: Fn(std::sync::Arc<i32>, i32, moka::notification::RemovalCause) + Send + Sync + 'static,
    requires
        idle_seconds <= LONGEST_IDLE_SECONDS,
    ensures
        staged(store) == no_copies(),
        limits(store).0 == idle_seconds,
        limits(store).1 == capacity,
{
    moka::sync::Cache::builder().time_to_idle(
        std::time::Duration::from_secs(idle_seconds),
    ).max_capacity(capacity).eviction_listener(on_drop).build()
}

/// `get` of moka's `sync::Cache`. Trusted: a value that is found was held
/// under the key; after a miss the key is not held; other entries may have
/// been dropped meanwhile, and none has come. The limits stay.
#[verifier::external_body]
fn cache_get(store: &mut moka::sync::Cache<i32, i32>, key: i32) -> (found: Option<i32>)
    ensures
        within(staged(*final(store)), staged(*old(store))),
        limits(*final(store)) == limits(*old(store)),
        found matches Some(value) ==> staged(*old(store)).contains_key(key as int) && staged(
            *old(store),
        )[key as int] == value,
        found is None ==> !staged(*final(store)).contains_key(key as int),
{
    store.get(&key)
}

/// `insert` of moka's `sync::Cache`. Trusted: nothing is held afterwards
/// but the new entry and what was held before under other keys, any of
/// which the cache may drop at once; the new entry itself is held where
/// the cache was built to keep what it is given. The limits stay.
#[verifier::external_body]
fn cache_insert(store: &mut moka::sync::Cache<i32, i32>, key: i32, value: i32)
    ensures
        within(staged(*final(store)), staged(*old(store)).insert(key as int, value as int)),
        limits(*final(store)) == limits(*old(store)),
        keeps(*old(store)) ==> staged(*final(store)).contains_key(key as int),
{
    store.insert(key, value)
}

/// Mathematical value of a [`CacheData`].
pub struct CacheDataView {
    pub id: Option<int>,
    pub object_id: int,
    pub object_type: Seq<char>,
    pub message_id: int,
    pub chat_id: int,
}

impl View for CacheData {
    type V = CacheDataView;

    open spec fn view(&self) -> CacheDataView {
        CacheDataView {
            id: match self.id {
                Some(id) => Some(id as int),
                None => None,
            },
            object_id: self.object_id as int,
            object_type: self.object_type@,
            message_id: self.message_id as int,
            chat_id: self.chat_id as int,
        }
    }
}

/// The hot copy of an object that lies as `message_id` in the staging
/// conversation `staging_chat`: it stands for the same object as the index
/// row, and carries no number of its own.
pub open spec fn hot_copy_of(canonical: CachedFileView, message_id: int, staging_chat: int) -> CacheDataView {
    CacheDataView {
        id: None,
        object_id: canonical.object_id,
        object_type: canonical.object_type,
        message_id,
        chat_id: staging_chat,
    }
}

/// Describes the hot copy of `canonical` that lies as `message_id` in the
/// staging conversation.
pub fn hot_copy(canonical: &CachedFile, message_id: i32, staging_chat: i64) -> (copy: CacheData)
    ensures
        copy@ == hot_copy_of(canonical@, message_id as int, staging_chat as int),
{
    CacheData {
        id: None,
        object_id: canonical.object_id,
        object_type: canonical.object_type.clone(),
        message_id,
        chat_id: staging_chat,
    }
}

/// The hot copies that are being kept, and the conversation they lie in.
pub struct HotCopyCache {
    store: moka::sync::Cache<i32, i32>,
    staging_chat: i64,
}

impl HotCopyCache {
    /// The hot copies kept: the message of the copy under the number of
    /// the index row.
    pub closed spec fn copies(&self) -> Map<int, int> {
        staged(self.store)
    }

    /// The conversation in which the copies lie.
    pub closed spec fn staging_chat(&self) -> int {
        self.staging_chat as int
    }

    /// The seconds that a copy may lie unread before the cache drops it.
    pub closed spec fn idle_seconds(&self) -> int {
        limits(self.store).0
    }

    /// The copies that the cache keeps track of at most.
    pub closed spec fn capacity(&self) -> int {
        limits(self.store).1
    }

    /// Whether the cache was built to keep the copies it is given: with
    /// an idle time above zero and with room for a copy.
    pub open spec fn keeps(&self) -> bool {
        self.idle_seconds() > 0 && self.capacity() > 0
    }

    /// A cache for hot copies that lie in `staging_chat`, with nothing in
    /// it, built to drop a copy that lies unread for `IDLE_SECONDS` and
    /// to keep track of `MAX_COPIES` copies at most. `on_drop` is called
    /// with the row number and the message of every copy that is dropped
    /// or replaced.
    pub fn new<F>(staging_chat: i64, on_drop: F) -> (cache: Self) where
        F: Fn(std::sync::Arc<i32>, i32, moka::notification::RemovalCause) + Send + Sync + 'static,

        ensures
            cache.copies() == no_copies(),
            cache.staging_chat() == staging_chat,
            cache.idle_seconds() == IDLE_SECONDS,
            cache.capacity() == MAX_COPIES,
    {
        HotCopyCache { store: cache_build(IDLE_SECONDS, MAX_COPIES, on_drop), staging_chat }
    }

    /// A cache like a new one, built with limits of the caller's choice.
    pub fn with_limits<F>(staging_chat: i64, idle_seconds: u64, capacity: u64, on_drop: F) -> (cache:
        Self) where
        F: Fn(std::sync::Arc<i32>, i32, moka::notification::RemovalCause) + Send + Sync + 'static,

        requires
            idle_seconds <= LONGEST_IDLE_SECONDS,
        ensures
            cache.copies() == no_copies(),
            cache.staging_chat() == staging_chat,
            cache.idle_seconds() == idle_seconds,
            cache.capacity() == capacity,
    {
        HotCopyCache { store: cache_build(idle_seconds, capacity, on_drop), staging_chat }
    }

    /// The conversation in which the copies lie.
    pub fn chat(&self) -> (chat_id: i64)
        ensures
            chat_id == self.staging_chat(),
    {
        self.staging_chat
    }

    /// The hot copy kept for an index row, if one is kept and has not lain
    /// idle too long. A copy that is found was kept; after a miss none is
    /// kept for the row. Copies of other rows may have been dropped
    /// meanwhile.
    pub fn find_copy(&mut self, canonical: &CachedFile) -> (copy: Option<CacheData>)
        ensures
            final(self).staging_chat() == old(self).staging_chat(),
            final(self).idle_seconds() == old(self).idle_seconds(),
            final(self).capacity() == old(self).capacity(),
            within(final(self).copies(), old(self).copies()),
            copy matches Some(kept) ==> old(self).copies().contains_key(canonical.id as int)
                && kept@ == hot_copy_of(
                canonical@,
                old(self).copies()[canonical.id as int],
                old(self).staging_chat(),
            ),
            copy is None ==> !final(self).copies().contains_key(canonical.id as int),
    {
        match cache_get(&mut self.store, canonical.id) {
            Some(message_id) => Some(hot_copy(canonical, message_id, self.staging_chat)),
            None => None,
        }
    }

    /// The hot copy of an index row: the one that is kept, where one is;
    /// else a staging that will make one, with its first action.
    pub fn get_or_stage(&mut self, canonical: CachedFile) -> (staged: Staged)
        ensures
            final(self).staging_chat() == old(self).staging_chat(),
            final(self).idle_seconds() == old(self).idle_seconds(),
            final(self).capacity() == old(self).capacity(),
            within(final(self).copies(), old(self).copies()),
            staged matches Staged::Ready(kept) ==> old(self).copies().contains_key(
                canonical.id as int,
            ) && kept@ == hot_copy_of(
                canonical@,
                old(self).copies()[canonical.id as int],
                old(self).staging_chat(),
            ),
            staged matches Staged::Pending(staging, action) ==> !final(self).copies().contains_key(
                canonical.id as int,
            ) && (staging@, action@) == StagingView::start(canonical@),
    {
        match self.find_copy(&canonical) {
            Some(kept) => Staged::Ready(kept),
            None => {
                let (staging, action) = Staging::start(canonical);
                Staged::Pending(staging, action)
            },
        }
    }

    /// Keeps the hot copy of an index row that lies as `message_id` in the
    /// staging conversation, in place of any copy kept for the row before,
    /// and describes it. Nothing else is newly kept. The copy is kept
    /// where the cache was built to keep what it is given.
    pub fn keep_copy(&mut self, canonical: &CachedFile, message_id: i32) -> (copy: CacheData)
        ensures
            final(self).staging_chat() == old(self).staging_chat(),
            final(self).idle_seconds() == old(self).idle_seconds(),
            final(self).capacity() == old(self).capacity(),
            old(self).keeps() ==> final(self).copies().contains_key(canonical.id as int)
                && final(self).copies()[canonical.id as int] == message_id,
            within(
                final(self).copies(),
                old(self).copies().insert(canonical.id as int, message_id as int),
            ),
            copy@ == hot_copy_of(canonical@, message_id as int, old(self).staging_chat()),
    {
        cache_insert(&mut self.store, canonical.id, message_id);
        hot_copy(canonical, message_id, self.staging_chat)
    }
}

/// What the staging of a hot copy is waiting for.
#[derive(Debug, Clone, Copy, PartialEq, Eq, Structural)]
pub enum StagePhase {
    /// The backend is copying the stored file.
    Copying,
    /// The index row is being replaced by one of a new copy of the file.
    Healing,
    /// The staging has ended.
    Done,
}

/// The answer to the action that a staging asked for last.
#[derive(Debug)]
pub enum StageEvent {
    /// The backend was asked to copy the stored file into the staging
    /// conversation: the message of the copy, or `None` where it could not
    /// copy.
    Copied(Option<i32>),
    /// The index row was dropped and the object looked up anew: the new
    /// row, or `None` where none could be had.
    Healed(Option<CachedFile>),
}

/// Mathematical value of a [`StageEvent`].
pub enum StageEventView {
    Copied(Option<int>),
    Healed(Option<CachedFileView>),
}

impl View for StageEvent {
    type V = StageEventView;

    open spec fn view(&self) -> StageEventView {
        match *self {
            StageEvent::Copied(message) => StageEventView::Copied(
                match message {
                    Some(m) => Some(m as int),
                    None => None,
                },
            ),
            StageEvent::Healed(row) => StageEventView::Healed(
                match row {
                    Some(r) => Some(r@),
                    None => None,
                },
            ),
        }
    }
}

/// The next thing to do to stage a hot copy.
#[derive(Debug)]
pub enum StageAction {
    /// Copy this message of this conversation into the staging
    /// conversation, as the identity whose turn it is.
    Copy { from_chat_id: i64, message_id: i32 },
    /// Drop the index row with this number and look the object up anew.
    Heal { entry_id: i32, object_id: i32, object_type: String },
    /// Keep track of the copy that lies as `message_id`, and end.
    Keep { message_id: i32 },
    /// End without a copy.
    GiveUp,
}

/// Mathematical value of a [`StageAction`].
pub enum StageActionView {
    Copy { from_chat_id: int, message_id: int },
    Heal { entry_id: int, object_id: int, object_type: Seq<char> },
    Keep { message_id: int },
    GiveUp,
}

impl View for StageAction {
    type V = StageActionView;

    open spec fn view(&self) -> StageActionView {
        match *self {
            StageAction::Copy { from_chat_id, message_id } => StageActionView::Copy {
                from_chat_id: from_chat_id as int,
                message_id: message_id as int,
            },
            StageAction::Heal { entry_id, object_id, object_type } => StageActionView::Heal {
                entry_id: entry_id as int,
                object_id: object_id as int,
                object_type: object_type@,
            },
            StageAction::Keep { message_id } => StageActionView::Keep {
                message_id: message_id as int,
            },
            StageAction::GiveUp => StageActionView::GiveUp,
        }
    }
}

/// What a reader who asks for a hot copy gets at once.
#[derive(Debug)]
pub enum Staged {
    /// The copy that is kept.
    Ready(CacheData),
    /// No copy is kept: a staging, and the first thing to do for it.
    Pending(Staging, StageAction),
}

/// The staging of a hot copy of one index row.
#[derive(Debug)]
pub struct Staging {
    pub canonical: CachedFile,
    pub phase: StagePhase,
    pub healed: bool,
}

/// Mathematical value of a [`Staging`].
pub struct StagingView {
    pub canonical: CachedFileView,
    pub phase: StagePhase,
    pub healed: bool,
}

impl View for Staging {
    type V = StagingView;

    open spec fn view(&self) -> StagingView {
        StagingView { canonical: self.canonical@, phase: self.phase, healed: self.healed }
    }
}

impl StagingView {
    /// The staging asks for a copy of the stored file that `row` points
    /// to, or gives up where the message of that file has no number that
    /// the backend can take.
    pub open spec fn copy_from(self, row: CachedFileView) -> (StagingView, StageActionView) {
        if i32::MIN <= row.message_id <= i32::MAX {
            (
                StagingView { phase: StagePhase::Copying, ..self },
                StageActionView::Copy { from_chat_id: row.chat_id, message_id: row.message_id },
            )
        } else {
            (StagingView { phase: StagePhase::Done, ..self }, StageActionView::GiveUp)
        }
    }

    /// A new staging for `canonical`, and its first action.
    pub open spec fn start(canonical: CachedFileView) -> (StagingView, StageActionView) {
        (StagingView { canonical, phase: StagePhase::Copying, healed: false }).copy_from(canonical)
    }

    /// The staging and the action that follow `event`. A copy that was
    /// made is kept. Where the backend cannot copy, the index row is
    /// dropped and the object looked up anew, once, and the copy is tried
    /// again from the new row. Where that yields no row, or the second
    /// copy cannot be made either, the staging gives up.
    pub open spec fn step(self, event: StageEventView) -> (StagingView, StageActionView) {
        match (self.phase, event) {
            (StagePhase::Copying, StageEventView::Copied(Some(message_id))) => (
                StagingView { phase: StagePhase::Done, ..self },
                StageActionView::Keep { message_id },
            ),
            (StagePhase::Copying, StageEventView::Copied(None)) => if self.healed {
                (StagingView { phase: StagePhase::Done, ..self }, StageActionView::GiveUp)
            } else {
                (
                    StagingView { phase: StagePhase::Healing, healed: true, ..self },
                    StageActionView::Heal {
                        entry_id: self.canonical.id,
                        object_id: self.canonical.object_id,
                        object_type: self.canonical.object_type,
                    },
                )
            },
            (StagePhase::Healing, StageEventView::Healed(Some(row))) => self.copy_from(row),
            _ => (StagingView { phase: StagePhase::Done, ..self }, StageActionView::GiveUp),
        }
    }
}

impl Staging {
    fn copy_from(self, row: &CachedFile) -> (next: (Staging, StageAction))
        ensures
            (next.0@, next.1@) == self@.copy_from(row@),
    {
        if -2147483648 <= row.message_id && row.message_id <= 2147483647 {
            (
                Staging { canonical: self.canonical, phase: StagePhase::Copying, healed: self.healed },
                StageAction::Copy {
                    from_chat_id: row.chat_id,
                    message_id: row.message_id as i32,
                },
            )
        } else {
            (
                Staging { canonical: self.canonical, phase: StagePhase::Done, healed: self.healed },
                StageAction::GiveUp,
            )
        }
    }

    /// A new staging for an index row, and the first thing to do for it.
    pub fn start(canonical: CachedFile) -> (begun: (Staging, StageAction))
        ensures
            (begun.0@, begun.1@) == StagingView::start(canonical@),
    {
        let row = canonical.duplicate();
        (Staging { canonical, phase: StagePhase::Copying, healed: false }).copy_from(&row)
    }

    /// Takes the answer to the action asked for last and says what to do
    /// next.
    pub fn step(self, event: StageEvent) -> (next: (Staging, StageAction))
        ensures
            (next.0@, next.1@) == self@.step(event@),
    {
        let Staging { canonical, phase, healed } = self;
        match (phase, event) {
            (StagePhase::Copying, StageEvent::Copied(Some(message_id))) => (
                Staging { canonical, phase: StagePhase::Done, healed },
                StageAction::Keep { message_id },
            ),
            (StagePhase::Copying, StageEvent::Copied(None)) => {
                if healed {
                    (Staging { canonical, phase: StagePhase::Done, healed }, StageAction::GiveUp)
                } else {
                    let action = StageAction::Heal {
                        entry_id: canonical.id,
                        object_id: canonical.object_id,
                        object_type: canonical.object_type.clone(),
                    };
                    (Staging { canonical, phase: StagePhase::Healing, healed: true }, action)
                }
            },
            (StagePhase::Healing, StageEvent::Healed(Some(row))) => (Staging {
                canonical,
                phase,
                healed,
            }).copy_from(&row),
            _ => (Staging { canonical, phase: StagePhase::Done, healed }, StageAction::GiveUp),
        }
    }
}

/// A staging asks the backend for at most two copies and has the index
/// row replaced at most once, between the two: whatever it is answered,
/// only its first and its third action can be a copy, only its second a
/// replacement, and after three answers it has ended.
pub proof fn lemma_staging_heals_once(
    canonical: CachedFileView,
    first: StageEventView,
    second: StageEventView,
    third: StageEventView,
)
    ensures
        ({
            let (s0, a0) = StagingView::start(canonical);
            let (s1, a1) = s0.step(first);
            let (s2, a2) = s1.step(second);
            let (s3, a3) = s2.step(third);
            &&& !(a0 is Heal) && !(a2 is Heal) && !(a3 is Heal)
            &&& !(a1 is Copy) && !(a3 is Copy)
            &&& a1 is Heal ==> a0 is Copy && first == StageEventView::Copied(None)
            &&& s3.phase == StagePhase::Done
            &&& a3 is Keep || a3 is GiveUp
        }),
{
}

} // verus!
