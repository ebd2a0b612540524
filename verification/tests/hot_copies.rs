use cache_broker::hot_copy::{
    hot_copy, HotCopyCache, StageAction, StageEvent, StagePhase, Staged, Staging, IDLE_SECONDS,
    MAX_COPIES,
};
use cache_broker::records::CachedFile;

fn row(id: i32, message_id: i64) -> CachedFile {
    CachedFile { id, object_id: 7, object_type: "fb2".to_string(), message_id, chat_id: -100 }
}

fn cache() -> HotCopyCache {
    HotCopyCache::new(-900, |_id, _message_id, _cause| {})
}

#[test]
fn limits_of_the_cache() {
    assert_eq!(IDLE_SECONDS, 16);
    assert_eq!(MAX_COPIES, 4098);
}

#[test]
fn hot_copy_stands_for_the_object_in_the_staging_chat() {
    let copy = hot_copy(&row(3, 555), 42, -900);
    assert_eq!(copy.id, None);
    assert_eq!(copy.object_id, 7);
    assert_eq!(copy.object_type, "fb2");
    assert_eq!(copy.message_id, 42);
    assert_eq!(copy.chat_id, -900);
}

#[test]
fn kept_copy_is_found_again() {
    let mut cache = cache();
    assert_eq!(cache.chat(), -900);
    assert!(cache.find_copy(&row(3, 555)).is_none());
    let kept = cache.keep_copy(&row(3, 555), 42);
    assert_eq!((kept.message_id, kept.chat_id), (42, -900));
    let found = cache.find_copy(&row(3, 555)).unwrap();
    assert_eq!(found.id, None);
    assert_eq!(found.object_id, 7);
    assert_eq!(found.object_type, "fb2");
    assert_eq!(found.message_id, 42);
    assert_eq!(found.chat_id, -900);
    assert!(cache.find_copy(&row(4, 555)).is_none());
}

#[test]
fn later_copy_replaces_the_earlier() {
    let mut cache = cache();
    cache.keep_copy(&row(3, 555), 42);
    cache.keep_copy(&row(3, 555), 43);
    assert_eq!(cache.find_copy(&row(3, 555)).unwrap().message_id, 43);
}

#[test]
fn get_or_stage_hands_out_the_kept_copy_or_starts_a_staging() {
    let mut cache = cache();
    match cache.get_or_stage(row(3, 555)) {
        Staged::Pending(staging, StageAction::Copy { from_chat_id, message_id }) => {
            assert_eq!((from_chat_id, message_id), (-100, 555));
            assert_eq!(staging.phase, StagePhase::Copying);
            assert!(!staging.healed);
        }
        other => panic!("unexpected {:?}", other),
    }
    cache.keep_copy(&row(3, 555), 42);
    match cache.get_or_stage(row(3, 555)) {
        Staged::Ready(copy) => assert_eq!(copy.message_id, 42),
        other => panic!("unexpected {:?}", other),
    }
}

#[test]
fn staging_keeps_the_copy_that_was_made() {
    let (staging, action) = Staging::start(row(3, 555));
    assert!(matches!(action, StageAction::Copy { from_chat_id: -100, message_id: 555 }));
    let (staging, action) = staging.step(StageEvent::Copied(Some(42)));
    assert!(matches!(action, StageAction::Keep { message_id: 42 }));
    assert_eq!(staging.phase, StagePhase::Done);
    assert_eq!(staging.canonical.id, 3);
}

#[test]
fn staging_heals_once_and_copies_from_the_new_row() {
    let (staging, _) = Staging::start(row(3, 555));
    let (staging, action) = staging.step(StageEvent::Copied(None));
    match &action {
        StageAction::Heal { entry_id, object_id, object_type } => {
            assert_eq!((*entry_id, *object_id), (3, 7));
            assert_eq!(object_type, "fb2");
        }
        other => panic!("unexpected {:?}", other),
    }
    let fresh = CachedFile {
        id: 9,
        object_id: 7,
        object_type: "fb2".to_string(),
        message_id: 777,
        chat_id: -200,
    };
    let (staging, action) = staging.step(StageEvent::Healed(Some(fresh)));
    assert!(matches!(action, StageAction::Copy { from_chat_id: -200, message_id: 777 }));
    let (staging, action) = staging.step(StageEvent::Copied(Some(43)));
    assert!(matches!(action, StageAction::Keep { message_id: 43 }));
    // the copy is kept under the row that was asked for
    assert_eq!(staging.canonical.id, 3);
}

#[test]
fn staging_gives_up_after_the_second_failure() {
    let (staging, _) = Staging::start(row(3, 555));
    let (staging, _) = staging.step(StageEvent::Copied(None));
    let (staging, _) = staging.step(StageEvent::Healed(Some(row(9, 777))));
    let (staging, action) = staging.step(StageEvent::Copied(None));
    assert!(matches!(action, StageAction::GiveUp));
    assert_eq!(staging.phase, StagePhase::Done);
}

#[test]
fn staging_gives_up_where_no_new_row_can_be_had() {
    let (staging, _) = Staging::start(row(3, 555));
    let (staging, _) = staging.step(StageEvent::Copied(None));
    let (_, action) = staging.step(StageEvent::Healed(None));
    assert!(matches!(action, StageAction::GiveUp));
}

#[test]
fn staging_gives_up_on_a_message_number_that_does_not_fit() {
    let (_, action) = Staging::start(row(3, i32::MAX as i64 + 1));
    assert!(matches!(action, StageAction::GiveUp));
    let (_, action) = Staging::start(row(3, i32::MIN as i64 - 1));
    assert!(matches!(action, StageAction::GiveUp));
    let (_, action) = Staging::start(row(3, i32::MAX as i64));
    assert!(matches!(action, StageAction::Copy { message_id: i32::MAX, .. }));
    let (_, action) = Staging::start(row(3, i32::MIN as i64));
    assert!(matches!(action, StageAction::Copy { message_id: i32::MIN, .. }));
}

#[test]
fn staging_gives_up_on_an_answer_out_of_turn() {
    let (staging, _) = Staging::start(row(3, 555));
    let (_, action) = staging.step(StageEvent::Healed(Some(row(9, 1))));
    assert!(matches!(action, StageAction::GiveUp));
}

fn wait_until(started: std::time::Instant, millis: u64) {
    while started.elapsed() < std::time::Duration::from_millis(millis) {
        std::hint::spin_loop();
    }
}

#[test]
fn idle_copy_is_dropped_and_released_once() {
    let released = std::sync::Arc::new(std::sync::Mutex::new(Vec::new()));
    let seen = released.clone();
    let mut cache = HotCopyCache::with_limits(-900, 1, MAX_COPIES, move |id, message_id, _cause| {
        seen.lock().unwrap().push((*id, message_id));
    });
    cache.keep_copy(&row(3, 555), 42);
    cache.keep_copy(&row(4, 556), 43);

    // The copy of row 4 is read while the one of row 3 lies idle.
    let started = std::time::Instant::now();
    wait_until(started, 600);
    assert_eq!(cache.find_copy(&row(4, 556)).unwrap().message_id, 43);
    wait_until(started, 1200);

    assert!(cache.find_copy(&row(3, 555)).is_none());
    assert_eq!(cache.find_copy(&row(4, 556)).unwrap().message_id, 43);

    // The cache tidies up while it is used; the copy of row 4 stays in use.
    let mut waited = 1200;
    while released.lock().unwrap().is_empty() && waited < 6000 {
        waited += 100;
        wait_until(started, waited);
        assert_eq!(cache.find_copy(&row(4, 556)).unwrap().message_id, 43);
    }
    assert_eq!(*released.lock().unwrap(), [(3, 42)]);
    waited += 500;
    wait_until(started, waited);
    assert_eq!(cache.find_copy(&row(4, 556)).unwrap().message_id, 43);
    assert_eq!(*released.lock().unwrap(), [(3, 42)]);
}

#[test]
fn replaced_copy_is_released() {
    let released = std::sync::Arc::new(std::sync::Mutex::new(Vec::new()));
    let seen = released.clone();
    let mut cache = HotCopyCache::with_limits(-900, 60, MAX_COPIES, move |id, message_id, _cause| {
        seen.lock().unwrap().push((*id, message_id));
    });
    cache.keep_copy(&row(3, 555), 42);
    cache.keep_copy(&row(3, 555), 43);
    assert_eq!(cache.find_copy(&row(3, 555)).unwrap().message_id, 43);
    assert_eq!(*released.lock().unwrap(), [(3, 42)]);
}

#[test]
fn new_cache_is_built_with_the_limits_of_the_library() {
    // A copy kept in a new cache is still there after a second: the idle
    // time is the one of the library, not a shorter one.
    let mut cache = cache();
    cache.keep_copy(&row(3, 555), 42);
    cache.keep_copy(&row(4, 556), 43);
    let started = std::time::Instant::now();
    wait_until(started, 1200);
    assert_eq!(cache.find_copy(&row(3, 555)).unwrap().message_id, 42);
    assert_eq!(cache.find_copy(&row(4, 556)).unwrap().message_id, 43);
}

#[test]
fn cache_built_to_hold_nothing_keeps_nothing() {
    let mut cache = HotCopyCache::with_limits(-900, 16, 0, |_id, _message_id, _cause| {});
    let described = cache.keep_copy(&row(3, 555), 42);
    assert_eq!(described.message_id, 42);
    assert!(cache.find_copy(&row(3, 555)).is_none());
}
