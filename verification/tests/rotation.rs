use cache_broker::bots::RoundRobinBot;

fn pool(names: &[&str]) -> RoundRobinBot {
    RoundRobinBot::new(names.iter().map(|n| n.to_string()).collect())
}

#[test]
fn every_identity_once_in_list_order_then_the_first_again() {
    let mut rotator = pool(&["a", "b", "c"]);
    assert_eq!(rotator.pool_size(), 3);
    assert_eq!(rotator.get_bot(), "a");
    assert_eq!(rotator.get_bot(), "b");
    assert_eq!(rotator.get_bot(), "c");
    assert_eq!(rotator.get_bot(), "a");
}

#[test]
fn pool_of_one_hands_out_the_same_identity() {
    let mut rotator = pool(&["only"]);
    for _ in 0..5 {
        assert_eq!(rotator.get_bot(), "only");
    }
}

#[test]
fn many_rounds_stay_in_step() {
    let mut rotator = pool(&["a", "b", "c", "d", "e"]);
    let names = ["a", "b", "c", "d", "e"];
    for turn in 0..23 {
        assert_eq!(rotator.get_bot(), names[turn % 5]);
    }
}

#[test]
fn empty_pool_has_size_zero() {
    let rotator = pool(&[]);
    assert_eq!(rotator.pool_size(), 0);
}
