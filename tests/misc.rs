use shooter::animation::AnimationIndices;
use shooter::config::Config;
use shooter::net::{Auth, Protocol};
use shooter::player::Player;

#[test]
fn trigger_starts_and_stops_the_shot_timer() {
    let mut p = Player::new();
    assert_eq!(p.shots_due(16_666_667), 0);
    p.apply_trigger(true);
    assert_eq!(p.shot_acc.as_ref().unwrap().accumulated_ns(), 100_000_000);
    assert_eq!(p.shots_due(16_666_667), 1);
    assert_eq!(p.shot_acc.as_ref().unwrap().accumulated_ns(), 16_666_667);
    p.apply_trigger(true);
    assert_eq!(p.shot_acc.as_ref().unwrap().accumulated_ns(), 16_666_667);
    for _ in 0..4 {
        assert_eq!(p.shots_due(16_666_667), 0);
    }
    assert_eq!(p.shots_due(16_666_667), 1);
    p.apply_trigger(false);
    assert!(p.shot_acc.is_none());
    assert_eq!(p.shots_due(16_666_667), 0);
}

#[test]
fn animation_runs_back_and_forth() {
    let mut a = AnimationIndices { first: 0, last: 2, direction: 1 };
    let mut i = 1;
    let mut seen = Vec::new();
    for _ in 0..6 {
        i = a.next_index(i);
        seen.push(i);
    }
    assert_eq!(seen, vec![2, 1, 0, 1, 2, 1]);
}

#[test]
fn auth_keeps_the_token() {
    let a = Auth::new("token-content");
    assert_eq!(a.token, "token-content");
    match Protocol::Auth(a) {
        Protocol::Auth(inner) => assert_eq!(inner.token, "token-content"),
    }
    let c = Config { server: Some("127.0.0.1:5323".to_string()) };
    assert_eq!(c.server.as_deref(), Some("127.0.0.1:5323"));
    assert!(!shooter::config::Debug { enabled: false }.enabled);
}
