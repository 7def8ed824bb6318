use shooter::schedule::{TickConfig, TickInfo, TickState};

fn info(acc_ns: u64) -> TickInfo {
    let mut t = TickInfo::new(TickConfig { budget_ns: 100_000_000, interval_ns: 16_666_667 });
    t.begin_frame(acc_ns);
    t
}

#[test]
fn zero_elapsed_runs_no_tick() {
    let mut t = info(5_000_000);
    t.begin_frame(0);
    assert_eq!(t.acc_ns, 5_000_000);
    assert!(!t.next_tick(0));
    assert_eq!(t.acc_ns, 5_000_000);
}

#[test]
fn due_steps_run_while_the_budget_lasts() {
    let mut t = info(3 * 16_666_667 + 10);
    let mut ticks = 0;
    while t.next_tick(0) {
        ticks += 1;
    }
    assert_eq!(ticks, 3);
    assert_eq!(t.acc_ns, 10);
}

#[test]
fn a_step_exactly_due_runs() {
    let mut t = info(16_666_667);
    assert!(t.next_tick(0));
    assert_eq!(t.acc_ns, 0);
}

#[test]
fn catch_up_stops_on_a_tiny_budget_and_keeps_the_rest() {
    let mut t = TickInfo::new(TickConfig { budget_ns: 1, interval_ns: 10 });
    t.begin_frame(1_000_000);
    let readings = [0u64, 1, 2, 3, 4];
    let mut ticks = 0;
    for spent in readings {
        if !t.next_tick(spent) {
            break;
        }
        ticks += 1;
    }
    assert_eq!(ticks, 2);
    assert_eq!(t.acc_ns, 1_000_000 - 20);
    t.begin_frame(0);
    assert!(t.next_tick(0));
    assert_eq!(t.acc_ns, 1_000_000 - 30);
}

#[test]
fn pending_ticks_count_down_and_number_up() {
    let mut s = TickState::new();
    s.add_pending(2, Some(u16::MAX));
    assert_eq!(s.ticks_pending, 2);
    assert_eq!(s.next_tick(0, 10), Some(u16::MAX));
    assert_eq!(s.next_tick(11, 10), None);
    assert_eq!(s.next_tick(5, 10), Some(0));
    assert_eq!(s.next_tick(0, 10), None);
    assert_eq!(s.ticks_pending, 0);
    assert_eq!(s.cur_tick, 1);
    s.add_pending(1, None);
    assert_eq!(s.cur_tick, 1);
    assert_eq!(s.ticks_pending, 1);
}
