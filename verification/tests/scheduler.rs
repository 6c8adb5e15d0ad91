use sysmon::scheduler::{Action, Event, Phase, Scheduler};

#[test]
fn scheduler_collects_at_once() {
    let scheduler = Scheduler::new(3600);
    assert_eq!(scheduler.current_phase(), Phase::Collecting);
    assert_eq!(scheduler.action(), Action::CollectAndSend);
}

#[test]
fn scheduler_sleeps_after_a_delivery() {
    let mut scheduler = Scheduler::new(3600);
    scheduler.advance(Event::Delivered);
    assert_eq!(scheduler.current_phase(), Phase::Sleeping);
    assert_eq!(scheduler.action(), Action::Sleep(3600));
}

#[test]
fn failed_delivery_does_not_end_the_loop() {
    let mut scheduler = Scheduler::new(15);
    scheduler.advance(Event::DeliveryFailed);
    assert_eq!(scheduler.action(), Action::Sleep(15));
    scheduler.advance(Event::Woke);
    assert_eq!(scheduler.action(), Action::CollectAndSend);
}

#[test]
fn cycles_go_on_whatever_happens() {
    let mut scheduler = Scheduler::new(1);
    let mut actions = Vec::new();
    for outcome in [Event::Delivered, Event::DeliveryFailed, Event::DeliveryFailed, Event::Delivered] {
        actions.push(scheduler.action());
        scheduler.advance(outcome);
        actions.push(scheduler.action());
        scheduler.advance(Event::Woke);
    }
    let cycle = [Action::CollectAndSend, Action::Sleep(1)];
    assert_eq!(actions, [cycle, cycle, cycle, cycle].concat());
}

#[test]
fn event_out_of_place_changes_nothing() {
    let mut scheduler = Scheduler::new(1);
    scheduler.advance(Event::Woke);
    assert_eq!(scheduler.current_phase(), Phase::Collecting);
    scheduler.advance(Event::Delivered);
    scheduler.advance(Event::Delivered);
    scheduler.advance(Event::DeliveryFailed);
    assert_eq!(scheduler.current_phase(), Phase::Sleeping);
}
