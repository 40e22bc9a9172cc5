use pipulse::input::apply_keys;
use pipulse::history::{push_sample, Dashboard, HISTORY_LEN};
use pipulse::input::{apply_event, key_event, ButtonEvent, ButtonReader, NavKey};
use pipulse::ui::Page;
use std::collections::VecDeque;

#[test]
fn press_fires_on_falling_edge_only() {
    let mut r = ButtonReader::new(true, true);
    assert_eq!(r.poll(true, true), ButtonEvent::Idle);
    assert_eq!(r.poll(false, true), ButtonEvent::Prev);
    // held down: no repeat
    assert_eq!(r.poll(false, true), ButtonEvent::Idle);
    // released: no event
    assert_eq!(r.poll(true, true), ButtonEvent::Idle);
    assert_eq!(r.poll(true, false), ButtonEvent::Next);
    assert_eq!(r.poll(true, false), ButtonEvent::Idle);
}

#[test]
fn button_held_at_start_gives_no_press() {
    let mut r = ButtonReader::new(false, false);
    assert_eq!(r.poll(false, false), ButtonEvent::Idle);
}

#[test]
fn button_a_wins_when_both_fall() {
    let mut r = ButtonReader::new(true, true);
    assert_eq!(r.poll(false, false), ButtonEvent::Prev);
    assert_eq!(r.poll(false, false), ButtonEvent::Idle);
}

#[test]
fn keys_navigate() {
    assert_eq!(key_event(NavKey::Right), ButtonEvent::Next);
    assert_eq!(key_event(NavKey::D), ButtonEvent::Next);
    assert_eq!(key_event(NavKey::Left), ButtonEvent::Prev);
    assert_eq!(key_event(NavKey::A), ButtonEvent::Prev);
    assert_eq!(key_event(NavKey::Other), ButtonEvent::Idle);
}

#[test]
fn events_move_pages_and_undo() {
    for p in [Page::Overview, Page::Network] {
        assert_eq!(apply_event(p, ButtonEvent::Idle), p);
        assert_eq!(apply_event(apply_event(p, ButtonEvent::Next), ButtonEvent::Prev), p);
        assert_eq!(apply_event(apply_event(p, ButtonEvent::Prev), ButtonEvent::Next), p);
    }
    assert_eq!(apply_event(Page::Overview, ButtonEvent::Next), Page::Network);
}

#[test]
fn history_keeps_the_newest_forty() {
    let mut h = VecDeque::new();
    for x in 0..45u64 {
        push_sample(&mut h, x);
        assert!(h.len() <= HISTORY_LEN);
    }
    let v: Vec<u64> = h.iter().copied().collect();
    assert_eq!(v, (5..45u64).collect::<Vec<_>>());
}

#[test]
fn history_below_capacity_keeps_all() {
    let mut h = VecDeque::new();
    push_sample(&mut h, 7);
    push_sample(&mut h, 9);
    assert_eq!(h, VecDeque::from(vec![7, 9]));
}

#[test]
fn dashboard_step() {
    let mut d = Dashboard::new();
    assert_eq!(d.page, Page::Overview);
    d.step(ButtonEvent::Next, 100, 200);
    assert_eq!(d.page, Page::Network);
    d.step(ButtonEvent::Idle, 300, 400);
    assert_eq!(d.page, Page::Network);
    assert_eq!(d.rx_history, VecDeque::from(vec![100, 300]));
    assert_eq!(d.tx_history, VecDeque::from(vec![200, 400]));
}

#[test]
fn key_batches_apply_in_order() {
    assert_eq!(apply_keys(Page::Overview, &vec![]), Page::Overview);
    assert_eq!(apply_keys(Page::Overview, &vec![NavKey::Right]), Page::Network);
    assert_eq!(apply_keys(Page::Overview, &vec![NavKey::Right, NavKey::Other, NavKey::A]), Page::Overview);
    assert_eq!(apply_keys(Page::Network, &vec![NavKey::D, NavKey::Left, NavKey::Left]), Page::Overview);
}

#[test]
fn holding_a_press_over_many_polls() {
    let mut r = ButtonReader::new(true, true);
    let events: Vec<ButtonEvent> = [(true, true), (false, true), (false, true), (false, true), (false, true)]
        .iter()
        .map(|&(a, b)| r.poll(a, b))
        .collect();
    assert_eq!(events.iter().filter(|e| **e == ButtonEvent::Prev).count(), 1);
    assert_eq!(events[1], ButtonEvent::Prev);
}

#[test]
fn both_pressed_loses_b() {
    let mut r = ButtonReader::new(true, true);
    assert_eq!(r.poll(false, false), ButtonEvent::Prev);
    for _ in 0..3 {
        assert_eq!(r.poll(false, false), ButtonEvent::Idle);
    }
    assert_eq!(r.poll(true, false), ButtonEvent::Idle);
}
