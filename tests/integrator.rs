use rtwk::trace::{bounce_budget, next_step, shade, Event, Step};

const EVENTS: [Event; 3] = [Event::Missed, Event::Absorbed, Event::Scattered];

#[test]
fn exhausted_depth_is_black_for_every_event() {
    for e in EVENTS {
        assert_eq!(next_step(0, e), Step::Black);
    }
}

#[test]
fn miss_takes_the_sky() {
    assert_eq!(next_step(1, Event::Missed), Step::Sky);
    assert_eq!(next_step(50, Event::Missed), Step::Sky);
}

#[test]
fn absorption_is_black() {
    assert_eq!(next_step(50, Event::Absorbed), Step::Black);
}

#[test]
fn scatter_spends_one_bounce() {
    assert_eq!(next_step(50, Event::Scattered), Step::Bounce(49));
    assert_eq!(next_step(1, Event::Scattered), Step::Bounce(0));
}

#[test]
fn budget_counts_down() {
    assert_eq!(bounce_budget(0), None);
    assert_eq!(bounce_budget(1), Some(0));
    assert_eq!(bounce_budget(usize::MAX), Some(usize::MAX - 1));
}

#[test]
fn shade_by_event() {
    assert_eq!(shade(4, Event::Missed), Step::Sky);
    assert_eq!(shade(4, Event::Absorbed), Step::Black);
    assert_eq!(shade(4, Event::Scattered), Step::Bounce(4));
}

#[test]
fn always_scattering_path_stops_after_depth_bounces() {
    let mut depth = 5usize;
    let mut bounces = 0usize;
    loop {
        match next_step(depth, Event::Scattered) {
            Step::Bounce(d) => {
                bounces += 1;
                depth = d;
            }
            other => {
                assert_eq!(other, Step::Black);
                break;
            }
        }
    }
    assert_eq!(bounces, 5);
}
