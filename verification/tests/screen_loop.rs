use yazelix_screen::screen_loop::{
    animation_poll_delay_ns, duration_reached, frame_share_ns, screen_loop_step, wait_poll_delay_ns,
    LogoLoop, ScreenLoopStep, WAIT_POLL_SLICE_MS,
};
use yazelix_screen::welcome::logo_frames;

#[test]
fn a_key_stops_before_a_resize_is_noticed() {
    assert_eq!(screen_loop_step(true, 80, 24, 100, 30), ScreenLoopStep::Stop);
    assert_eq!(
        screen_loop_step(false, 80, 24, 100, 24),
        ScreenLoopStep::Resize { width: 100, height: 24 }
    );
    assert_eq!(
        screen_loop_step(false, 80, 24, 80, 30),
        ScreenLoopStep::Resize { width: 80, height: 30 }
    );
    assert_eq!(screen_loop_step(false, 80, 24, 80, 24), ScreenLoopStep::Advance);
}

#[test]
fn requested_durations_bound_the_waits() {
    const MS: u128 = 1_000_000;
    assert!(!duration_reached(2_999_999_999, 3));
    assert!(duration_reached(3_000_000_000, 3));
    assert_eq!(animation_poll_delay_ns(70, 0, None), 70 * MS);
    assert_eq!(animation_poll_delay_ns(70, 1_000 * MS, Some(3)), 70 * MS);
    assert_eq!(animation_poll_delay_ns(70, 2_950 * MS + 1, Some(3)), 50 * MS - 1);
    assert_eq!(animation_poll_delay_ns(70, 3_500 * MS, Some(3)), 0);
    assert_eq!(wait_poll_delay_ns(0, 1), Some(WAIT_POLL_SLICE_MS as u128 * MS));
    assert_eq!(wait_poll_delay_ns(950 * MS, 1), Some(50 * MS));
    assert_eq!(wait_poll_delay_ns(1_000 * MS, 1), None);
    assert_eq!(frame_share_ns(1, 3), 333_333_333);
    assert_eq!(frame_share_ns(3, 3), 1_000_000_000);
    assert_eq!(
        std::time::Duration::from_nanos(frame_share_ns(1, 3) as u64),
        std::time::Duration::from_secs(1) / 3
    );
    assert_eq!(frame_share_ns(u64::MAX, 1), u64::MAX as u128 * 1_000_000_000);
}

#[test]
fn logo_loop_cycles_and_restarts_on_resize() {
    let frames = logo_frames(80, 24);
    let mut logo = LogoLoop::new(80, 24);
    assert_eq!(logo.current_frame(), &frames[0]);
    assert!(logo.step(false, 80, 24));
    assert_eq!(logo.current_frame(), &frames[1]);
    assert!(logo.step(false, 80, 24));
    assert_eq!(logo.current_frame(), &frames[2]);
    assert!(logo.step(false, 80, 24));
    assert_eq!(logo.current_frame(), &frames[0]);
    assert!(logo.step(false, 80, 24));
    assert_eq!(logo.current_frame(), &frames[1]);

    assert!(logo.step(false, 40, 12));
    assert_eq!(logo.current_frame(), &logo_frames(40, 12)[0]);
    assert!(!logo.step(true, 40, 12));
    assert_eq!(logo.current_frame(), &logo_frames(40, 12)[0]);
}
