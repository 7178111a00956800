use open_mpv::window::animation::Playback;

#[test]
fn user_pause_survives_suspension_and_waits_for_resume() {
    let mut playback = Playback::default();
    let mut woken = 0;
    woken += usize::from(playback.toggle());
    assert_eq!(playback.ready(), None);
    assert_eq!(woken, 0);
    woken += usize::from(playback.suspend(true));
    assert_eq!(playback.ready(), None);
    woken += usize::from(playback.suspend(false));
    assert!(playback.paused());
    assert_eq!(playback.ready(), None);
    woken += usize::from(playback.toggle());
    assert_eq!(playback.ready(), Some(true));
    assert_eq!(woken, 3);
}

#[test]
fn suspension_alone_resumes_and_stop_wakes_a_paused_loop() {
    let mut playback = Playback::default();
    playback.suspend(true);
    assert_eq!(playback.ready(), None);
    playback.suspend(false);
    assert!(!playback.paused());
    assert_eq!(playback.ready(), Some(true));
    playback.toggle();
    assert_eq!(playback.ready(), None);
    assert!(playback.stop(), "a waiting loop is woken");
    assert_eq!(playback.ready(), Some(false));
}

#[test]
fn a_stopped_animation_stays_stopped() {
    let mut playback = Playback::default();
    assert!(!playback.stop());
    playback.toggle();
    playback.suspend(true);
    assert_eq!(playback.ready(), Some(false));
}
