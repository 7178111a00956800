use open_mpv::log::enabled_for;

#[test]
fn logging_is_on_unless_explicitly_disabled() {
    assert!(enabled_for(None));
    assert!(enabled_for(Some(b"")));
    assert!(enabled_for(Some(b"1")));
    assert!(!enabled_for(Some(b"0")));
}
