use open_mpv::player::tracks::{
    is_sidecar_name, matching_sidecar_cancellable, sidecar_stem, AudioChoice, Neighbor,
    SubtitleChoice,
};

fn neighbors(names: &[(&str, bool)]) -> Vec<Neighbor> {
    names
        .iter()
        .map(|(name, regular)| Neighbor {
            name: name.as_bytes().to_vec(),
            regular: *regular,
        })
        .collect()
}

fn matching(names: &[(&str, bool)]) -> Option<String> {
    matching_sidecar_cancellable(b"/videos/movie.mkv", b"/videos", &neighbors(names), false)
        .map(|path| String::from_utf8(path).unwrap())
}

#[test]
fn exact_srt_sidecar_wins_over_language_and_webvtt_variants() {
    assert_eq!(
        matching(&[
            ("movie.mkv", true),
            ("movie.en.srt", true),
            ("movie.vtt", true),
            ("movie.srt", true),
        ]),
        Some("/videos/movie.srt".to_string())
    );
}

#[test]
fn sidecar_matching_rejects_prefix_collisions() {
    assert_eq!(
        matching(&[
            ("movie.mkv", true),
            ("movie2.srt", true),
            ("movie..srt", true),
            ("movie.en.vtt", true),
        ]),
        Some("/videos/movie.en.vtt".to_string())
    );
}

#[test]
fn sidecar_matching_cancellable_stops_on_flag() {
    assert_eq!(
        matching_sidecar_cancellable(
            b"/videos/movie.mkv",
            b"/videos",
            &neighbors(&[("movie.mkv", true), ("movie.srt", true)]),
            true,
        ),
        None
    );
}

#[test]
fn sidecar_matching_ignores_directories_and_non_subtitles() {
    assert_eq!(
        matching(&[
            ("movie.mkv", true),
            ("movie.srt", false), // directory, not regular file
            ("movie.txt", true),  // non-subtitle
            ("movie.en.vtt", true),
        ]),
        Some("/videos/movie.en.vtt".to_string())
    );
}

#[test]
fn sidecars_of_one_kind_are_taken_in_order_of_their_names() {
    assert_eq!(
        matching(&[("movie.EN.srt", true), ("movie.de.srt", true)]),
        Some("/videos/movie.de.srt".to_string())
    );
    assert_eq!(
        matching(&[("movie.de.srt", true), ("movie.CS.srt", true)]),
        Some("/videos/movie.CS.srt".to_string())
    );
    assert_eq!(matching(&[]), None);
}

#[test]
fn names_that_are_no_text_have_no_sidecars() {
    assert_eq!(sidecar_stem(b"/videos/movie.mkv"), Some(b"movie".to_vec()));
    assert_eq!(sidecar_stem(b"/videos/mov\xffie.mkv"), None);
    assert!(is_sidecar_name(b"movie.en.srt", b"movie"));
    assert!(!is_sidecar_name(b"movie.mkv", b"movie"));
}

#[test]
fn targets_name_their_choices() {
    for choice in [
        SubtitleChoice::Automatic,
        SubtitleChoice::Off,
        SubtitleChoice::Track("off".into()),
        SubtitleChoice::Track(String::new()),
    ] {
        assert_eq!(
            SubtitleChoice::of_target(&choice.action_target()),
            Some(choice)
        );
    }
    assert_eq!(SubtitleChoice::of_target("nonsense"), None);
    assert_eq!(
        AudioChoice::of_target("track:commentary"),
        Some(AudioChoice::Track("commentary".into()))
    );
    assert_eq!(AudioChoice::of_target("auto"), Some(AudioChoice::Automatic));
    assert_eq!(AudioChoice::of_target("off"), None);
}
