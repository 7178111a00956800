use open_mpv::config::{
    decimal_requests, image_extension_list, is_image, is_subtitle, is_supported, is_video, Config,
    FitMode, SortOrder, Warning,
};
use open_mpv::number::Real;

/// Reads a configuration with the decimal numbers that it asks for.
fn parse(text: &str) -> (Config, Vec<Warning>) {
    let readings = decimal_requests(text)
        .into_iter()
        .map(|asked| {
            asked
                .and_then(|number| number.parse::<f64>().ok())
                .map(|number| Real::new(number.to_bits()))
        })
        .collect();
    Config::parse(text, &readings)
}

fn number(value: Real) -> f64 {
    f64::from_bits(value.bits)
}

#[test]
fn defaults_on_empty() {
    let (c, warnings) = parse("");
    assert!(warnings.is_empty());
    assert_eq!(c.background, "#121212");
    assert_eq!(c.sort.order, SortOrder::Name);
    assert!(!c.sort.reverse);
    assert!(!c.wrap);
    assert_eq!(c.fit, FitMode::Fit);
    assert_eq!(number(c.overlay_timeout), 2.0);
    assert_eq!(c.cache_budget_mb, 256);
    assert!(c.binds.is_empty());
}

#[test]
fn parses_options_and_binds() {
    let text = "\n# comment\nbackground = #000000\nsort=date\nsort-reverse=yes\nwrap=yes\nfit=actual\noverlay-timeout=1.5\nhide-cursor=no\nloop=no\nstart-fullscreen=yes\nvolume=70\ncache-budget-mb=64\nbind=n next\nbind=BackSpace prev\n";
    let (c, warnings) = parse(text);
    assert!(warnings.is_empty());
    assert_eq!(c.cache_budget_mb, 64);
    assert_eq!(c.background, "#000000");
    assert_eq!(c.sort.order, SortOrder::Date);
    assert!(c.wrap);
    assert_eq!(c.fit, FitMode::Actual);
    assert_eq!(number(c.overlay_timeout), 1.5);
    assert!(c.sort.reverse);
    assert!(!c.hide_cursor);
    assert!(!c.loop_video);
    assert!(c.start_fullscreen);
    assert_eq!(number(c.volume) / 100.0, 0.7);
    assert_eq!(c.binds.get("n").map(String::as_str), Some("next"));
    assert_eq!(c.binds.get("BackSpace").map(String::as_str), Some("prev"));
}

#[test]
fn malformed_lines_are_skipped() {
    let text = "nonsense\nsort=upside-down\nwrap=maybe\nbind=x\nunknown=1\ncache-budget-mb=lots\nvolume=999\nloop=perhaps\nsort=date\n";
    let (c, warnings) = parse(text);
    // The one valid line still applies; everything else falls back.
    assert_eq!(c.sort.order, SortOrder::Date);
    assert_eq!(c.cache_budget_mb, 256);
    assert!(!c.wrap);
    // Out-of-range and unparseable values keep their defaults.
    assert_eq!(number(c.volume) / 100.0, 1.0);
    assert!(c.loop_video);
    assert!(c.binds.is_empty());
    assert_eq!(warnings.len(), 8);
    assert_eq!(warnings[0].line, 1);
    assert_eq!(warnings[7].line, 8);
}

#[test]
fn warnings_name_their_line() {
    let (_, warnings) = parse("wrap=yes\nsort=upside-down\n");
    assert_eq!(warnings.len(), 1);
    assert_eq!(warnings[0].line, 2);
    assert_eq!(warnings[0].text, "sort=upside-down");
    let said = warnings[0].describe("open-mpv.conf");
    assert!(said.starts_with("open-mpv: open-mpv.conf:2: ignoring `sort=upside-down`: "), "{said}");
}

#[test]
fn later_binds_replace_earlier_ones() {
    let (c, _) = parse("bind=n next\nbind=n prev\nbind=a first\n");
    assert_eq!(c.binds.len(), 2);
    assert_eq!(c.binds.key_at(0), "a");
    assert_eq!(c.binds.get("n").map(String::as_str), Some("prev"));
    assert!(c.binds.get("x").is_none());
}

#[test]
fn volumes_at_the_limits_are_accepted() {
    for (text, expected) in [("volume=0", 0.0), ("volume=150", 150.0), ("volume=150.5", 100.0), ("volume=-1", 100.0), ("volume=nan", 100.0)] {
        assert_eq!(number(parse(text).0.volume), expected, "{text}");
    }
}

#[test]
fn supported_extensions() {
    assert!(is_supported(b"a/b/photo.JPG"));
    assert!(is_supported(b"scan.jpeg"));
    assert!(is_supported(b"scan.JPEG"));
    assert!(is_supported(b"anim.webp"));
    assert!(is_supported(b"v.svgz"));
    // Formats the installed loaders decode that the allowlist used to
    // refuse on extension alone.
    assert!(is_supported(b"IMG_0042.HEIC"));
    assert!(is_supported(b"photo.jxl"));
    assert!(is_supported(b"scan.tiff"));
    assert!(!is_supported(b"doc.pdf"));
    assert!(!is_supported(b"noext"));
}

#[test]
fn video_extensions() {
    assert!(is_video(b"clip.mp4"));
    assert!(is_video(b"CLIP.MKV"));
    assert!(is_video(b"a/b.webm"));
    assert!(is_video(b"v.mov"));
    assert!(!is_video(b"photo.jpg"));
    assert!(!is_image(b"clip.mp4"));
    // Videos are supported paths, but never images.
    assert!(is_supported(b"clip.mp4"));
}

#[test]
fn every_listed_extension_is_an_image() {
    for extension in image_extension_list() {
        let path = format!("folder.d/x.{extension}");
        assert!(is_image(path.as_bytes()), "{path}");
        assert!(!is_video(path.as_bytes()), "{path}");
    }
    assert!(!is_image(b".jpg"), "a hidden file has no extension");
    assert!(is_image(b"folder/photo.jpg/"), "a trailing slash does not matter");
}

#[test]
fn only_srt_and_webvtt_are_subtitles() {
    assert!(is_subtitle(b"movie.srt"));
    assert!(is_subtitle(b"movie.VTT"));
    assert!(!is_subtitle(b"movie.ass"));
    assert!(!is_subtitle(b"srt"));
}

#[test]
fn a_bad_line_can_be_left_out() {
    let (with, said) = parse("volume=50\nnonsense\nwrap=maybe\nbind=x close");
    let (without, silent) = parse("volume=50\nbind=x close");
    assert_eq!(said.len(), 2);
    assert!(silent.is_empty());
    assert_eq!(number(with.volume), number(without.volume));
    assert_eq!(with.wrap, without.wrap);
    assert_eq!(with.binds.get("x"), without.binds.get("x"));
}
