use open_mpv::annotation::{Status, Tool};
use open_mpv::config::{
    image_extension_list, is_supported, video_extension_list, Sort, SortOrder,
};
use open_mpv::folder::{DirectoryEntry, Folder, Navigation};
use open_mpv::loader::scheduler::Interest;
use open_mpv::loader::{Cache, DecodedKind};
use open_mpv::number::Real;
use open_mpv::paths::join;
use open_mpv::player::playback_rates;
use open_mpv::player::tracks::{
    AudioChoice, AudioSnapshot, AudioTrack, SubtitleChoice, SubtitleSnapshot, SubtitleTrack,
};
use open_mpv::viewer::{FitPolicy, Medium, State};
use open_mpv::window::action::{Action, Command, Media};
use open_mpv::window::command::{
    audio_notice, execute_command, mute_notice, playback_notice, subtitle_notice, Situation, Task,
};
use open_mpv::window::controls::{
    cache_budget_bytes, control_mode, cursor_name, fit_seek_bar, pan_cursor_name, resize_edge_at,
    save_availability, save_control_visible, Edge, Fit, FitStep, Savable, SEEK_BAR_MAX_WIDTH,
};
use open_mpv::window::help::{help_line, help_rows, help_text, HelpRow};
use open_mpv::window::menu::{
    audio_menu, context_menu, more_menu_model, open_menu_model, playback_speed_menu,
    subtitle_menu,
};
use open_mpv::window::overlay::{chrome_is_held, Overlay, PointerEvent};
use open_mpv::window::readout::{
    adjacent_playback_rate, audio_choice_text, format_playback_rate, format_time, position_text,
    progress_text, subtitle_choice_text, volume_text,
};
use open_mpv::window::workspace::{
    current_path, dialog_initial_folder_path, empty_state, error_text, excluded_path_message,
    looks_like_subtitle, markup_notice, navigate, neighbors_to_decode, plan_attach, plan_decode_failure, plan_decoded,
    plan_drop, plan_media_choice, plan_open_file, plan_open_folder, plan_player_event, plan_show,
    plan_subtitle_choice, position_label, preload_neighbors, show_error, shown_name, skip_target,
    supported_media_extensions, toggle_markup, workspace_state, Arrival, ChoicePlan, DecodedPlan,
    Direction, DropPlan, Existence, MarkupToggle, MediaState, NavigatePlan, OpenPlan, PlayerEvent,
    PlayerPlan, ShowPlan, SKIP_BUDGET,
};

const DIR: &[u8] = b"/pictures";

fn in_dir(name: &str) -> Vec<u8> {
    join(DIR, name.as_bytes())
}

fn navigation_of(files: &[&str]) -> Navigation {
    let listing = files
        .iter()
        .map(|name| DirectoryEntry {
            name: name.as_bytes().to_vec(),
            regular: true,
            modified: 0,
        })
        .collect();
    let mut navigation = Navigation::default();
    navigation.install(Folder::scan(
        DIR,
        &listing,
        Sort {
            order: SortOrder::Name,
            reverse: false,
        },
    ));
    navigation
}

#[test]
fn arrows_work_when_nothing_is_on_screen() {
    // Opening an unsupported file loads the folder but never lands on
    // an image, leaving the media state empty. The arrows used to go dead:
    // navigation bailed out on the missing current index.
    let mut navigation = navigation_of(&["a.jpg", "b.jpg", "c.jpg"]);
    assert_eq!(
        navigation.next(false),
        Some(0),
        "right enters at the first image"
    );
    assert_eq!(navigation.prev(false), Some(2), "left enters at the last");
    // Normal stepping is unchanged.
    navigation.select(0).unwrap();
    assert_eq!(navigation.next(false), Some(1));
    navigation.select(2).unwrap();
    assert_eq!(navigation.next(false), None);
    assert_eq!(navigation.next(true), Some(0));
}

#[test]
fn excluded_paths_report_why_they_cannot_open() {
    assert_eq!(
        excluded_path_message(&in_dir("gone.mp4"), &Existence::Missing),
        "file does not exist"
    );
    assert_eq!(
        excluded_path_message(&in_dir("notes.txt"), &Existence::Present),
        "unsupported file type"
    );
    assert_eq!(
        excluded_path_message(&in_dir("folder.jpg"), &Existence::Present),
        "not a regular file"
    );
    assert_eq!(
        excluded_path_message(&in_dir("a.jpg"), &Existence::Unknown("denied".into())),
        "cannot access path: denied"
    );
}

#[test]
fn unsupported_subtitle_drops_are_kept_non_modal() {
    assert!(looks_like_subtitle(b"movie.ASS"));
    assert!(looks_like_subtitle(b"movie.ssa"));
    assert!(!looks_like_subtitle(b"movie.mkv"));
}

#[test]
fn open_choosers_start_from_the_current_folder() {
    assert_eq!(
        dialog_initial_folder_path(Some(&in_dir("photo.jpg")), false),
        Some(DIR.to_vec())
    );
    assert_eq!(
        dialog_initial_folder_path(Some(DIR), true),
        Some(DIR.to_vec()),
        "a folder error should reopen that folder, not its parent"
    );
    assert_eq!(dialog_initial_folder_path(None, false), None);
}

#[test]
fn open_file_filter_receives_every_supported_extension() {
    let actual = supported_media_extensions();
    let mut expected = image_extension_list();
    expected.extend(video_extension_list());

    assert_eq!(actual, expected);
    for extension in actual {
        assert!(is_supported(format!("sample.{extension}").as_bytes()));
    }
    assert!(!is_supported(b"photo.jpeg.exe"));
}

fn check_open_menu() {
    let menu = open_menu_model();
    assert_eq!(menu.len(), 2);
    assert_eq!(menu[0].action, "win.open-file");
    assert_eq!(menu[1].action, "win.open-folder");
}

#[test]
fn window_both_open_actions_share_the_more_and_context_menu_model() {
    check_open_menu();
}

#[test]
fn assembly_both_open_actions_share_the_more_and_context_menu_model() {
    check_open_menu();
}

fn subtitles(tracks: &[(&str, &str)], choice: SubtitleChoice, active: Option<&str>) -> SubtitleSnapshot {
    SubtitleSnapshot {
        tracks: tracks
            .iter()
            .map(|(id, label)| SubtitleTrack {
                id: id.to_string(),
                label: label.to_string(),
            })
            .collect(),
        choice,
        active_label: active.map(str::to_string),
    }
}

fn audio(tracks: &[(&str, &str)], choice: AudioChoice, active: Option<&str>) -> AudioSnapshot {
    AudioSnapshot {
        tracks: tracks
            .iter()
            .map(|(id, label)| AudioTrack {
                id: id.to_string(),
                label: label.to_string(),
            })
            .collect(),
        choice,
        active_label: active.map(str::to_string),
    }
}

#[test]
fn subtitle_menu_always_offers_add_and_right_click_uses_it_for_video() {
    let empty = subtitles(&[], SubtitleChoice::Automatic, None);
    let menu = subtitle_menu(&empty);
    assert!(menu.choices.is_empty());
    assert_eq!(menu.add.action, "win.subtitle-open");

    let with_track = subtitles(
        &[("english", "English")],
        SubtitleChoice::Automatic,
        Some("English"),
    );
    let menu = subtitle_menu(&with_track);
    assert_eq!(menu.add.action, "win.subtitle-open");
    assert_eq!(menu.choices.len(), 3);
    assert_eq!(menu.choices[1].target.as_deref(), Some("off"));
    assert_eq!(menu.choices[2].target.as_deref(), Some("track:english"));

    assert!(!context_menu(false, false, 0).subtitles);
    assert!(context_menu(false, true, 0).subtitles);
}

#[test]
fn audio_menu_appears_only_for_multiple_tracks() {
    assert!(!context_menu(false, true, 1).audio);
    let multiple = audio(
        &[("english", "English"), ("commentary", "Director Commentary")],
        AudioChoice::Automatic,
        None,
    );
    assert!(context_menu(false, true, multiple.tracks.len()).audio);
    assert!(!context_menu(false, false, multiple.tracks.len()).audio);
    let choices = audio_menu(&multiple);
    assert_eq!(choices.len(), 3);
    assert_eq!(choices[2].action, "win.audio");
    assert_eq!(choices[2].label, "Director Commentary");
    assert_eq!(choices[2].target.as_deref(), Some("track:commentary"));
}

#[test]
fn quick_markup_is_absent_instead_of_disabled_for_unsupported_media() {
    assert!(context_menu(false, false, 0).markup.is_empty());
    let markup = context_menu(true, false, 0).markup;
    assert_eq!(markup.len(), 1);
    assert_eq!(markup[0].action, "win.markup");
    assert_eq!(more_menu_model().len(), 6);
    assert_eq!(more_menu_model()[5].action, "win.last");
}

#[test]
fn an_empty_folder_has_nowhere_to_enter() {
    let navigation = navigation_of(&["notes.txt"]);
    assert_eq!(navigation.next(false), None);
    assert_eq!(navigation.prev(true), None);
}

#[test]
fn undecodable_files_are_stepped_over_only_while_navigating() {
    let navigation = navigation_of(&["a.jpg", "b.jpg", "c.jpg"]);
    let step = |direction, budget| Arrival::Step { direction, budget };

    // Opened directly: the error is the answer.
    assert_eq!(skip_target(&navigation, 1, Arrival::Direct, false), None);
    // Stepping: carry on the way the user was already going.
    assert_eq!(
        skip_target(&navigation, 1, step(Direction::Next, SKIP_BUDGET), false),
        Some(2)
    );
    assert_eq!(
        skip_target(
            &navigation,
            1,
            step(Direction::Previous, SKIP_BUDGET),
            false,
        ),
        Some(0)
    );
    // Nowhere further to step.
    assert_eq!(
        skip_target(&navigation, 2, step(Direction::Next, SKIP_BUDGET), false),
        None
    );
    // A folder of unreadable files must stop, not spin — especially
    // with wrap on, where there is always a next index.
    assert_eq!(
        skip_target(&navigation, 1, step(Direction::Next, 1), true),
        Some(2)
    );
    assert_eq!(
        skip_target(&navigation, 1, step(Direction::Next, 0), true),
        None
    );
}

#[test]
fn stepping_over_files_spends_the_budget() {
    let mut navigation = navigation_of(&["a.jpg", "b.jpg"]);
    navigation.select(0).unwrap();
    let mut arrival = Arrival::Step {
        direction: Direction::Next,
        budget: SKIP_BUDGET,
    };
    let mut steps = 0;
    while let Some(step) = plan_decode_failure(&navigation, arrival, true) {
        navigation.select(step.index).unwrap();
        arrival = step.arrival;
        steps += 1;
    }
    assert_eq!(steps, SKIP_BUDGET);
    assert_eq!(
        plan_decode_failure(&navigation, Arrival::Direct, true),
        None
    );
}

#[test]
fn navigation_ends_with_a_word() {
    let mut navigation = navigation_of(&["a.jpg", "b.jpg"]);
    let NavigatePlan::Show(step) = navigate(&navigation, Direction::Previous, false) else {
        panic!("expected a file");
    };
    assert_eq!(step.index, 1);
    navigation.select(1).unwrap();
    assert_eq!(
        navigate(&navigation, Direction::Next, false),
        NavigatePlan::End("Last image")
    );
    navigation.select(0).unwrap();
    assert_eq!(
        navigate(&navigation, Direction::Previous, false),
        NavigatePlan::End("First image")
    );
}

fn exactly(value: f64) -> Real {
    Real::new(value.to_bits())
}

#[test]
fn window_edges_are_grabbable() {
    // 400x300 window; the margin is 8 px.
    let at = |x, y| resize_edge_at(exactly(x), exactly(y), exactly(400.0 - 8.0), exactly(300.0 - 8.0));
    assert_eq!(at(200.0, 150.0), None, "the middle is not an edge");
    assert_eq!(at(0.0, 0.0), Some(Edge::NorthWest));
    assert_eq!(at(399.0, 299.0), Some(Edge::SouthEast));
    assert_eq!(at(2.0, 297.0), Some(Edge::SouthWest));
    assert_eq!(at(398.0, 3.0), Some(Edge::NorthEast));
    assert_eq!(at(200.0, 1.0), Some(Edge::North));
    assert_eq!(at(200.0, 299.0), Some(Edge::South));
    assert_eq!(at(1.0, 150.0), Some(Edge::West));
    assert_eq!(at(399.0, 150.0), Some(Edge::East));
    // Just inside the border is still the image, not a resize grab.
    assert_eq!(at(9.0, 150.0), None);
    assert_eq!(at(200.0, 291.0), None);
    assert_eq!(at(f64::NAN, 150.0), None);
}

#[test]
fn the_pointer_hides_with_the_overlay_but_never_over_a_resize_edge() {
    // Overlay up: ordinary pointer.
    assert_eq!(cursor_name(None, false, true, true), None);
    // Overlay faded: gone, mpv-style.
    assert_eq!(cursor_name(None, false, false, true), Some("none"));
    // Opted out via config.
    assert_eq!(cursor_name(None, false, false, false), None);
    // Drawing uses a crosshair even if ordinary chrome would hide it.
    assert_eq!(cursor_name(None, true, false, true), Some("crosshair"));
    // An edge always wins — hiding the pointer on the resize border
    // would make a frameless window impossible to grab.
    assert_eq!(
        cursor_name(Some(Edge::SouthEast), true, false, true),
        Some("se-resize")
    );
    assert_eq!(
        cursor_name(Some(Edge::North), true, true, true),
        Some("n-resize")
    );
}

#[test]
fn a_hand_shows_where_the_medium_can_be_panned() {
    assert_eq!(pan_cursor_name(None, true, false), Some("grab"));
    assert_eq!(pan_cursor_name(None, true, true), Some("grabbing"));
    assert_eq!(pan_cursor_name(None, false, false), None);
    assert_eq!(pan_cursor_name(Some("n-resize"), true, false), Some("n-resize"));
    assert_eq!(pan_cursor_name(Some("none"), true, false), Some("none"));
}

#[test]
fn video_speed_presets_are_bounded_rebindable_and_use_typed_targets() {
    assert_eq!(adjacent_playback_rate(100, -1), 75);
    assert_eq!(adjacent_playback_rate(100, 1), 125);
    assert_eq!(adjacent_playback_rate(50, -1), 50);
    assert_eq!(adjacent_playback_rate(200, 1), 200);
    assert_eq!(format_playback_rate(75), "0.75×");
    assert_eq!(format_playback_rate(100), "1×");

    let binds = Action::default_binds();
    assert!(binds.contains(&("bracketleft", Action::SpeedDown)));
    assert!(binds.contains(&("bracketright", Action::SpeedUp)));
    assert!(binds.contains(&("backslash", Action::SpeedReset)));

    let menu = playback_speed_menu();
    assert_eq!(menu.len(), playback_rates().len());
    for (index, rate) in playback_rates().iter().enumerate() {
        assert_eq!(menu[index].rate, *rate);
    }
}

#[test]
fn rates_drop_the_zeros_that_say_nothing() {
    assert_eq!(format_playback_rate(150), "1.5×");
    assert_eq!(format_playback_rate(5), "0.05×");
    assert_eq!(format_playback_rate(1000), "10×");
    // A rate between two presets steps from the nearest one, the lower at a tie.
    assert_eq!(adjacent_playback_rate(110, 1), 125);
    assert_eq!(adjacent_playback_rate(175, -1), 125);
}

#[test]
fn overlay_text_and_conditional_save_match_the_media_state() {
    assert_eq!(position_text(54, 67), "55 of 67");
    assert!(!save_control_visible(true, 0));
    assert!(save_control_visible(true, 1));
    assert!(!save_control_visible(false, 1));
    assert!(chrome_is_held(false, false, true));
    assert!(!chrome_is_held(false, false, false));
}

fn check_cheat_sheet() {
    // What the user actually sees in the key column, entities
    // resolved back to the one character each stands for.
    let visible = |s: &str| {
        s.split("<tt>")
            .nth(1)
            .unwrap()
            .split("</tt>")
            .next()
            .unwrap()
            .replace("&lt;", "<")
            .replace("&gt;", ">")
            .replace("&amp;", "&")
            .chars()
            .count()
    };
    let plain = help_line("Right", "Next image", 22);
    let escaped = help_line("<Control>z", "Undo", 22);
    assert!(plain.ends_with("</tt> Next image"), "{plain}");
    assert!(
        escaped.contains("&lt;Control&gt;z"),
        "markup must be escaped: {escaped}"
    );
    assert_eq!(visible(&plain), 22);
    assert_eq!(
        visible(&escaped),
        22,
        "an escaped key must occupy the same column: {escaped}"
    );
}

#[test]
fn window_cheat_sheet_rows_align_regardless_of_markup_escaping() {
    check_cheat_sheet();
}

#[test]
fn assembly_cheat_sheet_rows_align_regardless_of_markup_escaping() {
    check_cheat_sheet();
}

#[test]
fn the_cheat_sheet_lists_the_bound_actions() {
    let labels: Vec<Vec<String>> = Action::configurable()
        .iter()
        .map(|(action, _)| match action {
            Action::Next => vec!["Right".to_string(), "N".to_string()],
            Action::Escape => vec!["Esc".to_string()],
            _ => Vec::new(),
        })
        .collect();
    let rows = help_rows(&labels);
    assert_eq!(rows.len(), 1, "an action without a description has no row");
    assert_eq!(rows[0].keys, "Right, N");
    let sheet = help_text(&rows);
    assert!(sheet.starts_with("<b>Keys</b>\n\n<tt>Right, N</tt> "), "{sheet}");
    assert!(
        sheet.ends_with("\nDrag an edge or corner: resize the window"),
        "{sheet}"
    );
    let two = help_text(&vec![
        HelpRow {
            keys: "a&b".to_string(),
            description: "one".to_string(),
        },
        HelpRow {
            keys: "'\u{1}\"".to_string() + "xyz",
            description: "two".to_string(),
        },
    ]);
    assert!(
        two.contains("\nDrag: pan (zoomed) · middle-drag: move window · double-click: fullscreen\n"),
        "{two}"
    );
    assert!(two.contains("\n<tt>a&amp;b   </tt> one\n"), "{two}");
    assert!(two.contains("\n<tt>&#39;&#x1;&quot;xyz</tt> two\n"), "{two}");
}

fn nanoseconds(seconds: f64) -> i64 {
    (seconds * 1e9) as i64
}

#[test]
fn time_formatting() {
    assert_eq!(format_time(nanoseconds(0.0)), "0:00");
    assert_eq!(format_time(nanoseconds(5.4)), "0:05");
    assert_eq!(format_time(nanoseconds(65.0)), "1:05");
    assert_eq!(format_time(nanoseconds(3600.0)), "1:00:00");
    assert_eq!(format_time(nanoseconds(3725.0)), "1:02:05");
    assert_eq!(format_time(nanoseconds(-3.0)), "0:00");
}

#[test]
fn times_are_rounded_to_the_nearest_second() {
    assert_eq!(format_time(nanoseconds(59.5)), "1:00");
    assert_eq!(
        progress_text(nanoseconds(65.4), nanoseconds(3725.0)),
        "1:05 / 1:02:05"
    );
    assert_eq!(volume_text(70), "Volume 70%");
}

#[test]
fn cache_budget_conversion_is_checked() {
    assert_eq!(cache_budget_bytes(0), 0);
    assert_eq!(cache_budget_bytes(256), 256 * 1024 * 1024);
}

#[test]
fn choices_are_announced_by_their_label() {
    let tracks = [("en", "English"), ("de", "Deutsch")];
    assert_eq!(
        subtitle_choice_text(&subtitles(&tracks, SubtitleChoice::Off, None)),
        "Subtitles off"
    );
    assert_eq!(
        subtitle_choice_text(&subtitles(&tracks, SubtitleChoice::Track("de".into()), None)),
        "Subtitles: Deutsch"
    );
    assert_eq!(
        subtitle_choice_text(&subtitles(&tracks, SubtitleChoice::Track("fr".into()), None)),
        "Subtitles changed"
    );
    assert_eq!(
        subtitle_choice_text(&subtitles(&tracks, SubtitleChoice::Automatic, Some("English"))),
        "Subtitles: English"
    );
    assert_eq!(
        subtitle_choice_text(&subtitles(&tracks, SubtitleChoice::Automatic, None)),
        "Subtitles: Automatic"
    );
    assert_eq!(
        audio_choice_text(&audio(&tracks, AudioChoice::Track("de".into()), None)),
        "Audio: Deutsch"
    );
    assert_eq!(
        audio_choice_text(&audio(&tracks, AudioChoice::Track("fr".into()), None)),
        "Audio: Audio changed"
    );
    assert_eq!(
        audio_choice_text(&audio(&tracks, AudioChoice::Automatic, None)),
        "Audio: Automatic"
    );
    assert_eq!(
        subtitle_notice(&subtitles(&[], SubtitleChoice::Off, None)),
        None
    );
    assert_eq!(
        subtitle_notice(&subtitles(&tracks, SubtitleChoice::Off, None)).as_deref(),
        Some("Subtitles off")
    );
    assert_eq!(
        audio_notice(false, &audio(&tracks, AudioChoice::Automatic, None)),
        None
    );
    assert_eq!(playback_notice(true), "Play");
    assert_eq!(playback_notice(false), "Paused");
    assert_eq!(mute_notice(true), "Muted");
    assert_eq!(mute_notice(false), "Sound on");
}

#[test]
fn commands_become_tasks() {
    let image = Situation {
        count: 3,
        rate: None,
        animated: false,
        fullscreen: false,
        help_visible: true,
    };
    let video = Situation {
        rate: Some(100),
        ..image
    };
    let animation = Situation {
        animated: true,
        ..image
    };
    assert_eq!(execute_command(Command::TogglePlayback, video), Task::TogglePlayback);
    assert_eq!(execute_command(Command::TogglePlayback, animation), Task::TogglePlayback);
    assert_eq!(execute_command(Command::TogglePlayback, image), Task::Nothing);
    assert_eq!(execute_command(Command::ToggleMute, animation), Task::Nothing);
    assert_eq!(execute_command(Command::Pan(1, 0), image), Task::Pan(-64, 0));
    assert_eq!(execute_command(Command::Pan(0, -1), image), Task::Pan(0, 64));
    assert_eq!(execute_command(Command::Last, image), Task::ShowIndex(2));
    assert_eq!(execute_command(Command::First, image), Task::ShowIndex(0));
    assert_eq!(execute_command(Command::Seek(-1), image), Task::Nothing);
    assert_eq!(
        execute_command(Command::Seek(-1), video),
        Task::SeekBy(-10_000_000_000)
    );
    assert_eq!(execute_command(Command::StepSpeed(1), video), Task::SetRate(125));
    assert_eq!(execute_command(Command::StepSpeed(1), image), Task::Nothing);
    assert_eq!(execute_command(Command::ResetSpeed, video), Task::SetRate(100));
    assert_eq!(
        execute_command(Command::ChangeVolume(-1), video),
        Task::ChangeVolume(-10)
    );
    assert_eq!(execute_command(Command::ZoomIn, image), Task::ZoomBy(125));
    assert_eq!(execute_command(Command::ZoomOut, image), Task::ZoomBy(80));
    assert_eq!(
        execute_command(Command::ToggleFullscreen, image),
        Task::SetFullscreen(true)
    );
    assert_eq!(execute_command(Command::ToggleHelp, image), Task::ShowHelp(false));
    assert_eq!(
        execute_command(Command::MarkupArrow, image),
        Task::SetTool(Tool::Arrow)
    );
    assert_eq!(
        execute_command(Command::Next, image),
        Task::Navigate(Direction::Next)
    );
}

#[test]
fn narrow_windows_shed_controls_before_the_seek_bar() {
    assert_eq!(
        fit_seek_bar(1_000, &vec![400]),
        FitStep::Fitted(Fit {
            time: true,
            mute: true,
            subtitles: true,
            speed: true,
            seek_bar: SEEK_BAR_MAX_WIDTH,
        })
    );
    assert_eq!(fit_seek_bar(450, &vec![400]), FitStep::Measure(1));
    assert_eq!(fit_seek_bar(450, &vec![400, 380]), FitStep::Measure(2));
    assert_eq!(
        fit_seek_bar(450, &vec![400, 380, 340]),
        FitStep::Fitted(Fit {
            time: false,
            mute: false,
            subtitles: true,
            speed: true,
            seek_bar: 110,
        })
    );
    assert_eq!(
        fit_seek_bar(100, &vec![400, 380, 340, 300, 260]),
        FitStep::Fitted(Fit {
            time: false,
            mute: false,
            subtitles: false,
            speed: false,
            seek_bar: 0,
        })
    );
}

#[test]
fn markup_replaces_the_normal_controls() {
    let normal = control_mode(true, false, false, true, None);
    assert!(normal.normal && normal.photo && normal.markup_button && normal.bar);
    assert!(!normal.transport && !normal.markup);
    assert_eq!(normal.toast_margin, 56);
    assert!(!normal.play);
    assert!(control_mode(true, false, true, false, None).play);
    assert!(control_mode(false, true, false, false, None).play);
    let marking = control_mode(
        true,
        false,
        false,
        true,
        Some(Status {
            tool: Tool::Arrow,
            shape_count: 1,
            can_undo: true,
        }),
    );
    assert!(marking.markup && marking.bar);
    assert!(!marking.normal && !marking.photo && !marking.arrows);
    assert_eq!(marking.toast_margin, 100);
    assert_eq!(marking.tool, Some(Tool::Arrow));
    assert!(!control_mode(false, false, false, false, None).bar);
}

#[test]
fn saving_is_offered_only_where_it_is_safe() {
    let image = |kind| Savable::Image {
        kind,
        mime: "image/x".to_string(),
    };
    let still = image(DecodedKind::Static);
    assert_eq!(
        save_availability(&still, true, false, false, 1),
        (true, "Save rotation to file".to_string())
    );
    assert_eq!(
        save_availability(&still, true, false, false, 0),
        (false, "Rotate the image first".to_string())
    );
    assert_eq!(
        save_availability(&still, true, true, false, 1),
        (false, "A rotation is already being saved".to_string())
    );
    assert_eq!(
        save_availability(&still, true, false, true, 1).0,
        false,
        "not while marking up"
    );
    assert_eq!(
        save_availability(&still, false, false, false, 1),
        (false, "image/x images cannot be written back".to_string())
    );
    assert_eq!(
        save_availability(&image(DecodedKind::Svg), true, false, false, 1).1,
        "SVG rotation is view-only — the file is never rewritten"
    );
    assert_eq!(
        save_availability(&image(DecodedKind::Animated), true, false, false, 1).1,
        "Animated images can only be rotated in the view"
    );
    assert_eq!(
        save_availability(&Savable::Video, true, false, false, 1).1,
        "Video cannot be rotated and saved"
    );
    assert_eq!(
        save_availability(&Savable::Nothing, true, false, false, 1),
        (false, "Nothing to save".to_string())
    );
}

#[test]
fn the_overlay_stays_while_it_is_held() {
    let mut overlay = Overlay::new();
    assert!(overlay.handle(PointerEvent::Moved, false));
    assert!(overlay.visible);
    overlay.handle(PointerEvent::SeekPressed, false);
    overlay.handle(PointerEvent::Elapsed, false);
    assert!(overlay.visible);
    assert!(overlay.handle(PointerEvent::SeekReleased, false));
    overlay.handle(PointerEvent::EnteredControls, false);
    overlay.handle(PointerEvent::Left, false);
    assert!(overlay.visible);
    overlay.handle(PointerEvent::LeftControls, false);
    overlay.handle(PointerEvent::Elapsed, true);
    assert!(overlay.visible, "not while marking up");
    overlay.handle(PointerEvent::Elapsed, false);
    assert!(!overlay.visible);
    overlay.handle(PointerEvent::Menu(true), false);
    assert!(!overlay.fade(false));
    overlay.handle(PointerEvent::Menu(false), false);
    overlay.handle(PointerEvent::EnteredStatus, false);
    assert!(!overlay.fade(false));
    overlay.status_hidden();
    assert!(overlay.fade(false));
    overlay.handle(PointerEvent::SeekPressed, false);
    overlay.end_scrub();
    assert!(!overlay.scrubbing);
}

#[test]
fn opening_shows_the_file_or_says_why_not() {
    let navigation = navigation_of(&["a.jpg", "b.jpg"]);
    assert_eq!(
        plan_open_file(&navigation, &in_dir("b.jpg"), &Existence::Present),
        OpenPlan::Show(1)
    );
    assert_eq!(
        plan_open_file(&navigation, &in_dir("c.jpg"), &Existence::Missing),
        OpenPlan::Fail("file does not exist".to_string())
    );
    assert_eq!(plan_open_folder(&navigation), OpenPlan::Show(0));
    assert_eq!(
        plan_open_folder(&navigation_of(&[])),
        OpenPlan::Fail("no supported media in this folder".to_string())
    );
    assert_eq!(plan_media_choice(Some(b"a.jpg")), ChoicePlan::Accept);
    assert_eq!(
        plan_media_choice(Some(b"a.pdf")),
        ChoicePlan::Refuse("Only supported media files can be opened")
    );
    assert_eq!(
        plan_media_choice(None),
        ChoicePlan::Refuse("Only local media files can be opened")
    );
}

#[test]
fn subtitles_go_to_the_video_that_they_were_chosen_for() {
    let mut navigation = navigation_of(&["a.mp4", "b.mp4"]);
    navigation.select(0).unwrap();
    let media = MediaState::Video(in_dir("a.mp4"));
    let choose = |chosen, video: &str, media: &MediaState| {
        plan_subtitle_choice(chosen, &in_dir(video), &navigation, media)
    };
    assert_eq!(
        choose(Some(b"a.srt".as_slice()), "a.mp4", &media),
        ChoicePlan::Accept
    );
    let changed = ChoicePlan::Refuse("The video changed; choose its subtitle again");
    assert_eq!(choose(Some(b"a.srt".as_slice()), "b.mp4", &media), changed);
    assert_eq!(
        choose(Some(b"a.srt".as_slice()), "a.mp4", &MediaState::Empty),
        changed
    );
    assert_eq!(
        choose(Some(b"a.ass".as_slice()), "a.mp4", &media),
        ChoicePlan::Refuse("Only SRT and WebVTT subtitles are supported")
    );
    assert_eq!(
        choose(None, "a.mp4", &media),
        ChoicePlan::Refuse("Only local subtitle files are supported")
    );
    assert_eq!(plan_attach(&media, true), ChoicePlan::Accept);
    assert_eq!(
        plan_attach(&media, false),
        ChoicePlan::Refuse("Video player is unavailable")
    );
    assert_eq!(
        plan_attach(&MediaState::Empty, true),
        ChoicePlan::Refuse("Open a video before adding subtitles")
    );
}

#[test]
fn drops_are_sorted_by_what_they_are() {
    let one = |name: &str| plan_drop(&vec![Some(in_dir(name))]);
    assert_eq!(one("a.srt"), DropPlan::Attach(in_dir("a.srt")));
    assert_eq!(
        one("a.ass"),
        DropPlan::Refuse("Only SRT and WebVTT subtitles are supported")
    );
    assert_eq!(one("a.pdf"), DropPlan::Open(in_dir("a.pdf")));
    assert_eq!(
        plan_drop(&vec![None]),
        DropPlan::Refuse("Only local files can be dropped")
    );
    assert_eq!(
        plan_drop(&Vec::new()),
        DropPlan::Refuse("Drop one file at a time")
    );
}

#[test]
fn destinations_come_on_screen_their_own_way() {
    assert_eq!(plan_show(b"a.mp4", true), ShowPlan::Play);
    assert_eq!(plan_show(b"a.jpg", true), ShowPlan::Present);
    assert_eq!(plan_show(b"a.jpg", false), ShowPlan::Decode);
    let navigation = navigation_of(&["a.jpg", "b.mp4", "c.jpg", "d.jpg"]);
    assert_eq!(preload_neighbors(&navigation, 1), [in_dir("a.jpg"), in_dir("c.jpg")]);
    assert_eq!(preload_neighbors(&navigation, 2), [in_dir("d.jpg")]);
    assert!(preload_neighbors(&navigation, 0).is_empty());
    let mut cache: Cache<u32> = Cache::new(3, 1_000);
    cache.put(in_dir("a.jpg"), 7, "image/jpeg".into(), 10);
    assert_eq!(neighbors_to_decode(&navigation, 1, &cache), [in_dir("c.jpg")]);
    assert_eq!(neighbors_to_decode(&navigation, 2, &cache), [in_dir("d.jpg")]);
}

#[test]
fn results_reach_the_screen_only_while_they_are_wanted() {
    let mut navigation = navigation_of(&["a.jpg", "b.jpg"]);
    let shown = navigation.select(0).unwrap().generation;
    let wanted = |generation| Some(Interest::Foreground((generation, Arrival::Direct)));
    assert_eq!(plan_decoded(wanted(shown), true, &navigation), DecodedPlan::Present);
    assert_eq!(
        plan_decoded(wanted(shown), false, &navigation),
        DecodedPlan::Fail(Arrival::Direct)
    );
    navigation.select(1).unwrap();
    assert_eq!(plan_decoded(wanted(shown), true, &navigation), DecodedPlan::Keep);
    assert_eq!(
        plan_decoded(wanted(shown), false, &navigation),
        DecodedPlan::Discard
    );
    assert_eq!(
        plan_decoded(Some(Interest::Neighbor), true, &navigation),
        DecodedPlan::Keep
    );
    assert_eq!(
        plan_decoded(Some(Interest::Neighbor), false, &navigation),
        DecodedPlan::Discard
    );
    assert_eq!(plan_decoded(None, true, &navigation), DecodedPlan::Discard);
}

#[test]
fn errors_keep_the_position_only_of_the_shown_file() {
    let mut navigation = navigation_of(&["a.jpg", "b.jpg"]);
    navigation.select(1).unwrap();
    let mut media = MediaState::Loading(in_dir("b.jpg"));
    show_error(&mut navigation, &mut media, &in_dir("b.jpg"));
    assert_eq!(media, MediaState::Error(in_dir("b.jpg")));
    assert_eq!(navigation.current_index(), Some(1));
    show_error(&mut navigation, &mut media, b"/elsewhere/c.jpg");
    assert_eq!(navigation.current_index(), None);
    assert_eq!(
        current_path(&navigation, &media),
        Some(b"/elsewhere/c.jpg".to_vec())
    );
    empty_state(&mut navigation, &mut media);
    assert_eq!(current_path(&navigation, &media), None);
    assert_eq!(
        error_text(b"/elsewhere/c.jpg", "/elsewhere/c.jpg", "why"),
        "c.jpg\n\nwhy"
    );
    assert_eq!(error_text(b"/", "/", "why"), "/\n\nwhy");
    assert_eq!(shown_name(Some(b"/a/b\xff.jpg")).as_deref(), Some("b\u{fffd}.jpg"));
    assert_eq!(shown_name(None), None);
}

#[test]
fn the_position_is_shown_while_there_is_one() {
    let mut navigation = navigation_of(&["a.jpg", "b.jpg", "c.jpg"]);
    assert_eq!(position_label(&navigation), "");
    navigation.select(1).unwrap();
    assert_eq!(position_label(&navigation), "2 of 3");
}

#[test]
fn player_reports_concern_the_video_on_screen() {
    let mut navigation = navigation_of(&["a.mp4"]);
    navigation.select(0).unwrap();
    let video = MediaState::Video(in_dir("a.mp4"));
    let plan = |event: PlayerEvent, media: &MediaState, looping| {
        plan_player_event(&event, media, &navigation, looping)
    };
    assert_eq!(plan(PlayerEvent::EndOfStream, &video, true), PlayerPlan::Rewind);
    assert_eq!(plan(PlayerEvent::EndOfStream, &video, false), PlayerPlan::Nothing);
    assert_eq!(
        plan(PlayerEvent::EndOfStream, &MediaState::Empty, true),
        PlayerPlan::Nothing
    );
    assert_eq!(
        plan(PlayerEvent::Error("bad".into()), &MediaState::Empty, true),
        PlayerPlan::Stop {
            file: Some(in_dir("a.mp4")),
            message: "bad".to_string(),
        }
    );
    assert_eq!(
        plan(PlayerEvent::MissingVideoDecoder("H.264".into()), &video, true),
        PlayerPlan::Stop {
            file: Some(in_dir("a.mp4")),
            message: "video decoder unavailable: H.264".to_string(),
        }
    );
    assert_eq!(
        plan(PlayerEvent::SubtitleError("no".into()), &video, true),
        PlayerPlan::Toast("no".to_string())
    );
    assert_eq!(
        plan(PlayerEvent::SubtitleError("no".into()), &MediaState::Empty, true),
        PlayerPlan::Nothing
    );
    assert_eq!(plan(PlayerEvent::AudioChanged, &video, true), PlayerPlan::UpdateAudio);
    assert_eq!(
        plan(PlayerEvent::SubtitlesChanged, &video, true),
        PlayerPlan::UpdateSubtitles
    );
    assert_eq!(
        plan(PlayerEvent::PlaybackRateError("no".into()), &video, true),
        PlayerPlan::RestoreRate("no".to_string())
    );
}

#[test]
fn the_workspace_state_gathers_what_actions_need() {
    let mut navigation = navigation_of(&["a.jpg"]);
    navigation.select(0).unwrap();
    let media = MediaState::Image {
        path: in_dir("a.jpg"),
        kind: DecodedKind::Static,
        mime: "image/jpeg".to_string(),
    };
    let mut view = State::new();
    view.show(Medium::Texture, FitPolicy::DownscaleOnly);
    let state = workspace_state(&media, &navigation, &view, true, true, false, false, true);
    assert_eq!(
        state.media,
        Media::Image {
            markup_available: true
        }
    );
    assert!(state.has_navigation && state.pannable && state.can_save && state.fullscreen);
    assert!(!state.marking && !state.markup_can_copy && !state.can_undo_trash);
    assert_eq!(toggle_markup(&mut view, &media), MarkupToggle::Started);
    let state = workspace_state(&media, &navigation, &view, true, true, false, false, true);
    assert!(state.marking && !state.markup_shapes);
    assert_eq!(toggle_markup(&mut view, &media), MarkupToggle::Cancelled);
    let svg = MediaState::Image {
        path: in_dir("a.svg"),
        kind: DecodedKind::Svg,
        mime: "image/svg+xml".to_string(),
    };
    assert!(!svg.markup_available());
    assert_eq!(
        svg.media(),
        Media::Image {
            markup_available: false
        }
    );
    let moving = MediaState::Image {
        path: in_dir("a.gif"),
        kind: DecodedKind::Animated,
        mime: "image/gif".to_string(),
    };
    assert_eq!(moving.media(), Media::Animation);
    assert_eq!(toggle_markup(&mut view, &svg), MarkupToggle::Refused);
    assert_eq!(media.savable(), Savable::Image {
        kind: DecodedKind::Static,
        mime: "image/jpeg".to_string(),
    });
    assert_eq!(
        markup_notice(Status {
            tool: Tool::Box,
            shape_count: 128,
            can_undo: true,
        }),
        Some("Quick Markup limit reached; undo or clear a shape")
    );
    assert_eq!(
        markup_notice(Status {
            tool: Tool::Box,
            shape_count: 127,
            can_undo: true,
        }),
        None
    );
}
