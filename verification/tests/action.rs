use open_mpv::config::Config;
use open_mpv::keymap::KeyMap;
use open_mpv::player::tracks::{AudioChoice, SubtitleChoice};
use open_mpv::window::action::{Action, Command, Media, WorkspaceState};
use open_mpv::window::bindings::{keys_for, merged_bindings};
use open_mpv::window::command::{execute_command, Situation, Task, SEEK_STEP};
use open_mpv::window::workspace::Direction;
use std::collections::BTreeSet;

fn state(media: Media) -> WorkspaceState {
    WorkspaceState {
        media,
        has_navigation: false,
        pannable: false,
        marking: false,
        markup_draft: false,
        markup_shapes: false,
        markup_can_copy: false,
        markup_can_undo: false,
        can_save: false,
        can_undo_trash: false,
        help_visible: false,
        fullscreen: false,
    }
}

#[test]
fn contextual_commands_resolve_from_workspace_state() {
    let mut image = state(Media::Image {
        markup_available: true,
    });
    image.has_navigation = true;
    assert_eq!(Action::Right.resolve(image), Some(Command::Next));
    image.pannable = true;
    assert_eq!(Action::Right.resolve(image), Some(Command::Pan(1, 0)));
    image.marking = true;
    image.pannable = false;
    assert_eq!(Action::Right.resolve(image), None);

    let video = state(Media::Video);
    assert_eq!(
        Action::PlayPause.resolve(video),
        Some(Command::TogglePlayback)
    );
    assert_eq!(Action::Up.resolve(video), Some(Command::ChangeVolume(1)));
}

#[test]
fn escape_and_undo_follow_explicit_context_precedence() {
    let mut current = state(Media::Image {
        markup_available: true,
    });
    current.marking = true;
    current.markup_draft = true;
    current.markup_can_undo = true;
    current.can_undo_trash = true;
    assert_eq!(
        Action::Escape.resolve(current),
        Some(Command::CancelMarkupDraft)
    );
    assert_eq!(Action::Undo.resolve(current), Some(Command::MarkupUndo));
    current.markup_draft = false;
    assert_eq!(Action::Escape.resolve(current), Some(Command::CancelMarkup));
}

#[test]
fn unavailable_commands_are_disabled_by_the_same_policy() {
    let empty = state(Media::Empty);
    assert_eq!(Action::Trash.resolve(empty), None);
    assert_eq!(Action::ZoomIn.resolve(empty), None);
    assert!(Action::OpenFile.resolve(empty).is_some());
    assert!(Action::Escape.resolve(empty).is_some());
}

#[test]
fn parameterized_video_actions_share_context_policy() {
    let video = state(Media::Video);
    assert_eq!(
        Action::SubtitleSelect.resolve_subtitle(video, SubtitleChoice::Off),
        Some(Command::SelectSubtitle(SubtitleChoice::Off))
    );
    assert_eq!(
        Action::AudioSelect.resolve_audio(video, AudioChoice::Automatic),
        Some(Command::SelectAudio(AudioChoice::Automatic))
    );
    assert_eq!(
        Action::SpeedSet.resolve_speed(video, 125),
        Some(Command::SetSpeed(125))
    );
    assert_eq!(
        Action::AudioSelect.resolve_subtitle(video, SubtitleChoice::Off),
        None
    );
    assert_eq!(Action::SpeedSet.resolve_speed(video, 300), None);
    assert!(!Action::SpeedSet.enabled(state(Media::Empty)));
}

#[test]
fn registered_action_names_are_unique_and_config_boundary_stays_compatible() {
    let mut names = BTreeSet::new();
    for action in Action::all() {
        assert!(names.insert(action.name()), "duplicate action name");
    }
    for action in [Action::SubtitleSelect, Action::AudioSelect, Action::SpeedSet] {
        assert_eq!(Action::parse(action.name()), None);
    }
}

#[test]
fn rotation_remains_available_during_markup() {
    let mut image = state(Media::Image {
        markup_available: true,
    });
    image.marking = true;
    assert_eq!(
        Action::RotateClockwise.resolve(image),
        Some(Command::Rotate(1))
    );
}

#[test]
fn every_action_is_documented_and_reachable_by_key() {
    let configurable = Action::configurable();
    let binds = Action::default_binds();
    for (key, action) in &binds {
        assert!(
            configurable.iter().any(|(name, _)| name == action),
            "default bind `{key}` names `{}`, which is not a known action",
            action.name()
        );
    }
    // Reached through the contextual arrow actions rather than a key
    // of their own, and still bindable by name. Anything else without a
    // binding is unreachable by keyboard and would show up in the cheat
    // sheet with a blank key column.
    let reached_contextually = [Action::VolumeUp, Action::VolumeDown, Action::SubtitleOpen];

    for (action, description) in &configurable {
        assert!(
            binds.iter().any(|(_, name)| name == action) || reached_contextually.contains(action),
            "action `{}` has no default binding",
            action.name()
        );
        assert!(
            !description.is_empty() || *action == Action::Escape,
            "action `{}` has no description for the cheat sheet",
            action.name()
        );
    }
}

#[test]
fn open_actions_use_distinct_configurable_shortcuts() {
    let binds = Action::default_binds();
    assert!(binds.contains(&("<Control>o", Action::OpenFile)));
    assert!(binds.contains(&("<Control><Shift>o", Action::OpenFolder)));
    assert_eq!(Action::parse("open-file"), Some(Action::OpenFile));
    assert_eq!(Action::parse("open-folder"), Some(Action::OpenFolder));
}

#[test]
fn quick_markup_tools_and_copy_use_configurable_actions() {
    let binds = Action::default_binds();
    for (key, action) in [
        ("a", Action::Markup),
        ("b", Action::MarkupBox),
        ("<Shift>a", Action::MarkupArrow),
        ("<Control>c", Action::MarkupCopy),
        ("c", Action::MarkupClear),
    ] {
        assert!(binds.contains(&(key, action)));
        assert_eq!(Action::parse(action.name()), Some(action));
    }
    assert!(binds.contains(&("<Control>z", Action::Undo)));
}

#[test]
fn video_seek_defaults_are_ten_seconds_with_shift_arrow_aliases() {
    let binds = Action::default_binds();
    assert_eq!(SEEK_STEP, 10_000_000_000);
    assert!(
        binds.contains(&("<Shift>Left", Action::SeekBack)),
        "Shift+Left must seek without taking plain Left away from folder navigation"
    );
    assert!(
        binds.contains(&("<Shift>Right", Action::SeekForward)),
        "Shift+Right must seek without taking plain Right away from folder navigation"
    );
}

#[test]
fn subtitle_keys_keep_mpv_visibility_without_stealing_seek() {
    let binds = Action::default_binds();
    assert!(binds.contains(&("v", Action::SubtitleToggle)));
    assert!(binds.contains(&("<Shift>v", Action::SubtitleCycle)));
    assert!(binds.contains(&("j", Action::SeekBack)));
    assert!(binds.contains(&("l", Action::SeekForward)));
}

#[test]
fn configured_action_names_parse_only_at_the_boundary() {
    for (action, _) in Action::configurable() {
        assert_eq!(Action::parse(action.name()), Some(action));
    }
    assert_eq!(Action::parse("not-an-action"), None);
}

#[test]
fn registered_names_carry_their_group() {
    assert_eq!(Action::OpenFile.detailed_name(), "win.open-file");
    assert_eq!(Action::AudioSelect.detailed_name(), "win.audio");
}

#[test]
fn there_is_always_a_way_out() {
    for media in [Media::Empty, Media::Loading, Media::Video, Media::Error] {
        for marking in [false, true] {
            let current = WorkspaceState {
                marking,
                ..state(media)
            };
            for action in [
                Action::Escape,
                Action::Help,
                Action::Fullscreen,
                Action::Close,
            ] {
                assert!(action.enabled(current));
            }
        }
    }
    let shown = WorkspaceState {
        help_visible: true,
        fullscreen: true,
        ..state(Media::Video)
    };
    assert_eq!(Action::Escape.resolve(shown), Some(Command::HideHelp));
    let full = WorkspaceState {
        fullscreen: true,
        ..state(Media::Video)
    };
    assert_eq!(Action::Escape.resolve(full), Some(Command::LeaveFullscreen));
    assert_eq!(
        Action::Escape.resolve(state(Media::Video)),
        Some(Command::Close)
    );
}

fn binds(pairs: &[(&str, &str)]) -> KeyMap<String> {
    let mut binds = KeyMap::new();
    for (key, action) in pairs {
        binds.insert(key.to_string(), action.to_string());
    }
    binds
}

#[test]
fn user_binds_take_keys_over_from_the_defaults() {
    let configured = binds(&[
        ("!!", "next"),
        ("a", "none"),
        ("b", "nonsense"),
        ("n", "close"),
        ("y", "next"),
        ("z", "next"),
    ]);
    let (merged, issues) = merged_bindings(&configured, &vec![false, true, true, true, true, false]);
    assert_eq!(merged.get("z"), Some(&Action::ZoomToggle));
    assert_eq!(merged.get("a"), None);
    assert_eq!(merged.get("b"), Some(&Action::MarkupBox));
    assert_eq!(merged.get("n"), Some(&Action::Close));
    assert_eq!(merged.get("y"), Some(&Action::Next));
    assert_eq!(merged.get("!!"), None);
    let said: Vec<String> = issues.iter().map(|issue| issue.describe()).collect();
    assert_eq!(
        said,
        [
            "cannot parse key `!!`",
            "unknown action `nonsense` for bind `b`",
            "cannot parse key `z`",
        ]
    );
    assert!(keys_for(&merged, Action::Next).contains(&"y".to_string()));
    assert!(keys_for(&merged, Action::Markup).is_empty());
}

#[test]
fn without_a_configuration_the_defaults_are_bound() {
    let (merged, issues) = merged_bindings(&Config::default().binds, &Vec::new());
    assert!(issues.is_empty());
    let defaults = Action::default_binds();
    assert_eq!(merged.len(), defaults.len());
    for (key, action) in defaults {
        assert_eq!(merged.get(key), Some(&action));
    }
    assert_eq!(keys_for(&merged, Action::MarkupBox), ["b"]);
}

#[test]
fn one_key_pauses_whatever_moves() {
    let browsing = |media| WorkspaceState {
        has_navigation: true,
        ..state(media)
    };
    assert_eq!(
        Action::PlayPause.resolve(browsing(Media::Animation)),
        Some(Command::TogglePlayback)
    );
    assert_eq!(
        Action::PlayPause.resolve(browsing(Media::Image {
            markup_available: false,
        })),
        Some(Command::Next)
    );
    assert_eq!(
        Action::RotateClockwise.resolve(state(Media::Animation)),
        Some(Command::Rotate(1))
    );
    assert_eq!(Action::Markup.resolve(state(Media::Animation)), None);
}

#[test]
fn the_pause_key_reaches_the_animation_on_screen() {
    let still = Situation {
        count: 2,
        rate: None,
        animated: false,
        fullscreen: false,
        help_visible: false,
    };
    let press = |media, situation| {
        let resolved = Action::PlayPause.resolve(WorkspaceState {
            has_navigation: true,
            ..state(media)
        });
        execute_command(resolved.unwrap(), situation)
    };
    let moving = Situation {
        animated: true,
        ..still
    };
    assert_eq!(press(Media::Animation, moving), Task::TogglePlayback);
    let video = Situation {
        rate: Some(100),
        ..still
    };
    assert_eq!(press(Media::Video, video), Task::TogglePlayback);
    let photo = Media::Image {
        markup_available: true,
    };
    assert_eq!(press(photo, still), Task::Navigate(Direction::Next));
}
