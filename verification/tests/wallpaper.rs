use focus_space_wallpaper::config::{EasingKind, TransitionConfig, WallpaperConfig};
use focus_space_wallpaper::wallpaper::setter::{
    backend_from_name, detect_backend, extract_json_number_text, extract_json_str,
    gsettings_picture_uri, hyprpaper_conf, osascript_wallpaper_script, parse_monitor_list,
    parse_monitor_object, signature_from_environ, split_top_level_objects, DesktopProbe,
    Invocation, RunMode, SetStep, SetterError, TargetOs, WallpaperBackend, WallpaperSetter,
};
use focus_space_wallpaper::wallpaper::transition::{
    final_frame_file_name, frame_file_name, is_frame_file_name, is_stale_frame_file_name,
    temporary_frame_file_name,
    TransitionRunner,
};
use std::collections::HashSet;
use std::path::{Path, PathBuf};

fn linux() -> DesktopProbe {
    DesktopProbe {
        os: TargetOs::Linux,
        hyprland_instance_signature: false,
        hyprctl_available: false,
        wayland_display: false,
        swaysock: false,
        current_desktop: None,
        display: false,
    }
}

#[test]
fn backend_names() {
    assert_eq!(backend_from_name("hyprpaper"), Some(WallpaperBackend::Hyprpaper));
    assert_eq!(backend_from_name("swaybg"), Some(WallpaperBackend::Swaybg));
    assert_eq!(backend_from_name("gsettings"), Some(WallpaperBackend::Gsettings));
    assert_eq!(backend_from_name("feh"), Some(WallpaperBackend::Feh));
    assert_eq!(backend_from_name("macos"), Some(WallpaperBackend::Macos));
    assert_eq!(backend_from_name("windows"), Some(WallpaperBackend::Windows));
    assert_eq!(backend_from_name("auto"), None);
    assert_eq!(backend_from_name("Feh"), None);
    assert_eq!(backend_from_name(""), None);
}

#[test]
fn named_backend_skips_detection() {
    let s = WallpaperSetter::new("feh", &linux()).unwrap();
    assert_eq!(s.backend(), WallpaperBackend::Feh);
    let s = WallpaperSetter::new("macos", &DesktopProbe { os: TargetOs::Other, ..linux() }).unwrap();
    assert_eq!(s.backend(), WallpaperBackend::Macos);
}

#[test]
fn auto_and_unknown_names_detect() {
    let p = DesktopProbe { display: true, ..linux() };
    assert_eq!(WallpaperSetter::new("auto", &p).unwrap().backend(), WallpaperBackend::Feh);
    assert_eq!(WallpaperSetter::new("nitrogen", &p).unwrap().backend(), WallpaperBackend::Feh);
    assert_eq!(
        WallpaperSetter::new("auto", &linux()).err(),
        Some(SetterError::BackendNotDetected)
    );
}

#[test]
fn platform_backends() {
    assert_eq!(detect_backend(&DesktopProbe { os: TargetOs::Macos, ..linux() }), Ok(WallpaperBackend::Macos));
    assert_eq!(
        detect_backend(&DesktopProbe { os: TargetOs::Windows, ..linux() }),
        Ok(WallpaperBackend::Windows)
    );
    assert_eq!(
        detect_backend(&DesktopProbe { os: TargetOs::Other, display: true, ..linux() }),
        Err(SetterError::UnsupportedPlatform)
    );
}

#[test]
fn hyprland_comes_first() {
    let p = DesktopProbe {
        hyprland_instance_signature: true,
        hyprctl_available: true,
        wayland_display: true,
        swaysock: true,
        ..linux()
    };
    assert_eq!(detect_backend(&p), Ok(WallpaperBackend::Hyprpaper));
    let p = DesktopProbe { hyprctl_available: false, ..p };
    assert_eq!(detect_backend(&p), Ok(WallpaperBackend::Swaybg));
}

#[test]
fn wayland_without_sway_uses_gsettings() {
    let p = DesktopProbe { wayland_display: true, ..linux() };
    assert_eq!(detect_backend(&p), Ok(WallpaperBackend::Gsettings));
    let p = DesktopProbe { current_desktop: Some("KDE".to_string()), display: true, ..p };
    assert_eq!(detect_backend(&p), Ok(WallpaperBackend::Gsettings));
    let p = DesktopProbe { swaysock: true, ..p };
    assert_eq!(detect_backend(&p), Ok(WallpaperBackend::Swaybg));
}

#[test]
fn x11_gnome_or_unity_uses_gsettings_else_feh() {
    let p = DesktopProbe { display: true, current_desktop: Some("Unity".to_string()), ..linux() };
    assert_eq!(detect_backend(&p), Ok(WallpaperBackend::Gsettings));
    let p = DesktopProbe { current_desktop: Some("ubuntu:GNOME".to_string()), ..p };
    assert_eq!(detect_backend(&p), Ok(WallpaperBackend::Gsettings));
    let p = DesktopProbe { current_desktop: Some("gnome".to_string()), ..p };
    assert_eq!(detect_backend(&p), Ok(WallpaperBackend::Feh));
    let p = DesktopProbe { current_desktop: Some("KDE".to_string()), ..p };
    assert_eq!(detect_backend(&p), Ok(WallpaperBackend::Feh));
    let p = DesktopProbe { current_desktop: None, ..p };
    assert_eq!(detect_backend(&p), Ok(WallpaperBackend::Feh));
    let p = DesktopProbe { display: false, ..p };
    assert_eq!(detect_backend(&p), Err(SetterError::BackendNotDetected));
}

const HYPRCTL: &str = r#"[{
    "id": 0,
    "name": "DP-1",
    "description": "Dell",
    "make": "Dell Inc.",
    "width": 3840,
    "height": 2160,
    "refreshRate": 59.99700,
    "scale": 1.50,
    "workspaces": {"id": 1}
},{
    "id": 1,
    "name": "HDMI-A-1",
    "width": 1920,
    "height": 1080,
    "scale": 1.00
}]
"#;

#[test]
fn hyprctl_output_is_split_into_monitor_objects() {
    let objects = split_top_level_objects(HYPRCTL);
    assert_eq!(objects.len(), 2);
    assert!(objects[0].starts_with("{\n    \"id\": 0"));
    assert!(objects[0].contains("\"workspaces\": {\"id\": 1}"));
    assert!(objects[0].ends_with('}'));
    assert!(objects[1].starts_with("{\n    \"id\": 1"));
    assert_eq!(split_top_level_objects("}{}{").len(), 0);
    assert_eq!(split_top_level_objects("{}{\"a\":{}}").len(), 2);
    assert!(split_top_level_objects("no objects").is_empty());
}

#[test]
fn monitor_fields_are_read() {
    let monitors = parse_monitor_list(HYPRCTL);
    assert_eq!(monitors.len(), 2);
    assert_eq!(monitors[0].name, "DP-1");
    assert_eq!(monitors[0].width, "3840");
    assert_eq!(monitors[0].height, "2160");
    assert_eq!(monitors[0].scale, "1.50");
    assert_eq!(monitors[1].name, "HDMI-A-1");
    assert_eq!(monitors[1].scale, "1.00");
}

#[test]
fn json_string_field() {
    assert_eq!(extract_json_str(r#"{"name":"eDP-1","x":1}"#, "name"), Some("eDP-1".to_string()));
    assert_eq!(extract_json_str(r#"{"name": "eDP-1"}"#, "name"), Some("eDP-1".to_string()));
    assert_eq!(extract_json_str(r#"{"nam":"x"}"#, "name"), None);
    assert_eq!(extract_json_str(r#"{"name": 5}"#, "name"), None);
    assert_eq!(extract_json_str(r#"{"name":"open"#, "name"), None);
    assert_eq!(extract_json_str(r#"{"name":"モニター"}"#, "name"), Some("モニター".to_string()));
}

#[test]
fn json_number_text() {
    assert_eq!(extract_json_number_text(r#"{"width": 2560,"#, "\"width\":"), Some("2560".to_string()));
    assert_eq!(extract_json_number_text("{\"scale\":\t-1.25}", "\"scale\":"), Some("-1.25".to_string()));
    assert_eq!(extract_json_number_text(r#"{"width": 2560"#, "\"width\":"), None);
    assert_eq!(extract_json_number_text(r#"{"height": 1}"#, "\"width\":"), None);
    assert_eq!(extract_json_number_text(r#"{"width": x}"#, "\"width\":"), Some("".to_string()));
}

#[test]
fn incomplete_monitor_objects_are_skipped() {
    assert!(parse_monitor_object(r#"{"name":"a","width":1,"height":2}"#).is_none());
    let m = parse_monitor_object(r#"{"name":"a","width":1,"height":2,"scale":1}"#).unwrap();
    assert_eq!((m.name.as_str(), m.width.as_str(), m.height.as_str(), m.scale.as_str()), ("a", "1", "2", "1"));
    let list = parse_monitor_list(r#"[{"name":"a"},{"name":"b","width":1,"height":2,"scale":3}]"#);
    assert_eq!(list.len(), 1);
    assert_eq!(list[0].name, "b");
}

#[test]
fn environ_signature() {
    let data = b"PATH=/usr/bin\0HYPRLAND_INSTANCE_SIGNATURE=abc_123\0HOME=/root\0";
    assert_eq!(signature_from_environ(data), Some("abc_123".to_string()));
    let data = b"A=1\0HYPRLAND_INSTANCE_SIGNATURE=\xff\0HYPRLAND_INSTANCE_SIGNATURE=second";
    assert_eq!(signature_from_environ(data), Some("second".to_string()));
    assert_eq!(signature_from_environ(b"A=1\0B=2"), None);
    assert_eq!(signature_from_environ(b""), None);
    assert_eq!(signature_from_environ(b"XHYPRLAND_INSTANCE_SIGNATURE=no"), None);
}

#[test]
fn hyprpaper_conf_has_one_block_per_monitor() {
    let conf = hyprpaper_conf(&vec!["DP-1".to_string(), "HDMI-A-1".to_string()], "/w/current.png");
    assert_eq!(
        conf,
        "wallpaper {\n  monitor = DP-1\n  path = /w/current.png\n  fit_mode = cover\n}\n\
         wallpaper {\n  monitor = HDMI-A-1\n  path = /w/current.png\n  fit_mode = cover\n}\n"
    );
    assert_eq!(hyprpaper_conf(&vec![], "/x"), "");
}

#[test]
fn gsettings_and_osascript_texts() {
    assert_eq!(gsettings_picture_uri("/home/u/a b.png"), "file:///home/u/a b.png");
    let script = osascript_wallpaper_script("/Users/u/w.png");
    assert_eq!(
        script,
        "tell application \"System Events\"\n            tell every desktop\n                set picture to \"/Users/u/w.png\"\n            end tell\n        end tell"
    );
}

#[test]
fn frame_names() {
    assert_eq!(frame_file_name(0), "frame_0000.png");
    assert_eq!(frame_file_name(7), "frame_0007.png");
    assert_eq!(frame_file_name(25), "frame_0025.png");
    assert_eq!(frame_file_name(1234), "frame_1234.png");
    assert_eq!(frame_file_name(123456), "frame_123456.png");
    assert_eq!(frame_file_name(u32::MAX), "frame_4294967295.png");
    assert_eq!(temporary_frame_file_name(3), "frame_0003.tmp.png");
    for step in [0u32, 9, 10, 99, 100, 999, 1000, 54321] {
        assert_eq!(frame_file_name(step), format!("frame_{:04}.png", step));
    }
}

#[test]
fn frame_file_recognition() {
    assert!(is_frame_file_name("frame_0001.png"));
    assert!(is_frame_file_name("frame_0001.tmp.png"));
    assert!(!is_frame_file_name("current.png"));
    assert!(!is_frame_file_name("frame_0001.jpg"));
    assert!(is_stale_frame_file_name("frame_0001.png"));
    assert!(is_stale_frame_file_name("other.tmp.png"));
    assert!(!is_stale_frame_file_name("current.png"));
    assert!(!is_stale_frame_file_name("frame_notes.txt"));
    for step in [0u32, 17, 25, 10000] {
        assert!(is_frame_file_name(&frame_file_name(step)));
        assert!(is_stale_frame_file_name(&frame_file_name(step)));
        assert!(is_stale_frame_file_name(&temporary_frame_file_name(step)));
    }
}

#[test]
fn transition_steps() {
    let setter = WallpaperSetter::with_backend(WallpaperBackend::Feh);
    let config = TransitionConfig { duration_secs: 90, steps: 25, easing: EasingKind::SmoothStep };
    let dir = Path::new("/tmp/fsw");
    let runner = TransitionRunner::new(&setter, &config, dir);
    assert_eq!(runner.step_pause_ms(), 3600);
    assert_eq!(runner.output_dir(), dir);
    assert_eq!(runner.config().steps, 25);
    assert_eq!(runner.setter().backend(), WallpaperBackend::Feh);
    let first = runner.frame_step(0);
    assert_eq!(first.frame_name, "frame_0000.png");
    assert_eq!(first.temporary_name, "frame_0000.tmp.png");
    assert_eq!(first.previous_frame, None);
    assert_eq!(first.pause_ms, 3600);
    let mid = runner.frame_step(12);
    assert_eq!(mid.previous_frame, Some("frame_0011.png".to_string()));
    let last = runner.frame_step(25);
    assert_eq!(last.frame_name, "frame_0025.png");
    assert_eq!(last.pause_ms, 0);
    let config = TransitionConfig { duration_secs: 10, steps: 3, easing: EasingKind::Linear };
    let runner = TransitionRunner::new(&setter, &config, dir);
    assert_eq!(runner.step_pause_ms(), 3333);
}

#[test]
fn backend_override() {
    let mut c = WallpaperConfig { backend: "auto".to_string(), output_path: PathBuf::from("/tmp/current.png") };
    c.override_backend("auto".to_string());
    assert_eq!(c.backend, "auto");
    c.override_backend("feh".to_string());
    assert_eq!(c.backend, "feh");
    c.override_backend("auto".to_string());
    assert_eq!(c.backend, "feh");
    assert_eq!(c.output_path, PathBuf::from("/tmp/current.png"));
}

#[test]
fn every_step_writes_its_own_file() {
    let mut names = HashSet::new();
    for step in 0..2000u32 {
        assert!(names.insert(frame_file_name(step)));
        assert!(names.insert(temporary_frame_file_name(step)));
    }
}

#[test]
fn pauses_fill_the_duration() {
    let setter = WallpaperSetter::with_backend(WallpaperBackend::Swaybg);
    for (duration_secs, steps) in [(90u64, 25u32), (10, 3), (1, 7), (120, 10)] {
        let config = TransitionConfig { duration_secs, steps, easing: EasingKind::EaseInOut };
        let runner = TransitionRunner::new(&setter, &config, Path::new("/tmp"));
        let total: u64 = (0..=steps).map(|s| runner.frame_step(s).pause_ms).sum();
        assert!(total <= duration_secs * 1000);
        assert!(duration_secs * 1000 < total + steps as u64);
    }
}

fn run_of(step: &SetStep) -> (&str, Vec<&str>, RunMode) {
    match step {
        SetStep::Run(Invocation { program, args, mode }) => {
            (program.as_str(), args.iter().map(|a| a.as_str()).collect(), *mode)
        }
        _ => panic!("not a program run"),
    }
}

#[test]
fn hyprpaper_steps_rewrite_the_conf_and_restart() {
    let setter = WallpaperSetter::with_backend(WallpaperBackend::Hyprpaper);
    assert!(setter.needs_monitors());
    assert!(setter.uses_canonical_path());
    let monitors = vec!["DP-1".to_string(), "HDMI-A-1".to_string()];
    let steps = setter.set("/w/a.png", &monitors).unwrap();
    assert_eq!(steps.len(), 5);
    match &steps[0] {
        SetStep::WriteHyprpaperConf(conf) => {
            assert_eq!(conf, &hyprpaper_conf(&monitors, "/w/a.png"));
            assert_eq!(conf.matches("wallpaper {").count(), 2);
        }
        _ => panic!("the conf comes first"),
    }
    assert_eq!(run_of(&steps[1]), ("pkill", vec!["-x", "hyprpaper"], RunMode::IgnoreOutcome));
    assert!(matches!(steps[2], SetStep::Pause(100)));
    assert_eq!(run_of(&steps[3]), ("hyprpaper", vec![], RunMode::Spawn));
    assert!(matches!(steps[4], SetStep::Pause(400)));
}

#[test]
fn hyprpaper_without_monitors_fails() {
    let setter = WallpaperSetter::with_backend(WallpaperBackend::Hyprpaper);
    assert!(matches!(setter.set("/w/a.png", &Vec::new()), Err(SetterError::NoMonitors)));
}

#[test]
fn swaybg_steps_restart_swaybg() {
    let setter = WallpaperSetter::with_backend(WallpaperBackend::Swaybg);
    assert!(!setter.needs_monitors());
    assert!(!setter.uses_canonical_path());
    let steps = setter.set("out/a.png", &Vec::new()).unwrap();
    assert_eq!(steps.len(), 3);
    assert_eq!(run_of(&steps[0]), ("pkill", vec!["-x", "swaybg"], RunMode::IgnoreOutcome));
    assert_eq!(
        run_of(&steps[1]),
        ("swaybg", vec!["-i", "out/a.png", "-m", "fill"], RunMode::Spawn)
    );
    assert!(matches!(steps[2], SetStep::Pause(200)));
}

#[test]
fn gsettings_steps_set_both_uris() {
    let setter = WallpaperSetter::with_backend(WallpaperBackend::Gsettings);
    assert!(setter.uses_canonical_path());
    let steps = setter.set("/w/a.png", &Vec::new()).unwrap();
    assert_eq!(steps.len(), 2);
    assert_eq!(
        run_of(&steps[0]),
        (
            "gsettings",
            vec!["set", "org.gnome.desktop.background", "picture-uri", "file:///w/a.png"],
            RunMode::MustSucceed
        )
    );
    assert_eq!(
        run_of(&steps[1]),
        (
            "gsettings",
            vec!["set", "org.gnome.desktop.background", "picture-uri-dark", "file:///w/a.png"],
            RunMode::IgnoreOutcome
        )
    );
}

#[test]
fn feh_macos_and_windows_steps() {
    let feh = WallpaperSetter::with_backend(WallpaperBackend::Feh).set("a.png", &Vec::new()).unwrap();
    assert_eq!(feh.len(), 1);
    assert_eq!(run_of(&feh[0]), ("feh", vec!["--bg-fill", "a.png"], RunMode::MustSucceed));

    let mac = WallpaperSetter::with_backend(WallpaperBackend::Macos).set("/w/a.png", &Vec::new()).unwrap();
    assert_eq!(mac.len(), 1);
    let script = osascript_wallpaper_script("/w/a.png");
    assert_eq!(run_of(&mac[0]), ("osascript", vec!["-e", script.as_str()], RunMode::MustSucceed));

    let win = WallpaperSetter::with_backend(WallpaperBackend::Windows).set("C:/w/a.png", &Vec::new()).unwrap();
    assert_eq!(win.len(), 1);
    assert!(matches!(&win[0], SetStep::WindowsApi(p) if p == "C:/w/a.png"));
}

#[test]
fn transition_plan_covers_every_step() {
    let setter = WallpaperSetter::with_backend(WallpaperBackend::Feh);
    let config = TransitionConfig { duration_secs: 10, steps: 3, easing: EasingKind::Linear };
    let runner = TransitionRunner::new(&setter, &config, Path::new("/tmp/fsw"));
    let plan = runner.frame_steps();
    assert_eq!(plan.len(), 4);
    let names: Vec<&str> = plan.iter().map(|s| s.frame_name.as_str()).collect();
    assert_eq!(names, vec!["frame_0000.png", "frame_0001.png", "frame_0002.png", "frame_0003.png"]);
    assert_eq!(plan[0].previous_frame, None);
    assert_eq!(plan[3].previous_frame, Some("frame_0002.png".to_string()));
    let pauses: Vec<u64> = plan.iter().map(|s| s.pause_ms).collect();
    assert_eq!(pauses, vec![3333, 3333, 3333, 0]);
    assert_eq!(final_frame_file_name(), "current.png");
}
