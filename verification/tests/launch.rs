use heart_screensaver::launch::{launch_mode, mode_of, window_conf, Mode, WindowConf};

fn args(list: &[&str]) -> Vec<String> {
    list.iter().map(|s| s.to_string()).collect()
}

#[test]
fn switch_c_selects_the_settings() {
    assert_eq!(mode_of("/c"), Mode::Configure);
    assert_eq!(mode_of("-c"), Mode::Configure);
    assert_eq!(mode_of("/C"), Mode::Configure);
    assert_eq!(mode_of("-C"), Mode::Configure);
    assert_eq!(mode_of("/c:1234"), Mode::Configure);
    assert_eq!(mode_of("-configure"), Mode::Configure);
}

#[test]
fn switch_s_selects_the_screen_saver() {
    assert_eq!(mode_of("/s"), Mode::Screensaver);
    assert_eq!(mode_of("-s"), Mode::Screensaver);
    assert_eq!(mode_of("/S"), Mode::Screensaver);
    assert_eq!(mode_of("-Start"), Mode::Screensaver);
}

#[test]
fn switch_p_selects_the_preview() {
    assert_eq!(mode_of("/p"), Mode::Preview);
    assert_eq!(mode_of("-p"), Mode::Preview);
    assert_eq!(mode_of("/P 5678"), Mode::Preview);
}

#[test]
fn anything_else_selects_a_window() {
    assert_eq!(mode_of(""), Mode::Windowed);
    assert_eq!(mode_of("/"), Mode::Windowed);
    assert_eq!(mode_of("-"), Mode::Windowed);
    assert_eq!(mode_of("c"), Mode::Windowed);
    assert_eq!(mode_of("/x"), Mode::Windowed);
    assert_eq!(mode_of("--c"), Mode::Windowed);
    assert_eq!(mode_of(" /c"), Mode::Windowed);
    assert_eq!(mode_of("\\c"), Mode::Windowed);
    assert_eq!(mode_of("/\u{e7}"), Mode::Windowed);
}

#[test]
fn launch_mode_reads_the_argument_behind_the_name() {
    assert_eq!(launch_mode(&args(&[])), Mode::Windowed);
    assert_eq!(launch_mode(&args(&["saver"])), Mode::Windowed);
    assert_eq!(launch_mode(&args(&["/s"])), Mode::Windowed);
    assert_eq!(launch_mode(&args(&["saver", "/s"])), Mode::Screensaver);
    assert_eq!(launch_mode(&args(&["saver", "/c:99"])), Mode::Configure);
    assert_eq!(launch_mode(&args(&["saver", "/p", "/s"])), Mode::Preview);
    assert_eq!(launch_mode(&args(&["saver", "x", "/s"])), Mode::Windowed);
}

#[test]
fn each_mode_has_its_window() {
    assert_eq!(
        window_conf(Mode::Configure),
        Some(WindowConf { fullscreen: false, width: 500, height: 350 })
    );
    assert_eq!(
        window_conf(Mode::Screensaver),
        Some(WindowConf { fullscreen: true, width: 0, height: 0 })
    );
    assert_eq!(window_conf(Mode::Preview), None);
    assert_eq!(
        window_conf(Mode::Windowed),
        Some(WindowConf { fullscreen: false, width: 800, height: 600 })
    );
}
