//! How the program was started: the switch on its command line chooses
//! between showing the screen saver, its settings, a preview, or a window
//! for trying things out.

use vstd::prelude::*;
use vstd::string::StrSliceExecFns;

verus! {

/// What the program was started for.
#[derive(Clone, Copy, Debug, PartialEq, Eq, Structural)]
pub enum Mode {
    /// Edit the settings, in a small window.
    Configure,
    /// Run the screen saver over the whole screen.
    Screensaver,
    /// Preview inside another window: nothing is shown.
    Preview,
    /// Run the screen saver in a window.
    Windowed,
}

/// The window to open.
#[derive(Clone, Copy, Debug, PartialEq, Eq, Structural)]
pub struct WindowConf {
    pub fullscreen: bool,
    pub width: i32,
    pub height: i32,
}

/// Whether `arg` starts with the switch for `letter`: a slash or a dash,
/// then the letter in either case. What follows does not matter.
pub open spec fn is_switch(arg: Seq<char>, letter: char, capital: char) -> bool {
    &&& arg.len() >= 2
    &&& (arg[0] == '/' || arg[0] == '-')
    &&& (arg[1] == letter || arg[1] == capital)
}

/// The mode that a first argument asks for.
pub open spec fn mode_of_arg(arg: Seq<char>) -> Mode {
    if is_switch(arg, 'c', 'C') {
        Mode::Configure
    } else if is_switch(arg, 's', 'S') {
        Mode::Screensaver
    } else if is_switch(arg, 'p', 'P') {
        Mode::Preview
    } else {
        Mode::Windowed
    }
}

/// The mode that a command line asks for: that of the argument behind the
/// program's name, or a window if there is none.
pub open spec fn mode_spec(args: Seq<String>) -> Mode {
    if args.len() > 1 {
        mode_of_arg(args[1]@)
    } else {
        Mode::Windowed
    }
}

/// The window of each mode; a preview opens none.
pub open spec fn window_conf_spec(mode: Mode) -> Option<WindowConf> {
    match mode {
        Mode::Configure => Some(WindowConf { fullscreen: false, width: 500, height: 350 }),
        Mode::Screensaver => Some(WindowConf { fullscreen: true, width: 0, height: 0 }),
        Mode::Preview => None,
        Mode::Windowed => Some(WindowConf { fullscreen: false, width: 800, height: 600 }),
    }
}

/// The mode that a first argument asks for.
pub fn mode_of(arg: &str) -> (mode: Mode)
    ensures
        mode == mode_of_arg(arg@),
{
    if arg.unicode_len() < 2 {
        return Mode::Windowed;
    }
    let lead: char = arg.get_char(0);
    let letter: char = arg.get_char(1);
    if lead != '/' && lead != '-' {
        Mode::Windowed
    } else if letter == 'c' || letter == 'C' {
        Mode::Configure
    } else if letter == 's' || letter == 'S' {
        Mode::Screensaver
    } else if letter == 'p' || letter == 'P' {
        Mode::Preview
    } else {
        Mode::Windowed
    }
}

/// The mode that a command line asks for.
pub fn launch_mode(args: &Vec<String>) -> (mode: Mode)
    ensures
        mode == mode_spec(args@),
{
    if args.len() > 1 {
        mode_of(args[1].as_str())
    } else {
        Mode::Windowed
    }
}

/// The window to open for a mode, or `None` where the program is to leave
/// at once.
pub fn window_conf(mode: Mode) -> (conf: Option<WindowConf>)
    ensures
        conf == window_conf_spec(mode),
{
    match mode {
        Mode::Configure => Some(WindowConf { fullscreen: false, width: 500, height: 350 }),
        Mode::Screensaver => Some(WindowConf { fullscreen: true, width: 0, height: 0 }),
        Mode::Preview => None,
        Mode::Windowed => Some(WindowConf { fullscreen: false, width: 800, height: 600 }),
    }
}

} // verus!
