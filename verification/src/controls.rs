//! Keyboard decisions of the interactive viewer: which key quits, which picks
//! a demo scene, which moves the camera, and the camera's override/pause
//! flags. The program polls the terminal and performs the chosen command.
use vstd::prelude::*;

verus! {

/// A key press, as far as the viewer tells keys apart.
#[derive(Clone, Copy, Debug, PartialEq, Eq, Structural)]
pub enum Key {
    Char(char),
    Up,
    Down,
    Left,
    Right,
    Tab,
    Other,
}

/// A manual camera move, or the pause toggle.
#[derive(Clone, Copy, Debug, PartialEq, Eq, Structural)]
pub enum CameraAction {
    PitchUp,
    PitchDown,
    YawLeft,
    YawRight,
    ZoomIn,
    ZoomOut,
    TogglePause,
}

/// What the program does with one key press.
#[derive(Clone, Copy, Debug, PartialEq, Eq, Structural)]
pub enum Command {
    Quit,
    LoadDemo(usize),
    Camera(CameraAction),
    Ignore,
}

/// The camera move bound to a key: `w`/Up and `s`/Down pitch, `a`/Left and
/// `d`/Right yaw, `+`/`=` zoom in, `-` zooms out, space pauses.
pub open spec fn key_action(key: Key) -> Option<CameraAction> {
    match key {
        Key::Char(c) => {
            if c == 'w' {
                Some(CameraAction::PitchUp)
            } else if c == 's' {
                Some(CameraAction::PitchDown)
            } else if c == 'a' {
                Some(CameraAction::YawLeft)
            } else if c == 'd' {
                Some(CameraAction::YawRight)
            } else if c == '+' || c == '=' {
                Some(CameraAction::ZoomIn)
            } else if c == '-' {
                Some(CameraAction::ZoomOut)
            } else if c == ' ' {
                Some(CameraAction::TogglePause)
            } else {
                None
            }
        },
        Key::Up => Some(CameraAction::PitchUp),
        Key::Down => Some(CameraAction::PitchDown),
        Key::Left => Some(CameraAction::YawLeft),
        Key::Right => Some(CameraAction::YawRight),
        _ => None,
    }
}

/// Whether a character is one of the digit keys `1` to `5` that pick a demo.
pub open spec fn is_demo_digit(c: char) -> bool {
    '1' as u32 <= c as u32 <= '5' as u32
}

/// The command for a key press. `q`, and `c` with Control, quit. In demo mode
/// Tab moves to the next demo (wrapping round) and `1`..`5` pick a demo by
/// number, a number past the last demo doing nothing; every other key goes to
/// the camera.
pub open spec fn key_command(
    key: Key,
    control: bool,
    demo_mode: bool,
    current_demo: nat,
    demo_count: nat,
) -> Command {
    if key == Key::Char('q') || (key == Key::Char('c') && control) {
        Command::Quit
    } else if key == Key::Tab && demo_mode {
        Command::LoadDemo(((current_demo + 1) % demo_count) as usize)
    } else if key is Char && demo_mode && is_demo_digit(key->0) {
        let index = (key->0 as u32 - '1' as u32) as nat;
        if index < demo_count {
            Command::LoadDemo(index as usize)
        } else {
            Command::Ignore
        }
    } else {
        match key_action(key) {
            Some(action) => Command::Camera(action),
            None => Command::Ignore,
        }
    }
}

/// The camera move bound to `key`, if any.
pub fn camera_action(key: Key) -> (action: Option<CameraAction>)
    ensures
        action == key_action(key),
{
    match key {
        Key::Char(c) => {
            if c == 'w' {
                Some(CameraAction::PitchUp)
            } else if c == 's' {
                Some(CameraAction::PitchDown)
            } else if c == 'a' {
                Some(CameraAction::YawLeft)
            } else if c == 'd' {
                Some(CameraAction::YawRight)
            } else if c == '+' || c == '=' {
                Some(CameraAction::ZoomIn)
            } else if c == '-' {
                Some(CameraAction::ZoomOut)
            } else if c == ' ' {
                Some(CameraAction::TogglePause)
            } else {
                None
            }
        },
        Key::Up => Some(CameraAction::PitchUp),
        Key::Down => Some(CameraAction::PitchDown),
        Key::Left => Some(CameraAction::YawLeft),
        Key::Right => Some(CameraAction::YawRight),
        _ => None,
    }
}

/// Decides what one key press does, given whether Control is held, whether
/// the viewer is in demo mode, which demo is showing and how many there are.
/// A demo it picks is always one that exists.
pub fn command_for(
    key: Key,
    control: bool,
    demo_mode: bool,
    current_demo: usize,
    demo_count: usize,
) -> (command: Command)
    requires
        current_demo < demo_count,
    ensures
        command == key_command(key, control, demo_mode, current_demo as nat, demo_count as nat),
        command matches Command::LoadDemo(index) ==> index < demo_count,
{
    match key {
        Key::Char(c) => {
            if c == 'q' || (c == 'c' && control) {
                return Command::Quit;
            }
            let code: u32 = c as u32;
            if demo_mode && '1' as u32 <= code && code <= '5' as u32 {
                let index: usize = (code - '1' as u32) as usize;
                if index < demo_count {
                    Command::LoadDemo(index)
                } else {
                    Command::Ignore
                }
            } else {
                match camera_action(key) {
                    Some(action) => Command::Camera(action),
                    None => Command::Ignore,
                }
            }
        },
        Key::Tab => {
            if demo_mode {
                let next: usize = if current_demo + 1 == demo_count {
                    0
                } else {
                    current_demo + 1
                };
                proof {
                    assert((current_demo as nat + 1) % (demo_count as nat) == next as nat)
                        by (nonlinear_arith)
                        requires
                            current_demo < demo_count,
                            next == (if current_demo + 1 == demo_count {
                                0
                            } else {
                                current_demo + 1
                            }),
                    ;
                }
                Command::LoadDemo(next)
            } else {
                Command::Ignore
            }
        },
        _ => {
            match camera_action(key) {
                Some(action) => Command::Camera(action),
                None => Command::Ignore,
            }
        },
    }
}

/// The camera's control flags: whether the user has taken the camera over
/// from its scripted path, and whether motion is paused.
#[derive(Clone, Copy, Debug, PartialEq, Eq, Structural)]
pub struct CameraMode {
    pub manual_override: bool,
    pub paused: bool,
}

/// What a frame's time step moves.
#[derive(Clone, Copy, Debug, PartialEq, Eq, Structural)]
pub enum Advance {
    /// Paused: nothing moves.
    Hold,
    /// Manual control: the orbit turns by itself.
    Rotate,
    /// Scripted: the camera animation's clock runs.
    Animate,
}

/// The flags after a camera action: the pause toggle flips `paused`, every
/// move hands the camera to the user.
pub open spec fn mode_after(mode: CameraMode, action: CameraAction) -> CameraMode {
    if action == CameraAction::TogglePause {
        CameraMode { paused: !mode.paused, ..mode }
    } else {
        CameraMode { manual_override: true, ..mode }
    }
}

impl CameraMode {
    /// A camera on its scripted path, running.
    pub fn new() -> (mode: CameraMode)
        ensures
            !mode.manual_override,
            !mode.paused,
    {
        CameraMode { manual_override: false, paused: false }
    }

    /// Applies a camera action to the flags.
    pub fn apply(self, action: CameraAction) -> (mode: CameraMode)
        ensures
            mode == mode_after(self, action),
    {
        match action {
            CameraAction::TogglePause => CameraMode { manual_override: self.manual_override, paused: !self.paused },
            _ => CameraMode { manual_override: true, paused: self.paused },
        }
    }

    /// The flags once a new camera script is set: scripted again, the pause
    /// left as it was.
    pub fn scripted(self) -> (mode: CameraMode)
        ensures
            !mode.manual_override,
            mode.paused == self.paused,
    {
        CameraMode { manual_override: false, paused: self.paused }
    }

    /// What a time step moves: nothing while paused, else the orbit under
    /// manual control, else the script's clock.
    pub fn advance(self) -> (step: Advance)
        ensures
            self.paused ==> step == Advance::Hold,
            !self.paused && self.manual_override ==> step == Advance::Rotate,
            !self.paused && !self.manual_override ==> step == Advance::Animate,
    {
        if self.paused {
            Advance::Hold
        } else if self.manual_override {
            Advance::Rotate
        } else {
            Advance::Animate
        }
    }

    /// Whether the camera is placed by the manual orbit rather than by the
    /// script: under manual control, or when there is no script.
    pub fn orbits(self, has_script: bool) -> (manual: bool)
        ensures
            manual == (self.manual_override || !has_script),
    {
        self.manual_override || !has_script
    }
}

/// Pressing pause twice leaves the camera's flags as they were.
pub proof fn lemma_pause_twice(mode: CameraMode)
    ensures
        mode_after(mode_after(mode, CameraAction::TogglePause), CameraAction::TogglePause) == mode,
{
}

/// After any camera move the user has control, whatever came before, and a
/// move does not touch the pause.
pub proof fn lemma_move_takes_control(mode: CameraMode, action: CameraAction)
    requires
        action != CameraAction::TogglePause,
    ensures
        mode_after(mode, action).manual_override,
        mode_after(mode, action).paused == mode.paused,
{
}

/// The quit keys quit in every state.
pub proof fn lemma_quit_keys(control: bool, demo_mode: bool, current_demo: nat, demo_count: nat)
    ensures
        key_command(Key::Char('q'), control, demo_mode, current_demo, demo_count) == Command::Quit,
        key_command(Key::Char('c'), true, demo_mode, current_demo, demo_count) == Command::Quit,
{
}

/// Outside demo mode no key changes the scene.
pub proof fn lemma_no_demo_switch_outside_demo_mode(
    key: Key,
    control: bool,
    current_demo: nat,
    demo_count: nat,
)
    ensures
        !(key_command(key, control, false, current_demo, demo_count) is LoadDemo),
{
}

/// Which key does which camera move, as a table read backwards: a move is
/// bound to exactly the keys listed for it, and no other key moves the camera.
pub proof fn lemma_key_bindings(key: Key)
    ensures
        key_action(key) == Some(CameraAction::PitchUp) <==> (key == Key::Char('w') || key == Key::Up),
        key_action(key) == Some(CameraAction::PitchDown) <==> (key == Key::Char('s') || key == Key::Down),
        key_action(key) == Some(CameraAction::YawLeft) <==> (key == Key::Char('a') || key == Key::Left),
        key_action(key) == Some(CameraAction::YawRight) <==> (key == Key::Char('d') || key == Key::Right),
        key_action(key) == Some(CameraAction::ZoomIn) <==> (key == Key::Char('+') || key == Key::Char('=')),
        key_action(key) == Some(CameraAction::ZoomOut) <==> key == Key::Char('-'),
        key_action(key) == Some(CameraAction::TogglePause) <==> key == Key::Char(' '),
        key_action(key) is None <==> !(key == Key::Char('w') || key == Key::Up || key == Key::Char('s')
            || key == Key::Down || key == Key::Char('a') || key == Key::Left || key == Key::Char('d')
            || key == Key::Right || key == Key::Char('+') || key == Key::Char('=') || key
            == Key::Char('-') || key == Key::Char(' ')),
{
}

/// A key that does not quit and, in demo mode, does not pick a demo (Tab or
/// a digit `1` to `5`) goes to the camera in either mode: it gives the move
/// bound to it, or nothing when it has none.
pub proof fn lemma_camera_keys_in_every_mode(
    key: Key,
    control: bool,
    demo_mode: bool,
    current_demo: nat,
    demo_count: nat,
)
    requires
        key != Key::Char('q'),
        !(key == Key::Char('c') && control),
        !(demo_mode && key == Key::Tab),
        !(demo_mode && (key matches Key::Char(c) && 49 <= c as u32 <= 53)),
    ensures
        key_command(key, control, demo_mode, current_demo, demo_count) == (match key_action(key) {
            Some(a) => Command::Camera(a),
            None => Command::Ignore,
        }),
        key_command(key, control, demo_mode, current_demo, demo_count) == key_command(
            key,
            control,
            !demo_mode,
            current_demo,
            demo_count,
        ) || (!demo_mode && (key == Key::Tab || (key matches Key::Char(c) && 49 <= c as u32 <= 53))),
{
}

/// In demo mode Tab moves to the next demo, wrapping from the last to the
/// first, and the digit `d` in `1`..`5` picks demo `d - 1` if there is one.
pub proof fn lemma_demo_keys(c: char, control: bool, current_demo: nat, demo_count: nat)
    requires
        current_demo < demo_count,
    ensures
        key_command(Key::Tab, control, true, current_demo, demo_count) == Command::LoadDemo(
            (if current_demo + 1 == demo_count {
                0
            } else {
                current_demo + 1
            }) as usize,
        ),
        49 <= c as u32 <= 53 && (c as u32 - 49) < demo_count ==> key_command(
            Key::Char(c),
            control,
            true,
            current_demo,
            demo_count,
        ) == Command::LoadDemo((c as u32 - 49) as usize),
        49 <= c as u32 <= 53 && (c as u32 - 49) >= demo_count ==> key_command(
            Key::Char(c),
            control,
            true,
            current_demo,
            demo_count,
        ) == Command::Ignore,
{
    if current_demo + 1 == demo_count {
        assert((current_demo + 1) % demo_count == 0) by (nonlinear_arith)
            requires current_demo + 1 == demo_count, demo_count > 0;
    } else {
        assert((current_demo + 1) % demo_count == current_demo + 1) by (nonlinear_arith)
            requires current_demo + 1 < demo_count;
    }
}

} // verus!
