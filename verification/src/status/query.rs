use vstd::prelude::*;

verus! {

/// Terminal process state
#[derive(Debug, Clone, Copy, PartialEq, Eq, Structural)]
pub enum TerminalState {
    Running,
    Idle,
    WaitingForInput,
    Exited,
}

/// Lightweight status response (token-optimized)
pub struct TerminalStatus {
    pub state: TerminalState,
    pub exit_code: Option<i32>,
    pub running_command: Option<String>,
    pub last_lines: Vec<String>,
    pub cursor_pos: (usize, usize),
    pub cursor_visible: bool,
    pub mouse_pos: (u16, u16),
    pub dirty: bool,
    pub changed_rows: Vec<usize>,
    pub pending_events: usize,
    pub size: (usize, usize),
    pub scrollback_lines: usize,
    pub has_new_content: bool,
}

/// How a state is written in status reports.
pub open spec fn state_name(s: TerminalState) -> Seq<char> {
    match s {
        TerminalState::Running => "running"@,
        TerminalState::Idle => "idle"@,
        TerminalState::WaitingForInput => "waiting_for_input"@,
        TerminalState::Exited => "exited"@,
    }
}

/// The state that the process observations indicate: exited when the
/// process is gone or has an exit code, waiting for input when the shell
/// itself is in the foreground, idle after more than 500 ms without output,
/// running otherwise.
pub open spec fn detected_state(
    is_alive: bool,
    exit_code: Option<i32>,
    last_output_ms: Option<u64>,
    foreground_is_shell: bool,
) -> TerminalState {
    if !is_alive || exit_code is Some {
        TerminalState::Exited
    } else if foreground_is_shell {
        TerminalState::WaitingForInput
    } else if last_output_ms matches Some(ms) && ms > 500 {
        TerminalState::Idle
    } else {
        TerminalState::Running
    }
}

impl TerminalState {
    /// Detect state from emulator info
    pub fn detect(
        is_alive: bool,
        exit_code: Option<i32>,
        last_output_ms: Option<u64>,
        foreground_is_shell: bool,
    ) -> (s: Self)
        ensures
            s == detected_state(is_alive, exit_code, last_output_ms, foreground_is_shell),
    {
        if !is_alive || exit_code.is_some() {
            return TerminalState::Exited;
        }
        // If the foreground process is the shell itself, likely waiting for input
        if foreground_is_shell {
            return TerminalState::WaitingForInput;
        }
        // If no output for >500ms, consider idle
        if let Some(ms) = last_output_ms {
            if ms > 500 {
                return TerminalState::Idle;
            }
        }
        TerminalState::Running
    }

    /// The state's name in status reports (`running`, `idle`,
    /// `waiting_for_input`, `exited`).
    pub fn to_string(&self) -> (s: String)
        ensures
            s@ == state_name(*self),
    {
        let name: &str = match self {
            TerminalState::Running => "running",
            TerminalState::Idle => "idle",
            TerminalState::WaitingForInput => "waiting_for_input",
            TerminalState::Exited => "exited",
        };
        name.to_owned()
    }
}

} // verus!
