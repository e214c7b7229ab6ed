//! A session: its frames, buffers, variables, processes and coding systems.
use crate::coding::{CodingSystemManager, Codings};
use crate::process::{ProcessManager, ProcessState};
use crate::symbol::{Obarray, Symbols};
use crate::window_cmds::state::{Ui, UiState};
use vstd::prelude::*;

verus! {

/// What a session is.
pub struct SessionState {
    pub ui: UiState,
    pub symbols: Symbols,
    pub processes: Seq<ProcessState>,
    pub codings: Codings,
    pub recursive_depth: usize,
}

/// A session.
#[derive(Debug, PartialEq, Eq)]
pub struct Session {
    pub ui: Ui,
    pub obarray: Obarray,
    pub processes: ProcessManager,
    pub codings: CodingSystemManager,
    pub recursive_depth: usize,
}

impl View for Session {
    type V = SessionState;

    open spec fn view(&self) -> SessionState {
        SessionState {
            ui: self.ui@,
            symbols: self.obarray@,
            processes: self.processes@,
            codings: self.codings@,
            recursive_depth: self.recursive_depth,
        }
    }
}

impl SessionState {
    /// How many command loops run inside the first one.
    pub open spec fn loop_depth(self) -> int {
        if self.recursive_depth == 0 {
            0
        } else {
            self.recursive_depth - 1
        }
    }
}

impl Session {
    /// How many command loops run inside the first one.
    pub fn recursive_command_loop_depth(&self) -> (r: usize)
        ensures
            r == self@.loop_depth(),
    {
        if self.recursive_depth == 0 {
            0
        } else {
            self.recursive_depth - 1
        }
    }
}

} // verus!
