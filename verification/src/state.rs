//! The integer part of the interactive view state, and the discrete
//! commands that drive it.
//!
//! The state owns everything the renderer needs apart from the camera: the
//! fractal and coloring selections, the iteration bound, and the two
//! overlay toggles. Input handling outside this crate decodes key strokes
//! into [`StateCommand`] values; applying a command is a verified
//! transition on plain values.

use vstd::prelude::*;

use crate::math::ColorType;
use crate::math::FractalType;

verus! {

/// The iteration bound a fresh view starts from.
pub const DEFAULT_MAX_ITERATIONS: u32 = 40;

/// How far one command moves the Multibrot exponent, in hundredths.
pub const MULTIBROT_EXPONENT_STEP: i64 = 5;

/// One discrete adjustment of the view state.
#[derive(Clone, Copy, Debug, PartialEq, Eq, Structural)]
pub enum StateCommand {
    /// Double the iteration bound, saturating at the largest `u32`.
    IncreaseMaxIterations,
    /// Halve the iteration bound, stopping at one.
    DecreaseMaxIterations,
    /// Cycle to the next fractal selection.
    NextFractal,
    /// Cycle to the previous fractal selection.
    PrevFractal,
    /// Cycle to the next coloring scheme.
    NextColor,
    /// Cycle to the previous coloring scheme.
    PrevColor,
    /// Flip whether the crosshair overlay is drawn.
    ToggleCrosshair,
    /// Flip whether the textual overlay is drawn.
    ToggleUi,
    /// Raise the Multibrot exponent by one step.
    IncreaseMultibrotExponent,
    /// Lower the Multibrot exponent by one step.
    DecreaseMultibrotExponent,
}

/// The view state apart from the camera: what is rendered, how it is
/// colored, how many iterations bound the escape-time loop, and which
/// overlays are shown.
#[derive(Clone, Copy, Debug, PartialEq, Eq, Structural)]
pub struct State {
    pub selected_fractal_type: FractalType,
    pub selected_color_type: ColorType,
    pub max_iterations: u32,
    pub show_crosshair: bool,
    pub show_ui: bool,
}

impl State {
    /// The iteration bound is positive.
    pub open spec fn wf(self) -> bool {
        1 <= self.max_iterations
    }

    /// The state a session starts from: the default fractal and coloring,
    /// the default iteration bound, and both overlays shown.
    pub fn new() -> (s: State)
        ensures
            s.wf(),
            s == (State {
                selected_fractal_type: FractalType::Mandelbrot,
                selected_color_type: ColorType::Histogram,
                max_iterations: DEFAULT_MAX_ITERATIONS,
                show_crosshair: true,
                show_ui: true,
            }),
    {
        State {
            selected_fractal_type: FractalType::default(),
            selected_color_type: ColorType::default(),
            max_iterations: DEFAULT_MAX_ITERATIONS,
            show_crosshair: true,
            show_ui: true,
        }
    }

    /// The state after one command. Every command changes exactly the part
    /// of the state it names and leaves the rest alone.
    pub open spec fn spec_apply(self, cmd: StateCommand) -> State {
        match cmd {
            StateCommand::IncreaseMaxIterations => (State {
                max_iterations: if 2 * self.max_iterations <= u32::MAX {
                    (2 * self.max_iterations) as u32
                } else {
                    u32::MAX
                },
                ..self
            }),
            StateCommand::DecreaseMaxIterations => (State {
                max_iterations: if self.max_iterations / 2 >= 1 {
                    self.max_iterations / 2
                } else {
                    self.max_iterations
                },
                ..self
            }),
            StateCommand::NextFractal => (State {
                selected_fractal_type: FractalType::spec_from_id(
                    (self.selected_fractal_type.spec_id() + 1) as u8,
                ),
                ..self
            }),
            StateCommand::PrevFractal => (State {
                selected_fractal_type: FractalType::spec_from_id(
                    (self.selected_fractal_type.spec_id() + 1) as u8,
                ),
                ..self
            }),
            StateCommand::NextColor => (State {
                selected_color_type: ColorType::spec_from_id(
                    (self.selected_color_type.spec_id() + 1) as u8,
                ),
                ..self
            }),
            StateCommand::PrevColor => (State {
                selected_color_type: ColorType::spec_from_id(
                    (self.selected_color_type.spec_id() + 2) as u8,
                ),
                ..self
            }),
            StateCommand::ToggleCrosshair => (State { show_crosshair: !self.show_crosshair, ..self }),
            StateCommand::ToggleUi => (State { show_ui: !self.show_ui, ..self }),
            StateCommand::IncreaseMultibrotExponent => (State {
                selected_fractal_type: self.selected_fractal_type.spec_change(
                    MULTIBROT_EXPONENT_STEP as int,
                ),
                ..self
            }),
            StateCommand::DecreaseMultibrotExponent => (State {
                selected_fractal_type: self.selected_fractal_type.spec_change(
                    -MULTIBROT_EXPONENT_STEP as int,
                ),
                ..self
            }),
        }
    }

    /// Applies one command to the state.
    pub fn handle_command(&mut self, cmd: StateCommand)
        requires
            old(self).wf(),
        ensures
            final (self).wf(),
            *final (self) == old(self).spec_apply(cmd),
    {
        match cmd {
            StateCommand::IncreaseMaxIterations => {
                if self.max_iterations <= u32::MAX / 2 {
                    self.max_iterations = 2 * self.max_iterations;
                } else {
                    self.max_iterations = u32::MAX;
                }
            },
            StateCommand::DecreaseMaxIterations => {
                let halved = self.max_iterations / 2;
                if halved >= 1 {
                    self.max_iterations = halved;
                }
            },
            StateCommand::NextFractal => {
                self.selected_fractal_type = self.selected_fractal_type.next();
            },
            StateCommand::PrevFractal => {
                self.selected_fractal_type = self.selected_fractal_type.prev();
            },
            StateCommand::NextColor => {
                self.selected_color_type = self.selected_color_type.next();
            },
            StateCommand::PrevColor => {
                self.selected_color_type = self.selected_color_type.prev();
            },
            StateCommand::ToggleCrosshair => {
                self.show_crosshair = !self.show_crosshair;
            },
            StateCommand::ToggleUi => {
                self.show_ui = !self.show_ui;
            },
            StateCommand::IncreaseMultibrotExponent => {
                self.selected_fractal_type.change_multi_parametr(MULTIBROT_EXPONENT_STEP);
            },
            StateCommand::DecreaseMultibrotExponent => {
                self.selected_fractal_type.change_multi_parametr(-MULTIBROT_EXPONENT_STEP);
            },
        }
    }
}

impl Default for State {
    /// The default state is the one a session starts from.
    fn default() -> (s: State)
        ensures
            s == (State {
                selected_fractal_type: FractalType::Mandelbrot,
                selected_color_type: ColorType::Histogram,
                max_iterations: DEFAULT_MAX_ITERATIONS,
                show_crosshair: true,
                show_ui: true,
            }),
    {
        State::new()
    }
}

/// However the iteration bound is pushed around, it stays positive: both
/// iteration commands keep a well-formed state well-formed, and halving
/// stops at one instead of reaching zero.
pub proof fn lemma_max_iterations_stays_positive(s: State, cmd: StateCommand)
    requires
        s.wf(),
    ensures
        s.spec_apply(cmd).wf(),
{
}

} // verus!
