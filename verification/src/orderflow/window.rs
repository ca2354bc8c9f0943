//! The user-selectable rolling windows of Trade Speed and Book Speed.
use vstd::prelude::*;

use crate::orderflow::speed::SpeedConfig;

verus! {

/// User-selectable rolling window used by Trade Speed and Book Speed.
#[derive(Debug, Clone, Copy, PartialEq, Eq, Structural, Hash)]
pub enum SpeedWindow {
    Ms250,
    Ms500,
    S1,
    S2,
    S5,
    S10,
}

/// Length of each window in milliseconds.
pub open spec fn window_millis(w: SpeedWindow) -> u64 {
    match w {
        SpeedWindow::Ms250 => 250,
        SpeedWindow::Ms500 => 500,
        SpeedWindow::S1 => 1_000,
        SpeedWindow::S2 => 2_000,
        SpeedWindow::S5 => 5_000,
        SpeedWindow::S10 => 10_000,
    }
}

/// Position of each window in `SpeedWindow::all()`.
pub open spec fn window_rank(w: SpeedWindow) -> int {
    match w {
        SpeedWindow::Ms250 => 0,
        SpeedWindow::Ms500 => 1,
        SpeedWindow::S1 => 2,
        SpeedWindow::S2 => 3,
        SpeedWindow::S5 => 4,
        SpeedWindow::S10 => 5,
    }
}

impl SpeedWindow {
    /// The window selected when nothing else is configured.
    pub fn default_window() -> (r: Self)
        ensures
            r == SpeedWindow::S1,
    {
        SpeedWindow::S1
    }

    /// Every window, shortest first.
    pub fn all() -> (r: Vec<Self>)
        ensures
            r@.len() == 6,
            forall|i: int| 0 <= i < 6 ==> window_rank(#[trigger] r@[i]) == i,
    {
        vec![
            SpeedWindow::Ms250,
            SpeedWindow::Ms500,
            SpeedWindow::S1,
            SpeedWindow::S2,
            SpeedWindow::S5,
            SpeedWindow::S10,
        ]
    }

    pub fn millis(self) -> (r: u64)
        ensures
            r == window_millis(self),
    {
        match self {
            SpeedWindow::Ms250 => 250,
            SpeedWindow::Ms500 => 500,
            SpeedWindow::S1 => 1_000,
            SpeedWindow::S2 => 2_000,
            SpeedWindow::S5 => 5_000,
            SpeedWindow::S10 => 10_000,
        }
    }

    /// Short label shown in the window picker.
    pub fn label(self) -> (r: &'static str)
        ensures
            r@ == window_label(self)@,
    {
        match self {
            SpeedWindow::Ms250 => "250ms",
            SpeedWindow::Ms500 => "500ms",
            SpeedWindow::S1 => "1s",
            SpeedWindow::S2 => "2s",
            SpeedWindow::S5 => "5s",
            SpeedWindow::S10 => "10s",
        }
    }

    /// The speed configuration that uses this window.
    pub fn to_config(self) -> (r: SpeedConfig)
        ensures
            r.window_ms == window_millis(self),
    {
        SpeedConfig::new(self.millis())
    }
}

/// Label of each window.
pub open spec fn window_label(w: SpeedWindow) -> &'static str {
    match w {
        SpeedWindow::Ms250 => "250ms",
        SpeedWindow::Ms500 => "500ms",
        SpeedWindow::S1 => "1s",
        SpeedWindow::S2 => "2s",
        SpeedWindow::S5 => "5s",
        SpeedWindow::S10 => "10s",
    }
}

/// Windows are listed strictly shortest first: a longer rank is a longer window.
pub proof fn lemma_windows_strictly_increasing(a: SpeedWindow, b: SpeedWindow)
    requires
        window_rank(a) < window_rank(b),
    ensures
        window_millis(a) < window_millis(b),
{
}

impl Default for SpeedWindow {
    fn default() -> (r: Self)
        ensures
            r == SpeedWindow::S1,
    {
        SpeedWindow::default_window()
    }
}

} // verus!
