//! What the display reports back: the signals of its window, and whether
//! they ask to close.

use vstd::prelude::*;

verus! {

/// One signal from the window of the display.
#[derive(Clone, Copy, Debug, PartialEq, Eq, Structural)]
pub enum WindowSignal {
    /// The window was closed.
    Closed,
    /// The escape key was pressed or released.
    Escape,
    /// The window was resized to this width and height.
    Resized(u32, u32),
    /// Anything else.
    Other,
}

/// The signal asks the display to close: the window was closed, or escape
/// was used.
pub open spec fn asks_to_close(signal: WindowSignal) -> bool {
    signal == WindowSignal::Closed || signal == WindowSignal::Escape
}

/// Tells whether one signal asks to close.
pub fn requests_close(signal: WindowSignal) -> (close: bool)
    ensures
        close == asks_to_close(signal),
{
    match signal {
        WindowSignal::Closed => true,
        WindowSignal::Escape => true,
        WindowSignal::Resized(_, _) => false,
        WindowSignal::Other => false,
    }
}

/// Tells whether any of the signals polled since the last frame asks to
/// close.
pub fn close_requested(signals: &Vec<WindowSignal>) -> (close: bool)
    ensures
        close == exists|i: int| 0 <= i < signals@.len() && asks_to_close(#[trigger] signals@[i]),
{
    let mut close: bool = false;
    let mut i: usize = 0;
    while i < signals.len()
        invariant
            i <= signals.len(),
            close == exists|k: int| 0 <= k < i && asks_to_close(#[trigger] signals@[k]),
        decreases signals.len() - i,
    {
        if requests_close(signals[i]) {
            close = true;
        }
        i = i + 1;
    }
    close
}

} // verus!
