//! How a spinner looks.

use vstd::prelude::*;

verus! {

/// The dots that a spinner shows in turn.
pub const BRAILLE_DOTS: [&'static str; 8] = ["⠁", "⠂", "⠄", "⡀", "⢀", "⠠", "⠐", "⠈"];

/// The blocks that a spinner shows in turn.
pub const BLOCK_DOTS: [&'static str; 8] = ["▁", "▂", "▃", "▄", "▅", "▆", "▇", "█"];

/// What a spinner shows beside its message.
#[derive(Clone, Copy, Debug, PartialEq, Eq, Structural)]
pub enum SpinnerTemplate {
    /// A row of dots that grows.
    Dots,
    /// One of the `BRAILLE_DOTS`.
    Braille,
    /// One of the `BLOCK_DOTS`.
    Block,
}

/// How a spinner looks.
#[derive(Clone, Copy, Debug, PartialEq, Eq, Structural)]
pub struct SpinnerStyle {
    /// What the spinner shows beside its message.
    pub template: SpinnerTemplate,
}

impl Default for SpinnerStyle {
    fn default() -> (style: Self)
        ensures
            style.template == SpinnerTemplate::Braille,
    {
        SpinnerStyle { template: SpinnerTemplate::Braille }
    }
}

} // verus!
