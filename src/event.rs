use vstd::prelude::*;
use crate::semantics::SemanticsUpdate;
use crate::tasks::EngineTask;
use crate::text_input::PlatformMessage;
use crate::viewport::TerminalEvent;

verus! {

/// What reaches the event loop from the engine's threads and from the
/// terminal's input thread; `T` is the engine's task, `R` the handle an
/// answer to a platform message quotes.
pub enum PlatformTask<T, R> {
    /// The engine changed part of the accessibility tree.
    UpdateSemantics(Vec<SemanticsUpdate>),
    /// The engine painted a frame of `width` by `height` pixels; `buffer`
    /// holds four bytes a pixel, in the order blue, green, red, alpha.
    Draw { width: usize, height: usize, buffer: Vec<u8> },
    /// The engine posted a task for the platform thread.
    EngineTask(EngineTask<T>),
    /// The engine sent a message on a platform channel.
    PlatformMessage(PlatformMessage<R>),
    /// The engine logged a message.
    LogMessage { tag: String, message: String },
    /// The terminal reported input, already turned into pixels.
    TerminalEvent(TerminalEvent),
}

} // verus!
