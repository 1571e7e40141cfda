use vstd::prelude::*;
use std::collections::VecDeque;

verus! {

broadcast use vstd::std_specs::vecdeque::group_vec_dequeue_axioms;

/// Lines kept for the log window.
pub const LOG_LINES: usize = 4;

/// The last few log messages, oldest first.
pub struct LogWindow {
    lines: VecDeque<String>,
}

impl LogWindow {
    pub closed spec fn messages(&self) -> Seq<Seq<char>> {
        self.lines@.map_values(|l: String| l@)
    }

    pub fn new() -> (w: LogWindow)
        ensures
            w.messages().len() == 0,
    {
        LogWindow { lines: VecDeque::new() }
    }

    /// Adds a message; past `LOG_LINES` messages, the oldest goes.
    pub fn log(&mut self, message: String)
        requires
            old(self).messages().len() <= LOG_LINES,
        ensures
            final(self).messages().len() <= LOG_LINES,
            old(self).messages().len() < LOG_LINES ==> final(self).messages() == old(self).messages().push(message@),
            old(self).messages().len() == LOG_LINES ==> final(self).messages() == old(self).messages().skip(1).push(
                message@,
            ),
    {
        let ghost before = self.messages();
        if self.lines.len() == LOG_LINES {
            self.lines.pop_front();
        }
        self.lines.push_back(message);
        assert(self.messages() =~= if before.len() == LOG_LINES {
            before.skip(1).push(message@)
        } else {
            before.push(message@)
        });
    }

    /// The message on line `i` of the window, if there is one.
    pub fn line(&self, i: usize) -> (m: Option<&String>)
        ensures
            i < self.messages().len() ==> (m matches Some(s) && s@ == self.messages()[i as int]),
            i >= self.messages().len() ==> m is None,
    {
        if i < self.lines.len() {
            Some(&self.lines[i])
        } else {
            None
        }
    }
}

} // verus!
