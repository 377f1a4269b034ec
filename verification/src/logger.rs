//! The log buffer and the cursor of the window that shows it.

use vstd::prelude::*;

verus! {

/// How severe a log record is.
#[derive(Debug, Clone, Copy, PartialEq, Eq, Structural)]
pub enum Level {
    Error,
    Warn,
    Info,
    Debug,
    Trace,
}

/// One logged message.
#[derive(Debug)]
pub struct LogRecord {
    pub level: Level,
    pub msg: String,
}

/// The records logged so far, and the index of the first one shown.
pub struct Logger {
    pub items: Vec<LogRecord>,
    pub index: usize,
}

/// Number of records the log window shows at once.
pub const LOG_WINDOW: usize = 8;

/// The window's first record after one more record has arrived: it moves so
/// that the newest record stays in view.
pub open spec fn index_after_log(index: nat, len_after: nat) -> nat {
    if len_after - index > LOG_WINDOW {
        (len_after - LOG_WINDOW) as nat
    } else {
        index
    }
}

/// Whether `b` is `a` scrolled by one record: towards the newest if
/// `forward`, else towards the oldest; the window stops at either end.
pub open spec fn scrolled(a: Logger, b: Logger, forward: bool) -> bool {
    &&& b.items == a.items
    &&& b.index == if forward {
        if a.items@.len() > 0 && a.index < a.items@.len() - 1 {
            a.index + 1
        } else {
            a.index as int
        }
    } else {
        if a.index > 0 {
            a.index - 1
        } else {
            0
        }
    }
}

impl Logger {
    /// The window starts at a record, or at 0 while there is none.
    pub open spec fn wf(&self) -> bool {
        self.index == 0 || self.index < self.items@.len()
    }

    /// An empty log.
    pub fn new() -> (r: Self)
        ensures
            r.wf(),
            r.items@.len() == 0,
            r.index == 0,
    {
        Logger { items: Vec::new(), index: 0 }
    }

    /// Scrolls one record towards the newest; stays at the last record.
    pub fn next(&mut self)
        ensures
            scrolled(*old(self), *final(self), true),
            old(self).wf() ==> final(self).wf(),
    {
        let len = self.items.len();
        if len > 0 && self.index < len - 1 {
            self.index = self.index + 1;
        }
    }

    /// Scrolls one record towards the oldest; stays at the first record.
    pub fn prev(&mut self)
        ensures
            scrolled(*old(self), *final(self), false),
            old(self).wf() ==> final(self).wf(),
    {
        if self.index > 0 {
            self.index = self.index - 1;
        }
    }

    /// Appends a record and keeps it in view.
    pub fn log(&mut self, record: LogRecord)
        requires
            old(self).wf(),
        ensures
            final(self).wf(),
            final(self).items@ == old(self).items@.push(record),
            final(self).index == index_after_log(old(self).index as nat, final(self).items@.len()),
    {
        self.items.push(record);
        let len = self.items.len();
        if len - self.index > LOG_WINDOW {
            self.index = len - LOG_WINDOW;
        }
    }
}

} // verus!
