use vstd::prelude::*;
use crate::protocol::{notify_json, Event};

verus! {

/// The status channel's verbosity filter: a message becomes a `notify`
/// line only when its level is within the configured one.
pub struct Logger(u64);

impl Logger {
    /// The configured verbosity.
    pub closed spec fn level(self) -> u64 {
        self.0
    }

    pub fn new(level: u64) -> (l: Logger)
        ensures
            l.level() == level,
    {
        Logger(level)
    }

    /// The encoded `notify` line to emit for this message, when its level
    /// is within the configured one; nothing otherwise.
    pub fn log(&self, msg: &str, level: u64) -> (r: Option<String>)
        ensures
            match r {
                Some(line) => level <= self.level() && line@ == notify_json(msg@),
                None => level > self.level(),
            },
    {
        if level <= self.0 {
            let e = Event::Notify(msg.to_owned());
            Some(e.encode())
        } else {
            None
        }
    }

    /// A debugging message, at the most verbose level.
    pub fn debug(&self, msg: &str) -> (r: Option<String>)
        ensures
            match r {
                Some(line) => 3 <= self.level() && line@ == notify_json(msg@),
                None => 3 > self.level(),
            },
    {
        self.log(msg, 3)
    }

    /// A progress message.
    pub fn verbose(&self, msg: &str) -> (r: Option<String>)
        ensures
            match r {
                Some(line) => 2 <= self.level() && line@ == notify_json(msg@),
                None => 2 > self.level(),
            },
    {
        self.log(msg, 2)
    }

    /// A status message the user is meant to see.
    pub fn status(&self, msg: &str) -> (r: Option<String>)
        ensures
            match r {
                Some(line) => 1 <= self.level() && line@ == notify_json(msg@),
                None => 1 > self.level(),
            },
    {
        self.log(msg, 1)
    }

    /// An error message: emitted at every verbosity.
    pub fn error(&self, msg: &str) -> (r: Option<String>)
        ensures
            match r {
                Some(line) => line@ == notify_json(msg@),
                None => false,
            },
    {
        self.log(msg, 0)
    }
}

} // verus!
