use vstd::prelude::*;

verus! {

/// How long a status message stays on screen, in milliseconds.
pub const MESSAGE_DURATION_MS: u64 = 5000;

/// A notice for the operator and the time it was given, in milliseconds of
/// a clock that the caller keeps.
#[derive(Debug)]
pub struct StatusMessage {
    pub text: Vec<char>,
    pub time: u64,
}

/// Whether a message given at `time` still shows at `now`: its age is under
/// the display duration (a clock that went back counts as age 0).
pub open spec fn shows(time: u64, now: u64) -> bool {
    now < time || now - time < MESSAGE_DURATION_MS
}

impl StatusMessage {
    /// A message with `text`, given at `now`.
    pub fn new(text: Vec<char>, now: u64) -> (r: StatusMessage)
        ensures
            r.text@ == text@,
            r.time == now,
    {
        StatusMessage { text, time: now }
    }

    /// Whether the message still shows at `now`.
    pub fn is_visible(&self, now: u64) -> (r: bool)
        ensures
            r == shows(self.time, now),
    {
        now < self.time || now - self.time < MESSAGE_DURATION_MS
    }
}

} // verus!
