use crate::connection::{read_step, write_step, Connection};
use crate::error::IoError;
use crate::handle::OpenOutcome;
use vstd::prelude::*;
use vstd::string::StringExecFns;

verus! {

/// The recommended pause between two open attempts, in milliseconds.
pub const RETRY_INTERVAL_MS: u64 = 500;

/// The recommended total budget for one selection's open attempts, in
/// milliseconds.
pub const RETRY_TIMEOUT_MS: u64 = 10000;

/// The recommended pause between two drain ticks, in milliseconds.
pub const READ_INTERVAL_MS: u64 = 20;

/// What one retry step tells the caller.
#[derive(Clone, Copy, Debug, PartialEq, Eq, Structural)]
pub enum RetryReport {
    /// The open attempt succeeded; the loop is over. Reported once.
    Connected,
    /// The attempt failed but the budget is not exhausted: try again after
    /// the interval, and tell nobody.
    Pending,
    /// The attempt failed and the budget is exhausted: the one terminal
    /// error of this selection. The loop is over.
    TimedOut,
}

/// The state of one connect-retry loop: how long it has waited so far and
/// the two durations it was configured with.
pub struct RetryState {
    waited_ms: u64,
    interval_ms: u64,
    timeout_ms: u64,
    done: bool,
}

/// Abstract state of a retry loop.
#[verifier::ext_equal]
pub ghost struct RetryStateView {
    pub waited_ms: u64,
    pub interval_ms: u64,
    pub timeout_ms: u64,
    pub done: bool,
}

impl View for RetryState {
    type V = RetryStateView;

    closed spec fn view(&self) -> RetryStateView {
        RetryStateView {
            waited_ms: self.waited_ms,
            interval_ms: self.interval_ms,
            timeout_ms: self.timeout_ms,
            done: self.done,
        }
    }
}

impl RetryStateView {
    /// The loop never overdraws its budget and always waits a while
    /// between attempts.
    pub open spec fn wf(self) -> bool {
        &&& self.interval_ms >= 1
        &&& self.waited_ms <= self.timeout_ms
    }
}

/// What one failed attempt does to the clock: the loop sleeps one interval,
/// and the budget is exhausted when that sleep would reach it.
pub open spec fn retry_exhausted(s: RetryStateView) -> bool {
    s.timeout_ms - s.waited_ms <= s.interval_ms
}

impl RetryState {
    /// A fresh loop for one selection: nothing waited, nothing reported.
    pub fn new(interval_ms: u64, timeout_ms: u64) -> (s: Self)
        requires
            interval_ms >= 1,
        ensures
            s@ == (RetryStateView { waited_ms: 0, interval_ms, timeout_ms, done: false }),
            s@.wf(),
    {
        RetryState { waited_ms: 0, interval_ms, timeout_ms, done: false }
    }

    /// True once a terminal report — success or the one timeout error —
    /// has been issued; the loop must not step further.
    pub fn is_done(&self) -> (r: bool)
        ensures
            r == self@.done,
    {
        self.done
    }

    /// One attempt came back. Success reports `Connected`, exactly once,
    /// however many failures preceded it. A failure within the budget
    /// reports `Pending` — logged at most, never a terminal error — and
    /// books one interval of waiting. A failure that exhausts the budget
    /// reports `TimedOut`, the single terminal error of this selection.
    pub fn step(&mut self, outcome: OpenOutcome) -> (r: RetryReport)
        requires
            old(self)@.wf(),
            !old(self)@.done,
        ensures
            final(self)@.wf(),
            final(self)@.interval_ms == old(self)@.interval_ms,
            final(self)@.timeout_ms == old(self)@.timeout_ms,
            outcome == OpenOutcome::Opened ==> r == RetryReport::Connected && final(self)@.done,
            outcome == OpenOutcome::Refused && !retry_exhausted(old(self)@) ==> {
                &&& r == RetryReport::Pending
                &&& !final(self)@.done
                &&& final(self)@.waited_ms == old(self)@.waited_ms + old(self)@.interval_ms
            },
            outcome == OpenOutcome::Refused && retry_exhausted(old(self)@) ==> r
                == RetryReport::TimedOut && final(self)@.done,
            r == RetryReport::Connected <==> outcome == OpenOutcome::Opened,
            final(self)@.done <==> (r == RetryReport::Connected || r == RetryReport::TimedOut),
    {
        match outcome {
            OpenOutcome::Opened => {
                self.done = true;
                RetryReport::Connected
            },
            OpenOutcome::Refused => {
                if self.timeout_ms - self.waited_ms <= self.interval_ms {
                    self.done = true;
                    RetryReport::TimedOut
                } else {
                    self.waited_ms = self.waited_ms + self.interval_ms;
                    RetryReport::Pending
                }
            },
        }
    }
}

/// One tick of the read-drain loop. Stops — returning `false` — as soon as
/// the connection is observed disconnected: no handle, or a background
/// task has exited. While connected it drains at most one buffered chunk,
/// appends it to `buffer` when it is non-empty, and asks to be called
/// again.
pub fn drain_tick(conn: &mut Connection, buffer: &mut Vec<String>) -> (more: bool)
    ensures
        more == old(conn)@.is_connected(),
        old(conn)@.is_connected() ==> {
            &&& final(conn)@ == read_step(old(conn)@).0
            &&& (match read_step(old(conn)@).1 {
                Ok(chunk) => if chunk.len() > 0 {
                    final(buffer).deep_view() == old(buffer).deep_view().push(chunk)
                } else {
                    final(buffer).deep_view() == old(buffer).deep_view()
                },
                Err(_) => final(buffer).deep_view() == old(buffer).deep_view(),
            })
        },
        !old(conn)@.is_connected() ==> final(conn)@ == old(conn)@ && final(buffer).deep_view()
            == old(buffer).deep_view(),
        old(conn)@.wf() ==> final(conn)@.wf(),
{
    if !conn.is_connected() {
        return false;
    }
    match conn.read() {
        Ok(chunk) => {
            if !chunk.as_str().is_empty() {
                buffer.push(chunk);
                proof {
                    assert(buffer.deep_view() =~= old(buffer).deep_view().push(
                        read_step(old(conn)@).1.unwrap(),
                    ));
                }
            }
        },
        Err(_) => {},
    }
    true
}

/// One line leaves the input box: remember it locally with its newline and
/// hand it to the connection. The local record is kept even when the write
/// fails, as the user did type the line.
pub fn send_line(conn: &mut Connection, sent: &mut Vec<String>, line: &str) -> (r: Result<
    (),
    IoError,
>)
    ensures
        final(sent).deep_view() == old(sent).deep_view().push(line@ + seq!['\n']),
        final(conn)@ == write_step(old(conn)@, line@ + seq!['\n']).0,
        r == write_step(old(conn)@, line@ + seq!['\n']).1,
        old(conn)@.wf() ==> final(conn)@.wf(),
{
    let mut msg = line.to_owned();
    msg.append("\n");
    proof {
        reveal_strlit("\n");
        assert(msg@ =~= line@ + seq!['\n']);
    }
    sent.push(msg.clone());
    proof {
        assert(sent.deep_view() =~= old(sent).deep_view().push(line@ + seq!['\n']));
    }
    conn.write(msg.as_str())
}

} // verus!
