use crate::error::IoError;
use vstd::prelude::*;

verus! {

/// What the OS said to one attempt to open the serial device.
#[derive(Clone, Copy, Debug, PartialEq, Eq, Structural)]
pub enum OpenOutcome {
    /// The descriptor was opened at the requested baud rate.
    Opened,
    /// The OS refused: permissions, device busy, or a nonexistent path.
    Refused,
}

/// Abstract state of a transport handle: the two channel queues and the
/// liveness of the two background tasks that serve them.
#[verifier::ext_equal]
pub ghost struct HandleView {
    /// Decoded chunks the read task has forwarded and the owner has not
    /// yet drained, oldest first.
    pub inbound: Seq<Seq<char>>,
    /// Messages the owner has enqueued and the write task has not yet
    /// put on the wire, oldest first.
    pub outbound: Seq<Seq<char>>,
    /// Whether the read task is still running.
    pub reader_alive: bool,
    /// Whether the write task is still running.
    pub writer_alive: bool,
}

impl HandleView {
    /// A handle is healthy iff both of its background tasks still run.
    pub open spec fn healthy(self) -> bool {
        self.reader_alive && self.writer_alive
    }

    /// A freshly opened handle: empty queues, both tasks running.
    pub open spec fn fresh() -> HandleView {
        HandleView {
            inbound: Seq::empty(),
            outbound: Seq::empty(),
            reader_alive: true,
            writer_alive: true,
        }
    }

    /// Both tasks stopped; whatever was queued stays buffered.
    pub open spec fn aborted(self) -> HandleView {
        HandleView { reader_alive: false, writer_alive: false, ..self }
    }
}

/// One successful `write`: the message joins the back of the outbound queue.
pub open spec fn after_write(h: HandleView, msg: Seq<char>) -> HandleView {
    HandleView { outbound: h.outbound.push(msg), ..h }
}

/// The handle after a sequence of successful `write` calls, issued in order.
pub open spec fn after_writes(h: HandleView, msgs: Seq<Seq<char>>) -> HandleView
    decreases msgs.len(),
{
    if msgs.len() == 0 {
        h
    } else {
        after_writes(after_write(h, msgs[0]), msgs.drop_first())
    }
}

/// One forwarded chunk: it joins the back of the inbound queue.
pub open spec fn after_deliver(h: HandleView, chunk: Seq<char>) -> HandleView {
    HandleView { inbound: h.inbound.push(chunk), ..h }
}

/// The handle after a sequence of chunks forwarded by the read task, in order.
pub open spec fn after_delivers(h: HandleView, chunks: Seq<Seq<char>>) -> HandleView
    decreases chunks.len(),
{
    if chunks.len() == 0 {
        h
    } else {
        after_delivers(after_deliver(h, chunks[0]), chunks.drop_first())
    }
}

/// Law: writes are queued in issue order. After any sequence of `write`
/// calls the outbound queue is the old queue extended by exactly those
/// messages, in order; nothing else about the handle moves.
pub proof fn lemma_writes_fifo(h: HandleView, msgs: Seq<Seq<char>>)
    ensures
        after_writes(h, msgs) == (HandleView { outbound: h.outbound + msgs, ..h }),
    decreases msgs.len(),
{
    if msgs.len() == 0 {
        assert(h.outbound + msgs =~= h.outbound);
        assert(after_writes(h, msgs) =~= (HandleView { outbound: h.outbound + msgs, ..h }));
    } else {
        lemma_writes_fifo(after_write(h, msgs[0]), msgs.drop_first());
        assert(h.outbound.push(msgs[0]) + msgs.drop_first() =~= h.outbound + msgs);
    }
}

/// Law: the stream the device sees is the concatenation of the written
/// strings in issue order. Starting from an empty outbound queue, after any
/// sequence of `write` calls the queue flattens to exactly the
/// concatenation of those messages.
pub proof fn lemma_written_stream(h: HandleView, msgs: Seq<Seq<char>>)
    requires
        h.outbound.len() == 0,
    ensures
        after_writes(h, msgs).outbound.flatten() == msgs.flatten(),
{
    lemma_writes_fifo(h, msgs);
    assert(h.outbound + msgs =~= msgs);
}

/// Law: forwarded chunks are buffered in arrival order. After any sequence
/// of chunks from the read task the inbound queue is the old queue extended
/// by exactly those chunks, in order; nothing else about the handle moves.
pub proof fn lemma_delivers_fifo(h: HandleView, chunks: Seq<Seq<char>>)
    ensures
        after_delivers(h, chunks) == (HandleView { inbound: h.inbound + chunks, ..h }),
    decreases chunks.len(),
{
    if chunks.len() == 0 {
        assert(h.inbound + chunks =~= h.inbound);
        assert(after_delivers(h, chunks) =~= (HandleView { inbound: h.inbound + chunks, ..h }));
    } else {
        lemma_delivers_fifo(after_deliver(h, chunks[0]), chunks.drop_first());
        assert(h.inbound.push(chunks[0]) + chunks.drop_first() =~= h.inbound + chunks);
    }
}

/// Law: no loss and no duplication on the inbound path. Starting from an
/// empty inbound queue, after any sequence of forwarded chunks the queue
/// holds exactly those chunks, so draining it returns their concatenation.
pub proof fn lemma_delivered_stream(h: HandleView, chunks: Seq<Seq<char>>)
    requires
        h.inbound.len() == 0,
    ensures
        after_delivers(h, chunks).inbound == chunks,
        after_delivers(h, chunks).inbound.flatten() == chunks.flatten(),
{
    lemma_delivers_fifo(h, chunks);
    assert(h.inbound + chunks =~= chunks);
}

/// The live transport: the owner's ends of the two channels plus the health
/// of the background read and write tasks, as the owner observes them.
pub struct Handle {
    inbound: Vec<String>,
    outbound: Vec<String>,
    reader_alive: bool,
    writer_alive: bool,
}

impl View for Handle {
    type V = HandleView;

    closed spec fn view(&self) -> HandleView {
        HandleView {
            inbound: self.inbound.deep_view(),
            outbound: self.outbound.deep_view(),
            reader_alive: self.reader_alive,
            writer_alive: self.writer_alive,
        }
    }
}

impl Handle {
    /// Opens a transport for `port` at `baud_rate`, given what the OS said
    /// to the attempt. Success yields a fresh handle with both tasks
    /// running; refusal yields `ConnectFailed` and no handle.
    pub fn open(port: &str, baud_rate: u32, outcome: OpenOutcome) -> (r: Result<Handle, IoError>)
        ensures
            (match r {
                Ok(h) => outcome == OpenOutcome::Opened && h@ == HandleView::fresh(),
                Err(e) => outcome == OpenOutcome::Refused && e == IoError::ConnectFailed,
            }),
    {
        match outcome {
            OpenOutcome::Opened => {
                let h = Handle {
                    inbound: Vec::new(),
                    outbound: Vec::new(),
                    reader_alive: true,
                    writer_alive: true,
                };
                proof {
                    assert(h@ =~= HandleView::fresh());
                }
                Ok(h)
            },
            OpenOutcome::Refused => Err(IoError::ConnectFailed),
        }
    }

    /// Non-blocking drain of at most one buffered inbound message: the
    /// oldest buffered chunk if one is queued; an empty string if nothing
    /// is queued and the read task still runs; `Disconnected` once the
    /// buffer is empty and the read task has exited.
    pub fn read(&mut self) -> (r: Result<String, IoError>)
        ensures
            old(self)@.inbound.len() > 0 ==> {
                &&& (r matches Ok(s) && s@ == old(self)@.inbound[0])
                &&& final(self)@ == (HandleView {
                    inbound: old(self)@.inbound.drop_first(),
                    ..old(self)@
                })
            },
            old(self)@.inbound.len() == 0 && old(self)@.reader_alive ==> {
                &&& (r matches Ok(s) && s@ == Seq::<char>::empty())
                &&& final(self)@ == old(self)@
            },
            old(self)@.inbound.len() == 0 && !old(self)@.reader_alive ==> {
                &&& r == Err::<String, IoError>(IoError::Disconnected)
                &&& final(self)@ == old(self)@
            },
    {
        if self.inbound.len() > 0 {
            let s = self.inbound.remove(0);
            proof {
                assert(self@.inbound =~= old(self)@.inbound.drop_first());
                assert(self@ =~= (HandleView { inbound: old(self)@.inbound.drop_first(), ..old(self)@ }));
            }
            Ok(s)
        } else if self.reader_alive {
            Ok(String::new())
        } else {
            Err(IoError::Disconnected)
        }
    }

    /// Fire-and-forget send: enqueues `content` for the write task, which
    /// preserves issue order. Fails with `Disconnected` once the write task
    /// has exited; nothing is queued then.
    pub fn write(&mut self, content: &str) -> (r: Result<(), IoError>)
        ensures
            old(self)@.writer_alive ==> {
                &&& r is Ok
                &&& final(self)@ == after_write(old(self)@, content@)
            },
            !old(self)@.writer_alive ==> {
                &&& r == Err::<(), IoError>(IoError::Disconnected)
                &&& final(self)@ == old(self)@
            },
    {
        if self.writer_alive {
            self.outbound.push(content.to_owned());
            proof {
                assert(self@.outbound =~= old(self)@.outbound.push(content@));
                assert(self@ =~= after_write(old(self)@, content@));
            }
            Ok(())
        } else {
            Err(IoError::Disconnected)
        }
    }

    /// Tears the old transport down — both tasks stop, buffered data stays —
    /// and opens a new one at the given rate. On refusal the handle is left
    /// aborted: unhealthy, with its buffers still drainable.
    pub fn reconnect(&mut self, port: &str, baud_rate: u32, outcome: OpenOutcome) -> (r: Result<
        (),
        IoError,
    >)
        ensures
            (match r {
                Ok(_) => outcome == OpenOutcome::Opened && final(self)@ == HandleView::fresh(),
                Err(e) => {
                    &&& outcome == OpenOutcome::Refused
                    &&& e == IoError::ConnectFailed
                    &&& final(self)@ == old(self)@.aborted()
                },
            }),
    {
        self.reader_alive = false;
        self.writer_alive = false;
        match Handle::open(port, baud_rate, outcome) {
            Ok(h) => {
                *self = h;
                Ok(())
            },
            Err(e) => {
                proof {
                    assert(self@ =~= old(self)@.aborted());
                }
                Err(e)
            },
        }
    }

    /// True iff neither background task has exited.
    pub fn is_connected(&self) -> (r: bool)
        ensures
            r == self@.healthy(),
    {
        self.reader_alive && self.writer_alive
    }

    /// The read task forwards one non-empty decoded chunk.
    pub fn deliver(&mut self, chunk: &str)
        requires
            old(self)@.reader_alive,
            chunk@.len() > 0,
        ensures
            final(self)@ == after_deliver(old(self)@, chunk@),
    {
        self.inbound.push(chunk.to_owned());
        proof {
            assert(self@.inbound =~= old(self)@.inbound.push(chunk@));
            assert(self@ =~= after_deliver(old(self)@, chunk@));
        }
    }

    /// The write task dequeues the next message bound for the wire.
    pub fn take_outbound(&mut self) -> (r: Option<String>)
        requires
            old(self)@.writer_alive,
        ensures
            old(self)@.outbound.len() > 0 ==> {
                &&& (r matches Some(s) && s@ == old(self)@.outbound[0])
                &&& final(self)@ == (HandleView {
                    outbound: old(self)@.outbound.drop_first(),
                    ..old(self)@
                })
            },
            old(self)@.outbound.len() == 0 ==> r is None && final(self)@ == old(self)@,
    {
        if self.outbound.len() > 0 {
            let s = self.outbound.remove(0);
            proof {
                assert(self@.outbound =~= old(self)@.outbound.drop_first());
                assert(self@ =~= (HandleView { outbound: old(self)@.outbound.drop_first(), ..old(self)@ }));
            }
            Some(s)
        } else {
            None
        }
    }

    /// The read task exited: end of stream, an unrecoverable I/O error, or
    /// the device disappeared. Buffered chunks stay drainable.
    pub fn reader_exited(&mut self)
        ensures
            final(self)@ == (HandleView { reader_alive: false, ..old(self)@ }),
    {
        self.reader_alive = false;
    }

    /// The write task exited: an unrecoverable write error or a closed
    /// channel. Later writes fail with `Disconnected`.
    pub fn writer_exited(&mut self)
        ensures
            final(self)@ == (HandleView { writer_alive: false, ..old(self)@ }),
    {
        self.writer_alive = false;
    }

    /// Repeated `read` calls until the buffer is empty: returns every
    /// buffered chunk, oldest first, with no loss and no duplication.
    pub fn read_all(&mut self) -> (r: Vec<String>)
        ensures
            r.deep_view() == old(self)@.inbound,
            final(self)@ == (HandleView { inbound: Seq::empty(), ..old(self)@ }),
    {
        let mut r: Vec<String> = Vec::new();
        while self.inbound.len() > 0
            invariant
                r.deep_view() + self@.inbound == old(self)@.inbound,
                self@.outbound == old(self)@.outbound,
                self@.reader_alive == old(self)@.reader_alive,
                self@.writer_alive == old(self)@.writer_alive,
            decreases self@.inbound.len(),
        {
            let res = self.read();
            match res {
                Ok(s) => {
                    r.push(s);
                    proof {
                        assert(r.deep_view() + self@.inbound =~= old(self)@.inbound);
                    }
                },
                Err(_) => {
                    proof {
                        assert(false);
                    }
                },
            }
        }
        proof {
            assert(r.deep_view() + self@.inbound =~= r.deep_view());
            assert(self@ =~= (HandleView { inbound: Seq::empty(), ..old(self)@ }));
        }
        r
    }
}

} // verus!
