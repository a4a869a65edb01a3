use crate::error::IoError;
use crate::handle::{after_deliver, after_write, Handle, HandleView, OpenOutcome};
use vstd::prelude::*;

verus! {

/// The default baud rate a connection remembers before any explicit
/// configuration.
pub const DEFAULT_BR: u32 = 9600;

/// Abstract state of a connection: at most one transport handle, the
/// remembered device name, and the remembered baud rate.
#[verifier::ext_equal]
pub ghost struct ConnectionView {
    pub handle: Option<HandleView>,
    pub name: Option<Seq<char>>,
    pub baud_rate: u32,
}

impl ConnectionView {
    /// The remembered baud rate is always positive, and a device name is
    /// remembered whenever a handle is held.
    pub open spec fn wf(self) -> bool {
        &&& self.baud_rate >= 1
        &&& self.handle is Some ==> self.name is Some
    }

    /// Connected iff a handle is present and both its tasks still run.
    pub open spec fn is_connected(self) -> bool {
        match self.handle {
            Some(h) => h.healthy(),
            None => false,
        }
    }
}

/// `open`: success installs a fresh handle — replacing any prior one — and
/// records the name; failure changes nothing and surfaces `ConnectFailed`.
pub open spec fn open_step(c: ConnectionView, port: Seq<char>, outcome: OpenOutcome) -> (
    ConnectionView,
    Result<(), IoError>,
) {
    match outcome {
        OpenOutcome::Opened => (
            ConnectionView { handle: Some(HandleView::fresh()), name: Some(port), ..c },
            Ok(()),
        ),
        OpenOutcome::Refused => (c, Err(IoError::ConnectFailed)),
    }
}

/// `close`: the handle and the name are discarded unconditionally; the
/// baud rate stays remembered.
pub open spec fn close_step(c: ConnectionView) -> ConnectionView {
    ConnectionView { handle: None, name: None, ..c }
}

/// `set_baud_rate`: the rate commits in every case. With no handle that is
/// all; with a handle the transport is torn down and reopened at the new
/// rate, and a reopen refusal leaves an aborted handle and surfaces
/// `ConnectFailed`.
pub open spec fn set_baud_step(c: ConnectionView, rate: u32, outcome: OpenOutcome) -> (
    ConnectionView,
    Result<(), IoError>,
) {
    match c.handle {
        None => (ConnectionView { baud_rate: rate, ..c }, Ok(())),
        Some(h) => match outcome {
            OpenOutcome::Opened => (
                ConnectionView { handle: Some(HandleView::fresh()), baud_rate: rate, ..c },
                Ok(()),
            ),
            OpenOutcome::Refused => (
                ConnectionView { handle: Some(h.aborted()), baud_rate: rate, ..c },
                Err(IoError::ConnectFailed),
            ),
        },
    }
}

/// `write`: with no handle, `NotConnected` and no change; with a live
/// writer the message joins the outbound queue; with a dead writer,
/// `Disconnected` and no change.
pub open spec fn write_step(c: ConnectionView, data: Seq<char>) -> (
    ConnectionView,
    Result<(), IoError>,
) {
    match c.handle {
        None => (c, Err(IoError::NotConnected)),
        Some(h) => if h.writer_alive {
            (ConnectionView { handle: Some(after_write(h, data)), ..c }, Ok(()))
        } else {
            (c, Err(IoError::Disconnected))
        },
    }
}

/// `read`: with no handle, `NotConnected` and no change; otherwise the
/// oldest buffered chunk, or the empty string while the reader runs, or
/// `Disconnected` once the buffer is empty and the reader has exited.
pub open spec fn read_step(c: ConnectionView) -> (ConnectionView, Result<Seq<char>, IoError>) {
    match c.handle {
        None => (c, Err(IoError::NotConnected)),
        Some(h) => if h.inbound.len() > 0 {
            (
                ConnectionView {
                    handle: Some(HandleView { inbound: h.inbound.drop_first(), ..h }),
                    ..c
                },
                Ok(h.inbound[0]),
            )
        } else if h.reader_alive {
            (c, Ok(Seq::empty()))
        } else {
            (c, Err(IoError::Disconnected))
        },
    }
}

/// The device disappears mid-session: both background tasks exit; whatever
/// was buffered stays drainable. Without a handle nothing changes.
pub open spec fn unplug_step(c: ConnectionView) -> ConnectionView {
    match c.handle {
        None => c,
        Some(h) => ConnectionView { handle: Some(h.aborted()), ..c },
    }
}

/// The connection after a sequence of `write` calls, issued in order.
pub open spec fn after_conn_writes(c: ConnectionView, msgs: Seq<Seq<char>>) -> ConnectionView
    decreases msgs.len(),
{
    if msgs.len() == 0 {
        c
    } else {
        after_conn_writes(write_step(c, msgs[0]).0, msgs.drop_first())
    }
}

/// Whether every write of the sequence came back `Ok`.
pub open spec fn conn_writes_ok(c: ConnectionView, msgs: Seq<Seq<char>>) -> bool
    decreases msgs.len(),
{
    if msgs.len() == 0 {
        true
    } else {
        &&& write_step(c, msgs[0]).1 is Ok
        &&& conn_writes_ok(write_step(c, msgs[0]).0, msgs.drop_first())
    }
}

/// The connection after a sequence of chunks forwarded by the read task.
pub open spec fn after_conn_delivers(c: ConnectionView, chunks: Seq<Seq<char>>) -> ConnectionView
    decreases chunks.len(),
{
    if chunks.len() == 0 {
        c
    } else {
        let c1 = ConnectionView {
            handle: Some(after_deliver(c.handle.unwrap(), chunks[0])),
            ..c
        };
        after_conn_delivers(c1, chunks.drop_first())
    }
}

/// Law: while the write task lives, every write of a sequence succeeds and
/// the outbound queue ends up extended by exactly those messages, in issue
/// order — the single writer keeps the stream FIFO.
pub proof fn lemma_conn_writes_fifo(c: ConnectionView, msgs: Seq<Seq<char>>)
    requires
        c.handle matches Some(h) && h.writer_alive,
    ensures
        conn_writes_ok(c, msgs),
        after_conn_writes(c, msgs) == (ConnectionView {
            handle: Some(
                HandleView {
                    outbound: c.handle.unwrap().outbound + msgs,
                    ..c.handle.unwrap()
                },
            ),
            ..c
        }),
    decreases msgs.len(),
{
    let h = c.handle.unwrap();
    if msgs.len() == 0 {
        assert(h.outbound + msgs =~= h.outbound);
        assert(after_conn_writes(c, msgs) =~= (ConnectionView {
            handle: Some(HandleView { outbound: h.outbound + msgs, ..h }),
            ..c
        }));
    } else {
        let c1 = write_step(c, msgs[0]).0;
        lemma_conn_writes_fifo(c1, msgs.drop_first());
        assert(h.outbound.push(msgs[0]) + msgs.drop_first() =~= h.outbound + msgs);
        assert(after_conn_writes(c, msgs) =~= (ConnectionView {
            handle: Some(HandleView { outbound: h.outbound + msgs, ..h }),
            ..c
        }));
    }
}

/// Law: chunks forwarded by the read task are buffered in arrival order —
/// after any sequence of deliveries the inbound queue is the old queue
/// extended by exactly those chunks, with nothing lost, duplicated or
/// reordered, so draining reads return their concatenation.
pub proof fn lemma_conn_delivers_fifo(c: ConnectionView, chunks: Seq<Seq<char>>)
    requires
        c.handle is Some,
    ensures
        after_conn_delivers(c, chunks) == (ConnectionView {
            handle: Some(
                HandleView {
                    inbound: c.handle.unwrap().inbound + chunks,
                    ..c.handle.unwrap()
                },
            ),
            ..c
        }),
    decreases chunks.len(),
{
    let h = c.handle.unwrap();
    if chunks.len() == 0 {
        assert(h.inbound + chunks =~= h.inbound);
        assert(after_conn_delivers(c, chunks) =~= (ConnectionView {
            handle: Some(HandleView { inbound: h.inbound + chunks, ..h }),
            ..c
        }));
    } else {
        let c1 = ConnectionView { handle: Some(after_deliver(h, chunks[0])), ..c };
        lemma_conn_delivers_fifo(c1, chunks.drop_first());
        assert(h.inbound.push(chunks[0]) + chunks.drop_first() =~= h.inbound + chunks);
        assert(after_conn_delivers(c, chunks) =~= (ConnectionView {
            handle: Some(HandleView { inbound: h.inbound + chunks, ..h }),
            ..c
        }));
    }
}

/// Law: reading with no handle always fails with `NotConnected`, changes
/// nothing, and keeps failing the same way on repetition.
pub proof fn lemma_read_not_connected(c: ConnectionView)
    requires
        c.handle is None,
    ensures
        read_step(c).1 == Err::<Seq<char>, IoError>(IoError::NotConnected),
        read_step(c).0 == c,
        read_step(read_step(c).0) == read_step(c),
{
}

/// Law: closing disconnects, lastingly. After `close` the connection is
/// not connected and a `write` fails with `NotConnected` without changing
/// anything; a second `close` changes nothing further.
pub proof fn lemma_close_disconnects(c: ConnectionView, data: Seq<char>)
    ensures
        !close_step(c).is_connected(),
        write_step(close_step(c), data).1 == Err::<(), IoError>(IoError::NotConnected),
        write_step(close_step(c), data).0 == close_step(c),
        close_step(close_step(c)) == close_step(c),
{
}

/// Law: the baud rate commits whatever the reopen outcome. While connected,
/// the connection stays connected exactly when the reopen succeeded, and in
/// either case the new rate is observed afterwards.
pub proof fn lemma_rate_commits(c: ConnectionView, rate: u32, outcome: OpenOutcome)
    ensures
        set_baud_step(c, rate, outcome).0.baud_rate == rate,
        c.is_connected() ==> (set_baud_step(c, rate, outcome).0.is_connected() <==> outcome
            == OpenOutcome::Opened),
{
}

/// Law: a removed device surfaces as `Disconnected`, not silently. Once
/// both tasks have exited and the inbound buffer is drained, `read` and
/// `write` fail with `Disconnected`, and the connection reports not
/// connected — all without any `close` call.
pub proof fn lemma_unplug_surfaces(c: ConnectionView, data: Seq<char>)
    requires
        c.handle matches Some(h) && h.inbound.len() == 0,
    ensures
        !unplug_step(c).is_connected(),
        read_step(unplug_step(c)).1 == Err::<Seq<char>, IoError>(IoError::Disconnected),
        write_step(unplug_step(c), data).1 == Err::<(), IoError>(IoError::Disconnected),
{
}

/// The application-level wrapper: remembers the configuration and owns at
/// most one transport handle.
pub struct Connection {
    handle: Option<Handle>,
    name: Option<String>,
    baud_rate: u32,
}

impl View for Connection {
    type V = ConnectionView;

    closed spec fn view(&self) -> ConnectionView {
        ConnectionView {
            handle: match self.handle {
                Some(h) => Some(h@),
                None => None,
            },
            name: self.name.deep_view(),
            baud_rate: self.baud_rate,
        }
    }
}

impl Connection {
    /// A connection that has never been opened: no handle, no name, the
    /// given baud rate remembered.
    pub fn new(baud_rate: u32) -> (c: Self)
        requires
            baud_rate >= 1,
        ensures
            c@ == (ConnectionView { handle: None, name: None, baud_rate }),
            c@.wf(),
    {
        let c = Self { handle: None, name: None, baud_rate };
        proof {
            assert(c@ =~= (ConnectionView {
                handle: None,
                name: None,
                baud_rate,
            }));
        }
        c
    }

    /// Attempts to open `port` at the remembered baud rate, given what the
    /// OS said to the attempt. Success replaces any prior handle and
    /// records the name; failure leaves the connection as it was.
    pub fn open(&mut self, port: &str, outcome: OpenOutcome) -> (r: Result<(), IoError>)
        ensures
            final(self)@ == open_step(old(self)@, port@, outcome).0,
            r == open_step(old(self)@, port@, outcome).1,
            old(self)@.wf() ==> final(self)@.wf(),
    {
        match Handle::open(port, self.baud_rate, outcome) {
            Ok(h) => {
                self.handle = Some(h);
                self.name = Some(port.to_owned());
                proof {
                    assert(self@ =~= open_step(old(self)@, port@, outcome).0);
                }
                Ok(())
            },
            Err(e) => Err(e),
        }
    }

    /// Discards the handle and the remembered name unconditionally.
    pub fn close(&mut self)
        ensures
            final(self)@ == close_step(old(self)@),
            old(self)@.wf() ==> final(self)@.wf(),
    {
        self.handle = None;
        self.name = None;
        proof {
            assert(self@ =~= close_step(old(self)@));
        }
    }

    /// The remembered baud rate; defined whether or not a handle is live.
    pub fn get_baud_rate(&self) -> (r: u32)
        ensures
            r == self@.baud_rate,
    {
        self.baud_rate
    }

    /// The remembered device name, or "none" while no name is remembered.
    pub fn get_name(&self) -> (r: &str)
        ensures
            (match self@.name {
                Some(n) => r@ == n,
                None => r@ == "none"@,
            }),
    {
        match &self.name {
            Some(s) => s.as_str(),
            None => "none",
        }
    }

    /// Commits `rate` in every case. With a handle present, tears the
    /// transport down and reopens it at the new rate using the remembered
    /// name; a reopen refusal is surfaced while the rate stays committed.
    pub fn set_baud_rate(&mut self, rate: u32, outcome: OpenOutcome) -> (r: Result<(), IoError>)
        requires
            rate >= 1,
            old(self)@.wf(),
        ensures
            final(self)@ == set_baud_step(old(self)@, rate, outcome).0,
            r == set_baud_step(old(self)@, rate, outcome).1,
            final(self)@.wf(),
    {
        self.baud_rate = rate;
        let taken = self.handle.take();
        match taken {
            None => {
                proof {
                    assert(self@ =~= set_baud_step(old(self)@, rate, outcome).0);
                }
                Ok(())
            },
            Some(mut h) => {
                let port = match &self.name {
                    Some(n) => n.as_str(),
                    None => "",
                };
                let res = h.reconnect(port, rate, outcome);
                self.handle = Some(h);
                proof {
                    assert(self@ =~= set_baud_step(old(self)@, rate, outcome).0);
                }
                match res {
                    Ok(_) => Ok(()),
                    Err(e) => Err(e),
                }
            },
        }
    }

    /// True iff a handle is present and neither of its tasks has exited.
    pub fn is_connected(&self) -> (r: bool)
        ensures
            r == self@.is_connected(),
    {
        match &self.handle {
            None => false,
            Some(h) => h.is_connected(),
        }
    }

    /// True iff a handle is present, healthy or not.
    pub fn has_handle(&self) -> (r: bool)
        ensures
            r == (self@.handle is Some),
    {
        self.handle.is_some()
    }

    /// Enqueues `data` for transmission: `NotConnected` with no handle,
    /// `Disconnected` once the write task has exited, otherwise queued in
    /// issue order.
    pub fn write(&mut self, data: &str) -> (r: Result<(), IoError>)
        ensures
            final(self)@ == write_step(old(self)@, data@).0,
            r == write_step(old(self)@, data@).1,
            old(self)@.wf() ==> final(self)@.wf(),
    {
        let taken = self.handle.take();
        match taken {
            None => {
                let e: Result<(), IoError> = Err(IoError::NotConnected);
                proof {
                    assert(self@ =~= write_step(old(self)@, data@).0);
                    assert(e == write_step(old(self)@, data@).1);
                }
                e
            },
            Some(mut h) => {
                let res = h.write(data);
                self.handle = Some(h);
                proof {
                    assert(self@ =~= write_step(old(self)@, data@).0);
                    match res {
                        Ok(u) => {
                            assert(res == Ok::<(), IoError>(u));
                            assert(write_step(old(self)@, data@).1 == Ok::<(), IoError>(u));
                        },
                        Err(e) => {
                            assert(res == Err::<(), IoError>(e));
                            assert(write_step(old(self)@, data@).1 == Err::<(), IoError>(e));
                        },
                    }
                    assert(res == write_step(old(self)@, data@).1);
                }
                res
            },
        }
    }

    /// Non-blocking drain of at most one buffered inbound message:
    /// `NotConnected` with no handle; otherwise the oldest chunk, the empty
    /// string, or `Disconnected`, as the transport dictates.
    pub fn read(&mut self) -> (r: Result<String, IoError>)
        ensures
            final(self)@ == read_step(old(self)@).0,
            (match read_step(old(self)@).1 {
                Ok(chunk) => r matches Ok(s) && s@ == chunk,
                Err(e) => r == Err::<String, IoError>(e),
            }),
            old(self)@.wf() ==> final(self)@.wf(),
    {
        let taken = self.handle.take();
        match taken {
            None => Err(IoError::NotConnected),
            Some(mut h) => {
                let res = h.read();
                self.handle = Some(h);
                proof {
                    assert(self@ =~= read_step(old(self)@).0);
                }
                res
            },
        }
    }

    /// The read task forwards one non-empty decoded chunk.
    pub fn deliver(&mut self, chunk: &str)
        requires
            old(self)@.handle matches Some(h) && h.reader_alive,
            chunk@.len() > 0,
        ensures
            final(self)@ == (ConnectionView {
                handle: Some(after_deliver(old(self)@.handle.unwrap(), chunk@)),
                ..old(self)@
            }),
    {
        let taken = self.handle.take();
        match taken {
            None => {
                proof {
                    assert(false);
                }
            },
            Some(mut h) => {
                h.deliver(chunk);
                self.handle = Some(h);
                proof {
                    assert(self@ =~= (ConnectionView {
                        handle: Some(after_deliver(old(self)@.handle.unwrap(), chunk@)),
                        ..old(self)@
                    }));
                }
            },
        }
    }

    /// The write task dequeues the next message bound for the wire.
    pub fn take_outbound(&mut self) -> (r: Option<String>)
        requires
            old(self)@.handle matches Some(h) && h.writer_alive,
        ensures
            ({
                let h = old(self)@.handle.unwrap();
                &&& h.outbound.len() > 0 ==> {
                    &&& (r matches Some(s) && s@ == h.outbound[0])
                    &&& final(self)@ == (ConnectionView {
                        handle: Some(HandleView { outbound: h.outbound.drop_first(), ..h }),
                        ..old(self)@
                    })
                }
                &&& h.outbound.len() == 0 ==> r is None && final(self)@ == old(self)@
            }),
    {
        let taken = self.handle.take();
        match taken {
            None => {
                proof {
                    assert(false);
                }
                None
            },
            Some(mut h) => {
                let r = h.take_outbound();
                self.handle = Some(h);
                proof {
                    assert(old(self)@.handle.unwrap().outbound.len() == 0 ==> self@ =~= old(
                        self,
                    )@);
                    assert(old(self)@.handle.unwrap().outbound.len() > 0 ==> self@ =~= (
                    ConnectionView {
                        handle: Some(
                            HandleView {
                                outbound: old(self)@.handle.unwrap().outbound.drop_first(),
                                ..old(self)@.handle.unwrap()
                            },
                        ),
                        ..old(self)@
                    }));
                }
                r
            },
        }
    }

    /// The device disappears: both background tasks exit. Buffered chunks
    /// stay drainable; the configuration stays remembered.
    pub fn unplug(&mut self)
        ensures
            final(self)@ == unplug_step(old(self)@),
    {
        let taken = self.handle.take();
        match taken {
            None => {
                proof {
                    assert(self@ =~= unplug_step(old(self)@));
                }
            },
            Some(mut h) => {
                h.reader_exited();
                h.writer_exited();
                self.handle = Some(h);
                proof {
                    assert(self@.handle.unwrap() =~= unplug_step(old(self)@).handle.unwrap());
                    assert(self@ =~= unplug_step(old(self)@));
                }
            },
        }
    }
}

} // verus!
