//! A byte stream over a message transport: reads are served from received
//! messages, split or joined as the caller's sizes demand; writes are queued
//! and leave as one message per flush.
use vstd::prelude::*;
use vstd::math::min;

verus! {

/// What the transport's event feed produced.
pub enum TransportEvent {
    Message(Vec<u8>),
    /// The peer closed, or the feed ended.
    Closed,
    /// The transport failed.
    Error,
}

#[derive(Debug, Clone, Copy, PartialEq, Eq, Structural)]
pub enum StreamError {
    TransportError,
    StreamClosed,
}

/// The state of a stream, with the bytes that have crossed it so far.
pub struct StreamView {
    /// Received and not yet handed to a reader.
    pub read_buffer: Seq<u8>,
    /// Written and not yet sent.
    pub write_buffer: Seq<u8>,
    /// End of stream: no further event will be consulted.
    pub closed: bool,
    /// Shut down locally: writes and flushes are refused.
    pub shut_down: bool,
    /// Size a caller should use for its copy buffer.
    pub buf_size: usize,
    /// Every byte the transport delivered, in order.
    pub received: Seq<u8>,
    /// Every byte handed to readers, in order.
    pub delivered: Seq<u8>,
    /// Every byte accepted from writers, in order.
    pub written: Seq<u8>,
    /// Every byte sent out in messages, in order.
    pub sent: Seq<u8>,
}

impl StreamView {
    /// Nothing is lost or reordered: what readers got, then what waits, is what
    /// came in; what was sent, then what waits, is what was written.
    pub open spec fn inv(self) -> bool {
        &&& self.delivered + self.read_buffer == self.received
        &&& self.sent + self.write_buffer == self.written
    }

    /// The bytes a read of at most `max` bytes hands out from the buffer.
    pub open spec fn prefix(self, max: usize) -> Seq<u8> {
        self.read_buffer.subrange(0, min(max as int, self.read_buffer.len() as int))
    }

    /// The state after a message arrives.
    pub open spec fn absorb(self, m: Seq<u8>) -> StreamView {
        StreamView { read_buffer: self.read_buffer + m, received: self.received + m, ..self }
    }

    /// The state after a write is accepted.
    pub open spec fn after_write(self, data: Seq<u8>) -> StreamView {
        StreamView { write_buffer: self.write_buffer + data, written: self.written + data, ..self }
    }

    /// The state after the queued bytes went out as one message.
    pub open spec fn after_flush(self) -> StreamView {
        StreamView { write_buffer: Seq::empty(), sent: self.sent + self.write_buffer, ..self }
    }

    /// The state after a sequence of writes, in order.
    pub open spec fn after_writes(self, chunks: Seq<Seq<u8>>) -> StreamView
        decreases chunks.len(),
    {
        if chunks.len() == 0 {
            self
        } else {
            self.after_writes(chunks.drop_last()).after_write(chunks.last())
        }
    }

    /// The state after a read of at most `max` bytes from the buffer.
    pub open spec fn after_take(self, max: usize) -> StreamView {
        let k = min(max as int, self.read_buffer.len() as int);
        StreamView {
            read_buffer: self.read_buffer.subrange(k, self.read_buffer.len() as int),
            delivered: self.delivered + self.read_buffer.subrange(0, k),
            ..self
        }
    }
}

pub struct WsStream {
    read_buffer: Vec<u8>,
    write_buffer: Vec<u8>,
    is_closed: bool,
    is_shut_down: bool,
    buf_size: usize,
    received: Ghost<Seq<u8>>,
    delivered: Ghost<Seq<u8>>,
    written: Ghost<Seq<u8>>,
    sent: Ghost<Seq<u8>>,
}

impl View for WsStream {
    type V = StreamView;

    closed spec fn view(&self) -> StreamView {
        StreamView {
            read_buffer: self.read_buffer@,
            write_buffer: self.write_buffer@,
            closed: self.is_closed,
            shut_down: self.is_shut_down,
            buf_size: self.buf_size,
            received: self.received@,
            delivered: self.delivered@,
            written: self.written@,
            sent: self.sent@,
        }
    }
}

impl WsStream {
    /// A fresh stream; bytes that came with the opening request are readable first.
    pub fn new(bufsize: usize, early_data: Option<Vec<u8>>) -> (r: WsStream)
        ensures
            r@.inv(),
            r@.read_buffer == (match early_data {
                Some(d) => d@,
                None => Seq::<u8>::empty(),
            }),
            r@.received == r@.read_buffer,
            r@.write_buffer.len() == 0,
            r@.delivered.len() == 0,
            r@.written.len() == 0,
            r@.sent.len() == 0,
            !r@.closed,
            !r@.shut_down,
            r@.buf_size == bufsize,
    {
        let read_buffer = match early_data {
            Some(d) => d,
            None => Vec::new(),
        };
        let ghost first = read_buffer@;
        WsStream {
            read_buffer,
            write_buffer: Vec::new(),
            is_closed: false,
            is_shut_down: false,
            buf_size: bufsize,
            received: Ghost(first),
            delivered: Ghost(Seq::empty()),
            written: Ghost(Seq::empty()),
            sent: Ghost(Seq::empty()),
        }
    }

    pub fn buf_size(&self) -> (r: usize)
        ensures
            r == self@.buf_size,
    {
        self.buf_size
    }

    fn take(&mut self, max: usize) -> (r: Vec<u8>)
        requires
            old(self)@.inv(),
        ensures
            r@ == old(self)@.prefix(max),
            final(self)@ == old(self)@.after_take(max),
            final(self)@.inv(),
    {
        let k = if max < self.read_buffer.len() {
            max
        } else {
            self.read_buffer.len()
        };
        let mut out = self.read_buffer.split_off(k);
        core::mem::swap(&mut self.read_buffer, &mut out);
        self.delivered = Ghost(self.delivered@ + out@);
        proof {
            let old_view = old(self)@;
            assert(old_view.read_buffer =~= out@ + self.read_buffer@);
            assert(self.delivered@ + self.read_buffer@ =~= self.received@);
        }
        out
    }

    /// Serves a read of at most `max` bytes without the transport, where that
    /// is possible: from buffered bytes, or as end of stream (empty) once
    /// closed. `None` means that the next transport event is needed.
    pub fn poll_read(&mut self, max: usize) -> (r: Option<Vec<u8>>)
        requires
            old(self)@.inv(),
        ensures
            final(self)@.inv(),
            old(self)@.read_buffer.len() > 0 ==> r is Some && r.unwrap()@ == old(self)@.prefix(max)
                && final(self)@ == old(self)@.after_take(max),
            old(self)@.read_buffer.len() == 0 && old(self)@.closed ==> r is Some && r.unwrap()@.len() == 0
                && final(self)@ == old(self)@,
            old(self)@.read_buffer.len() == 0 && !old(self)@.closed ==> r is None && final(self)@ == old(self)@,
    {
        if self.read_buffer.len() > 0 {
            Some(self.take(max))
        } else if self.is_closed {
            Some(Vec::new())
        } else {
            None
        }
    }

    /// Serves a read of at most `max` bytes once the transport produced an
    /// event: a message joins the buffer, a close ends the stream (a read then
    /// returns what is buffered, empty at the end), an error is passed on.
    pub fn on_event(&mut self, event: TransportEvent, max: usize) -> (r: Result<Vec<u8>, StreamError>)
        requires
            old(self)@.inv(),
        ensures
            final(self)@.inv(),
            match event {
                TransportEvent::Message(m) => r is Ok && r.unwrap()@ == old(self)@.absorb(m@).prefix(max)
                    && final(self)@ == old(self)@.absorb(m@).after_take(max),
                TransportEvent::Closed => r is Ok && r.unwrap()@ == old(self)@.prefix(max)
                    && final(self)@ == (StreamView { closed: true, ..old(self)@ }).after_take(max),
                TransportEvent::Error => r == Err::<Vec<u8>, StreamError>(StreamError::TransportError)
                    && final(self)@ == old(self)@,
            },
    {
        match event {
            TransportEvent::Message(m) => {
                let ghost bytes = m@;
                let mut m = m;
                self.read_buffer.append(&mut m);
                self.received = Ghost(self.received@ + bytes);
                assert(self.read_buffer@ =~= old(self)@.read_buffer + bytes);
                assert(self@.delivered + self@.read_buffer =~= self@.received);
                assert(self@ == old(self)@.absorb(bytes));
                Ok(self.take(max))
            },
            TransportEvent::Closed => {
                self.is_closed = true;
                Ok(self.take(max))
            },
            TransportEvent::Error => Err(StreamError::TransportError),
        }
    }

    /// Queues bytes for the next flush; refused after shutdown.
    pub fn write(&mut self, data: &[u8]) -> (r: Result<usize, StreamError>)
        requires
            old(self)@.inv(),
        ensures
            final(self)@.inv(),
            old(self)@.shut_down ==> r == Err::<usize, StreamError>(StreamError::StreamClosed)
                && final(self)@ == old(self)@,
            !old(self)@.shut_down ==> r == Ok::<usize, StreamError>(data@.len() as usize)
                && final(self)@ == old(self)@.after_write(data@),
    {
        if self.is_shut_down {
            return Err(StreamError::StreamClosed);
        }
        self.write_buffer.extend_from_slice(data);
        self.written = Ghost(self.written@ + data@);
        assert(self.write_buffer@ =~= old(self)@.write_buffer + data@);
        assert(self@.sent + self@.write_buffer =~= self@.written);
        Ok(data.len())
    }

    /// The message a flush must send: the queued bytes, or nothing when none
    /// are queued (the flush then succeeds at once); refused after shutdown.
    pub fn begin_flush(&self) -> (r: Result<Option<Vec<u8>>, StreamError>)
        ensures
            self@.shut_down ==> r == Err::<Option<Vec<u8>>, StreamError>(StreamError::StreamClosed),
            !self@.shut_down && self@.write_buffer.len() == 0 ==> r == Ok::<Option<Vec<u8>>, StreamError>(None),
            !self@.shut_down && self@.write_buffer.len() > 0 ==> r is Ok && r.unwrap() is Some
                && r.unwrap().unwrap()@ == self@.write_buffer,
    {
        if self.is_shut_down {
            return Err(StreamError::StreamClosed);
        }
        if self.write_buffer.len() == 0 {
            return Ok(None);
        }
        let mut out: Vec<u8> = Vec::new();
        let mut i: usize = 0;
        while i < self.write_buffer.len()
            invariant
                i <= self.write_buffer@.len(),
                out@ == self.write_buffer@.subrange(0, i as int),
            decreases self.write_buffer@.len() - i,
        {
            out.push(self.write_buffer[i]);
            i = i + 1;
            assert(out@ =~= self.write_buffer@.subrange(0, i as int));
        }
        assert(out@ =~= self.write_buffer@);
        Ok(Some(out))
    }

    /// Records how sending the flushed message went: on success the queue is
    /// cleared, on failure it stays and the error is passed on.
    pub fn finish_flush(&mut self, sent: bool) -> (r: Result<(), StreamError>)
        requires
            old(self)@.inv(),
        ensures
            final(self)@.inv(),
            sent ==> r is Ok && final(self)@ == old(self)@.after_flush(),
            !sent ==> r == Err::<(), StreamError>(StreamError::TransportError) && final(self)@ == old(self)@,
    {
        if !sent {
            return Err(StreamError::TransportError);
        }
        self.sent = Ghost(self.sent@ + self.write_buffer@);
        self.write_buffer.clear();
        assert(self@ =~= old(self)@.after_flush());
        Ok(())
    }

    /// Shuts the stream down. Returns whether the transport must be closed now:
    /// only the first shutdown closes it, a second one does nothing.
    pub fn shutdown(&mut self) -> (must_close: bool)
        requires
            old(self)@.inv(),
        ensures
            final(self)@.inv(),
            must_close == !old(self)@.shut_down,
            final(self)@ == (StreamView { closed: true, shut_down: true, ..old(self)@ }),
    {
        let first = !self.is_shut_down;
        self.is_shut_down = true;
        self.is_closed = true;
        first
    }
}


/// The concatenation of a sequence of byte sequences.
pub open spec fn flatten(chunks: Seq<Seq<u8>>) -> Seq<u8>
    decreases chunks.len(),
{
    if chunks.len() == 0 {
        Seq::empty()
    } else {
        flatten(chunks.drop_last()) + chunks.last()
    }
}

/// Writes only queue: however many come before a flush, nothing is sent, and
/// the queue holds their concatenation, which the next flush sends as one message.
pub proof fn lemma_writes_queue(s: StreamView, chunks: Seq<Seq<u8>>)
    requires
        s.write_buffer.len() == 0,
    ensures
        s.after_writes(chunks).sent == s.sent,
        s.after_writes(chunks).write_buffer == flatten(chunks),
        s.after_writes(chunks).after_flush().sent == s.sent + flatten(chunks),
    decreases chunks.len(),
{
    if chunks.len() == 0 {
        assert(s.write_buffer =~= flatten(chunks));
    } else {
        lemma_writes_queue(s, chunks.drop_last());
    }
}

/// Relayed through a peer that returns every byte it is handed, a stream
/// whose buffers have drained has sent back exactly what it received.
pub proof fn lemma_echo(s: StreamView)
    requires
        s.inv(),
        s.read_buffer.len() == 0,
        s.write_buffer.len() == 0,
        s.written == s.delivered,
    ensures
        s.sent == s.received,
{
    assert(s.sent =~= s.sent + s.write_buffer);
    assert(s.delivered =~= s.delivered + s.read_buffer);
}

} // verus!
