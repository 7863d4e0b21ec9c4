//! The terminal bridge's decisions: what each network frame does to the
//! terminal, what each terminal read sends to the network, and where the
//! shell starts. The caller owns the terminal, the thread that reads it,
//! the bounded queue and the network stream.

use vstd::prelude::*;

verus! {

/// The terminal's geometry.
pub const PTY_ROWS: u16 = 24;
pub const PTY_COLS: u16 = 80;

/// The most bytes taken from the terminal in one read.
pub const READ_CHUNK: usize = 4096;

/// How many terminal chunks may wait for the network before the reader
/// blocks.
pub const QUEUE_CAPACITY: usize = 32;

/// A message received from the network stream.
pub enum Frame {
    Binary(Vec<u8>),
    Text(String),
    Close,
    Ping,
    Pong,
    /// Receiving failed.
    ReceiveError,
}

/// The bytes a frame carries for the terminal, if it carries any.
pub open spec fn frame_payload(f: Frame) -> Option<Seq<u8>> {
    match f {
        Frame::Binary(b) => Some(b@),
        Frame::Text(t) => Some(vstd::utf8::encode_utf8(t@)),
        _ => None,
    }
}

/// Whether a frame ends the session.
pub open spec fn frame_stops(f: Frame) -> bool {
    f is Close || f is ReceiveError
}

/// What to do with a received frame.
pub enum Inbound {
    /// Write these bytes to the terminal.
    Write(Vec<u8>),
    /// Nothing to do (ping, pong).
    Ignore,
    /// End the session.
    Stop,
}

/// Binary and text frames are written to the terminal byte for byte; close
/// and receive errors end the session; pings and pongs are ignored.
pub fn on_frame(frame: Frame) -> (r: Inbound)
    ensures
        r matches Inbound::Write(b) ==> frame_payload(frame) == Some(b@) && !frame_stops(frame),
        r is Ignore ==> frame_payload(frame) is None && !frame_stops(frame),
        r is Stop ==> frame_stops(frame),
{
    match frame {
        Frame::Binary(b) => Inbound::Write(b),
        Frame::Text(t) => {
            let bytes = t.as_str().as_bytes();
            Inbound::Write(vstd::slice::slice_to_vec(bytes))
        },
        Frame::Close => Inbound::Stop,
        Frame::ReceiveError => Inbound::Stop,
        Frame::Ping => Inbound::Ignore,
        Frame::Pong => Inbound::Ignore,
    }
}

/// The bytes that a sequence of frames writes to the terminal: the payloads
/// in order, up to the first frame that ends the session.
pub open spec fn delivered(fs: Seq<Frame>) -> Seq<u8>
    decreases fs.len(),
{
    if fs.len() == 0 || frame_stops(fs[0]) {
        Seq::empty()
    } else {
        match frame_payload(fs[0]) {
            Some(b) => b + delivered(fs.drop_first()),
            None => delivered(fs.drop_first()),
        }
    }
}

pub open spec fn none_stops(fs: Seq<Frame>) -> bool {
    forall|i: int| 0 <= i < fs.len() ==> !frame_stops(#[trigger] fs[i])
}

/// Frames are delivered in order and without loss: the bytes of two runs of
/// frames, the first of which does not end the session, are the bytes of
/// the first followed by those of the second.
pub proof fn lemma_delivered_append(fs: Seq<Frame>, gs: Seq<Frame>)
    requires
        none_stops(fs),
    ensures
        delivered(fs + gs) == delivered(fs) + delivered(gs),
    decreases fs.len(),
{
    if fs.len() == 0 {
        assert(fs + gs =~= gs);
        assert(delivered(fs) + delivered(gs) =~= delivered(gs));
    } else {
        assert((fs + gs).drop_first() =~= fs.drop_first() + gs);
        assert(none_stops(fs.drop_first())) by {
            assert forall|i: int| 0 <= i < fs.drop_first().len() implies !frame_stops(
                #[trigger] fs.drop_first()[i],
            ) by {
                assert(fs.drop_first()[i] == fs[i + 1]);
            }
        }
        assert(!frame_stops(fs[0]));
        lemma_delivered_append(fs.drop_first(), gs);
        match frame_payload(fs[0]) {
            Some(b) => {
                assert(b + delivered(fs.drop_first()) + delivered(gs) =~= b + (delivered(
                    fs.drop_first(),
                ) + delivered(gs)));
            },
            None => {},
        }
    }
}

/// A payload split over two binary frames reaches the terminal as one run
/// of bytes, in order.
pub proof fn lemma_split_payload(a: Vec<u8>, b: Vec<u8>)
    ensures
        delivered(seq![Frame::Binary(a), Frame::Binary(b)]) == a@ + b@,
{
    let fs = seq![Frame::Binary(a), Frame::Binary(b)];
    assert(fs.drop_first() =~= seq![Frame::Binary(b)]);
    assert(fs.drop_first().drop_first() =~= Seq::<Frame>::empty());
    assert(fs[0] == Frame::Binary(a));
    assert(fs.drop_first()[0] == Frame::Binary(b));
    assert(delivered(Seq::<Frame>::empty()) == Seq::<u8>::empty());
    assert(b@ + Seq::<u8>::empty() =~= b@);
    assert(delivered(fs.drop_first()) == b@);
}

/// The session's network-to-terminal side: the frames seen so far and the
/// bytes written for them.
pub struct TerminalFeed {
    pub open: bool,
    pub seen: Ghost<Seq<Frame>>,
    pub fed: Ghost<Seq<u8>>,
}

impl TerminalFeed {
    pub open spec fn wf(&self) -> bool {
        &&& self.fed@ == delivered(self.seen@)
        &&& self.open == none_stops(self.seen@)
    }

    pub fn new() -> (r: TerminalFeed)
        ensures
            r.wf(),
            r.open,
            r.seen@.len() == 0,
            r.fed@.len() == 0,
    {
        TerminalFeed { open: true, seen: Ghost(Seq::empty()), fed: Ghost(Seq::empty()) }
    }

    /// Takes the next frame while the session is open. What was written to
    /// the terminal stays exactly the payloads seen so far, in order.
    pub fn accept(&mut self, frame: Frame) -> (r: Inbound)
        requires
            old(self).wf(),
            old(self).open,
        ensures
            final(self).wf(),
            final(self).seen@ == old(self).seen@.push(frame),
            final(self).fed@ == match r {
                Inbound::Write(b) => old(self).fed@ + b@,
                _ => old(self).fed@,
            },
            final(self).open == !(r is Stop),
    {
        let ghost f = frame;
        let ghost before = self.seen@;
        let r = on_frame(frame);
        proof {
            let one = seq![f];
            assert(one.drop_first() =~= Seq::<Frame>::empty());
            assert(one[0] == f);
            assert(delivered(Seq::<Frame>::empty()) == Seq::<u8>::empty());
            lemma_delivered_append(before, one);
            assert(before.push(f) =~= before + one);
            if !frame_stops(f) {
                assert(none_stops(before.push(f))) by {
                    assert forall|i: int| 0 <= i < before.push(f).len() implies !frame_stops(
                        #[trigger] before.push(f)[i],
                    ) by {
                        if i < before.len() {
                            assert(before.push(f)[i] == before[i]);
                        }
                    }
                }
            } else {
                assert(before.push(f)[before.len() as int] == f);
            }
            match frame_payload(f) {
                Some(b) => {
                    assert(b + Seq::<u8>::empty() =~= b);
                },
                None => {},
            }
            assert(delivered(one) == match frame_payload(f) {
                Some(b) => if frame_stops(f) { Seq::<u8>::empty() } else { b },
                None => Seq::<u8>::empty(),
            });
            if frame_stops(f) {
                assert(delivered(before) + Seq::<u8>::empty() =~= delivered(before));
            } else if frame_payload(f) is None {
                assert(delivered(before) + Seq::<u8>::empty() =~= delivered(before));
            }
        }
        self.seen = Ghost(before.push(f));
        self.fed = Ghost(delivered(before.push(f)));
        self.open = match r {
            Inbound::Stop => false,
            _ => true,
        };
        r
    }
}

/// The outcome of one read of the terminal.
pub enum ReadOutcome {
    /// This many bytes were read into the buffer.
    Bytes(usize),
    /// End of file.
    Eof,
    /// The read failed.
    Failed,
}

/// What the terminal reader does with a read.
pub enum Outbound {
    /// Queue this chunk for the network.
    Forward(Vec<u8>),
    /// The terminal is done: stop reading, which closes the queue.
    Stop,
}

/// A nonempty read is forwarded as exactly the bytes read; end of file, an
/// empty read or a failure stop the reader.
pub fn on_terminal_read(buf: &[u8], outcome: ReadOutcome) -> (r: Outbound)
    ensures
        (outcome matches ReadOutcome::Bytes(n) && 0 < n <= buf@.len()) ==> (r matches Outbound::Forward(
            c,
        ) && c@ == buf@.subrange(0, outcome->Bytes_0 as int)),
        !(outcome matches ReadOutcome::Bytes(n) && 0 < n <= buf@.len()) ==> r is Stop,
{
    match outcome {
        ReadOutcome::Bytes(n) => {
            if 0 < n && n <= buf.len() {
                let mut c: Vec<u8> = Vec::new();
                let mut k: usize = 0;
                while k < n
                    invariant
                        k <= n <= buf@.len(),
                        c@ == buf@.subrange(0, k as int),
                    decreases n - k,
                {
                    c.push(buf[k]);
                    k = k + 1;
                    assert(c@ =~= buf@.subrange(0, k as int));
                }
                Outbound::Forward(c)
            } else {
                Outbound::Stop
            }
        },
        ReadOutcome::Eof => Outbound::Stop,
        ReadOutcome::Failed => Outbound::Stop,
    }
}

/// The bytes of a run of chunks, in order.
pub open spec fn joined(cs: Seq<Seq<u8>>) -> Seq<u8>
    decreases cs.len(),
{
    if cs.len() == 0 {
        Seq::empty()
    } else {
        joined(cs.drop_last()) + cs.last()
    }
}

/// Chunks forwarded in two runs arrive as the bytes of the first run
/// followed by those of the second: nothing is lost or reordered.
pub proof fn lemma_joined_append(a: Seq<Seq<u8>>, b: Seq<Seq<u8>>)
    ensures
        joined(a + b) == joined(a) + joined(b),
    decreases b.len(),
{
    if b.len() == 0 {
        assert(a + b =~= a);
        assert(joined(a) + Seq::<u8>::empty() =~= joined(a));
    } else {
        assert((a + b).drop_last() =~= a + b.drop_last());
        assert((a + b).last() == b.last());
        lemma_joined_append(a, b.drop_last());
        assert(joined(a) + joined(b.drop_last()) + b.last() =~= joined(a) + (joined(b.drop_last())
            + b.last()));
    }
}

/// Chunks of at most `READ_CHUNK` bytes: an output of `N` bytes takes at
/// least `N / READ_CHUNK` (rounded up) chunks.
pub proof fn lemma_chunk_count(cs: Seq<Seq<u8>>)
    requires
        forall|i: int| 0 <= i < cs.len() ==> (#[trigger] cs[i]).len() <= READ_CHUNK,
    ensures
        joined(cs).len() <= cs.len() * READ_CHUNK,
    decreases cs.len(),
{
    if cs.len() > 0 {
        assert(cs.last() == cs[cs.len() - 1]);
        lemma_chunk_count(cs.drop_last());
    }
}

/// The session's terminal-to-network side: the chunks read so far, and the
/// bytes queued for the network, which are those chunks in order.
pub struct TerminalDrain {
    pub open: bool,
    pub reads: Ghost<Seq<Seq<u8>>>,
    pub forwarded: Ghost<Seq<u8>>,
}

impl TerminalDrain {
    pub open spec fn wf(&self) -> bool {
        &&& self.forwarded@ == joined(self.reads@)
        &&& forall|i: int|
            0 <= i < self.reads@.len() ==> 1 <= (#[trigger] self.reads@[i]).len() <= READ_CHUNK
    }

    pub fn new() -> (r: TerminalDrain)
        ensures
            r.wf(),
            r.open,
            r.reads@.len() == 0,
            r.forwarded@.len() == 0,
    {
        TerminalDrain { open: true, reads: Ghost(Seq::empty()), forwarded: Ghost(Seq::empty()) }
    }

    /// Takes the outcome of one read into `buf`. A nonempty read becomes one
    /// chunk of exactly the bytes read, queued after all earlier ones; the
    /// end of the terminal closes the drain.
    pub fn take(&mut self, buf: &[u8], outcome: ReadOutcome) -> (r: Outbound)
        requires
            old(self).wf(),
            old(self).open,
            buf@.len() <= READ_CHUNK,
        ensures
            final(self).wf(),
            r matches Outbound::Forward(c) ==> final(self).open && final(self).reads@ == old(
                self,
            ).reads@.push(c@) && final(self).forwarded@ == old(self).forwarded@ + c@,
            r is Stop ==> !final(self).open && final(self).reads@ == old(self).reads@
                && final(self).forwarded@ == old(self).forwarded@,
            (outcome matches ReadOutcome::Bytes(n) && 0 < n <= buf@.len()) ==> (r matches Outbound::Forward(
                c,
            ) && c@ == buf@.subrange(0, outcome->Bytes_0 as int)),
            !(outcome matches ReadOutcome::Bytes(n) && 0 < n <= buf@.len()) ==> r is Stop,
    {
        let r = on_terminal_read(buf, outcome);
        match &r {
            Outbound::Forward(c) => {
                let ghost before = self.reads@;
                let ghost after = before.push(c@);
                proof {
                    assert(after.drop_last() =~= before);
                    assert forall|i: int| 0 <= i < after.len() implies 1 <= (#[trigger] after[i]).len()
                        <= READ_CHUNK by {
                        if i < before.len() {
                            assert(after[i] == before[i]);
                        }
                    }
                }
                self.reads = Ghost(after);
                self.forwarded = Ghost(joined(after));
            },
            Outbound::Stop => {
                self.open = false;
            },
        }
        r
    }
}

/// Where the shell starts: the user's home directory when it is known,
/// else the filesystem root.
pub fn shell_cwd(home: Option<String>) -> (r: String)
    ensures
        home matches Some(h) ==> r == h,
        home is None ==> r@ == "/"@,
{
    match home {
        Some(h) => h,
        None => "/".to_owned(),
    }
}

} // verus!
