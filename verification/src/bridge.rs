//! The framed byte channel and the streaming bridge around it.
//!
//! A push-style sink (driven by the remote decode session) and a pull-style
//! stream (driven by the voice-transport consumer) share one bounded byte
//! channel per track. Every logical stream begins with a fixed 16-byte header
//! (an 8-byte ASCII tag, then little-endian sample rate and channel count),
//! and a zero-length packet is the sole end-of-stream marker: a zero-length
//! read means "track finished", never "no data yet".
use vstd::prelude::*;

verus! {

/// Audio sample rate of the remote decode session's output.
pub const SAMPLE_RATE: u32 = 44100;

/// Channel count of the remote decode session's output.
pub const NUM_CHANNELS: u32 = 2;

/// Bytes per interleaved sample frame: one 32-bit sample per channel.
pub const FRAME_BYTES: usize = 8;

/// How many packets a per-track byte channel buffers before the producer
/// blocks: the backpressure bound.
pub const CHANNEL_BOUND: usize = 16;

// ---------------------------------------------------------------------------
// Trusted declarations of the channel endpoints
// ---------------------------------------------------------------------------
#[verifier::external_type_specification]
#[verifier::external_body]
#[verifier::reject_recursive_types(T)]
pub struct ExSender<T>(flume::Sender<T>);

#[verifier::external_type_specification]
#[verifier::external_body]
#[verifier::reject_recursive_types(T)]
pub struct ExReceiver<T>(flume::Receiver<T>);

/// One track's byte pipe, producer half.
pub type ByteSink = flume::Sender<Vec<u8>>;

/// One track's byte pipe, consumer half.
pub type ByteStream = flume::Receiver<Vec<u8>>;

/// Registry half on which the consumer announces each new track channel.
pub type TrackChannelTx = flume::Sender<ByteSink>;

/// Registry half from which the sink claims each new track channel.
pub type TrackChannelRx = flume::Receiver<ByteSink>;

/// Why a receive without waiting returned nothing.
#[derive(Clone, Copy, Debug, PartialEq, Eq, Structural)]
pub enum TryRecvEnd {
    /// No message is waiting.
    Empty,
    /// Every sender is gone and nothing is left in the channel.
    Disconnected,
}

/// Relies on `flume::unbounded`: a channel without a capacity bound, whose
/// `send` never blocks. What travels through it depends on the other side, so
/// nothing more is claimed.
#[verifier::external_body]
fn channel_unbounded<T>() -> (flume::Sender<T>, flume::Receiver<T>) {
    flume::unbounded()
}

/// Relies on `flume::bounded`: a channel holding at most `cap` messages;
/// `send` blocks while it is full. What travels through it depends on the
/// other side, so nothing more is claimed.
#[verifier::external_body]
fn channel_bounded<T>(cap: usize) -> (flume::Sender<T>, flume::Receiver<T>) {
    flume::bounded(cap)
}

/// Relies on `flume::Sender::send`: blocks while a bounded channel is full
/// and fails exactly when every receiver has been dropped. Whether that has
/// happened depends on the other side, so nothing is claimed of the result.
#[verifier::external_body]
fn channel_send<T>(s: &flume::Sender<T>, msg: T) -> (r: Result<(), ()>) {
    s.send(msg).map_err(|_| ())
}

/// Relies on `flume::Receiver::recv`: blocks until a message arrives and
/// fails exactly when every sender is gone and the channel is drained. What
/// arrives depends on the other side, so nothing is claimed of the result.
#[verifier::external_body]
fn channel_recv<T>(r: &flume::Receiver<T>) -> (res: Result<T, ()>) {
    r.recv().map_err(|_| ())
}

/// Relies on `flume::Receiver::try_recv`: never blocks; tells an empty
/// channel apart from one whose senders are all gone. What arrives depends on
/// the other side, so nothing is claimed of the result.
#[verifier::external_body]
fn channel_try_recv<T>(r: &flume::Receiver<T>) -> (res: Result<T, TryRecvEnd>) {
    match r.try_recv() {
        Ok(v) => Ok(v),
        Err(flume::TryRecvError::Empty) => Err(TryRecvEnd::Empty),
        Err(flume::TryRecvError::Disconnected) => Err(TryRecvEnd::Disconnected),
    }
}

/// Opens the per-session registry pairing the consumer side (which announces
/// a channel per track) with the sink side (which claims them in FIFO order).
pub fn track_channels() -> (TrackChannelTx, TrackChannelRx) {
    channel_unbounded()
}

// ---------------------------------------------------------------------------
// Little-endian layout
// ---------------------------------------------------------------------------
/// The four little-endian bytes of a 32-bit value.
pub open spec fn u32_le(x: u32) -> Seq<u8> {
    seq![
        (x & 0xff) as u8,
        ((x >> 8) & 0xff) as u8,
        ((x >> 16) & 0xff) as u8,
        ((x >> 24) & 0xff) as u8,
    ]
}

/// A packet of 32-bit samples laid out as consecutive little-endian bytes.
pub open spec fn le_bytes_of(s: Seq<u32>) -> Seq<u8>
    decreases s.len(),
{
    if s.len() == 0 {
        Seq::empty()
    } else {
        le_bytes_of(s.drop_last()) + u32_le(s.last())
    }
}

fn push_u32_le(out: &mut Vec<u8>, x: u32)
    ensures
        final(out)@ == old(out)@ + u32_le(x),
{
    out.push((x & 0xff) as u8);
    out.push(((x >> 8) & 0xff) as u8);
    out.push(((x >> 16) & 0xff) as u8);
    out.push(((x >> 24) & 0xff) as u8);
    proof {
        assert(final(out)@ =~= old(out)@ + u32_le(x));
    }
}

/// Lays a packet of 32-bit samples (for audio, the bit patterns of 32-bit
/// float samples) out as little-endian bytes, four per sample.
pub fn samples_to_le_bytes(samples: &Vec<u32>) -> (r: Vec<u8>)
    ensures
        r@ == le_bytes_of(samples@),
        r@.len() == 4 * samples@.len(),
{
    let mut out: Vec<u8> = Vec::new();
    let mut i: usize = 0;
    proof {
        assert(samples@.take(0) =~= Seq::<u32>::empty());
    }
    while i < samples.len()
        invariant
            i <= samples@.len(),
            out@ == le_bytes_of(samples@.take(i as int)),
            out@.len() == 4 * i,
        decreases samples@.len() - i,
    {
        proof {
            assert(samples@.take(i + 1).drop_last() =~= samples@.take(i as int));
            assert(samples@.take(i + 1).last() == samples@[i as int]);
        }
        push_u32_le(&mut out, samples[i]);
        i += 1;
    }
    proof {
        assert(samples@.take(i as int) =~= samples@);
    }
    out
}

/// The 16-byte stream header: the ASCII tag `SbirdRaw`, then the sample rate
/// and the channel count, each as little-endian 32-bit values.
pub open spec fn header_seq() -> Seq<u8> {
    seq![83u8, 98u8, 105u8, 114u8, 100u8, 82u8, 97u8, 119u8] + u32_le(SAMPLE_RATE) + u32_le(NUM_CHANNELS)
}

/// Builds the 16-byte stream header.
pub fn header_bytes() -> (r: Vec<u8>)
    ensures
        r@ == header_seq(),
        r@.len() == 16,
{
    let mut v: Vec<u8> = Vec::new();
    v.push(83);
    v.push(98);
    v.push(105);
    v.push(114);
    v.push(100);
    v.push(82);
    v.push(97);
    v.push(119);
    push_u32_le(&mut v, SAMPLE_RATE);
    push_u32_le(&mut v, NUM_CHANNELS);
    proof {
        assert(v@ =~= header_seq());
    }
    v
}

// ---------------------------------------------------------------------------
// The sink: the push half driven by the remote decode session
// ---------------------------------------------------------------------------
/// Why a sink operation failed. Contained to the current track: the embedding
/// decode engine exits the process on any error it is handed from `stop`, so
/// `stop` never fails.
#[derive(Clone, Copy, Debug, PartialEq, Eq, Structural)]
pub enum SinkError {
    /// No channel was registered before decoding began: the consumer must
    /// register the track's channel strictly before starting the session.
    ConnectionRefused,
    /// The registry or the track's channel is gone, most often because the
    /// track was skipped or the consumer left.
    NotConnected,
}

/// Receives audio packets from the decode session and forwards them to the
/// current track's byte channel. Each track uses a channel of its own,
/// registered by [`MediaStream::new`] and claimed here in FIFO order.
pub struct MediaSink {
    /// Registry of per-track channels, in the order the consumer opened them.
    track_channels: TrackChannelRx,
    /// The claimed channel of the track now decoding, if any.
    sink: Option<ByteSink>,
}

impl MediaSink {
    /// A track's channel has been claimed and not yet released.
    pub closed spec fn connected(&self) -> bool {
        self.sink is Some
    }

    pub fn new(track_channels: TrackChannelRx) -> (r: MediaSink)
        ensures
            !r.connected(),
    {
        MediaSink { track_channels, sink: None }
    }

    /// Claims the channel registered for the track about to decode. Fails
    /// when none is pending (the consumer has not registered one yet) or when
    /// the registry itself is gone; on failure the previous claim, if any,
    /// stays as it was.
    pub fn start(&mut self) -> (r: Result<(), SinkError>)
        ensures
            r is Ok ==> final(self).connected(),
            r is Err ==> final(self).connected() == old(self).connected(),
    {
        match channel_try_recv(&self.track_channels) {
            Ok(channel) => {
                self.sink = Some(channel);
                Ok(())
            },
            Err(TryRecvEnd::Empty) => Err(SinkError::ConnectionRefused),
            Err(TryRecvEnd::Disconnected) => Err(SinkError::NotConnected),
        }
    }

    /// Ends the current track: sends the zero-length end-of-stream sentinel
    /// if a channel is active, then releases it. Never fails.
    pub fn stop(&mut self) -> (r: Result<(), SinkError>)
        ensures
            r is Ok,
            !final(self).connected(),
    {
        match &self.sink {
            Some(channel) => {
                // The receiver may already be gone; that ends the track too.
                let _ = channel_send(channel, Vec::new());
            },
            None => {},
        }
        self.sink = None;
        Ok(())
    }

    /// Forwards one packet of raw bytes to the active track's channel,
    /// blocking under backpressure. Fails when no channel is claimed or the
    /// track's stream was dropped; either way the claim itself is unchanged.
    pub fn write(&mut self, packet: Vec<u8>) -> (r: Result<(), SinkError>)
        ensures
            final(self).connected() == old(self).connected(),
            !old(self).connected() ==> r == Err::<(), SinkError>(SinkError::NotConnected),
    {
        match &self.sink {
            Some(channel) => {
                match channel_send(channel, packet) {
                    Ok(()) => Ok(()),
                    Err(()) => Err(SinkError::NotConnected),
                }
            },
            None => Err(SinkError::NotConnected),
        }
    }

    /// Forwards one packet of 32-bit samples, laid out as four little-endian
    /// bytes each, exactly as [`samples_to_le_bytes`] states.
    pub fn write_samples(&mut self, samples: &Vec<u32>) -> (r: Result<(), SinkError>)
        ensures
            final(self).connected() == old(self).connected(),
            !old(self).connected() ==> r == Err::<(), SinkError>(SinkError::NotConnected),
    {
        let packet = samples_to_le_bytes(samples);
        self.write(packet)
    }
}

// ---------------------------------------------------------------------------
// The stream: the pull half driven by the transport consumer
// ---------------------------------------------------------------------------
/// Why a read failed.
#[derive(Clone, Copy, Debug, PartialEq, Eq, Structural)]
pub enum StreamError {
    /// The stream already reported end-of-stream with an empty read.
    Exhausted,
    /// The destination holds less than one whole sample frame; a partial
    /// frame would corrupt the byte stream.
    BufferTooSmall,
}

/// The pull side of one track's byte pipe. The first bytes it yields are
/// always the 16-byte header; an empty read marks end-of-stream, after which
/// every further read fails.
pub struct MediaStream {
    /// The track's byte channel; `None` once end-of-stream was reported.
    receiver: Option<ByteStream>,
    /// The packet being drained, the header at first.
    unread: Vec<u8>,
    /// How much of `unread` earlier reads already took.
    read_offset: usize,
}

impl MediaStream {
    pub closed spec fn wf(&self) -> bool {
        self.read_offset <= self.unread@.len()
    }

    /// End-of-stream was reported; every further read fails.
    pub closed spec fn ended(&self) -> bool {
        self.receiver is None
    }

    /// The bytes already received and not yet read.
    pub closed spec fn pending(&self) -> Seq<u8> {
        self.unread@.skip(self.read_offset as int)
    }

    /// The zero-length end-of-stream sentinel has been buffered: the next
    /// read reports end-of-stream.
    pub closed spec fn saw_end(&self) -> bool {
        self.unread@.len() == 0
    }

    /// Registers a fresh bounded channel for one track and returns its pull
    /// half, primed with the 16-byte header. `None` when the session's
    /// registry is gone.
    pub fn new(track_channels: &TrackChannelTx) -> (r: Option<MediaStream>)
        ensures
            match r {
                Some(stream) => stream.wf() && !stream.ended() && !stream.saw_end()
                    && stream.pending() == header_seq(),
                None => true,
            },
    {
        let (byte_sink, byte_stream) = channel_bounded(CHANNEL_BOUND);
        match channel_send(track_channels, byte_sink) {
            Ok(()) => {
                let header = header_bytes();
                proof {
                    assert(header@.skip(0) =~= header@);
                }
                Some(MediaStream { receiver: Some(byte_stream), unread: header, read_offset: 0 })
            },
            Err(()) => None,
        }
    }

    /// Reads up to `max` bytes. Blocks when nothing is buffered and the track
    /// has not ended, so that an empty result means end-of-stream and nothing
    /// else; drains as many pending packets as fit. Whatever was already
    /// buffered comes out exactly in order; when at least `max` bytes are
    /// buffered, exactly `max` come out and the rest stay.
    pub fn read(&mut self, max: usize) -> (r: Result<Vec<u8>, StreamError>)
        requires
            old(self).wf(),
        ensures
            final(self).wf(),
            old(self).ended() ==> (r == Err::<Vec<u8>, StreamError>(StreamError::Exhausted)
                && *final(self) == *old(self)),
            (!old(self).ended() && max < FRAME_BYTES) ==> (r == Err::<Vec<u8>, StreamError>(
                StreamError::BufferTooSmall,
            ) && *final(self) == *old(self)),
            (!old(self).ended() && max >= FRAME_BYTES) ==> r is Ok,
            (!old(self).ended() && max >= FRAME_BYTES && old(self).saw_end()) ==> (r matches Ok(out)
                && out@ =~= Seq::<u8>::empty()),
            r matches Ok(out) ==> {
                &&& out@.len() <= max
                &&& (out@.len() == 0 <==> final(self).ended())
                &&& (old(self).pending().len() > 0 ==> {
                    let m = if old(self).pending().len() <= max {
                        old(self).pending().len() as int
                    } else {
                        max as int
                    };
                    out@.len() >= m && out@.take(m) == old(self).pending().take(m)
                })
                &&& (old(self).pending().len() >= max ==> (out@ == old(self).pending().take(
                    max as int,
                ) && final(self).pending() == old(self).pending().skip(max as int)
                    && !(final(self).ended())))
            },
    {
        match &self.receiver {
            None => {
                return Err(StreamError::Exhausted);
            },
            Some(_) => {},
        }
        if max < FRAME_BYTES {
            return Err(StreamError::BufferTooSmall);
        }
        // A fully drained packet: block for the next one. A closed channel
        // ends the stream just as the sentinel does.
        if self.unread.len() > 0 && self.read_offset == self.unread.len() {
            let got = match &self.receiver {
                Some(receiver) => channel_recv(receiver),
                None => Err(()),
            };
            match got {
                Ok(packet) => {
                    self.unread = packet;
                    self.read_offset = 0;
                },
                Err(()) => {
                    self.unread = Vec::new();
                    self.read_offset = 0;
                },
            }
        }
        // The sentinel, buffered or just received: report end-of-stream once;
        // further reads fail.
        if self.unread.len() == 0 {
            self.receiver = None;
            return Ok(Vec::new());
        }
        let ghost p0 = self.pending();
        let ghost m = if p0.len() <= max {
            p0.len() as int
        } else {
            max as int
        };
        let mut out: Vec<u8> = Vec::new();
        let k = drain_into(&self.unread, self.read_offset, &mut out, max);
        self.read_offset = self.read_offset + k;
        proof {
            assert(out@ =~= p0.take(m));
            assert(self.pending() =~= p0.skip(m));
            if p0.len() >= max {
                assert(out@ =~= p0.take(max as int));
            }
        }
        while out.len() < max
            invariant
                self.wf(),
                !self.ended(),
                max >= FRAME_BYTES,
                out@.len() <= max,
                m == (if p0.len() <= max {
                    p0.len() as int
                } else {
                    max as int
                }),
                out@.len() >= m,
                out@.take(m) == p0.take(m),
                p0.len() >= max ==> out@ == p0.take(max as int) && self.pending() == p0.skip(
                    max as int,
                ),
            decreases max - out@.len(),
        {
            proof {
                if p0.len() >= max {
                    assert(out@.len() == max);
                }
            }
            let got = match &self.receiver {
                Some(receiver) => channel_try_recv(receiver),
                None => Err(TryRecvEnd::Disconnected),
            };
            match got {
                Ok(packet) => {
                    let ghost out_before = out@;
                    self.unread = packet;
                    self.read_offset = 0;
                    if self.unread.len() == 0 {
                        // The sentinel: leave it buffered so the next read
                        // reports end-of-stream.
                        break ;
                    }
                    let k2 = drain_into(&self.unread, 0, &mut out, max);
                    self.read_offset = k2;
                    proof {
                        assert(out@.take(m) =~= out_before.take(m));
                    }
                },
                Err(_) => {
                    // Nothing pending right now: hand back what we have
                    // rather than blocking mid-read.
                    break ;
                },
            }
        }
        proof {
            if p0.len() > 0 {
                assert(out@.len() >= m && m >= 1);
            }
        }
        Ok(out)
    }
}

/// Copies into `out`, up to its `max` capacity, the bytes of `unread` from
/// `offset` on; returns how many were copied.
fn drain_into(unread: &Vec<u8>, offset: usize, out: &mut Vec<u8>, max: usize) -> (k: usize)
    requires
        offset <= unread@.len(),
        old(out)@.len() <= max,
    ensures
        k == (if unread@.len() - offset <= max - old(out)@.len() {
            unread@.len() - offset
        } else {
            max - old(out)@.len()
        }),
        offset + k <= unread@.len(),
        final(out)@ == old(out)@ + unread@.subrange(offset as int, offset + k),
{
    let avail: usize = unread.len() - offset;
    let want: usize = max - out.len();
    let k: usize = if avail <= want {
        avail
    } else {
        want
    };
    let mut j: usize = 0;
    proof {
        assert(out@ =~= old(out)@ + unread@.subrange(offset as int, offset as int));
    }
    while j < k
        invariant
            j <= k,
            offset + k <= usize::MAX,
            offset + k <= unread@.len(),
            out@ == old(out)@ + unread@.subrange(offset as int, offset + j),
        decreases k - j,
    {
        out.push(unread[offset + j]);
        proof {
            assert(out@ =~= old(out)@ + unread@.subrange(offset as int, offset + j + 1));
        }
        j += 1;
    }
    k
}

} // verus!
