//! The framed byte channel: sink and stream paired per track, the 16-byte
//! header, end-of-stream signaling, coalescing reads, and block assembly.
use prospero::bridge::{
    header_bytes, samples_to_le_bytes, track_channels, MediaSink, MediaStream, SinkError,
    StreamError,
};
use prospero::resampler::Resampler;

fn sample_packet(value: f32, count: usize) -> Vec<u32> {
    vec![value.to_bits(); count]
}

#[test]
fn media_sink_test() {
    let (track_channels_tx, track_channels_rx) = track_channels();
    let mut sink = MediaSink::new(track_channels_rx);
    drop(track_channels_tx);
    // Sink is disconnected
    assert!(sink.start().is_err());
    // stop should always succeed as otherwise the decode engine exits
    assert!(sink.stop().is_ok(), "Stop should always succeed");

    let (_track_channels_tx, track_channels_rx) = track_channels();
    let mut sink = MediaSink::new(track_channels_rx);
    // Sink is connected, but no channel is created yet
    assert!(sink.start().is_err());
    assert!(sink.stop().is_ok(), "Stop should always succeed");

    // write error
    let (track_channels_tx, track_channels_rx) = track_channels();
    let mut sink = MediaSink::new(track_channels_rx);
    let stream = MediaStream::new(&track_channels_tx).unwrap();
    assert!(sink.start().is_ok());
    assert!(sink.write_samples(&sample_packet(1.0, 16)).is_ok());

    drop(stream);
    assert!(sink.write_samples(&sample_packet(0.0, 16)).is_err());
    assert!(sink.stop().is_ok(), "Stop should always succeed");

    let (track_channels_tx, track_channels_rx) = track_channels();
    let mut sink = MediaSink::new(track_channels_rx);
    let stream = MediaStream::new(&track_channels_tx).unwrap();
    assert!(sink.start().is_ok());
    assert!(sink.write_samples(&sample_packet(1.0, 16)).is_ok());
    assert!(sink.stop().is_ok(), "Stop should always succeed");
    // Sink is disconnected, write should fail now
    assert!(sink.write_samples(&sample_packet(0.0, 16)).is_err());
    drop(stream);

    // No track channel is created, start should fail
    assert!(sink.start().is_err());
    let stream = MediaStream::new(&track_channels_tx).unwrap();
    // Now a stream was created, so the sink should start
    assert!(sink.start().is_ok());
    drop(stream);
}

#[test]
fn media_stream_test() {
    let (track_channels_tx, track_channels_rx) = track_channels();
    let mut sink = MediaSink::new(track_channels_rx);
    let mut stream = MediaStream::new(&track_channels_tx).unwrap();

    // No track, just header
    assert!(sink.start().is_ok());
    assert!(sink.stop().is_ok());
    let out = stream.read(1024).unwrap();
    assert_eq!(out.len(), 16);
    assert_eq!(&out[..8], b"SbirdRaw");
    assert_eq!(stream.read(1024).unwrap().len(), 0);
    assert!(stream.read(1024).is_err());

    // First sequential track
    let mut stream = MediaStream::new(&track_channels_tx).unwrap();
    sink.start().unwrap();
    // each 32-bit sample is 4 bytes long
    sink.write_samples(&sample_packet(1.0, 128)).unwrap();
    sink.stop().unwrap();

    // everything is ready at the moment of this read, so it all comes at once
    let out = stream.read(1024).unwrap();
    assert_eq!(out.len(), 16 + 128 * 4);
    assert_eq!(&out[..8], b"SbirdRaw");

    // and then the end of the stream
    assert_eq!(stream.read(1024).unwrap().len(), 0);
    assert!(stream.read(1024).is_err());

    // Next sequential track
    let mut stream = MediaStream::new(&track_channels_tx).unwrap();
    sink.start().unwrap();
    sink.write_samples(&sample_packet(0.0, 64)).unwrap();
    sink.stop().unwrap();

    let out = stream.read(1024).unwrap();
    assert_eq!(out.len(), 16 + 64 * 4);
    assert_eq!(&out[..8], b"SbirdRaw");

    // and then the end of the stream
    assert_eq!(stream.read(1024).unwrap().len(), 0);
    assert!(stream.read(1024).is_err());

    // Multiple pending packets coalesce into one read
    let mut stream = MediaStream::new(&track_channels_tx).unwrap();
    let out = stream.read(1024).unwrap();
    assert_eq!(out.len(), 16);
    assert_eq!(&out[..8], b"SbirdRaw");
    sink.start().unwrap();
    sink.write_samples(&sample_packet(0.0, 16)).unwrap();
    sink.write_samples(&sample_packet(1.0, 16)).unwrap();
    // read all the data at once
    assert_eq!(stream.read(1024).unwrap().len(), (16 + 16) * 4);

    sink.write_samples(&sample_packet(1.0, 128)).unwrap();
    // read by portions
    assert_eq!(stream.read(257).unwrap().len(), 257);
    assert_eq!(stream.read(1024).unwrap().len(), 128 * 4 - 257);

    sink.stop().unwrap();
    // and then the end of the stream
    assert_eq!(stream.read(1024).unwrap().len(), 0);
    assert!(stream.read(1024).is_err());

    // it was the last stream on this registry, so the sink cannot start
    assert!(sink.start().is_err());

    // Finally, multiple streams against the same sink
    let (track_channels_tx, track_channels_rx) = track_channels();
    let mut sink = MediaSink::new(track_channels_rx);
    let streams = (0..10)
        .map(|i| {
            let stream = MediaStream::new(&track_channels_tx).unwrap();
            sink.start().unwrap();
            sink.write_samples(&sample_packet(0.0, 16 + i)).unwrap();
            sink.stop().unwrap();

            stream
        })
        .collect::<Vec<_>>();

    for (i, mut stream) in streams.into_iter().enumerate() {
        let out = stream.read(1024).unwrap();
        assert_eq!(out.len(), 16 + (16 + i) * 4);
        assert_eq!(&out[..8], b"SbirdRaw");
        assert_eq!(stream.read(1024).unwrap().len(), 0);
        assert!(stream.read(1024).is_err());
    }
}

#[test]
fn header_is_tag_rate_channels() {
    let header = header_bytes();
    assert_eq!(header.len(), 16);
    assert_eq!(&header[..8], b"SbirdRaw");
    assert_eq!(&header[8..12], &44100u32.to_le_bytes());
    assert_eq!(&header[12..16], &2u32.to_le_bytes());
}

#[test]
fn sink_error_kinds() {
    // An empty registry refuses the connection; a dropped registry is gone.
    let (track_channels_tx, track_channels_rx) = track_channels();
    let mut sink = MediaSink::new(track_channels_rx);
    assert_eq!(sink.start(), Err(SinkError::ConnectionRefused));
    drop(track_channels_tx);
    assert_eq!(sink.start(), Err(SinkError::NotConnected));
    assert_eq!(sink.write_samples(&sample_packet(0.0, 4)), Err(SinkError::NotConnected));
}

#[test]
fn stream_error_kinds() {
    let (track_channels_tx, track_channels_rx) = track_channels();
    let mut sink = MediaSink::new(track_channels_rx);
    let mut stream = MediaStream::new(&track_channels_tx).unwrap();
    // A destination smaller than one sample frame is a caller error.
    assert_eq!(stream.read(4), Err(StreamError::BufferTooSmall));
    sink.start().unwrap();
    sink.stop().unwrap();
    assert_eq!(stream.read(16).unwrap().len(), 16);
    assert_eq!(stream.read(16).unwrap().len(), 0);
    // After end-of-stream every read fails.
    assert_eq!(stream.read(16), Err(StreamError::Exhausted));
}

#[test]
fn sample_bytes_are_little_endian_floats() {
    // The byte layout is four little-endian bytes per 32-bit sample, exactly
    // what the 32-bit float samples serialize to.
    let samples = vec![1.0f32.to_bits(), (-0.5f32).to_bits(), 0.25f32.to_bits()];
    let bytes = samples_to_le_bytes(&samples);
    let mut expected = Vec::new();
    expected.extend_from_slice(&1.0f32.to_le_bytes());
    expected.extend_from_slice(&(-0.5f32).to_le_bytes());
    expected.extend_from_slice(&0.25f32.to_le_bytes());
    assert_eq!(bytes, expected);
}

#[test]
fn written_bytes_come_back_verbatim() {
    // What the sink writes is exactly what the stream reads after the header.
    let (track_channels_tx, track_channels_rx) = track_channels();
    let mut sink = MediaSink::new(track_channels_rx);
    let mut stream = MediaStream::new(&track_channels_tx).unwrap();
    sink.start().unwrap();
    let samples = vec![0.75f32.to_bits(); 16];
    sink.write_samples(&samples).unwrap();
    sink.stop().unwrap();

    let out = stream.read(1024).unwrap();
    assert_eq!(out.len(), 16 + 64);
    assert_eq!(&out[..8], b"SbirdRaw");
    for chunk in out[16..].chunks(4) {
        assert_eq!(chunk, &0.75f32.to_le_bytes());
    }
    // Drained across several undersized reads the total is the same.
    let mut stream = MediaStream::new(&track_channels_tx).unwrap();
    sink.start().unwrap();
    sink.write_samples(&vec![1.0f32.to_bits(); 32]).unwrap();
    sink.write_samples(&vec![1.0f32.to_bits(); 128]).unwrap();
    sink.stop().unwrap();
    let mut total = 0;
    loop {
        let out = stream.read(48).unwrap();
        if out.is_empty() {
            break;
        }
        total += out.len();
    }
    assert_eq!(total, 16 + 32 * 4 + 128 * 4);
}

#[test]
fn resampler_flushes_whole_blocks_only() {
    // Short of a block nothing comes out; exactly one block comes out whole,
    // and the accumulator is cleared.
    let mut resampler = Resampler::new(44100, 48000, 4);
    let c0 = vec![1u32, 2, 3];
    let c1 = vec![10u32, 20, 30];
    assert_eq!(resampler.push_and_maybe_flush(c0, c1), None);
    // One more frame completes the block exactly.
    let out = resampler.push_and_maybe_flush(vec![4u32], vec![40u32]).unwrap();
    assert_eq!(out, vec![(1, 10), (2, 20), (3, 30), (4, 40)]);
    // The accumulator was cleared: the next short push yields nothing again.
    assert_eq!(resampler.push_and_maybe_flush(vec![5u32], vec![50u32]), None);
    // Two whole blocks at once come out together, leftovers stay.
    let out = resampler
        .push_and_maybe_flush(vec![6u32, 7, 8, 9, 10, 11, 12, 13], vec![0u32; 8])
        .unwrap();
    assert_eq!(out.len(), 8);
    assert_eq!(out[0], (5, 50));
    assert_eq!(out[7], (12, 0));
}
