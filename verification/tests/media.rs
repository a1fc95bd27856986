use srt_router::media::{media_step, MediaAction, MediaEvent};
use srt_router::media::{
    default_height, default_loop_playback, default_width, ffmpeg_args, take_chunks, Endpoint,
    CHUNK_LEN,
};

#[test]
fn defaults() {
    assert_eq!(default_width(), 1280);
    assert_eq!(default_height(), 720);
    assert!(default_loop_playback());
    assert_eq!(CHUNK_LEN, 188 * 7);
}

#[test]
fn stills_arguments() {
    let args = ffmpeg_args(&Endpoint::Stills { image_path: "/tmp/x.png".to_string(), width: 64, height: 48 });
    assert_eq!(&args[..7], &["-loglevel", "error", "-re", "-loop", "1", "-i", "/tmp/x.png"]);
    assert_eq!(args[7], "-vf");
    assert_eq!(args[8], "scale=64:48");
    assert_eq!(args.last().unwrap(), "pipe:1");
    assert_eq!(args.len(), 7 + 19);
}

#[test]
fn media_player_loops_only_when_asked() {
    let looped = ffmpeg_args(&Endpoint::MediaPlayer {
        file_path: "/m.mp4".to_string(),
        loop_playback: true,
        width: 1280,
        height: 720,
    });
    assert_eq!(&looped[3..7], &["-stream_loop", "-1", "-i", "/m.mp4"]);
    let once = ffmpeg_args(&Endpoint::MediaPlayer {
        file_path: "/m.mp4".to_string(),
        loop_playback: false,
        width: 1280,
        height: 720,
    });
    assert_eq!(&once[3..5], &["-i", "/m.mp4"]);
    assert_eq!(once[6], "scale=1280:720");
}

#[test]
fn scaler_reads_stdin() {
    let e = Endpoint::Scaler { source: "a".to_string(), width: 32, height: 32 };
    assert!(e.needs_stdin());
    let args = ffmpeg_args(&e);
    assert_eq!(&args[3..7], &["-f", "mpegts", "-i", "pipe:0"]);
}

#[test]
fn chunks_are_whole_and_the_rest_waits() {
    let input: Vec<u8> = (0..(CHUNK_LEN * 2 + 100)).map(|i| (i % 251) as u8).collect();
    let mut buf = input.clone();
    let chunks = take_chunks(&mut buf);
    assert_eq!(chunks.len(), 2);
    assert!(chunks.iter().all(|c| c.len() == CHUNK_LEN));
    assert_eq!(buf.len(), 100);
    let mut joined: Vec<u8> = chunks.concat();
    joined.extend_from_slice(&buf);
    assert_eq!(joined, input);
}

#[test]
fn media_sources_retry_until_cancelled() {
    let scaler = Endpoint::Scaler { source: "cam".to_string(), width: 64, height: 32 };
    let stills = Endpoint::Stills { image_path: "/tmp/x.png".to_string(), width: 64, height: 32 };
    assert_eq!(media_step(&scaler, false, MediaEvent::Spawned { upstream_found: false }), MediaAction::Retry);
    assert_eq!(media_step(&scaler, false, MediaEvent::Spawned { upstream_found: true }), MediaAction::Relay);
    assert_eq!(media_step(&stills, false, MediaEvent::Spawned { upstream_found: false }), MediaAction::Relay);
    assert_eq!(media_step(&stills, false, MediaEvent::SpawnFailed), MediaAction::Retry);
    assert_eq!(media_step(&stills, false, MediaEvent::Ended), MediaAction::Retry);
    assert_eq!(media_step(&stills, true, MediaEvent::Ended), MediaAction::Stop);
}
