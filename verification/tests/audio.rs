use sav1n::audio::{audio_command, ends_with, same_text, AudioError, ProbedStream};

fn stream(kind: Option<&str>, layout: Option<&str>, channels: Option<u64>) -> ProbedStream {
    ProbedStream {
        codec_type: kind.map(str::to_string),
        channel_layout: layout.map(str::to_string),
        channels,
    }
}

#[test]
fn audio_line_for_two_audio_streams() {
    let streams = vec![
        stream(Some("video"), None, None),
        stream(Some("audio"), Some("5.1(side)"), Some(6)),
        stream(Some("subtitle"), None, None),
        stream(Some("audio"), Some("stereo"), Some(2)),
    ];
    let line = audio_command("film.mkv", "/tmp/2", &streams).unwrap();
    assert_eq!(line.program, "ffmpeg");
    assert_eq!(
        line.args,
        vec![
            "-y", "-i", "film.mkv", "-map", "0", "-vn", "-c:a", "libopus", "-vbr", "on",
            "-b:a:0", "252K", "-b:a:1", "84K", "-filter_complex",
            "[:1]channelmap=channel_layout='5.1';[:3]channelmap=channel_layout='stereo'",
            "-c:s", "copy", "/tmp/2/audio.mkv",
        ]
    );
}

#[test]
fn audio_line_without_audio() {
    let line = audio_command("clip.mp4", "/tmp/0", &vec![stream(None, None, None)]).unwrap();
    assert_eq!(
        line.args,
        vec![
            "-y", "-i", "clip.mp4", "-map", "0", "-vn", "-c:a", "libopus", "-vbr", "on",
            "-filter_complex", "", "-c:s", "srt", "/tmp/0/audio.mkv",
        ]
    );
}

#[test]
fn audio_errors() {
    let err = |s: ProbedStream| {
        audio_command("a", "b", &vec![stream(Some("audio"), Some("mono"), Some(1)), s]).err()
    };
    assert_eq!(err(stream(Some("audio"), None, None)), Some(AudioError::MissingLayout));
    assert_eq!(err(stream(Some("audio"), Some("mono"), None)), Some(AudioError::MissingChannels));
    assert_eq!(
        err(stream(Some("audio"), Some("mono"), Some(u64::MAX / 42 + 1))),
        Some(AudioError::BitrateTooLarge)
    );
    assert_eq!(err(stream(Some("audio"), Some("mono"), Some(u64::MAX / 42))), None);
    assert_eq!(err(stream(Some("Audio"), None, None)), None);
}

#[test]
fn suffixes_and_equal_texts() {
    assert!(ends_with("film.mp4", "mp4"));
    assert!(ends_with("mp4", "mp4"));
    assert!(ends_with("mp4", ""));
    assert!(!ends_with("p4", "mp4"));
    assert!(!ends_with("film.mp4 ", "mp4"));
    assert!(ends_with("caf\u{e9}(side)", "(side)"));
    assert!(same_text("audio", "audio"));
    assert!(!same_text("audio", "audi"));
    assert!(!same_text("xaudio", "audio"));
    assert!(same_text("", ""));
}
