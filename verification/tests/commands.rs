use sav1n::commands::{
    decoder_command, detector_command, mux_options, mux_options_file, muxer_command, scene_name,
    scorer_command, ScenePaths,
};
use sav1n::encoder::CommandLine;

fn words(line: &CommandLine) -> Vec<&str> {
    line.args.iter().map(|a| a.as_str()).collect()
}

#[test]
fn scene_names() {
    assert_eq!(scene_name("/tmp/0", 0), "/tmp/0/000000");
    assert_eq!(scene_name("/tmp/0", 7), "/tmp/0/000007");
    assert_eq!(scene_name("/tmp/12", 1234567), "/tmp/12/1234567");
    assert_eq!(scene_name("", u32::MAX), "/4294967295");
}

#[test]
fn scene_files_and_options() {
    let paths = ScenePaths::new("/tmp/3", 12);
    assert_eq!(paths.log_file, "/tmp/3/000012.log");
    assert_eq!(paths.source, "/tmp/3/000012.y4m");
    assert_eq!(paths.stream, "/tmp/3/000012.ivf");
    let first = paths.first_pass_options();
    assert_eq!((first.cpu_used, first.threads, first.cq), (0, 1, 20));
    assert_eq!(
        (first.log_file, first.input, first.output),
        ("/tmp/3/000012.log", "/tmp/3/000012.y4m", "/dev/null")
    );
    let second = paths.second_pass_options(33, 2);
    assert_eq!((second.cpu_used, second.threads, second.cq), (2, 1, 33));
    assert_eq!(
        (second.log_file, second.input, second.output),
        ("/tmp/3/000012.log", "/tmp/3/000012.y4m", "/tmp/3/000012.ivf")
    );
    let probe = paths.probe_options(40, 6, 2);
    assert_eq!((probe.cpu_used, probe.threads, probe.cq), (6, 2, 40));
    assert_eq!(
        (probe.log_file, probe.input, probe.output),
        ("/tmp/3/000012.log", "/tmp/3/000012.y4m", "-")
    );
}

#[test]
fn detector_line() {
    let line = detector_command("/tmp/5");
    assert_eq!(line.program, "nice");
    assert_eq!(
        words(&line),
        vec![
            "-20", "aomenc", "--passes=2", "--pass=1", "--bit-depth=10",
            "--fpf=/tmp/5/keyframe.log", "--end-usage=q", "--threads=4", "-o", "/dev/null", "-",
        ]
    );
}

#[test]
fn decoder_line() {
    let line = decoder_command("in put.mkv", "script.vpy", "/tmp/5");
    assert_eq!(line.program, "nice");
    assert_eq!(
        words(&line),
        vec![
            "-20", "vspipe", "-c", "y4m", "-t", "/tmp/5/timecodes.txt", "--arg",
            "file=in put.mkv", "--arg", "tmp_folder=/tmp/5", "script.vpy", "-",
        ]
    );
}

#[test]
fn scorer_line() {
    let line = scorer_command("/tmp/5/000001.y4m");
    assert_eq!(line.program, "ffmpeg");
    assert_eq!(
        words(&line),
        vec![
            "-y", "-i", "pipe:0", "-i", "/tmp/5/000001.y4m", "-threads", "1", "-lavfi",
            "libvmaf=model='path=/usr/local/share/model/vmaf_v0.6.1.json'", "-f", "null", "-",
        ]
    );
}

#[test]
fn muxer_line_and_options() {
    let line = muxer_command("/tmp/5");
    assert_eq!(line.program, "mkvmerge");
    assert_eq!(words(&line), vec!["@/tmp/5/options.json"]);
    assert_eq!(
        mux_options("film.new.mkv", "/tmp/5", 2, false),
        vec![
            "-o", "film.new.mkv", "/tmp/5/audio.mkv", "[", "/tmp/5/000000.ivf",
            "/tmp/5/000001.ivf", "/tmp/5/000002.ivf", "]",
        ]
    );
    assert_eq!(
        mux_options("film.new.mkv", "/tmp/5", 0, true),
        vec![
            "-o", "film.new.mkv", "/tmp/5/audio.mkv", "[", "/tmp/5/000000.ivf", "]",
            "--timestamps", "0:/tmp/5/timecodes.txt",
        ]
    );
}

#[test]
fn muxer_options_file_is_a_json_array() {
    let json = mux_options_file("a \"b\".new.mkv", "/tmp/5", 1, false).unwrap();
    assert_eq!(
        json,
        r#"["-o","a \"b\".new.mkv","/tmp/5/audio.mkv","[","/tmp/5/000000.ivf","/tmp/5/000001.ivf","]"]"#
    );
    let parsed: Vec<String> = serde_json::from_str(&json).unwrap();
    assert_eq!(parsed, mux_options("a \"b\".new.mkv", "/tmp/5", 1, false));
}
