use sav1n::av1_encoder::Av1Encoder;
use sav1n::encoder::{CommandLine, Encoder, EncoderOptions};
use sav1n::vp9_encoder::Vp9Encoder;

fn options() -> EncoderOptions<'static> {
    EncoderOptions {
        cpu_used: 3,
        threads: 2,
        cq: 31,
        log_file: "/tmp/0/000004.log",
        input: "/tmp/0/000004.y4m",
        output: "/tmp/0/000004.ivf",
    }
}

fn words(line: &CommandLine) -> Vec<&str> {
    line.args.iter().map(|a| a.as_str()).collect()
}

#[test]
fn default_options() {
    let options = EncoderOptions::default();
    assert_eq!(options.cpu_used, 0);
    assert_eq!(options.threads, 1);
    assert_eq!(options.cq, 20);
    assert_eq!(options.log_file, "");
    assert_eq!(options.input, "");
    assert_eq!(options.output, "");
}

#[test]
fn av1_first_pass() {
    let line = Av1Encoder {}.first_pass(options());
    assert_eq!(line.program, "aomenc");
    assert_eq!(
        words(&line),
        vec![
            "--quiet", "--good", "--passes=2", "--pass=1", "-b", "10", "--kf-max-dist=250",
            "--lag-in-frames=48", "--enable-fwd-kf=1", "--aq-mode=1", "--enable-qm=1",
            "--enable-keyframe-filtering=2", "--deltaq-mode=0", "--threads=2",
            "--fpf=/tmp/0/000004.log", "--end-usage=q", "-o", "/dev/null", "/tmp/0/000004.y4m",
        ]
    );
}

#[test]
fn av1_second_pass() {
    let line = Av1Encoder {}.second_pass(options());
    assert_eq!(line.program, "aomenc");
    assert_eq!(
        words(&line),
        vec![
            "--cq-level=31", "--cpu-used=3", "--fpf=/tmp/0/000004.log", "--quiet", "--good",
            "--passes=2", "--pass=2", "--lag-in-frames=48", "--enable-fwd-kf=1", "--aq-mode=1",
            "--enable-qm=1", "--enable-keyframe-filtering=2", "--deltaq-mode=0",
            "--kf-max-dist=250", "--arnr-strength=0", "--threads=2", "-b", "10",
            "--end-usage=q", "--ivf", "-o", "/tmp/0/000004.ivf", "/tmp/0/000004.y4m",
        ]
    );
}

#[test]
fn vp9_first_pass() {
    let line = Vp9Encoder {}.first_pass(options());
    assert_eq!(line.program, "vpxenc");
    assert_eq!(
        words(&line),
        vec![
            "--quiet", "--passes=2", "--pass=1", "-b", "10", "--profile=2", "--threads=2",
            "--fpf=/tmp/0/000004.log", "--end-usage=q", "-o", "/dev/null", "/tmp/0/000004.y4m",
        ]
    );
}

#[test]
fn vp9_second_pass() {
    let line = Vp9Encoder {}.second_pass(options());
    assert_eq!(line.program, "vpxenc");
    assert_eq!(
        words(&line),
        vec![
            "--cq-level=31", "--cpu-used=3", "--fpf=/tmp/0/000004.log", "--quiet", "--passes=2",
            "--pass=2", "--profile=2", "--good", "--lag-in-frames=25", "--kf-max-dist=250",
            "--auto-alt-ref=1", "--arnr-strength=1", "--arnr-maxframes=7", "--enable-tpl=1",
            "--threads=2", "-b", "10", "--end-usage=q", "--ivf", "-o", "/tmp/0/000004.ivf",
            "/tmp/0/000004.y4m",
        ]
    );
}
