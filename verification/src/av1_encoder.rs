//! The AV1 encoder `aomenc`.

use crate::decimal::decimal_chars;
use crate::encoder::{
    arg_views, push_joined, push_number, push_text, CommandLine, CommandLineView, Encoder,
    EncoderOptions,
};
use vstd::prelude::*;
use vstd::string::StringExecFns;

verus! {

/// The AV1 encoder `aomenc`.
pub struct Av1Encoder {}

/// The first pass: statistics only, no stream written.
pub open spec fn av1_first_pass(options: EncoderOptions) -> CommandLineView {
    CommandLineView {
        program: "aomenc"@,
        args: seq![
            "--quiet"@,
            "--good"@,
            "--passes=2"@,
            "--pass=1"@,
            "-b"@,
            "10"@,
            "--kf-max-dist=250"@,
            "--lag-in-frames=48"@,
            "--enable-fwd-kf=1"@,
            "--aq-mode=1"@,
            "--enable-qm=1"@,
            "--enable-keyframe-filtering=2"@,
            "--deltaq-mode=0"@,
            "--threads="@ + decimal_chars(options.threads as nat),
            "--fpf="@ + options.log_file@,
            "--end-usage=q"@,
            "-o"@,
            "/dev/null"@,
            options.input@,
        ],
    }
}

/// The second pass, at the level, preset and thread count of `options`.
pub open spec fn av1_second_pass(options: EncoderOptions) -> CommandLineView {
    CommandLineView {
        program: "aomenc"@,
        args: seq![
            "--cq-level="@ + decimal_chars(options.cq as nat),
            "--cpu-used="@ + decimal_chars(options.cpu_used as nat),
            "--fpf="@ + options.log_file@,
            "--quiet"@,
            "--good"@,
            "--passes=2"@,
            "--pass=2"@,
            "--lag-in-frames=48"@,
            "--enable-fwd-kf=1"@,
            "--aq-mode=1"@,
            "--enable-qm=1"@,
            "--enable-keyframe-filtering=2"@,
            "--deltaq-mode=0"@,
            "--kf-max-dist=250"@,
            "--arnr-strength=0"@,
            "--threads="@ + decimal_chars(options.threads as nat),
            "-b"@,
            "10"@,
            "--end-usage=q"@,
            "--ivf"@,
            "-o"@,
            options.output@,
            options.input@,
        ],
    }
}

impl Encoder for Av1Encoder {
    open spec fn first_pass_line(&self, options: EncoderOptions) -> CommandLineView {
        av1_first_pass(options)
    }

    open spec fn second_pass_line(&self, options: EncoderOptions) -> CommandLineView {
        av1_second_pass(options)
    }

    fn first_pass(&self, options: EncoderOptions) -> (line: CommandLine) {
        let mut args: Vec<String> = Vec::new();
        assert(arg_views(args@) =~= Seq::<Seq<char>>::empty());
        push_text(&mut args, "--quiet");
        push_text(&mut args, "--good");
        push_text(&mut args, "--passes=2");
        push_text(&mut args, "--pass=1");
        push_text(&mut args, "-b");
        push_text(&mut args, "10");
        push_text(&mut args, "--kf-max-dist=250");
        push_text(&mut args, "--lag-in-frames=48");
        push_text(&mut args, "--enable-fwd-kf=1");
        push_text(&mut args, "--aq-mode=1");
        push_text(&mut args, "--enable-qm=1");
        push_text(&mut args, "--enable-keyframe-filtering=2");
        push_text(&mut args, "--deltaq-mode=0");
        push_number(&mut args, "--threads=", options.threads as u64);
        push_joined(&mut args, "--fpf=", options.log_file);
        push_text(&mut args, "--end-usage=q");
        push_text(&mut args, "-o");
        push_text(&mut args, "/dev/null");
        push_text(&mut args, options.input);
        assert(arg_views(args@) =~= av1_first_pass(options).args);
        CommandLine { program: String::from_str("aomenc"), args }
    }

    fn second_pass(&self, options: EncoderOptions) -> (line: CommandLine) {
        let mut args: Vec<String> = Vec::new();
        assert(arg_views(args@) =~= Seq::<Seq<char>>::empty());
        push_number(&mut args, "--cq-level=", options.cq as u64);
        push_number(&mut args, "--cpu-used=", options.cpu_used as u64);
        push_joined(&mut args, "--fpf=", options.log_file);
        push_text(&mut args, "--quiet");
        push_text(&mut args, "--good");
        push_text(&mut args, "--passes=2");
        push_text(&mut args, "--pass=2");
        push_text(&mut args, "--lag-in-frames=48");
        push_text(&mut args, "--enable-fwd-kf=1");
        push_text(&mut args, "--aq-mode=1");
        push_text(&mut args, "--enable-qm=1");
        push_text(&mut args, "--enable-keyframe-filtering=2");
        push_text(&mut args, "--deltaq-mode=0");
        push_text(&mut args, "--kf-max-dist=250");
        push_text(&mut args, "--arnr-strength=0");
        push_number(&mut args, "--threads=", options.threads as u64);
        push_text(&mut args, "-b");
        push_text(&mut args, "10");
        push_text(&mut args, "--end-usage=q");
        push_text(&mut args, "--ivf");
        push_text(&mut args, "-o");
        push_text(&mut args, options.output);
        push_text(&mut args, options.input);
        assert(arg_views(args@) =~= av1_second_pass(options).args);
        CommandLine { program: String::from_str("aomenc"), args }
    }
}

} // verus!
