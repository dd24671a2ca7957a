//! The VP9 encoder `vpxenc`.

use crate::decimal::decimal_chars;
use crate::encoder::{
    arg_views, push_joined, push_number, push_text, CommandLine, CommandLineView, Encoder,
    EncoderOptions,
};
use vstd::prelude::*;
use vstd::string::StringExecFns;

verus! {

/// The VP9 encoder `vpxenc`.
pub struct Vp9Encoder {}

/// The first pass: statistics only, no stream written.
pub open spec fn vp9_first_pass(options: EncoderOptions) -> CommandLineView {
    CommandLineView {
        program: "vpxenc"@,
        args: seq![
            "--quiet"@,
            "--passes=2"@,
            "--pass=1"@,
            "-b"@,
            "10"@,
            "--profile=2"@,
            "--threads="@ + decimal_chars(options.threads as nat),
            "--fpf="@ + options.log_file@,
            "--end-usage=q"@,
            "-o"@,
            "/dev/null"@,
            options.input@,
        ],
    }
}

/// The second pass, at the level, preset and thread count of `options`.
pub open spec fn vp9_second_pass(options: EncoderOptions) -> CommandLineView {
    CommandLineView {
        program: "vpxenc"@,
        args: seq![
            "--cq-level="@ + decimal_chars(options.cq as nat),
            "--cpu-used="@ + decimal_chars(options.cpu_used as nat),
            "--fpf="@ + options.log_file@,
            "--quiet"@,
            "--passes=2"@,
            "--pass=2"@,
            "--profile=2"@,
            "--good"@,
            "--lag-in-frames=25"@,
            "--kf-max-dist=250"@,
            "--auto-alt-ref=1"@,
            "--arnr-strength=1"@,
            "--arnr-maxframes=7"@,
            "--enable-tpl=1"@,
            "--threads="@ + decimal_chars(options.threads as nat),
            "-b"@,
            "10"@,
            "--end-usage=q"@,
            "--ivf"@,
            "-o"@,
            options.output@,
            options.input@,
        ],
    }
}

impl Encoder for Vp9Encoder {
    open spec fn first_pass_line(&self, options: EncoderOptions) -> CommandLineView {
        vp9_first_pass(options)
    }

    open spec fn second_pass_line(&self, options: EncoderOptions) -> CommandLineView {
        vp9_second_pass(options)
    }

    fn first_pass(&self, options: EncoderOptions) -> (line: CommandLine) {
        let mut args: Vec<String> = Vec::new();
        assert(arg_views(args@) =~= Seq::<Seq<char>>::empty());
        push_text(&mut args, "--quiet");
        push_text(&mut args, "--passes=2");
        push_text(&mut args, "--pass=1");
        push_text(&mut args, "-b");
        push_text(&mut args, "10");
        push_text(&mut args, "--profile=2");
        push_number(&mut args, "--threads=", options.threads as u64);
        push_joined(&mut args, "--fpf=", options.log_file);
        push_text(&mut args, "--end-usage=q");
        push_text(&mut args, "-o");
        push_text(&mut args, "/dev/null");
        push_text(&mut args, options.input);
        assert(arg_views(args@) =~= vp9_first_pass(options).args);
        CommandLine { program: String::from_str("vpxenc"), args }
    }

    fn second_pass(&self, options: EncoderOptions) -> (line: CommandLine) {
        let mut args: Vec<String> = Vec::new();
        assert(arg_views(args@) =~= Seq::<Seq<char>>::empty());
        push_number(&mut args, "--cq-level=", options.cq as u64);
        push_number(&mut args, "--cpu-used=", options.cpu_used as u64);
        push_joined(&mut args, "--fpf=", options.log_file);
        push_text(&mut args, "--quiet");
        push_text(&mut args, "--passes=2");
        push_text(&mut args, "--pass=2");
        push_text(&mut args, "--profile=2");
        push_text(&mut args, "--good");
        push_text(&mut args, "--lag-in-frames=25");
        push_text(&mut args, "--kf-max-dist=250");
        push_text(&mut args, "--auto-alt-ref=1");
        push_text(&mut args, "--arnr-strength=1");
        push_text(&mut args, "--arnr-maxframes=7");
        push_text(&mut args, "--enable-tpl=1");
        push_number(&mut args, "--threads=", options.threads as u64);
        push_text(&mut args, "-b");
        push_text(&mut args, "10");
        push_text(&mut args, "--end-usage=q");
        push_text(&mut args, "--ivf");
        push_text(&mut args, "-o");
        push_text(&mut args, options.output);
        push_text(&mut args, options.input);
        assert(arg_views(args@) =~= vp9_second_pass(options).args);
        CommandLine { program: String::from_str("vpxenc"), args }
    }
}

} // verus!
