//! The command lines of the programs around the pipeline, and the names
//! of the files that they share.

use crate::decimal::{padded_chars, zero_padded};
use crate::encoder::{
    arg_views, push_joined, push_text, push_wrapped, CommandLine, CommandLineView, EncoderOptions,
};
use crate::scan::text_view;
use vstd::prelude::*;
use vstd::string::StringExecFns;

verus! {

/// Digits in a scene's file name.
pub const SCENE_DIGITS: usize = 6;

/// The scene detector: a first pass of `aomenc` over its input.
pub open spec fn detector_command_line(tmp_folder: Seq<char>) -> CommandLineView {
    CommandLineView {
        program: "nice"@,
        args: seq![
            "-20"@,
            "aomenc"@,
            "--passes=2"@,
            "--pass=1"@,
            "--bit-depth=10"@,
            "--fpf="@ + tmp_folder + "/keyframe.log"@,
            "--end-usage=q"@,
            "--threads=4"@,
            "-o"@,
            "/dev/null"@,
            "-"@,
        ],
    }
}

/// The scene detector: a first pass of `aomenc` over its input.
pub fn detector_command(tmp_folder: &str) -> (line: CommandLine)
    ensures
        line@ == detector_command_line(tmp_folder@),
{
    let mut args: Vec<String> = Vec::new();
    assert(arg_views(args@) =~= Seq::<Seq<char>>::empty());
    push_text(&mut args, "-20");
    push_text(&mut args, "aomenc");
    push_text(&mut args, "--passes=2");
    push_text(&mut args, "--pass=1");
    push_text(&mut args, "--bit-depth=10");
    push_wrapped(&mut args, "--fpf=", tmp_folder, "/keyframe.log");
    push_text(&mut args, "--end-usage=q");
    push_text(&mut args, "--threads=4");
    push_text(&mut args, "-o");
    push_text(&mut args, "/dev/null");
    push_text(&mut args, "-");
    assert(arg_views(args@) =~= detector_command_line(tmp_folder@).args);
    CommandLine { program: String::from_str("nice"), args }
}

/// The decoder: `vspipe` running the script `vpy` on `input`.
pub open spec fn decoder_command_line(
    input: Seq<char>,
    vpy: Seq<char>,
    tmp_folder: Seq<char>,
) -> CommandLineView {
    CommandLineView {
        program: "nice"@,
        args: seq![
            "-20"@,
            "vspipe"@,
            "-c"@,
            "y4m"@,
            "-t"@,
            tmp_folder + "/timecodes.txt"@,
            "--arg"@,
            "file="@ + input,
            "--arg"@,
            "tmp_folder="@ + tmp_folder,
            vpy,
            "-"@,
        ],
    }
}

/// The decoder: `vspipe` running the script `vpy` on `input`.
pub fn decoder_command(input: &str, vpy: &str, tmp_folder: &str) -> (line: CommandLine)
    ensures
        line@ == decoder_command_line(input@, vpy@, tmp_folder@),
{
    let mut args: Vec<String> = Vec::new();
    assert(arg_views(args@) =~= Seq::<Seq<char>>::empty());
    push_text(&mut args, "-20");
    push_text(&mut args, "vspipe");
    push_text(&mut args, "-c");
    push_text(&mut args, "y4m");
    push_text(&mut args, "-t");
    push_joined(&mut args, tmp_folder, "/timecodes.txt");
    push_text(&mut args, "--arg");
    push_joined(&mut args, "file=", input);
    push_text(&mut args, "--arg");
    push_joined(&mut args, "tmp_folder=", tmp_folder);
    push_text(&mut args, vpy);
    push_text(&mut args, "-");
    assert(arg_views(args@) =~= decoder_command_line(input@, vpy@, tmp_folder@).args);
    CommandLine { program: String::from_str("nice"), args }
}

/// The scorer: `ffmpeg` scoring its input against `source`.
pub open spec fn scorer_command_line(source: Seq<char>) -> CommandLineView {
    CommandLineView {
        program: "ffmpeg"@,
        args: seq![
            "-y"@,
            "-i"@,
            "pipe:0"@,
            "-i"@,
            source,
            "-threads"@,
            "1"@,
            "-lavfi"@,
            "libvmaf=model='path=/usr/local/share/model/vmaf_v0.6.1.json'"@,
            "-f"@,
            "null"@,
            "-"@,
        ],
    }
}

/// The scorer: `ffmpeg` scoring its input against `source`.
pub fn scorer_command(source: &str) -> (line: CommandLine)
    ensures
        line@ == scorer_command_line(source@),
{
    let mut args: Vec<String> = Vec::new();
    assert(arg_views(args@) =~= Seq::<Seq<char>>::empty());
    push_text(&mut args, "-y");
    push_text(&mut args, "-i");
    push_text(&mut args, "pipe:0");
    push_text(&mut args, "-i");
    push_text(&mut args, source);
    push_text(&mut args, "-threads");
    push_text(&mut args, "1");
    push_text(&mut args, "-lavfi");
    push_text(&mut args, "libvmaf=model='path=/usr/local/share/model/vmaf_v0.6.1.json'");
    push_text(&mut args, "-f");
    push_text(&mut args, "null");
    push_text(&mut args, "-");
    assert(arg_views(args@) =~= scorer_command_line(source@).args);
    CommandLine { program: String::from_str("ffmpeg"), args }
}

/// The muxer: `mkvmerge` with its options file.
pub open spec fn muxer_command_line(tmp_folder: Seq<char>) -> CommandLineView {
    CommandLineView {
        program: "mkvmerge"@,
        args: seq![
            "@"@ + tmp_folder + "/options.json"@,
        ],
    }
}

/// The muxer: `mkvmerge` with its options file.
pub fn muxer_command(tmp_folder: &str) -> (line: CommandLine)
    ensures
        line@ == muxer_command_line(tmp_folder@),
{
    let mut args: Vec<String> = Vec::new();
    assert(arg_views(args@) =~= Seq::<Seq<char>>::empty());
    push_wrapped(&mut args, "@", tmp_folder, "/options.json");
    assert(arg_views(args@) =~= muxer_command_line(tmp_folder@).args);
    CommandLine { program: String::from_str("mkvmerge"), args }
}

/// The name that the files of scene `scene` share: the folder, a slash and
/// the scene's index in six digits.
pub open spec fn scene_name_chars(tmp_folder: Seq<char>, scene: nat) -> Seq<char> {
    tmp_folder + "/"@ + padded_chars(scene, SCENE_DIGITS as nat)
}

/// The name that the files of a scene share.
pub fn scene_name(tmp_folder: &str, scene: u32) -> (name: String)
    ensures
        name@ == scene_name_chars(tmp_folder@, scene as nat),
{
    let mut name = String::from_str(tmp_folder);
    name.append("/");
    let index = zero_padded(scene as u64, SCENE_DIGITS);
    name.append(index.as_str());
    name
}

/// The files of one scene.
pub struct ScenePaths {
    /// The first pass's statistics.
    pub log_file: String,
    /// The scene's frames.
    pub source: String,
    /// The encoded scene.
    pub stream: String,
}

impl ScenePaths {
    /// The files of scene `scene` in `tmp_folder`: the scene's name with
    /// `.log`, `.y4m` and `.ivf`.
    pub fn new(tmp_folder: &str, scene: u32) -> (paths: ScenePaths)
        ensures
            paths.log_file@ == scene_name_chars(tmp_folder@, scene as nat) + ".log"@,
            paths.source@ == scene_name_chars(tmp_folder@, scene as nat) + ".y4m"@,
            paths.stream@ == scene_name_chars(tmp_folder@, scene as nat) + ".ivf"@,
    {
        let name = scene_name(tmp_folder, scene);
        let mut log_file = name.clone();
        log_file.append(".log");
        let mut source = name.clone();
        source.append(".y4m");
        let mut stream = name;
        stream.append(".ivf");
        ScenePaths { log_file, source, stream }
    }

    /// The settings of the scene's first pass: default preset, threads and
    /// level, and no stream written.
    pub fn first_pass_options(&self) -> (options: EncoderOptions<'_>)
        ensures
            options.cpu_used == 0,
            options.threads == 1,
            options.cq == 20,
            options.log_file@ == self.log_file@,
            options.input@ == self.source@,
            options.output@ == "/dev/null"@,
    {
        EncoderOptions {
            cpu_used: 0,
            threads: 1,
            cq: 20,
            log_file: self.log_file.as_str(),
            input: self.source.as_str(),
            output: "/dev/null",
        }
    }

    /// The settings of the scene's final second pass at the level `cq`.
    pub fn second_pass_options(&self, cq: u32, cpu_used: u32) -> (options: EncoderOptions<'_>)
        ensures
            options.cpu_used == cpu_used,
            options.threads == 1,
            options.cq == cq,
            options.log_file@ == self.log_file@,
            options.input@ == self.source@,
            options.output@ == self.stream@,
    {
        EncoderOptions {
            cpu_used,
            threads: 1,
            cq,
            log_file: self.log_file.as_str(),
            input: self.source.as_str(),
            output: self.stream.as_str(),
        }
    }

    /// The settings of a second pass that is only scored: the stream goes
    /// to the encoder's output.
    pub fn probe_options(&self, cq: u32, cpu_used: u32, threads: u32) -> (options: EncoderOptions<
        '_,
    >)
        ensures
            options.cpu_used == cpu_used,
            options.threads == threads,
            options.cq == cq,
            options.log_file@ == self.log_file@,
            options.input@ == self.source@,
            options.output@ == "-"@,
    {
        EncoderOptions {
            cpu_used,
            threads,
            cq,
            log_file: self.log_file.as_str(),
            input: self.source.as_str(),
            output: "-",
        }
    }
}

/// The muxer's options: the output's name, the audio, the encoded scenes
/// 0 to `scenes` between brackets, and the time codes where there are any.
pub open spec fn mux_option_texts(
    output_name: Seq<char>,
    tmp_folder: Seq<char>,
    scenes: nat,
    timecodes: bool,
) -> Seq<Seq<char>> {
    let head = seq!["-o"@, output_name, tmp_folder + "/audio.mkv"@, "["@];
    let streams = Seq::new(
        scenes + 1,
        |i: int| scene_name_chars(tmp_folder, i as nat) + ".ivf"@,
    );
    let tail = if timecodes {
        seq!["]"@, "--timestamps"@, "0:"@ + tmp_folder + "/timecodes.txt"@]
    } else {
        seq!["]"@]
    };
    head + streams + tail
}

/// Builds the muxer's options.
pub fn mux_options(output_name: &str, tmp_folder: &str, scenes: u32, timecodes: bool) -> (options:
    Vec<String>)
    ensures
        arg_views(options@) == mux_option_texts(
            output_name@,
            tmp_folder@,
            scenes as nat,
            timecodes,
        ),
{
    let mut args: Vec<String> = Vec::new();
    assert(arg_views(args@) =~= Seq::<Seq<char>>::empty());
    push_text(&mut args, "-o");
    push_text(&mut args, output_name);
    push_joined(&mut args, tmp_folder, "/audio.mkv");
    push_text(&mut args, "[");
    let ghost head = seq!["-o"@, output_name@, tmp_folder@ + "/audio.mkv"@, "["@];
    assert(arg_views(args@) =~= head);
    let mut scene: u64 = 0;
    while scene <= scenes as u64
        invariant
            scene <= scenes + 1,
            arg_views(args@) == head + Seq::new(
                scene as nat,
                |i: int| scene_name_chars(tmp_folder@, i as nat) + ".ivf"@,
            ),
        decreases scenes + 1 - scene,
    {
        let name = scene_name(tmp_folder, scene as u32);
        push_joined(&mut args, name.as_str(), ".ivf");
        scene += 1;
        assert(arg_views(args@) =~= head + Seq::new(
            scene as nat,
            |i: int| scene_name_chars(tmp_folder@, i as nat) + ".ivf"@,
        ));
    }
    push_text(&mut args, "]");
    if timecodes {
        push_text(&mut args, "--timestamps");
        push_wrapped(&mut args, "0:", tmp_folder, "/timecodes.txt");
    }
    assert(arg_views(args@) =~= mux_option_texts(
        output_name@,
        tmp_folder@,
        scenes as nat,
        timecodes,
    ));
    args
}

/// The JSON array of strings that holds `texts`, as `serde_json` writes
/// it; `None` where it writes none.
pub uninterp spec fn json_array(texts: Seq<Seq<char>>) -> Option<Seq<char>>;

/// Writes `texts` as a JSON array with `serde_json::to_string`. The result
/// is what that function gives for these texts, which is all that is
/// claimed of it.
#[verifier::external_body]
fn to_json(texts: &Vec<String>) -> (json: Option<String>)
    ensures
        text_view(json) == json_array(arg_views(texts@)),
{
    match serde_json::to_string(texts) {
        Ok(json) => Some(json),
        Err(_) => None,
    }
}

/// The content of the muxer's options file.
pub fn mux_options_file(output_name: &str, tmp_folder: &str, scenes: u32, timecodes: bool) -> (json:
    Option<String>)
    ensures
        text_view(json) == json_array(
            mux_option_texts(output_name@, tmp_folder@, scenes as nat, timecodes),
        ),
{
    let options = mux_options(output_name, tmp_folder, scenes, timecodes);
    to_json(&options)
}

} // verus!
