//! The audio encoder's command line, from what a probe of the input says
//! of its streams.

use crate::decimal::{decimal, decimal_chars};
use crate::encoder::{arg_views, push_joined, push_text, CommandLine, CommandLineView};
use crate::scan::text_view;
use vstd::prelude::*;
use vstd::string::{StrSliceExecFns, StringExecFns};

verus! {

/// Kilobits per second that each audio channel gets.
pub const KBITS_PER_CHANNEL: u64 = 42;

/// What a probe says of one stream of the input.
pub struct ProbedStream {
    /// The kind of the stream, where the probe names one.
    pub codec_type: Option<String>,
    /// The layout of the stream's channels, where the probe names one.
    pub channel_layout: Option<String>,
    /// The number of the stream's channels, where the probe gives one.
    pub channels: Option<u64>,
}

/// The mathematical content of a `ProbedStream`.
pub struct StreamView {
    pub codec_type: Option<Seq<char>>,
    pub channel_layout: Option<Seq<char>>,
    pub channels: Option<u64>,
}

/// Why no command line comes of a probe.
#[derive(PartialEq, Eq, Debug, Copy, Clone, Structural)]
pub enum AudioError {
    /// An audio stream has no channel layout.
    MissingLayout,
    /// An audio stream has no channel count.
    MissingChannels,
    /// An audio stream's bit rate does not fit 64 bits.
    BitrateTooLarge,
}

impl View for ProbedStream {
    type V = StreamView;

    open spec fn view(&self) -> StreamView {
        StreamView {
            codec_type: text_view(self.codec_type),
            channel_layout: text_view(self.channel_layout),
            channels: self.channels,
        }
    }
}

/// The views of a list of streams.
pub open spec fn stream_views(streams: Seq<ProbedStream>) -> Seq<StreamView> {
    streams.map_values(|s: ProbedStream| s@)
}

/// Whether `text` ends with `suffix`.
pub open spec fn has_suffix(text: Seq<char>, suffix: Seq<char>) -> bool {
    suffix.len() <= text.len() && text.subrange(text.len() - suffix.len(), text.len() as int)
        == suffix
}

/// The layout's name for the channel map: the layout without a trailing
/// `(side)`.
pub open spec fn layout_name(layout: Seq<char>) -> Seq<char> {
    if has_suffix(layout, "(side)"@) {
        layout.take(layout.len() - "(side)"@.len())
    } else {
        layout
    }
}

/// The channel map of the stream at `index` of the input.
pub open spec fn channel_map(index: nat, layout: Seq<char>) -> Seq<char> {
    "[:"@ + decimal_chars(index) + "]channelmap=channel_layout='"@ + layout_name(layout) + "'"@
}

/// `parts` with `separator` between them.
pub open spec fn joined(parts: Seq<Seq<char>>, separator: Seq<char>) -> Seq<char>
    decreases parts.len(),
{
    if parts.len() == 0 {
        Seq::<char>::empty()
    } else if parts.len() == 1 {
        parts[0]
    } else {
        joined(parts.drop_last(), separator) + separator + parts.last()
    }
}

/// What the audio streams seen so far ask of the encoder: two arguments
/// with the bit rate of each, and a channel map for each.
pub struct AudioPlan {
    pub bitrates: Seq<Seq<char>>,
    pub maps: Seq<Seq<char>>,
    pub count: nat,
}

/// The plan after the stream at `index` of the input. A stream that is no
/// audio changes nothing; an audio stream gets 42 kilobits per channel.
pub open spec fn with_stream(plan: AudioPlan, index: nat, stream: StreamView) -> Result<
    AudioPlan,
    AudioError,
> {
    if stream.codec_type != Some("audio"@) {
        Ok(plan)
    } else {
        match stream.channel_layout {
            None => Err(AudioError::MissingLayout),
            Some(layout) => match stream.channels {
                None => Err(AudioError::MissingChannels),
                Some(channels) => if channels * KBITS_PER_CHANNEL > u64::MAX {
                    Err(AudioError::BitrateTooLarge)
                } else {
                    Ok(
                        AudioPlan {
                            bitrates: plan.bitrates.push("-b:a:"@ + decimal_chars(plan.count)).push(
                                decimal_chars((channels * KBITS_PER_CHANNEL) as nat) + "K"@,
                            ),
                            maps: plan.maps.push(channel_map(index, layout)),
                            count: plan.count + 1,
                        },
                    )
                },
            },
        }
    }
}

/// The plan for all `streams`, in their order; the first audio stream
/// that lacks something ends the planning.
pub open spec fn audio_plan(streams: Seq<StreamView>) -> Result<AudioPlan, AudioError>
    decreases streams.len(),
{
    if streams.len() == 0 {
        Ok(
            AudioPlan {
                bitrates: Seq::<Seq<char>>::empty(),
                maps: Seq::<Seq<char>>::empty(),
                count: 0,
            },
        )
    } else {
        match audio_plan(streams.drop_last()) {
            Err(e) => Err(e),
            Ok(plan) => with_stream(plan, (streams.len() - 1) as nat, streams.last()),
        }
    }
}

/// How subtitles are carried over: converted for an input whose name ends
/// in `mp4`, copied otherwise.
pub open spec fn subtitle_codec(input: Seq<char>) -> Seq<char> {
    if has_suffix(input, "mp4"@) {
        "srt"@
    } else {
        "copy"@
    }
}

/// The audio encoder's command line for a plan: all streams but video,
/// audio as Opus at the planned bit rates and channel maps, into
/// `audio.mkv`.
pub open spec fn audio_line(
    input: Seq<char>,
    tmp_folder: Seq<char>,
    plan: AudioPlan,
) -> CommandLineView {
    CommandLineView {
        program: "ffmpeg"@,
        args: seq![
            "-y"@,
            "-i"@,
            input,
            "-map"@,
            "0"@,
            "-vn"@,
            "-c:a"@,
            "libopus"@,
            "-vbr"@,
            "on"@,
        ] + plan.bitrates + seq![
            "-filter_complex"@,
            joined(plan.maps, ";"@),
            "-c:s"@,
            subtitle_codec(input),
            tmp_folder + "/audio.mkv"@,
        ],
    }
}

/// The audio encoder's command line for the streams of an input.
pub open spec fn audio_command_line(
    input: Seq<char>,
    tmp_folder: Seq<char>,
    streams: Seq<StreamView>,
) -> Result<CommandLineView, AudioError> {
    match audio_plan(streams) {
        Err(e) => Err(e),
        Ok(plan) => Ok(audio_line(input, tmp_folder, plan)),
    }
}

/// Whether `text` ends with `suffix`.
pub fn ends_with(text: &str, suffix: &str) -> (yes: bool)
    ensures
        yes == has_suffix(text@, suffix@),
{
    let n = text.unicode_len();
    let k = suffix.unicode_len();
    if k > n {
        return false;
    }
    let mut i: usize = 0;
    while i < k
        invariant
            i <= k <= n,
            n == text@.len(),
            k == suffix@.len(),
            forall|j: int| 0 <= j < i ==> text@[n - k + j] == suffix@[j],
        decreases k - i,
    {
        if text.get_char(n - k + i) != suffix.get_char(i) {
            assert(text@.subrange(n - k, n as int)[i as int] != suffix@[i as int]);
            return false;
        }
        i += 1;
    }
    assert(text@.subrange(n - k, n as int) =~= suffix@);
    true
}

/// Whether two texts hold the same characters.
pub fn same_text(a: &str, b: &str) -> (same: bool)
    ensures
        same == (a@ == b@),
{
    let same = a.unicode_len() == b.unicode_len() && ends_with(a, b);
    proof {
        if a@.len() == b@.len() {
            assert(a@.subrange(0, a@.len() as int) =~= a@);
        }
    }
    same
}

fn layout_text(layout: &str) -> (name: &str)
    ensures
        name@ == layout_name(layout@),
{
    proof {
        reveal_strlit("(side)");
    }
    if ends_with(layout, "(side)") {
        let n = layout.unicode_len();
        layout.substring_char(0, n - 6)
    } else {
        layout
    }
}

fn join_maps(maps: &Vec<String>) -> (text: String)
    ensures
        text@ == joined(arg_views(maps@), ";"@),
{
    let mut text = String::new();
    let mut i: usize = 0;
    while i < maps.len()
        invariant
            i <= maps@.len(),
            text@ == joined(arg_views(maps@).take(i as int), ";"@),
        decreases maps@.len() - i,
    {
        let ghost before = arg_views(maps@).take(i as int);
        if i > 0 {
            text.append(";");
        }
        text.append(maps[i].as_str());
        i += 1;
        proof {
            let now = arg_views(maps@).take(i as int);
            assert(now.drop_last() =~= before);
            assert(now.last() == maps@[i - 1]@);
            if i == 1 {
                assert(text@ =~= now[0]);
            }
        }
    }
    assert(arg_views(maps@).take(i as int) =~= arg_views(maps@));
    text
}

/// Builds the audio encoder's command line for the streams that a probe
/// found in `input`.
pub fn audio_command(input: &str, tmp_folder: &str, streams: &Vec<ProbedStream>) -> (line: Result<
    CommandLine,
    AudioError,
>)
    ensures
        match line {
            Ok(l) => audio_command_line(input@, tmp_folder@, stream_views(streams@)) == Ok::<
                CommandLineView,
                AudioError,
            >(l@),
            Err(e) => audio_command_line(input@, tmp_folder@, stream_views(streams@)) == Err::<
                CommandLineView,
                AudioError,
            >(e),
        },
{
    let mut args: Vec<String> = Vec::new();
    assert(arg_views(args@) =~= Seq::<Seq<char>>::empty());
    push_text(&mut args, "-y");
    push_text(&mut args, "-i");
    push_text(&mut args, input);
    push_text(&mut args, "-map");
    push_text(&mut args, "0");
    push_text(&mut args, "-vn");
    push_text(&mut args, "-c:a");
    push_text(&mut args, "libopus");
    push_text(&mut args, "-vbr");
    push_text(&mut args, "on");
    let ghost head = arg_views(args@);
    let ghost all = stream_views(streams@);
    let mut maps: Vec<String> = Vec::new();
    let mut count: u64 = 0;
    let mut i: usize = 0;
    let ghost mut plan = AudioPlan {
        bitrates: Seq::<Seq<char>>::empty(),
        maps: Seq::<Seq<char>>::empty(),
        count: 0,
    };
    assert(all.take(0) =~= Seq::<StreamView>::empty());
    assert(arg_views(maps@) =~= Seq::<Seq<char>>::empty());
    assert(head + plan.bitrates =~= head);
    while i < streams.len()
        invariant
            i <= streams@.len(),
            all == stream_views(streams@),
            audio_plan(all.take(i as int)) == Ok::<AudioPlan, AudioError>(plan),
            plan.count == count,
            count <= i,
            plan.maps == arg_views(maps@),
            arg_views(args@) == head + plan.bitrates,
        decreases streams@.len() - i,
    {
        let stream = &streams[i];
        proof {
            assert(all.take(i + 1).drop_last() =~= all.take(i as int));
            assert(all.take(i + 1).last() == stream@);
        }
        let is_audio = match &stream.codec_type {
            Some(kind) => same_text(kind.as_str(), "audio"),
            None => false,
        };
        if is_audio {
            let layout = match &stream.channel_layout {
                Some(l) => l,
                None => {
                    proof {
                        lemma_plan_error(all, i + 1);
                    }
                    return Err(AudioError::MissingLayout);
                },
            };
            let channels = match stream.channels {
                Some(c) => c,
                None => {
                    proof {
                        lemma_plan_error(all, i + 1);
                    }
                    return Err(AudioError::MissingChannels);
                },
            };
            if channels > u64::MAX / KBITS_PER_CHANNEL {
                proof {
                    lemma_plan_error(all, i + 1);
                }
                return Err(AudioError::BitrateTooLarge);
            }
            let bitrate = channels * KBITS_PER_CHANNEL;
            let mut map = String::from_str("[:");
            map.append(decimal(i as u64).as_str());
            map.append("]channelmap=channel_layout='");
            map.append(layout_text(layout.as_str()));
            map.append("'");
            let ghost old_maps = arg_views(maps@);
            maps.push(map);
            assert(arg_views(maps@) =~= old_maps.push(channel_map(i as nat, layout@)));
            let index = decimal(count);
            push_joined(&mut args, "-b:a:", index.as_str());
            let rate = decimal(bitrate);
            push_joined(&mut args, rate.as_str(), "K");
            proof {
                let next = with_stream(plan, i as nat, stream@)->Ok_0;
                assert(head + plan.bitrates.push("-b:a:"@ + decimal_chars(plan.count)).push(
                    decimal_chars(bitrate as nat) + "K"@,
                ) =~= (head + plan.bitrates).push("-b:a:"@ + decimal_chars(plan.count)).push(
                    decimal_chars(bitrate as nat) + "K"@,
                ));
                plan = next;
            }
            count = count + 1;
        }
        i += 1;
    }
    assert(all.take(i as int) =~= all);
    push_text(&mut args, "-filter_complex");
    let filter = join_maps(&maps);
    push_text(&mut args, filter.as_str());
    push_text(&mut args, "-c:s");
    let subtitles = if ends_with(input, "mp4") {
        "srt"
    } else {
        "copy"
    };
    push_text(&mut args, subtitles);
    push_joined(&mut args, tmp_folder, "/audio.mkv");
    assert(arg_views(args@) =~= audio_line(input@, tmp_folder@, plan).args);
    Ok(CommandLine { program: String::from_str("ffmpeg"), args })
}

/// An error among the first `n` streams is the error of the whole plan.
proof fn lemma_plan_error(streams: Seq<StreamView>, n: int)
    requires
        0 <= n <= streams.len(),
        audio_plan(streams.take(n)) is Err,
    ensures
        audio_plan(streams) == audio_plan(streams.take(n)),
    decreases streams.len() - n,
{
    if n < streams.len() {
        assert(streams.take(n + 1).drop_last() =~= streams.take(n));
        lemma_plan_error(streams, n + 1);
    } else {
        assert(streams.take(n) =~= streams);
    }
}

} // verus!
