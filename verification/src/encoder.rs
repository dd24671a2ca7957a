//! What the pipeline tells an encoder, and the command lines that come of
//! it.

use crate::decimal::{decimal, decimal_chars};
use vstd::prelude::*;
use vstd::string::StringExecFns;

verus! {

/// The settings of one encoder run.
pub struct EncoderOptions<'t> {
    pub cpu_used: u32,
    pub threads: u32,
    pub cq: u32,
    pub log_file: &'t str,
    pub input: &'t str,
    pub output: &'t str,
}

impl<'t> Default for EncoderOptions<'t> {
    /// The slowest preset, one thread, level 20 and no files.
    fn default() -> (options: EncoderOptions<'t>)
        ensures
            options.cpu_used == 0,
            options.threads == 1,
            options.cq == 20,
            options.log_file@ == Seq::<char>::empty(),
            options.input@ == Seq::<char>::empty(),
            options.output@ == Seq::<char>::empty(),
    {
        proof {
            reveal_strlit("");
        }
        let options = EncoderOptions {
            cpu_used: 0,
            threads: 1,
            cq: 20,
            log_file: "",
            input: "",
            output: "",
        };
        assert(options.log_file@ =~= Seq::<char>::empty());
        options
    }
}

/// A program and its arguments.
pub struct CommandLine {
    pub program: String,
    pub args: Vec<String>,
}

/// The mathematical content of a `CommandLine`.
pub struct CommandLineView {
    pub program: Seq<char>,
    pub args: Seq<Seq<char>>,
}

/// The texts of a list of arguments.
pub open spec fn arg_views(args: Seq<String>) -> Seq<Seq<char>> {
    args.map_values(|a: String| a@)
}

impl View for CommandLine {
    type V = CommandLineView;

    open spec fn view(&self) -> CommandLineView {
        CommandLineView { program: self.program@, args: arg_views(self.args@) }
    }
}

/// Appends the argument `text`.
pub fn push_text(args: &mut Vec<String>, text: &str)
    ensures
        arg_views(final(args)@) == arg_views(old(args)@).push(text@),
{
    args.push(String::from_str(text));
    assert(arg_views(args@) =~= arg_views(old(args)@).push(text@));
}

/// Appends the argument made of `prefix` and `value`.
pub fn push_joined(args: &mut Vec<String>, prefix: &str, value: &str)
    ensures
        arg_views(final(args)@) == arg_views(old(args)@).push(prefix@ + value@),
{
    let mut arg = String::from_str(prefix);
    arg.append(value);
    args.push(arg);
    assert(arg_views(args@) =~= arg_views(old(args)@).push(prefix@ + value@));
}

/// Appends the argument made of `prefix`, `value` and `suffix`.
pub fn push_wrapped(args: &mut Vec<String>, prefix: &str, value: &str, suffix: &str)
    ensures
        arg_views(final(args)@) == arg_views(old(args)@).push(prefix@ + value@ + suffix@),
{
    let mut arg = String::from_str(prefix);
    arg.append(value);
    arg.append(suffix);
    args.push(arg);
    assert(arg_views(args@) =~= arg_views(old(args)@).push(prefix@ + value@ + suffix@));
}

/// Appends the argument made of `prefix` and the decimal text of `value`.
pub fn push_number(args: &mut Vec<String>, prefix: &str, value: u64)
    ensures
        arg_views(final(args)@) == arg_views(old(args)@).push(
            prefix@ + decimal_chars(value as nat),
        ),
{
    let number = decimal(value);
    push_joined(args, prefix, number.as_str());
}

/// An encoder that works in two passes: the first writes statistics to the
/// log file, the second reads them and writes the stream.
pub trait Encoder {
    /// The command line of the first pass.
    spec fn first_pass_line(&self, options: EncoderOptions) -> CommandLineView;

    /// The command line of the second pass.
    spec fn second_pass_line(&self, options: EncoderOptions) -> CommandLineView;

    /// Builds the command line of the first pass.
    fn first_pass(&self, options: EncoderOptions) -> (line: CommandLine)
        ensures
            line@ == self.first_pass_line(options),
    ;

    /// Builds the command line of the second pass.
    fn second_pass(&self, options: EncoderOptions) -> (line: CommandLine)
        ensures
            line@ == self.second_pass_line(options),
    ;
}

} // verus!
