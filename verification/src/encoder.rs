//! Command lines for the external encoder that turns a replay into a video.
//!
//! The frames and the samples of a replay go to two encoder processes as raw
//! data on their standard input; a third process joins their outputs.  The
//! user's flags are given as one string each and split into words the way a
//! shell would.

use vstd::prelude::*;

verus! {

/// `shell_words::ParseError`: the line has a quote that is never closed.
/// Nothing is read from it.
#[verifier::external_type_specification]
#[verifier::external_body]
pub struct ExParseError(shell_words::ParseError);

/// The words that `shell_words` splits a line into, or `None` where the line
/// has a quote that is never closed.
pub uninterp spec fn shell_split(line: Seq<char>) -> Option<Seq<Seq<char>>>;

/// One argument of a command line.
#[derive(Debug)]
pub enum Arg {
    Text(String),
    /// The file that the video encoder writes and the joiner reads.
    VideoFile,
    /// The file that the audio encoder writes and the joiner reads.
    AudioFile,
    /// The file that the joiner writes.
    OutputFile,
}

/// An `Arg` as a mathematical value.
pub enum ArgView {
    Text(Seq<char>),
    VideoFile,
    AudioFile,
    OutputFile,
}

impl View for Arg {
    type V = ArgView;

    open spec fn view(&self) -> ArgView {
        match *self {
            Arg::Text(s) => ArgView::Text(s@),
            Arg::VideoFile => ArgView::VideoFile,
            Arg::AudioFile => ArgView::AudioFile,
            Arg::OutputFile => ArgView::OutputFile,
        }
    }
}

/// A command line as a mathematical value.
pub open spec fn args_view(args: Seq<Arg>) -> Seq<ArgView> {
    Seq::new(args.len(), |i: int| args[i]@)
}

/// Words as a mathematical value.
pub open spec fn words_view(words: Seq<String>) -> Seq<Seq<char>> {
    Seq::new(words.len(), |i: int| words[i]@)
}

/// Words as arguments.
pub open spec fn texts(words: Seq<Seq<char>>) -> Seq<ArgView> {
    Seq::new(words.len(), |i: int| ArgView::Text(words[i]))
}

/// What a split gave, as a mathematical value.
pub open spec fn split_view(r: Result<Vec<String>, shell_words::ParseError>) -> Option<
    Seq<Seq<char>>,
> {
    match r {
        Ok(words) => Some(words_view(words@)),
        Err(_) => None,
    }
}

/// `shell_words::split`: splits a line into words as a POSIX shell does,
/// with quotes, escapes and comments.  The words are a function of the line
/// alone; nothing else is claimed of them.
#[verifier::external_body]
fn split_words(line: &str) -> (r: Result<Vec<String>, shell_words::ParseError>)
    ensures
        split_view(r) == shell_split(line@),
{
    shell_words::split(line)
}

/// The flags could not be split: a quote is never closed.
#[derive(Clone, Copy, Debug, PartialEq, Eq, Structural)]
pub struct BadFlags;

/// How the video encoder reads raw frames from its standard input.
pub open spec fn video_input() -> Seq<ArgView> {
    seq![
        ArgView::Text("-y"@),
        ArgView::Text("-f"@),
        ArgView::Text("rawvideo"@),
        ArgView::Text("-pixel_format"@),
        ArgView::Text("rgba"@),
        ArgView::Text("-video_size"@),
        ArgView::Text("240x160"@),
        ArgView::Text("-framerate"@),
        ArgView::Text("16777216/280896"@),
        ArgView::Text("-i"@),
        ArgView::Text("pipe:"@),
    ]
}

/// How the audio encoder reads raw samples from its standard input.
pub open spec fn audio_input() -> Seq<ArgView> {
    seq![
        ArgView::Text("-y"@),
        ArgView::Text("-f"@),
        ArgView::Text("s16le"@),
        ArgView::Text("-ar"@),
        ArgView::Text("48k"@),
        ArgView::Text("-ac"@),
        ArgView::Text("2"@),
        ArgView::Text("-i"@),
        ArgView::Text("pipe:"@),
    ]
}

/// How the joiner takes both streams over as they are.
pub open spec fn mux_input() -> Seq<ArgView> {
    seq![
        ArgView::Text("-y"@),
        ArgView::Text("-i"@),
        ArgView::VideoFile,
        ArgView::Text("-i"@),
        ArgView::AudioFile,
        ArgView::Text("-c:v"@),
        ArgView::Text("copy"@),
        ArgView::Text("-c:a"@),
        ArgView::Text("copy"@),
    ]
}

/// The container format, and the file to write.
pub open spec fn mp4_to(file: ArgView) -> Seq<ArgView> {
    seq![ArgView::Text("-f"@), ArgView::Text("mp4"@), file]
}

/// The video encoder's command line for these flag words.
pub open spec fn video_command(words: Seq<Seq<char>>) -> Seq<ArgView> {
    video_input() + texts(words) + mp4_to(ArgView::VideoFile)
}

/// The audio encoder's command line for these flag words.
pub open spec fn audio_command(words: Seq<Seq<char>>) -> Seq<ArgView> {
    audio_input() + texts(words) + mp4_to(ArgView::AudioFile)
}

/// The joiner's command line for these flag words.
pub open spec fn mux_command(words: Seq<Seq<char>>) -> Seq<ArgView> {
    mux_input() + texts(words).push(ArgView::OutputFile)
}

fn text(s: &str) -> (arg: Arg)
    ensures
        arg@ == ArgView::Text(s@),
{
    Arg::Text(s.to_owned())
}

fn push_words(args: &mut Vec<Arg>, words: &Vec<String>)
    ensures
        args_view(final(args)@) == args_view(old(args)@) + texts(words_view(words@)),
{
    let mut i: usize = 0;
    assert(args_view(args@) =~= args_view(old(args)@) + texts(words_view(words@)).take(0));
    while i < words.len()
        invariant
            i <= words@.len(),
            args_view(args@) == args_view(old(args)@) + texts(words_view(words@)).take(i as int),
        decreases words@.len() - i,
    {
        let ghost before = args@;
        args.push(Arg::Text(words[i].clone()));
        i += 1;
        assert(args_view(args@) =~= args_view(before).push(ArgView::Text(words@[i - 1]@)));
        assert(args_view(args@) =~= args_view(old(args)@) + texts(words_view(words@)).take(
            i as int,
        ));
    }
    assert(texts(words_view(words@)).take(words@.len() as int) =~= texts(words_view(words@)));
}

fn push_mp4_to(args: &mut Vec<Arg>, file: Arg)
    ensures
        args_view(final(args)@) == args_view(old(args)@) + mp4_to(file@),
{
    args.push(text("-f"));
    args.push(text("mp4"));
    args.push(file);
    assert(args_view(args@) =~= args_view(old(args)@) + mp4_to(file@));
}

/// The video encoder's command line for flags that are already split.
pub fn video_args_from(words: &Vec<String>) -> (args: Vec<Arg>)
    ensures
        args_view(args@) == video_command(words_view(words@)),
{
    let mut args: Vec<Arg> = Vec::new();
    args.push(text("-y"));
    args.push(text("-f"));
    args.push(text("rawvideo"));
    args.push(text("-pixel_format"));
    args.push(text("rgba"));
    args.push(text("-video_size"));
    args.push(text("240x160"));
    args.push(text("-framerate"));
    args.push(text("16777216/280896"));
    args.push(text("-i"));
    args.push(text("pipe:"));
    assert(args_view(args@) =~= video_input());
    push_words(&mut args, words);
    push_mp4_to(&mut args, Arg::VideoFile);
    args
}

/// The audio encoder's command line for flags that are already split.
pub fn audio_args_from(words: &Vec<String>) -> (args: Vec<Arg>)
    ensures
        args_view(args@) == audio_command(words_view(words@)),
{
    let mut args: Vec<Arg> = Vec::new();
    args.push(text("-y"));
    args.push(text("-f"));
    args.push(text("s16le"));
    args.push(text("-ar"));
    args.push(text("48k"));
    args.push(text("-ac"));
    args.push(text("2"));
    args.push(text("-i"));
    args.push(text("pipe:"));
    assert(args_view(args@) =~= audio_input());
    push_words(&mut args, words);
    push_mp4_to(&mut args, Arg::AudioFile);
    args
}

/// The joiner's command line for flags that are already split.
pub fn mux_args_from(words: &Vec<String>) -> (args: Vec<Arg>)
    ensures
        args_view(args@) == mux_command(words_view(words@)),
{
    let mut args: Vec<Arg> = Vec::new();
    args.push(text("-y"));
    args.push(text("-i"));
    args.push(Arg::VideoFile);
    args.push(text("-i"));
    args.push(Arg::AudioFile);
    args.push(text("-c:v"));
    args.push(text("copy"));
    args.push(text("-c:a"));
    args.push(text("copy"));
    assert(args_view(args@) =~= mux_input());
    push_words(&mut args, words);
    let ghost before = args@;
    args.push(Arg::OutputFile);
    assert(args_view(args@) =~= args_view(before).push(ArgView::OutputFile));
    assert(args_view(args@) =~= mux_command(words_view(words@)));
    args
}

/// What a command line is for these flags, given how to build it from the
/// flags' words.
pub open spec fn command_for(
    flags: Seq<char>,
    build: spec_fn(Seq<Seq<char>>) -> Seq<ArgView>,
) -> Result<Seq<ArgView>, BadFlags> {
    match shell_split(flags) {
        Some(words) => Ok(build(words)),
        None => Err(BadFlags),
    }
}

/// A command line or its failure, as a mathematical value.
pub open spec fn command_view(r: Result<Vec<Arg>, BadFlags>) -> Result<Seq<ArgView>, BadFlags> {
    match r {
        Ok(args) => Ok(args_view(args@)),
        Err(e) => Err(e),
    }
}

/// The video encoder's command line for the user's flags.
pub fn video_args(flags: &str) -> (r: Result<Vec<Arg>, BadFlags>)
    ensures
        command_view(r) == command_for(flags@, |w: Seq<Seq<char>>| video_command(w)),
{
    match split_words(flags) {
        Ok(words) => Ok(video_args_from(&words)),
        Err(_) => Err(BadFlags),
    }
}

/// The audio encoder's command line for the user's flags.
pub fn audio_args(flags: &str) -> (r: Result<Vec<Arg>, BadFlags>)
    ensures
        command_view(r) == command_for(flags@, |w: Seq<Seq<char>>| audio_command(w)),
{
    match split_words(flags) {
        Ok(words) => Ok(audio_args_from(&words)),
        Err(_) => Err(BadFlags),
    }
}

/// The joiner's command line for the user's flags.
pub fn mux_args(flags: &str) -> (r: Result<Vec<Arg>, BadFlags>)
    ensures
        command_view(r) == command_for(flags@, |w: Seq<Seq<char>>| mux_command(w)),
{
    match split_words(flags) {
        Ok(words) => Ok(mux_args_from(&words)),
        Err(_) => Err(BadFlags),
    }
}

} // verus!
