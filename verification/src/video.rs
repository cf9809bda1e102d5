//! The video-conversion tool and how it is invoked.

use crate::image::{push_arg, Invocation, InvocationView};
use crate::text::texts;
use vstd::prelude::*;

verus! {

/// The arguments that re-encode `input` for the web at `output`: H.264
/// video at quality factor 24 in the 4:2:0 pixel format, the audio stream
/// copied, and the index moved to the front for progressive playback.
pub open spec fn web_video_args(input: Seq<char>, output: Seq<char>) -> Seq<Seq<char>> {
    seq![
        "-i"@,
        input,
        "-c:v"@,
        "libx264"@,
        "-crf"@,
        "24"@,
        "-preset"@,
        "medium"@,
        "-vf"@,
        "format=yuv420p"@,
        "-c:a"@,
        "copy"@,
        "-b:a"@,
        "64k"@,
        "-movflags"@,
        "+faststart"@,
        output,
    ]
}

/// The call of the video tool that re-encodes `input` for the web at
/// `output`.
pub open spec fn web_video_job(input: Seq<char>, output: Seq<char>) -> InvocationView {
    InvocationView { program: "ffmpeg"@, args: web_video_args(input, output) }
}

/// The invocation that re-encodes the video at `input_path` for the web,
/// writing to `output_path`.
pub fn web_video(input_path: &str, output_path: &str) -> (r: Invocation)
    ensures
        r@ == web_video_job(input_path@, output_path@),
{
    let mut args: Vec<String> = Vec::new();
    push_arg(&mut args, "-i");
    push_arg(&mut args, input_path);
    push_arg(&mut args, "-c:v");
    push_arg(&mut args, "libx264");
    push_arg(&mut args, "-crf");
    push_arg(&mut args, "24");
    push_arg(&mut args, "-preset");
    push_arg(&mut args, "medium");
    push_arg(&mut args, "-vf");
    push_arg(&mut args, "format=yuv420p");
    push_arg(&mut args, "-c:a");
    push_arg(&mut args, "copy");
    push_arg(&mut args, "-b:a");
    push_arg(&mut args, "64k");
    push_arg(&mut args, "-movflags");
    push_arg(&mut args, "+faststart");
    push_arg(&mut args, output_path);
    assert(texts(args@) =~= web_video_args(input_path@, output_path@));
    Invocation { program: "ffmpeg".to_owned(), args }
}

/// The invocation that asks the video tool for its version, by which its
/// presence is probed.
pub fn ffmpeg_probe() -> (r: Invocation)
    ensures
        r@ == (InvocationView { program: "ffmpeg"@, args: seq!["-version"@] }),
{
    let mut args: Vec<String> = Vec::new();
    push_arg(&mut args, "-version");
    assert(texts(args@) =~= seq!["-version"@]);
    Invocation { program: "ffmpeg".to_owned(), args }
}

} // verus!
