//! The image-conversion tool and how it is invoked.

use crate::text::texts;
use vstd::prelude::*;

verus! {

/// A call of an outside program: its name and its arguments, in order.
#[derive(Debug)]
pub struct Invocation {
    pub program: String,
    pub args: Vec<String>,
}

pub ghost struct InvocationView {
    pub program: Seq<char>,
    pub args: Seq<Seq<char>>,
}

impl View for Invocation {
    type V = InvocationView;

    open spec fn view(&self) -> InvocationView {
        InvocationView { program: self.program@, args: texts(self.args@) }
    }
}

/// Appends `arg` to the argument list.
pub fn push_arg(args: &mut Vec<String>, arg: &str)
    ensures
        texts(final(args)@) == texts(old(args)@).push(arg@),
{
    args.push(arg.to_owned());
}

/// The arguments that convert `input` to a JPEG file at `output`: quality
/// 90, with the source's settings kept and the coding optimised.
pub open spec fn jpeg_args(input: Seq<char>, output: Seq<char>) -> Seq<Seq<char>> {
    seq![
        input,
        "-quality"@,
        "90"@,
        "-define"@,
        "jpeg:preserve-settings"@,
        "-define"@,
        "jpeg:optimize-coding"@,
        output,
    ]
}

/// The call of the image tool that converts `input` to a JPEG file at
/// `output`.
pub open spec fn jpeg_job(input: Seq<char>, output: Seq<char>) -> InvocationView {
    InvocationView { program: "convert"@, args: jpeg_args(input, output) }
}

/// The invocation that converts the image at `input_path` to a JPEG file
/// at `output_path`.
pub fn to_jpeg(input_path: &str, output_path: &str) -> (r: Invocation)
    ensures
        r@ == jpeg_job(input_path@, output_path@),
{
    let mut args: Vec<String> = Vec::new();
    push_arg(&mut args, input_path);
    push_arg(&mut args, "-quality");
    push_arg(&mut args, "90");
    push_arg(&mut args, "-define");
    push_arg(&mut args, "jpeg:preserve-settings");
    push_arg(&mut args, "-define");
    push_arg(&mut args, "jpeg:optimize-coding");
    push_arg(&mut args, output_path);
    assert(texts(args@) =~= jpeg_args(input_path@, output_path@));
    Invocation { program: "convert".to_owned(), args }
}

/// The invocation that asks the image tool for its version, by which its
/// presence is probed.
pub fn imagemagick_probe() -> (r: Invocation)
    ensures
        r@ == (InvocationView { program: "convert"@, args: seq!["-version"@] }),
{
    let mut args: Vec<String> = Vec::new();
    push_arg(&mut args, "-version");
    assert(texts(args@) =~= seq!["-version"@]);
    Invocation { program: "convert".to_owned(), args }
}

} // verus!
