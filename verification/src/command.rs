//! The arguments that make the transcoding tool carry out a plan.

use crate::ffprobe::TrackType;
use crate::text::{decimal_string, decimal_text};
use crate::transcode::{StreamAction, StreamActionView, StreamOperation, StreamOperationView};
use vstd::prelude::*;

verus! {

/// One argument of the transcoding tool.
#[derive(Clone, Debug, PartialEq, Eq)]
pub enum Argument {
    /// A text that is passed as it is.
    Text(String),
    /// The media file that is read.
    Input,
    /// The file of this name in the output directory.
    Output(String),
}

/// An `Argument` as plain values.
pub enum ArgumentView {
    Text(Seq<char>),
    Input,
    Output(Seq<char>),
}

impl DeepView for Argument {
    type V = ArgumentView;

    open spec fn deep_view(&self) -> ArgumentView {
        match self {
            Argument::Text(text) => ArgumentView::Text(text@),
            Argument::Input => ArgumentView::Input,
            Argument::Output(name) => ArgumentView::Output(name@),
        }
    }
}

impl View for Argument {
    type V = ArgumentView;

    open spec fn view(&self) -> ArgumentView {
        self.deep_view()
    }
}

/// The arguments before those of the plan: no banner, experimental codecs
/// permitted, and the one input.
pub open spec fn leading_arguments() -> Seq<ArgumentView> {
    seq![
        ArgumentView::Text("-hide_banner"@),
        ArgumentView::Text("-strict"@),
        ArgumentView::Text("-2"@),
        ArgumentView::Text("-i"@),
        ArgumentView::Input,
    ]
}

/// The option that names the codec of a stream: `-c` for a stream that has
/// its file to itself, else `-c:v` for video and `-c:a` for audio.
pub open spec fn codec_option(kind: TrackType, alone: bool) -> Seq<char> {
    if alone {
        "-c"@
    } else if kind == TrackType::Video {
        "-c:v"@
    } else {
        "-c:a"@
    }
}

/// The arguments that name the codec of one stream.  A copied stream gets
/// the codec `copy`, and `-strict experimental` after it where the operation
/// asks for that; an encoded stream gets its encoder, and `-ac` with the
/// number of channels where one is given.  No codec is named for a subtitle
/// stream: the tool takes it from the extension of the file.
pub open spec fn stream_codec_arguments(operation: StreamOperationView, alone: bool) -> Seq<
    ArgumentView,
> {
    let option = ArgumentView::Text(codec_option(operation.kind, alone));
    if operation.kind == TrackType::Subtitle {
        Seq::empty()
    } else {
        match operation.action {
            StreamActionView::Copy => {
                if operation.experimental {
                    seq![
                        option,
                        ArgumentView::Text("copy"@),
                        ArgumentView::Text("-strict"@),
                        ArgumentView::Text("experimental"@),
                    ]
                } else {
                    seq![option, ArgumentView::Text("copy"@)]
                }
            },
            StreamActionView::Encode { codec, channels } => {
                match channels {
                    Some(n) => seq![
                        option,
                        ArgumentView::Text(codec),
                        ArgumentView::Text("-ac"@),
                        ArgumentView::Text(decimal_text(n as nat)),
                    ],
                    None => seq![option, ArgumentView::Text(codec)],
                }
            },
        }
    }
}

/// The arguments that select the streams of `group`, in order: `-map` and
/// the mapping of each.
pub open spec fn map_arguments(group: Seq<StreamOperationView>) -> Seq<ArgumentView>
    decreases group.len(),
{
    if group.len() == 0 {
        Seq::empty()
    } else {
        map_arguments(group.drop_last()) + seq![
            ArgumentView::Text("-map"@),
            ArgumentView::Text(group.last().mapping),
        ]
    }
}

/// The arguments that name the codecs of the streams of `group`, in order.
pub open spec fn codec_arguments(group: Seq<StreamOperationView>, alone: bool) -> Seq<
    ArgumentView,
>
    decreases group.len(),
{
    if group.len() == 0 {
        Seq::empty()
    } else {
        codec_arguments(group.drop_last(), alone) + stream_codec_arguments(group.last(), alone)
    }
}

/// The number of operations at the head of `operations` that make the same
/// file as the first.
pub open spec fn group_len(operations: Seq<StreamOperationView>) -> int
    decreases operations.len(),
{
    if operations.len() == 0 {
        0
    } else if operations.len() > 1 && operations[1].filename == operations[0].filename {
        1 + group_len(operations.drop_first())
    } else {
        1
    }
}

/// The arguments for one output file, made by the operations of `group`:
/// the streams are selected, then their codecs named, then the file.
pub open spec fn group_arguments(group: Seq<StreamOperationView>) -> Seq<ArgumentView> {
    map_arguments(group) + codec_arguments(group, group.len() == 1) + seq![
        ArgumentView::Output(group[0].filename),
    ]
}

/// A group has one operation at least, and no more than there are.
pub proof fn lemma_group_len_bounds(operations: Seq<StreamOperationView>)
    requires
        operations.len() > 0,
    ensures
        1 <= group_len(operations) <= operations.len(),
    decreases operations.len(),
{
    if operations.len() > 1 && operations[1].filename == operations[0].filename {
        lemma_group_len_bounds(operations.drop_first());
    }
}

/// The arguments for the output files of `operations`.  Operations that
/// stand one after the other and name the same file make that file together.
pub open spec fn output_arguments(operations: Seq<StreamOperationView>) -> Seq<ArgumentView>
    decreases operations.len(),
{
    if operations.len() == 0 {
        Seq::empty()
    } else {
        let n = group_len(operations);
        proof {
            lemma_group_len_bounds(operations);
        }
        group_arguments(operations.take(n)) + output_arguments(operations.skip(n))
    }
}

/// The group at the head of `operations` has `n` operations when the first
/// `n` operations name the same file and the one after them, if there is
/// one, names another.
pub proof fn lemma_group_len(operations: Seq<StreamOperationView>, n: int)
    requires
        1 <= n <= operations.len(),
        forall|i: int| 0 <= i < n ==> (#[trigger] operations[i]).filename == operations[0].filename,
        n < operations.len() ==> operations[n].filename != operations[0].filename,
    ensures
        group_len(operations) == n,
    decreases operations.len(),
{
    if n > 1 {
        let rest = operations.drop_first();
        lemma_group_len(rest, n - 1);
    }
}

/// All arguments of the transcoding tool for a plan: `leading_arguments`,
/// then `output_arguments`.
pub open spec fn command_arguments_of(operations: Seq<StreamOperationView>) -> Seq<ArgumentView> {
    leading_arguments() + output_arguments(operations)
}

/// An argument that is passed as it is.
fn text(s: &str) -> (r: Argument)
    ensures
        r@ == ArgumentView::Text(s@),
{
    Argument::Text(s.to_owned())
}

/// Appends the arguments that name the codec of one stream:
/// `stream_codec_arguments`.
pub fn push_stream_codec(arguments: &mut Vec<Argument>, operation: &StreamOperation, alone: bool)
    ensures
        final(arguments).deep_view() == old(arguments).deep_view() + stream_codec_arguments(
            operation@,
            alone,
        ),
{
    if operation.kind == TrackType::Subtitle {
        return;
    }
    let option = if alone {
        "-c"
    } else if operation.kind == TrackType::Video {
        "-c:v"
    } else {
        "-c:a"
    };
    arguments.push(text(option));
    match operation.action {
        StreamAction::Copy => {
            arguments.push(text("copy"));
            if operation.experimental {
                arguments.push(text("-strict"));
                arguments.push(text("experimental"));
            }
        },
        StreamAction::Encode { codec, channels } => {
            arguments.push(text(codec));
            if let Some(n) = channels {
                arguments.push(text("-ac"));
                arguments.push(Argument::Text(decimal_string(n as u64)));
            }
        },
    }
}

/// The position after the group that starts at `start`.
pub fn group_end(operations: &Vec<StreamOperation>, start: usize) -> (r: usize)
    requires
        start < operations.len(),
    ensures
        r == start + group_len(operations.deep_view().skip(start as int)),
        start < r <= operations.len(),
{
    let ghost all = operations.deep_view();
    let name = operations[start].filename.as_str();
    let mut end: usize = start + 1;
    while end < operations.len() && operations[end].filename.as_str().eq(name)
        invariant
            start < end <= operations.len(),
            all == operations.deep_view(),
            name@ == all[start as int].filename,
            forall|i: int| start <= i < end ==> (#[trigger] all[i]).filename == name@,
        decreases operations.len() - end,
    {
        end += 1;
    }
    proof {
        lemma_group_len(all.skip(start as int), end - start);
    }
    end
}

/// The arguments of the transcoding tool that carry out `operations`:
/// `command_arguments_of`.
pub fn command_arguments(operations: &Vec<StreamOperation>) -> (r: Vec<Argument>)
    ensures
        r.deep_view() == command_arguments_of(operations.deep_view()),
{
    let ghost all = operations.deep_view();
    let mut arguments: Vec<Argument> = Vec::new();
    arguments.push(text("-hide_banner"));
    arguments.push(text("-strict"));
    arguments.push(text("-2"));
    arguments.push(text("-i"));
    arguments.push(Argument::Input);
    let ghost mut done: Seq<ArgumentView> = Seq::empty();
    let mut start: usize = 0;
    assert(all.skip(0) =~= all);
    while start < operations.len()
        invariant
            start <= operations@.len(),
            all == operations.deep_view(),
            arguments.deep_view() == leading_arguments() + done,
            output_arguments(all) == done + output_arguments(all.skip(start as int)),
        decreases operations@.len() - start,
    {
        let end = group_end(operations, start);
        let alone = end - start == 1;
        let ghost rest = all.skip(start as int);
        let ghost group = rest.take(end - start);
        let ghost before = arguments.deep_view();
        let mut i: usize = start;
        while i < end
            invariant
                start <= i <= end <= operations@.len(),
                all == operations.deep_view(),
                group == all.skip(start as int).take(end - start),
                arguments.deep_view() == before + map_arguments(group.take(i - start)),
            decreases end - i,
        {
            let ghost so_far = arguments.deep_view();
            arguments.push(text("-map"));
            arguments.push(text(operations[i].mapping.as_str()));
            proof {
                let upto = group.take(i - start + 1);
                assert(upto.drop_last() =~= group.take(i - start));
                assert(arguments.deep_view() =~= so_far + seq![
                    ArgumentView::Text("-map"@),
                    ArgumentView::Text(operations@[i as int]@.mapping),
                ]);
            }
            i += 1;
        }
        assert(group.take(end - start) =~= group);
        let ghost mapped = arguments.deep_view();
        let mut i: usize = start;
        while i < end
            invariant
                start <= i <= end <= operations@.len(),
                all == operations.deep_view(),
                group == all.skip(start as int).take(end - start),
                arguments.deep_view() == mapped + codec_arguments(group.take(i - start), alone),
            decreases end - i,
        {
            push_stream_codec(&mut arguments, &operations[i], alone);
            proof {
                let upto = group.take(i - start + 1);
                assert(upto.drop_last() =~= group.take(i - start));
            }
            i += 1;
        }
        let ghost named = arguments.deep_view();
        arguments.push(Argument::Output(operations[start].filename.clone()));
        proof {
            assert(arguments.deep_view() =~= named + seq![ArgumentView::Output(group[0].filename)]);
            assert(rest.skip(end - start) =~= all.skip(end as int));
            done = done + group_arguments(group);
        }
        start = end;
    }
    arguments
}

} // verus!
