//! The commands that a run hands to the build system, and the message of a
//! command that failed.

use vstd::prelude::*;
use vstd::string::*;
use crate::profile::Build;
use crate::scan::{chars_of, matches_at, occurs_at};
use crate::target::{Target, TargetView};

verus! {

/// Whether `c` is white space: a character with the Unicode property
/// `White_Space`.
pub open spec fn is_space(c: char) -> bool {
    ('\u{9}' <= c && c <= '\u{d}') || c == ' ' || c == '\u{85}' || c == '\u{a0}' || c
        == '\u{1680}' || ('\u{2000}' <= c && c <= '\u{200a}') || c == '\u{2028}' || c
        == '\u{2029}' || c == '\u{202f}' || c == '\u{205f}' || c == '\u{3000}'
}

/// Tells whether `c` is white space.
pub fn space(c: char) -> (yes: bool)
    ensures
        yes == is_space(c),
{
    ('\u{9}' <= c && c <= '\u{d}') || c == ' ' || c == '\u{85}' || c == '\u{a0}' || c
        == '\u{1680}' || ('\u{2000}' <= c && c <= '\u{200a}') || c == '\u{2028}' || c
        == '\u{2029}' || c == '\u{202f}' || c == '\u{205f}' || c == '\u{3000}'
}

/// `text` without the repetitions of `prefix` that it starts with.
pub open spec fn without_leading(text: Seq<char>, prefix: Seq<char>) -> Seq<char>
    decreases text.len(),
{
    if prefix.len() > 0 && occurs_at(text, prefix, 0) {
        without_leading(text.skip(prefix.len() as int), prefix)
    } else {
        text
    }
}

/// `text` without the white space that it ends with.
pub open spec fn without_trailing_space(text: Seq<char>) -> Seq<char>
    decreases text.len(),
{
    if text.len() > 0 && is_space(text.last()) {
        without_trailing_space(text.drop_last())
    } else {
        text
    }
}

/// The message for a metadata command that failed and wrote `stderr`: what
/// it wrote, without the `error: ` that it starts with and the white space
/// that it ends with, behind a fixed opening.
pub open spec fn failure_message_of(stderr: Seq<char>) -> Seq<char> {
    "cargo command failed: "@ + without_trailing_space(without_leading(stderr, "error: "@))
}

/// Gives the message for a metadata command that failed and wrote `stderr`.
pub fn failure_message(stderr: &str) -> (message: String)
    ensures
        message@ == failure_message_of(stderr@),
{
    let chars = chars_of(stderr);
    let prefix = chars_of("error: ");
    proof {
        reveal_strlit("error: ");
    }
    let mut start: usize = 0;
    assert(stderr@.skip(0) =~= stderr@);
    while matches_at(&chars, &prefix, start)
        invariant
            chars@ == stderr@,
            prefix@ == "error: "@,
            prefix@.len() == 7,
            start <= chars.len(),
            without_leading(stderr@, prefix@) == without_leading(
                stderr@.skip(start as int),
                prefix@,
            ),
        decreases chars.len() - start,
    {
        proof {
            let rest = stderr@.skip(start as int);
            assert(rest.subrange(0, 7) =~= stderr@.subrange(start as int, start + 7));
            assert(occurs_at(rest, prefix@, 0));
            assert(rest.skip(7) =~= stderr@.skip(start + 7));
        }
        start += prefix.len();
    }
    proof {
        let rest = stderr@.skip(start as int);
        if occurs_at(rest, prefix@, 0) {
            assert(rest.subrange(0, 7) =~= stderr@.subrange(start as int, start + 7));
            assert(occurs_at(stderr@, prefix@, start as int));
        }
        assert(without_leading(stderr@, prefix@) == rest);
        assert(rest =~= stderr@.subrange(start as int, chars.len() as int));
    }
    let mut end: usize = chars.len();
    while end > start && space(chars[end - 1])
        invariant
            chars@ == stderr@,
            start <= end <= chars.len(),
            without_trailing_space(stderr@.subrange(start as int, chars.len() as int))
                == without_trailing_space(stderr@.subrange(start as int, end as int)),
        decreases end,
    {
        proof {
            let kept = stderr@.subrange(start as int, end as int);
            assert(kept.last() == chars@[end - 1]);
            assert(kept.drop_last() =~= stderr@.subrange(start as int, end - 1));
        }
        end -= 1;
    }
    proof {
        let kept = stderr@.subrange(start as int, end as int);
        if kept.len() > 0 {
            assert(kept.last() == chars@[end - 1]);
        }
        assert(without_trailing_space(kept) == kept);
    }
    String::from_str("cargo command failed: ").concat(stderr.substring_char(start, end))
}

/// What a run of the metadata command gives: the document that it wrote
/// where it succeeded and its output is text; a message otherwise.
pub open spec fn command_outcome_of(
    success: bool,
    output: Option<Seq<char>>,
    stderr: Seq<char>,
) -> Result<Seq<char>, Seq<char>> {
    if success {
        match output {
            Some(document) => Ok(document),
            None => Err("Non-UTF-8 string"@),
        }
    } else {
        Err(failure_message_of(stderr))
    }
}

/// The view of what a run of the metadata command gives.
pub open spec fn command_outcome_view(outcome: Result<String, String>) -> Result<
    Seq<char>,
    Seq<char>,
> {
    match outcome {
        Ok(document) => Ok(document@),
        Err(message) => Err(message@),
    }
}

/// The view of the output of a command: none where it is no text.
pub open spec fn output_view(output: Option<String>) -> Option<Seq<char>> {
    match output {
        Some(text) => Some(text@),
        None => None,
    }
}

/// Decides what a run of the metadata command gives: `success` tells
/// whether it ended well, `output` is what it wrote, or none where that is
/// no UTF-8 text, and `stderr` is what it wrote about its failure.
pub fn command_outcome(success: bool, output: Option<String>, stderr: &str) -> (outcome: Result<
    String,
    String,
>)
    ensures
        command_outcome_view(outcome) == command_outcome_of(
            success,
            output_view(output),
            stderr@,
        ),
{
    if success {
        match output {
            Some(document) => Ok(document),
            None => Err(String::from_str("Non-UTF-8 string")),
        }
    } else {
        Err(failure_message(stderr))
    }
}

/// The texts of `arguments`, in order.
pub open spec fn argument_views(arguments: Seq<String>) -> Seq<Seq<char>> {
    Seq::new(arguments.len(), |i: int| arguments[i]@)
}

/// The arguments of the metadata command for the manifest at `manifest`:
/// the first format version, no dependencies, no network.
pub open spec fn metadata_arguments_of(manifest: Seq<char>) -> Seq<Seq<char>> {
    seq![
        "metadata"@,
        "--format-version=1"@,
        "--no-deps"@,
        "--offline"@,
        "--manifest-path"@,
        manifest,
    ]
}

/// Gives the arguments of the metadata command for the manifest at
/// `manifest`.
pub fn metadata_arguments(manifest: &str) -> (arguments: Vec<String>)
    ensures
        argument_views(arguments@) == metadata_arguments_of(manifest@),
{
    let mut arguments: Vec<String> = Vec::new();
    arguments.push(String::from_str("metadata"));
    arguments.push(String::from_str("--format-version=1"));
    arguments.push(String::from_str("--no-deps"));
    arguments.push(String::from_str("--offline"));
    arguments.push(String::from_str("--manifest-path"));
    arguments.push(String::from_str(manifest));
    assert(argument_views(arguments@) =~= metadata_arguments_of(manifest@));
    arguments
}

/// The option of the build command that selects `target`.
pub open spec fn build_flag_of(target: TargetView) -> Seq<char> {
    match target {
        TargetView::Binary(_) => "--bin"@,
        TargetView::Example(_) => "--example"@,
        TargetView::Benchmark(_) => "--bench"@,
    }
}

/// The arguments of the build command for `target` of the manifest at
/// `manifest` under profile `build`.
pub open spec fn build_arguments_of(manifest: Seq<char>, build: Build, target: TargetView) -> Seq<
    Seq<char>,
> {
    let selection = seq![build_flag_of(target), target.name()];
    let start = seq!["build"@, "--manifest-path"@, manifest];
    match build {
        Build::Debug => start + selection,
        Build::Release => start.push("--release"@) + selection,
    }
}

/// Gives the arguments of the build command for `target` of the manifest at
/// `manifest` under profile `build`.
pub fn build_arguments(manifest: &str, build: Build, target: &Target) -> (arguments: Vec<String>)
    ensures
        argument_views(arguments@) == build_arguments_of(manifest@, build, target@),
{
    let mut arguments: Vec<String> = Vec::new();
    arguments.push(String::from_str("build"));
    arguments.push(String::from_str("--manifest-path"));
    arguments.push(String::from_str(manifest));
    match build {
        Build::Debug => {},
        Build::Release => {
            arguments.push(String::from_str("--release"));
        },
    }
    arguments.push(String::from_str(target.build_flag()));
    arguments.push(String::from_str(target.name()));
    assert(argument_views(arguments@) =~= build_arguments_of(manifest@, build, target@));
    arguments
}

} // verus!
