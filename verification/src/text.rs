//! The lines of text that the bridge hands to its caller or to the console.
//!
//! Each line is a fixed label around a variable part. The spec functions
//! give the lines over sequences of characters; the executable functions
//! build them as `String`s.

use vstd::prelude::*;

verus! {

/// The greeting for `name`.
pub open spec fn greeting(name: Seq<char>) -> Seq<char> {
    "Hello, "@ + name + "!"@
}

/// The console line that shows a byte array, given the array's rendering.
pub open spec fn array_text(rendering: Seq<char>) -> Seq<char> {
    "rust arr: '"@ + rendering + "'"@
}

/// The console line that announces the working directory, given the
/// directory's rendering.
pub open spec fn cwd_text(dir: Seq<char>) -> Seq<char> {
    "Current working directory: "@ + dir
}

/// The console line for one directory entry, given the rendering of the
/// entry's path.
pub open spec fn entry_text(path: Seq<char>) -> Seq<char> {
    "File: "@ + path
}

/// The console line that names the processor architecture.
pub open spec fn arch_text(arch: Seq<char>) -> Seq<char> {
    "current arch: "@ + arch
}

/// What std's `Debug` formatting writes for an iterator over the bytes of
/// a slice. The text depends on the bytes alone.
pub uninterp spec fn iter_debug(bytes: Seq<u8>) -> Seq<char>;

/// Formats `bytes.iter()`, a `core::slice::Iter<u8>`, with `{:?}`.
///
/// Trusted: the contract only gives the formatted text its name,
/// `iter_debug`; nothing is claimed of what the text holds.
#[verifier::external_body]
fn render_iter(bytes: &[u8]) -> (rendering: String)
    ensures
        rendering@ == iter_debug(bytes@),
{
    format!("{:?}", bytes.iter())
}

/// Joins `label` and `body`.
fn labelled(label: &str, body: &str) -> (line: String)
    ensures
        line@ == label@ + body@,
{
    let mut line = String::from_str(label);
    line.append(body);
    line
}

/// Greets `name`: the empty name is greeted with `Hello, !`.
pub fn greet(name: String) -> (text: String)
    ensures
        text@ == greeting(name@),
        text@ == "Hello, "@ + name@ + "!"@,
{
    let mut text = labelled("Hello, ", name.as_str());
    text.append("!");
    text
}

/// Puts the rendering of a byte array into its console line.
pub fn frame_array(rendering: &str) -> (line: String)
    ensures
        line@ == array_text(rendering@),
{
    let mut line = labelled("rust arr: '", rendering);
    line.append("'");
    line
}

/// The console line that shows `bytes`: the array's `Debug` rendering as an
/// iterator, in single quotes behind the label. Any length is accepted.
pub fn array_line(bytes: &[u8]) -> (line: String)
    ensures
        line@ == array_text(iter_debug(bytes@)),
{
    let rendering = render_iter(bytes);
    frame_array(rendering.as_str())
}

/// The console line that announces the working directory `dir`, which is
/// given as it is to be shown.
pub fn cwd_line(dir: &str) -> (line: String)
    ensures
        line@ == cwd_text(dir@),
{
    labelled("Current working directory: ", dir)
}

/// The console line for the directory entry at `path`, which is given as
/// it is to be shown.
pub fn entry_line(path: &str) -> (line: String)
    ensures
        line@ == entry_text(path@),
{
    labelled("File: ", path)
}

/// The console line that names the processor architecture `arch`.
pub fn arch_line(arch: &str) -> (line: String)
    ensures
        line@ == arch_text(arch@),
{
    labelled("current arch: ", arch)
}

} // verus!
