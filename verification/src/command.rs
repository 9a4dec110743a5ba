//! The command lines of the encoder and of the prober.

use vstd::prelude::*;

use crate::color;
use crate::color::Rgb;
use crate::graph;
use crate::number;
use crate::text;

verus! {

fn no_args() -> (r: Vec<String>)
    ensures
        text::texts(r@) == Seq::<Seq<char>>::empty(),
{
    let r: Vec<String> = Vec::new();
    assert(text::texts(r@) =~= Seq::<Seq<char>>::empty());
    r
}

/// Runs one image through a filter.
pub open spec fn still_args_of(input: Seq<char>, filter: Seq<char>, out: Seq<char>) -> Seq<Seq<char>> {
    seq![
        "-y"@,
        "-v"@,
        "error"@,
        "-i"@,
        input,
        "-vf"@,
        filter,
        "-frames:v"@,
        "1"@,
        "-update"@,
        "1"@,
        out,
    ]
}

/// Runs one image through a filter.
pub fn still_args(input: &str, filter: &str, out: &str) -> (r: Vec<String>)
    ensures
        text::texts(r@) == still_args_of(input@, filter@, out@),
{
    let mut args = no_args();
    text::push_text(&mut args, "-y");
    text::push_text(&mut args, "-v");
    text::push_text(&mut args, "error");
    text::push_text(&mut args, "-i");
    text::push_text(&mut args, input);
    text::push_text(&mut args, "-vf");
    text::push_text(&mut args, filter);
    text::push_text(&mut args, "-frames:v");
    text::push_text(&mut args, "1");
    text::push_text(&mut args, "-update");
    text::push_text(&mut args, "1");
    text::push_text(&mut args, out);
    args
}

/// Draws one image with a filter over a generated `source`.
pub open spec fn drawn_args_of(source: Seq<char>, filter: Seq<char>, out: Seq<char>) -> Seq<Seq<char>> {
    seq![
        "-y"@,
        "-v"@,
        "error"@,
        "-f"@,
        "lavfi"@,
        "-i"@,
        source,
        "-vf"@,
        filter,
        "-frames:v"@,
        "1"@,
        out,
    ]
}

/// Draws one image with a filter over a generated `source`.
pub fn drawn_args(source: &str, filter: &str, out: &str) -> (r: Vec<String>)
    ensures
        text::texts(r@) == drawn_args_of(source@, filter@, out@),
{
    let mut args = no_args();
    text::push_text(&mut args, "-y");
    text::push_text(&mut args, "-v");
    text::push_text(&mut args, "error");
    text::push_text(&mut args, "-f");
    text::push_text(&mut args, "lavfi");
    text::push_text(&mut args, "-i");
    text::push_text(&mut args, source);
    text::push_text(&mut args, "-vf");
    text::push_text(&mut args, filter);
    text::push_text(&mut args, "-frames:v");
    text::push_text(&mut args, "1");
    text::push_text(&mut args, out);
    args
}

/// Turns a cover of any format into a plain PNG.
pub open spec fn cover_args_of(cover: Seq<char>, out: Seq<char>) -> Seq<Seq<char>> {
    seq![
        "-y"@,
        "-v"@,
        "error"@,
        "-i"@,
        cover,
        "-frames:v"@,
        "1"@,
        out,
    ]
}

/// Turns a cover of any format into a plain PNG.
pub fn cover_args(cover: &str, out: &str) -> (r: Vec<String>)
    ensures
        text::texts(r@) == cover_args_of(cover@, out@),
{
    let mut args = no_args();
    text::push_text(&mut args, "-y");
    text::push_text(&mut args, "-v");
    text::push_text(&mut args, "error");
    text::push_text(&mut args, "-i");
    text::push_text(&mut args, cover);
    text::push_text(&mut args, "-frames:v");
    text::push_text(&mut args, "1");
    text::push_text(&mut args, out);
    args
}

/// Draws the fully transparent label of a reel.
pub open spec fn placeholder_args_of(label: Seq<char>) -> Seq<Seq<char>> {
    seq![
        "-y"@,
        "-v"@,
        "error"@,
        "-f"@,
        "lavfi"@,
        "-i"@,
        "color=c=black:s=16x16"@,
        "-vf"@,
        "format=rgba,geq=r=0:g=0:b=0:a=0"@,
        "-frames:v"@,
        "1"@,
        "-update"@,
        "1"@,
        label,
    ]
}

/// Draws the fully transparent label of a reel.
pub fn placeholder_args(label: &str) -> (r: Vec<String>)
    ensures
        text::texts(r@) == placeholder_args_of(label@),
{
    let mut args = no_args();
    text::push_text(&mut args, "-y");
    text::push_text(&mut args, "-v");
    text::push_text(&mut args, "error");
    text::push_text(&mut args, "-f");
    text::push_text(&mut args, "lavfi");
    text::push_text(&mut args, "-i");
    text::push_text(&mut args, "color=c=black:s=16x16");
    text::push_text(&mut args, "-vf");
    text::push_text(&mut args, "format=rgba,geq=r=0:g=0:b=0:a=0");
    text::push_text(&mut args, "-frames:v");
    text::push_text(&mut args, "1");
    text::push_text(&mut args, "-update");
    text::push_text(&mut args, "1");
    text::push_text(&mut args, label);
    args
}

/// Bakes a caption onto the reel.
pub open spec fn bake_args_of(graph: Seq<char>, out: Seq<char>) -> Seq<Seq<char>> {
    seq![
        "-y"@,
        "-v"@,
        "error"@,
        "-i"@,
        "assets/reel_base.png"@,
        "-filter_complex"@,
        graph,
        "-map"@,
        "[out]"@,
        "-frames:v"@,
        "1"@,
        "-update"@,
        "1"@,
        out,
    ]
}

/// Bakes a caption onto the reel.
pub fn bake_args(graph: &str, out: &str) -> (r: Vec<String>)
    ensures
        text::texts(r@) == bake_args_of(graph@, out@),
{
    let mut args = no_args();
    text::push_text(&mut args, "-y");
    text::push_text(&mut args, "-v");
    text::push_text(&mut args, "error");
    text::push_text(&mut args, "-i");
    text::push_text(&mut args, "assets/reel_base.png");
    text::push_text(&mut args, "-filter_complex");
    text::push_text(&mut args, graph);
    text::push_text(&mut args, "-map");
    text::push_text(&mut args, "[out]");
    text::push_text(&mut args, "-frames:v");
    text::push_text(&mut args, "1");
    text::push_text(&mut args, "-update");
    text::push_text(&mut args, "1");
    text::push_text(&mut args, out);
    args
}

/// Draws a label that carries a caption.
pub open spec fn text_label_args_of(graph: Seq<char>, label: Seq<char>) -> Seq<Seq<char>> {
    seq![
        "-y"@,
        "-v"@,
        "error"@,
        "-f"@,
        "lavfi"@,
        "-i"@,
        "color=c=black:s=280x280"@,
        "-filter_complex"@,
        graph,
        "-map"@,
        "[out]"@,
        "-frames:v"@,
        "1"@,
        label,
    ]
}

/// Draws a label that carries a caption.
pub fn text_label_args(graph: &str, label: &str) -> (r: Vec<String>)
    ensures
        text::texts(r@) == text_label_args_of(graph@, label@),
{
    let mut args = no_args();
    text::push_text(&mut args, "-y");
    text::push_text(&mut args, "-v");
    text::push_text(&mut args, "error");
    text::push_text(&mut args, "-f");
    text::push_text(&mut args, "lavfi");
    text::push_text(&mut args, "-i");
    text::push_text(&mut args, "color=c=black:s=280x280");
    text::push_text(&mut args, "-filter_complex");
    text::push_text(&mut args, graph);
    text::push_text(&mut args, "-map");
    text::push_text(&mut args, "[out]");
    text::push_text(&mut args, "-frames:v");
    text::push_text(&mut args, "1");
    text::push_text(&mut args, label);
    args
}

/// Asks how long an audio file is.
pub open spec fn duration_args_of(audio: Seq<char>) -> Seq<Seq<char>> {
    seq![
        "-v"@,
        "error"@,
        "-show_entries"@,
        "format=duration"@,
        "-of"@,
        "default=nk=1:nw=1"@,
        audio,
    ]
}

/// Asks how long an audio file is.
pub fn duration_args(audio: &str) -> (r: Vec<String>)
    ensures
        text::texts(r@) == duration_args_of(audio@),
{
    let mut args = no_args();
    text::push_text(&mut args, "-v");
    text::push_text(&mut args, "error");
    text::push_text(&mut args, "-show_entries");
    text::push_text(&mut args, "format=duration");
    text::push_text(&mut args, "-of");
    text::push_text(&mut args, "default=nk=1:nw=1");
    text::push_text(&mut args, audio);
    args
}

/// Asks how wide, how high and how long a video is.
pub open spec fn probe_args_of(video: Seq<char>) -> Seq<Seq<char>> {
    seq![
        "-v"@,
        "error"@,
        "-select_streams"@,
        "v:0"@,
        "-show_entries"@,
        "stream=width,height"@,
        "-show_entries"@,
        "format=duration"@,
        "-of"@,
        "default=noprint_wrappers=1:nokey=1"@,
        video,
    ]
}

/// Asks how wide, how high and how long a video is.
pub fn probe_args(video: &str) -> (r: Vec<String>)
    ensures
        text::texts(r@) == probe_args_of(video@),
{
    let mut args = no_args();
    text::push_text(&mut args, "-v");
    text::push_text(&mut args, "error");
    text::push_text(&mut args, "-select_streams");
    text::push_text(&mut args, "v:0");
    text::push_text(&mut args, "-show_entries");
    text::push_text(&mut args, "stream=width,height");
    text::push_text(&mut args, "-show_entries");
    text::push_text(&mut args, "format=duration");
    text::push_text(&mut args, "-of");
    text::push_text(&mut args, "default=noprint_wrappers=1:nokey=1");
    text::push_text(&mut args, video);
    args
}

/// Re-encodes any video into a note: cropped to a square, scaled, cut to a
/// minute. The file to write goes behind these arguments.
pub open spec fn note_args_of(input: Seq<char>) -> Seq<Seq<char>> {
    seq![
        "-y"@,
        "-i"@,
        input,
        "-t"@,
        "60"@,
        "-vf"@,
        "crop='min(iw,ih)':'min(iw,ih)',scale=512:512,setsar=1"@,
        "-c:v"@,
        "libx264"@,
        "-pix_fmt"@,
        "yuv420p"@,
        "-c:a"@,
        "aac"@,
        "-b:a"@,
        "128k"@,
        "-movflags"@,
        "+faststart"@,
    ]
}

/// Re-encodes any video into a note: cropped to a square, scaled, cut to a
/// minute. The file to write goes behind these arguments.
pub fn note_args(input: &str) -> (r: Vec<String>)
    ensures
        text::texts(r@) == note_args_of(input@),
{
    let mut args = no_args();
    text::push_text(&mut args, "-y");
    text::push_text(&mut args, "-i");
    text::push_text(&mut args, input);
    text::push_text(&mut args, "-t");
    text::push_text(&mut args, "60");
    text::push_text(&mut args, "-vf");
    text::push_text(&mut args, "crop='min(iw,ih)':'min(iw,ih)',scale=512:512,setsar=1");
    text::push_text(&mut args, "-c:v");
    text::push_text(&mut args, "libx264");
    text::push_text(&mut args, "-pix_fmt");
    text::push_text(&mut args, "yuv420p");
    text::push_text(&mut args, "-c:a");
    text::push_text(&mut args, "aac");
    text::push_text(&mut args, "-b:a");
    text::push_text(&mut args, "128k");
    text::push_text(&mut args, "-movflags");
    text::push_text(&mut args, "+faststart");
    args
}


/// A source of one color and a fixed size.
pub open spec fn color_source_of(color: Seq<char>, size: Seq<char>) -> Seq<char> {
    "color=c="@ + color + ":s="@ + size
}

/// A source of one color and a fixed size.
pub fn color_source(color: &str, size: &str) -> (r: String)
    ensures
        r@ == color_source_of(color@, size@),
{
    let mut s = "color=c=".to_owned();
    s.append(color);
    s.append(":s=");
    s.append(size);
    s
}

/// Draws an image of the given size with a filter.
pub open spec fn gen_png_of(size: Seq<char>, filter: Seq<char>, out: Seq<char>) -> Seq<Seq<char>> {
    drawn_args_of(color_source_of("black"@, size), filter, out)
}

/// Draws an image of the given size with a filter.
pub fn gen_png(size: &str, filter: &str, out: &str) -> (r: Vec<String>)
    ensures
        text::texts(r@) == gen_png_of(size@, filter@, out@),
{
    let source = color_source("black", size);
    drawn_args(source.as_str(), filter, out)
}

/// Tints the gray disc.
pub open spec fn tint_args_of(rgb: Rgb, out: Seq<char>) -> Seq<Seq<char>> {
    still_args_of("assets/disc_base.png"@, color::tint_filter_of(rgb), out)
}

/// Tints the gray disc.
pub fn tint_args(rgb: Rgb, out: &str) -> (r: Vec<String>)
    ensures
        text::texts(r@) == tint_args_of(rgb, out@),
{
    let filter = color::tint_filter(rgb);
    still_args("assets/disc_base.png", filter.as_str(), out)
}

/// Draws a label that carries a cover, on a sticker of the given color.
pub open spec fn cover_label_args_of(cover: Seq<char>, rgb: Rgb, label: Seq<char>) -> Seq<
    Seq<char>,
> {
    seq![
        "-y"@,
        "-v"@,
        "error"@,
        "-i"@,
        cover,
        "-i"@,
        "assets/mask.png"@,
        "-f"@,
        "lavfi"@,
        "-i"@,
        color_source_of(color::filter_color_of(rgb), "280x280"@),
        "-f"@,
        "lavfi"@,
        "-i"@,
        color_source_of(color::filter_color_of(rgb), "24x24"@),
        "-filter_complex"@,
        graph::GRAPH_COVER_LABEL@,
        "-map"@,
        "[out]"@,
        "-frames:v"@,
        "1"@,
        label,
    ]
}

/// Draws a label that carries a cover, on a sticker of the given color.
pub fn cover_label_args(cover: &str, rgb: Rgb, label: &str) -> (r: Vec<String>)
    ensures
        text::texts(r@) == cover_label_args_of(cover@, rgb, label@),
{
    let shade = color::filter_color(rgb);
    let sticker = color_source(shade.as_str(), "280x280");
    let hole = color_source(shade.as_str(), "24x24");
    let mut args = no_args();
    text::push_text(&mut args, "-y");
    text::push_text(&mut args, "-v");
    text::push_text(&mut args, "error");
    text::push_text(&mut args, "-i");
    text::push_text(&mut args, cover);
    text::push_text(&mut args, "-i");
    text::push_text(&mut args, "assets/mask.png");
    text::push_text(&mut args, "-f");
    text::push_text(&mut args, "lavfi");
    text::push_text(&mut args, "-i");
    text::push_text(&mut args, sticker.as_str());
    text::push_text(&mut args, "-f");
    text::push_text(&mut args, "lavfi");
    text::push_text(&mut args, "-i");
    text::push_text(&mut args, hole.as_str());
    text::push_text(&mut args, "-filter_complex");
    text::push_text(&mut args, graph::GRAPH_COVER_LABEL);
    text::push_text(&mut args, "-map");
    text::push_text(&mut args, "[out]");
    text::push_text(&mut args, "-frames:v");
    text::push_text(&mut args, "1");
    text::push_text(&mut args, label);
    args
}

/// A still image as an endless input.
pub open spec fn looped_of(image: Seq<char>) -> Seq<Seq<char>> {
    seq!["-loop"@, "1"@, "-i"@, image]
}

fn push_looped(args: &mut Vec<String>, image: &str)
    ensures
        text::texts(final(args)@) == text::texts(old(args)@) + looped_of(image@),
{
    let ghost before = text::texts(args@);
    text::push_text(args, "-loop");
    text::push_text(args, "1");
    text::push_text(args, "-i");
    text::push_text(args, image);
    assert(text::texts(args@) =~= before + looped_of(image@));
}

/// What goes into a video: the files in the order of the graph's inputs.
pub struct Layers {
    pub label: String,
    pub disc: String,
    pub audio: String,
    /// The cover behind the record, if there is one.
    pub cover: Option<String>,
}

/// The inputs of the encoder: label, disc, audio, the cover if there is one, and
/// the shine last.
pub open spec fn input_args_of(
    label: Seq<char>,
    disc: Seq<char>,
    audio: Seq<char>,
    cover: Option<Seq<char>>,
) -> Seq<Seq<char>> {
    looped_of(label) + looped_of(disc) + seq!["-i"@, audio] + (match cover {
        Some(c) => looped_of(c),
        None => seq![],
    }) + looped_of("assets/shine.png"@)
}

/// What the encoder is told in front of its inputs.
pub open spec fn encode_head() -> Seq<Seq<char>> {
    seq!["-y"@, "-v"@, "error"@, "-nostats"@, "-progress"@, "pipe:1"@]
}

/// How the encoder puts the layers together.
pub open spec fn encode_middle(note: bool, cover: bool) -> Seq<Seq<char>> {
    seq![
        "-filter_complex"@,
        graph::video_graph_of(note, cover),
        "-map"@,
        "[outv]"@,
        "-map"@,
        "2:a"@,
        "-r"@,
        "30"@,
        "-shortest"@,
    ]
}

/// The cut that makes a video fit to be a note.
pub open spec fn encode_cut(note: bool) -> Seq<Seq<char>> {
    if note {
        seq!["-t"@, "60"@]
    } else {
        seq![]
    }
}

/// How the encoder writes the video.
pub open spec fn encode_tail(out: Seq<char>) -> Seq<Seq<char>> {
    seq![
        "-c:v"@,
        "libx264"@,
        "-preset"@,
        "veryfast"@,
        "-crf"@,
        "20"@,
        "-pix_fmt"@,
        "yuv420p"@,
        "-c:a"@,
        "aac"@,
        "-b:a"@,
        "192k"@,
        "-movflags"@,
        "+faststart"@,
        out,
    ]
}

/// Encodes the video. Its progress goes to the standard output.
pub open spec fn encode_args_of(
    label: Seq<char>,
    disc: Seq<char>,
    audio: Seq<char>,
    cover: Option<Seq<char>>,
    note: bool,
    out: Seq<char>,
) -> Seq<Seq<char>> {
    encode_head() + input_args_of(label, disc, audio, cover) + encode_middle(
        note,
        cover is Some,
    ) + encode_cut(note) + encode_tail(out)
}

/// The text of an optional string.
pub open spec fn optional_text(s: Option<String>) -> Option<Seq<char>> {
    match s {
        Some(t) => Some(t@),
        None => None,
    }
}

fn push_inputs(args: &mut Vec<String>, layers: &Layers)
    ensures
        text::texts(final(args)@) == text::texts(old(args)@) + input_args_of(
            layers.label@,
            layers.disc@,
            layers.audio@,
            optional_text(layers.cover),
        ),
{
    let ghost before = text::texts(args@);
    push_looped(args, layers.label.as_str());
    push_looped(args, layers.disc.as_str());
    text::push_text(args, "-i");
    text::push_text(args, layers.audio.as_str());
    if let Some(cover) = &layers.cover {
        push_looped(args, cover.as_str());
    }
    push_looped(args, "assets/shine.png");
    assert(text::texts(args@) =~= before + input_args_of(
        layers.label@,
        layers.disc@,
        layers.audio@,
        optional_text(layers.cover),
    ));
}

fn push_middle(args: &mut Vec<String>, note: bool, cover: bool)
    ensures
        text::texts(final(args)@) == text::texts(old(args)@) + encode_middle(note, cover),
{
    let ghost before = text::texts(args@);
    text::push_text(args, "-filter_complex");
    text::push_text(args, graph::video_graph(note, cover));
    text::push_text(args, "-map");
    text::push_text(args, "[outv]");
    text::push_text(args, "-map");
    text::push_text(args, "2:a");
    text::push_text(args, "-r");
    text::push_text(args, "30");
    text::push_text(args, "-shortest");
    assert(text::texts(args@) =~= before + encode_middle(note, cover));
}

fn push_tail(args: &mut Vec<String>, out: &str)
    ensures
        text::texts(final(args)@) == text::texts(old(args)@) + encode_tail(out@),
{
    let ghost before = text::texts(args@);
    text::push_text(args, "-c:v");
    text::push_text(args, "libx264");
    text::push_text(args, "-preset");
    text::push_text(args, "veryfast");
    text::push_text(args, "-crf");
    text::push_text(args, "20");
    text::push_text(args, "-pix_fmt");
    text::push_text(args, "yuv420p");
    text::push_text(args, "-c:a");
    text::push_text(args, "aac");
    text::push_text(args, "-b:a");
    text::push_text(args, "192k");
    text::push_text(args, "-movflags");
    text::push_text(args, "+faststart");
    text::push_text(args, out);
    assert(text::texts(args@) =~= before + encode_tail(out@));
}

/// Encodes the video. Its progress goes to the standard output.
pub fn encode_args(layers: &Layers, note: bool, out: &str) -> (r: Vec<String>)
    ensures
        text::texts(r@) == encode_args_of(
            layers.label@,
            layers.disc@,
            layers.audio@,
            optional_text(layers.cover),
            note,
            out@,
        ),
{
    let mut args = no_args();
    text::push_text(&mut args, "-y");
    text::push_text(&mut args, "-v");
    text::push_text(&mut args, "error");
    text::push_text(&mut args, "-nostats");
    text::push_text(&mut args, "-progress");
    text::push_text(&mut args, "pipe:1");
    push_inputs(&mut args, layers);
    push_middle(&mut args, note, layers.cover.is_some());
    let ghost before = text::texts(args@);
    if note {
        text::push_text(&mut args, "-t");
        text::push_text(&mut args, "60");
    }
    assert(text::texts(args@) =~= before + encode_cut(note));
    push_tail(&mut args, out);
    args
}

/// The files that a command line reads, in order: what follows each `-i`.
pub open spec fn inputs_of(args: Seq<Seq<char>>) -> Seq<Seq<char>>
    decreases args.len(),
{
    if args.len() < 2 {
        seq![]
    } else if args[0] == "-i"@ {
        seq![args[1]] + inputs_of(args.skip(2))
    } else {
        inputs_of(args.skip(1))
    }
}

proof fn lemma_plain(a: Seq<Seq<char>>, rest: Seq<Seq<char>>)
    requires
        forall|i: int| 0 <= i < a.len() ==> #[trigger] a[i] != "-i"@,
    ensures
        inputs_of(a + rest) == inputs_of(rest),
    decreases a.len(),
{
    if a.len() > 0 {
        let b = a.skip(1);
        assert forall|i: int| 0 <= i < b.len() implies #[trigger] b[i] != "-i"@ by {
            assert(b[i] == a[i + 1]);
        }
        lemma_plain(b, rest);
        assert((a + rest).skip(1) =~= b + rest);
        assert((a + rest)[0] == a[0]);
        if (a + rest).len() < 2 {
            assert(rest.len() == 0);
        }
    } else {
        assert(a + rest =~= rest);
    }
}

proof fn lemma_input(file: Seq<char>, rest: Seq<Seq<char>>)
    ensures
        inputs_of(seq!["-i"@, file] + rest) == seq![file] + inputs_of(rest),
{
    let all = seq!["-i"@, file] + rest;
    assert(all.skip(2) =~= rest);
    assert(all[1] == file);
}

proof fn lemma_looped(file: Seq<char>, rest: Seq<Seq<char>>)
    ensures
        inputs_of(looped_of(file) + rest) == seq![file] + inputs_of(rest),
{
    lemma_not_input_flags();
    let front = seq!["-loop"@, "1"@];
    lemma_plain(front, seq!["-i"@, file] + rest);
    lemma_input(file, rest);
    assert(looped_of(file) + rest =~= front + (seq!["-i"@, file] + rest));
}

proof fn lemma_not_input_flags()
    ensures
        "-y"@ != "-i"@,
        "-v"@ != "-i"@,
        "-r"@ != "-i"@,
        "-t"@ != "-i"@,
        "30"@ != "-i"@,
        "60"@ != "-i"@,
        "20"@ != "-i"@,
        "error"@ != "-i"@,
        "-nostats"@ != "-i"@,
        "-progress"@ != "-i"@,
        "pipe:1"@ != "-i"@,
        "-loop"@ != "-i"@,
        "1"@ != "-i"@,
        "-filter_complex"@ != "-i"@,
        "-map"@ != "-i"@,
        "[outv]"@ != "-i"@,
        "2:a"@ != "-i"@,
        "-shortest"@ != "-i"@,
        "-c:v"@ != "-i"@,
        "libx264"@ != "-i"@,
        "-preset"@ != "-i"@,
        "veryfast"@ != "-i"@,
        "-crf"@ != "-i"@,
        "-pix_fmt"@ != "-i"@,
        "yuv420p"@ != "-i"@,
        "-c:a"@ != "-i"@,
        "aac"@ != "-i"@,
        "-b:a"@ != "-i"@,
        "192k"@ != "-i"@,
        "-movflags"@ != "-i"@,
        "+faststart"@ != "-i"@,
        forall|note: bool, cover: bool| #[trigger] graph::video_graph_of(note, cover) != "-i"@,
{
    reveal_strlit("-i");
    reveal_strlit("-y");
    reveal_strlit("-v");
    reveal_strlit("-r");
    reveal_strlit("-t");
    reveal_strlit("30");
    reveal_strlit("60");
    reveal_strlit("20");
    reveal_strlit("error");
    reveal_strlit("-nostats");
    reveal_strlit("-progress");
    reveal_strlit("pipe:1");
    reveal_strlit("-loop");
    reveal_strlit("1");
    reveal_strlit("-filter_complex");
    reveal_strlit("-map");
    reveal_strlit("[outv]");
    reveal_strlit("2:a");
    reveal_strlit("-shortest");
    reveal_strlit("-c:v");
    reveal_strlit("libx264");
    reveal_strlit("-preset");
    reveal_strlit("veryfast");
    reveal_strlit("-crf");
    reveal_strlit("-pix_fmt");
    reveal_strlit("yuv420p");
    reveal_strlit("-c:a");
    reveal_strlit("aac");
    reveal_strlit("-b:a");
    reveal_strlit("192k");
    reveal_strlit("-movflags");
    reveal_strlit("+faststart");
    assert("-y"@[1] != "-i"@[1]);
    assert("-v"@[1] != "-i"@[1]);
    assert("-r"@[1] != "-i"@[1]);
    assert("-t"@[1] != "-i"@[1]);
    assert("30"@[0] != "-i"@[0]);
    assert("60"@[0] != "-i"@[0]);
    assert("20"@[0] != "-i"@[0]);
    assert forall|note: bool, cover: bool| #[trigger] graph::video_graph_of(note, cover)
        != "-i"@ by {
        lemma_graph_landmarks(note, cover);
    }
}

/// The encoder reads the layers in the order that the graphs count them in:
/// label 0, disc 1, audio 2, then the cover if there is one, and the shine last.
pub proof fn law_inputs_in_order(
    label: Seq<char>,
    disc: Seq<char>,
    audio: Seq<char>,
    cover: Option<Seq<char>>,
    note: bool,
    out: Seq<char>,
)
    ensures
        inputs_of(encode_args_of(label, disc, audio, cover, note, out)) == match cover {
            Some(c) => seq![label, disc, audio, c, "assets/shine.png"@],
            None => seq![label, disc, audio, "assets/shine.png"@],
        },
{
    lemma_not_input_flags();
    let shine = "assets/shine.png"@;
    let last = seq![out];
    let tail = encode_tail(out).drop_last();
    let after = encode_middle(note, cover is Some) + encode_cut(note) + tail;
    let plain_end = after + last;
    assert forall|i: int| 0 <= i < after.len() implies #[trigger] after[i] != "-i"@ by {
        let m = encode_middle(note, cover is Some);
        let c = encode_cut(note);
        if i < m.len() {
            assert(after[i] == m[i]);
        } else if i < m.len() + c.len() {
            assert(after[i] == c[i - m.len()]);
        } else {
            assert(after[i] == tail[i - m.len() - c.len()]);
        }
    }
    lemma_plain(after, last);
    assert(inputs_of(last) == Seq::<Seq<char>>::empty());
    lemma_looped(shine, plain_end);
    let behind = looped_of(shine) + plain_end;
    let from_cover = match cover {
        Some(c) => looped_of(c) + behind,
        None => behind,
    };
    if let Some(c) = cover {
        lemma_looped(c, behind);
    }
    let from_audio = seq!["-i"@, audio] + from_cover;
    lemma_input(audio, from_cover);
    let from_disc = looped_of(disc) + from_audio;
    lemma_looped(disc, from_audio);
    let from_label = looped_of(label) + from_disc;
    lemma_looped(label, from_disc);
    lemma_plain(encode_head(), from_label);
    let all = encode_args_of(label, disc, audio, cover, note, out);
    assert(encode_tail(out) =~= tail + last);
    assert(all =~= encode_head() + from_label);
    assert(inputs_of(all) =~= match cover {
        Some(c) => seq![label, disc, audio, c, shine],
        None => seq![label, disc, audio, shine],
    });
}

/// Tells whether `part` stands in `s` from position `i` on.
pub open spec fn stands_at(s: Seq<char>, part: Seq<char>, i: int) -> bool {
    0 <= i && i + part.len() <= s.len() && s.subrange(i, i + part.len()) == part
}

/// The input that a graph takes the shine from.
pub open spec fn shine_input(cover: bool) -> Seq<char> {
    if cover {
        "[4:v]"@
    } else {
        "[3:v]"@
    }
}

/// What sets the size of the frame that a graph composes.
pub open spec fn frame_text(note: bool, cover: bool) -> Seq<char> {
    match (note, cover) {
        (true, true) => "crop=512:512"@,
        (true, false) => "s=512x512"@,
        (false, true) => "crop=848:848"@,
        (false, false) => "s=848x848"@,
    }
}

/// Where the landmarks of a video graph stand.
proof fn lemma_graph_landmarks(note: bool, cover: bool)
    ensures
        graph::video_graph_of(note, cover).len() > 2,
        exists|i: int|
            #[trigger] stands_at(graph::video_graph_of(note, cover), shine_input(cover), i),
        exists|i: int|
            #[trigger] stands_at(graph::video_graph_of(note, cover), frame_text(note, cover), i),
{
    reveal_strlit("[4:v]");
    reveal_strlit("[3:v]");
    let g = graph::video_graph_of(note, cover);
    match (note, cover) {
        (true, true) => {
            reveal_strlit("crop=512:512");
            reveal_strlit(
                "[3:v]scale=512:512:force_original_aspect_ratio=increase,crop=512:512,boxblur=20:1,eq=brightness=-0.18[bg];[1:v]scale=512:512[d];[0:v]scale=170:170[l];[d][l]overlay=(W-w)/2:(H-h)/2[rec];[rec]rotate=a='2*PI*t/3':c=none[spun];[4:v]scale=512:512[shine];[bg][spun]overlay=0:0[disc];[disc][shine]overlay=0:0[outv]",
            );
            assert(g.subrange(223, 228) =~= "[4:v]"@);
            assert(stands_at(g, shine_input(cover), 223));
            assert(g.subrange(56, 68) =~= "crop=512:512"@);
            assert(stands_at(g, frame_text(note, cover), 56));
        },
        (true, false) => {
            reveal_strlit("s=512x512");
            reveal_strlit(
                "color=c=black:s=512x512:r=30[bg];[1:v]scale=512:512[d];[0:v]scale=170:170[l];[d][l]overlay=(W-w)/2:(H-h)/2[rec];[rec]rotate=a='2*PI*t/3':c=none[spun];[3:v]scale=512:512[shine];[bg][spun]overlay=0:0[disc];[disc][shine]overlay=0:0[outv]",
            );
            assert(g.subrange(150, 155) =~= "[3:v]"@);
            assert(stands_at(g, shine_input(cover), 150));
            assert(g.subrange(14, 23) =~= "s=512x512"@);
            assert(stands_at(g, frame_text(note, cover), 14));
        },
        (false, true) => {
            reveal_strlit("crop=848:848");
            reveal_strlit(
                "[3:v]scale=848:848:force_original_aspect_ratio=increase,crop=848:848,boxblur=30:1,eq=brightness=-0.18[bg];[1:v][0:v]overlay=(W-w)/2:(H-h)/2[rec];[rec]rotate=a='2*PI*t/3':c=none[spun];[bg][spun]overlay=3:3[disc];[disc][4:v]overlay=3:3[outv]",
            );
            assert(g.subrange(217, 222) =~= "[4:v]"@);
            assert(stands_at(g, shine_input(cover), 217));
            assert(g.subrange(56, 68) =~= "crop=848:848"@);
            assert(stands_at(g, frame_text(note, cover), 56));
        },
        (false, false) => {
            reveal_strlit("s=848x848");
            reveal_strlit(
                "color=c=0x141018:s=848x848:r=30[bg];[1:v][0:v]overlay=(W-w)/2:(H-h)/2[rec];[rec]rotate=a='2*PI*t/3':c=none[spun];[bg][spun]overlay=3:3[disc];[disc][3:v]overlay=3:3[outv]",
            );
            assert(g.subrange(147, 152) =~= "[3:v]"@);
            assert(stands_at(g, shine_input(cover), 147));
            assert(g.subrange(17, 26) =~= "s=848x848"@);
            assert(stands_at(g, frame_text(note, cover), 17));
        },
    }
}

/// The graph takes the shine from the last input: number 4 behind a cover, and
/// number 3 without one.
pub proof fn law_graph_takes_shine_last(note: bool, cover: bool)
    ensures
        exists|i: int|
            #[trigger] stands_at(graph::video_graph_of(note, cover), shine_input(cover), i),
{
    lemma_graph_landmarks(note, cover);
}

/// A note is composed in a square of 512 pixels, any other video in one of 848.
pub proof fn law_frame_size(note: bool, cover: bool)
    ensures
        exists|i: int|
            #[trigger] stands_at(graph::video_graph_of(note, cover), frame_text(note, cover), i),
{
    lemma_graph_landmarks(note, cover);
}

/// Tells whether `note` cuts to a minute at argument `i`, where `full` goes on
/// with what `note` has behind the cut.
pub open spec fn cut_at(note: Seq<Seq<char>>, full: Seq<Seq<char>>, i: int) -> bool {
    &&& 0 <= i <= full.len()
    &&& note.len() == full.len() + 2
    &&& note.subrange(i, i + 2) == seq!["-t"@, "60"@]
    &&& note.skip(i + 2) == full.skip(i)
}

/// The command line of a note has two arguments more than that of a full video:
/// the cut to a minute, right in front of the same output options.
pub proof fn law_note_is_cut(
    label: Seq<char>,
    disc: Seq<char>,
    audio: Seq<char>,
    cover: Option<Seq<char>>,
    out: Seq<char>,
)
    ensures
        exists|i: int|
            #[trigger] cut_at(
                encode_args_of(label, disc, audio, cover, true, out),
                encode_args_of(label, disc, audio, cover, false, out),
                i,
            ),
{
    let note = encode_args_of(label, disc, audio, cover, true, out);
    let full = encode_args_of(label, disc, audio, cover, false, out);
    let i = (encode_head() + input_args_of(label, disc, audio, cover)).len() as int + 9;
    assert(note.subrange(i, i + 2) =~= seq!["-t"@, "60"@]);
    assert(note.skip(i + 2) =~= encode_tail(out));
    assert(full.skip(i) =~= encode_tail(out));
    assert(cut_at(note, full, i));
}

/// Arguments that stand by themselves.
pub open spec fn is_switch(arg: Seq<char>) -> bool {
    arg == "-y"@ || arg == "-nostats"@ || arg == "-shortest"@
}

/// The program reads `args` from argument `k` on as `settings` from setting `j` on:
/// a switch stands by itself, and any other argument takes the next one for its
/// value, whatever that is.
pub open spec fn reads_as(
    args: Seq<Seq<char>>,
    k: int,
    settings: Seq<(Seq<char>, Seq<char>)>,
    j: int,
) -> bool
    decreases args.len() - k,
{
    if k >= args.len() {
        k == args.len() && j == settings.len()
    } else if is_switch(args[k]) {
        &&& j < settings.len()
        &&& settings[j] == (args[k], ""@)
        &&& reads_as(args, k + 1, settings, j + 1)
    } else {
        &&& j < settings.len()
        &&& k + 1 < args.len()
        &&& settings[j] == (args[k], args[k + 1])
        &&& reads_as(args, k + 2, settings, j + 1)
    }
}

/// The program run with `args` works under `settings`, in this order and no others,
/// and ends with the file `file`.
pub open spec fn works_on(
    args: Seq<Seq<char>>,
    settings: Seq<(Seq<char>, Seq<char>)>,
    file: Seq<char>,
) -> bool {
    args.len() > 0 && args.last() == file && reads_as(args.drop_last(), 0, settings, 0)
}

/// Which of the arguments are switches.
proof fn lemma_switches()
    ensures
        is_switch("-y"@),
        is_switch("-nostats"@),
        is_switch("-shortest"@),
        !is_switch("-v"@),
        !is_switch("-i"@),
        !is_switch("-f"@),
        !is_switch("-vf"@),
        !is_switch("-frames:v"@),
        !is_switch("-update"@),
        !is_switch("-filter_complex"@),
        !is_switch("-map"@),
        !is_switch("-loop"@),
        !is_switch("-progress"@),
        !is_switch("-r"@),
        !is_switch("-t"@),
        !is_switch("-c:v"@),
        !is_switch("-preset"@),
        !is_switch("-crf"@),
        !is_switch("-pix_fmt"@),
        !is_switch("-c:a"@),
        !is_switch("-b:a"@),
        !is_switch("-movflags"@),
        !is_switch("-show_entries"@),
        !is_switch("-of"@),
        !is_switch("-select_streams"@),
{
    reveal_strlit("-y");
    reveal_strlit("-nostats");
    reveal_strlit("-shortest");
    reveal_strlit("-v");
    reveal_strlit("-i");
    reveal_strlit("-f");
    reveal_strlit("-vf");
    reveal_strlit("-frames:v");
    reveal_strlit("-update");
    reveal_strlit("-filter_complex");
    reveal_strlit("-map");
    reveal_strlit("-loop");
    reveal_strlit("-progress");
    reveal_strlit("-r");
    reveal_strlit("-t");
    reveal_strlit("-c:v");
    reveal_strlit("-preset");
    reveal_strlit("-crf");
    reveal_strlit("-pix_fmt");
    reveal_strlit("-c:a");
    reveal_strlit("-b:a");
    reveal_strlit("-movflags");
    reveal_strlit("-show_entries");
    reveal_strlit("-of");
    reveal_strlit("-select_streams");
    assert("-v"@[1] != "-y"@[1]);
    assert("-i"@[1] != "-y"@[1]);
    assert("-f"@[1] != "-y"@[1]);
    assert("-frames:v"@[1] != "-shortest"@[1]);
    assert("-progress"@[1] != "-shortest"@[1]);
    assert("-r"@[1] != "-y"@[1]);
    assert("-t"@[1] != "-y"@[1]);
    assert("-pix_fmt"@[1] != "-nostats"@[1]);
    assert("-movflags"@[1] != "-shortest"@[1]);
    assert("-show_entries"@.len() == 13 && "-select_streams"@.len() == 15);
    assert("-nostats"@.len() == 8 && "-shortest"@.len() == 9);
}

/// One image is read, run through the filter, and written as one picture.
pub proof fn law_still_settings(input: Seq<char>, filter: Seq<char>, out: Seq<char>)
    ensures
        works_on(
            still_args_of(input, filter, out),
            seq![
                ("-y"@, ""@),
                ("-v"@, "error"@),
                ("-i"@, input),
                ("-vf"@, filter),
                ("-frames:v"@, "1"@),
                ("-update"@, "1"@),
            ],
            out,
        ),
{
    lemma_switches();
    reveal_with_fuel(reads_as, 12);
}

/// The filter draws one picture over a generated source.
pub proof fn law_drawn_settings(source: Seq<char>, filter: Seq<char>, out: Seq<char>)
    ensures
        works_on(
            drawn_args_of(source, filter, out),
            seq![
                ("-y"@, ""@),
                ("-v"@, "error"@),
                ("-f"@, "lavfi"@),
                ("-i"@, source),
                ("-vf"@, filter),
                ("-frames:v"@, "1"@),
            ],
            out,
        ),
{
    lemma_switches();
    reveal_with_fuel(reads_as, 12);
}

/// A picture is generated on black, in the size that is asked for.
pub proof fn law_gen_png_settings(size: Seq<char>, filter: Seq<char>, out: Seq<char>)
    ensures
        works_on(
            gen_png_of(size, filter, out),
            seq![
                ("-y"@, ""@),
                ("-v"@, "error"@),
                ("-f"@, "lavfi"@),
                ("-i"@, "color=c=black:s="@ + size),
                ("-vf"@, filter),
                ("-frames:v"@, "1"@),
            ],
            out,
        ),
{
    reveal_strlit("color=c=");
    reveal_strlit("black");
    reveal_strlit(":s=");
    reveal_strlit("color=c=black:s=");
    assert(color_source_of("black"@, size) =~= "color=c=black:s="@ + size);
    lemma_switches();
    reveal_with_fuel(reads_as, 12);
}

/// The first picture of the cover is written.
pub proof fn law_cover_settings(cover: Seq<char>, out: Seq<char>)
    ensures
        works_on(
            cover_args_of(cover, out),
            seq![
                ("-y"@, ""@),
                ("-v"@, "error"@),
                ("-i"@, cover),
                ("-frames:v"@, "1"@),
            ],
            out,
        ),
{
    lemma_switches();
    reveal_with_fuel(reads_as, 12);
}

/// The label of a reel is a picture of which nothing is seen.
pub proof fn law_placeholder_settings(label: Seq<char>)
    ensures
        works_on(
            placeholder_args_of(label),
            seq![
                ("-y"@, ""@),
                ("-v"@, "error"@),
                ("-f"@, "lavfi"@),
                ("-i"@, "color=c=black:s=16x16"@),
                ("-vf"@, "format=rgba,geq=r=0:g=0:b=0:a=0"@),
                ("-frames:v"@, "1"@),
                ("-update"@, "1"@),
            ],
            label,
        ),
{
    lemma_switches();
    reveal_with_fuel(reads_as, 12);
}

/// The caption is baked onto the picture of the reel.
pub proof fn law_bake_settings(graph: Seq<char>, out: Seq<char>)
    ensures
        works_on(
            bake_args_of(graph, out),
            seq![
                ("-y"@, ""@),
                ("-v"@, "error"@),
                ("-i"@, "assets/reel_base.png"@),
                ("-filter_complex"@, graph),
                ("-map"@, "[out]"@),
                ("-frames:v"@, "1"@),
                ("-update"@, "1"@),
            ],
            out,
        ),
{
    lemma_switches();
    reveal_with_fuel(reads_as, 12);
}

/// A label with a caption is drawn in a square of 280 pixels.
pub proof fn law_text_label_settings(graph: Seq<char>, label: Seq<char>)
    ensures
        works_on(
            text_label_args_of(graph, label),
            seq![
                ("-y"@, ""@),
                ("-v"@, "error"@),
                ("-f"@, "lavfi"@),
                ("-i"@, "color=c=black:s=280x280"@),
                ("-filter_complex"@, graph),
                ("-map"@, "[out]"@),
                ("-frames:v"@, "1"@),
            ],
            label,
        ),
{
    lemma_switches();
    reveal_with_fuel(reads_as, 12);
}

/// The prober is asked for the duration of the audio, bare.
pub proof fn law_duration_settings(audio: Seq<char>)
    ensures
        works_on(
            duration_args_of(audio),
            seq![
                ("-v"@, "error"@),
                ("-show_entries"@, "format=duration"@),
                ("-of"@, "default=nk=1:nw=1"@),
            ],
            audio,
        ),
{
    lemma_switches();
    reveal_with_fuel(reads_as, 12);
}

/// The prober is asked for the size of the first video stream and for the duration,
/// bare and in this order.
pub proof fn law_probe_settings(video: Seq<char>)
    ensures
        works_on(
            probe_args_of(video),
            seq![
                ("-v"@, "error"@),
                ("-select_streams"@, "v:0"@),
                ("-show_entries"@, "stream=width,height"@),
                ("-show_entries"@, "format=duration"@),
                ("-of"@, "default=noprint_wrappers=1:nokey=1"@),
            ],
            video,
        ),
{
    lemma_switches();
    reveal_with_fuel(reads_as, 12);
}

/// Any video becomes a note: at most 60 seconds, cropped to a square around its
/// center, 512 pixels wide and high. The file to write goes behind.
pub proof fn law_note_settings(input: Seq<char>, out: Seq<char>)
    ensures
        works_on(
            note_args_of(input).push(out),
            seq![
                ("-y"@, ""@),
                ("-i"@, input),
                ("-t"@, "60"@),
                ("-vf"@, "crop='min(iw,ih)':'min(iw,ih)',scale=512:512,setsar=1"@),
                ("-c:v"@, "libx264"@),
                ("-pix_fmt"@, "yuv420p"@),
                ("-c:a"@, "aac"@),
                ("-b:a"@, "128k"@),
                ("-movflags"@, "+faststart"@),
            ],
            out,
        ),
{
    lemma_switches();
    reveal_with_fuel(reads_as, 16);
}

/// A label with a cover is made of the cover, the mask, and two pictures in the
/// color of the label: the sticker and its hole.
pub proof fn law_cover_label_settings(cover: Seq<char>, rgb: Rgb, label: Seq<char>)
    ensures
        works_on(
            cover_label_args_of(cover, rgb, label),
            seq![
                ("-y"@, ""@),
                ("-v"@, "error"@),
                ("-i"@, cover),
                ("-i"@, "assets/mask.png"@),
                ("-f"@, "lavfi"@),
                ("-i"@, "color=c="@ + ("0x"@ + (number::hex_byte(rgb.0) + number::hex_byte(rgb.1) + number::hex_byte(rgb.2))) + ":s="@ + "280x280"@),
                ("-f"@, "lavfi"@),
                ("-i"@, "color=c="@ + ("0x"@ + (number::hex_byte(rgb.0) + number::hex_byte(rgb.1) + number::hex_byte(rgb.2))) + ":s="@ + "24x24"@),
                ("-filter_complex"@, graph::GRAPH_COVER_LABEL@),
                ("-map"@, "[out]"@),
                ("-frames:v"@, "1"@),
            ],
            label,
        ),
{
    lemma_switches();
    reveal_with_fuel(reads_as, 16);
}

/// The encoder makes a note with a cover: the graph of such a note, sound from the
/// third input, and at most 60 seconds.
pub proof fn law_note_with_cover_settings(
    label: Seq<char>,
    disc: Seq<char>,
    audio: Seq<char>,
    cover: Seq<char>,
    out: Seq<char>,
)
    ensures
        works_on(
            encode_args_of(label, disc, audio, Some(cover), true, out),
            seq![
                ("-y"@, ""@),
                ("-v"@, "error"@),
                ("-nostats"@, ""@),
                ("-progress"@, "pipe:1"@),
                ("-loop"@, "1"@),
                ("-i"@, label),
                ("-loop"@, "1"@),
                ("-i"@, disc),
                ("-i"@, audio),
                ("-loop"@, "1"@),
                ("-i"@, cover),
                ("-loop"@, "1"@),
                ("-i"@, "assets/shine.png"@),
                ("-filter_complex"@, graph::GRAPH_NOTE_COVER@),
                ("-map"@, "[outv]"@),
                ("-map"@, "2:a"@),
                ("-r"@, "30"@),
                ("-shortest"@, ""@),
                ("-t"@, "60"@),
                ("-c:v"@, "libx264"@),
                ("-preset"@, "veryfast"@),
                ("-crf"@, "20"@),
                ("-pix_fmt"@, "yuv420p"@),
                ("-c:a"@, "aac"@),
                ("-b:a"@, "192k"@),
                ("-movflags"@, "+faststart"@),
            ],
            out,
        ),
{
    lemma_switches();
    reveal_with_fuel(reads_as, 30);
}

/// The encoder makes a note without a cover: the graph of such a note, sound from
/// the third input, and at most 60 seconds.
pub proof fn law_note_without_cover_settings(
    label: Seq<char>,
    disc: Seq<char>,
    audio: Seq<char>,
    out: Seq<char>,
)
    ensures
        works_on(
            encode_args_of(label, disc, audio, None, true, out),
            seq![
                ("-y"@, ""@),
                ("-v"@, "error"@),
                ("-nostats"@, ""@),
                ("-progress"@, "pipe:1"@),
                ("-loop"@, "1"@),
                ("-i"@, label),
                ("-loop"@, "1"@),
                ("-i"@, disc),
                ("-i"@, audio),
                ("-loop"@, "1"@),
                ("-i"@, "assets/shine.png"@),
                ("-filter_complex"@, graph::GRAPH_NOTE_SOLID@),
                ("-map"@, "[outv]"@),
                ("-map"@, "2:a"@),
                ("-r"@, "30"@),
                ("-shortest"@, ""@),
                ("-t"@, "60"@),
                ("-c:v"@, "libx264"@),
                ("-preset"@, "veryfast"@),
                ("-crf"@, "20"@),
                ("-pix_fmt"@, "yuv420p"@),
                ("-c:a"@, "aac"@),
                ("-b:a"@, "192k"@),
                ("-movflags"@, "+faststart"@),
            ],
            out,
        ),
{
    lemma_switches();
    reveal_with_fuel(reads_as, 30);
}

/// The encoder makes a full video with a cover: the graph of such a video, sound from
/// the third input, and as long as the sound.
pub proof fn law_video_with_cover_settings(
    label: Seq<char>,
    disc: Seq<char>,
    audio: Seq<char>,
    cover: Seq<char>,
    out: Seq<char>,
)
    ensures
        works_on(
            encode_args_of(label, disc, audio, Some(cover), false, out),
            seq![
                ("-y"@, ""@),
                ("-v"@, "error"@),
                ("-nostats"@, ""@),
                ("-progress"@, "pipe:1"@),
                ("-loop"@, "1"@),
                ("-i"@, label),
                ("-loop"@, "1"@),
                ("-i"@, disc),
                ("-i"@, audio),
                ("-loop"@, "1"@),
                ("-i"@, cover),
                ("-loop"@, "1"@),
                ("-i"@, "assets/shine.png"@),
                ("-filter_complex"@, graph::GRAPH_COVER@),
                ("-map"@, "[outv]"@),
                ("-map"@, "2:a"@),
                ("-r"@, "30"@),
                ("-shortest"@, ""@),
                ("-c:v"@, "libx264"@),
                ("-preset"@, "veryfast"@),
                ("-crf"@, "20"@),
                ("-pix_fmt"@, "yuv420p"@),
                ("-c:a"@, "aac"@),
                ("-b:a"@, "192k"@),
                ("-movflags"@, "+faststart"@),
            ],
            out,
        ),
{
    lemma_switches();
    reveal_with_fuel(reads_as, 30);
}

/// The encoder makes a full video without a cover: the graph of such a video, sound
/// from the third input, and as long as the sound.
pub proof fn law_video_without_cover_settings(
    label: Seq<char>,
    disc: Seq<char>,
    audio: Seq<char>,
    out: Seq<char>,
)
    ensures
        works_on(
            encode_args_of(label, disc, audio, None, false, out),
            seq![
                ("-y"@, ""@),
                ("-v"@, "error"@),
                ("-nostats"@, ""@),
                ("-progress"@, "pipe:1"@),
                ("-loop"@, "1"@),
                ("-i"@, label),
                ("-loop"@, "1"@),
                ("-i"@, disc),
                ("-i"@, audio),
                ("-loop"@, "1"@),
                ("-i"@, "assets/shine.png"@),
                ("-filter_complex"@, graph::GRAPH_SOLID@),
                ("-map"@, "[outv]"@),
                ("-map"@, "2:a"@),
                ("-r"@, "30"@),
                ("-shortest"@, ""@),
                ("-c:v"@, "libx264"@),
                ("-preset"@, "veryfast"@),
                ("-crf"@, "20"@),
                ("-pix_fmt"@, "yuv420p"@),
                ("-c:a"@, "aac"@),
                ("-b:a"@, "192k"@),
                ("-movflags"@, "+faststart"@),
            ],
            out,
        ),
{
    lemma_switches();
    reveal_with_fuel(reads_as, 30);
}

/// Where the graph stands in the encoder's command line, with or without a cover.
pub open spec fn graph_place(cover: bool) -> int {
    if cover {
        25
    } else {
        21
    }
}

/// The graph that the encoder is given is the one for what it makes: that of a note
/// sets a frame of 512 pixels, that of any other video one of 848, and the shine is
/// taken from the last input.
pub proof fn law_encoder_composes_what_is_asked(
    label: Seq<char>,
    disc: Seq<char>,
    audio: Seq<char>,
    cover: Option<Seq<char>>,
    note: bool,
    out: Seq<char>,
)
    ensures
        ({
            let args = encode_args_of(label, disc, audio, cover, note, out);
            let p = graph_place(cover is Some);
            &&& args[p - 1] == "-filter_complex"@
            &&& args[p] == (if note && cover is Some {
                graph::GRAPH_NOTE_COVER@
            } else if note {
                graph::GRAPH_NOTE_SOLID@
            } else if cover is Some {
                graph::GRAPH_COVER@
            } else {
                graph::GRAPH_SOLID@
            })
            &&& note && cover is Some ==> exists|i: int|
                #[trigger] stands_at(args[p], "crop=512:512"@, i)
            &&& note && cover is None ==> exists|i: int|
                #[trigger] stands_at(args[p], "s=512x512"@, i)
            &&& !note && cover is Some ==> exists|i: int|
                #[trigger] stands_at(args[p], "crop=848:848"@, i)
            &&& !note && cover is None ==> exists|i: int|
                #[trigger] stands_at(args[p], "s=848x848"@, i)
            &&& cover is Some ==> exists|i: int| #[trigger] stands_at(args[p], "[4:v]"@, i)
            &&& cover is None ==> exists|i: int| #[trigger] stands_at(args[p], "[3:v]"@, i)
        }),
{
    lemma_graph_landmarks(note, cover is Some);
    let args = encode_args_of(label, disc, audio, cover, note, out);
    let p = graph_place(cover is Some);
    let g = graph::video_graph_of(note, cover is Some);
    match cover {
        Some(_) => {
            assert(args[24] == "-filter_complex"@);
            assert(args[25] == g);
        },
        None => {
            assert(args[20] == "-filter_complex"@);
            assert(args[21] == g);
        },
    }
    let i = choose|i: int| #[trigger] stands_at(g, shine_input(cover is Some), i);
    let j = choose|j: int| #[trigger] stands_at(g, frame_text(note, cover is Some), j);
    if cover is Some {
        assert(stands_at(args[p], "[4:v]"@, i));
        if note {
            assert(stands_at(args[p], "crop=512:512"@, j));
        } else {
            assert(stands_at(args[p], "crop=848:848"@, j));
        }
    } else {
        assert(stands_at(args[p], "[3:v]"@, i));
        if note {
            assert(stands_at(args[p], "s=512x512"@, j));
        } else {
            assert(stands_at(args[p], "s=848x848"@, j));
        }
    }
}

/// The command that tints the disc runs the gray disc through the filter of its color
/// and writes the file that is named.
pub proof fn law_tint_settings(rgb: Rgb, out: Seq<char>)
    ensures
        works_on(
            tint_args_of(rgb, out),
            seq![
                ("-y"@, ""@),
                ("-v"@, "error"@),
                ("-i"@, "assets/disc_base.png"@),
                ("-vf"@, color::tint_filter_of(rgb)),
                ("-frames:v"@, "1"@),
                ("-update"@, "1"@),
            ],
            out,
        ),
{
    law_still_settings("assets/disc_base.png"@, color::tint_filter_of(rgb), out);
}

/// Whatever the encoder is told comes out as the laws have it: the layers, the mode
/// and the file as they were given.
pub proof fn law_encoder_is_told(layers: &Layers, note: bool, out: &str, r: Vec<String>)
    requires
        call_ensures(encode_args, (layers, note, out), r),
    ensures
        layers.cover is Some ==> text::texts(r@) == encode_args_of(
            layers.label@,
            layers.disc@,
            layers.audio@,
            Some(layers.cover->0@),
            note,
            out@,
        ),
        layers.cover is None ==> text::texts(r@) == encode_args_of(
            layers.label@,
            layers.disc@,
            layers.audio@,
            None,
            note,
            out@,
        ),
{
}

/// Whatever is told to tint a disc, and to make a label of a cover, has the color that
/// was given, part by part.
pub proof fn law_colors_are_told(
    rgb: Rgb,
    file: &str,
    cover: &str,
    disc: Vec<String>,
    label: Vec<String>,
)
    requires
        call_ensures(tint_args, (rgb, file), disc),
        call_ensures(cover_label_args, (cover, rgb, file), label),
    ensures
        text::texts(disc@) == still_args_of(
            "assets/disc_base.png"@,
            color::tint_filter_of(rgb),
            file@,
        ),
        text::texts(label@) == cover_label_args_of(cover@, rgb, file@),
{
}

/// Whatever the prober is asked, and whatever is told to make a note, speaks of the file
/// that was given.
pub proof fn law_files_are_told(
    file: &str,
    duration: Vec<String>,
    probe: Vec<String>,
    note: Vec<String>,
)
    requires
        call_ensures(duration_args, (file,), duration),
        call_ensures(probe_args, (file,), probe),
        call_ensures(note_args, (file,), note),
    ensures
        text::texts(duration@) == duration_args_of(file@),
        text::texts(probe@) == probe_args_of(file@),
        text::texts(note@) == note_args_of(file@),
{
}

} // verus!
