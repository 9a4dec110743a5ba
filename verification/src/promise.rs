//! What a render does for what was asked: which file each step reads and writes, and
//! with which colors and which text.

use vstd::prelude::*;

use crate::caption;
use crate::color;
use crate::command;
use crate::form;
use crate::graph;
use crate::number;
use crate::quoting;
use crate::render;
use crate::render::{ActionView, DiscStage, RenderView, Stage};
use crate::text;

verus! {

/// What there is to do at each stage of a render: which program is run on which
/// files, and which file is looked for.
pub proof fn law_steps_of_a_render(r: RenderView)
    ensures
        r.stage is Cover ==> render::action_of(r) == ActionView::Run(
            command::cover_args_of(r.paths.cover, r.paths.cover_png),
        ),
        r.stage is ReelBase ==> render::action_of(r) == ActionView::Look("assets/reel_base.png"@),
        r.stage is Placeholder ==> render::action_of(r) == ActionView::Run(
            command::placeholder_args_of(r.paths.label),
        ),
        r.stage == Stage::Disc(DiscStage::Cached) ==> render::action_of(r) == ActionView::Look(
            r.disc,
        ),
        r.stage == Stage::Disc(DiscStage::Base) ==> render::action_of(r) == ActionView::Look(
            "assets/disc_base.png"@,
        ),
        r.stage == Stage::Disc(DiscStage::Tint) ==> render::action_of(r) == ActionView::Run(
            command::tint_args_of(r.request.disc, r.disc),
        ),
        r.stage == Stage::Disc(DiscStage::Check) ==> render::action_of(r) == ActionView::Look(
            r.disc,
        ),
        r.stage is Refused ==> render::action_of(r) == ActionView::Refuse(
            render::refusal_of(r.stage->Refused_0),
        ),
        r.stage is Ready ==> render::action_of(r) is Encode,
        r.stage is Label || r.stage is Bake ==> render::action_of(r) is Run,
{
}

/// The encoder is given the label, the reel with its caption or else the disc, the
/// audio, the cover if it is used, and the mode that was asked for; it writes the
/// video of the job.
pub proof fn law_video_is_made_of_its_layers(r: RenderView)
    requires
        r.stage is Ready,
    ensures
        r.request.reel && r.request.cover ==> render::action_of(r) == ActionView::Encode(
            command::encode_args_of(
                r.paths.label,
                r.paths.reel_text,
                r.paths.audio,
                Some(r.paths.cover_png),
                r.request.note,
                r.paths.out,
            ),
        ),
        r.request.reel && !r.request.cover ==> render::action_of(r) == ActionView::Encode(
            command::encode_args_of(
                r.paths.label,
                r.paths.reel_text,
                r.paths.audio,
                None,
                r.request.note,
                r.paths.out,
            ),
        ),
        !r.request.reel && r.request.cover ==> render::action_of(r) == ActionView::Encode(
            command::encode_args_of(
                r.paths.label,
                r.disc,
                r.paths.audio,
                Some(r.paths.cover_png),
                r.request.note,
                r.paths.out,
            ),
        ),
        !r.request.reel && !r.request.cover ==> render::action_of(r) == ActionView::Encode(
            command::encode_args_of(
                r.paths.label,
                r.disc,
                r.paths.audio,
                None,
                r.request.note,
                r.paths.out,
            ),
        ),
{
}

proof fn lemma_composed(
    label: Seq<char>,
    disc: Seq<char>,
    audio: Seq<char>,
    cover: Option<Seq<char>>,
    note: bool,
    out: Seq<char>,
)
    ensures
        ({
            let args = command::encode_args_of(label, disc, audio, cover, note, out);
            let p = command::graph_place(cover is Some);
            &&& args[p - 1] == "-filter_complex"@
            &&& args[p] == (match (note, cover is Some) {
                (true, true) => graph::GRAPH_NOTE_COVER@,
                (true, false) => graph::GRAPH_NOTE_SOLID@,
                (false, true) => graph::GRAPH_COVER@,
                (false, false) => graph::GRAPH_SOLID@,
            })
            &&& note && cover is None ==> quoting::stands_in(args[p], "s=512x512"@)
            &&& note && cover is Some ==> quoting::stands_in(args[p], "crop=512:512"@)
            &&& !note && cover is None ==> quoting::stands_in(args[p], "s=848x848"@)
            &&& !note && cover is Some ==> quoting::stands_in(args[p], "crop=848:848"@)
            &&& args.last() == out
        }),
{
    command::law_encoder_composes_what_is_asked(label, disc, audio, cover, note, out);
    let args = command::encode_args_of(label, disc, audio, cover, note, out);
    assert(args.last() == command::encode_tail(out).last());
}

/// What a render composes is what was asked for: a note of 512 pixels or a full video
/// of 848, over the cover or over one color.
pub proof fn law_video_is_composed_as_asked(r: RenderView)
    requires
        r.stage is Ready,
    ensures
        ({
            let args = render::action_of(r)->Encode_0;
            let p = command::graph_place(r.request.cover);
            &&& args[p - 1] == "-filter_complex"@
            &&& args[p] == (match (r.request.note, r.request.cover) {
                (true, true) => graph::GRAPH_NOTE_COVER@,
                (true, false) => graph::GRAPH_NOTE_SOLID@,
                (false, true) => graph::GRAPH_COVER@,
                (false, false) => graph::GRAPH_SOLID@,
            })
            &&& r.request.note && !r.request.cover ==> quoting::stands_in(
                args[p],
                "s=512x512"@,
            )
            &&& r.request.note && r.request.cover ==> quoting::stands_in(
                args[p],
                "crop=512:512"@,
            )
            &&& !r.request.note && !r.request.cover ==> quoting::stands_in(
                args[p],
                "s=848x848"@,
            )
            &&& !r.request.note && r.request.cover ==> quoting::stands_in(
                args[p],
                "crop=848:848"@,
            )
            &&& args.last() == r.paths.out
        }),
{
    law_video_is_made_of_its_layers(r);
    let disc = if r.request.reel {
        r.paths.reel_text
    } else {
        r.disc
    };
    if r.request.cover {
        lemma_composed(
            r.paths.label,
            disc,
            r.paths.audio,
            Some(r.paths.cover_png),
            r.request.note,
            r.paths.out,
        );
    } else {
        lemma_composed(
            r.paths.label,
            disc,
            r.paths.audio,
            None,
            r.request.note,
            r.paths.out,
        );
    }
}

/// The disc of a record is tinted with the color that was asked for, red by red, green
/// by green and blue by blue, and kept under the name of that same color.
pub proof fn law_disc_has_the_color_that_was_asked_for(r: RenderView, sep: char)
    requires
        r.stage == Stage::Disc(DiscStage::Tint),
        r.disc == color::disc_path_of(r.request.disc, sep),
    ensures
        ({
            let (red, green, blue) = r.request.disc;
            let args = render::action_of(r)->Run_0;
            &&& render::action_of(r) is Run
            &&& args.len() == 12
            &&& args[3] == "-i"@
            &&& args[4] == "assets/disc_base.png"@
            &&& args[5] == "-vf"@
            &&& text::split_on(args[6], '\'') == seq![
                "geq=r="@,
                "clip("@ + number::decimal(red as nat) + seq!['*', 'r'] + "(X,Y)/140,0,255)"@,
                ":g="@,
                "clip("@ + number::decimal(green as nat) + seq!['*', 'g'] + "(X,Y)/140,0,255)"@,
                ":b="@,
                "clip("@ + number::decimal(blue as nat) + seq!['*', 'b'] + "(X,Y)/140,0,255)"@,
                ":a="@,
                "alpha(X,Y)"@,
                seq![],
            ]
            &&& args.last() == "work"@ + seq![sep] + "disc_"@ + number::hex_byte(red)
                + number::hex_byte(green) + number::hex_byte(blue) + ".png"@
        }),
{
    quoting::law_tint_scales_each_part(r.request.disc);
    color::law_disc_path_names_the_color(r.request.disc, sep);
}

/// The label of a record without a cover is a disc in the color that was asked for,
/// and the caption is on it: as a whole if it has at most ten characters, and one
/// character at a time if it has more.
pub proof fn law_label_has_the_color_that_was_asked_for(r: RenderView)
    requires
        r.stage is Label,
        !r.request.cover,
        text::free_of(r.request.caption, '\''),
        r.request.caption.len() > 10 ==> r.corners.len() == r.request.caption.len(),
    ensures
        ({
            let (red, green, blue) = r.request.label;
            let args = render::action_of(r)->Run_0;
            let disc = seq![
                number::decimal(red as nat),
                number::decimal(green as nat),
                number::decimal(blue as nat),
                "if(lte(hypot(X-140,Y-140),138),255,0)"@,
            ];
            &&& render::action_of(r) is Run
            &&& args.len() == 14
            &&& args[7] == "-filter_complex"@
            &&& quoting::colored_disc(red, green, blue).is_prefix_of(args[8])
            &&& r.request.caption.len() <= 10 ==> quoting::quotes(
                args[8],
                disc.push(r.request.caption),
            )
            &&& r.request.caption.len() > 10 ==> quoting::quotes(
                args[8],
                disc + quoting::letters(r.request.caption),
            )
            &&& args.last() == r.paths.label
        }),
{
    let (red, green, blue) = r.request.label;
    quoting::law_straight_text_is_quoted(r.request.caption, red, green, blue);
    if r.request.caption.len() > 10 {
        quoting::law_label_graph_quotes_its_text(
            r.request.caption,
            red,
            green,
            blue,
            r.corners,
        );
    }
    quoting::law_label_is_a_colored_disc(r.request.caption, red, green, blue, r.corners);
    let disc = quoting::colored_disc(red, green, blue);
    let center = graph::label_center_graph_of(r.request.caption, red, green, blue);
    assert(center.take(disc.len() as int) =~= disc);
}

/// The label of a record with a cover is made of the cover of the job, on a sticker and
/// with a hole in the color that was asked for.
pub proof fn law_cover_is_on_the_label(r: RenderView)
    requires
        r.stage is Label,
        r.request.cover,
    ensures
        ({
            let (red, green, blue) = r.request.label;
            let args = render::action_of(r)->Run_0;
            let shade = "0x"@ + number::hex_byte(red) + number::hex_byte(green) + number::hex_byte(
                blue,
            );
            &&& render::action_of(r) is Run
            &&& command::works_on(
                args,
                seq![
                    ("-y"@, ""@),
                    ("-v"@, "error"@),
                    ("-i"@, r.paths.cover_png),
                    ("-i"@, "assets/mask.png"@),
                    ("-f"@, "lavfi"@),
                    ("-i"@, "color=c="@ + shade + ":s="@ + "280x280"@),
                    ("-f"@, "lavfi"@),
                    ("-i"@, "color=c="@ + shade + ":s="@ + "24x24"@),
                    ("-filter_complex"@, graph::GRAPH_COVER_LABEL@),
                    ("-map"@, "[out]"@),
                    ("-frames:v"@, "1"@),
                ],
                r.paths.label,
            )
        }),
{
    command::law_cover_label_settings(r.paths.cover_png, r.request.label, r.paths.label);
    let (red, green, blue) = r.request.label;
    assert("0x"@ + number::hex_byte(red) + number::hex_byte(green) + number::hex_byte(blue) =~= "0x"@
        + (number::hex_byte(red) + number::hex_byte(green) + number::hex_byte(blue)));
}

/// The caption of a reel is baked onto its picture: on the rib if it has at most ten
/// characters, and along the rim, one character at a time, if it has more.
pub proof fn law_caption_is_on_the_reel(r: RenderView)
    requires
        r.stage is Bake,
        text::free_of(r.request.caption, '\''),
        r.request.caption.len() > 10 ==> r.corners.len() == r.request.caption.len(),
    ensures
        ({
            let args = render::action_of(r)->Run_0;
            &&& render::action_of(r) is Run
            &&& args.len() == 14
            &&& args[3] == "-i"@
            &&& args[4] == "assets/reel_base.png"@
            &&& args[5] == "-filter_complex"@
            &&& r.request.caption.len() <= 10 ==> quoting::quotes(
                args[6],
                seq![r.request.caption],
            ) && args[6] == graph::rib_graph_of(r.request.caption)
            &&& r.request.caption.len() > 10 ==> quoting::quotes(
                args[6],
                quoting::letters(r.request.caption),
            ) && args[6] == graph::rim_graph_of(r.request.caption, r.corners)
            &&& args.last() == r.paths.reel_text
        }),
{
    quoting::law_straight_text_is_quoted(r.request.caption, 0, 0, 0);
    if r.request.caption.len() > 10 {
        quoting::law_rim_graph_quotes_its_text(r.request.caption, r.corners);
    }
}

/// Each color of a form reaches its own part of what is asked for, and leaves the other
/// alone.
pub proof fn law_colors_of_the_form_are_seen(
    form: form::FormView,
    rgb: (u8, u8, u8),
    written: Seq<char>,
)
    ensures
        ({
            let data = vstd::utf8::encode_utf8(seq!['#'] + color::hex_color(rgb));
            &&& form::request_of(form::form_after(form, "disc_color"@, data), written).disc == rgb
            &&& form::request_of(form::form_after(form, "label_color"@, data), written).label
                == rgb
            &&& form::request_of(form::form_after(form, "disc_color"@, data), written).label
                == form::request_of(form, written).label
            &&& form::request_of(form::form_after(form, "label_color"@, data), written).disc
                == form::request_of(form, written).disc
        }),
{
    form::law_colors_reach_the_request(form, rgb, written);
}

/// A caption that the user wrote is on the record or the reel as it was written, as
/// long as it is fit to be; if none was written the date is.
pub proof fn law_caption_of_the_form_is_seen(
    form: form::FormView,
    s: Seq<char>,
    date: Seq<char>,
)
    requires
        s.len() > 0,
        caption::fit_for_drawtext(s),
    ensures
        ({
            let filled = form::form_after(form, "text"@, vstd::utf8::encode_utf8(s));
            let empty = form::form_after(form, "text"@, vstd::utf8::encode_utf8(seq![]));
            &&& form::request_of(filled, caption::caption_or_of(filled.caption, date)).caption == s
            &&& form::request_of(empty, caption::caption_or_of(empty.caption, date)).caption
                == date
        }),
{
    form::law_text_fields_change_their_own(form, s);
    caption::law_fit_caption_is_kept(s);
    text::law_text_survives_encoding(seq![]);
    caption::law_caption_is_cut_and_trimmed(seq![], seq![]);
    assert(Seq::<char>::empty() + Seq::<char>::empty() =~= Seq::<char>::empty());
    form::law_empty_caption_is_cleared(form);
}

} // verus!
