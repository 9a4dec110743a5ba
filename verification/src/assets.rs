//! The files that every render draws on: which there are, how a missing one is
//! made, and which of them may be looked at from outside.

use vstd::prelude::*;

use crate::color;
use crate::command;
use crate::graph;
use crate::number;
use crate::reply;
use crate::reply::{Refusal, Status};
use crate::text;

verus! {

/// The file by which a project folder is known.
pub const DISC_BASE: &'static str = "assets/disc_base.png";

/// The filter of the record's thumbnail.
pub const THUMB_TINT: &'static str =
    "geq=r='clip(46*r(X,Y)/140,0,255)':g='clip(46*g(X,Y)/140,0,255)':b='clip(52*b(X,Y)/140,0,255)':a='alpha(X,Y)',scale=170:170";

/// A file that is made at the start if it is missing.
#[derive(Debug, Clone, Copy, PartialEq, Eq, Structural)]
pub enum Asset {
    Shine,
    Mask,
    Font,
    ThumbVinyl,
    ThumbReel,
}

/// The assets in the order in which they are seen to.
pub open spec fn all_assets() -> Seq<Asset> {
    seq![Asset::Shine, Asset::Mask, Asset::Font, Asset::ThumbVinyl, Asset::ThumbReel]
}

/// The assets in the order in which they are seen to.
pub fn assets() -> (r: Vec<Asset>)
    ensures
        r@ == all_assets(),
{
    let mut r: Vec<Asset> = Vec::new();
    r.push(Asset::Shine);
    r.push(Asset::Mask);
    r.push(Asset::Font);
    r.push(Asset::ThumbVinyl);
    r.push(Asset::ThumbReel);
    r
}

/// Where an asset is kept.
pub open spec fn asset_path_of(asset: Asset) -> Seq<char> {
    match asset {
        Asset::Shine => "assets/shine.png"@,
        Asset::Mask => "assets/mask.png"@,
        Asset::Font => "assets/font.ttf"@,
        Asset::ThumbVinyl => "assets/thumb_vinyl.png"@,
        Asset::ThumbReel => "assets/thumb_reel.png"@,
    }
}

/// Where an asset is kept.
pub fn asset_path(asset: Asset) -> (r: &'static str)
    ensures
        r@ == asset_path_of(asset),
{
    match asset {
        Asset::Shine => "assets/shine.png",
        Asset::Mask => "assets/mask.png",
        Asset::Font => "assets/font.ttf",
        Asset::ThumbVinyl => "assets/thumb_vinyl.png",
        Asset::ThumbReel => "assets/thumb_reel.png",
    }
}

/// What is to be done about an asset.
#[derive(Debug)]
pub enum Remedy {
    /// It is there.
    Nothing,
    /// Run the encoder with these arguments.
    Run(Vec<String>),
    /// Copy the first of the system's fonts that can be copied.
    CopyFont,
}

/// What is to be done about an asset, as texts.
pub enum RemedyView {
    Nothing,
    Run(Seq<Seq<char>>),
    CopyFont,
}

impl View for Remedy {
    type V = RemedyView;

    open spec fn view(&self) -> RemedyView {
        match self {
            Remedy::Nothing => RemedyView::Nothing,
            Remedy::Run(args) => RemedyView::Run(text::texts(args@)),
            Remedy::CopyFont => RemedyView::CopyFont,
        }
    }
}

/// What is to be done about an asset: nothing if it is there.
pub open spec fn remedy_of(asset: Asset, present: bool) -> RemedyView {
    if present {
        RemedyView::Nothing
    } else {
        match asset {
            Asset::Shine => RemedyView::Run(
                command::gen_png_of("842x842"@, graph::SHINE_FILTER@, "assets/shine.png"@),
            ),
            Asset::Mask => RemedyView::Run(
                command::gen_png_of("280x280"@, graph::MASK_FILTER@, "assets/mask.png"@),
            ),
            Asset::Font => RemedyView::CopyFont,
            Asset::ThumbVinyl => RemedyView::Run(
                command::still_args_of(DISC_BASE@, THUMB_TINT@, "assets/thumb_vinyl.png"@),
            ),
            Asset::ThumbReel => RemedyView::Run(
                command::still_args_of(
                    "assets/reel_base.png"@,
                    "scale=170:170"@,
                    "assets/thumb_reel.png"@,
                ),
            ),
        }
    }
}

/// What is to be done about an asset: nothing if it is there.
pub fn ensure_asset(asset: Asset, present: bool) -> (r: Remedy)
    ensures
        r@ == remedy_of(asset, present),
{
    if present {
        return Remedy::Nothing;
    }
    match asset {
        Asset::Shine => Remedy::Run(
            command::gen_png("842x842", graph::SHINE_FILTER, "assets/shine.png"),
        ),
        Asset::Mask => Remedy::Run(
            command::gen_png("280x280", graph::MASK_FILTER, "assets/mask.png"),
        ),
        Asset::Font => Remedy::CopyFont,
        Asset::ThumbVinyl => Remedy::Run(
            command::still_args(DISC_BASE, THUMB_TINT, "assets/thumb_vinyl.png"),
        ),
        Asset::ThumbReel => Remedy::Run(
            command::still_args("assets/reel_base.png", "scale=170:170", "assets/thumb_reel.png"),
        ),
    }
}

/// The line that tells how the making of an asset went, if a line does.
pub open spec fn asset_line_of(asset: Asset, ok: bool) -> Option<Seq<char>> {
    match asset {
        Asset::Shine => Some(
            "shine.png: "@ + if ok {
                "ok"@
            } else {
                "FAILED"@
            },
        ),
        Asset::Mask => Some(
            "mask.png: "@ + if ok {
                "ok"@
            } else {
                "FAILED"@
            },
        ),
        _ => None,
    }
}

/// The line that tells how the making of an asset went, if a line does.
pub fn asset_line(asset: Asset, ok: bool) -> (r: Option<String>)
    ensures
        match r {
            Some(line) => asset_line_of(asset, ok) == Some(line@),
            None => asset_line_of(asset, ok) is None,
        },
{
    let mut line = match asset {
        Asset::Shine => "shine.png: ".to_owned(),
        Asset::Mask => "mask.png: ".to_owned(),
        _ => return None,
    };
    if ok {
        line.append("ok");
    } else {
        line.append("FAILED");
    }
    Some(line)
}

/// The fonts of the system that are tried, best first.
pub open spec fn font_sources() -> Seq<Seq<char>> {
    seq![
        "C:/Windows/Fonts/arialbd.ttf"@,
        "C:/Windows/Fonts/arial.ttf"@,
        "C:/Windows/Fonts/segoeui.ttf"@,
    ]
}

/// The font to try once `failed` of them could not be copied.
pub fn font_source(failed: usize) -> (r: Option<&'static str>)
    ensures
        match r {
            Some(path) => failed < font_sources().len() && path@ == font_sources()[failed as int],
            None => failed >= font_sources().len(),
        },
{
    if failed == 0 {
        Some("C:/Windows/Fonts/arialbd.ttf")
    } else if failed == 1 {
        Some("C:/Windows/Fonts/arial.ttf")
    } else if failed == 2 {
        Some("C:/Windows/Fonts/segoeui.ttf")
    } else {
        None
    }
}

/// The names that may be looked at from outside.
pub open spec fn is_public_name(name: Seq<char>) -> bool {
    name == "thumb_vinyl.png"@ || name == "thumb_reel.png"@
}

/// What is answered where there is nothing to be seen.
pub fn not_found() -> (r: Refusal)
    ensures
        r@ == (reply::RefusalView { status: Status::NotFound, message: "not found"@ }),
{
    reply::refuse(Status::NotFound, "not found")
}

/// The file to serve under `name`: one of the thumbnails, and nothing else.
pub fn media(name: &str) -> (r: Result<String, Refusal>)
    ensures
        match r {
            Ok(path) => is_public_name(name@) && path@ == "assets/"@ + name@,
            Err(refusal) => !is_public_name(name@) && refusal@ == (reply::RefusalView {
                status: Status::NotFound,
                message: "not found"@,
            }),
        },
{
    if !text::same_text(name, "thumb_vinyl.png") && !text::same_text(name, "thumb_reel.png") {
        return Err(not_found());
    }
    let mut path = "assets/".to_owned();
    path.append(name);
    Ok(path)
}

/// The folder to work in.
#[derive(Debug, Clone, Copy, PartialEq, Eq, Structural)]
pub enum Root {
    /// The one the program was started in.
    Here,
    /// The one so many levels above the program's file, counted from the folder
    /// that holds it.
    Above(usize),
    /// There is none: stay.
    Missing,
}

/// The first place of `found` that holds.
pub open spec fn is_first(found: Seq<bool>, i: int) -> bool {
    0 <= i < found.len() && found[i] && forall|j: int| 0 <= j < i ==> !#[trigger] found[j]
}

/// No place of `found` holds.
pub open spec fn holds_nowhere(found: Seq<bool>) -> bool {
    forall|j: int| 0 <= j < found.len() ==> !#[trigger] found[j]
}

/// Picks the folder to work in. `here` tells whether the program was started in
/// a project folder; `above` tells it of the folders above the program's file,
/// nearest first.
pub fn locate_project_root(here: bool, above: &Vec<bool>) -> (r: Root)
    ensures
        match r {
            Root::Here => here,
            Root::Above(i) => !here && is_first(above@, i as int),
            Root::Missing => !here && forall|j: int| 0 <= j < above@.len() ==> !#[trigger] above@[j],
        },
        r is Missing ==> holds_nowhere(above@),
{
    if here {
        return Root::Here;
    }
    let mut i: usize = 0;
    while i < above.len()
        invariant
            !here,
            i <= above@.len(),
            forall|j: int| 0 <= j < i ==> !#[trigger] above@[j],
        decreases above@.len() - i,
    {
        if above[i] {
            return Root::Above(i);
        }
        i = i + 1;
    }
    Root::Missing
}

/// Only files that are made as assets are ever served.
pub proof fn law_media_serves_assets(name: Seq<char>)
    requires
        is_public_name(name),
    ensures
        "assets/"@ + name == asset_path_of(Asset::ThumbVinyl) || "assets/"@ + name
            == asset_path_of(Asset::ThumbReel),
{
    reveal_strlit("assets/");
    reveal_strlit("thumb_vinyl.png");
    reveal_strlit("thumb_reel.png");
    reveal_strlit("assets/thumb_vinyl.png");
    reveal_strlit("assets/thumb_reel.png");
    if name == "thumb_vinyl.png"@ {
        assert("assets/"@ + name =~= "assets/thumb_vinyl.png"@);
    } else {
        assert("assets/"@ + name =~= "assets/thumb_reel.png"@);
    }
}

/// An asset that is there is left alone. One that is missing is made under its own
/// name, but for the font, which is copied.
pub proof fn law_missing_asset_is_made(asset: Asset)
    ensures
        remedy_of(asset, true) is Nothing,
        asset is Font <==> remedy_of(asset, false) is CopyFont,
        !(asset is Font) ==> remedy_of(asset, false) is Run && remedy_of(asset, false)->Run_0.len()
            > 0 && remedy_of(asset, false)->Run_0.last() == asset_path_of(asset),
{
}

/// Every asset is seen to, once.
pub proof fn law_every_asset_is_seen_to(asset: Asset)
    ensures
        all_assets().contains(asset),
        all_assets().no_duplicates(),
{
    let all = all_assets();
    assert(all[0] is Shine && all[1] is Mask && all[2] is Font && all[3] is ThumbVinyl && all[4]
        is ThumbReel);
}

/// Where the assets are kept.
pub proof fn law_where_assets_are_kept()
    ensures
        asset_path_of(Asset::Shine) == "assets/shine.png"@,
        asset_path_of(Asset::Mask) == "assets/mask.png"@,
        asset_path_of(Asset::Font) == "assets/font.ttf"@,
        asset_path_of(Asset::ThumbVinyl) == "assets/thumb_vinyl.png"@,
        asset_path_of(Asset::ThumbReel) == "assets/thumb_reel.png"@,
        DISC_BASE@ == "assets/disc_base.png"@,
{
}

/// The shine is drawn 842 pixels wide and high, the mask 280, each with its filter.
pub proof fn law_shine_and_mask_are_drawn()
    ensures
        remedy_of(Asset::Shine, false) is Run,
        command::works_on(
            remedy_of(Asset::Shine, false)->Run_0,
            seq![
                ("-y"@, ""@),
                ("-v"@, "error"@),
                ("-f"@, "lavfi"@),
                ("-i"@, "color=c=black:s="@ + "842x842"@),
                ("-vf"@, graph::SHINE_FILTER@),
                ("-frames:v"@, "1"@),
            ],
            "assets/shine.png"@,
        ),
        remedy_of(Asset::Mask, false) is Run,
        command::works_on(
            remedy_of(Asset::Mask, false)->Run_0,
            seq![
                ("-y"@, ""@),
                ("-v"@, "error"@),
                ("-f"@, "lavfi"@),
                ("-i"@, "color=c=black:s="@ + "280x280"@),
                ("-vf"@, graph::MASK_FILTER@),
                ("-frames:v"@, "1"@),
            ],
            "assets/mask.png"@,
        ),
{
    command::law_gen_png_settings("842x842"@, graph::SHINE_FILTER@, "assets/shine.png"@);
    command::law_gen_png_settings("280x280"@, graph::MASK_FILTER@, "assets/mask.png"@);
}

/// The thumbnails show what they are thumbnails of, 170 pixels wide and high: the
/// record in the color that it has unless another is picked, and the reel.
pub proof fn law_thumbnails_show_the_real_thing()
    ensures
        remedy_of(Asset::ThumbVinyl, false) is Run,
        command::works_on(
            remedy_of(Asset::ThumbVinyl, false)->Run_0,
            seq![
                ("-y"@, ""@),
                ("-v"@, "error"@),
                ("-i"@, "assets/disc_base.png"@),
                ("-vf"@, color::tint_filter_of((46, 46, 52)) + ",scale=170:170"@),
                ("-frames:v"@, "1"@),
                ("-update"@, "1"@),
            ],
            "assets/thumb_vinyl.png"@,
        ),
        remedy_of(Asset::ThumbReel, false) is Run,
        command::works_on(
            remedy_of(Asset::ThumbReel, false)->Run_0,
            seq![
                ("-y"@, ""@),
                ("-v"@, "error"@),
                ("-i"@, "assets/reel_base.png"@),
                ("-vf"@, "scale=170:170"@),
                ("-frames:v"@, "1"@),
                ("-update"@, "1"@),
            ],
            "assets/thumb_reel.png"@,
        ),
{
    lemma_thumb_tint();
    command::law_still_settings(DISC_BASE@, THUMB_TINT@, "assets/thumb_vinyl.png"@);
    command::law_still_settings(
        "assets/reel_base.png"@,
        "scale=170:170"@,
        "assets/thumb_reel.png"@,
    );
}

proof fn lemma_thumb_tint()
    ensures
        THUMB_TINT@ == color::tint_filter_of((46, 46, 52)) + ",scale=170:170"@,
{
    reveal_strlit(
        "geq=r='clip(46*r(X,Y)/140,0,255)':g='clip(46*g(X,Y)/140,0,255)':b='clip(52*b(X,Y)/140,0,255)':a='alpha(X,Y)',scale=170:170",
    );
    reveal_strlit("geq=r='clip(");
    reveal_strlit("*r(X,Y)/140,0,255)':g='clip(");
    reveal_strlit("*g(X,Y)/140,0,255)':b='clip(");
    reveal_strlit("*b(X,Y)/140,0,255)':a='alpha(X,Y)'");
    reveal_strlit(",scale=170:170");
    reveal_with_fuel(number::decimal, 3);
    assert(number::decimal(46) =~= seq!['4', '6']);
    assert(number::decimal(52) =~= seq!['5', '2']);
    let g = THUMB_TINT@;
    let p0 = "geq=r='clip("@;
    let p1 = "*r(X,Y)/140,0,255)':g='clip("@;
    let p2 = "*g(X,Y)/140,0,255)':b='clip("@;
    let p3 = "*b(X,Y)/140,0,255)':a='alpha(X,Y)'"@;
    let p4 = ",scale=170:170"@;
    reveal_with_fuel(text::same_between, 40);
    assert(text::same_between(g, 0, p0, 0, 12));
    text::lemma_same_between(g, 0, p0, 0, 12);
    assert(p0.subrange(0, 12) =~= p0);
    assert(g.subrange(12, 14) =~= number::decimal(46));
    assert(text::same_between(g, 14, p1, 0, 28));
    text::lemma_same_between(g, 14, p1, 0, 28);
    assert(p1.subrange(0, 28) =~= p1);
    assert(g.subrange(42, 44) =~= number::decimal(46));
    assert(text::same_between(g, 44, p2, 0, 28));
    text::lemma_same_between(g, 44, p2, 0, 28);
    assert(p2.subrange(0, 28) =~= p2);
    assert(g.subrange(72, 74) =~= number::decimal(52));
    assert(text::same_between(g, 74, p3, 0, 34));
    text::lemma_same_between(g, 74, p3, 0, 34);
    assert(p3.subrange(0, 34) =~= p3);
    assert(text::same_between(g, 108, p4, 0, 14));
    text::lemma_same_between(g, 108, p4, 0, 14);
    assert(p4.subrange(0, 14) =~= p4);
    assert(g =~= g.subrange(0, 12) + g.subrange(12, 14) + g.subrange(14, 42) + g.subrange(42, 44) + g.subrange(44, 72) + g.subrange(72, 74) + g.subrange(74, 108) + g.subrange(108, 122));
}

/// What is told of an asset that was made: the shine and the mask by name, and whether
/// it went well; of the others nothing.
pub proof fn law_making_is_told(ok: bool)
    ensures
        asset_line_of(Asset::Shine, true) == Some("shine.png: "@ + "ok"@),
        asset_line_of(Asset::Shine, false) == Some("shine.png: "@ + "FAILED"@),
        asset_line_of(Asset::Mask, true) == Some("mask.png: "@ + "ok"@),
        asset_line_of(Asset::Mask, false) == Some("mask.png: "@ + "FAILED"@),
        asset_line_of(Asset::Font, ok) is None,
        asset_line_of(Asset::ThumbVinyl, ok) is None,
        asset_line_of(Asset::ThumbReel, ok) is None,
{
}

/// The fonts that are tried, in this order.
pub proof fn law_fonts_are_tried_in_order()
    ensures
        font_sources() == seq![
            "C:/Windows/Fonts/arialbd.ttf"@,
            "C:/Windows/Fonts/arial.ttf"@,
            "C:/Windows/Fonts/segoeui.ttf"@,
        ],
{
}

/// Exactly the two thumbnails may be looked at from outside.
pub proof fn law_only_thumbnails_are_public(name: Seq<char>)
    ensures
        is_public_name(name) <==> name == "thumb_vinyl.png"@ || name == "thumb_reel.png"@,
{
}

/// Whatever is done about an asset, and whatever is served, comes out as the laws have
/// it: a thumbnail is served from among the assets, and nothing else is served at all.
pub proof fn law_assets_come_out(
    asset: Asset,
    present: bool,
    remedy: Remedy,
    name: &str,
    served: Result<String, Refusal>,
)
    requires
        call_ensures(ensure_asset, (asset, present), remedy),
        call_ensures(media, (name,), served),
    ensures
        remedy@ == remedy_of(asset, present),
        served is Ok <==> name@ == "thumb_vinyl.png"@ || name@ == "thumb_reel.png"@,
        served is Ok ==> served->Ok_0@ == "assets/"@ + name@,
        served is Err ==> served->Err_0.status is NotFound && served->Err_0.message@
            == "not found"@,
{
}

/// The folder to work in is the one that the program was started in if that holds a
/// project, else the nearest one above the program that does, and none if none does.
pub proof fn law_nearest_project_is_found(here: bool, above: &Vec<bool>, r: Root)
    requires
        call_ensures(locate_project_root, (here, above), r),
    ensures
        r is Here <==> here,
        r is Missing <==> !here && (forall|j: int|
            0 <= j < above@.len() ==> !#[trigger] above@[j]),
        r is Above ==> r->Above_0 < above@.len() && above@[r->Above_0 as int],
        r is Above ==> forall|j: int| 0 <= j < r->Above_0 ==> !#[trigger] above@[j],
{
    if r is Above {
        assert(is_first(above@, r->Above_0 as int));
    }
}

/// The fonts are tried one after the other, best first, until none is left.
pub proof fn law_next_font(failed: usize, r: Option<&'static str>)
    requires
        call_ensures(font_source, (failed,), r),
    ensures
        failed == 0 ==> r is Some && r->0@ == "C:/Windows/Fonts/arialbd.ttf"@,
        failed == 1 ==> r is Some && r->0@ == "C:/Windows/Fonts/arial.ttf"@,
        failed == 2 ==> r is Some && r->0@ == "C:/Windows/Fonts/segoeui.ttf"@,
        failed >= 3 ==> r is None,
{
}

/// Whatever the assets and their names come out as, they are those of the laws.
pub proof fn law_asset_names_come_out(
    all: Vec<Asset>,
    asset: Asset,
    path: &'static str,
    ok: bool,
    line: Option<String>,
    nothing: Refusal,
)
    requires
        call_ensures(assets, (), all),
        call_ensures(asset_path, (asset,), path),
        call_ensures(asset_line, (asset, ok), line),
        call_ensures(not_found, (), nothing),
    ensures
        all@ == all_assets(),
        path@ == asset_path_of(asset),
        line is Some <==> asset is Shine || asset is Mask,
        line is Some ==> asset_line_of(asset, ok) == Some(line->0@),
        nothing.status is NotFound,
        nothing.message@ == "not found"@,
{
}

} // verus!
