//! Filter graphs: the text along the label, the reel's rim and the reel's rib,
//! and the graphs that put the layers of a video together.

use vstd::prelude::*;

use crate::caption::CAPTION_LIMIT;
use crate::number;
use crate::text;
use crate::text::chars_of;

verus! {

/// The light reflection: a soft white band along the diagonal, masked to the
/// disc but for a hole at the very center. It is laid on after the rotation, so
/// the glare stays put while the record spins under it.
pub const SHINE_FILTER: &'static str = "format=rgba,geq=\
r='255':g='255':b='255':\
a='if(between(hypot(X-421,Y-421),26,418),clip(30*exp(-pow((X+Y-842)/430,2))+110*exp(-pow((X+Y-842)/144,2)),0,150),0)'";

/// The circular mask of the label: a full disc.
pub const MASK_FILTER: &'static str =
    "format=gray,geq=lum='if(lte(hypot(X-140,Y-140),140),255,0)'";

/// A full video with a cover. Inputs: 0 label, 1 disc, 2 audio, 3 cover, 4 shine.
pub const GRAPH_COVER: &'static str = "\
[3:v]scale=848:848:force_original_aspect_ratio=increase,crop=848:848,boxblur=30:1,eq=brightness=-0.18[bg];\
[1:v][0:v]overlay=(W-w)/2:(H-h)/2[rec];\
[rec]rotate=a='2*PI*t/3':c=none[spun];\
[bg][spun]overlay=3:3[disc];\
[disc][4:v]overlay=3:3[outv]";

/// A full video without a cover. Inputs: 0 label, 1 disc, 2 audio, 3 shine.
pub const GRAPH_SOLID: &'static str = "\
color=c=0x141018:s=848x848:r=30[bg];\
[1:v][0:v]overlay=(W-w)/2:(H-h)/2[rec];\
[rec]rotate=a='2*PI*t/3':c=none[spun];\
[bg][spun]overlay=3:3[disc];\
[disc][3:v]overlay=3:3[outv]";

/// A video note with a cover: square, the record fills the frame.
pub const GRAPH_NOTE_COVER: &'static str = "\
[3:v]scale=512:512:force_original_aspect_ratio=increase,crop=512:512,boxblur=20:1,eq=brightness=-0.18[bg];\
[1:v]scale=512:512[d];[0:v]scale=170:170[l];\
[d][l]overlay=(W-w)/2:(H-h)/2[rec];\
[rec]rotate=a='2*PI*t/3':c=none[spun];\
[4:v]scale=512:512[shine];\
[bg][spun]overlay=0:0[disc];\
[disc][shine]overlay=0:0[outv]";

/// A video note without a cover.
pub const GRAPH_NOTE_SOLID: &'static str = "\
color=c=black:s=512x512:r=30[bg];\
[1:v]scale=512:512[d];[0:v]scale=170:170[l];\
[d][l]overlay=(W-w)/2:(H-h)/2[rec];\
[rec]rotate=a='2*PI*t/3':c=none[spun];\
[3:v]scale=512:512[shine];\
[bg][spun]overlay=0:0[disc];\
[disc][shine]overlay=0:0[outv]";

/// The label of a record with a cover: the cover on a colored sticker with a
/// hole of the same color, cut to a disc.
pub const GRAPH_COVER_LABEL: &'static str = "[2:v]format=rgba[base];\
[0:v]scale=236:236:force_original_aspect_ratio=increase,crop=236:236[c];\
[base][c]overlay=(W-w)/2:(H-h)/2[m];\
[3:v]format=rgba,geq=r='r(X,Y)':g='g(X,Y)':b='b(X,Y)':a='if(lte(hypot(X-12,Y-12),9),255,0)'[hole];\
[m][hole]overlay=(W-w)/2:(H-h)/2[mh];[mh][1:v]alphamerge[out]";

/// The graph that composes the video.
pub open spec fn video_graph_of(note: bool, cover: bool) -> Seq<char> {
    match (note, cover) {
        (true, true) => GRAPH_NOTE_COVER@,
        (true, false) => GRAPH_NOTE_SOLID@,
        (false, true) => GRAPH_COVER@,
        (false, false) => GRAPH_SOLID@,
    }
}

/// Picks the graph that composes the video.
pub fn video_graph(note: bool, cover: bool) -> (r: &'static str)
    ensures
        r@ == video_graph_of(note, cover),
{
    match (note, cover) {
        (true, true) => GRAPH_NOTE_COVER,
        (true, false) => GRAPH_NOTE_SOLID,
        (false, true) => GRAPH_COVER,
        (false, false) => GRAPH_SOLID,
    }
}

/// A curve that text can run along, one glyph at a time.
#[derive(Debug, Clone, Copy, PartialEq, Eq, Structural)]
pub enum Ring {
    /// The label of a record.
    Label,
    /// The outer rim of a reel.
    Rim,
}

/// The upper left corner of a glyph's box, in pixels.
#[derive(Debug, Clone, Copy, PartialEq, Eq, Structural)]
pub struct Corner {
    pub ox: i64,
    pub oy: i64,
}

/// How far glyph `i` of `n` stands from the middle of the text, in half steps.
pub open spec fn half_steps_of(i: int, n: int) -> int {
    2 * i - (n - 1)
}

/// How far glyph `i` of `n` stands from the middle of the text, in half steps.
pub fn half_steps(i: usize, n: usize) -> (r: i128)
    requires
        i < n,
    ensures
        r == half_steps_of(i as int, n as int),
{
    2 * (i as i128) - (n as i128 - 1)
}

/// How the glyphs of a ring are spread.
#[derive(Debug, Clone, Copy, PartialEq, Eq, Structural)]
pub enum Spread {
    /// Evenly over an arc of so many degrees.
    Arc { degrees: u16 },
    /// So many pixels apart along the curve.
    Pitch { pixels: u16 },
}

/// The shape of a ring, in pixels: its center on either axis, its radius, and
/// half the side of a glyph's box.
#[derive(Debug, Clone, Copy, PartialEq, Eq, Structural)]
pub struct RingShape {
    pub center: u16,
    pub radius: u16,
    pub half_box: u16,
    pub spread: Spread,
}

/// The shape of a ring.
pub open spec fn ring_shape_of(ring: Ring) -> RingShape {
    match ring {
        Ring::Label => RingShape {
            center: 140,
            radius: 98,
            half_box: 22,
            spread: Spread::Arc { degrees: 210 },
        },
        Ring::Rim => RingShape {
            center: 421,
            radius: 372,
            half_box: 30,
            spread: Spread::Pitch { pixels: 46 },
        },
    }
}

/// The shape of a ring.
pub fn ring_shape(ring: Ring) -> (r: RingShape)
    ensures
        r == ring_shape_of(ring),
{
    match ring {
        Ring::Label => RingShape {
            center: 140,
            radius: 98,
            half_box: 22,
            spread: Spread::Arc { degrees: 210 },
        },
        Ring::Rim => RingShape {
            center: 421,
            radius: 372,
            half_box: 30,
            spread: Spread::Pitch { pixels: 46 },
        },
    }
}

/// How many whole steps an evenly filled arc holds: one less than its `n`
/// glyphs. A lone glyph sits in the middle, whatever the arc.
pub open spec fn arc_steps_of(n: int) -> int {
    if n > 1 {
        n - 1
    } else {
        1
    }
}

/// How many whole steps an evenly filled arc holds.
pub fn arc_steps(n: usize) -> (r: usize)
    ensures
        r == arc_steps_of(n as int),
{
    if n > 1 {
        n - 1
    } else {
        1
    }
}

/// How far a glyph is turned from upright, as a numerator and a denominator: in
/// degrees on the label, in radians on the rim. A glyph on the rim turns by one
/// radian for each radius that it stands along the curve.
pub open spec fn turn_of(ring: Ring, i: int, n: int) -> (int, int) {
    let h = half_steps_of(i, n);
    match ring_shape_of(ring).spread {
        Spread::Arc { degrees } => (h * degrees, 2 * arc_steps_of(n)),
        Spread::Pitch { pixels } => (h * pixels, 2 * (ring_shape_of(ring).radius as int)),
    }
}

/// How far glyph `i` of `n` is turned from upright, as a numerator and a
/// denominator: in degrees on the label, in radians on the rim.
pub fn turn(ring: Ring, i: usize, n: usize) -> (r: (i128, u128))
    requires
        i < n,
    ensures
        r.0 == turn_of(ring, i as int, n as int).0,
        r.1 == turn_of(ring, i as int, n as int).1,
        r.1 > 0,
{
    let h: i128 = half_steps(i, n);
    let shape = ring_shape(ring);
    let width: u16 = match shape.spread {
        Spread::Arc { degrees } => degrees,
        Spread::Pitch { pixels } => pixels,
    };
    assert(-0x1_0000_0000_0000_0000 <= h <= 0x1_0000_0000_0000_0000);
    assert(-0x1_0000_0000_0000_0000_0000 <= h * width <= 0x1_0000_0000_0000_0000_0000)
        by (nonlinear_arith)
        requires
            -0x1_0000_0000_0000_0000 <= h <= 0x1_0000_0000_0000_0000,
            0 <= width <= 0xffff,
    ;
    match shape.spread {
        Spread::Arc { .. } => (h * width as i128, 2 * (arc_steps(n) as u128)),
        Spread::Pitch { .. } => (h * width as i128, 2 * (shape.radius as u128)),
    }
}

/// What a unit of `turn_of` is in ten-thousandths of a radian, as a numerator and
/// a denominator. On the label it is a degree: 0.017453292519943296 radians.
pub open spec fn unit_of(ring: Ring) -> (int, int) {
    match ring {
        Ring::Label => (17453292519943296, 100000000000000),
        Ring::Rim => (10000, 1),
    }
}

/// The rotation of glyph `i` of `n` in radians, with four decimals.
pub open spec fn angle_of(ring: Ring, i: int, n: int) -> Seq<char> {
    number::four_decimals(
        turn_of(ring, i, n).0 * unit_of(ring).0,
        turn_of(ring, i, n).1 * unit_of(ring).1,
    )
}

fn push_angle(out: &mut String, ring: Ring, i: usize, n: usize)
    requires
        i < n,
    ensures
        final(out)@ == old(out)@ + angle_of(ring, i as int, n as int),
{
    let (num, den) = turn(ring, i, n);
    let ghost unit = unit_of(ring);
    assert(ring is Label ==> num * unit.0 == num * 17453292519943296 && den * unit.1 == den
        * 100000000000000);
    assert(ring is Rim ==> num * unit.0 == num * 10000 && den * unit.1 == den);
    match ring {
        Ring::Label => number::push_four_decimals(
            out,
            num * 17453292519943296,
            den * 100000000000000,
        ),
        Ring::Rim => number::push_four_decimals(out, num * 10000, den),
    }
}

/// Where the box of an upright glyph sits: at the top of the ring.
pub open spec fn top_of(ring: Ring) -> Corner {
    let s = ring_shape_of(ring);
    Corner {
        ox: (s.center - s.half_box) as i64,
        oy: (s.center - s.radius - s.half_box) as i64,
    }
}

/// Where the box of glyph `i` of `n` sits: at the top if the glyph is upright,
/// and otherwise where it was measured to sit.
pub open spec fn corner_of(ring: Ring, i: int, n: int, measured: Corner) -> Corner {
    if half_steps_of(i, n) == 0 {
        top_of(ring)
    } else {
        measured
    }
}

fn corner(ring: Ring, i: usize, n: usize, measured: Corner) -> (r: Corner)
    requires
        i < n,
    ensures
        r == corner_of(ring, i as int, n as int, measured),
{
    if half_steps(i, n) == 0 {
        let s = ring_shape(ring);
        Corner {
            ox: s.center as i64 - s.half_box as i64,
            oy: s.center as i64 - s.radius as i64 - s.half_box as i64,
        }
    } else {
        measured
    }
}

/// The glyphs of a label are spread evenly over 210 degrees, however many there
/// are: the turn of glyph `i` is `(i / (n - 1) - 1 / 2) * 210` degrees, from -105
/// at the first to 105 at the last, growing with each glyph. A lone glyph is
/// upright.
pub proof fn law_label_turns(i: int, n: int)
    requires
        0 <= i < n,
    ensures
        turn_of(Ring::Label, i, n).1 > 0,
        n == 1 ==> turn_of(Ring::Label, i, n).0 == 0,
        n > 1 ==> turn_of(Ring::Label, i, n) == ((2 * i - (n - 1)) * 210, 2 * (n - 1)),
        n > 1 ==> turn_of(Ring::Label, 0, n).0 == -105 * turn_of(Ring::Label, 0, n).1,
        n > 1 ==> turn_of(Ring::Label, n - 1, n).0 == 105 * turn_of(Ring::Label, n - 1, n).1,
{
}

/// Neighbours on the rim are 46 / 372 radians apart, however many there are: 46
/// pixels along a curve of radius 372. The turn of glyph `i` is
/// `(i - (n - 1) / 2) * 46 / 372` radians. The longest caption spans
/// `(n - 1) * 46 / 372` radians, which is less than six, so less than a full turn.
pub proof fn law_rim_turns(i: int, n: int)
    requires
        0 <= i < n,
    ensures
        turn_of(Ring::Rim, i, n) == ((2 * i - (n - 1)) * 46, 2 * 372int),
        (turn_of(Ring::Rim, i + 1, n).0 - turn_of(Ring::Rim, i, n).0) * 372 == 46 * turn_of(
            Ring::Rim,
            i,
            n,
        ).1,
        (turn_of(Ring::Rim, n - 1, n).0 - turn_of(Ring::Rim, 0, n).0) * 372 == (n - 1) * 46
            * turn_of(Ring::Rim, i, n).1,
        n <= CAPTION_LIMIT ==> turn_of(Ring::Rim, n - 1, n).0 - turn_of(Ring::Rim, 0, n).0 < 6
            * turn_of(Ring::Rim, i, n).1,
{
    assert(turn_of(Ring::Rim, i, n) == ((2 * i - (n - 1)) * 46, 744int));
    assert(turn_of(Ring::Rim, i + 1, n) == ((2 * (i + 1) - (n - 1)) * 46, 744int));
    assert(turn_of(Ring::Rim, 0, n) == (-(n - 1) * 46, 744int));
    assert(turn_of(Ring::Rim, n - 1, n) == ((n - 1) * 46, 744int));
    assert(((n - 1) * 46 - (-(n - 1) * 46)) * 372 == (n - 1) * 46 * 744);
}

/// On either ring the turns grow with the glyphs and mirror each other: glyph `i`
/// is turned as far one way as the glyph as far from the end is the other way.
pub proof fn law_turns_mirror(ring: Ring, i: int, j: int, n: int)
    requires
        0 <= i < j < n,
    ensures
        turn_of(ring, i, n).1 == turn_of(ring, j, n).1,
        turn_of(ring, i, n).0 < turn_of(ring, j, n).0,
        turn_of(ring, i, n).0 == -turn_of(ring, n - 1 - i, n).0,
        turn_of(ring, j, n).0 == -turn_of(ring, n - 1 - j, n).0,
{
    match ring {
        Ring::Label => {},
        Ring::Rim => {},
    }
}

/// The angles that are written mirror each other too: but for the sign, a glyph
/// that leans to the left has the angle of its mirror image.
pub proof fn law_angles_mirror(ring: Ring, i: int, n: int)
    requires
        0 <= i < n,
        half_steps_of(i, n) < 0,
    ensures
        angle_of(ring, i, n) == seq!['-'] + angle_of(ring, n - 1 - i, n),
{
    let (a, d) = turn_of(ring, i, n);
    let b = turn_of(ring, n - 1 - i, n).0;
    assert(a < 0 && b == -a) by {
        match ring {
            Ring::Label => {},
            Ring::Rim => {},
        }
    }
    let u = unit_of(ring).0;
    assert(a * u < 0 && b * u == -(a * u)) by (nonlinear_arith)
        requires
            a < 0,
            b == -a,
            u > 0,
    ;
}

/// The middle one of an odd number of glyphs is upright at the top of its ring: on
/// the rim it is turned by 0.0000 and laid at 391:19.
pub proof fn law_middle_glyph_is_upright(ring: Ring, i: int, measured: Corner)
    requires
        0 <= i,
    ensures
        turn_of(ring, i, 2 * i + 1).0 == 0,
        angle_of(ring, i, 2 * i + 1) == "0.0000"@,
        corner_of(ring, i, 2 * i + 1, measured) == top_of(ring),
        top_of(Ring::Rim) == (Corner { ox: 391, oy: 19 }),
        top_of(Ring::Label) == (Corner { ox: 118, oy: 20 }),
{
    reveal_strlit("0.0000");
    let (a, d) = turn_of(ring, i, 2 * i + 1);
    assert(a == 0 && d > 0) by {
        match ring {
            Ring::Label => {},
            Ring::Rim => {},
        }
    }
    let u = unit_of(ring);
    assert(a * u.0 == 0 && d * u.1 > 0) by (nonlinear_arith)
        requires
            a == 0,
            d > 0,
            u.1 > 0,
    ;
    let e = d * u.1;
    assert(number::nearest(0, e) == 0) by {
        vstd::arithmetic::div_mod::lemma_small_mod(e as nat, (2 * e) as nat);
        vstd::arithmetic::div_mod::lemma_basic_div(e, 2 * e);
    }
    assert(number::with_four_decimals(0) =~= "0.0000"@);
}

/// An angle is written to the nearest ten-thousandth of a radian, and on the rim
/// there is only one nearest: no turn lies halfway between two.
pub proof fn law_angles_are_rounded(ring: Ring, i: int, n: int)
    requires
        0 <= i < n,
    ensures
        ({
            let a = number::magnitude(turn_of(ring, i, n).0 * unit_of(ring).0);
            let d = turn_of(ring, i, n).1 * unit_of(ring).1;
            let t = number::nearest(a, d);
            &&& -d <= 2 * (t * d - a) <= d
            &&& ring is Rim ==> -d < 2 * (t * d - a) < d
        }),
{
    let (num, den) = turn_of(ring, i, n);
    let a = number::magnitude(num * unit_of(ring).0);
    let d = den * unit_of(ring).1;
    assert(den > 0) by {
        match ring {
            Ring::Label => {},
            Ring::Rim => {},
        }
    }
    assert(d > 0) by (nonlinear_arith)
        requires
            den > 0,
            d == den * unit_of(ring).1,
            unit_of(ring).1 > 0,
    ;
    number::law_nearest_is_near(a, d);
    if ring is Rim {
        let t = number::nearest(a, d);
        assert(d == 744);
        assert(t * d == 744 * t) by (nonlinear_arith)
            requires
                d == 744,
        ;
        assert(a == 460000 * number::magnitude(half_steps_of(i, n)));
    }
}

/// Wherever on a ring a glyph sits, its box lies within the picture, which is
/// twice as wide and as high as the center is far from its edges.
pub proof fn law_glyph_boxes_fit(ring: Ring)
    ensures
        ring_shape_of(ring).radius + ring_shape_of(ring).half_box <= ring_shape_of(ring).center,
{
}

/// Glyphs are centered: the offsets of a glyph and of its mirror image cancel,
/// neighbours are one whole step apart, and none lies beyond half the span.
pub proof fn law_glyphs_centered(i: int, n: int)
    requires
        0 <= i < n,
    ensures
        half_steps_of(i, n) + half_steps_of(n - 1 - i, n) == 0,
        half_steps_of(i + 1, n) - half_steps_of(i, n) == 2,
        -(n - 1) <= half_steps_of(i, n) <= n - 1,
        half_steps_of(0, n) == -(n - 1),
        half_steps_of(n - 1, n) == n - 1,
        -arc_steps_of(n) <= half_steps_of(i, n) <= arc_steps_of(n),
{
}

/// Text never runs into itself: later characters stand further along the curve.
/// On the label the arc is less than a full turn. On the rim the longest caption
/// spans less than six radii, and a full turn is more than that.
pub proof fn law_text_does_not_wrap(i: int, j: int, n: int)
    requires
        0 <= i < j < n <= CAPTION_LIMIT,
    ensures
        half_steps_of(i, n) < half_steps_of(j, n),
        (ring_shape_of(Ring::Label).spread matches Spread::Arc { degrees } && degrees < 360),
        (ring_shape_of(Ring::Rim).spread matches Spread::Pitch { pixels } && (half_steps_of(
            n - 1,
            n,
        ) - half_steps_of(0, n)) * pixels < 2 * (6 * ring_shape_of(Ring::Rim).radius)),
{
}

/// What stands in front of a glyph's character.
pub open spec fn glyph_head_of(ring: Ring) -> Seq<char> {
    match ring {
        Ring::Label =>
            "color=c=#00000000:s=44x44,format=rgba,drawtext=fontfile=assets/font.ttf:text='"@,
        Ring::Rim =>
            "color=c=#00000000:s=60x60,format=rgba,drawtext=fontfile=assets/font.ttf:text='"@,
    }
}

/// What stands between a glyph's character and its angle. On the rim a black
/// outline keeps the text legible over both the clear flange and the dark tape.
pub open spec fn glyph_style_of(ring: Ring) -> Seq<char> {
    match ring {
        Ring::Label =>
            "':fontsize=26:fontcolor=white:x=(w-text_w)/2:y=(h-text_h)/2,rotate=a="@,
        Ring::Rim =>
            "':fontsize=40:fontcolor=black:borderw=2:bordercolor=black:x=(w-text_w)/2:y=(h-text_h)/2,rotate=a="@,
    }
}

/// The angle of glyph `i` and the layers that it takes part in.
pub open spec fn glyph_layers_of(i: nat, angle: Seq<char>) -> Seq<char> {
    angle + ":c=none[g"@ + number::decimal(i + 1) + "];[t"@ + number::decimal(i) + "][g"@
        + number::decimal(i + 1)
}

/// The place of glyph `i` and the layer that it makes.
pub open spec fn glyph_spot_of(i: nat, corner: Corner) -> Seq<char> {
    number::signed_decimal(corner.ox as int) + ":"@ + number::signed_decimal(corner.oy as int)
        + "[t"@ + number::decimal(i + 1) + "];"@
}

/// What stands behind a glyph's style: its angle, its layers and its place.
pub open spec fn glyph_tail_of(i: nat, angle: Seq<char>, corner: Corner) -> Seq<char> {
    glyph_layers_of(i, angle) + "]overlay="@ + glyph_spot_of(i, corner)
}

/// The filters that draw glyph `i` onto layer `i`, which makes layer `i + 1`.
pub open spec fn glyph_step_of(
    ring: Ring,
    i: nat,
    ch: char,
    angle: Seq<char>,
    corner: Corner,
) -> Seq<char> {
    glyph_head_of(ring).push(ch) + glyph_style_of(ring) + glyph_tail_of(i, angle, corner)
}

/// The filters that draw the first `n` characters of `text`.
pub open spec fn glyph_steps_of(ring: Ring, text: Seq<char>, corners: Seq<Corner>, n: nat) -> Seq<
    char,
>
    decreases n,
{
    if n == 0 {
        seq![]
    } else {
        glyph_steps_of(ring, text, corners, (n - 1) as nat) + glyph_step_of(
            ring,
            (n - 1) as nat,
            text[n - 1],
            angle_of(ring, n - 1, text.len() as int),
            corner_of(ring, n - 1, text.len() as int, corners[n - 1]),
        )
    }
}

/// A whole lettering graph: the ground layer, a step for each character, and the
/// last layer handed out.
pub open spec fn lettering_of(
    ring: Ring,
    ground: Seq<char>,
    text: Seq<char>,
    corners: Seq<Corner>,
) -> Seq<char> {
    ground + glyph_steps_of(ring, text, corners, text.len()) + "[t"@ + number::decimal(
        text.len(),
    ) + "]null[out]"@
}

/// The ground layer of a label: a disc of one color.
pub open spec fn label_ground_of(cr: u8, cg: u8, cb: u8) -> Seq<char> {
    "format=rgba,geq=r='"@ + number::decimal(cr as nat) + "':g='"@
        + number::decimal(cg as nat) + "':b='"@ + number::decimal(cb as nat)
        + "':a='if(lte(hypot(X-140,Y-140),138),255,0)'[t0];"@
}

/// The graph of a label with `date` curved along it.
pub open spec fn label_graph_of(
    date: Seq<char>,
    cr: u8,
    cg: u8,
    cb: u8,
    corners: Seq<Corner>,
) -> Seq<char> {
    lettering_of(Ring::Label, label_ground_of(cr, cg, cb), date, corners)
}

/// The graph of a label with `text` straight across its center.
pub open spec fn label_center_graph_of(text: Seq<char>, cr: u8, cg: u8, cb: u8) -> Seq<char> {
    label_ground_of(cr, cg, cb) + "[t0]drawtext=fontfile=assets/font.ttf:text='"@ + text
        + "':fontsize=26:fontcolor=white:x=(w-text_w)/2:y=(h-text_h)/2[out]"@
}

/// The graph of a reel with `text` curved along its rim.
pub open spec fn rim_graph_of(text: Seq<char>, corners: Seq<Corner>) -> Seq<char> {
    lettering_of(Ring::Rim, "[0:v]format=rgba[t0];"@, text, corners)
}

/// The graph of a reel with `text` on its right rib.
pub open spec fn rib_graph_of(text: Seq<char>) -> Seq<char> {
    "[0:v]format=rgba[base];color=c=#00000000:s=420x100,format=rgba,drawtext=fontfile=assets/font.ttf:text='"@
        + text
        + "':fontsize=46:fontcolor=black:x=(w-text_w)/2:y=(h-text_h)/2,rotate=-0.2970:c=none:ow=420:oh=100[t];[base][t]overlay=449:288[out]"@
}

fn glyph_head(ring: Ring) -> (r: &'static str)
    ensures
        r@ == glyph_head_of(ring),
{
    match ring {
        Ring::Label =>
            "color=c=#00000000:s=44x44,format=rgba,drawtext=fontfile=assets/font.ttf:text='",
        Ring::Rim =>
            "color=c=#00000000:s=60x60,format=rgba,drawtext=fontfile=assets/font.ttf:text='",
    }
}

fn glyph_style(ring: Ring) -> (r: &'static str)
    ensures
        r@ == glyph_style_of(ring),
{
    match ring {
        Ring::Label => "':fontsize=26:fontcolor=white:x=(w-text_w)/2:y=(h-text_h)/2,rotate=a=",
        Ring::Rim =>
            "':fontsize=40:fontcolor=black:borderw=2:bordercolor=black:x=(w-text_w)/2:y=(h-text_h)/2,rotate=a=",
    }
}

fn glyph_spot(i: usize, at: Corner) -> (r: String)
    ensures
        r@ == glyph_spot_of(i as nat, at),
{
    let mut s = String::new();
    number::push_signed(&mut s, at.ox);
    assert(s@ =~= number::signed_decimal(at.ox as int));
    s.append(":");
    number::push_signed(&mut s, at.oy);
    s.append("[t");
    number::push_decimal(&mut s, i as u128 + 1);
    s.append("];");
    s
}

fn glyph_tail(ring: Ring, i: usize, n: usize, measured: Corner) -> (r: String)
    requires
        i < n,
    ensures
        r@ == glyph_tail_of(
            i as nat,
            angle_of(ring, i as int, n as int),
            corner_of(ring, i as int, n as int, measured),
        ),
{
    let spot = glyph_spot(i, corner(ring, i, n, measured));
    let mut s = String::new();
    push_angle(&mut s, ring, i, n);
    assert(s@ =~= angle_of(ring, i as int, n as int));
    s.append(":c=none[g");
    number::push_decimal(&mut s, i as u128 + 1);
    s.append("];[t");
    number::push_decimal(&mut s, i as u128);
    s.append("][g");
    number::push_decimal(&mut s, i as u128 + 1);
    s.append("]overlay=");
    s.append(spot.as_str());
    s
}

fn glyph_step(ring: Ring, i: usize, n: usize, ch: char, measured: Corner) -> (r: String)
    requires
        i < n,
    ensures
        r@ == glyph_step_of(
            ring,
            i as nat,
            ch,
            angle_of(ring, i as int, n as int),
            corner_of(ring, i as int, n as int, measured),
        ),
{
    let tail = glyph_tail(ring, i, n, measured);
    let mut s = glyph_head(ring).to_owned();
    s.push(ch);
    s.append(glyph_style(ring));
    s.append(tail.as_str());
    s
}

fn label_ground(cr: u8, cg: u8, cb: u8) -> (r: String)
    ensures
        r@ == label_ground_of(cr, cg, cb),
{
    let mut ground = "format=rgba,geq=r='".to_owned();
    number::push_decimal(&mut ground, cr as u128);
    ground.append("':g='");
    number::push_decimal(&mut ground, cg as u128);
    ground.append("':b='");
    number::push_decimal(&mut ground, cb as u128);
    ground.append("':a='if(lte(hypot(X-140,Y-140),138),255,0)'[t0];");
    ground
}

fn lettering(ring: Ring, ground: String, text: &str, corners: &Vec<Corner>) -> (r: String)
    requires
        corners@.len() == text@.len(),
    ensures
        r@ == lettering_of(ring, ground@, text@, corners@),
{
    let chars = chars_of(text);
    let n: usize = chars.len();
    let mut steps = String::new();
    let mut i: usize = 0;
    while i < n
        invariant
            i <= n == chars@.len(),
            chars@ == text@,
            corners@.len() == n,
            steps@ == glyph_steps_of(ring, text@, corners@, i as nat),
        decreases n - i,
    {
        let step = glyph_step(ring, i, n, chars[i], corners[i]);
        steps.append(step.as_str());
        i = i + 1;
    }
    let mut g = ground;
    g.append(steps.as_str());
    g.append("[t");
    number::push_decimal(&mut g, n as u128);
    g.append("]null[out]");
    g
}

/// The graph of a record's label: a disc of the given color with `date` curved
/// along it. The corners are where the boxes of its glyphs were measured to sit.
pub fn default_label_graph(date: &str, cr: u8, cg: u8, cb: u8, corners: &Vec<Corner>) -> (r: String)
    requires
        corners@.len() == date@.len(),
    ensures
        r@ == label_graph_of(date@, cr, cg, cb, corners@),
{
    lettering(Ring::Label, label_ground(cr, cg, cb), date, corners)
}

/// The graph of a record's label with a short `text`: a disc of the given color
/// with `text` straight across its center.
pub fn label_center_text_graph(text: &str, cr: u8, cg: u8, cb: u8) -> (r: String)
    ensures
        r@ == label_center_graph_of(text@, cr, cg, cb),
{
    let mut g = label_ground(cr, cg, cb);
    g.append("[t0]drawtext=fontfile=assets/font.ttf:text='");
    g.append(text);
    g.append("':fontsize=26:fontcolor=white:x=(w-text_w)/2:y=(h-text_h)/2[out]");
    g
}

/// Bakes `text` onto the reel image along its outer rim. The corners are where the
/// boxes of its glyphs were measured to sit. The ring of text turns with the reel.
/// A black outline keeps it legible over both the clear flange and the dark tape.
pub fn reel_text_graph(text: &str, corners: &Vec<Corner>) -> (r: String)
    requires
        corners@.len() == text@.len(),
    ensures
        r@ == rim_graph_of(text@, corners@),
{
    lettering(Ring::Rim, "[0:v]format=rgba[t0];".to_owned(), text, corners)
}

/// Bakes a short `text` onto the right rib of the reel image, turned a little
/// counter-clockwise.
pub fn reel_center_text_graph(text: &str) -> (r: String)
    ensures
        r@ == rib_graph_of(text@),
{
    let mut g =
        "[0:v]format=rgba[base];color=c=#00000000:s=420x100,format=rgba,drawtext=fontfile=assets/font.ttf:text='".to_owned();
    g.append(text);
    g.append(
        "':fontsize=46:fontcolor=black:x=(w-text_w)/2:y=(h-text_h)/2,rotate=-0.2970:c=none:ow=420:oh=100[t];[base][t]overlay=449:288[out]",
    );
    g
}

/// Tells whether `s` ends with `tail`.
pub open spec fn ends_with(s: Seq<char>, tail: Seq<char>) -> bool {
    tail.len() <= s.len() && s.skip(s.len() - tail.len()) == tail
}

/// Every still-image graph hands its picture out under the name that the
/// commands map.
pub proof fn law_graphs_hand_out_a_picture(
    text: Seq<char>,
    cr: u8,
    cg: u8,
    cb: u8,
    corners: Seq<Corner>,
)
    ensures
        ends_with(label_graph_of(text, cr, cg, cb, corners), "[out]"@),
        ends_with(label_center_graph_of(text, cr, cg, cb), "[out]"@),
        ends_with(rim_graph_of(text, corners), "[out]"@),
        ends_with(rib_graph_of(text), "[out]"@),
        ends_with(GRAPH_COVER_LABEL@, "[out]"@),
{
    reveal_strlit("[out]");
    reveal_strlit("]null[out]");
    reveal_strlit("':fontsize=26:fontcolor=white:x=(w-text_w)/2:y=(h-text_h)/2[out]");
    reveal_strlit(
        "':fontsize=46:fontcolor=black:x=(w-text_w)/2:y=(h-text_h)/2,rotate=-0.2970:c=none:ow=420:oh=100[t];[base][t]overlay=449:288[out]",
    );
    reveal_strlit(
        "[2:v]format=rgba[base];[0:v]scale=236:236:force_original_aspect_ratio=increase,crop=236:236[c];[base][c]overlay=(W-w)/2:(H-h)/2[m];[3:v]format=rgba,geq=r='r(X,Y)':g='g(X,Y)':b='b(X,Y)':a='if(lte(hypot(X-12,Y-12),9),255,0)'[hole];[m][hole]overlay=(W-w)/2:(H-h)/2[mh];[mh][1:v]alphamerge[out]",
    );
    let a = label_graph_of(text, cr, cg, cb, corners);
    assert(a.skip(a.len() - 5) =~= "[out]"@);
    let e = label_center_graph_of(text, cr, cg, cb);
    assert(e.skip(e.len() - 5) =~= "[out]"@);
    let b = rim_graph_of(text, corners);
    assert(b.skip(b.len() - 5) =~= "[out]"@);
    let c = rib_graph_of(text);
    assert(c.skip(c.len() - 5) =~= "[out]"@);
    let d = GRAPH_COVER_LABEL@;
    assert(d.skip(d.len() - 5) =~= "[out]"@);
}

/// The graph in its parts.
proof fn lemma_cover_parts()
    ensures
        GRAPH_COVER@ == "[3:v]scale=848:848:force_original_aspect_ratio=increase,crop=848:848,boxblur=30:1,eq=brightness=-0.18[bg];"@ + "[1:v][0:v]overlay=(W-w)/2:(H-h)/2[rec];"@ + "[rec]rotate=a='2*PI*t/3':c=none[spun];"@ + "[bg][spun]overlay=3:3[disc];"@ + "[disc][4:v]overlay=3:3[outv]"@,
{
    reveal_strlit("[3:v]scale=848:848:force_original_aspect_ratio=increase,crop=848:848,boxblur=30:1,eq=brightness=-0.18[bg];[1:v][0:v]overlay=(W-w)/2:(H-h)/2[rec];[rec]rotate=a='2*PI*t/3':c=none[spun];[bg][spun]overlay=3:3[disc];[disc][4:v]overlay=3:3[outv]");
    reveal_strlit("[3:v]scale=848:848:force_original_aspect_ratio=increase,crop=848:848,boxblur=30:1,eq=brightness=-0.18[bg];");
    reveal_strlit("[1:v][0:v]overlay=(W-w)/2:(H-h)/2[rec];");
    reveal_strlit("[rec]rotate=a='2*PI*t/3':c=none[spun];");
    reveal_strlit("[bg][spun]overlay=3:3[disc];");
    reveal_strlit("[disc][4:v]overlay=3:3[outv]");
    reveal_with_fuel(text::same_between, 32);
    let g = GRAPH_COVER@;
    let p0 = "[3:v]scale=848:848:force_original_aspect_ratio=increase,crop=848:848,boxblur=30:1,eq=brightness=-0.18[bg];"@;
    assert(text::same_between(g, 0, p0, 0, 30));
    assert(text::same_between(g, 0, p0, 30, 60));
    assert(text::same_between(g, 0, p0, 60, 90));
    assert(text::same_between(g, 0, p0, 90, 106));
    text::lemma_same_join(g, 0, p0, 0, 30, 60);
    text::lemma_same_join(g, 0, p0, 0, 60, 90);
    text::lemma_same_join(g, 0, p0, 0, 90, 106);
    text::lemma_same_between(g, 0, p0, 0, 106);
    assert(p0.subrange(0, 106) =~= p0);
    let p1 = "[1:v][0:v]overlay=(W-w)/2:(H-h)/2[rec];"@;
    assert(text::same_between(g, 106, p1, 0, 30));
    assert(text::same_between(g, 106, p1, 30, 39));
    text::lemma_same_join(g, 106, p1, 0, 30, 39);
    text::lemma_same_between(g, 106, p1, 0, 39);
    assert(p1.subrange(0, 39) =~= p1);
    let p2 = "[rec]rotate=a='2*PI*t/3':c=none[spun];"@;
    assert(text::same_between(g, 145, p2, 0, 30));
    assert(text::same_between(g, 145, p2, 30, 38));
    text::lemma_same_join(g, 145, p2, 0, 30, 38);
    text::lemma_same_between(g, 145, p2, 0, 38);
    assert(p2.subrange(0, 38) =~= p2);
    let p3 = "[bg][spun]overlay=3:3[disc];"@;
    assert(text::same_between(g, 183, p3, 0, 28));
    text::lemma_same_between(g, 183, p3, 0, 28);
    assert(p3.subrange(0, 28) =~= p3);
    let p4 = "[disc][4:v]overlay=3:3[outv]"@;
    assert(text::same_between(g, 211, p4, 0, 28));
    text::lemma_same_between(g, 211, p4, 0, 28);
    assert(p4.subrange(0, 28) =~= p4);
    assert(g =~= g.subrange(0, 106) + g.subrange(106, 145) + g.subrange(145, 183) + g.subrange(183, 211) + g.subrange(211, 239));
}

/// The graph in its parts.
proof fn lemma_solid_parts()
    ensures
        GRAPH_SOLID@ == "color=c=0x141018:s=848x848:r=30[bg];"@ + "[1:v][0:v]overlay=(W-w)/2:(H-h)/2[rec];"@ + "[rec]rotate=a='2*PI*t/3':c=none[spun];"@ + "[bg][spun]overlay=3:3[disc];"@ + "[disc][3:v]overlay=3:3[outv]"@,
{
    reveal_strlit("color=c=0x141018:s=848x848:r=30[bg];[1:v][0:v]overlay=(W-w)/2:(H-h)/2[rec];[rec]rotate=a='2*PI*t/3':c=none[spun];[bg][spun]overlay=3:3[disc];[disc][3:v]overlay=3:3[outv]");
    reveal_strlit("color=c=0x141018:s=848x848:r=30[bg];");
    reveal_strlit("[1:v][0:v]overlay=(W-w)/2:(H-h)/2[rec];");
    reveal_strlit("[rec]rotate=a='2*PI*t/3':c=none[spun];");
    reveal_strlit("[bg][spun]overlay=3:3[disc];");
    reveal_strlit("[disc][3:v]overlay=3:3[outv]");
    reveal_with_fuel(text::same_between, 32);
    let g = GRAPH_SOLID@;
    let p0 = "color=c=0x141018:s=848x848:r=30[bg];"@;
    assert(text::same_between(g, 0, p0, 0, 30));
    assert(text::same_between(g, 0, p0, 30, 36));
    text::lemma_same_join(g, 0, p0, 0, 30, 36);
    text::lemma_same_between(g, 0, p0, 0, 36);
    assert(p0.subrange(0, 36) =~= p0);
    let p1 = "[1:v][0:v]overlay=(W-w)/2:(H-h)/2[rec];"@;
    assert(text::same_between(g, 36, p1, 0, 30));
    assert(text::same_between(g, 36, p1, 30, 39));
    text::lemma_same_join(g, 36, p1, 0, 30, 39);
    text::lemma_same_between(g, 36, p1, 0, 39);
    assert(p1.subrange(0, 39) =~= p1);
    let p2 = "[rec]rotate=a='2*PI*t/3':c=none[spun];"@;
    assert(text::same_between(g, 75, p2, 0, 30));
    assert(text::same_between(g, 75, p2, 30, 38));
    text::lemma_same_join(g, 75, p2, 0, 30, 38);
    text::lemma_same_between(g, 75, p2, 0, 38);
    assert(p2.subrange(0, 38) =~= p2);
    let p3 = "[bg][spun]overlay=3:3[disc];"@;
    assert(text::same_between(g, 113, p3, 0, 28));
    text::lemma_same_between(g, 113, p3, 0, 28);
    assert(p3.subrange(0, 28) =~= p3);
    let p4 = "[disc][3:v]overlay=3:3[outv]"@;
    assert(text::same_between(g, 141, p4, 0, 28));
    text::lemma_same_between(g, 141, p4, 0, 28);
    assert(p4.subrange(0, 28) =~= p4);
    assert(g =~= g.subrange(0, 36) + g.subrange(36, 75) + g.subrange(75, 113) + g.subrange(113, 141) + g.subrange(141, 169));
}

/// The graph in its parts.
proof fn lemma_note_cover_parts()
    ensures
        GRAPH_NOTE_COVER@ == "[3:v]scale=512:512:force_original_aspect_ratio=increase,crop=512:512,boxblur=20:1,eq=brightness=-0.18[bg];"@ + "[1:v]scale=512:512[d];[0:v]scale=170:170[l];[d][l]overlay=(W-w)/2:(H-h)/2[rec];"@ + "[rec]rotate=a='2*PI*t/3':c=none[spun];"@ + "[4:v]scale=512:512[shine];"@ + "[bg][spun]overlay=0:0[disc];"@ + "[disc][shine]overlay=0:0[outv]"@,
{
    reveal_strlit("[3:v]scale=512:512:force_original_aspect_ratio=increase,crop=512:512,boxblur=20:1,eq=brightness=-0.18[bg];[1:v]scale=512:512[d];[0:v]scale=170:170[l];[d][l]overlay=(W-w)/2:(H-h)/2[rec];[rec]rotate=a='2*PI*t/3':c=none[spun];[4:v]scale=512:512[shine];[bg][spun]overlay=0:0[disc];[disc][shine]overlay=0:0[outv]");
    reveal_strlit("[3:v]scale=512:512:force_original_aspect_ratio=increase,crop=512:512,boxblur=20:1,eq=brightness=-0.18[bg];");
    reveal_strlit("[1:v]scale=512:512[d];[0:v]scale=170:170[l];[d][l]overlay=(W-w)/2:(H-h)/2[rec];");
    reveal_strlit("[rec]rotate=a='2*PI*t/3':c=none[spun];");
    reveal_strlit("[4:v]scale=512:512[shine];");
    reveal_strlit("[bg][spun]overlay=0:0[disc];");
    reveal_strlit("[disc][shine]overlay=0:0[outv]");
    reveal_with_fuel(text::same_between, 32);
    let g = GRAPH_NOTE_COVER@;
    let p0 = "[3:v]scale=512:512:force_original_aspect_ratio=increase,crop=512:512,boxblur=20:1,eq=brightness=-0.18[bg];"@;
    assert(text::same_between(g, 0, p0, 0, 30));
    assert(text::same_between(g, 0, p0, 30, 60));
    assert(text::same_between(g, 0, p0, 60, 90));
    assert(text::same_between(g, 0, p0, 90, 106));
    text::lemma_same_join(g, 0, p0, 0, 30, 60);
    text::lemma_same_join(g, 0, p0, 0, 60, 90);
    text::lemma_same_join(g, 0, p0, 0, 90, 106);
    text::lemma_same_between(g, 0, p0, 0, 106);
    assert(p0.subrange(0, 106) =~= p0);
    let p1 = "[1:v]scale=512:512[d];[0:v]scale=170:170[l];[d][l]overlay=(W-w)/2:(H-h)/2[rec];"@;
    assert(text::same_between(g, 106, p1, 0, 30));
    assert(text::same_between(g, 106, p1, 30, 60));
    assert(text::same_between(g, 106, p1, 60, 79));
    text::lemma_same_join(g, 106, p1, 0, 30, 60);
    text::lemma_same_join(g, 106, p1, 0, 60, 79);
    text::lemma_same_between(g, 106, p1, 0, 79);
    assert(p1.subrange(0, 79) =~= p1);
    let p2 = "[rec]rotate=a='2*PI*t/3':c=none[spun];"@;
    assert(text::same_between(g, 185, p2, 0, 30));
    assert(text::same_between(g, 185, p2, 30, 38));
    text::lemma_same_join(g, 185, p2, 0, 30, 38);
    text::lemma_same_between(g, 185, p2, 0, 38);
    assert(p2.subrange(0, 38) =~= p2);
    let p3 = "[4:v]scale=512:512[shine];"@;
    assert(text::same_between(g, 223, p3, 0, 26));
    text::lemma_same_between(g, 223, p3, 0, 26);
    assert(p3.subrange(0, 26) =~= p3);
    let p4 = "[bg][spun]overlay=0:0[disc];"@;
    assert(text::same_between(g, 249, p4, 0, 28));
    text::lemma_same_between(g, 249, p4, 0, 28);
    assert(p4.subrange(0, 28) =~= p4);
    let p5 = "[disc][shine]overlay=0:0[outv]"@;
    assert(text::same_between(g, 277, p5, 0, 30));
    text::lemma_same_between(g, 277, p5, 0, 30);
    assert(p5.subrange(0, 30) =~= p5);
    assert(g =~= g.subrange(0, 106) + g.subrange(106, 185) + g.subrange(185, 223) + g.subrange(223, 249) + g.subrange(249, 277) + g.subrange(277, 307));
}

/// The graph in its parts.
proof fn lemma_note_solid_parts()
    ensures
        GRAPH_NOTE_SOLID@ == "color=c=black:s=512x512:r=30[bg];"@ + "[1:v]scale=512:512[d];[0:v]scale=170:170[l];[d][l]overlay=(W-w)/2:(H-h)/2[rec];"@ + "[rec]rotate=a='2*PI*t/3':c=none[spun];"@ + "[3:v]scale=512:512[shine];"@ + "[bg][spun]overlay=0:0[disc];"@ + "[disc][shine]overlay=0:0[outv]"@,
{
    reveal_strlit("color=c=black:s=512x512:r=30[bg];[1:v]scale=512:512[d];[0:v]scale=170:170[l];[d][l]overlay=(W-w)/2:(H-h)/2[rec];[rec]rotate=a='2*PI*t/3':c=none[spun];[3:v]scale=512:512[shine];[bg][spun]overlay=0:0[disc];[disc][shine]overlay=0:0[outv]");
    reveal_strlit("color=c=black:s=512x512:r=30[bg];");
    reveal_strlit("[1:v]scale=512:512[d];[0:v]scale=170:170[l];[d][l]overlay=(W-w)/2:(H-h)/2[rec];");
    reveal_strlit("[rec]rotate=a='2*PI*t/3':c=none[spun];");
    reveal_strlit("[3:v]scale=512:512[shine];");
    reveal_strlit("[bg][spun]overlay=0:0[disc];");
    reveal_strlit("[disc][shine]overlay=0:0[outv]");
    reveal_with_fuel(text::same_between, 32);
    let g = GRAPH_NOTE_SOLID@;
    let p0 = "color=c=black:s=512x512:r=30[bg];"@;
    assert(text::same_between(g, 0, p0, 0, 30));
    assert(text::same_between(g, 0, p0, 30, 33));
    text::lemma_same_join(g, 0, p0, 0, 30, 33);
    text::lemma_same_between(g, 0, p0, 0, 33);
    assert(p0.subrange(0, 33) =~= p0);
    let p1 = "[1:v]scale=512:512[d];[0:v]scale=170:170[l];[d][l]overlay=(W-w)/2:(H-h)/2[rec];"@;
    assert(text::same_between(g, 33, p1, 0, 30));
    assert(text::same_between(g, 33, p1, 30, 60));
    assert(text::same_between(g, 33, p1, 60, 79));
    text::lemma_same_join(g, 33, p1, 0, 30, 60);
    text::lemma_same_join(g, 33, p1, 0, 60, 79);
    text::lemma_same_between(g, 33, p1, 0, 79);
    assert(p1.subrange(0, 79) =~= p1);
    let p2 = "[rec]rotate=a='2*PI*t/3':c=none[spun];"@;
    assert(text::same_between(g, 112, p2, 0, 30));
    assert(text::same_between(g, 112, p2, 30, 38));
    text::lemma_same_join(g, 112, p2, 0, 30, 38);
    text::lemma_same_between(g, 112, p2, 0, 38);
    assert(p2.subrange(0, 38) =~= p2);
    let p3 = "[3:v]scale=512:512[shine];"@;
    assert(text::same_between(g, 150, p3, 0, 26));
    text::lemma_same_between(g, 150, p3, 0, 26);
    assert(p3.subrange(0, 26) =~= p3);
    let p4 = "[bg][spun]overlay=0:0[disc];"@;
    assert(text::same_between(g, 176, p4, 0, 28));
    text::lemma_same_between(g, 176, p4, 0, 28);
    assert(p4.subrange(0, 28) =~= p4);
    let p5 = "[disc][shine]overlay=0:0[outv]"@;
    assert(text::same_between(g, 204, p5, 0, 30));
    text::lemma_same_between(g, 204, p5, 0, 30);
    assert(p5.subrange(0, 30) =~= p5);
    assert(g =~= g.subrange(0, 33) + g.subrange(33, 112) + g.subrange(112, 150) + g.subrange(150, 176) + g.subrange(176, 204) + g.subrange(204, 234));
}

/// A full video, 848 pixels wide and high: the label sits in the middle of the
/// disc, both turn once in three seconds, they are laid onto the background three
/// pixels from its edges, and the shine is laid over them without turning. The
/// background is the cover, cropped, blurred and darkened, or one dark color.
pub proof fn law_full_video_graph(cover: bool)
    ensures
        video_graph_of(false, cover) == (if cover {
            "[3:v]scale=848:848:force_original_aspect_ratio=increase,crop=848:848,boxblur=30:1,eq=brightness=-0.18[bg];"@
        } else {
            "color=c=0x141018:s=848x848:r=30[bg];"@
        }) + "[1:v][0:v]overlay=(W-w)/2:(H-h)/2[rec];"@
            + "[rec]rotate=a='2*PI*t/3':c=none[spun];"@
            + "[bg][spun]overlay=3:3[disc];"@ + (if cover {
            "[disc][4:v]overlay=3:3[outv]"@
        } else {
            "[disc][3:v]overlay=3:3[outv]"@
        }),
{
    lemma_cover_parts();
    lemma_solid_parts();
}

/// A note, 512 pixels wide and high: the disc fills it, the label sits in its
/// middle, both turn once in three seconds, and the shine is laid over them
/// without turning. The background is the cover, cropped, blurred and darkened, or
/// black.
pub proof fn law_note_graph(cover: bool)
    ensures
        video_graph_of(true, cover) == (if cover {
            "[3:v]scale=512:512:force_original_aspect_ratio=increase,crop=512:512,boxblur=20:1,eq=brightness=-0.18[bg];"@
        } else {
            "color=c=black:s=512x512:r=30[bg];"@
        }) + "[1:v]scale=512:512[d];[0:v]scale=170:170[l];[d][l]overlay=(W-w)/2:(H-h)/2[rec];"@
            + "[rec]rotate=a='2*PI*t/3':c=none[spun];"@ + (if cover {
            "[4:v]scale=512:512[shine];"@
        } else {
            "[3:v]scale=512:512[shine];"@
        }) + "[bg][spun]overlay=0:0[disc];"@ + "[disc][shine]overlay=0:0[outv]"@,
{
    lemma_note_cover_parts();
    lemma_note_solid_parts();
}

/// The label with a cover: the cover, cropped to a square of 236 pixels, in the
/// middle of the sticker, in its middle a hole with a radius of nine pixels, and
/// all of it cut out by the mask.
pub proof fn law_cover_label_graph()
    ensures
        GRAPH_COVER_LABEL@ == "[2:v]format=rgba[base];"@ + "[0:v]scale=236:236:force_original_aspect_ratio=increase,crop=236:236[c];"@ + "[base][c]overlay=(W-w)/2:(H-h)/2[m];"@ + "[3:v]format=rgba,geq=r='r(X,Y)':g='g(X,Y)':b='b(X,Y)':a='if(lte(hypot(X-12,Y-12),9),255,0)'[hole];"@ + "[m][hole]overlay=(W-w)/2:(H-h)/2[mh];"@ + "[mh][1:v]alphamerge[out]"@,
{
    reveal_strlit("[2:v]format=rgba[base];[0:v]scale=236:236:force_original_aspect_ratio=increase,crop=236:236[c];[base][c]overlay=(W-w)/2:(H-h)/2[m];[3:v]format=rgba,geq=r='r(X,Y)':g='g(X,Y)':b='b(X,Y)':a='if(lte(hypot(X-12,Y-12),9),255,0)'[hole];[m][hole]overlay=(W-w)/2:(H-h)/2[mh];[mh][1:v]alphamerge[out]");
    reveal_strlit("[2:v]format=rgba[base];");
    reveal_strlit("[0:v]scale=236:236:force_original_aspect_ratio=increase,crop=236:236[c];");
    reveal_strlit("[base][c]overlay=(W-w)/2:(H-h)/2[m];");
    reveal_strlit("[3:v]format=rgba,geq=r='r(X,Y)':g='g(X,Y)':b='b(X,Y)':a='if(lte(hypot(X-12,Y-12),9),255,0)'[hole];");
    reveal_strlit("[m][hole]overlay=(W-w)/2:(H-h)/2[mh];");
    reveal_strlit("[mh][1:v]alphamerge[out]");
    reveal_with_fuel(text::same_between, 32);
    let g = GRAPH_COVER_LABEL@;
    let p0 = "[2:v]format=rgba[base];"@;
    assert(text::same_between(g, 0, p0, 0, 23));
    text::lemma_same_between(g, 0, p0, 0, 23);
    assert(p0.subrange(0, 23) =~= p0);
    let p1 = "[0:v]scale=236:236:force_original_aspect_ratio=increase,crop=236:236[c];"@;
    assert(text::same_between(g, 23, p1, 0, 30));
    assert(text::same_between(g, 23, p1, 30, 60));
    assert(text::same_between(g, 23, p1, 60, 72));
    text::lemma_same_join(g, 23, p1, 0, 30, 60);
    text::lemma_same_join(g, 23, p1, 0, 60, 72);
    text::lemma_same_between(g, 23, p1, 0, 72);
    assert(p1.subrange(0, 72) =~= p1);
    let p2 = "[base][c]overlay=(W-w)/2:(H-h)/2[m];"@;
    assert(text::same_between(g, 95, p2, 0, 30));
    assert(text::same_between(g, 95, p2, 30, 36));
    text::lemma_same_join(g, 95, p2, 0, 30, 36);
    text::lemma_same_between(g, 95, p2, 0, 36);
    assert(p2.subrange(0, 36) =~= p2);
    let p3 = "[3:v]format=rgba,geq=r='r(X,Y)':g='g(X,Y)':b='b(X,Y)':a='if(lte(hypot(X-12,Y-12),9),255,0)'[hole];"@;
    assert(text::same_between(g, 131, p3, 0, 30));
    assert(text::same_between(g, 131, p3, 30, 60));
    assert(text::same_between(g, 131, p3, 60, 90));
    assert(text::same_between(g, 131, p3, 90, 98));
    text::lemma_same_join(g, 131, p3, 0, 30, 60);
    text::lemma_same_join(g, 131, p3, 0, 60, 90);
    text::lemma_same_join(g, 131, p3, 0, 90, 98);
    text::lemma_same_between(g, 131, p3, 0, 98);
    assert(p3.subrange(0, 98) =~= p3);
    let p4 = "[m][hole]overlay=(W-w)/2:(H-h)/2[mh];"@;
    assert(text::same_between(g, 229, p4, 0, 30));
    assert(text::same_between(g, 229, p4, 30, 37));
    text::lemma_same_join(g, 229, p4, 0, 30, 37);
    text::lemma_same_between(g, 229, p4, 0, 37);
    assert(p4.subrange(0, 37) =~= p4);
    let p5 = "[mh][1:v]alphamerge[out]"@;
    assert(text::same_between(g, 266, p5, 0, 24));
    text::lemma_same_between(g, 266, p5, 0, 24);
    assert(p5.subrange(0, 24) =~= p5);
    assert(g =~= g.subrange(0, 23) + g.subrange(23, 95) + g.subrange(95, 131) + g.subrange(131, 229) + g.subrange(229, 266) + g.subrange(266, 290));
}

/// The shine is white, and seen between 26 and 418 pixels from the center only: a
/// band along the diagonal through the center, wide and faint with a narrow and
/// brighter one in it.
pub proof fn law_shine_is_a_white_band()
    ensures
        SHINE_FILTER@ == "format=rgba,geq=r='255':g='255':b='255':a='if(between(hypot(X-421,Y-421),26,418),"@ + "clip(30*exp(-pow((X+Y-842)/430,2))+110*exp(-pow((X+Y-842)/144,2)),0,150)"@ + ",0)'"@,
{
    reveal_strlit("format=rgba,geq=r='255':g='255':b='255':a='if(between(hypot(X-421,Y-421),26,418),clip(30*exp(-pow((X+Y-842)/430,2))+110*exp(-pow((X+Y-842)/144,2)),0,150),0)'");
    reveal_strlit("format=rgba,geq=r='255':g='255':b='255':a='if(between(hypot(X-421,Y-421),26,418),");
    reveal_strlit("clip(30*exp(-pow((X+Y-842)/430,2))+110*exp(-pow((X+Y-842)/144,2)),0,150)");
    reveal_strlit(",0)'");
    reveal_with_fuel(text::same_between, 32);
    let g = SHINE_FILTER@;
    let p0 = "format=rgba,geq=r='255':g='255':b='255':a='if(between(hypot(X-421,Y-421),26,418),"@;
    assert(text::same_between(g, 0, p0, 0, 30));
    assert(text::same_between(g, 0, p0, 30, 60));
    assert(text::same_between(g, 0, p0, 60, 81));
    text::lemma_same_join(g, 0, p0, 0, 30, 60);
    text::lemma_same_join(g, 0, p0, 0, 60, 81);
    text::lemma_same_between(g, 0, p0, 0, 81);
    assert(p0.subrange(0, 81) =~= p0);
    let p1 = "clip(30*exp(-pow((X+Y-842)/430,2))+110*exp(-pow((X+Y-842)/144,2)),0,150)"@;
    assert(text::same_between(g, 81, p1, 0, 30));
    assert(text::same_between(g, 81, p1, 30, 60));
    assert(text::same_between(g, 81, p1, 60, 72));
    text::lemma_same_join(g, 81, p1, 0, 30, 60);
    text::lemma_same_join(g, 81, p1, 0, 60, 72);
    text::lemma_same_between(g, 81, p1, 0, 72);
    assert(p1.subrange(0, 72) =~= p1);
    let p2 = ",0)'"@;
    assert(text::same_between(g, 153, p2, 0, 4));
    text::lemma_same_between(g, 153, p2, 0, 4);
    assert(p2.subrange(0, 4) =~= p2);
    assert(g =~= g.subrange(0, 81) + g.subrange(81, 153) + g.subrange(153, 157));
}

/// The mask shows what is at most 140 pixels from the center, and hides the rest.
pub proof fn law_mask_is_a_disc()
    ensures
        MASK_FILTER@ == "format=gray,geq=lum='if(lte(hypot(X-140,Y-140),140),255,0)'"@,
{
}

/// Whatever the graphs come out as, they are those of the laws.
pub proof fn law_graphs_come_out(
    text: &str,
    cr: u8,
    cg: u8,
    cb: u8,
    corners: &Vec<Corner>,
    label: String,
    center: String,
    rim: String,
    rib: String,
    note: bool,
    cover: bool,
    video: &'static str,
)
    requires
        corners@.len() == text@.len(),
        call_ensures(default_label_graph, (text, cr, cg, cb, corners), label),
        call_ensures(label_center_text_graph, (text, cr, cg, cb), center),
        call_ensures(reel_text_graph, (text, corners), rim),
        call_ensures(reel_center_text_graph, (text,), rib),
        call_ensures(video_graph, (note, cover), video),
    ensures
        label@ == label_graph_of(text@, cr, cg, cb, corners@),
        center@ == label_center_graph_of(text@, cr, cg, cb),
        rim@ == rim_graph_of(text@, corners@),
        rib@ == rib_graph_of(text@),
        video@ == (if note && cover {
            GRAPH_NOTE_COVER@
        } else if note {
            GRAPH_NOTE_SOLID@
        } else if cover {
            GRAPH_COVER@
        } else {
            GRAPH_SOLID@
        }),
{
}

/// Whatever the shapes of the rings and the turns of their glyphs come out as, they are
/// those of the laws: a label of 280 pixels with its text 98 from the center over 210
/// degrees, and a reel of 842 with its text 372 from the center, 46 apart.
pub proof fn law_shapes_come_out(ring: Ring, shape: RingShape, i: usize, n: usize, t: (i128, u128))
    requires
        call_ensures(ring_shape, (ring,), shape),
        i < n,
        call_ensures(turn, (ring, i, n), t),
    ensures
        ring is Label ==> shape == (RingShape {
            center: 140,
            radius: 98,
            half_box: 22,
            spread: Spread::Arc { degrees: 210 },
        }),
        ring is Rim ==> shape == (RingShape {
            center: 421,
            radius: 372,
            half_box: 30,
            spread: Spread::Pitch { pixels: 46 },
        }),
        ring is Label && n > 1 ==> t.0 == (2 * i - (n - 1)) * 210 && t.1 == 2 * (n - 1),
        ring is Label && n == 1 ==> t.0 == 0,
        ring is Rim ==> t.0 == (2 * i - (n - 1)) * 46 && t.1 == 2 * 372,
{
    law_label_turns(i as int, n as int);
    law_rim_turns(i as int, n as int);
}

} // verus!
