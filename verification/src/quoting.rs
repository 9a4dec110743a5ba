//! What the filter graphs quote: a caption reaches `drawtext` letter for letter,
//! and nothing that it holds can end its quotes early.

use vstd::prelude::*;

use crate::caption;
use crate::color;
use crate::command;
use crate::graph;
use crate::graph::{Corner, Ring};
use crate::number;
use crate::text;

verus! {

/// The quotation marks of `s` come in pairs, and what stands within the pairs is
/// `pieces`, in this order.
pub open spec fn quotes(s: Seq<char>, pieces: Seq<Seq<char>>) -> bool {
    let parts = text::split_on(s, '\'');
    &&& parts.len() == 2 * pieces.len() + 1
    &&& forall|k: int| 0 <= k < pieces.len() ==> parts[2 * k + 1] == #[trigger] pieces[k]
}

/// Text without quotation marks quotes nothing.
proof fn lemma_plain(s: Seq<char>)
    requires
        text::free_of(s, '\''),
    ensures
        quotes(s, seq![]),
{
    text::lemma_split_none(s, '\'');
}

/// One text behind another quotes what either quotes.
proof fn lemma_quotes_join(s: Seq<char>, a: Seq<Seq<char>>, t: Seq<char>, b: Seq<Seq<char>>)
    requires
        quotes(s, a),
        quotes(t, b),
    ensures
        quotes(s + t, a + b),
{
    text::lemma_split_join(s, t, '\'');
    let p = text::split_on(s, '\'');
    let q = text::split_on(t, '\'');
    let r = text::split_on(s + t, '\'');
    let both = a + b;
    assert forall|k: int| 0 <= k < both.len() implies r[2 * k + 1] == #[trigger] both[k] by {
        if k < a.len() {
            assert(both[k] == a[k]);
            assert(r[2 * k + 1] == p[2 * k + 1]);
        } else {
            let j = k - a.len();
            assert(both[k] == b[j]);
            assert(r[2 * k + 1] == q[2 * j + 1]);
        }
    }
}

/// Text between a first part that ends with a quotation mark and a last part
/// that begins with one is quoted.
proof fn lemma_quoted_between(before: Seq<char>, x: Seq<char>, after: Seq<char>)
    requires
        before.len() > 0,
        before.last() == '\'',
        text::free_of(before.drop_last(), '\''),
        text::free_of(x, '\''),
        after.len() > 0,
        after[0] == '\'',
        text::free_of(after.skip(1), '\''),
    ensures
        quotes(before + x + after, seq![x]),
{
    let a = before.drop_last();
    let b = after.skip(1);
    assert(before + x + after =~= a.push('\'') + (x.push('\'') + b));
    text::lemma_split_first(a, '\'', x.push('\'') + b);
    text::lemma_split_first(x, '\'', b);
    text::lemma_split_none(b, '\'');
    let parts = text::split_on(before + x + after, '\'');
    assert(parts =~= seq![a, x, b]);
}

/// Digits, a sign and a point, at least one of them.
spec fn is_number(s: Seq<char>) -> bool {
    &&& s.len() > 0
    &&& forall|i: int|
        0 <= i < s.len() ==> '0' <= #[trigger] s[i] <= '9' || s[i] == '-' || s[i] == '.'
}

/// Numbers with four decimals hold digits, a sign and a point only.
proof fn lemma_four_decimals(num: int, den: int)
    requires
        den > 0,
    ensures
        is_number(number::four_decimals(num, den)),
{
    number::law_nearest_is_near(number::magnitude(num), den);
    let t = number::nearest(number::magnitude(num), den) as nat;
    number::lemma_decimal_digits(t / 10000);
    assert(is_number(number::with_four_decimals(t)));
}

/// The angle of a glyph is a number.
proof fn lemma_angle(ring: Ring, i: int, n: int)
    requires
        0 <= i < n,
    ensures
        is_number(graph::angle_of(ring, i, n)),
{
    match ring {
        Ring::Label => {
            lemma_four_decimals(
                graph::turn_of(ring, i, n).0 * graph::unit_of(ring).0,
                graph::turn_of(ring, i, n).1 * graph::unit_of(ring).1,
            );
        },
        Ring::Rim => {
            lemma_four_decimals(
                graph::turn_of(ring, i, n).0 * graph::unit_of(ring).0,
                graph::turn_of(ring, i, n).1 * graph::unit_of(ring).1,
            );
        },
    }
}

/// What stands in front of a glyph's character ends with a quotation mark, its
/// only one.
proof fn lemma_head_marks(ring: Ring)
    ensures
        graph::glyph_head_of(ring).len() == 78,
        graph::glyph_head_of(ring)[77] == '\'',
        text::free_of(graph::glyph_head_of(ring).subrange(0, 77), '\''),
{
    let head = graph::glyph_head_of(ring);
    reveal_with_fuel(text::clear_between, 34);
    match ring {
        Ring::Label => {
            reveal_strlit("color=c=#00000000:s=44x44,format=rgba,drawtext=fontfile=assets/font.ttf:text='");
            assert(text::clear_between(head, '\'', 0, 32));
            assert(text::clear_between(head, '\'', 32, 64));
            assert(text::clear_between(head, '\'', 64, 77));
            text::lemma_clear_join(head, '\'', 0, 32, 64);
            text::lemma_clear_join(head, '\'', 0, 64, 77);
            text::lemma_clear_between(head, '\'', 0, 77);
        },
        Ring::Rim => {
            reveal_strlit("color=c=#00000000:s=60x60,format=rgba,drawtext=fontfile=assets/font.ttf:text='");
            assert(text::clear_between(head, '\'', 0, 32));
            assert(text::clear_between(head, '\'', 32, 64));
            assert(text::clear_between(head, '\'', 64, 77));
            text::lemma_clear_join(head, '\'', 0, 32, 64);
            text::lemma_clear_join(head, '\'', 0, 64, 77);
            text::lemma_clear_between(head, '\'', 0, 77);
        },
    }
}

/// What stands behind a glyph's character begins with a quotation mark, its only
/// one.
proof fn lemma_style_marks(ring: Ring)
    ensures
        graph::glyph_style_of(ring).len() > 1,
        graph::glyph_style_of(ring)[0] == '\'',
        text::free_of(
            graph::glyph_style_of(ring).subrange(1, graph::glyph_style_of(ring).len() as int),
            '\'',
        ),
{
    let style = graph::glyph_style_of(ring);
    reveal_with_fuel(text::clear_between, 34);
    match ring {
        Ring::Label => {
            reveal_strlit("':fontsize=26:fontcolor=white:x=(w-text_w)/2:y=(h-text_h)/2,rotate=a=");
            assert(text::clear_between(style, '\'', 1, 33));
            assert(text::clear_between(style, '\'', 33, 65));
            assert(text::clear_between(style, '\'', 65, 69));
            text::lemma_clear_join(style, '\'', 1, 33, 65);
            text::lemma_clear_join(style, '\'', 1, 65, 69);
            text::lemma_clear_between(style, '\'', 1, 69);
        },
        Ring::Rim => {
            reveal_strlit("':fontsize=40:fontcolor=black:borderw=2:bordercolor=black:x=(w-text_w)/2:y=(h-text_h)/2,rotate=a=");
            assert(text::clear_between(style, '\'', 1, 33));
            assert(text::clear_between(style, '\'', 33, 65));
            assert(text::clear_between(style, '\'', 65, 97));
            text::lemma_clear_join(style, '\'', 1, 33, 65);
            text::lemma_clear_join(style, '\'', 1, 65, 97);
            text::lemma_clear_between(style, '\'', 1, 97);
        },
    }
}

/// Neither of two texts holds `c`, so both together do not.
proof fn lemma_free_join(a: Seq<char>, b: Seq<char>, c: char)
    requires
        text::free_of(a, c),
        text::free_of(b, c),
    ensures
        text::free_of(a + b, c),
{
    let s = a + b;
    assert forall|i: int| 0 <= i < s.len() implies #[trigger] s[i] != c by {
        if i < a.len() {
            assert(s[i] == a[i]);
        } else {
            assert(s[i] == b[i - a.len()]);
        }
    }
}

/// Numbers hold digits and a sign only.
proof fn lemma_numbers_free(n: nat, v: int, c: char)
    requires
        c == '\'' || c == 'd' || c == 'v',
    ensures
        text::free_of(number::decimal(n), c),
        text::free_of(number::signed_decimal(v), c),
{
    number::lemma_decimal_digits(n);
    if v < 0 {
        number::lemma_decimal_digits((-v) as nat);
        assert(text::free_of(seq!['-'], c));
        lemma_free_join(seq!['-'], number::decimal((-v) as nat), c);
    } else {
        number::lemma_decimal_digits(v as nat);
    }
}

/// The angle and the layers of a glyph hold no quotation mark, and neither the
/// first letter of `drawtext` nor the second of `overlay`.
proof fn lemma_layers_free(i: nat, angle: Seq<char>, c: char)
    requires
        is_number(angle),
        c == '\'' || c == 'd' || c == 'v',
    ensures
        text::free_of(graph::glyph_layers_of(i, angle), c),
{
    reveal_strlit(":c=none[g");
    reveal_strlit("];[t");
    reveal_strlit("][g");
    lemma_numbers_free(i, 0, c);
    lemma_numbers_free(i + 1, 0, c);
    let p1 = angle + ":c=none[g"@;
    lemma_free_join(angle, ":c=none[g"@, c);
    let p2 = p1 + number::decimal(i + 1);
    lemma_free_join(p1, number::decimal(i + 1), c);
    let p3 = p2 + "];[t"@;
    lemma_free_join(p2, "];[t"@, c);
    let p4 = p3 + number::decimal(i);
    lemma_free_join(p3, number::decimal(i), c);
    let p5 = p4 + "][g"@;
    lemma_free_join(p4, "][g"@, c);
    lemma_free_join(p5, number::decimal(i + 1), c);
}

/// The same holds of the place of a glyph, which ends a filter.
proof fn lemma_spot_free(i: nat, corner: Corner, c: char)
    requires
        c == '\'' || c == 'd' || c == 'v',
    ensures
        text::free_of(graph::glyph_spot_of(i, corner), c),
        graph::glyph_spot_of(i, corner).len() > 0,
        graph::glyph_spot_of(i, corner).last() == ';',
{
    reveal_strlit(":");
    reveal_strlit("[t");
    reveal_strlit("];");
    lemma_numbers_free(i, corner.ox as int, c);
    lemma_numbers_free(i + 1, corner.oy as int, c);
    let x = number::signed_decimal(corner.ox as int);
    let y = number::signed_decimal(corner.oy as int);
    let q1 = x + ":"@;
    lemma_free_join(x, ":"@, c);
    let q2 = q1 + y;
    lemma_free_join(q1, y, c);
    let q3 = q2 + "[t"@;
    lemma_free_join(q2, "[t"@, c);
    let q4 = q3 + number::decimal(i + 1);
    lemma_free_join(q3, number::decimal(i + 1), c);
    lemma_free_join(q4, "];"@, c);
}

/// Behind its style a glyph holds neither a quotation mark nor the first letter
/// of `drawtext`, and it ends a filter.
proof fn lemma_glyph_tail(i: nat, angle: Seq<char>, corner: Corner, c: char)
    requires
        is_number(angle),
        c == '\'' || c == 'd',
    ensures
        text::free_of(graph::glyph_tail_of(i, angle, corner), c),
        graph::glyph_tail_of(i, angle, corner).len() > 0,
        graph::glyph_tail_of(i, angle, corner).last() == ';',
{
    reveal_strlit("]overlay=");
    let layers = graph::glyph_layers_of(i, angle);
    let spot = graph::glyph_spot_of(i, corner);
    lemma_layers_free(i, angle, c);
    lemma_spot_free(i, corner, c);
    lemma_free_join(layers, "]overlay="@, c);
    lemma_free_join(layers + "]overlay="@, spot, c);
    assert((layers + "]overlay="@ + spot).last() == spot.last());
}

/// The filters of a glyph in their four parts.
proof fn lemma_step_parts(ring: Ring, i: nat, ch: char, angle: Seq<char>, corner: Corner)
    ensures
        graph::glyph_step_of(ring, i, ch, angle, corner) == graph::glyph_head_of(ring) + (seq![ch]
            + (graph::glyph_style_of(ring) + graph::glyph_tail_of(i, angle, corner))),
{
    let head = graph::glyph_head_of(ring);
    let style = graph::glyph_style_of(ring);
    let tail = graph::glyph_tail_of(i, angle, corner);
    assert(head.push(ch) + style + tail =~= head + (seq![ch] + (style + tail)));
}

/// The filters of a glyph quote its character.
proof fn lemma_step_quotes(ring: Ring, i: nat, ch: char, angle: Seq<char>, corner: Corner)
    requires
        ch != '\'',
        is_number(angle),
    ensures
        quotes(graph::glyph_step_of(ring, i, ch, angle, corner), seq![seq![ch]]),
{
    let head = graph::glyph_head_of(ring);
    let style = graph::glyph_style_of(ring);
    let tail = graph::glyph_tail_of(i, angle, corner);
    lemma_head_marks(ring);
    lemma_style_marks(ring);
    lemma_glyph_tail(i, angle, corner, '\'');
    assert(head.drop_last() =~= head.subrange(0, 77));
    let after = style + tail;
    let style_rest = style.subrange(1, style.len() as int);
    lemma_free_join(style_rest, tail, '\'');
    assert(after.skip(1) =~= style_rest + tail);
    lemma_quoted_between(head, seq![ch], after);
    lemma_step_parts(ring, i, ch, angle, corner);
    assert(head + seq![ch] + after =~= head + (seq![ch] + after));
}

/// The characters of `text`, each by itself.
pub open spec fn letters(text: Seq<char>) -> Seq<Seq<char>> {
    Seq::new(text.len(), |k: int| seq![text[k]])
}

/// The filters of the first `n` characters quote these.
proof fn lemma_steps_quote(ring: Ring, text: Seq<char>, corners: Seq<Corner>, n: nat)
    requires
        text::free_of(text, '\''),
        n <= text.len(),
        corners.len() == text.len(),
    ensures
        quotes(graph::glyph_steps_of(ring, text, corners, n), letters(text.take(n as int))),
    decreases n,
{
    if n == 0 {
        lemma_plain(seq![]);
        assert(letters(text.take(0)) =~= seq![]);
    } else {
        let m = (n - 1) as nat;
        lemma_steps_quote(ring, text, corners, m);
        let total = text.len() as int;
        let angle = graph::angle_of(ring, n - 1, total);
        let corner = graph::corner_of(ring, n - 1, total, corners[n - 1]);
        lemma_angle(ring, n - 1, total);
        lemma_step_quotes(ring, m, text[n - 1], angle, corner);
        lemma_quotes_join(
            graph::glyph_steps_of(ring, text, corners, m),
            letters(text.take(m as int)),
            graph::glyph_step_of(ring, m, text[n - 1], angle, corner),
            seq![seq![text[n - 1]]],
        );
        assert(letters(text.take(n as int)) =~= letters(text.take(m as int)) + seq![
            seq![text[n - 1]],
        ]);
    }
}

/// What hands the last layer out holds no quotation mark, and neither the first
/// letter of `drawtext` nor the second of `overlay`.
proof fn lemma_closing_free(n: nat, c: char)
    requires
        c == '\'' || c == 'd' || c == 'v',
    ensures
        text::free_of("[t"@ + number::decimal(n) + "]null[out]"@, c),
{
    reveal_strlit("[t");
    reveal_strlit("]null[out]");
    lemma_numbers_free(n, 0, c);
    lemma_free_join("[t"@, number::decimal(n), c);
    lemma_free_join("[t"@ + number::decimal(n), "]null[out]"@, c);
}

/// A lettering graph quotes what its ground quotes, and each character of its
/// text.
proof fn lemma_lettering_quotes(
    ring: Ring,
    ground: Seq<char>,
    pieces: Seq<Seq<char>>,
    text: Seq<char>,
    corners: Seq<Corner>,
)
    requires
        quotes(ground, pieces),
        text::free_of(text, '\''),
        corners.len() == text.len(),
    ensures
        quotes(graph::lettering_of(ring, ground, text, corners), pieces + letters(text)),
{
    let steps = graph::glyph_steps_of(ring, text, corners, text.len());
    let closing = "[t"@ + number::decimal(text.len()) + "]null[out]"@;
    lemma_steps_quote(ring, text, corners, text.len());
    assert(text.take(text.len() as int) =~= text);
    lemma_quotes_join(ground, pieces, steps, letters(text));
    lemma_closing_free(text.len(), '\'');
    lemma_plain(closing);
    lemma_quotes_join(ground + steps, pieces + letters(text), closing, seq![]);
    assert(pieces + letters(text) + seq![] =~= pieces + letters(text));
    assert(graph::lettering_of(ring, ground, text, corners) =~= ground + steps + closing);
}

/// What the ground of a label quotes: its color and where it is opaque.
pub open spec fn ground_pieces(cr: u8, cg: u8, cb: u8) -> Seq<Seq<char>> {
    seq![
        number::decimal(cr as nat),
        number::decimal(cg as nat),
        number::decimal(cb as nat),
        "if(lte(hypot(X-140,Y-140),138),255,0)"@,
    ]
}

proof fn lemma_ground_quotes(cr: u8, cg: u8, cb: u8)
    ensures
        quotes(graph::label_ground_of(cr, cg, cb), ground_pieces(cr, cg, cb)),
{
    reveal_strlit("format=rgba,geq=r='");
    reveal_strlit("':g='");
    reveal_strlit("':b='");
    reveal_strlit("':a='if(lte(hypot(X-140,Y-140),138),255,0)'[t0];");
    reveal_strlit("if(lte(hypot(X-140,Y-140),138),255,0)");
    reveal_strlit("'[t0];");
    let r = number::decimal(cr as nat);
    let g = number::decimal(cg as nat);
    let b = number::decimal(cb as nat);
    let a = "if(lte(hypot(X-140,Y-140),138),255,0)"@;
    lemma_numbers_free(cr as nat, 0, '\'');
    lemma_numbers_free(cg as nat, 0, '\'');
    lemma_numbers_free(cb as nat, 0, '\'');
    reveal_with_fuel(text::clear_between, 40);
    assert(text::clear_between(a, '\'', 0, a.len() as int));
    text::lemma_clear_between(a, '\'', 0, a.len() as int);
    assert(a.subrange(0, a.len() as int) =~= a);
    let first = "format=rgba,geq=r='"@;
    assert(text::clear_between(first, '\'', 0, 18));
    text::lemma_clear_between(first, '\'', 0, 18);
    assert(first.subrange(0, 18) =~= first.drop_last());
    let mark = seq!['\''];
    let p1 = first + r + mark;
    let p2 = seq![':', 'g', '=', '\''] + g + mark;
    let p3 = seq![':', 'b', '=', '\''] + b + mark;
    let p4 = seq![':', 'a', '=', '\''] + a + "'[t0];"@;
    lemma_quoted_between(first, r, mark);
    lemma_quoted_between(seq![':', 'g', '=', '\''], g, mark);
    lemma_quoted_between(seq![':', 'b', '=', '\''], b, mark);
    lemma_quoted_between(seq![':', 'a', '=', '\''], a, "'[t0];"@);
    lemma_quotes_join(p1, seq![r], p2, seq![g]);
    lemma_quotes_join(p1 + p2, seq![r] + seq![g], p3, seq![b]);
    lemma_quotes_join(p1 + p2 + p3, seq![r] + seq![g] + seq![b], p4, seq![a]);
    assert(seq![r] + seq![g] + seq![b] + seq![a] =~= ground_pieces(cr, cg, cb));
    assert(seq![':', 'a', '=', '\''] + a + "'[t0];"@
        =~= "':a='if(lte(hypot(X-140,Y-140),138),255,0)'[t0];"@.skip(1));
    assert(p1 + p2 + p3 + p4 =~= graph::label_ground_of(cr, cg, cb));
}

/// A record's label quotes its color, its outline and then each character of its
/// text, in order, and nothing else: no character ends the quotes early.
pub proof fn law_label_graph_quotes_its_text(
    text: Seq<char>,
    cr: u8,
    cg: u8,
    cb: u8,
    corners: Seq<Corner>,
)
    requires
        text::free_of(text, '\''),
        corners.len() == text.len(),
    ensures
        quotes(
            graph::label_graph_of(text, cr, cg, cb, corners),
            ground_pieces(cr, cg, cb) + letters(text),
        ),
{
    lemma_ground_quotes(cr, cg, cb);
    lemma_lettering_quotes(
        Ring::Label,
        graph::label_ground_of(cr, cg, cb),
        ground_pieces(cr, cg, cb),
        text,
        corners,
    );
}

/// The rim of a reel quotes each character of its text, in order, and nothing
/// else: there are two quotation marks for each character.
pub proof fn law_rim_graph_quotes_its_text(text: Seq<char>, corners: Seq<Corner>)
    requires
        text::free_of(text, '\''),
        corners.len() == text.len(),
    ensures
        quotes(graph::rim_graph_of(text, corners), letters(text)),
{
    reveal_strlit("[0:v]format=rgba[t0];");
    reveal_with_fuel(text::clear_between, 23);
    let ground = "[0:v]format=rgba[t0];"@;
    assert(text::clear_between(ground, '\'', 0, 21));
    text::lemma_clear_between(ground, '\'', 0, 21);
    assert(ground.subrange(0, 21) =~= ground);
    lemma_plain(ground);
    lemma_lettering_quotes(Ring::Rim, ground, seq![], text, corners);
    assert(Seq::<Seq<char>>::empty() + letters(text) =~= letters(text));
}

/// The parts around a label's straight text hold one quotation mark each, next
/// to it.
proof fn lemma_straight_marks()
    ensures
        "[t0]drawtext=fontfile=assets/font.ttf:text='"@.len() == 44,
        "[t0]drawtext=fontfile=assets/font.ttf:text='"@.last() == '\'',
        text::free_of("[t0]drawtext=fontfile=assets/font.ttf:text='"@.drop_last(), '\''),
        "':fontsize=26:fontcolor=white:x=(w-text_w)/2:y=(h-text_h)/2[out]"@.len() == 64,
        "':fontsize=26:fontcolor=white:x=(w-text_w)/2:y=(h-text_h)/2[out]"@[0] == '\'',
        text::free_of("':fontsize=26:fontcolor=white:x=(w-text_w)/2:y=(h-text_h)/2[out]"@.skip(1), '\''),
{
    reveal_strlit("[t0]drawtext=fontfile=assets/font.ttf:text='");
    reveal_strlit("':fontsize=26:fontcolor=white:x=(w-text_w)/2:y=(h-text_h)/2[out]");
    reveal_with_fuel(text::clear_between, 34);
    let before = "[t0]drawtext=fontfile=assets/font.ttf:text='"@;
    let after = "':fontsize=26:fontcolor=white:x=(w-text_w)/2:y=(h-text_h)/2[out]"@;
    assert(text::clear_between(before, '\'', 0, 32));
    assert(text::clear_between(before, '\'', 32, 43));
    text::lemma_clear_join(before, '\'', 0, 32, 43);
    text::lemma_clear_between(before, '\'', 0, 43);
    assert(before.subrange(0, 43) =~= before.drop_last());
    assert(text::clear_between(after, '\'', 1, 33));
    assert(text::clear_between(after, '\'', 33, 64));
    text::lemma_clear_join(after, '\'', 1, 33, 64);
    text::lemma_clear_between(after, '\'', 1, 64);
    assert(after.subrange(1, 64) =~= after.skip(1));
}

/// The parts around a reel's straight text hold one quotation mark each, next to
/// it.
proof fn lemma_rib_marks()
    ensures
        "[0:v]format=rgba[base];color=c=#00000000:s=420x100,format=rgba,drawtext=fontfile=assets/font.ttf:text='"@.len() == 103,
        "[0:v]format=rgba[base];color=c=#00000000:s=420x100,format=rgba,drawtext=fontfile=assets/font.ttf:text='"@.last() == '\'',
        text::free_of("[0:v]format=rgba[base];color=c=#00000000:s=420x100,format=rgba,drawtext=fontfile=assets/font.ttf:text='"@.drop_last(), '\''),
        "':fontsize=46:fontcolor=black:x=(w-text_w)/2:y=(h-text_h)/2,rotate=-0.2970:c=none:ow=420:oh=100[t];[base][t]overlay=449:288[out]"@.len() == 128,
        "':fontsize=46:fontcolor=black:x=(w-text_w)/2:y=(h-text_h)/2,rotate=-0.2970:c=none:ow=420:oh=100[t];[base][t]overlay=449:288[out]"@[0] == '\'',
        text::free_of("':fontsize=46:fontcolor=black:x=(w-text_w)/2:y=(h-text_h)/2,rotate=-0.2970:c=none:ow=420:oh=100[t];[base][t]overlay=449:288[out]"@.skip(1), '\''),
{
    reveal_strlit("[0:v]format=rgba[base];color=c=#00000000:s=420x100,format=rgba,drawtext=fontfile=assets/font.ttf:text='");
    reveal_strlit("':fontsize=46:fontcolor=black:x=(w-text_w)/2:y=(h-text_h)/2,rotate=-0.2970:c=none:ow=420:oh=100[t];[base][t]overlay=449:288[out]");
    reveal_with_fuel(text::clear_between, 34);
    let before = "[0:v]format=rgba[base];color=c=#00000000:s=420x100,format=rgba,drawtext=fontfile=assets/font.ttf:text='"@;
    let after = "':fontsize=46:fontcolor=black:x=(w-text_w)/2:y=(h-text_h)/2,rotate=-0.2970:c=none:ow=420:oh=100[t];[base][t]overlay=449:288[out]"@;
    assert(text::clear_between(before, '\'', 0, 32));
    assert(text::clear_between(before, '\'', 32, 64));
    assert(text::clear_between(before, '\'', 64, 96));
    assert(text::clear_between(before, '\'', 96, 102));
    text::lemma_clear_join(before, '\'', 0, 32, 64);
    text::lemma_clear_join(before, '\'', 0, 64, 96);
    text::lemma_clear_join(before, '\'', 0, 96, 102);
    text::lemma_clear_between(before, '\'', 0, 102);
    assert(before.subrange(0, 102) =~= before.drop_last());
    assert(text::clear_between(after, '\'', 1, 33));
    assert(text::clear_between(after, '\'', 33, 65));
    assert(text::clear_between(after, '\'', 65, 97));
    assert(text::clear_between(after, '\'', 97, 128));
    text::lemma_clear_join(after, '\'', 1, 33, 65);
    text::lemma_clear_join(after, '\'', 1, 65, 97);
    text::lemma_clear_join(after, '\'', 1, 97, 128);
    text::lemma_clear_between(after, '\'', 1, 128);
    assert(after.subrange(1, 128) =~= after.skip(1));
}

/// Straight text is quoted as a whole, in the center of a label and on the rib
/// of a reel alike.
pub proof fn law_straight_text_is_quoted(text: Seq<char>, cr: u8, cg: u8, cb: u8)
    requires
        text::free_of(text, '\''),
    ensures
        quotes(
            graph::label_center_graph_of(text, cr, cg, cb),
            ground_pieces(cr, cg, cb).push(text),
        ),
        quotes(graph::rib_graph_of(text), seq![text]),
{
    let before = "[t0]drawtext=fontfile=assets/font.ttf:text='"@;
    let after = "':fontsize=26:fontcolor=white:x=(w-text_w)/2:y=(h-text_h)/2[out]"@;
    lemma_straight_marks();
    lemma_quoted_between(before, text, after);
    lemma_ground_quotes(cr, cg, cb);
    let ground = graph::label_ground_of(cr, cg, cb);
    let pieces = ground_pieces(cr, cg, cb);
    lemma_quotes_join(ground, pieces, before + text + after, seq![text]);
    assert(pieces + seq![text] =~= pieces.push(text));
    assert(ground + (before + text + after) =~= graph::label_center_graph_of(text, cr, cg, cb));
    lemma_rib_marks();
    lemma_quoted_between(
        "[0:v]format=rgba[base];color=c=#00000000:s=420x100,format=rgba,drawtext=fontfile=assets/font.ttf:text='"@,
        text,
        "':fontsize=46:fontcolor=black:x=(w-text_w)/2:y=(h-text_h)/2,rotate=-0.2970:c=none:ow=420:oh=100[t];[base][t]overlay=449:288[out]"@,
    );
}

/// At how many places of `s` the text `part` stands.
pub open spec fn times(part: Seq<char>, s: Seq<char>) -> nat
    decreases s.len(),
{
    if s.len() == 0 || s.len() < part.len() {
        0
    } else {
        (if s.take(part.len() as int) == part {
            1nat
        } else {
            0
        }) + times(part, s.skip(1))
    }
}

/// No `drawtext` starts at a character that is not followed as its name is.
proof fn lemma_no_start(s: Seq<char>)
    requires
        s.len() > 0,
        s[0] != 'd' || (s.len() > 1 && s[1] != 'r'),
    ensures
        times("drawtext="@, s) == times("drawtext="@, s.skip(1)),
{
    reveal_strlit("drawtext=");
    let part = "drawtext="@;
    if s.len() >= 9 {
        let t = s.take(9);
        assert(t[0] == s[0] && t[1] == s[1]);
        assert(part[0] == 'd' && part[1] == 'r');
    }
}

/// No `drawtext` starts where there is no `d`.
proof fn lemma_run_adds_none(a: Seq<char>, rest: Seq<char>)
    requires
        text::free_of(a, 'd'),
    ensures
        times("drawtext="@, a + rest) == times("drawtext="@, rest),
    decreases a.len(),
{
    if a.len() == 0 {
        assert(a + rest =~= rest);
    } else {
        let b = a.skip(1);
        assert forall|i: int| 0 <= i < b.len() implies #[trigger] b[i] != 'd' by {
            assert(b[i] == a[i + 1]);
        }
        assert((a + rest)[0] == a[0]);
        lemma_no_start(a + rest);
        assert((a + rest).skip(1) =~= b + rest);
        lemma_run_adds_none(b, rest);
    }
}

/// A `d` that is not followed by an `r` starts no `drawtext`.
proof fn lemma_lone_d_adds_none(rest: Seq<char>)
    requires
        rest.len() > 0,
        rest[0] != 'r',
    ensures
        times("drawtext="@, seq!['d'] + rest) == times("drawtext="@, rest),
{
    let s = seq!['d'] + rest;
    assert(s[1] == rest[0]);
    lemma_no_start(s);
    assert(s.skip(1) =~= rest);
}

/// A `drawtext` counts once.
proof fn lemma_one_more(rest: Seq<char>)
    ensures
        times("drawtext="@, "drawtext="@ + rest) == 1 + times("drawtext="@, rest),
{
    reveal_strlit("drawtext=");
    let part = "drawtext="@;
    let s = part + rest;
    assert(s.take(9) =~= part);
    let tail = part.skip(1);
    assert(text::free_of(tail, 'd')) by {
        reveal_with_fuel(text::clear_between, 10);
        assert(text::clear_between(part, 'd', 1, 9));
        text::lemma_clear_between(part, 'd', 1, 9);
        assert(part.subrange(1, 9) =~= tail);
    }
    assert(s.skip(1) =~= tail + rest);
    lemma_run_adds_none(tail, rest);
}

/// Where two texts meet at a character that `part` does not hold, the counting
/// starts afresh.
proof fn lemma_times_meet(part: Seq<char>, s: Seq<char>, t: Seq<char>)
    requires
        part.len() > 0,
        s.len() > 0 && t.len() > 0 ==> text::free_of(part, s.last()) || text::free_of(part, t[0]),
    ensures
        times(part, s + t) == times(part, s) + times(part, t),
    decreases s.len(),
{
    let u = s + t;
    let m = part.len() as int;
    if s.len() == 0 {
        assert(u =~= t);
        assert(times(part, s) == 0);
    } else if t.len() == 0 {
        assert(u =~= s);
        assert(times(part, t) == 0);
    } else {
        let rest = s.skip(1);
        assert(rest.len() > 0 ==> rest.last() == s.last());
        lemma_times_meet(part, rest, t);
        assert(u.skip(1) =~= rest + t);
        if s.len() >= m {
            assert(u.take(m) =~= s.take(m));
        } else {
            assert(times(part, s) == 0 && times(part, rest) == 0);
            if u.len() >= m {
                let k = s.len() - 1;
                assert(u.take(m)[k] == s.last() && u.take(m)[k + 1] == t[0]);
                assert(part[k] != s.last() || part[k + 1] != t[0]);
            } else {
                assert(times(part, u) == 0 && times(part, u.skip(1)) == 0);
            }
        }
    }
}

/// Text without a character that `part` holds does not hold `part`.
proof fn lemma_times_none(part: Seq<char>, s: Seq<char>, c: char, k: int)
    requires
        0 <= k < part.len(),
        part[k] == c,
        text::free_of(s, c),
    ensures
        times(part, s) == 0,
    decreases s.len(),
{
    if s.len() > 0 && s.len() >= part.len() {
        let t = s.skip(1);
        assert forall|i: int| 0 <= i < t.len() implies #[trigger] t[i] != c by {
            assert(t[i] == s[i + 1]);
        }
        lemma_times_none(part, t, c, k);
        assert(s.take(part.len() as int)[k] == s[k]);
    }
}

/// No `drawtext` runs over the end of a filter.
proof fn lemma_times_join(s: Seq<char>, t: Seq<char>)
    requires
        s.len() > 0 ==> s.last() == ';',
    ensures
        times("drawtext="@, s + t) == times("drawtext="@, s) + times("drawtext="@, t),
{
    reveal_strlit("drawtext=");
    assert(text::free_of("drawtext="@, ';')) by {
        reveal_with_fuel(text::clear_between, 11);
        let part = "drawtext="@;
        assert(text::clear_between(part, ';', 0, 9));
        text::lemma_clear_between(part, ';', 0, 9);
        assert(part.subrange(0, 9) =~= part);
    }
    lemma_times_meet("drawtext="@, s, t);
}

/// What stands in front of a glyph's character holds one `drawtext`.
proof fn lemma_head_draws(ring: Ring, rest: Seq<char>)
    ensures
        times("drawtext="@, graph::glyph_head_of(ring) + rest) == 1 + times("drawtext="@, rest),
{
    let head = graph::glyph_head_of(ring);
    let part = "drawtext="@;
    reveal_strlit("drawtext=");
    reveal_with_fuel(text::clear_between, 40);
    match ring {
        Ring::Label => {
            reveal_strlit("color=c=#00000000:s=44x44,format=rgba,drawtext=fontfile=assets/font.ttf:text='");
            assert(text::clear_between(head, 'd', 0, 32));
            assert(text::clear_between(head, 'd', 32, 38));
            text::lemma_clear_join(head, 'd', 0, 32, 38);
            text::lemma_clear_between(head, 'd', 0, 38);
            assert(text::clear_between(head, 'd', 47, 78));
            text::lemma_clear_between(head, 'd', 47, 78);
        },
        Ring::Rim => {
            reveal_strlit("color=c=#00000000:s=60x60,format=rgba,drawtext=fontfile=assets/font.ttf:text='");
            assert(text::clear_between(head, 'd', 0, 32));
            assert(text::clear_between(head, 'd', 32, 38));
            text::lemma_clear_join(head, 'd', 0, 32, 38);
            text::lemma_clear_between(head, 'd', 0, 38);
            assert(text::clear_between(head, 'd', 47, 78));
            text::lemma_clear_between(head, 'd', 47, 78);
        },
    }
    let a = head.subrange(0, 38);
    let b = head.subrange(47, 78);
    assert(head.subrange(38, 47) =~= part);
    assert(head + rest =~= a + (part + (b + rest)));
    lemma_run_adds_none(a, part + (b + rest));
    lemma_one_more(b + rest);
    lemma_run_adds_none(b, rest);
}

/// What stands behind a glyph's character holds no `drawtext`.
proof fn lemma_style_draws(ring: Ring, rest: Seq<char>)
    ensures
        times("drawtext="@, graph::glyph_style_of(ring) + rest) == times("drawtext="@, rest),
{
    let style = graph::glyph_style_of(ring);
    reveal_with_fuel(text::clear_between, 40);
    match ring {
        Ring::Label => {
            reveal_strlit("':fontsize=26:fontcolor=white:x=(w-text_w)/2:y=(h-text_h)/2,rotate=a=");
            assert(text::clear_between(style, 'd', 0, 32));
            assert(text::clear_between(style, 'd', 32, 64));
            assert(text::clear_between(style, 'd', 64, 69));
            text::lemma_clear_join(style, 'd', 0, 32, 64);
            text::lemma_clear_join(style, 'd', 0, 64, 69);
            text::lemma_clear_between(style, 'd', 0, 69);
            assert(style.subrange(0, 69) =~= style);
            lemma_run_adds_none(style, rest);
        },
        Ring::Rim => {
            reveal_strlit("':fontsize=40:fontcolor=black:borderw=2:bordercolor=black:x=(w-text_w)/2:y=(h-text_h)/2,rotate=a=");
            assert(text::clear_between(style, 'd', 0, 32));
            assert(text::clear_between(style, 'd', 32, 33));
            text::lemma_clear_join(style, 'd', 0, 32, 33);
            text::lemma_clear_between(style, 'd', 0, 33);
            assert(text::clear_between(style, 'd', 34, 43));
            text::lemma_clear_between(style, 'd', 34, 43);
            assert(text::clear_between(style, 'd', 44, 76));
            assert(text::clear_between(style, 'd', 76, 97));
            text::lemma_clear_join(style, 'd', 44, 76, 97);
            text::lemma_clear_between(style, 'd', 44, 97);
            let a = style.subrange(0, 33);
            let b = style.subrange(34, 43);
            let c = style.subrange(44, 97);
            let third = c + rest;
            let second = b + (seq!['d'] + third);
            assert(style + rest =~= a + (seq!['d'] + second));
            lemma_run_adds_none(a, seq!['d'] + second);
            lemma_lone_d_adds_none(second);
            lemma_run_adds_none(b, seq!['d'] + third);
            lemma_lone_d_adds_none(third);
            lemma_run_adds_none(c, rest);
        },
    }
}

/// The filters of a glyph draw once and end a filter.
proof fn lemma_step_draws(ring: Ring, i: nat, ch: char, angle: Seq<char>, corner: Corner)
    requires
        is_number(angle),
    ensures
        times("drawtext="@, graph::glyph_step_of(ring, i, ch, angle, corner)) == 1,
        graph::glyph_step_of(ring, i, ch, angle, corner).len() > 0,
        graph::glyph_step_of(ring, i, ch, angle, corner).last() == ';',
{
    let head = graph::glyph_head_of(ring);
    let style = graph::glyph_style_of(ring);
    let tail = graph::glyph_tail_of(i, angle, corner);
    let behind = seq![ch] + (style + tail);
    lemma_step_parts(ring, i, ch, angle, corner);
    lemma_glyph_tail(i, angle, corner, 'd');
    lemma_style_marks(ring);
    lemma_head_draws(ring, behind);
    assert(behind[1] == '\'');
    lemma_no_start(behind);
    assert(behind.skip(1) =~= style + tail);
    lemma_style_draws(ring, tail);
    lemma_nothing_drawn(tail);
    assert((head + behind).last() == tail.last());
}

/// Text without a `d` draws nothing.
proof fn lemma_nothing_drawn(s: Seq<char>)
    requires
        text::free_of(s, 'd'),
    ensures
        times("drawtext="@, s) == 0,
{
    assert(s + Seq::<char>::empty() =~= s);
    lemma_run_adds_none(s, seq![]);
}

/// The filters of the first `n` characters draw `n` times.
proof fn lemma_steps_draw(ring: Ring, text: Seq<char>, corners: Seq<Corner>, n: nat)
    requires
        n <= corners.len() == text.len(),
    ensures
        times("drawtext="@, graph::glyph_steps_of(ring, text, corners, n)) == n,
        n > 0 ==> graph::glyph_steps_of(ring, text, corners, n).len() > 0
            && graph::glyph_steps_of(ring, text, corners, n).last() == ';',
    decreases n,
{
    if n == 0 {
        lemma_nothing_drawn(seq![]);
    } else {
        let m = (n - 1) as nat;
        let before = graph::glyph_steps_of(ring, text, corners, m);
        let total = text.len() as int;
        let angle = graph::angle_of(ring, n - 1, total);
        let corner = graph::corner_of(ring, n - 1, total, corners[n - 1]);
        let step = graph::glyph_step_of(ring, m, text[n - 1], angle, corner);
        lemma_angle(ring, n - 1, total);
        lemma_steps_draw(ring, text, corners, m);
        lemma_step_draws(ring, m, text[n - 1], angle, corner);
        lemma_times_join(before, step);
        assert((before + step).last() == step.last());
    }
}

/// A lettering graph on a ground that draws nothing draws each character once.
proof fn lemma_lettering_draws(
    ring: Ring,
    ground: Seq<char>,
    text: Seq<char>,
    corners: Seq<Corner>,
)
    requires
        text::free_of(ground, 'd'),
        ground.len() > 0,
        ground.last() == ';',
        corners.len() == text.len(),
    ensures
        times("drawtext="@, graph::lettering_of(ring, ground, text, corners)) == text.len(),
{
    let steps = graph::glyph_steps_of(ring, text, corners, text.len());
    let closing = "[t"@ + number::decimal(text.len()) + "]null[out]"@;
    lemma_nothing_drawn(ground);
    lemma_steps_draw(ring, text, corners, text.len());
    lemma_closing_free(text.len(), 'd');
    lemma_nothing_drawn(closing);
    lemma_times_join(steps, closing);
    lemma_times_join(ground, steps + closing);
    assert(graph::lettering_of(ring, ground, text, corners) =~= ground + (steps + closing));
}

/// The ground of a label draws no text, lays nothing over it and ends a filter.
proof fn lemma_ground_free(cr: u8, cg: u8, cb: u8, c: char)
    requires
        c == 'd' || c == 'v',
    ensures
        text::free_of(graph::label_ground_of(cr, cg, cb), c),
        graph::label_ground_of(cr, cg, cb).len() > 0,
        graph::label_ground_of(cr, cg, cb).last() == ';',
{
    let first = "format=rgba,geq=r='"@;
    let last = "':a='if(lte(hypot(X-140,Y-140),138),255,0)'[t0];"@;
    reveal_strlit("format=rgba,geq=r='");
    reveal_strlit("':g='");
    reveal_strlit("':b='");
    reveal_strlit("':a='if(lte(hypot(X-140,Y-140),138),255,0)'[t0];");
    reveal_with_fuel(text::clear_between, 34);
    assert(text::clear_between(first, c, 0, 19));
    text::lemma_clear_between(first, c, 0, 19);
    assert(first.subrange(0, 19) =~= first);
    assert(text::clear_between(last, c, 0, 32));
    assert(text::clear_between(last, c, 32, 48));
    text::lemma_clear_join(last, c, 0, 32, 48);
    text::lemma_clear_between(last, c, 0, 48);
    assert(last.subrange(0, 48) =~= last);
    lemma_numbers_free(cr as nat, 0, c);
    lemma_numbers_free(cg as nat, 0, c);
    lemma_numbers_free(cb as nat, 0, c);
    let p1 = first + number::decimal(cr as nat);
    lemma_free_join(first, number::decimal(cr as nat), c);
    let p2 = p1 + "':g='"@;
    lemma_free_join(p1, "':g='"@, c);
    let p3 = p2 + number::decimal(cg as nat);
    lemma_free_join(p2, number::decimal(cg as nat), c);
    let p4 = p3 + "':b='"@;
    lemma_free_join(p3, "':b='"@, c);
    let p5 = p4 + number::decimal(cb as nat);
    lemma_free_join(p4, number::decimal(cb as nat), c);
    lemma_free_join(p5, last, c);
}

/// A curved caption is drawn one character at a time: its graph holds as many
/// `drawtext` filters as the text has characters.
pub proof fn law_each_character_is_drawn_once(
    text: Seq<char>,
    cr: u8,
    cg: u8,
    cb: u8,
    corners: Seq<Corner>,
)
    requires
        corners.len() == text.len(),
    ensures
        times("drawtext="@, graph::rim_graph_of(text, corners)) == text.len(),
        times("drawtext="@, graph::label_graph_of(text, cr, cg, cb, corners)) == text.len(),
{
    reveal_with_fuel(text::clear_between, 50);
    reveal_strlit("[0:v]format=rgba[t0];");
    let rim = "[0:v]format=rgba[t0];"@;
    assert(text::clear_between(rim, 'd', 0, 21));
    text::lemma_clear_between(rim, 'd', 0, 21);
    assert(rim.subrange(0, 21) =~= rim);
    lemma_lettering_draws(Ring::Rim, rim, text, corners);
    lemma_ground_free(cr, cg, cb, 'd');
    lemma_lettering_draws(Ring::Label, graph::label_ground_of(cr, cg, cb), text, corners);
}

/// The letters of `overlay` that the proofs look at.
proof fn lemma_overlay_letters()
    ensures
        "overlay="@.len() == 8,
        "overlay="@[1] == 'v',
        "overlay="@[6] == 'y',
        text::free_of("overlay="@, ']'),
        text::free_of("overlay="@, ';'),
        text::free_of("overlay="@, '\''),
{
    reveal_strlit("overlay=");
    let part = "overlay="@;
    assert(part =~= seq!['o', 'v', 'e', 'r', 'l', 'a', 'y', '=']);
}

/// What stands around a glyph's character lays nothing over anything.
proof fn lemma_head_and_style_lay_none(ring: Ring)
    ensures
        text::free_of(graph::glyph_head_of(ring), 'v'),
        text::free_of(graph::glyph_style_of(ring), 'v'),
{
    let head = graph::glyph_head_of(ring);
    let style = graph::glyph_style_of(ring);
    reveal_with_fuel(text::clear_between, 34);
    match ring {
        Ring::Label => {
            reveal_strlit("color=c=#00000000:s=44x44,format=rgba,drawtext=fontfile=assets/font.ttf:text='");
            reveal_strlit("':fontsize=26:fontcolor=white:x=(w-text_w)/2:y=(h-text_h)/2,rotate=a=");
            assert(text::clear_between(head, 'v', 0, 32));
            assert(text::clear_between(head, 'v', 32, 64));
            assert(text::clear_between(head, 'v', 64, 78));
            text::lemma_clear_join(head, 'v', 0, 32, 64);
            text::lemma_clear_join(head, 'v', 0, 64, 78);
            text::lemma_clear_between(head, 'v', 0, 78);
            assert(text::clear_between(style, 'v', 0, 32));
            assert(text::clear_between(style, 'v', 32, 64));
            assert(text::clear_between(style, 'v', 64, 69));
            text::lemma_clear_join(style, 'v', 0, 32, 64);
            text::lemma_clear_join(style, 'v', 0, 64, 69);
            text::lemma_clear_between(style, 'v', 0, 69);
            assert(head.subrange(0, 78) =~= head);
            assert(style.subrange(0, 69) =~= style);
        },
        Ring::Rim => {
            reveal_strlit("color=c=#00000000:s=60x60,format=rgba,drawtext=fontfile=assets/font.ttf:text='");
            reveal_strlit("':fontsize=40:fontcolor=black:borderw=2:bordercolor=black:x=(w-text_w)/2:y=(h-text_h)/2,rotate=a=");
            assert(text::clear_between(head, 'v', 0, 32));
            assert(text::clear_between(head, 'v', 32, 64));
            assert(text::clear_between(head, 'v', 64, 78));
            text::lemma_clear_join(head, 'v', 0, 32, 64);
            text::lemma_clear_join(head, 'v', 0, 64, 78);
            text::lemma_clear_between(head, 'v', 0, 78);
            assert(text::clear_between(style, 'v', 0, 32));
            assert(text::clear_between(style, 'v', 32, 64));
            assert(text::clear_between(style, 'v', 64, 96));
            assert(text::clear_between(style, 'v', 96, 97));
            text::lemma_clear_join(style, 'v', 0, 32, 64);
            text::lemma_clear_join(style, 'v', 0, 64, 96);
            text::lemma_clear_join(style, 'v', 0, 96, 97);
            text::lemma_clear_between(style, 'v', 0, 97);
            assert(head.subrange(0, 78) =~= head);
            assert(style.subrange(0, 97) =~= style);
        },
    }
}

/// A signed number begins with nothing that stands in `overlay`.
proof fn lemma_signed_start(v: int)
    ensures
        number::signed_decimal(v).len() > 0,
        text::free_of("overlay="@, number::signed_decimal(v)[0]),
{
    number::lemma_decimal_digits(number::magnitude(v) as nat);
    assert(is_number(number::signed_decimal(v)));
    lemma_angle_start(number::signed_decimal(v));
}

/// Behind its style a glyph is laid over the layers once.
proof fn lemma_tail_lays(i: nat, angle: Seq<char>, corner: Corner)
    requires
        is_number(angle),
    ensures
        times("overlay="@, graph::glyph_tail_of(i, angle, corner)) == 1,
{
    let part = "overlay="@;
    let layers = graph::glyph_layers_of(i, angle);
    let spot = graph::glyph_spot_of(i, corner);
    let before = layers.push(']');
    reveal_strlit("]overlay=");
    reveal_strlit("overlay=");
    lemma_overlay_letters();
    lemma_layers_free(i, angle, 'v');
    lemma_spot_free(i, corner, 'v');
    lemma_times_none(part, before, 'v', 1);
    lemma_times_none(part, spot, 'v', 1);
    assert(times(part, part) == 1) by {
        assert(part.take(8) =~= part);
        assert(times(part, part.skip(1)) == 0);
    }
    lemma_signed_start(corner.ox as int);
    assert(spot[0] == number::signed_decimal(corner.ox as int)[0]);
    lemma_times_meet(part, part, spot);
    lemma_times_meet(part, before, part + spot);
    assert(layers + "]overlay="@ + spot =~= before + (part + spot));
}

/// A number begins with nothing that stands in `overlay`.
proof fn lemma_angle_start(angle: Seq<char>)
    requires
        is_number(angle),
    ensures
        text::free_of("overlay="@, angle[0]),
{
    reveal_strlit("overlay=");
    let part = "overlay="@;
    let c = angle[0];
    assert(part =~= seq!['o', 'v', 'e', 'r', 'l', 'a', 'y', '=']);
    assert(c < 'a' && c != '=');
}

/// The filters of a glyph lay one thing over another once and end a filter.
proof fn lemma_step_lays(ring: Ring, i: nat, ch: char, angle: Seq<char>, corner: Corner)
    requires
        is_number(angle),
    ensures
        times("overlay="@, graph::glyph_step_of(ring, i, ch, angle, corner)) == 1,
        graph::glyph_step_of(ring, i, ch, angle, corner).len() > 0,
        graph::glyph_step_of(ring, i, ch, angle, corner).last() == ';',
{
    let part = "overlay="@;
    let head = graph::glyph_head_of(ring);
    let style = graph::glyph_style_of(ring);
    let tail = graph::glyph_tail_of(i, angle, corner);
    lemma_overlay_letters();
    lemma_step_draws(ring, i, ch, angle, corner);
    lemma_step_parts(ring, i, ch, angle, corner);
    lemma_head_and_style_lay_none(ring);
    lemma_head_marks(ring);
    lemma_style_marks(ring);
    lemma_times_none(part, head, 'v', 1);
    lemma_times_none(part, style, 'v', 1);
    lemma_tail_lays(i, angle, corner);
    lemma_angle_start(angle);
    assert(tail[0] == graph::glyph_layers_of(i, angle)[0] == angle[0]);
    lemma_times_meet(part, style, tail);
    assert((style + tail)[0] == '\'');
    assert(times(part, seq![ch]) == 0);
    lemma_times_meet(part, seq![ch], style + tail);
    assert(head.last() == '\'');
    lemma_times_meet(part, head, seq![ch] + (style + tail));
}

/// The filters of the first `n` characters lay `n` glyphs over the layers.
proof fn lemma_steps_lay(ring: Ring, text: Seq<char>, corners: Seq<Corner>, n: nat)
    requires
        n <= corners.len() == text.len(),
    ensures
        times("overlay="@, graph::glyph_steps_of(ring, text, corners, n)) == n,
        n > 0 ==> graph::glyph_steps_of(ring, text, corners, n).len() > 0
            && graph::glyph_steps_of(ring, text, corners, n).last() == ';',
    decreases n,
{
    lemma_overlay_letters();
    if n == 0 {
        assert(times("overlay="@, seq![]) == 0);
    } else {
        let m = (n - 1) as nat;
        let before = graph::glyph_steps_of(ring, text, corners, m);
        let total = text.len() as int;
        let angle = graph::angle_of(ring, n - 1, total);
        let corner = graph::corner_of(ring, n - 1, total, corners[n - 1]);
        let step = graph::glyph_step_of(ring, m, text[n - 1], angle, corner);
        lemma_angle(ring, n - 1, total);
        lemma_steps_lay(ring, text, corners, m);
        lemma_step_lays(ring, m, text[n - 1], angle, corner);
        lemma_times_meet("overlay="@, before, step);
        assert((before + step).last() == step.last());
    }
}

/// A lettering graph on a ground that lays nothing over it lays each character
/// over it once.
proof fn lemma_lettering_lays(
    ring: Ring,
    ground: Seq<char>,
    text: Seq<char>,
    corners: Seq<Corner>,
)
    requires
        times("overlay="@, ground) == 0,
        ground.len() > 0,
        ground.last() == ';',
        corners.len() == text.len(),
    ensures
        times("overlay="@, graph::lettering_of(ring, ground, text, corners)) == text.len(),
{
    let part = "overlay="@;
    let steps = graph::glyph_steps_of(ring, text, corners, text.len());
    let closing = "[t"@ + number::decimal(text.len()) + "]null[out]"@;
    lemma_overlay_letters();
    lemma_steps_lay(ring, text, corners, text.len());
    lemma_closing_free(text.len(), 'v');
    lemma_times_none(part, closing, 'v', 1);
    lemma_times_meet(part, steps, closing);
    lemma_times_meet(part, ground, steps + closing);
    assert(graph::lettering_of(ring, ground, text, corners) =~= ground + (steps + closing));
}

/// A curved caption is laid over its ground one character at a time: its graph
/// holds as many `overlay` filters as the text has characters.
pub proof fn law_each_character_is_laid_once(
    text: Seq<char>,
    cr: u8,
    cg: u8,
    cb: u8,
    corners: Seq<Corner>,
)
    requires
        corners.len() == text.len(),
    ensures
        times("overlay="@, graph::rim_graph_of(text, corners)) == text.len(),
        times("overlay="@, graph::label_graph_of(text, cr, cg, cb, corners)) == text.len(),
{
    lemma_overlay_letters();
    reveal_with_fuel(text::clear_between, 23);
    reveal_strlit("[0:v]format=rgba[t0];");
    let rim = "[0:v]format=rgba[t0];"@;
    assert(text::clear_between(rim, 'y', 0, 21));
    text::lemma_clear_between(rim, 'y', 0, 21);
    assert(rim.subrange(0, 21) =~= rim);
    lemma_times_none("overlay="@, rim, 'y', 6);
    lemma_lettering_lays(Ring::Rim, rim, text, corners);
    lemma_ground_free(cr, cg, cb, 'v');
    lemma_times_none("overlay="@, graph::label_ground_of(cr, cg, cb), 'v', 1);
    lemma_lettering_lays(Ring::Label, graph::label_ground_of(cr, cg, cb), text, corners);
}

/// `parts` with a quotation mark between each two of them.
pub open spec fn joined(parts: Seq<Seq<char>>) -> Seq<char>
    decreases parts.len(),
{
    if parts.len() == 0 {
        seq![]
    } else if parts.len() == 1 {
        parts[0]
    } else {
        parts[0].push('\'') + joined(parts.skip(1))
    }
}

/// Parts without quotation marks are found again between the marks.
proof fn lemma_joined(parts: Seq<Seq<char>>)
    requires
        parts.len() > 0,
        forall|i: int| 0 <= i < parts.len() ==> text::free_of(#[trigger] parts[i], '\''),
    ensures
        text::split_on(joined(parts), '\'') == parts,
    decreases parts.len(),
{
    assert(text::free_of(parts[0], '\''));
    if parts.len() == 1 {
        text::lemma_split_none(parts[0], '\'');
        assert(parts =~= seq![parts[0]]);
    } else {
        let rest = parts.skip(1);
        assert forall|i: int| 0 <= i < rest.len() implies text::free_of(
            #[trigger] rest[i],
            '\'',
        ) by {
            assert(rest[i] == parts[i + 1]);
        }
        lemma_joined(rest);
        text::lemma_split_first(parts[0], '\'', joined(rest));
        assert(parts =~= seq![parts[0]] + rest);
    }
}

/// One more part in front.
proof fn lemma_joined_front(a: Seq<char>, parts: Seq<Seq<char>>)
    requires
        parts.len() > 0,
    ensures
        joined(seq![a] + parts) == a.push('\'') + joined(parts),
{
    assert((seq![a] + parts).skip(1) =~= parts);
}

/// How one part of a color is scaled by the gray value and clipped to a byte.
pub open spec fn scaled(part: u8, channel: char) -> Seq<char> {
    "clip("@ + number::decimal(part as nat) + seq!['*', channel] + "(X,Y)/140,0,255)"@
}

proof fn lemma_scaled_free(part: u8, channel: char)
    requires
        channel != '\'',
    ensures
        text::free_of(scaled(part, channel), '\''),
{
    reveal_strlit("clip(");
    reveal_strlit("(X,Y)/140,0,255)");
    lemma_numbers_free(part as nat, 0, '\'');
    let d = number::decimal(part as nat);
    lemma_free_join("clip("@, d, '\'');
    lemma_free_join("clip("@ + d, seq!['*', channel], '\'');
    let last = "(X,Y)/140,0,255)"@;
    reveal_with_fuel(text::clear_between, 20);
    assert(text::clear_between(last, '\'', 0, 16));
    text::lemma_clear_between(last, '\'', 0, 16);
    assert(last.subrange(0, 16) =~= last);
    lemma_free_join("clip("@ + d + seq!['*', channel], last, '\'');
}

proof fn lemma_tint_text(rgb: (u8, u8, u8))
    ensures
        color::tint_filter_of(rgb) == joined(
            seq![
                "geq=r="@,
                scaled(rgb.0, 'r'),
                ":g="@,
                scaled(rgb.1, 'g'),
                ":b="@,
                scaled(rgb.2, 'b'),
                ":a="@,
                "alpha(X,Y)"@,
                seq![],
            ],
        ),
{
    reveal_strlit("geq=r='clip(");
    reveal_strlit("*r(X,Y)/140,0,255)':g='clip(");
    reveal_strlit("*g(X,Y)/140,0,255)':b='clip(");
    reveal_strlit("*b(X,Y)/140,0,255)':a='alpha(X,Y)'");
    reveal_strlit("geq=r=");
    reveal_strlit(":g=");
    reveal_strlit(":b=");
    reveal_strlit(":a=");
    reveal_strlit("clip(");
    reveal_strlit("(X,Y)/140,0,255)");
    reveal_strlit("alpha(X,Y)");
    let end = "(X,Y)/140,0,255)"@;
    let clip = "clip("@;
    assert("geq=r='clip("@ =~= "geq=r="@.push('\'') + clip);
    assert("*r(X,Y)/140,0,255)':g='clip("@ =~= seq!['*', 'r'] + end.push('\'') + ":g="@.push('\'')
        + clip);
    assert("*g(X,Y)/140,0,255)':b='clip("@ =~= seq!['*', 'g'] + end.push('\'') + ":b="@.push('\'')
        + clip);
    assert("*b(X,Y)/140,0,255)':a='alpha(X,Y)'"@ =~= seq!['*', 'b'] + end.push('\'')
        + ":a="@.push('\'') + "alpha(X,Y)"@.push('\''));
    let r = scaled(rgb.0, 'r');
    let g = scaled(rgb.1, 'g');
    let b = scaled(rgb.2, 'b');
    let a = "alpha(X,Y)"@;
    let none = Seq::<char>::empty();
    let p8 = seq![a, none];
    lemma_joined_front(a, seq![none]);
    assert(seq![a] + seq![none] =~= p8);
    let p7 = seq![":a="@] + p8;
    lemma_joined_front(":a="@, p8);
    let p6 = seq![b] + p7;
    lemma_joined_front(b, p7);
    let p5 = seq![":b="@] + p6;
    lemma_joined_front(":b="@, p6);
    let p4 = seq![g] + p5;
    lemma_joined_front(g, p5);
    let p3 = seq![":g="@] + p4;
    lemma_joined_front(":g="@, p4);
    let p2 = seq![r] + p3;
    lemma_joined_front(r, p3);
    let p1 = seq!["geq=r="@] + p2;
    lemma_joined_front("geq=r="@, p2);
    assert(p1 =~= seq!["geq=r="@, r, ":g="@, g, ":b="@, b, ":a="@, a, none]);
    assert(color::tint_filter_of(rgb) =~= "geq=r="@.push('\'') + (r.push('\'') + (":g="@.push('\'')
        + (g.push('\'') + (":b="@.push('\'') + (b.push('\'') + (":a="@.push('\'') + (a.push('\'')
        + none))))))));
}

/// The filter that tints the disc scales red by the red part of the color, green by
/// the green part and blue by the blue part, and leaves alone what can be seen
/// through.
pub proof fn law_tint_scales_each_part(rgb: (u8, u8, u8))
    ensures
        text::split_on(color::tint_filter_of(rgb), '\'') == seq![
            "geq=r="@,
            scaled(rgb.0, 'r'),
            ":g="@,
            scaled(rgb.1, 'g'),
            ":b="@,
            scaled(rgb.2, 'b'),
            ":a="@,
            "alpha(X,Y)"@,
            seq![],
        ],
        quotes(
            color::tint_filter_of(rgb),
            seq![scaled(rgb.0, 'r'), scaled(rgb.1, 'g'), scaled(rgb.2, 'b'), "alpha(X,Y)"@],
        ),
{
    reveal_strlit("geq=r='clip(");
    reveal_strlit("*r(X,Y)/140,0,255)':g='clip(");
    reveal_strlit("*g(X,Y)/140,0,255)':b='clip(");
    reveal_strlit("*b(X,Y)/140,0,255)':a='alpha(X,Y)'");
    reveal_strlit("geq=r=");
    reveal_strlit(":g=");
    reveal_strlit(":b=");
    reveal_strlit(":a=");
    reveal_strlit("clip(");
    reveal_strlit("(X,Y)/140,0,255)");
    reveal_strlit("alpha(X,Y)");
    let none = Seq::<char>::empty();
    let r = scaled(rgb.0, 'r');
    let g = scaled(rgb.1, 'g');
    let b = scaled(rgb.2, 'b');
    let a = "alpha(X,Y)"@;
    lemma_scaled_free(rgb.0, 'r');
    lemma_scaled_free(rgb.1, 'g');
    lemma_scaled_free(rgb.2, 'b');
    let parts = seq!["geq=r="@, r, ":g="@, g, ":b="@, b, ":a="@, a, none];
    lemma_tint_text(rgb);
    lemma_joined(parts);
}

/// A disc of one color, 138 pixels in radius, in the middle of a square of 280, as
/// the layer that text goes onto.
pub open spec fn colored_disc(r: u8, g: u8, b: u8) -> Seq<char> {
    joined(
        seq![
            "format=rgba,geq=r="@,
            number::decimal(r as nat),
            ":g="@,
            number::decimal(g as nat),
            ":b="@,
            number::decimal(b as nat),
            ":a="@,
            "if(lte(hypot(X-140,Y-140),138),255,0)"@,
            "[t0];"@,
        ],
    )
}

proof fn lemma_ground_text(r: u8, g: u8, b: u8)
    ensures
        graph::label_ground_of(r, g, b) == colored_disc(r, g, b),
{
    reveal_strlit("format=rgba,geq=r='");
    reveal_strlit("':g='");
    reveal_strlit("':b='");
    reveal_strlit("':a='if(lte(hypot(X-140,Y-140),138),255,0)'[t0];");
    reveal_strlit("format=rgba,geq=r=");
    reveal_strlit(":g=");
    reveal_strlit(":b=");
    reveal_strlit(":a=");
    reveal_strlit("if(lte(hypot(X-140,Y-140),138),255,0)");
    reveal_strlit("[t0];");
    let first = "format=rgba,geq=r="@;
    let red = number::decimal(r as nat);
    let green = number::decimal(g as nat);
    let blue = number::decimal(b as nat);
    let mask = "if(lte(hypot(X-140,Y-140),138),255,0)"@;
    let last = "[t0];"@;
    assert("format=rgba,geq=r='"@ =~= first.push('\''));
    assert("':g='"@ =~= seq!['\''] + ":g="@.push('\''));
    assert("':b='"@ =~= seq!['\''] + ":b="@.push('\''));
    assert("':a='if(lte(hypot(X-140,Y-140),138),255,0)'[t0];"@ =~= seq!['\''] + ":a="@.push('\'')
        + mask.push('\'') + last);
    let p8 = seq![mask] + seq![last];
    lemma_joined_front(mask, seq![last]);
    let p7 = seq![":a="@] + p8;
    lemma_joined_front(":a="@, p8);
    let p6 = seq![blue] + p7;
    lemma_joined_front(blue, p7);
    let p5 = seq![":b="@] + p6;
    lemma_joined_front(":b="@, p6);
    let p4 = seq![green] + p5;
    lemma_joined_front(green, p5);
    let p3 = seq![":g="@] + p4;
    lemma_joined_front(":g="@, p4);
    let p2 = seq![red] + p3;
    lemma_joined_front(red, p3);
    let p1 = seq![first] + p2;
    lemma_joined_front(first, p2);
    assert(p1 =~= seq![first, red, ":g="@, green, ":b="@, blue, ":a="@, mask, last]);
    assert(graph::label_ground_of(r, g, b) =~= first.push('\'') + (red.push('\'') + (
    ":g="@.push('\'') + (green.push('\'') + (":b="@.push('\'') + (blue.push('\'') + (
    ":a="@.push('\'') + (mask.push('\'') + last))))))));
}

/// A label that carries a caption is a disc of the color that is asked for, with the
/// caption on it: straight across the center, or one character at a time.
pub proof fn law_label_is_a_colored_disc(
    text: Seq<char>,
    r: u8,
    g: u8,
    b: u8,
    corners: Seq<Corner>,
)
    ensures
        colored_disc(r, g, b).is_prefix_of(graph::label_graph_of(text, r, g, b, corners)),
        graph::label_center_graph_of(text, r, g, b) == colored_disc(r, g, b)
            + "[t0]drawtext=fontfile=assets/font.ttf:text='"@ + text
            + "':fontsize=26:fontcolor=white:x=(w-text_w)/2:y=(h-text_h)/2[out]"@,
{
    lemma_ground_text(r, g, b);
    let disc = colored_disc(r, g, b);
    let all = graph::label_graph_of(text, r, g, b, corners);
    assert(all.take(disc.len() as int) =~= disc);
}

/// A short caption is drawn in black on the right rib of the reel, in a box of 420 by
/// 100 pixels, turned by 0.2970 radians to the left and laid at 449:288.
pub proof fn law_rib_text(text: Seq<char>)
    ensures
        graph::rib_graph_of(text) == "[0:v]format=rgba[base];color=c=#00000000:s=420x100,format=rgba,drawtext=fontfile=assets/font.ttf:text='"@
            + text
            + "':fontsize=46:fontcolor=black:x=(w-text_w)/2:y=(h-text_h)/2,rotate=-0.2970:c=none:ow=420:oh=100[t];[base][t]overlay=449:288[out]"@,
{
}

/// `part` stands somewhere in `s`.
pub open spec fn stands_in(s: Seq<char>, part: Seq<char>) -> bool {
    exists|p: int| #[trigger] command::stands_at(s, part, p)
}

/// One character of a curved caption: drawn in the middle of a transparent box,
/// turned, and laid onto layer `i`, which makes layer `i + 1`.
pub open spec fn drawn_glyph(ring: Ring, i: nat, ch: char, angle: Seq<char>, at: Corner) -> Seq<
    char,
> {
    (match ring {
        Ring::Label =>
            "color=c=#00000000:s=44x44,format=rgba,drawtext=fontfile=assets/font.ttf:text='"@,
        Ring::Rim =>
            "color=c=#00000000:s=60x60,format=rgba,drawtext=fontfile=assets/font.ttf:text='"@,
    }) + seq![ch] + (match ring {
        Ring::Label => "':fontsize=26:fontcolor=white:x=(w-text_w)/2:y=(h-text_h)/2,rotate=a="@,
        Ring::Rim =>
            "':fontsize=40:fontcolor=black:borderw=2:bordercolor=black:x=(w-text_w)/2:y=(h-text_h)/2,rotate=a="@,
    }) + angle + ":c=none[g"@ + number::decimal(i + 1) + "];[t"@ + number::decimal(i) + "][g"@
        + number::decimal(i + 1) + "]overlay="@ + number::signed_decimal(at.ox as int) + ":"@
        + number::signed_decimal(at.oy as int) + "[t"@ + number::decimal(i + 1) + "];"@
}

proof fn lemma_step_is_drawn(ring: Ring, i: nat, ch: char, angle: Seq<char>, at: Corner)
    ensures
        graph::glyph_step_of(ring, i, ch, angle, at) == drawn_glyph(ring, i, ch, angle, at),
{
    let head = graph::glyph_head_of(ring);
    let style = graph::glyph_style_of(ring);
    let layers = graph::glyph_layers_of(i, angle);
    let a = number::signed_decimal(at.ox as int);
    let b = ":"@;
    let c = number::signed_decimal(at.oy as int);
    let d = "[t"@;
    let e = number::decimal(i + 1);
    let f = "];"@;
    let over = "]overlay="@;
    let front = head.push(ch) + style;
    lemma_regroup(front, layers, over, a, b, c, d, e, f);
    assert(head.push(ch) =~= head + seq![ch]);
    let l1 = ":c=none[g"@;
    let l2 = "];[t"@;
    let l3 = number::decimal(i);
    let l4 = "][g"@;
    lemma_regroup_layers(front, angle, l1, e, l2, l3, l4);
}

proof fn lemma_regroup(
    front: Seq<char>,
    layers: Seq<char>,
    over: Seq<char>,
    a: Seq<char>,
    b: Seq<char>,
    c: Seq<char>,
    d: Seq<char>,
    e: Seq<char>,
    f: Seq<char>,
)
    ensures
        front + (layers + over + (a + b + c + d + e + f)) == front + layers + over + a + b + c + d
            + e + f,
{
    assert(front + (layers + over + (a + b + c + d + e + f)) =~= front + layers + over + a + b + c
        + d + e + f);
}

proof fn lemma_regroup_layers(
    front: Seq<char>,
    angle: Seq<char>,
    l1: Seq<char>,
    e: Seq<char>,
    l2: Seq<char>,
    l3: Seq<char>,
    l4: Seq<char>,
)
    ensures
        front + (angle + l1 + e + l2 + l3 + l4 + e) == front + angle + l1 + e + l2 + l3 + l4 + e,
{
    assert(front + (angle + l1 + e + l2 + l3 + l4 + e) =~= front + angle + l1 + e + l2 + l3 + l4
        + e);
}

/// The filters of each character stand among those of the first `n`.
proof fn lemma_step_stands(ring: Ring, text: Seq<char>, corners: Seq<Corner>, n: nat, i: nat)
    requires
        i < n <= text.len(),
    ensures
        command::stands_at(
            graph::glyph_steps_of(ring, text, corners, n),
            graph::glyph_step_of(
                ring,
                i,
                text[i as int],
                graph::angle_of(ring, i as int, text.len() as int),
                graph::corner_of(ring, i as int, text.len() as int, corners[i as int]),
            ),
            graph::glyph_steps_of(ring, text, corners, i).len() as int,
        ),
    decreases n,
{
    let m = (n - 1) as nat;
    let before = graph::glyph_steps_of(ring, text, corners, m);
    let all = graph::glyph_steps_of(ring, text, corners, n);
    let p = graph::glyph_steps_of(ring, text, corners, i).len() as int;
    let step = graph::glyph_step_of(
        ring,
        i,
        text[i as int],
        graph::angle_of(ring, i as int, text.len() as int),
        graph::corner_of(ring, i as int, text.len() as int, corners[i as int]),
    );
    if i == m {
        assert(all.subrange(p, p + step.len()) =~= step);
    } else {
        lemma_step_stands(ring, text, corners, m, i);
        assert(all.subrange(p, p + step.len()) =~= before.subrange(p, p + step.len()));
    }
}

proof fn lemma_glyph_stands(
    ring: Ring,
    ground: Seq<char>,
    text: Seq<char>,
    corners: Seq<Corner>,
    i: nat,
)
    requires
        i < text.len(),
    ensures
        stands_in(
                graph::lettering_of(ring, ground, text, corners),
                drawn_glyph(
                    ring,
                    i,
                    text[i as int],
                    graph::angle_of(ring, i as int, text.len() as int),
                    graph::corner_of(ring, i as int, text.len() as int, corners[i as int]),
                ),
            ),
{
    let angle = graph::angle_of(ring, i as int, text.len() as int);
    let at = graph::corner_of(ring, i as int, text.len() as int, corners[i as int]);
    let step = drawn_glyph(ring, i, text[i as int], angle, at);
    lemma_step_is_drawn(ring, i, text[i as int], angle, at);
    lemma_step_stands(ring, text, corners, text.len(), i);
    let steps = graph::glyph_steps_of(ring, text, corners, text.len());
    let q = graph::glyph_steps_of(ring, text, corners, i).len() as int;
    let all = graph::lettering_of(ring, ground, text, corners);
    let p = ground.len() + q;
    assert(all.subrange(p, p + step.len()) =~= steps.subrange(q, q + step.len()));
    assert(command::stands_at(all, step, p));
}

/// Each character of a caption on the rim is drawn in black with a black outline, in
/// a box of 60 pixels, turned by 46 / 372 radians for each step from the middle of
/// the text, and laid where its box was measured to sit; the middle one of an odd
/// number is laid at the top.
pub proof fn law_rim_glyph(text: Seq<char>, corners: Seq<Corner>, i: nat)
    requires
        i < text.len(),
    ensures
        stands_in(
                graph::rim_graph_of(text, corners),
                drawn_glyph(
                    Ring::Rim,
                    i,
                    text[i as int],
                    number::four_decimals((2 * i - (text.len() - 1)) * 46 * 10000, 2 * 372int),
                    if 2 * i == text.len() - 1 {
                        Corner { ox: 391, oy: 19 }
                    } else {
                        corners[i as int]
                    },
                ),
            ),
        "[0:v]format=rgba[t0];"@.is_prefix_of(graph::rim_graph_of(text, corners)),
{
    let ground = "[0:v]format=rgba[t0];"@;
    lemma_glyph_stands(Ring::Rim, ground, text, corners, i);
    graph::law_rim_turns(i as int, text.len() as int);
    let all = graph::rim_graph_of(text, corners);
    assert(all.take(ground.len() as int) =~= ground);
}

/// Each character of a caption on the label is drawn in white, in a box of 44 pixels,
/// turned by its share of 210 degrees, and laid where its box was measured to sit;
/// the middle one of an odd number is laid at the top.
pub proof fn law_label_glyph(
    text: Seq<char>,
    r: u8,
    g: u8,
    b: u8,
    corners: Seq<Corner>,
    i: nat,
)
    requires
        i < text.len(),
    ensures
        stands_in(
                graph::label_graph_of(text, r, g, b, corners),
                drawn_glyph(
                    Ring::Label,
                    i,
                    text[i as int],
                    number::four_decimals(
                        (2 * i - (text.len() - 1)) * 210 * 17453292519943296,
                        2 * (if text.len() > 1 {
                            text.len() - 1
                        } else {
                            1
                        }) * 100000000000000,
                    ),
                    if 2 * i == text.len() - 1 {
                        Corner { ox: 118, oy: 20 }
                    } else {
                        corners[i as int]
                    },
                ),
            ),
{
    lemma_glyph_stands(Ring::Label, graph::label_ground_of(r, g, b), text, corners, i);
    graph::law_label_turns(i as int, text.len() as int);
}

/// Whatever the user wrote, its caption holds no quotation mark; so the graphs
/// quote it as they should.
pub proof fn law_caption_has_no_quote(written: Seq<char>, date: Seq<char>)
    requires
        caption::is_date_text(date),
    ensures
        text::free_of(caption::safe_caption_of(written), '\''),
        text::free_of(caption::caption_or_of(written, date), '\''),
{
    caption::law_safe_caption_is_fit(written);
    caption::law_caption_is_usable(written, date);
    let safe = caption::safe_caption_of(written);
    assert forall|i: int| 0 <= i < safe.len() implies #[trigger] safe[i] != '\'' by {
        assert(!caption::breaks_drawtext(safe[i]));
    }
    let shown = caption::caption_or_of(written, date);
    assert forall|i: int| 0 <= i < shown.len() implies #[trigger] shown[i] != '\'' by {
        assert(!caption::breaks_drawtext(shown[i]));
    }
}

} // verus!
