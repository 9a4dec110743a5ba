use vinilcut::graph::{
    arc_steps, default_label_graph, half_steps, label_center_text_graph, reel_center_text_graph,
    reel_text_graph, ring_shape, turn, video_graph, Corner, Ring, Spread, GRAPH_COVER, GRAPH_COVER_LABEL,
    GRAPH_NOTE_COVER, GRAPH_NOTE_SOLID, GRAPH_SOLID, MASK_FILTER, SHINE_FILTER,
};

fn label_places(n: usize) -> Vec<(f64, i64, i64)> {
    let arc = 210.0_f64.to_radians();
    (0..n)
        .map(|i| {
            let frac = if n > 1 {
                (i as f64 - (n as f64 - 1.0) / 2.0) / (n as f64 - 1.0)
            } else {
                0.0
            };
            let th = frac * arc;
            (
                th,
                (140.0 + 98.0 * th.sin() - 22.0).round() as i64,
                (140.0 - 98.0 * th.cos() - 22.0).round() as i64,
            )
        })
        .collect()
}

fn rim_places(n: usize) -> Vec<(f64, i64, i64)> {
    let step = 46.0 / 372.0;
    (0..n)
        .map(|i| {
            let th: f64 = (i as f64 - (n as f64 - 1.0) / 2.0) * step;
            (
                th,
                (421.0 + 372.0 * th.sin() - 30.0).round() as i64,
                (421.0 - 372.0 * th.cos() - 30.0).round() as i64,
            )
        })
        .collect()
}

fn corners(places: &[(f64, i64, i64)]) -> Vec<Corner> {
    places.iter().map(|(_, ox, oy)| Corner { ox: *ox, oy: *oy }).collect()
}

fn angles(g: &str) -> Vec<String> {
    g.split("rotate=a=").skip(1).map(|s| s.split(':').next().unwrap().to_string()).collect()
}

#[test]
fn label_graph_of_a_date() {
    for date in ["24.12.2024", "x", "", "a somewhat longer caption \u{1f4bf}"] {
        let chars: Vec<char> = date.chars().collect();
        let places = label_places(chars.len());
        let (cr, cg, cb) = (1, 22, 255);
        let mut g = format!(
            "format=rgba,geq=r='{cr}':g='{cg}':b='{cb}':a='if(lte(hypot(X-140,Y-140),138),255,0)'[t0];",
        );
        for (i, ch) in chars.iter().enumerate() {
            let (th, ox, oy) = places[i];
            g.push_str(&format!(
                "color=c=#00000000:s=44x44,format=rgba,drawtext=fontfile=assets/font.ttf:text='{ch}':fontsize=26:fontcolor=white:x=(w-text_w)/2:y=(h-text_h)/2,rotate=a={th:.4}:c=none[g{n1}];[t{i}][g{n1}]overlay={ox}:{oy}[t{n1}];",
                n1 = i + 1
            ));
        }
        g.push_str(&format!("[t{n}]null[out]", n = chars.len()));
        assert_eq!(default_label_graph(date, cr, cg, cb, &corners(&places)), g);
    }
}

#[test]
fn rim_graph_of_a_long_caption() {
    for text in ["a caption longer than ten", "abcdefghijk", "\u{e9}"] {
        let chars: Vec<char> = text.chars().collect();
        let places = rim_places(chars.len());
        let mut g = String::from("[0:v]format=rgba[t0];");
        for (i, ch) in chars.iter().enumerate() {
            let (th, ox, oy) = places[i];
            g.push_str(&format!(
                "color=c=#00000000:s=60x60,format=rgba,drawtext=fontfile=assets/font.ttf:text='{ch}':fontsize=40:fontcolor=black:borderw=2:bordercolor=black:x=(w-text_w)/2:y=(h-text_h)/2,rotate=a={th:.4}:c=none[g{n1}];[t{i}][g{n1}]overlay={ox}:{oy}[t{n1}];",
                n1 = i + 1
            ));
        }
        g.push_str(&format!("[t{n}]null[out]", n = chars.len()));
        assert_eq!(reel_text_graph(text, &corners(&places)), g);
    }
}

#[test]
fn rib_graph_of_a_short_caption() {
    let ang = -0.297_f64;
    let (dx, dy) = (238_i64, -83_i64);
    let ox = 421 + dx - 210;
    let oy = 421 + dy - 50;
    let text = "24.12.2024";
    let g = format!(
        "[0:v]format=rgba[base];\
color=c=#00000000:s=420x100,format=rgba,drawtext=fontfile=assets/font.ttf:text='{text}':\
fontsize=46:fontcolor=black:x=(w-text_w)/2:y=(h-text_h)/2,rotate={ang:.4}:c=none:ow=420:oh=100[t];\
[base][t]overlay={ox}:{oy}[out]"
    );
    assert_eq!(reel_center_text_graph(text), g);
}

#[test]
fn center_graph_of_a_short_caption() {
    assert_eq!(
        label_center_text_graph("24.12.2024", 1, 22, 255),
        "format=rgba,geq=r='1':g='22':b='255':a='if(lte(hypot(X-140,Y-140),138),255,0)'[t0];[t0]drawtext=fontfile=assets/font.ttf:text='24.12.2024':fontsize=26:fontcolor=white:x=(w-text_w)/2:y=(h-text_h)/2[out]",
    );
}

#[test]
fn rim_text_has_a_black_outline() {
    let g = reel_text_graph("abc", &corners(&rim_places(3)));
    assert_eq!(g.matches(":borderw=2:bordercolor=black:").count(), 3);
    assert!(!reel_center_text_graph("abc").contains("borderw"));
    assert!(!default_label_graph("abc", 0, 0, 0, &corners(&label_places(3))).contains("borderw"));
}

fn quoted(g: &str) -> Vec<&str> {
    let parts: Vec<&str> = g.split('\'').collect();
    assert_eq!(parts.len() % 2, 1);
    parts.into_iter().skip(1).step_by(2).collect()
}

#[test]
fn graphs_quote_the_caption() {
    let ground = ["1", "2", "3", "if(lte(hypot(X-140,Y-140),138),255,0)"];
    for text in ["d", "drawtext=", "overlay=", "dr dr \u{e9}", "Side A, first cut"] {
        let n = text.chars().count();
        let letters: Vec<String> = text.chars().map(|c| c.to_string()).collect();

        let rim = reel_text_graph(text, &corners(&rim_places(n)));
        assert_eq!(quoted(&rim), letters);
        assert_eq!(rim.matches('\'').count(), 2 * n);
        assert_eq!(rim.matches("drawtext=").count(), n);
        assert_eq!(rim.matches("overlay=").count(), n);

        let label = default_label_graph(text, 1, 2, 3, &corners(&label_places(n)));
        assert_eq!(quoted(&label)[..4], ground);
        assert_eq!(quoted(&label)[4..], letters);
        assert_eq!(label.matches("drawtext=").count(), n);
        assert_eq!(label.matches("overlay=").count(), n);

        assert_eq!(quoted(&reel_center_text_graph(text)), [text]);
        let center = label_center_text_graph(text, 1, 2, 3);
        assert_eq!(quoted(&center)[..4], ground);
        assert_eq!(quoted(&center)[4..], [text]);
    }
}

#[test]
fn text_does_not_wrap() {
    for n in 1..=40usize {
        let rim = rim_places(n);
        assert!(rim[n - 1].0 - rim[0].0 < 2.0 * std::f64::consts::PI);
        for i in 0..n {
            for j in 0..i {
                assert_ne!((rim[i].1, rim[i].2), (rim[j].1, rim[j].2));
            }
        }
    }
}

#[test]
fn a_glyph_keeps_its_place() {
    let at = vec![Corner { ox: -3, oy: 118 }, Corner { ox: 7, oy: 8 }];
    let g = default_label_graph("AB", 0, 0, 0, &at);
    assert!(g.contains("text='A'") && g.contains("text='B'"));
    assert!(g.contains("rotate=a=-1.8326:c=none[g1];[t0][g1]overlay=-3:118[t1];"));
    assert!(g.contains("rotate=a=1.8326:c=none[g2];[t1][g2]overlay=7:8[t2];[t2]null[out]"));
}

#[test]
fn upright_glyphs_sit_at_the_top() {
    let astray = Corner { ox: -3, oy: 118 };
    let lone = default_label_graph("A", 0, 0, 0, &vec![astray]);
    assert!(lone.contains("rotate=a=0.0000:c=none[g1];[t0][g1]overlay=118:20[t1];"));
    for n in [1usize, 11, 39] {
        let text = "x".repeat(n);
        let g = reel_text_graph(&text, &vec![astray; n]);
        assert_eq!(g.matches("rotate=a=0.0000:").count(), 1);
        assert_eq!(g.matches("overlay=391:19[").count(), 1);
        assert_eq!(rim_places(n)[n / 2], (0.0, 391, 19));
        assert_eq!(label_places(n)[n / 2], (0.0, 118, 20));
    }
    let even = reel_text_graph("xy", &vec![astray; 2]);
    assert!(!even.contains("overlay=391:19["));
}

#[test]
fn angles_are_those_of_the_curves() {
    for n in 1..=120usize {
        let text = "x".repeat(n);
        let label = default_label_graph(&text, 0, 0, 0, &corners(&label_places(n)));
        let expected: Vec<String> =
            label_places(n).iter().map(|(th, _, _)| format!("{th:.4}")).collect();
        assert_eq!(angles(&label), expected);
        let rim = reel_text_graph(&text, &corners(&rim_places(n)));
        let expected: Vec<String> =
            rim_places(n).iter().map(|(th, _, _)| format!("{th:.4}")).collect();
        assert_eq!(angles(&rim), expected);
    }
}

#[test]
fn turns_follow_the_curves() {
    assert_eq!(turn(Ring::Label, 0, 1).0, 0);
    assert_eq!(turn(Ring::Label, 0, 10), (-9 * 210, 18));
    assert_eq!(turn(Ring::Label, 9, 10), (9 * 210, 18));
    assert_eq!(turn(Ring::Rim, 0, 3), (-92, 744));
    assert_eq!(turn(Ring::Rim, 1, 3), (0, 744));
    for n in 2..=40usize {
        let (first, den) = turn(Ring::Label, 0, n);
        assert_eq!((first, turn(Ring::Label, n - 1, n).0), (-105 * den as i128, 105 * den as i128));
        for ring in [Ring::Label, Ring::Rim] {
            for i in 0..n {
                assert_eq!(turn(ring, i, n).0, -turn(ring, n - 1 - i, n).0);
                if i > 0 {
                    assert!(turn(ring, i - 1, n).0 < turn(ring, i, n).0);
                }
                // The corners that are measured from a turn are those of the curve.
                let (num, den) = turn(ring, i, n);
                let turned = num as f64 / den as f64;
                let (th, c, r, half, at) = match ring {
                    Ring::Label => (turned.to_radians(), 140.0, 98.0, 22.0, label_places(n)[i]),
                    Ring::Rim => (turned, 421.0, 372.0, 30.0, rim_places(n)[i]),
                };
                let ox = (c + r * th.sin() - half).round() as i64;
                let oy = (c - r * th.cos() - half).round() as i64;
                assert_eq!((ox, oy), (at.1, at.2));
            }
        }
    }
    let last = usize::MAX - 1;
    assert_eq!(turn(Ring::Label, last, usize::MAX).0, last as i128 * 210);
}

#[test]
fn graphs_hand_out_a_picture() {
    assert!(default_label_graph("", 0, 0, 0, &vec![]).ends_with("[out]"));
    assert!(reel_text_graph("", &vec![]).ends_with("[out]"));
    assert!(reel_center_text_graph("x").ends_with("[out]"));
    assert!(label_center_text_graph("x", 0, 0, 0).ends_with("[out]"));
    assert!(GRAPH_COVER_LABEL.ends_with("[out]"));
}

#[test]
fn glyphs_are_centered() {
    for n in 1..50usize {
        for i in 0..n {
            let offset = half_steps(i, n) as f64 / 2.0;
            assert_eq!(offset, i as f64 - (n as f64 - 1.0) / 2.0);
            assert_eq!(half_steps(i, n), -half_steps(n - 1 - i, n));
        }
    }
    assert_eq!(half_steps(0, 10), -9);
    assert_eq!(arc_steps(10), 9);
    assert_eq!(arc_steps(1), 1);
    assert_eq!(arc_steps(0), 1);
}

#[test]
fn rings_have_their_shapes() {
    let label = ring_shape(Ring::Label);
    assert_eq!((label.center, label.radius, label.half_box), (140, 98, 22));
    assert_eq!(label.spread, Spread::Arc { degrees: 210 });
    let rim = ring_shape(Ring::Rim);
    assert_eq!((rim.center, rim.radius, rim.half_box), (421, 372, 30));
    assert_eq!(rim.spread, Spread::Pitch { pixels: 46 });
    for (th, ox, oy) in label_places(40).into_iter().chain(label_places(1)) {
        assert!(th.abs() <= 1.8326);
        assert!(0 <= ox && ox + 44 <= 280 && 0 <= oy && oy + 44 <= 280);
    }
    for (_, ox, oy) in rim_places(40) {
        assert!(0 <= ox && ox + 60 <= 842 && 0 <= oy && oy + 60 <= 842);
    }
}

#[test]
fn video_graphs_are_picked() {
    assert_eq!(video_graph(true, true), GRAPH_NOTE_COVER);
    assert_eq!(video_graph(true, false), GRAPH_NOTE_SOLID);
    assert_eq!(video_graph(false, true), GRAPH_COVER);
    assert_eq!(video_graph(false, false), GRAPH_SOLID);
    assert_eq!(
        GRAPH_SOLID,
        "color=c=0x141018:s=848x848:r=30[bg];[1:v][0:v]overlay=(W-w)/2:(H-h)/2[rec];[rec]rotate=a='2*PI*t/3':c=none[spun];[bg][spun]overlay=3:3[disc];[disc][3:v]overlay=3:3[outv]",
    );
    assert!(GRAPH_COVER.contains("[4:v]") && GRAPH_NOTE_COVER.contains("[4:v]"));
    assert!(SHINE_FILTER.starts_with("format=rgba,geq=r='255':g='255':b='255':a='if("));
    assert!(MASK_FILTER.starts_with("format=gray,geq=lum="));
}
