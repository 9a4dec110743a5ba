use vinilcut::clock::{now_ns, reading_or_start, MOST_NANOS};
use vinilcut::double::{seconds_or_zero, Double};
use vinilcut::form::{FieldUse, Form, Request};
use vinilcut::graph::{Corner, Ring, GRAPH_COVER_LABEL, GRAPH_NOTE_COVER, GRAPH_SOLID};
use vinilcut::render::{
    duration_text, effective_seconds, ensure_disc, job_id, job_paths, reckoned_seconds, Action, DiscMove,
    DiscStage, Reason, Render, Stage,
};
use vinilcut::reply::Status;

const DATE: &str = "24.12.2024";

fn filled(fields: &[(&str, &[u8])]) -> Form {
    let mut form = Form::new();
    for (name, data) in fields {
        form.accept(name, data);
    }
    form
}

fn places(request: &Request) -> Vec<Corner> {
    match request.ring() {
        Some(_) => request
            .caption
            .chars()
            .map(|_| Corner { ox: 1, oy: 2 })
            .collect(),
        None => Vec::new(),
    }
}

fn plan(fields: &[(&str, &[u8])]) -> Render {
    let request = filled(fields).request_on(DATE);
    let corners = places(&request);
    Render::new(request, job_paths("7", '/'), '/', corners)
}

fn args(action: Action) -> Vec<String> {
    match action {
        Action::Run(args) => args,
        Action::Encode(args) => args,
        other => panic!("{other:?}"),
    }
}

fn look(action: Action) -> String {
    match action {
        Action::Look(path) => path,
        other => panic!("{other:?}"),
    }
}

fn refusal(action: Action) -> (Status, String) {
    match action {
        Action::Refuse(r) => (r.status, r.message),
        other => panic!("{other:?}"),
    }
}

#[test]
fn a_blank_form() {
    let form = Form::new();
    assert!(!form.have_cover && !form.have_audio && !form.note);
    assert_eq!(form.disc_hex, "#2e2e34");
    assert_eq!(form.label_hex, "#000000");
    assert_eq!(form.disc_type, "vinyl");
    assert_eq!(form.caption, "");
}

#[test]
fn fields_are_read() {
    let mut form = Form::new();
    assert_eq!(form.accept("image", b"png"), FieldUse::Cover);
    assert_eq!(form.accept("audio", b"mp3"), FieldUse::Audio);
    assert_eq!(form.accept("mode", b"note"), FieldUse::Kept);
    assert_eq!(form.accept("disc_color", b"#010203"), FieldUse::Kept);
    assert_eq!(form.accept("label_color", b"#040506"), FieldUse::Kept);
    assert_eq!(form.accept("disc_type", b" reel \n"), FieldUse::Kept);
    assert_eq!(form.accept("text", "caf\u{e9}".as_bytes()), FieldUse::Kept);
    assert!(form.have_cover && form.have_audio && form.note);
    assert_eq!(form.disc_hex, "#010203");
    assert_eq!(form.label_hex, "#040506");
    assert_eq!(form.disc_type, "reel");
    assert_eq!(form.caption, "caf\u{e9}");
    form.accept("mode", b"notes");
    assert!(!form.note);
    form.accept("text", b"");
    assert_eq!(form.caption, "");
}

#[test]
fn bytes_that_are_no_text_are_replaced() {
    let form = filled(&[("text", b"a\xffb")]);
    assert_eq!(form.caption, "a\u{fffd}b");
}

#[test]
fn empty_and_unknown_fields_are_ignored() {
    let mut form = Form::new();
    for name in ["image", "audio", "disc_color", "label_color", "disc_type", "nonsense", ""] {
        assert_eq!(form.accept(name, b""), FieldUse::Kept);
    }
    assert_eq!(form.accept("nonsense", b"x"), FieldUse::Kept);
    assert!(!form.have_cover && !form.have_audio);
    assert_eq!(form.disc_hex, "#2e2e34");
    assert_eq!(form.disc_type, "vinyl");
}

#[test]
fn the_later_field_counts() {
    let form = filled(&[("disc_color", b"#111111"), ("text", b"x"), ("disc_color", b"#222222")]);
    assert_eq!(form.disc_hex, "#222222");
    assert_eq!(form.caption, "x");
}

#[test]
fn requests_follow_the_form() {
    let r = filled(&[("audio", b"a"), ("image", b"i"), ("disc_color", b"#0a0b0c")])
        .request_on(DATE);
    assert!(r.audio && r.cover && !r.reel && !r.note);
    assert_eq!(r.disc, (10, 11, 12));
    assert_eq!(r.label, (0, 0, 0));
    assert_eq!(r.caption, DATE);
    assert_eq!(r.ring(), None);

    let plain = filled(&[("audio", b"a")]).request_on(DATE);
    assert!(!plain.cover);
    assert_eq!(plain.disc, (46, 46, 52));
    assert_eq!(plain.ring(), None);
    let curved = filled(&[("audio", b"a"), ("text", b"elevenchars")]).request_on(DATE);
    assert_eq!(curved.ring(), Some(Ring::Label));
    let covered = filled(&[("image", b"i"), ("text", b"elevenchars")]).request_on(DATE);
    assert_eq!(covered.ring(), None);

    let reel = filled(&[("image", b"i"), ("disc_type", b"reel")]).request_on(DATE);
    assert!(reel.reel && !reel.cover);
    assert_eq!(reel.ring(), None);

    let long = filled(&[("disc_type", b"reel"), ("text", b"elevenchars")]).request_on(DATE);
    assert_eq!(long.caption, "elevenchars");
    assert_eq!(long.ring(), Some(Ring::Rim));

    let today = filled(&[("text", b"Side B")]).request();
    assert_eq!(today.caption, "Side B");
}

#[test]
fn jobs_have_their_own_files() {
    assert_eq!(job_id(0), "0");
    assert_eq!(job_id(1_700_000_000_123_456_789), "1700000000123456789");
    let p = job_paths("42", '/');
    assert_eq!(p.dir, "work/r-42");
    assert_eq!(p.cover, "work/r-42/cover_input");
    assert_eq!(p.cover_png, "work/r-42/cover.png");
    assert_eq!(p.audio, "work/r-42/audio_input");
    assert_eq!(p.label, "work/r-42/label.png");
    assert_eq!(p.out, "work/r-42/out.mp4");
    assert_eq!(p.reel_text, "work/r-42/reel_text.png");
    assert_eq!(job_paths("42", '\\').out, "work\\r-42\\out.mp4");
    assert_ne!(job_paths(&job_id(1), '/').dir, job_paths(&job_id(11), '/').dir);
}

#[test]
fn the_clock_moves_on() {
    let a = now_ns();
    let b = now_ns();
    assert!(a > 1_600_000_000_000_000_000 && b >= a);
    assert!(b <= MOST_NANOS);
    assert_eq!(MOST_NANOS, std::time::Duration::MAX.as_nanos());
    assert_eq!(reading_or_start(Some(5)), 5);
    assert_eq!(reading_or_start(None), 0);
}

#[test]
fn audio_is_required() {
    let r = plan(&[("image", b"i")]);
    assert_eq!(r.stage, Stage::Refused(Reason::NoAudio));
    assert_eq!(
        refusal(r.action()),
        (Status::BadRequest, "An audio file is required.".to_string()),
    );
}

#[test]
fn a_record_without_a_cover() {
    let mut r = plan(&[("audio", b"a"), ("text", b"A"), ("label_color", b"#010203")]);
    assert_eq!(
        args(r.action()),
        vec![
            "-y", "-v", "error", "-f", "lavfi", "-i", "color=c=black:s=280x280",
            "-filter_complex",
            "format=rgba,geq=r='1':g='2':b='3':a='if(lte(hypot(X-140,Y-140),138),255,0)'[t0];[t0]drawtext=fontfile=assets/font.ttf:text='A':fontsize=26:fontcolor=white:x=(w-text_w)/2:y=(h-text_h)/2[out]",
            "-map", "[out]", "-frames:v", "1", "work/r-7/label.png",
        ],
    );
    r.answer(true);
    assert_eq!(look(r.action()), "work/disc_2e2e34.png");
    r.answer(false);
    assert_eq!(look(r.action()), "assets/disc_base.png");
    r.answer(true);
    assert_eq!(
        args(r.action()),
        vec![
            "-y", "-v", "error", "-i", "assets/disc_base.png", "-vf",
            "geq=r='clip(46*r(X,Y)/140,0,255)':g='clip(46*g(X,Y)/140,0,255)':b='clip(52*b(X,Y)/140,0,255)':a='alpha(X,Y)'",
            "-frames:v", "1", "-update", "1", "work/disc_2e2e34.png",
        ],
    );
    r.answer(true);
    assert_eq!(look(r.action()), "work/disc_2e2e34.png");
    r.answer(true);
    assert_eq!(r.stage, Stage::Ready);
    assert_eq!(
        args(r.action()),
        vec![
            "-y", "-v", "error", "-nostats", "-progress", "pipe:1",
            "-loop", "1", "-i", "work/r-7/label.png",
            "-loop", "1", "-i", "work/disc_2e2e34.png",
            "-i", "work/r-7/audio_input",
            "-loop", "1", "-i", "assets/shine.png",
            "-filter_complex", GRAPH_SOLID,
            "-map", "[outv]", "-map", "2:a", "-r", "30", "-shortest",
            "-c:v", "libx264", "-preset", "veryfast", "-crf", "20", "-pix_fmt", "yuv420p",
            "-c:a", "aac", "-b:a", "192k", "-movflags", "+faststart", "work/r-7/out.mp4",
        ],
    );
    r.answer(false);
    assert_eq!(r.stage, Stage::Ready);
}

#[test]
fn a_record_with_a_longer_caption() {
    let r = plan(&[("audio", b"a"), ("text", b"elevenchars")]);
    let label = args(r.action());
    assert!(label[8].starts_with(
        "format=rgba,geq=r='0':g='0':b='0':a='if(lte(hypot(X-140,Y-140),138),255,0)'[t0];color=c=#00000000:s=44x44,format=rgba,drawtext=fontfile=assets/font.ttf:text='e':",
    ));
    assert!(label[8].ends_with("[t10][g11]overlay=1:2[t11];[t11]null[out]"));

    let r = plan(&[("audio", b"a")]);
    assert!(args(r.action())[8].ends_with(
        "[t0];[t0]drawtext=fontfile=assets/font.ttf:text='24.12.2024':fontsize=26:fontcolor=white:x=(w-text_w)/2:y=(h-text_h)/2[out]",
    ));
}

#[test]
fn durations_are_trimmed() {
    assert_eq!(duration_text(b" 12.345000\r\n"), Some("12.345000".to_string()));
    assert_eq!(duration_text(b""), Some(String::new()));
    assert_eq!(duration_text("caf\u{e9}\n".as_bytes()), Some("caf\u{e9}".to_string()));
    assert_eq!(duration_text(b"1\xff"), None);
}

#[test]
fn durations_that_cannot_be_read_count_as_none() {
    let d = |x: f64| Double { bits: x.to_bits() };
    assert_eq!(seconds_or_zero(Some(d(12.5))), d(12.5));
    assert_eq!(seconds_or_zero(None), d(0.0));
    assert_eq!(reckoned_seconds(seconds_or_zero(None)), d(0.1));
    let read = |s: &str| seconds_or_zero(s.parse().ok().map(d));
    assert_eq!(read("59.95"), d(59.95));
    assert_eq!(read("N/A"), d(0.0));
}

#[test]
fn a_note_with_a_cover() {
    let mut r = plan(&[
        ("audio", b"a"),
        ("image", b"i"),
        ("mode", b"note"),
        ("label_color", b"#0a0b0c"),
    ]);
    assert_eq!(
        args(r.action()),
        vec![
            "-y", "-v", "error", "-i", "work/r-7/cover_input", "-frames:v", "1",
            "work/r-7/cover.png",
        ],
    );
    r.answer(true);
    assert_eq!(
        args(r.action()),
        vec![
            "-y", "-v", "error", "-i", "work/r-7/cover.png", "-i", "assets/mask.png",
            "-f", "lavfi", "-i", "color=c=0x0a0b0c:s=280x280",
            "-f", "lavfi", "-i", "color=c=0x0a0b0c:s=24x24",
            "-filter_complex", GRAPH_COVER_LABEL,
            "-map", "[out]", "-frames:v", "1", "work/r-7/label.png",
        ],
    );
    r.answer(true);
    r.answer(true);
    assert_eq!(
        args(r.action()),
        vec![
            "-y", "-v", "error", "-nostats", "-progress", "pipe:1",
            "-loop", "1", "-i", "work/r-7/label.png",
            "-loop", "1", "-i", "work/disc_2e2e34.png",
            "-i", "work/r-7/audio_input",
            "-loop", "1", "-i", "work/r-7/cover.png",
            "-loop", "1", "-i", "assets/shine.png",
            "-filter_complex", GRAPH_NOTE_COVER,
            "-map", "[outv]", "-map", "2:a", "-r", "30", "-shortest",
            "-t", "60",
            "-c:v", "libx264", "-preset", "veryfast", "-crf", "20", "-pix_fmt", "yuv420p",
            "-c:a", "aac", "-b:a", "192k", "-movflags", "+faststart", "work/r-7/out.mp4",
        ],
    );
}

#[test]
fn a_reel_with_a_short_caption() {
    let mut r = plan(&[("audio", b"a"), ("image", b"i"), ("disc_type", b"reel")]);
    assert_eq!(look(r.action()), "assets/reel_base.png");
    r.answer(true);
    assert_eq!(
        args(r.action()),
        vec![
            "-y", "-v", "error", "-f", "lavfi", "-i", "color=c=black:s=16x16",
            "-vf", "format=rgba,geq=r=0:g=0:b=0:a=0", "-frames:v", "1", "-update", "1",
            "work/r-7/label.png",
        ],
    );
    r.answer(true);
    let bake = args(r.action());
    assert_eq!(bake[..6], ["-y", "-v", "error", "-i", "assets/reel_base.png", "-filter_complex"]);
    assert!(bake[6].contains("text='24.12.2024'") && bake[6].contains("overlay=449:288[out]"));
    assert_eq!(
        bake[7..],
        ["-map", "[out]", "-frames:v", "1", "-update", "1", "work/r-7/reel_text.png"],
    );
    r.answer(true);
    let encode = args(r.action());
    assert_eq!(encode[13], "work/r-7/reel_text.png");
    assert!(!encode.contains(&"work/r-7/cover.png".to_string()));
}

#[test]
fn a_reel_with_a_long_caption() {
    let mut r = plan(&[("audio", b"a"), ("disc_type", b"reel"), ("text", b"elevenchars")]);
    r.answer(true);
    r.answer(true);
    let bake = args(r.action());
    assert!(bake[6].starts_with("[0:v]format=rgba[t0];"));
    assert!(bake[6].ends_with("[t11]null[out]"));
    assert!(bake[6].contains("rotate=a=0.0000:c=none[g6];[t5][g6]overlay=391:19[t6];"));
}

#[test]
fn a_reel_needs_both_its_pictures() {
    for (placeholder, baked) in [(false, true), (true, false), (false, false)] {
        let mut r = plan(&[("audio", b"a"), ("disc_type", b"reel")]);
        r.answer(true);
        r.answer(placeholder);
        assert_eq!(r.stage, Stage::Bake { placeholder });
        r.answer(baked);
        assert_eq!(
            refusal(r.action()),
            (Status::Internal, "failed to build the reel.".to_string()),
        );
    }
}

#[test]
fn what_goes_wrong_is_told() {
    let mut r = plan(&[("audio", b"a"), ("disc_type", b"reel")]);
    r.answer(false);
    assert_eq!(
        refusal(r.action()),
        (
            Status::Internal,
            "assets/reel_base.png not found \u{2014} start VinilCut from its project folder."
                .to_string(),
        ),
    );
    let mut r = plan(&[("audio", b"a"), ("image", b"i")]);
    r.answer(false);
    assert_eq!(
        refusal(r.action()),
        (
            Status::BadRequest,
            "Could not read the cover image (unsupported format?).".to_string(),
        ),
    );
    let mut r = plan(&[("audio", b"a")]);
    r.answer(false);
    assert_eq!(refusal(r.action()), (Status::Internal, "failed to build label".to_string()));
    r.answer(true);
    assert_eq!(r.stage, Stage::Refused(Reason::LabelFailed));
    let mut r = plan(&[("audio", b"a")]);
    r.answer(true);
    r.answer(false);
    r.answer(false);
    assert_eq!(
        refusal(r.action()),
        (
            Status::Internal,
            "assets/disc_base.png not found \u{2014} start VinilCut from its project folder."
                .to_string(),
        ),
    );
    for last in [vec![false], vec![true, false]] {
        let mut r = plan(&[("audio", b"a")]);
        r.answer(true);
        r.answer(false);
        r.answer(true);
        for a in last {
            r.answer(a);
        }
        assert_eq!(
            refusal(r.action()),
            (
                Status::Internal,
                "failed to build the colored disc from assets/disc_base.png.".to_string(),
            ),
        );
    }
}

#[test]
fn a_disc_is_found_or_tinted() {
    assert_eq!(ensure_disc(DiscStage::Cached, true), DiscMove::Found);
    assert_eq!(ensure_disc(DiscStage::Cached, false), DiscMove::Next(DiscStage::Base));
    assert_eq!(ensure_disc(DiscStage::Base, false), DiscMove::Failed(Reason::NoDisc));
    assert_eq!(ensure_disc(DiscStage::Tint, true), DiscMove::Next(DiscStage::Check));
    assert_eq!(ensure_disc(DiscStage::Check, false), DiscMove::Failed(Reason::DiscFailed));
}

#[test]
fn every_render_ends() {
    for bits in 0..64u32 {
        for fields in [
            vec![("audio", b"a".as_slice())],
            vec![("audio", b"a"), ("image", b"i")],
            vec![("audio", b"a"), ("disc_type", b"reel")],
        ] {
            let mut r = plan(&fields);
            for i in 0..6 {
                r.answer(bits >> i & 1 == 1);
            }
            assert!(matches!(r.stage, Stage::Ready | Stage::Refused(_)));
        }
    }
}

#[test]
fn lengths_are_reckoned() {
    let d = |x: f64| Double { bits: x.to_bits() };
    assert_eq!(reckoned_seconds(d(0.0)), d(0.1));
    assert_eq!(reckoned_seconds(d(f64::NAN)), d(0.1));
    assert_eq!(reckoned_seconds(d(-3.0)), d(0.1));
    assert_eq!(reckoned_seconds(d(12.5)), d(12.5));
    assert_eq!(effective_seconds(true, d(61.0)), d(60.0));
    assert_eq!(effective_seconds(true, d(59.0)), d(59.0));
    assert_eq!(effective_seconds(false, d(61.0)), d(61.0));
}
