use std::path::Path;

use vinilcut::assets::{
    asset_line, asset_path, assets, ensure_asset, font_source, locate_project_root, media,
    not_found, Asset, Remedy, Root, DISC_BASE, THUMB_TINT,
};
use vinilcut::color::tint_filter;
use vinilcut::command::{color_source, duration_args, gen_png};
use vinilcut::double::Double;
use vinilcut::graph::{MASK_FILTER, SHINE_FILTER};
use vinilcut::jobs::{exit_error, out_time_fields, Jobs, PERCENT_CAP, PERCENT_FULL};
use vinilcut::reply::{bad, ise, refuse, Status};

fn d(x: f64) -> Double {
    Double { bits: x.to_bits() }
}

#[test]
fn percentages_have_their_bits() {
    assert_eq!(PERCENT_CAP, 99.5f64.to_bits());
    assert_eq!(PERCENT_FULL, 100.0f64.to_bits());
}

#[test]
fn an_unknown_job_has_failed() {
    let jobs = Jobs::new();
    let r = jobs.progress("1");
    assert_eq!(r.percent, None);
    assert!(r.done && !r.ok);
    assert_eq!(r.error, "unknown job");
    let refused = jobs.result("1").unwrap_err();
    assert_eq!((refused.status, refused.message.as_str()), (Status::NotFound, "unknown job"));
}

#[test]
fn a_job_runs_and_succeeds() {
    let mut jobs = Jobs::new();
    jobs.register("1", "out.mp4", "dir");
    let r = jobs.progress("1");
    assert_eq!(r.percent, Some(d(0.0)));
    assert!(!r.done && !r.ok);
    assert_eq!(r.error, "");
    for (raw, shown) in [(12.25, 12.25), (-4.0, 0.0), (99.7, 99.5), (1e9, 99.5), (50.0, 50.0)] {
        jobs.record("1", d(raw));
        let r = jobs.progress("1");
        assert_eq!(r.percent, Some(d(shown)));
        assert!(!r.done);
        let refused = jobs.result("1").unwrap_err();
        assert_eq!((refused.status, refused.message.as_str()), (Status::Accepted, "not ready"));
    }
    jobs.finish("1", true, String::new());
    let r = jobs.progress("1");
    assert_eq!(r.percent, Some(d(100.0)));
    assert!(r.done && r.ok);
    let delivery = jobs.result("1").unwrap();
    assert_eq!((delivery.out.as_str(), delivery.dir.as_str()), ("out.mp4", "dir"));
    jobs.remove("1");
    assert_eq!(jobs.progress("1").error, "unknown job");
    jobs.finish("1", true, String::new());
    jobs.record("1", d(5.0));
    assert_eq!(jobs.progress("1").percent, None);
}

#[test]
fn a_job_fails() {
    let mut jobs = Jobs::new();
    jobs.register("1", "a", "b");
    jobs.record("1", d(40.0));
    jobs.finish("1", false, "boom".to_string());
    let r = jobs.progress("1");
    assert_eq!(r.percent, Some(d(40.0)));
    assert!(r.done && !r.ok);
    assert_eq!(r.error, "boom");
    let refused = jobs.result("1").unwrap_err();
    assert_eq!(
        (refused.status, refused.message.as_str()),
        (Status::Internal, "ffmpeg failed:\nboom"),
    );
}

#[test]
fn only_success_is_full() {
    let cap = Double { bits: PERCENT_CAP };
    let full = Double { bits: PERCENT_FULL };
    let mut jobs = Jobs::new();
    jobs.register("1", "a", "b");
    jobs.record("1", d(250.0));
    assert_eq!(jobs.progress("1").percent, Some(cap));
    jobs.register("2", "a", "b");
    jobs.record("2", d(250.0));
    jobs.finish("1", false, exit_error(false, "boom".to_string()));
    assert_eq!(jobs.progress("1").percent, Some(cap));
    jobs.finish("2", true, exit_error(true, "a warning".to_string()));
    let r = jobs.progress("2");
    assert_eq!(r.percent, Some(full));
    assert!(r.done && r.ok && r.error.is_empty());
}

#[test]
fn unknown_jobs_show_nothing() {
    let jobs = Jobs::new();
    let r = jobs.progress("x");
    assert_eq!((r.percent, r.shown_percent()), (None, d(0.0)));
    assert!(r.done && !r.ok);
    assert_eq!(r.error, "unknown job");
    let mut jobs = Jobs::new();
    jobs.register("x", "a", "b");
    jobs.record("x", d(42.0));
    assert_eq!(jobs.progress("x").shown_percent(), d(42.0));
}

#[test]
fn jobs_are_kept_until_their_video_is_read() {
    let mut jobs = Jobs::new();
    jobs.register("1", "a", "b");
    jobs.register("2", "c", "d");
    jobs.finish("1", true, String::new());
    jobs.hand_over("1", false);
    assert_eq!(jobs.result("1").unwrap().out, "a");
    jobs.hand_over("1", true);
    assert_eq!(jobs.result("1").unwrap_err().message, "unknown job");
    assert_eq!(jobs.result("2").unwrap_err().message, "not ready");
}

#[test]
fn jobs_do_not_mix() {
    let mut jobs = Jobs::new();
    jobs.register("1", "a", "b");
    jobs.register("2", "c", "d");
    jobs.record("1", d(10.0));
    jobs.finish("2", true, String::new());
    assert_eq!(jobs.progress("1").percent, Some(d(10.0)));
    jobs.remove("2");
    assert!(!jobs.progress("1").done);
    jobs.register("1", "e", "f");
    assert_eq!(jobs.progress("1").percent, Some(d(0.0)));
}

#[test]
fn errors_are_kept_of_failures_only() {
    assert_eq!(exit_error(true, "warning".to_string()), "");
    assert_eq!(exit_error(false, "boom".to_string()), "boom");
}

#[test]
fn progress_lines_are_read() {
    let fields = |l: &str| out_time_fields(l);
    let of = |h: &str, m: &str, s: &str| Some((h.to_string(), m.to_string(), s.to_string()));
    assert_eq!(fields("out_time=00:01:02.500000"), of("00", "01", "02.500000"));
    assert_eq!(fields("out_time= 1:2:3 \r"), of("1", "2", "3"));
    assert_eq!(fields("out_time=1:2:3:4"), of("1", "2", "3"));
    assert_eq!(fields("out_time=N/A"), None);
    assert_eq!(fields("out_time=1:2"), None);
    assert_eq!(fields("out_time_ms=100"), None);
    assert_eq!(fields(" out_time=1:2:3"), None);
    assert_eq!(fields("progress=end"), None);
}

#[test]
fn missing_assets_are_made() {
    assert_eq!(
        assets(),
        vec![Asset::Shine, Asset::Mask, Asset::Font, Asset::ThumbVinyl, Asset::ThumbReel],
    );
    for a in assets() {
        assert!(matches!(ensure_asset(a, true), Remedy::Nothing));
        assert!(asset_path(a).starts_with("assets/"));
    }
    let run = |a| match ensure_asset(a, false) {
        Remedy::Run(args) => args,
        other => panic!("{other:?}"),
    };
    assert_eq!(
        run(Asset::Shine),
        vec![
            "-y", "-v", "error", "-f", "lavfi", "-i", "color=c=black:s=842x842", "-vf",
            SHINE_FILTER, "-frames:v", "1", "assets/shine.png",
        ],
    );
    assert_eq!(run(Asset::Mask), gen_png("280x280", MASK_FILTER, "assets/mask.png"));
    assert_eq!(
        run(Asset::ThumbVinyl),
        vec![
            "-y", "-v", "error", "-i", "assets/disc_base.png", "-vf", THUMB_TINT,
            "-frames:v", "1", "-update", "1", "assets/thumb_vinyl.png",
        ],
    );
    assert_eq!(
        run(Asset::ThumbReel),
        vec![
            "-y", "-v", "error", "-i", "assets/reel_base.png", "-vf", "scale=170:170",
            "-frames:v", "1", "-update", "1", "assets/thumb_reel.png",
        ],
    );
    assert!(matches!(ensure_asset(Asset::Font, false), Remedy::CopyFont));
    assert_eq!(THUMB_TINT, format!("{},scale=170:170", tint_filter((46, 46, 52))));
}

#[test]
fn the_making_of_assets_is_told() {
    assert_eq!(asset_line(Asset::Shine, true), Some("shine.png: ok".to_string()));
    assert_eq!(asset_line(Asset::Mask, false), Some("mask.png: FAILED".to_string()));
    assert_eq!(asset_line(Asset::Font, true), None);
    assert_eq!(asset_line(Asset::ThumbReel, false), None);
}

#[test]
fn fonts_are_tried_in_order() {
    assert_eq!(font_source(0), Some("C:/Windows/Fonts/arialbd.ttf"));
    assert_eq!(font_source(1), Some("C:/Windows/Fonts/arial.ttf"));
    assert_eq!(font_source(2), Some("C:/Windows/Fonts/segoeui.ttf"));
    assert_eq!(font_source(3), None);
}

#[test]
fn only_thumbnails_are_served() {
    assert_eq!(media("thumb_vinyl.png").unwrap(), "assets/thumb_vinyl.png");
    assert_eq!(media("thumb_reel.png").unwrap(), "assets/thumb_reel.png");
    for name in ["", "shine.png", "../secret", "thumb_vinyl.png/", "THUMB_VINYL.PNG"] {
        let refused = media(name).unwrap_err();
        assert_eq!((refused.status, refused.message.as_str()), (Status::NotFound, "not found"));
    }
    assert_eq!(not_found().message, "not found");
}

#[test]
fn the_project_folder_is_found() {
    assert_eq!(locate_project_root(true, &vec![true]), Root::Here);
    assert_eq!(locate_project_root(false, &vec![false, true, true]), Root::Above(1));
    assert_eq!(locate_project_root(false, &vec![false, false]), Root::Missing);
    assert_eq!(locate_project_root(false, &vec![]), Root::Missing);
    assert!(Path::new(DISC_BASE).is_relative());
}

#[test]
fn refusals_have_codes() {
    assert_eq!(Status::Accepted.code(), 202);
    assert_eq!(Status::BadRequest.code(), 400);
    assert_eq!(Status::NotFound.code(), 404);
    assert_eq!(Status::Internal.code(), 500);
    assert_eq!(ise("x").status, Status::Internal);
    assert_eq!(bad("x").status, Status::BadRequest);
    assert_eq!(refuse(Status::Accepted, "x").message, "x");
}

#[test]
fn small_commands() {
    assert_eq!(color_source("0x010203", "24x24"), "color=c=0x010203:s=24x24");
    assert_eq!(
        duration_args("work/a"),
        vec!["-v", "error", "-show_entries", "format=duration", "-of", "default=nk=1:nw=1", "work/a"],
    );
}
