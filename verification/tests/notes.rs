use vinilcut::command::{note_args, probe_args};
use vinilcut::double::Double;
use vinilcut::note::{
    credentials, note_outcome, plan_line, probe_failed, probe_outcome, qualifies, read_probe, read_probe_text, recipient,
    sent_line, sent_side, sign_in_step, sign_in_text, target_or_default, video_or_default,
    ProbeFault, Recipient, RunEnd, SignInAction, SignInEvent, BAD_API_ID, MAX_SECS, NO_API_HASH,
    NO_API_ID,
};
use vinilcut::number::IntFault;

fn d(x: f64) -> Double {
    Double { bits: x.to_bits() }
}

#[test]
fn the_prober_is_read() {
    let p = read_probe(b"512\n512\n59.950000\n").unwrap();
    assert_eq!((p.width, p.height), (512, 512));
    assert_eq!(p.duration, Some("59.950000".to_string()));
    let p = read_probe_text("640 480").unwrap();
    assert_eq!((p.width, p.height), (640, 480));
    assert_eq!(p.duration, None);
}

#[test]
fn a_faulty_prober_is_told() {
    let fault = |s: &str| read_probe_text(s).unwrap_err();
    assert_eq!(fault(" \n"), ProbeFault::NoWidth);
    assert_eq!(fault("512"), ProbeFault::NoHeight);
    assert_eq!(fault("N/A 512"), ProbeFault::Width(IntFault::InvalidDigit));
    assert_eq!(fault("512 3000000000"), ProbeFault::Height(IntFault::TooLarge));
    assert_eq!(fault("").message(), "no width");
    assert_eq!(fault("1").message(), "no height");
    assert_eq!(fault("x").message(), "invalid digit found in string");
    assert_eq!(fault("1 -3000000000").message(), "number too small to fit in target type");
    assert_eq!(probe_failed(b"no such file"), "ffprobe failed: no such file");
    assert_eq!(probe_failed(b"\xff"), "ffprobe failed: \u{fffd}");
}

#[test]
fn runs_of_the_prober_are_judged() {
    let told = |end, out: &[u8], err: &[u8]| probe_outcome(end, out, err).unwrap_err();
    assert_eq!(
        told(RunEnd::NotStarted, b"512 512", b""),
        "ffprobe not found \u{2014} install FFmpeg and add it to PATH",
    );
    assert_eq!(told(RunEnd::Failed, b"512 512", b"no such file"), "ffprobe failed: no such file");
    assert_eq!(told(RunEnd::Succeeded, b"", b""), "no width");
    assert_eq!(told(RunEnd::Succeeded, b"512", b""), "no height");
    let p = probe_outcome(RunEnd::Succeeded, b"512\n256\n7.5\n", b"a warning").unwrap();
    assert_eq!((p.width, p.height, p.duration), (512, 256, Some("7.5".to_string())));
}

#[test]
fn runs_of_the_encoder_are_judged() {
    assert_eq!(note_outcome(RunEnd::Succeeded), Ok(()));
    assert_eq!(note_outcome(RunEnd::Failed), Err("ffmpeg failed to build the note"));
    assert_eq!(
        note_outcome(RunEnd::NotStarted),
        Err("ffmpeg not found \u{2014} install FFmpeg and add it to PATH"),
    );
}

#[test]
fn a_note_is_square_and_short() {
    assert_eq!(MAX_SECS, 60.0f64.to_bits());
    assert!(qualifies(512, 512, d(60.0)));
    assert!(qualifies(848, 848, d(0.0)));
    assert!(!qualifies(512, 512, d(60.01)));
    assert!(!qualifies(512, 511, d(10.0)));
    assert!(!qualifies(512, 512, d(f64::NAN)));
    assert_eq!(sent_side(true, 848), 848);
    assert_eq!(sent_side(false, 848), 512);
}

#[test]
fn the_sender_is_told() {
    assert_eq!(
        plan_line(true, 512, 512, "59.9"),
        "Already a valid note (512x512, 59.9s) \u{2014} sending as is.",
    );
    assert_eq!(
        plan_line(false, 640, -1, "61.0"),
        "Source is 640x-1, 61.0s \u{2014} normalizing to 512x512 square, \u{2264}60s\u{2026}",
    );
    assert_eq!(
        sent_line("vinyl.mp4", 512, "59.9", "me"),
        "Sent 'vinyl.mp4' as a 512x512 video note (59.9s) to me.",
    );
}

#[test]
fn recipients_are_read() {
    assert!(matches!(recipient("me"), Recipient::Myself));
    for (target, name) in [("@someone", "someone"), ("someone", "someone"), ("@@x@", "x@")] {
        match recipient(target) {
            Recipient::User(n) => assert_eq!(n, name),
            Recipient::Myself => panic!("{target}"),
        }
    }
}

#[test]
fn arguments_have_defaults() {
    assert_eq!(video_or_default(None), "vinyl.mp4");
    assert_eq!(video_or_default(Some("a.mp4".to_string())), "a.mp4");
    assert_eq!(target_or_default(None), "me");
    assert_eq!(target_or_default(Some("@x".to_string())), "@x");
}

#[test]
fn credentials_are_read() {
    let s = |x: &str| Some(x.to_string());
    assert_eq!(credentials(s(" 12 "), s(" ab ")), Ok((12, "ab".to_string())));
    assert_eq!(credentials(None, s("ab")), Err(NO_API_ID));
    assert_eq!(credentials(s("x"), None), Err(BAD_API_ID));
    assert_eq!(credentials(s("12"), None), Err(NO_API_HASH));
}

#[test]
fn signing_in_goes_step_by_step() {
    assert_eq!(sign_in_step(SignInEvent::Authorized), SignInAction::Proceed);
    assert_eq!(sign_in_step(SignInEvent::Unauthorized), SignInAction::AskPhone);
    assert_eq!(sign_in_step(SignInEvent::CodeRequested), SignInAction::AskCode);
    assert_eq!(sign_in_step(SignInEvent::PasswordRequired), SignInAction::AskPassword);
    assert_eq!(sign_in_step(SignInEvent::Accepted), SignInAction::Announce);
    assert_eq!(sign_in_step(SignInEvent::Rejected), SignInAction::Fail);
    assert_eq!(sign_in_text(SignInAction::AskPassword), "2FA password: ");
    assert_eq!(sign_in_text(SignInAction::Announce), "Signed in.");
}

#[test]
fn prober_and_encoder_of_notes() {
    assert_eq!(
        probe_args("v.mp4"),
        vec![
            "-v", "error", "-select_streams", "v:0", "-show_entries", "stream=width,height",
            "-show_entries", "format=duration", "-of",
            "default=noprint_wrappers=1:nokey=1", "v.mp4",
        ],
    );
    assert_eq!(
        note_args("v.mp4"),
        vec![
            "-y", "-i", "v.mp4", "-t", "60", "-vf",
            "crop='min(iw,ih)':'min(iw,ih)',scale=512:512,setsar=1", "-c:v", "libx264",
            "-pix_fmt", "yuv420p", "-c:a", "aac", "-b:a", "128k", "-movflags", "+faststart",
        ],
    );
}
