//! Sending a video as a round note: whether it qualifies, whom it goes to, and
//! how the sender signs in.
//!
//! A video is shown as a round message only if it is square and at most a minute
//! long. One that is not is re-encoded first.

use vstd::prelude::*;

use crate::double;
use crate::double::Double;
use crate::number;
use crate::number::IntFault;
use crate::text;

verus! {

/// The side of a note that has been re-encoded, in pixels.
pub const NOTE_SIZE: i32 = 512;

/// The bits of 60.0, the longest that a note may last.
pub const MAX_SECS: u64 = 0x404e_0000_0000_0000;

/// What the prober says of a video: its width, its height, and the text of its
/// duration if there is one.
#[derive(Debug)]
pub struct Probe {
    pub width: i32,
    pub height: i32,
    pub duration: Option<String>,
}

/// Why the prober's answer cannot be used.
#[derive(Debug, Clone, Copy, PartialEq, Eq, Structural)]
pub enum ProbeFault {
    NoWidth,
    Width(IntFault),
    NoHeight,
    Height(IntFault),
}

/// What is wrong with the prober's `words`, if anything is. The width comes
/// first, then the height.
pub open spec fn probe_fault(words: Seq<Seq<char>>) -> Option<ProbeFault> {
    if words.len() < 1 {
        Some(ProbeFault::NoWidth)
    } else {
        match number::int_of(words[0]) {
            Err(fault) => Some(ProbeFault::Width(fault)),
            Ok(_) => if words.len() < 2 {
                Some(ProbeFault::NoHeight)
            } else {
                match number::int_of(words[1]) {
                    Err(fault) => Some(ProbeFault::Height(fault)),
                    Ok(_) => None,
                }
            },
        }
    }
}

/// What the prober's `words` say of a video: `probe`.
pub open spec fn says(words: Seq<Seq<char>>, probe: Probe) -> bool {
    &&& probe_fault(words) is None
    &&& number::int_of(words[0]) == Ok::<int, IntFault>(probe.width as int)
    &&& number::int_of(words[1]) == Ok::<int, IntFault>(probe.height as int)
    &&& match probe.duration {
        Some(d) => words.len() >= 3 && d@ == words[2],
        None => words.len() < 3,
    }
}

/// Reads what the prober wrote.
pub fn read_probe(stdout: &[u8]) -> (r: Result<Probe, ProbeFault>)
    ensures
        ({
            let words = text::words_of(text::decoded_of(stdout@));
            match r {
                Ok(probe) => says(words, probe),
                Err(fault) => probe_fault(words) == Some(fault),
            }
        }),
{
    let decoded = text::decode_lossy(stdout);
    read_probe_text(decoded.as_str())
}

/// Reads what the prober wrote, once it is decoded.
pub fn read_probe_text(written: &str) -> (r: Result<Probe, ProbeFault>)
    ensures
        ({
            let words = text::words_of(written@);
            match r {
                Ok(probe) => says(words, probe),
                Err(fault) => probe_fault(words) == Some(fault),
            }
        }),
{
    let words = text::words(written);
    assert(text::texts(words@).len() == words@.len());
    assert(forall|i: int| 0 <= i < words@.len() ==> text::texts(words@)[i] == #[trigger] words@[i]@);
    if words.len() < 1 {
        return Err(ProbeFault::NoWidth);
    }
    let width: i32 = match number::parse_i32(words[0].as_str()) {
        Ok(v) => v,
        Err(fault) => return Err(ProbeFault::Width(fault)),
    };
    if words.len() < 2 {
        return Err(ProbeFault::NoHeight);
    }
    let height: i32 = match number::parse_i32(words[1].as_str()) {
        Ok(v) => v,
        Err(fault) => return Err(ProbeFault::Height(fault)),
    };
    let duration = if words.len() >= 3 {
        Some(words[2].clone())
    } else {
        None
    };
    Ok(Probe { width, height, duration })
}

/// The sentence that explains why the prober's answer cannot be used.
pub open spec fn probe_fault_text(fault: ProbeFault) -> Seq<char> {
    match fault {
        ProbeFault::NoWidth => "no width"@,
        ProbeFault::Width(f) => number::fault_text(f),
        ProbeFault::NoHeight => "no height"@,
        ProbeFault::Height(f) => number::fault_text(f),
    }
}

impl ProbeFault {
    /// The sentence that explains the fault.
    pub fn message(&self) -> (r: &'static str)
        ensures
            r@ == probe_fault_text(*self),
    {
        match self {
            ProbeFault::NoWidth => "no width",
            ProbeFault::Width(f) => f.message(),
            ProbeFault::NoHeight => "no height",
            ProbeFault::Height(f) => f.message(),
        }
    }
}

/// The sentence that explains that the prober failed.
pub fn probe_failed(stderr: &[u8]) -> (r: String)
    ensures
        r@ == "ffprobe failed: "@ + text::decoded_of(stderr@),
{
    let decoded = text::decode_lossy(stderr);
    let mut s = "ffprobe failed: ".to_owned();
    s.append(decoded.as_str());
    s
}

/// How the run of a program ended.
#[derive(Debug, Clone, Copy, PartialEq, Eq, Structural)]
pub enum RunEnd {
    NotStarted,
    Failed,
    Succeeded,
}

/// What the prober found, or the sentence that explains why there is nothing: it
/// could not be started, it failed, or it wrote what cannot be used.
pub fn probe_outcome(end: RunEnd, stdout: &[u8], stderr: &[u8]) -> (r: Result<Probe, String>)
    ensures
        ({
            let words = text::words_of(text::decoded_of(stdout@));
            match r {
                Ok(probe) => end is Succeeded && says(words, probe),
                Err(message) => match end {
                    RunEnd::NotStarted => message@
                        == "ffprobe not found — install FFmpeg and add it to PATH"@,
                    RunEnd::Failed => message@ == "ffprobe failed: "@ + text::decoded_of(stderr@),
                    RunEnd::Succeeded => probe_fault(words) is Some && message@
                        == probe_fault_text(probe_fault(words)->0),
                },
            }
        }),
{
    match end {
        RunEnd::NotStarted => Err(
            "ffprobe not found — install FFmpeg and add it to PATH".to_owned(),
        ),
        RunEnd::Failed => Err(probe_failed(stderr)),
        RunEnd::Succeeded => match read_probe(stdout) {
            Ok(probe) => Ok(probe),
            Err(fault) => Err(fault.message().to_owned()),
        },
    }
}

/// Whether re-encoding a video made a note, or the sentence that explains why it
/// did not.
pub fn note_outcome(end: RunEnd) -> (r: Result<(), &'static str>)
    ensures
        match r {
            Ok(_) => end is Succeeded,
            Err(message) => match end {
                RunEnd::NotStarted => message@
                    == "ffmpeg not found — install FFmpeg and add it to PATH"@,
                RunEnd::Failed => message@ == "ffmpeg failed to build the note"@,
                RunEnd::Succeeded => false,
            },
        },
{
    match end {
        RunEnd::NotStarted => Err("ffmpeg not found — install FFmpeg and add it to PATH"),
        RunEnd::Failed => Err("ffmpeg failed to build the note"),
        RunEnd::Succeeded => Ok(()),
    }
}

/// Tells whether a video is shown as a round message: it is square and at most a
/// minute long. A duration that is not a number does not qualify.
pub open spec fn qualifies_of(width: i32, height: i32, duration: Double) -> bool {
    width == height && duration.le_of(Double { bits: MAX_SECS })
}

/// Tells whether a video is shown as a round message.
pub fn qualifies(width: i32, height: i32, duration: Double) -> (r: bool)
    ensures
        r == qualifies_of(width, height, duration),
{
    width == height && duration.at_most(Double { bits: MAX_SECS })
}

/// The side that a note is sent with: its own if it is sent as it is, the common
/// one if it has been re-encoded.
pub open spec fn sent_side_of(as_is: bool, width: i32) -> i32 {
    if as_is {
        width
    } else {
        NOTE_SIZE
    }
}

/// The side that a note is sent with.
pub fn sent_side(as_is: bool, width: i32) -> (r: i32)
    ensures
        r == sent_side_of(as_is, width),
{
    if as_is {
        width
    } else {
        NOTE_SIZE
    }
}

/// A size and a duration as the sender is told them.
pub open spec fn size_text(width: i32, height: i32, seconds: Seq<char>) -> Seq<char> {
    number::signed_decimal(width as int) + "x"@ + number::signed_decimal(height as int) + ", "@
        + seconds + "s"@
}

fn size_words(width: i32, height: i32, seconds: &str) -> (r: String)
    ensures
        r@ == size_text(width, height, seconds@),
{
    let mut s = String::new();
    number::push_signed(&mut s, width as i64);
    assert(s@ =~= number::signed_decimal(width as int));
    s.append("x");
    number::push_signed(&mut s, height as i64);
    s.append(", ");
    s.append(seconds);
    s.append("s");
    s
}

/// What the sender is told before the video goes out.
pub open spec fn plan_line_of(
    as_is: bool,
    width: i32,
    height: i32,
    seconds: Seq<char>,
) -> Seq<char> {
    if as_is {
        "Already a valid note ("@ + size_text(width, height, seconds) + ") — sending as is."@
    } else {
        "Source is "@ + size_text(width, height, seconds)
            + " — normalizing to 512x512 square, ≤60s…"@
    }
}

/// What the sender is told before the video goes out. `seconds` is the duration
/// with one decimal.
pub fn plan_line(as_is: bool, width: i32, height: i32, seconds: &str) -> (r: String)
    ensures
        r@ == plan_line_of(as_is, width, height, seconds@),
{
    let size = size_words(width, height, seconds);
    if as_is {
        let mut s = "Already a valid note (".to_owned();
        s.append(size.as_str());
        s.append(") — sending as is.");
        s
    } else {
        let mut s = "Source is ".to_owned();
        s.append(size.as_str());
        s.append(" — normalizing to 512x512 square, ≤60s…");
        s
    }
}

/// What the sender is told once the video is out.
pub open spec fn sent_line_of(
    video: Seq<char>,
    side: i32,
    seconds: Seq<char>,
    target: Seq<char>,
) -> Seq<char> {
    "Sent '"@ + video + "' as a "@ + number::signed_decimal(side as int) + "x"@
        + number::signed_decimal(side as int) + " video note ("@ + seconds + "s) to "@ + target
        + "."@
}

/// What the sender is told once the video is out. `seconds` is the duration with
/// one decimal.
pub fn sent_line(video: &str, side: i32, seconds: &str, target: &str) -> (r: String)
    ensures
        r@ == sent_line_of(video@, side, seconds@, target@),
{
    let mut s = "Sent '".to_owned();
    s.append(video);
    s.append("' as a ");
    number::push_signed(&mut s, side as i64);
    s.append("x");
    number::push_signed(&mut s, side as i64);
    s.append(" video note (");
    s.append(seconds);
    s.append("s) to ");
    s.append(target);
    s.append(".");
    s
}

/// Whom a note goes to.
#[derive(Debug)]
pub enum Recipient {
    /// The sender.
    Myself,
    /// The user of this name.
    User(String),
}

/// Reads whom a note goes to: `me`, or a user's name with or without the sign
/// in front.
pub fn recipient(target: &str) -> (r: Recipient)
    ensures
        match r {
            Recipient::Myself => target@ == "me"@,
            Recipient::User(name) => target@ != "me"@ && name@ == text::without_leading(
                target@,
                '@',
            ),
        },
{
    if text::same_text(target, "me") {
        Recipient::Myself
    } else {
        Recipient::User(text::trim_leading(target, '@'))
    }
}

/// The argument that was given, or what stands in for it.
pub open spec fn or_default(given: Option<String>, default: Seq<char>) -> Seq<char> {
    match given {
        Some(text) => text@,
        None => default,
    }
}

/// The video to send.
pub fn video_or_default(given: Option<String>) -> (r: String)
    ensures
        r@ == or_default(given, "vinyl.mp4"@),
{
    match given {
        Some(video) => video,
        None => "vinyl.mp4".to_owned(),
    }
}

/// Whom to send it to.
pub fn target_or_default(given: Option<String>) -> (r: String)
    ensures
        r@ == or_default(given, "me"@),
{
    match given {
        Some(target) => target,
        None => "me".to_owned(),
    }
}

/// What the sender is told if the application's identifier is missing.
pub const NO_API_ID: &'static str =
    "TG_API_ID is not set. Get it at https://my.telegram.org, then: setx TG_API_ID <id> (and open a NEW terminal).";

/// What the sender is told if the application's identifier is no number.
pub const BAD_API_ID: &'static str = "TG_API_ID must be a number";

/// What the sender is told if the application's hash is missing.
pub const NO_API_HASH: &'static str =
    "TG_API_HASH is not set. Get it at https://my.telegram.org, then: setx TG_API_HASH <hash> (and open a NEW terminal).";

/// Why the application's credentials cannot be used, if they cannot.
pub open spec fn credentials_fault(
    api_id: Option<String>,
    api_hash: Option<String>,
) -> Option<Seq<char>> {
    match api_id {
        None => Some(NO_API_ID@),
        Some(id) => if number::int_of(text::trim_of(id@)) is Err {
            Some(BAD_API_ID@)
        } else if api_hash is None {
            Some(NO_API_HASH@)
        } else {
            None
        },
    }
}

/// Reads the application's identifier and hash from the environment's values.
pub fn credentials(api_id: Option<String>, api_hash: Option<String>) -> (r: Result<
    (i32, String),
    &'static str,
>)
    ensures
        match r {
            Ok((id, hash)) => {
                &&& credentials_fault(api_id, api_hash) is None
                &&& number::int_of(text::trim_of(api_id->0@)) == Ok::<int, IntFault>(id as int)
                &&& hash@ == text::trim_of(api_hash->0@)
            },
            Err(message) => credentials_fault(api_id, api_hash) == Some(message@),
        },
{
    let id = match api_id {
        None => return Err(NO_API_ID),
        Some(given) => {
            let trimmed = text::trim(given.as_str());
            match number::parse_i32(trimmed.as_str()) {
                Ok(v) => v,
                Err(_) => return Err(BAD_API_ID),
            }
        },
    };
    match api_hash {
        None => Err(NO_API_HASH),
        Some(given) => Ok((id, text::trim(given.as_str()))),
    }
}

/// What has happened while signing in.
#[derive(Debug, Clone, Copy, PartialEq, Eq, Structural)]
pub enum SignInEvent {
    /// The session is authorized already.
    Authorized,
    /// It is not.
    Unauthorized,
    /// A login code is on its way to the phone.
    CodeRequested,
    /// The code was accepted, and a password is needed too.
    PasswordRequired,
    /// The code, or the password, was accepted.
    Accepted,
    /// It was refused.
    Rejected,
}

/// What to do next while signing in.
#[derive(Debug, Clone, Copy, PartialEq, Eq, Structural)]
pub enum SignInAction {
    /// Ask for the phone's number and request a code.
    AskPhone,
    /// Ask for the code and send it.
    AskCode,
    /// Ask for the password and send it.
    AskPassword,
    /// Say that the sender is signed in, and go on.
    Announce,
    /// Go on.
    Proceed,
    /// Give up with the error that came.
    Fail,
}

/// What to do next while signing in.
pub open spec fn sign_in_action(event: SignInEvent) -> SignInAction {
    match event {
        SignInEvent::Authorized => SignInAction::Proceed,
        SignInEvent::Unauthorized => SignInAction::AskPhone,
        SignInEvent::CodeRequested => SignInAction::AskCode,
        SignInEvent::PasswordRequired => SignInAction::AskPassword,
        SignInEvent::Accepted => SignInAction::Announce,
        SignInEvent::Rejected => SignInAction::Fail,
    }
}

/// What to do next while signing in.
pub fn sign_in_step(event: SignInEvent) -> (r: SignInAction)
    ensures
        r == sign_in_action(event),
{
    match event {
        SignInEvent::Authorized => SignInAction::Proceed,
        SignInEvent::Unauthorized => SignInAction::AskPhone,
        SignInEvent::CodeRequested => SignInAction::AskCode,
        SignInEvent::PasswordRequired => SignInAction::AskPassword,
        SignInEvent::Accepted => SignInAction::Announce,
        SignInEvent::Rejected => SignInAction::Fail,
    }
}

/// What the sender is asked, or told, for an action.
pub open spec fn sign_in_text_of(action: SignInAction) -> Seq<char> {
    match action {
        SignInAction::AskPhone => "Phone (intl, e.g. +3538...): "@,
        SignInAction::AskCode => "Login code: "@,
        SignInAction::AskPassword => "2FA password: "@,
        SignInAction::Announce => "Signed in."@,
        SignInAction::Proceed => ""@,
        SignInAction::Fail => ""@,
    }
}

/// What the sender is asked, or told, for an action.
pub fn sign_in_text(action: SignInAction) -> (r: &'static str)
    ensures
        r@ == sign_in_text_of(action),
{
    match action {
        SignInAction::AskPhone => "Phone (intl, e.g. +3538...): ",
        SignInAction::AskCode => "Login code: ",
        SignInAction::AskPassword => "2FA password: ",
        SignInAction::Announce => "Signed in.",
        SignInAction::Proceed => "",
        SignInAction::Fail => "",
    }
}

/// A user's name may be given with the sign in front or without it.
pub proof fn law_sign_is_optional(name: Seq<char>)
    ensures
        text::without_leading(seq!['@'] + name, '@') == text::without_leading(name, '@'),
{
    assert((seq!['@'] + name).skip(1) =~= name);
}

/// What is sent as a note is square and short: a video that goes out as it is
/// has the side it is sent with for its width and its height and lasts at most a
/// minute; any other goes out with the side that it is re-encoded to.
pub proof fn law_note_is_square(width: i32, height: i32, duration: Double)
    ensures
        qualifies_of(width, height, duration) ==> {
            let side = sent_side_of(true, width);
            &&& side == width
            &&& side == height
            &&& duration.le_of(Double { bits: MAX_SECS })
        },
        !qualifies_of(width, height, duration) <==> {
            ||| width != height
            ||| duration.is_nan()
            ||| duration.rank() > (Double { bits: MAX_SECS }).rank()
        },
        sent_side_of(false, width) == 512,
{
}

/// The prober's answer for a video, one value to a line.
pub open spec fn probe_answer(width: i32, height: i32, duration: Seq<char>) -> Seq<char> {
    number::signed_decimal(width as int).push('\n') + (number::signed_decimal(height as int).push(
        '\n',
    ) + (duration.push('\n') + seq![]))
}

proof fn lemma_signed_is_a_word(v: i32)
    ensures
        number::signed_decimal(v as int).len() > 0,
        forall|i: int|
            0 <= i < number::signed_decimal(v as int).len() ==> !text::is_white(
                #[trigger] number::signed_decimal(v as int)[i],
            ),
{
    let n = if v < 0 {
        (-(v as int)) as nat
    } else {
        v as nat
    };
    number::lemma_decimal_digits(n);
    let s = number::signed_decimal(v as int);
    assert forall|i: int| 0 <= i < s.len() implies !text::is_white(#[trigger] s[i]) by {
        if v < 0 {
            if i > 0 {
                assert(s[i] == number::decimal(n)[i - 1]);
                assert('0' <= number::decimal(n)[i - 1] <= '9');
            }
        } else {
            assert('0' <= number::decimal(n)[i] <= '9');
        }
    }
}

/// A square video whose duration could not be read qualifies: it counts as one
/// that lasts no time at all.
pub proof fn law_unread_duration_qualifies(side: i32)
    ensures
        qualifies_of(side, side, double::seconds_or_zero_of(None)),
{
}

/// What the prober says of a video is what is read: its width, its height and
/// the text of its duration.
pub proof fn law_probe_is_read(width: i32, height: i32, duration: Seq<char>)
    requires
        duration.len() > 0,
        forall|i: int| 0 <= i < duration.len() ==> !text::is_white(#[trigger] duration[i]),
    ensures
        ({
            let words = text::words_of(probe_answer(width, height, duration));
            &&& probe_fault(words) is None
            &&& words.len() == 3
            &&& number::int_of(words[0]) == Ok::<int, IntFault>(width as int)
            &&& number::int_of(words[1]) == Ok::<int, IntFault>(height as int)
            &&& words[2] == duration
        }),
{
    let w = number::signed_decimal(width as int);
    let h = number::signed_decimal(height as int);
    let none = Seq::<char>::empty();
    lemma_signed_is_a_word(width);
    lemma_signed_is_a_word(height);
    number::law_int_round_trip(width);
    number::law_int_round_trip(height);
    text::lemma_first_word(duration, '\n', none);
    text::lemma_first_word(h, '\n', duration.push('\n') + none);
    text::lemma_first_word(w, '\n', h.push('\n') + (duration.push('\n') + none));
    assert(seq![w] + (seq![h] + (seq![duration] + text::words_of(none))) =~= seq![
        w,
        h,
        duration,
    ]);
}

/// A name that is given without the sign is taken as it is, and of one with signs in
/// front all of them are dropped.
pub proof fn law_names_are_kept(n: nat, name: Seq<char>)
    requires
        name.len() > 0 ==> name[0] != '@',
    ensures
        text::without_leading(name, '@') == name,
        text::without_leading(Seq::new(n, |i: int| '@') + name, '@') == name,
{
    text::law_leading_signs_are_taken('@', n, name);
}

/// Credentials are refused for a missing identifier, else for one that is no number,
/// else for a missing hash, and for nothing else.
pub proof fn law_credentials(api_id: Option<String>, api_hash: Option<String>)
    ensures
        api_id is None ==> credentials_fault(api_id, api_hash) == Some(
            "TG_API_ID is not set. Get it at https://my.telegram.org, then: setx TG_API_ID <id> (and open a NEW terminal)."@,
        ),
        api_id is Some && number::int_of(text::trim_of(api_id->0@)) is Err ==> credentials_fault(
            api_id,
            api_hash,
        ) == Some("TG_API_ID must be a number"@),
        api_id is Some && number::int_of(text::trim_of(api_id->0@)) is Ok && api_hash is None
            ==> credentials_fault(api_id, api_hash) == Some(
            "TG_API_HASH is not set. Get it at https://my.telegram.org, then: setx TG_API_HASH <hash> (and open a NEW terminal)."@,
        ),
        api_id is Some && number::int_of(text::trim_of(api_id->0@)) is Ok && api_hash is Some
            ==> credentials_fault(api_id, api_hash) is None,
{
}

/// Signing in asks for the phone, then for the code, then for a password only where
/// one is required, and ends with success exactly if it was accepted, or was not
/// needed, and with failure exactly if it was refused.
pub proof fn law_sign_in(event: SignInEvent)
    ensures
        sign_in_action(event) is Proceed <==> event is Authorized,
        sign_in_action(event) is AskPhone <==> event is Unauthorized,
        sign_in_action(event) is AskCode <==> event is CodeRequested,
        sign_in_action(event) is AskPassword <==> event is PasswordRequired,
        sign_in_action(event) is Announce <==> event is Accepted,
        sign_in_action(event) is Fail <==> event is Rejected,
{
}

/// What the sender is asked at each step.
pub proof fn law_sign_in_questions()
    ensures
        sign_in_text_of(SignInAction::AskPhone) == "Phone (intl, e.g. +3538...): "@,
        sign_in_text_of(SignInAction::AskCode) == "Login code: "@,
        sign_in_text_of(SignInAction::AskPassword) == "2FA password: "@,
        sign_in_text_of(SignInAction::Announce) == "Signed in."@,
{
}

/// What the sender is told names the size and the length of the video, and what
/// becomes of it.
pub proof fn law_plan_is_told(width: i32, height: i32, seconds: Seq<char>)
    ensures
        ({
            let size = number::signed_decimal(width as int) + "x"@ + number::signed_decimal(
                height as int,
            ) + ", "@ + seconds + "s"@;
            &&& plan_line_of(true, width, height, seconds) == "Already a valid note ("@ + size
                + ") — sending as is."@
            &&& plan_line_of(false, width, height, seconds) == "Source is "@ + size
                + " — normalizing to 512x512 square, ≤60s…"@
        }),
{
}

/// What the sender is told in the end names the video, its side twice, its length and
/// whom it went to.
pub proof fn law_sending_is_told(
    video: Seq<char>,
    side: i32,
    seconds: Seq<char>,
    target: Seq<char>,
)
    ensures
        ({
            let n = number::signed_decimal(side as int);
            sent_line_of(video, side, seconds, target) == "Sent '"@ + video + "' as a "@ + n + "x"@
                + n + " video note ("@ + seconds + "s) to "@ + target + "."@
        }),
{
}

/// A video qualifies as a note exactly if it is square and lasts at most 60 seconds.
pub proof fn law_what_qualifies(width: i32, height: i32, duration: Double)
    requires
        !duration.is_nan(),
    ensures
        qualifies_of(width, height, duration) <==> width == height && duration.rank() <= (Double {
            bits: 0x404e_0000_0000_0000,
        }).rank(),
{
}

/// The prober's answer is refused for a missing width, else for one that is no
/// number, else for a missing height, else for one that is no number, and for
/// nothing else; a missing duration is no fault.
pub proof fn law_probe_faults(words: Seq<Seq<char>>)
    ensures
        words.len() == 0 ==> probe_fault(words) == Some(ProbeFault::NoWidth),
        words.len() > 0 && number::int_of(words[0]) is Err ==> probe_fault(words) == Some(
            ProbeFault::Width(number::int_of(words[0])->Err_0),
        ),
        words.len() == 1 && number::int_of(words[0]) is Ok ==> probe_fault(words) == Some(
            ProbeFault::NoHeight,
        ),
        words.len() > 1 && number::int_of(words[0]) is Ok && number::int_of(words[1]) is Err
            ==> probe_fault(words) == Some(ProbeFault::Height(number::int_of(words[1])->Err_0)),
        words.len() > 1 && number::int_of(words[0]) is Ok && number::int_of(words[1]) is Ok
            ==> probe_fault(words) is None,
        probe_fault_text(ProbeFault::NoWidth) == "no width"@,
        probe_fault_text(ProbeFault::NoHeight) == "no height"@,
{
}

/// The first word that the prober wrote is the width, the second the height, and the
/// third, if there is one, the text of the duration.
pub proof fn law_probe_says(words: Seq<Seq<char>>, probe: Probe)
    requires
        says(words, probe),
    ensures
        words.len() >= 2,
        number::int_of(words[0]) == Ok::<int, IntFault>(probe.width as int),
        number::int_of(words[1]) == Ok::<int, IntFault>(probe.height as int),
        probe.duration is Some <==> words.len() >= 3,
        probe.duration is Some ==> probe.duration->0@ == words[2],
{
}

/// Whatever reading the prober's answer returns, it is what the words say, or their
/// fault.
pub proof fn law_reading_the_prober(written: &str, r: Result<Probe, ProbeFault>)
    requires
        call_ensures(read_probe_text, (written,), r),
    ensures
        r is Ok <==> probe_fault(text::words_of(written@)) is None,
        r is Ok ==> says(text::words_of(written@), r->Ok_0),
        r is Err ==> probe_fault(text::words_of(written@)) == Some(r->Err_0),
{
}

/// Whatever the run of the prober returned: a prober that could not be started or that
/// failed gives no size, whatever it wrote, and says why.
pub proof fn law_failed_prober(end: RunEnd, stdout: &[u8], stderr: &[u8], r: Result<Probe, String>)
    requires
        call_ensures(probe_outcome, (end, stdout, stderr), r),
    ensures
        end is NotStarted ==> r is Err && r->Err_0@
            == "ffprobe not found — install FFmpeg and add it to PATH"@,
        end is Failed ==> r is Err && r->Err_0@ == "ffprobe failed: "@ + text::decoded_of(stderr@),
        end is Succeeded ==> (r is Ok <==> probe_fault(
            text::words_of(text::decoded_of(stdout@)),
        ) is None),
        end is Succeeded && r is Ok ==> says(
            text::words_of(text::decoded_of(stdout@)),
            r->Ok_0,
        ),
{
}

/// A note was made exactly if the encoder succeeded; else it is told why.
pub proof fn law_note_is_made_or_told(end: RunEnd, r: Result<(), &'static str>)
    requires
        call_ensures(note_outcome, (end,), r),
    ensures
        r is Ok <==> end is Succeeded,
        end is NotStarted ==> r->Err_0@ == "ffmpeg not found — install FFmpeg and add it to PATH"@,
        end is Failed ==> r->Err_0@ == "ffmpeg failed to build the note"@,
{
}

/// A note goes to the sender exactly if it is addressed to `me`, and else to the user
/// of the name, without the signs in front.
pub proof fn law_notes_reach_whom_they_are_for(target: &str, r: Recipient)
    requires
        call_ensures(recipient, (target,), r),
    ensures
        r is Myself <==> target@ == "me"@,
        r is User ==> r->User_0@ == text::without_leading(target@, '@'),
{
}

/// An argument that is given is taken; without one the video is `vinyl.mp4`, and it
/// goes to the sender.
pub proof fn law_arguments_have_defaults(
    video: Option<String>,
    sent: String,
    target: Option<String>,
    reached: String,
)
    requires
        call_ensures(video_or_default, (video,), sent),
        call_ensures(target_or_default, (target,), reached),
    ensures
        video is Some ==> sent@ == video->0@,
        video is None ==> sent@ == "vinyl.mp4"@,
        target is Some ==> reached@ == target->0@,
        target is None ==> reached@ == "me"@,
{
}

/// Credentials that can be used are used without the white space around them.
pub proof fn law_credentials_are_used(
    api_id: Option<String>,
    api_hash: Option<String>,
    r: Result<(i32, String), &'static str>,
)
    requires
        call_ensures(credentials, (api_id, api_hash), r),
    ensures
        r is Ok <==> credentials_fault(api_id, api_hash) is None,
        r is Ok ==> number::int_of(text::trim_of(api_id->0@)) == Ok::<int, IntFault>(
            (r->Ok_0).0 as int,
        ),
        r is Ok ==> (r->Ok_0).1@ == text::trim_of(api_hash->0@),
        r is Err ==> credentials_fault(api_id, api_hash) == Some(r->Err_0@),
{
}

/// A video goes out with its own width if it goes out as it is, and with 512 pixels if
/// it was made into a note; it goes out as it is exactly if it is square and lasts at
/// most 60 seconds.
pub proof fn law_how_a_video_goes_out(
    width: i32,
    height: i32,
    duration: Double,
    as_is: bool,
    side: i32,
)
    requires
        call_ensures(qualifies, (width, height, duration), as_is),
        call_ensures(sent_side, (as_is, width), side),
    ensures
        as_is <==> width == height && !duration.is_nan() && duration.rank() <= (Double {
            bits: 0x404e_0000_0000_0000,
        }).rank(),
        as_is ==> side == width,
        !as_is ==> side == 512,
{
}

/// Whatever the sender is told and asked comes out as the laws have it.
pub proof fn law_sentences_come_out(
    as_is: bool,
    width: i32,
    height: i32,
    seconds: &str,
    plan: String,
    video: &str,
    target: &str,
    sent: String,
    event: SignInEvent,
    action: SignInAction,
    asked: &'static str,
    stderr: &[u8],
    failed: String,
)
    requires
        call_ensures(plan_line, (as_is, width, height, seconds), plan),
        call_ensures(sent_line, (video, width, seconds, target), sent),
        call_ensures(sign_in_step, (event,), action),
        call_ensures(sign_in_text, (action,), asked),
        call_ensures(probe_failed, (stderr,), failed),
    ensures
        plan@ == plan_line_of(as_is, width, height, seconds@),
        sent@ == sent_line_of(video@, width, seconds@, target@),
        action == sign_in_action(event),
        asked@ == sign_in_text_of(action),
        failed@ == "ffprobe failed: "@ + text::decoded_of(stderr@),
{
}

} // verus!
