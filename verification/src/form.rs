//! The upload form, and what a render is asked to be once the form is read.

use vstd::prelude::*;

use crate::caption;
use crate::color;
use crate::color::Rgb;
use crate::graph::Ring;
use crate::text;

verus! {

/// The longest caption that runs straight, on the rib of a reel or in the center
/// of a label; longer ones curve.
pub const SHORT_CAPTION: usize = 10;

/// The form as far as it has been read.
#[derive(Debug)]
pub struct Form {
    pub have_cover: bool,
    pub have_audio: bool,
    pub note: bool,
    pub disc_hex: String,
    pub label_hex: String,
    pub disc_type: String,
    pub caption: String,
}

/// A form by its parts.
pub struct FormView {
    pub have_cover: bool,
    pub have_audio: bool,
    pub note: bool,
    pub disc_hex: Seq<char>,
    pub label_hex: Seq<char>,
    pub disc_type: Seq<char>,
    pub caption: Seq<char>,
}

impl View for Form {
    type V = FormView;

    open spec fn view(&self) -> FormView {
        FormView {
            have_cover: self.have_cover,
            have_audio: self.have_audio,
            note: self.note,
            disc_hex: self.disc_hex@,
            label_hex: self.label_hex@,
            disc_type: self.disc_type@,
            caption: self.caption@,
        }
    }
}

/// What is to be done with the bytes of a field.
#[derive(Debug, Clone, Copy, PartialEq, Eq, Structural)]
pub enum FieldUse {
    /// Save them as the cover.
    Cover,
    /// Save them as the audio.
    Audio,
    /// Nothing: the form has kept what it needs.
    Kept,
}

/// The form before any field is read.
pub open spec fn blank_form() -> FormView {
    FormView {
        have_cover: false,
        have_audio: false,
        note: false,
        disc_hex: "#2e2e34"@,
        label_hex: "#000000"@,
        disc_type: "vinyl"@,
        caption: seq![],
    }
}

/// The bytes of the mode that asks for a note.
pub open spec fn note_mode() -> Seq<u8> {
    seq![110u8, 111u8, 116u8, 101u8]
}

/// The form once the field `name` with the content `data` has been read.
pub open spec fn form_after(form: FormView, name: Seq<char>, data: Seq<u8>) -> FormView {
    if name == "image"@ && data.len() > 0 {
        FormView { have_cover: true, ..form }
    } else if name == "audio"@ && data.len() > 0 {
        FormView { have_audio: true, ..form }
    } else if name == "mode"@ {
        FormView { note: data == note_mode(), ..form }
    } else if name == "disc_color"@ && data.len() > 0 {
        FormView { disc_hex: text::decoded_of(data), ..form }
    } else if name == "label_color"@ && data.len() > 0 {
        FormView { label_hex: text::decoded_of(data), ..form }
    } else if name == "disc_type"@ && data.len() > 0 {
        FormView { disc_type: text::trim_of(text::decoded_of(data)), ..form }
    } else if name == "text"@ {
        FormView { caption: text::decoded_of(data), ..form }
    } else {
        form
    }
}

/// What is to be done with the content `data` of the field `name`.
pub open spec fn field_use(name: Seq<char>, data: Seq<u8>) -> FieldUse {
    if name == "image"@ && data.len() > 0 {
        FieldUse::Cover
    } else if name == "audio"@ && data.len() > 0 {
        FieldUse::Audio
    } else {
        FieldUse::Kept
    }
}

fn is_note_mode(data: &[u8]) -> (r: bool)
    ensures
        r == (data@ == note_mode()),
{
    let r = data.len() == 4 && data[0] == 110 && data[1] == 111 && data[2] == 116 && data[3]
        == 101;
    assert(r ==> data@ =~= note_mode());
    r
}

proof fn lemma_field_names_differ()
    ensures
        "image"@ != "audio"@,
        "image"@ != "mode"@,
        "image"@ != "disc_color"@,
        "image"@ != "label_color"@,
        "image"@ != "disc_type"@,
        "image"@ != "text"@,
        "audio"@ != "mode"@,
        "audio"@ != "disc_color"@,
        "audio"@ != "label_color"@,
        "audio"@ != "disc_type"@,
        "audio"@ != "text"@,
        "mode"@ != "disc_color"@,
        "mode"@ != "label_color"@,
        "mode"@ != "disc_type"@,
        "mode"@ != "text"@,
        "disc_color"@ != "label_color"@,
        "disc_color"@ != "disc_type"@,
        "disc_color"@ != "text"@,
        "label_color"@ != "disc_type"@,
        "label_color"@ != "text"@,
        "disc_type"@ != "text"@,
{
    reveal_strlit("image");
    reveal_strlit("audio");
    reveal_strlit("mode");
    reveal_strlit("disc_color");
    reveal_strlit("label_color");
    reveal_strlit("disc_type");
    reveal_strlit("text");
    assert("image"@.len() == 5 && "audio"@.len() == 5 && "mode"@.len() == 4 && "text"@.len() == 4);
    assert("disc_color"@.len() == 10 && "label_color"@.len() == 11 && "disc_type"@.len() == 9);
    assert("image"@[0] != "audio"@[0]);
    assert("mode"@[0] != "text"@[0]);
}

impl Form {
    /// The form before any field is read.
    pub fn new() -> (r: Form)
        ensures
            r@ == blank_form(),
    {
        let r = Form {
            have_cover: false,
            have_audio: false,
            note: false,
            disc_hex: "#2e2e34".to_owned(),
            label_hex: "#000000".to_owned(),
            disc_type: "vinyl".to_owned(),
            caption: String::new(),
        };
        assert(r@.caption =~= seq![]);
        r
    }

    /// Reads one field, and says what is to be done with its bytes.
    pub fn accept(&mut self, name: &str, data: &[u8]) -> (r: FieldUse)
        ensures
            final(self)@ == form_after(old(self)@, name@, data@),
            r == field_use(name@, data@),
    {
        let filled: bool = data.len() > 0;
        if text::same_text(name, "image") && filled {
            self.have_cover = true;
            FieldUse::Cover
        } else if text::same_text(name, "audio") && filled {
            self.have_audio = true;
            FieldUse::Audio
        } else {
            if text::same_text(name, "mode") {
                self.note = is_note_mode(data);
            } else if text::same_text(name, "disc_color") && filled {
                self.disc_hex = text::decode_lossy(data);
            } else if text::same_text(name, "label_color") && filled {
                self.label_hex = text::decode_lossy(data);
            } else if text::same_text(name, "disc_type") && filled {
                let decoded = text::decode_lossy(data);
                self.disc_type = text::trim(decoded.as_str());
            } else if text::same_text(name, "text") {
                self.caption = text::decode_lossy(data);
            }
            FieldUse::Kept
        }
    }

    fn request_as(&self, caption: String) -> (r: Request)
        ensures
            r@ == request_of(self@, caption@),
    {
        let reel = text::same_text(self.disc_type.as_str(), "reel");
        Request {
            audio: self.have_audio,
            note: self.note,
            reel,
            cover: self.have_cover && !reel,
            disc: color::parse_hex(self.disc_hex.as_str()),
            label: color::parse_hex(self.label_hex.as_str()),
            caption,
        }
    }

    /// What the form asks for on the given `date`.
    pub fn request_on(&self, date: &str) -> (r: Request)
        ensures
            r@ == request_of(self@, caption::caption_or_of(self@.caption, date@)),
    {
        let caption = caption::caption_or(self.caption.as_str(), date);
        self.request_as(caption)
    }

    /// What the form asks for today.
    pub fn request(&self) -> (r: Request)
        ensures
            r@ == request_of(self@, r@.caption),
            caption::safe_caption_of(self@.caption).len() > 0 ==> r@.caption
                == caption::safe_caption_of(self@.caption),
            caption::safe_caption_of(self@.caption).len() == 0 ==> caption::is_date_text(
                r@.caption,
            ),
            caption::safe_caption_of(self@.caption).len() == 0 ==> caption::read_off_the_clock(
                r@.caption,
            ),
    {
        let caption = caption::caption_for(self.caption.as_str());
        self.request_as(caption)
    }
}

/// What a render is asked to be.
#[derive(Debug)]
pub struct Request {
    /// There is audio to put under the video.
    pub audio: bool,
    /// A video note, square and at most a minute long.
    pub note: bool,
    /// A tape reel in place of a record.
    pub reel: bool,
    /// The cover is used.
    pub cover: bool,
    /// The color of the record.
    pub disc: Rgb,
    /// The color of the label.
    pub label: Rgb,
    pub caption: String,
}

/// A request by its parts.
pub struct RequestView {
    pub audio: bool,
    pub note: bool,
    pub reel: bool,
    pub cover: bool,
    pub disc: Rgb,
    pub label: Rgb,
    pub caption: Seq<char>,
}

impl View for Request {
    type V = RequestView;

    open spec fn view(&self) -> RequestView {
        RequestView {
            audio: self.audio,
            note: self.note,
            reel: self.reel,
            cover: self.cover,
            disc: self.disc,
            label: self.label,
            caption: self.caption@,
        }
    }
}

/// What the form asks for, once its caption is settled. A reel has no label to
/// put a cover on, so it never uses one.
pub open spec fn request_of(form: FormView, caption: Seq<char>) -> RequestView {
    RequestView {
        audio: form.have_audio,
        note: form.note,
        reel: form.disc_type == "reel"@,
        cover: form.have_cover && form.disc_type != "reel"@,
        disc: color::color_or_fallback(form.disc_hex),
        label: color::color_or_fallback(form.label_hex),
        caption,
    }
}

/// The ring that the caption of a render runs along, if it runs along one. A
/// short caption runs straight; a longer one curves along the rim of a reel, or
/// along the label of a record without a cover.
pub open spec fn ring_of(request: RequestView) -> Option<Ring> {
    if request.caption.len() <= SHORT_CAPTION {
        None
    } else if request.reel {
        Some(Ring::Rim)
    } else if request.cover {
        None
    } else {
        Some(Ring::Label)
    }
}

impl Request {
    /// The ring that the caption runs along, if it runs along one.
    pub fn ring(&self) -> (r: Option<Ring>)
        ensures
            r == ring_of(self@),
    {
        if text::chars_of(self.caption.as_str()).len() <= SHORT_CAPTION {
            None
        } else if self.reel {
            Some(Ring::Rim)
        } else if self.cover {
            None
        } else {
            Some(Ring::Label)
        }
    }
}

/// A field that is left empty changes nothing, but for the mode and the caption,
/// which it clears.
pub proof fn law_empty_field_is_ignored(form: FormView, name: Seq<char>)
    requires
        name != "mode"@,
        name != "text"@,
    ensures
        form_after(form, name, seq![]) == form,
        field_use(name, seq![]) == FieldUse::Kept,
{
}

/// A field of another name changes nothing and is not saved.
pub proof fn law_unknown_field_is_ignored(form: FormView, name: Seq<char>, data: Seq<u8>)
    requires
        name != "image"@,
        name != "audio"@,
        name != "mode"@,
        name != "disc_color"@,
        name != "label_color"@,
        name != "disc_type"@,
        name != "text"@,
    ensures
        form_after(form, name, data) == form,
        field_use(name, data) == FieldUse::Kept,
{
}

/// The caption and the colors are kept as they were written, and the kind of
/// record is too, but for the white space around it.
pub proof fn law_text_fields_are_kept(form: FormView, s: Seq<char>)
    requires
        s.len() > 0,
    ensures
        form_after(form, "text"@, vstd::utf8::encode_utf8(s)).caption == s,
        form_after(form, "disc_color"@, vstd::utf8::encode_utf8(s)).disc_hex == s,
        form_after(form, "label_color"@, vstd::utf8::encode_utf8(s)).label_hex == s,
        form_after(form, "disc_type"@, vstd::utf8::encode_utf8(s)).disc_type == text::trim_of(s),
{
    lemma_field_names_differ();
    text::law_text_survives_encoding(s);
    let data = vstd::utf8::encode_utf8(s);
    if data.len() == 0 {
        assert(vstd::utf8::decode_utf8(data) =~= Seq::<char>::empty());
    }
}

/// Where a field comes twice, the later one counts.
pub proof fn law_last_field_counts(
    form: FormView,
    name: Seq<char>,
    first: Seq<u8>,
    second: Seq<u8>,
)
    requires
        second.len() > 0,
    ensures
        form_after(form_after(form, name, first), name, second) == form_after(form, name, second),
{
    lemma_field_names_differ();
}

/// Fields of different names may come in any order.
pub proof fn law_fields_commute(
    form: FormView,
    a: Seq<char>,
    x: Seq<u8>,
    b: Seq<char>,
    y: Seq<u8>,
)
    requires
        a != b,
    ensures
        form_after(form_after(form, a, x), b, y) == form_after(form_after(form, b, y), a, x),
{
    lemma_field_names_differ();
}

/// A reel uses no cover, whatever was uploaded; and a caption of at most ten
/// characters sits on its rib, while a longer one curves along its rim.
pub proof fn law_reel_has_no_cover(form: FormView, caption: Seq<char>)
    requires
        form.disc_type == "reel"@,
    ensures
        !request_of(form, caption).cover,
        caption.len() <= 10 <==> ring_of(request_of(form, caption)) is None,
        caption.len() > 10 <==> ring_of(request_of(form, caption)) == Some(Ring::Rim),
{
}

/// A record without a cover has its caption on the label: one of at most ten
/// characters sits in its center, while a longer one curves along it.
pub proof fn law_record_without_cover_has_text(form: FormView, caption: Seq<char>)
    requires
        form.disc_type != "reel"@,
        !form.have_cover,
    ensures
        !request_of(form, caption).cover,
        caption.len() <= 10 <==> ring_of(request_of(form, caption)) is None,
        caption.len() > 10 <==> ring_of(request_of(form, caption)) == Some(Ring::Label),
{
}

/// A form that nobody filled in asks for a record in dark gray with a black label,
/// without a cover, a caption or audio, as a full video.
pub proof fn law_blank_form_asks_for_a_dark_record(caption: Seq<char>)
    ensures
        blank_form().caption.len() == 0,
        request_of(blank_form(), caption) == (RequestView {
            audio: false,
            note: false,
            reel: false,
            cover: false,
            disc: (46, 46, 52),
            label: (0, 0, 0),
            caption,
        }),
{
    reveal_strlit("#2e2e34");
    reveal_strlit("#000000");
    reveal_strlit("vinyl");
    reveal_strlit("reel");
    assert("vinyl"@.len() == 5 && "reel"@.len() == 4);
    color::law_color_round_trip((46, 46, 52));
    color::law_color_round_trip((0, 0, 0));
    assert(seq!['#'] + color::hex_color((46, 46, 52)) =~= "#2e2e34"@);
    assert(seq!['#'] + color::hex_color((0, 0, 0)) =~= "#000000"@);
}

/// A cover or an audio file that is not empty is saved and noted, and nothing else
/// of the form changes.
pub proof fn law_uploads_are_noted(form: FormView, data: Seq<u8>)
    requires
        data.len() > 0,
    ensures
        form_after(form, "image"@, data) == (FormView { have_cover: true, ..form }),
        form_after(form, "audio"@, data) == (FormView { have_audio: true, ..form }),
        field_use("image"@, data) == FieldUse::Cover,
        field_use("audio"@, data) == FieldUse::Audio,
{
    lemma_field_names_differ();
}

/// Nothing but a cover or an audio file is saved.
pub proof fn law_only_uploads_are_saved(name: Seq<char>, data: Seq<u8>)
    ensures
        field_use(name, data) is Cover <==> name == "image"@ && data.len() > 0,
        field_use(name, data) is Audio <==> name == "audio"@ && data.len() > 0,
{
    lemma_field_names_differ();
}

/// The mode asks for a note exactly if it is the four letters `note`, and changes
/// nothing else.
pub proof fn law_mode_picks_the_note(form: FormView, data: Seq<u8>)
    ensures
        form_after(form, "mode"@, data) == (FormView {
            note: data == seq![110u8, 111u8, 116u8, 101u8],
            ..form
        }),
{
    lemma_field_names_differ();
}

/// A text field changes its own part of the form and no other.
pub proof fn law_text_fields_change_their_own(form: FormView, s: Seq<char>)
    requires
        s.len() > 0,
    ensures
        ({
            let data = vstd::utf8::encode_utf8(s);
            &&& form_after(form, "text"@, data) == (FormView { caption: s, ..form })
            &&& form_after(form, "disc_color"@, data) == (FormView { disc_hex: s, ..form })
            &&& form_after(form, "label_color"@, data) == (FormView { label_hex: s, ..form })
            &&& form_after(form, "disc_type"@, data) == (FormView {
                disc_type: text::trim_of(s),
                ..form
            })
        }),
{
    lemma_field_names_differ();
    law_text_fields_are_kept(form, s);
    text::law_text_survives_encoding(s);
    let data = vstd::utf8::encode_utf8(s);
    if data.len() == 0 {
        assert(vstd::utf8::decode_utf8(data) =~= Seq::<char>::empty());
    }
}

/// The color of the record reaches the request as the color of the record, and the
/// color of the label as the color of the label.
pub proof fn law_colors_reach_the_request(form: FormView, rgb: Rgb, caption: Seq<char>)
    ensures
        ({
            let data = vstd::utf8::encode_utf8(seq!['#'] + color::hex_color(rgb));
            let disc = request_of(form_after(form, "disc_color"@, data), caption);
            let label = request_of(form_after(form, "label_color"@, data), caption);
            &&& disc == (RequestView { disc: rgb, ..request_of(form, caption) })
            &&& label == (RequestView { label: rgb, ..request_of(form, caption) })
        }),
{
    color::law_color_round_trip(rgb);
    law_text_fields_change_their_own(form, seq!['#'] + color::hex_color(rgb));
}

/// What is asked for follows the form part by part: audio and mode as they were
/// noted, a reel exactly if one was picked, the cover exactly if there is one and no
/// reel, the colors as they are read, and the caption as it was settled.
pub proof fn law_request_follows_the_form(form: FormView, caption: Seq<char>)
    ensures
        request_of(form, caption).audio == form.have_audio,
        request_of(form, caption).note == form.note,
        request_of(form, caption).reel <==> form.disc_type == "reel"@,
        request_of(form, caption).cover <==> form.have_cover && form.disc_type != "reel"@,
        request_of(form, caption).disc == color::color_or_fallback(form.disc_hex),
        request_of(form, caption).label == color::color_or_fallback(form.label_hex),
        request_of(form, caption).caption == caption,
{
}

/// An empty caption clears the one before.
pub proof fn law_empty_caption_is_cleared(form: FormView)
    ensures
        form_after(form, "text"@, vstd::utf8::encode_utf8(seq![])) == (FormView {
            caption: seq![],
            ..form
        }),
{
    lemma_field_names_differ();
    text::law_text_survives_encoding(seq![]);
}

/// Whatever a form asks for today: what the user wrote is the caption, made safe, and
/// if nothing is left of it, the date that the clock gave is.
pub proof fn law_request_of_today(form: Form, r: Request)
    requires
        call_ensures(Form::request, (&form,), r),
    ensures
        r@ == request_of(form@, r@.caption),
        caption::safe_caption_of(form@.caption).len() > 0 ==> r@.caption
            == caption::safe_caption_of(form@.caption),
        caption::safe_caption_of(form@.caption).len() == 0 ==> caption::read_off_the_clock(
            r@.caption,
        ),
{
}

/// Whatever a form asks for on a given day: what the user wrote is the caption, made
/// safe, and if nothing is left of it, that day is.
pub proof fn law_request_of_a_day(form: Form, date: &str, r: Request)
    requires
        call_ensures(Form::request_on, (&form, date), r),
    ensures
        r@ == request_of(form@, r@.caption),
        caption::safe_caption_of(form@.caption).len() > 0 ==> r@.caption
            == caption::safe_caption_of(form@.caption),
        caption::safe_caption_of(form@.caption).len() == 0 ==> r@.caption == date@,
{
}

/// A caption of at most ten characters runs along no ring; a longer one runs along the
/// rim of a reel, or along the label of a record without a cover.
pub proof fn law_ring_of_a_caption(request: Request, r: Option<Ring>)
    requires
        call_ensures(Request::ring, (&request,), r),
    ensures
        r is None <==> request@.caption.len() <= 10 || (request@.cover && !request@.reel),
        r == Some(Ring::Rim) <==> request@.caption.len() > 10 && request@.reel,
        r == Some(Ring::Label) <==> request@.caption.len() > 10 && !request@.reel
            && !request@.cover,
{
}

/// Whatever a field is read as changes the form as the laws have it, and says what is
/// to be done with its bytes.
pub proof fn law_fields_are_read(form: &mut Form, name: &str, data: &[u8], r: FieldUse)
    requires
        call_ensures(Form::accept, (form, name, data), r),
    ensures
        final(form)@ == form_after(old(form)@, name@, data@),
        r is Cover <==> name@ == "image"@ && data@.len() > 0,
        r is Audio <==> name@ == "audio"@ && data@.len() > 0,
{
    lemma_field_names_differ();
}

/// A form that was just made is blank.
pub proof fn law_new_form_is_blank(form: Form)
    requires
        call_ensures(Form::new, (), form),
    ensures
        form@ == blank_form(),
{
}

} // verus!
