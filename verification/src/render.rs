//! A render from the request to the encoder: what is run and looked for, in
//! which order, and what each answer leads to.
//!
//! A render is a walk over stages. At each stage there is one thing to do; the
//! answer to it, yes or no, decides the next stage. The walk ends with the
//! encoder started or with the request refused.

use vstd::prelude::*;

use crate::color;
use crate::command;
use crate::command::Layers;
use crate::double;
use crate::double::Double;
use crate::form;
use crate::form::Request;
use crate::graph;
use crate::graph::{Corner, Ring};
use crate::number;
use crate::reply;
use crate::reply::{Refusal, Status};
use crate::text;

verus! {

/// The bits of 0.1, the shortest duration that is reckoned with.
pub const SHORTEST_SECONDS: u64 = 0x3fb9_9999_9999_999a;

/// The bits of 60.0, the longest that a note may last.
pub const NOTE_SECONDS: u64 = 0x404e_0000_0000_0000;

/// The files of one render job.
#[derive(Debug)]
pub struct Paths {
    pub dir: String,
    pub cover: String,
    pub cover_png: String,
    pub audio: String,
    pub label: String,
    pub out: String,
    pub reel_text: String,
}

/// The files of one render job, as texts.
pub struct PathsView {
    pub dir: Seq<char>,
    pub cover: Seq<char>,
    pub cover_png: Seq<char>,
    pub audio: Seq<char>,
    pub label: Seq<char>,
    pub out: Seq<char>,
    pub reel_text: Seq<char>,
}

impl View for Paths {
    type V = PathsView;

    open spec fn view(&self) -> PathsView {
        PathsView {
            dir: self.dir@,
            cover: self.cover@,
            cover_png: self.cover_png@,
            audio: self.audio@,
            label: self.label@,
            out: self.out@,
            reel_text: self.reel_text@,
        }
    }
}

/// The directory of job `id`. `sep` separates the parts of a path.
pub open spec fn dir_of(id: Seq<char>, sep: char) -> Seq<char> {
    "work"@.push(sep) + "r-"@ + id
}

/// The files of job `id`. `sep` separates the parts of a path.
pub open spec fn paths_of(id: Seq<char>, sep: char) -> PathsView {
    let dir = dir_of(id, sep);
    PathsView {
        dir,
        cover: dir.push(sep) + "cover_input"@,
        cover_png: dir.push(sep) + "cover.png"@,
        audio: dir.push(sep) + "audio_input"@,
        label: dir.push(sep) + "label.png"@,
        out: dir.push(sep) + "out.mp4"@,
        reel_text: dir.push(sep) + "reel_text.png"@,
    }
}

fn file_in(dir: &String, sep: char, name: &str) -> (r: String)
    ensures
        r@ == dir@.push(sep) + name@,
{
    let mut s = dir.clone();
    s.push(sep);
    s.append(name);
    s
}

/// The files of job `id`. `sep` separates the parts of a path.
pub fn job_paths(id: &str, sep: char) -> (r: Paths)
    ensures
        r@ == paths_of(id@, sep),
{
    let mut dir = "work".to_owned();
    dir.push(sep);
    dir.append("r-");
    dir.append(id);
    let cover = file_in(&dir, sep, "cover_input");
    let cover_png = file_in(&dir, sep, "cover.png");
    let audio = file_in(&dir, sep, "audio_input");
    let label = file_in(&dir, sep, "label.png");
    let out = file_in(&dir, sep, "out.mp4");
    let reel_text = file_in(&dir, sep, "reel_text.png");
    Paths { dir, cover, cover_png, audio, label, out, reel_text }
}

/// The identifier of a job that was taken on `ns` nanoseconds into the epoch.
pub fn job_id(ns: u128) -> (r: String)
    ensures
        r@ == number::decimal(ns as nat),
{
    let mut id = String::new();
    number::push_decimal(&mut id, ns);
    assert(id@ =~= number::decimal(ns as nat));
    id
}

/// How far the disc of a color is from being there.
#[derive(Debug, Clone, Copy, PartialEq, Eq, Structural)]
pub enum DiscStage {
    /// Is it there from an earlier render?
    Cached,
    /// Is the gray disc there?
    Base,
    /// Can the gray disc be tinted?
    Tint,
    /// Is the tinted disc there now?
    Check,
}

/// Why a render is refused.
#[derive(Debug, Clone, Copy, PartialEq, Eq, Structural)]
pub enum Reason {
    NoAudio,
    BadCover,
    NoReel,
    ReelFailed,
    LabelFailed,
    NoDisc,
    DiscFailed,
}

/// How far a render is.
#[derive(Debug, Clone, Copy, PartialEq, Eq, Structural)]
pub enum Stage {
    /// Can the cover be read?
    Cover,
    /// Is the reel there?
    ReelBase,
    /// Can the empty label of the reel be drawn?
    Placeholder,
    /// Can the caption be baked onto the reel? `placeholder` tells how the step
    /// before went.
    Bake { placeholder: bool },
    /// Can the label be drawn?
    Label,
    /// The disc is being seen to.
    Disc(DiscStage),
    /// All layers are there.
    Ready,
    /// The render is refused.
    Refused(Reason),
}

/// What leaves a stage of the disc.
#[derive(Debug, Clone, Copy, PartialEq, Eq, Structural)]
pub enum DiscMove {
    Next(DiscStage),
    Found,
    Failed(Reason),
}

/// Where an answer leads from a stage of the disc: a disc that is there is
/// taken as it is, otherwise the gray disc is tinted.
pub open spec fn disc_after(stage: DiscStage, answer: bool) -> DiscMove {
    match (stage, answer) {
        (DiscStage::Cached, true) => DiscMove::Found,
        (DiscStage::Cached, false) => DiscMove::Next(DiscStage::Base),
        (DiscStage::Base, true) => DiscMove::Next(DiscStage::Tint),
        (DiscStage::Base, false) => DiscMove::Failed(Reason::NoDisc),
        (DiscStage::Tint, true) => DiscMove::Next(DiscStage::Check),
        (DiscStage::Tint, false) => DiscMove::Failed(Reason::DiscFailed),
        (DiscStage::Check, true) => DiscMove::Found,
        (DiscStage::Check, false) => DiscMove::Failed(Reason::DiscFailed),
    }
}

/// Where an answer leads from a stage of the disc.
pub fn ensure_disc(stage: DiscStage, answer: bool) -> (r: DiscMove)
    ensures
        r == disc_after(stage, answer),
{
    match stage {
        DiscStage::Cached => if answer {
            DiscMove::Found
        } else {
            DiscMove::Next(DiscStage::Base)
        },
        DiscStage::Base => if answer {
            DiscMove::Next(DiscStage::Tint)
        } else {
            DiscMove::Failed(Reason::NoDisc)
        },
        DiscStage::Tint => if answer {
            DiscMove::Next(DiscStage::Check)
        } else {
            DiscMove::Failed(Reason::DiscFailed)
        },
        DiscStage::Check => if answer {
            DiscMove::Found
        } else {
            DiscMove::Failed(Reason::DiscFailed)
        },
    }
}

/// The first stage of what spins: a reel, or a record with its label.
pub open spec fn spinner_stage(request: form::RequestView) -> Stage {
    if request.reel {
        Stage::ReelBase
    } else {
        Stage::Label
    }
}

/// The stage that a render begins at. Without audio it ends there.
pub open spec fn first_stage(request: form::RequestView) -> Stage {
    if !request.audio {
        Stage::Refused(Reason::NoAudio)
    } else if request.cover {
        Stage::Cover
    } else {
        spinner_stage(request)
    }
}

/// The stage that an answer leads to. A render that has ended stays so.
pub open spec fn stage_after(request: form::RequestView, stage: Stage, answer: bool) -> Stage {
    match stage {
        Stage::Cover => if answer {
            spinner_stage(request)
        } else {
            Stage::Refused(Reason::BadCover)
        },
        Stage::ReelBase => if answer {
            Stage::Placeholder
        } else {
            Stage::Refused(Reason::NoReel)
        },
        Stage::Placeholder => Stage::Bake { placeholder: answer },
        Stage::Bake { placeholder } => if placeholder && answer {
            Stage::Ready
        } else {
            Stage::Refused(Reason::ReelFailed)
        },
        Stage::Label => if answer {
            Stage::Disc(DiscStage::Cached)
        } else {
            Stage::Refused(Reason::LabelFailed)
        },
        Stage::Disc(disc) => match disc_after(disc, answer) {
            DiscMove::Next(d) => Stage::Disc(d),
            DiscMove::Found => Stage::Ready,
            DiscMove::Failed(reason) => Stage::Refused(reason),
        },
        Stage::Ready => stage,
        Stage::Refused(_) => stage,
    }
}

/// What is answered to a refused request.
pub open spec fn refusal_of(reason: Reason) -> reply::RefusalView {
    match reason {
        Reason::NoAudio => reply::RefusalView {
            status: Status::BadRequest,
            message: "An audio file is required."@,
        },
        Reason::BadCover => reply::RefusalView {
            status: Status::BadRequest,
            message: "Could not read the cover image (unsupported format?)."@,
        },
        Reason::NoReel => reply::RefusalView {
            status: Status::Internal,
            message:
                "assets/reel_base.png not found — start VinilCut from its project folder."@,
        },
        Reason::ReelFailed => reply::RefusalView {
            status: Status::Internal,
            message: "failed to build the reel."@,
        },
        Reason::LabelFailed => reply::RefusalView {
            status: Status::Internal,
            message: "failed to build label"@,
        },
        Reason::NoDisc => reply::RefusalView {
            status: Status::Internal,
            message:
                "assets/disc_base.png not found — start VinilCut from its project folder."@,
        },
        Reason::DiscFailed => reply::RefusalView {
            status: Status::Internal,
            message: "failed to build the colored disc from assets/disc_base.png."@,
        },
    }
}

/// What is answered to a refused request.
pub fn refusal(reason: Reason) -> (r: Refusal)
    ensures
        r@ == refusal_of(reason),
{
    match reason {
        Reason::NoAudio => reply::bad("An audio file is required."),
        Reason::BadCover => reply::bad("Could not read the cover image (unsupported format?)."),
        Reason::NoReel => reply::ise(
            "assets/reel_base.png not found — start VinilCut from its project folder.",
        ),
        Reason::ReelFailed => reply::ise("failed to build the reel."),
        Reason::LabelFailed => reply::ise("failed to build label"),
        Reason::NoDisc => reply::ise(
            "assets/disc_base.png not found — start VinilCut from its project folder.",
        ),
        Reason::DiscFailed => reply::ise(
            "failed to build the colored disc from assets/disc_base.png.",
        ),
    }
}

/// What there is to do at a stage.
#[derive(Debug)]
pub enum Action {
    /// Run the encoder with these arguments. Did it succeed?
    Run(Vec<String>),
    /// Look for this file. Is it there?
    Look(String),
    /// Start the encoder on the video, with these arguments.
    Encode(Vec<String>),
    /// Clear the directory of the job and turn the request down.
    Refuse(Refusal),
}

/// What there is to do at a stage, as texts.
pub enum ActionView {
    Run(Seq<Seq<char>>),
    Look(Seq<char>),
    Encode(Seq<Seq<char>>),
    Refuse(reply::RefusalView),
}

impl View for Action {
    type V = ActionView;

    open spec fn view(&self) -> ActionView {
        match self {
            Action::Run(args) => ActionView::Run(text::texts(args@)),
            Action::Look(path) => ActionView::Look(path@),
            Action::Encode(args) => ActionView::Encode(text::texts(args@)),
            Action::Refuse(refusal) => ActionView::Refuse(refusal@),
        }
    }
}

/// A render: what it is asked to be, its files, the file of its disc, and where
/// the glyphs of its caption sit if they sit along a ring.
#[derive(Debug)]
pub struct Render {
    pub request: Request,
    pub paths: Paths,
    pub disc: String,
    pub corners: Vec<Corner>,
    pub stage: Stage,
}

/// A render by its parts.
pub struct RenderView {
    pub request: form::RequestView,
    pub paths: PathsView,
    pub disc: Seq<char>,
    pub corners: Seq<Corner>,
    pub stage: Stage,
}

impl View for Render {
    type V = RenderView;

    open spec fn view(&self) -> RenderView {
        RenderView {
            request: self.request@,
            paths: self.paths@,
            disc: self.disc@,
            corners: self.corners@,
            stage: self.stage,
        }
    }
}

/// Every character that runs along a ring has its place.
pub open spec fn placed(request: form::RequestView, corners: Seq<Corner>) -> bool {
    form::ring_of(request) is Some ==> corners.len() == request.caption.len()
}

/// A stage that a render of this kind can come to.
pub open spec fn fitting(request: form::RequestView, stage: Stage) -> bool {
    match stage {
        Stage::Cover => request.cover,
        Stage::ReelBase | Stage::Placeholder | Stage::Bake { .. } => request.reel,
        Stage::Label | Stage::Disc(_) => !request.reel,
        Stage::Ready | Stage::Refused(_) => true,
    }
}

/// The command that draws the label of a record.
pub open spec fn label_command(r: RenderView) -> Seq<Seq<char>> {
    if r.request.cover {
        command::cover_label_args_of(r.paths.cover_png, r.request.label, r.paths.label)
    } else {
        command::text_label_args_of(label_graph(r), r.paths.label)
    }
}

/// The graph that draws the caption on the label of a record: in the center if it
/// is short, curved if it is not.
pub open spec fn label_graph(r: RenderView) -> Seq<char> {
    let (cr, cg, cb) = r.request.label;
    if r.request.caption.len() <= form::SHORT_CAPTION {
        graph::label_center_graph_of(r.request.caption, cr, cg, cb)
    } else {
        graph::label_graph_of(r.request.caption, cr, cg, cb, r.corners)
    }
}

/// The graph that bakes the caption onto the reel: on the rib if it is short,
/// along the rim if it is not.
pub open spec fn reel_graph(r: RenderView) -> Seq<char> {
    if r.request.caption.len() <= form::SHORT_CAPTION {
        graph::rib_graph_of(r.request.caption)
    } else {
        graph::rim_graph_of(r.request.caption, r.corners)
    }
}

/// The picture that spins: the reel with its caption, or the tinted record.
pub open spec fn spinning(r: RenderView) -> Seq<char> {
    if r.request.reel {
        r.paths.reel_text
    } else {
        r.disc
    }
}

/// The command that encodes the video.
pub open spec fn encode_command(r: RenderView) -> Seq<Seq<char>> {
    command::encode_args_of(
        r.paths.label,
        spinning(r),
        r.paths.audio,
        if r.request.cover {
            Some(r.paths.cover_png)
        } else {
            None
        },
        r.request.note,
        r.paths.out,
    )
}

/// What there is to do at the stage that a render is at.
pub open spec fn action_of(r: RenderView) -> ActionView {
    match r.stage {
        Stage::Cover => ActionView::Run(command::cover_args_of(r.paths.cover, r.paths.cover_png)),
        Stage::ReelBase => ActionView::Look("assets/reel_base.png"@),
        Stage::Placeholder => ActionView::Run(command::placeholder_args_of(r.paths.label)),
        Stage::Bake { .. } => ActionView::Run(
            command::bake_args_of(reel_graph(r), r.paths.reel_text),
        ),
        Stage::Label => ActionView::Run(label_command(r)),
        Stage::Disc(disc) => match disc {
            DiscStage::Cached => ActionView::Look(r.disc),
            DiscStage::Base => ActionView::Look("assets/disc_base.png"@),
            DiscStage::Tint => ActionView::Run(command::tint_args_of(r.request.disc, r.disc)),
            DiscStage::Check => ActionView::Look(r.disc),
        },
        Stage::Ready => ActionView::Encode(encode_command(r)),
        Stage::Refused(reason) => ActionView::Refuse(refusal_of(reason)),
    }
}

fn spinner(reel: bool) -> (r: Stage)
    ensures
        r == if reel {
            Stage::ReelBase
        } else {
            Stage::Label
        },
{
    if reel {
        Stage::ReelBase
    } else {
        Stage::Label
    }
}

impl Render {
    /// The render is complete enough to be walked.
    pub open spec fn wf(&self) -> bool {
        placed(self.request@, self.corners@) && fitting(self.request@, self.stage)
    }

    /// Sets a render up at its first stage. `sep` separates the parts of a path.
    pub fn new(request: Request, paths: Paths, sep: char, corners: Vec<Corner>) -> (r: Render)
        requires
            placed(request@, corners@),
        ensures
            r.wf(),
            r@ == (RenderView {
                request: request@,
                paths: paths@,
                disc: color::disc_path_of(request@.disc, sep),
                corners: corners@,
                stage: first_stage(request@),
            }),
    {
        let disc = color::disc_path(request.disc, sep);
        let stage = if !request.audio {
            Stage::Refused(Reason::NoAudio)
        } else if request.cover {
            Stage::Cover
        } else {
            spinner(request.reel)
        };
        Render { request, paths, disc, corners, stage }
    }

    /// Takes the answer to what there was to do, and moves on.
    pub fn answer(&mut self, answer: bool)
        requires
            old(self).wf(),
        ensures
            final(self).wf(),
            final(self)@ == (RenderView {
                stage: stage_after(old(self)@.request, old(self)@.stage, answer),
                ..old(self)@
            }),
    {
        let stage = self.stage;
        self.stage = match stage {
            Stage::Cover => if answer {
                spinner(self.request.reel)
            } else {
                Stage::Refused(Reason::BadCover)
            },
            Stage::ReelBase => if answer {
                Stage::Placeholder
            } else {
                Stage::Refused(Reason::NoReel)
            },
            Stage::Placeholder => Stage::Bake { placeholder: answer },
            Stage::Bake { placeholder } => if placeholder && answer {
                Stage::Ready
            } else {
                Stage::Refused(Reason::ReelFailed)
            },
            Stage::Label => if answer {
                Stage::Disc(DiscStage::Cached)
            } else {
                Stage::Refused(Reason::LabelFailed)
            },
            Stage::Disc(disc) => match ensure_disc(disc, answer) {
                DiscMove::Next(d) => Stage::Disc(d),
                DiscMove::Found => Stage::Ready,
                DiscMove::Failed(reason) => Stage::Refused(reason),
            },
            Stage::Ready => stage,
            Stage::Refused(_) => stage,
        };
    }

    fn label_args(&self) -> (r: Vec<String>)
        requires
            self.wf(),
            !self.request.reel,
        ensures
            text::texts(r@) == label_command(self@),
    {
        if self.request.cover {
            command::cover_label_args(
                self.paths.cover_png.as_str(),
                self.request.label,
                self.paths.label.as_str(),
            )
        } else {
            let caption = self.request.caption.as_str();
            let (cr, cg, cb) = self.request.label;
            let graph = if text::chars_of(caption).len() <= form::SHORT_CAPTION {
                graph::label_center_text_graph(caption, cr, cg, cb)
            } else {
                graph::default_label_graph(caption, cr, cg, cb, &self.corners)
            };
            command::text_label_args(graph.as_str(), self.paths.label.as_str())
        }
    }

    fn bake_args(&self) -> (r: Vec<String>)
        requires
            self.wf(),
            self.request.reel,
        ensures
            text::texts(r@) == command::bake_args_of(reel_graph(self@), self@.paths.reel_text),
    {
        let caption = self.request.caption.as_str();
        let graph = if text::chars_of(caption).len() <= form::SHORT_CAPTION {
            graph::reel_center_text_graph(caption)
        } else {
            graph::reel_text_graph(caption, &self.corners)
        };
        command::bake_args(graph.as_str(), self.paths.reel_text.as_str())
    }

    fn encode_args(&self) -> (r: Vec<String>)
        ensures
            text::texts(r@) == encode_command(self@),
    {
        let layers = Layers {
            label: self.paths.label.clone(),
            disc: if self.request.reel {
                self.paths.reel_text.clone()
            } else {
                self.disc.clone()
            },
            audio: self.paths.audio.clone(),
            cover: if self.request.cover {
                Some(self.paths.cover_png.clone())
            } else {
                None
            },
        };
        command::encode_args(&layers, self.request.note, self.paths.out.as_str())
    }

    /// What there is to do at the stage that the render is at.
    pub fn action(&self) -> (r: Action)
        requires
            self.wf(),
        ensures
            r@ == action_of(self@),
    {
        match self.stage {
            Stage::Cover => Action::Run(
                command::cover_args(self.paths.cover.as_str(), self.paths.cover_png.as_str()),
            ),
            Stage::ReelBase => Action::Look("assets/reel_base.png".to_owned()),
            Stage::Placeholder => Action::Run(
                command::placeholder_args(self.paths.label.as_str()),
            ),
            Stage::Bake { .. } => Action::Run(self.bake_args()),
            Stage::Label => Action::Run(self.label_args()),
            Stage::Disc(disc) => match disc {
                DiscStage::Cached => Action::Look(self.disc.clone()),
                DiscStage::Base => Action::Look("assets/disc_base.png".to_owned()),
                DiscStage::Tint => Action::Run(
                    command::tint_args(self.request.disc, self.disc.as_str()),
                ),
                DiscStage::Check => Action::Look(self.disc.clone()),
            },
            Stage::Ready => Action::Encode(self.encode_args()),
            Stage::Refused(reason) => Action::Refuse(refusal(reason)),
        }
    }
}

/// The text of the duration that the prober wrote, without the white space around
/// it. Output that is not UTF-8 has none.
pub fn duration_text(stdout: &[u8]) -> (r: Option<String>)
    ensures
        match r {
            Some(t) => {
                &&& vstd::utf8::valid_utf8(stdout@)
                &&& t@ == text::trim_of(vstd::utf8::decode_utf8(stdout@))
            },
            None => !vstd::utf8::valid_utf8(stdout@),
        },
{
    match text::decode_strict(stdout) {
        Some(written) => Some(text::trim(written.as_str())),
        None => None,
    }
}

/// How long a render is reckoned to last: what was measured, but never less
/// than a tenth of a second, and never what is not a number.
pub open spec fn reckoned_of(measured: Double) -> Double {
    measured.max_of(Double { bits: SHORTEST_SECONDS })
}

/// How long a render is reckoned to last.
pub fn reckoned_seconds(measured: Double) -> (r: Double)
    ensures
        r == reckoned_of(measured),
{
    measured.at_least(Double { bits: SHORTEST_SECONDS })
}

/// The length that progress is counted against: a note is at most a minute
/// long.
pub open spec fn effective_of(note: bool, duration: Double) -> Double {
    if note {
        duration.min_of(Double { bits: NOTE_SECONDS })
    } else {
        duration
    }
}

/// The length that progress is counted against.
pub fn effective_seconds(note: bool, duration: Double) -> (r: Double)
    ensures
        r == effective_of(note, duration),
{
    if note {
        duration.capped(Double { bits: NOTE_SECONDS })
    } else {
        duration
    }
}

/// Whatever was measured, the length that progress is counted against is a
/// number and at least a tenth of a second, and that of a note at most a minute.
pub proof fn law_effective_length(note: bool, measured: Double)
    ensures
        !effective_of(note, reckoned_of(measured)).is_nan(),
        effective_of(note, reckoned_of(measured)).rank() >= (Double {
            bits: SHORTEST_SECONDS,
        }).rank(),
        note ==> effective_of(note, reckoned_of(measured)).le_of(Double { bits: NOTE_SECONDS }),
{
}

/// A duration that could not be had is reckoned as the shortest.
pub proof fn law_unread_duration_is_shortest()
    ensures
        reckoned_of(double::seconds_or_zero_of(None)) == (Double { bits: SHORTEST_SECONDS }),
{
}

/// How many answers a render can still take before it has ended, at most.
pub open spec fn answers_left(stage: Stage) -> nat {
    match stage {
        Stage::Cover => 6,
        Stage::Label => 5,
        Stage::Disc(DiscStage::Cached) => 4,
        Stage::Disc(DiscStage::Base) => 3,
        Stage::Disc(DiscStage::Tint) => 2,
        Stage::Disc(DiscStage::Check) => 1,
        Stage::ReelBase => 3,
        Stage::Placeholder => 2,
        Stage::Bake { .. } => 1,
        Stage::Ready | Stage::Refused(_) => 0,
    }
}

/// Every answer brings a render closer to its end, whatever the answer is; so
/// each render ends after at most six.
pub proof fn law_render_ends(request: form::RequestView, stage: Stage, answer: bool)
    ensures
        answers_left(stage) <= 6,
        answers_left(stage) > 0 ==> answers_left(stage_after(request, stage, answer))
            < answers_left(stage),
        answers_left(stage) == 0 ==> stage is Ready || stage is Refused,
{
}

/// The end of a render from a stage on, when each stage is answered by `says`.
pub open spec fn end_of(
    request: form::RequestView,
    stage: Stage,
    says: spec_fn(Stage) -> bool,
) -> Stage
    decreases answers_left(stage),
{
    if answers_left(stage) == 0 {
        stage
    } else {
        end_of(request, stage_after(request, stage, says(stage)), says)
    }
}

/// A video is encoded if and only if there is audio, the cover, where one is
/// used, can be read, and what spins can be made: a reel needs its picture, its
/// empty label and its caption; a record needs its label and its disc, found or
/// tinted from the gray one.
pub proof fn law_render_outcome(request: form::RequestView, says: spec_fn(Stage) -> bool)
    ensures
        end_of(request, first_stage(request), says) is Ready <==> {
            &&& request.audio
            &&& request.cover ==> says(Stage::Cover)
            &&& if request.reel {
                &&& says(Stage::ReelBase)
                &&& says(Stage::Placeholder)
                &&& says(Stage::Bake { placeholder: true })
            } else {
                &&& says(Stage::Label)
                &&& says(Stage::Disc(DiscStage::Cached)) || {
                    &&& says(Stage::Disc(DiscStage::Base))
                    &&& says(Stage::Disc(DiscStage::Tint))
                    &&& says(Stage::Disc(DiscStage::Check))
                }
            }
        },
        end_of(request, first_stage(request), says) is Ready || end_of(
            request,
            first_stage(request),
            says,
        ) is Refused,
        !request.audio ==> end_of(request, first_stage(request), says) == Stage::Refused(
            Reason::NoAudio,
        ),
{
    reveal_with_fuel(end_of, 7);
}

/// The encoder reads the label, what spins, the audio, the cover if it is used,
/// and the shine.
pub proof fn law_render_layers(r: RenderView)
    ensures
        command::inputs_of(encode_command(r)) == if r.request.cover {
            seq![
                r.paths.label,
                spinning(r),
                r.paths.audio,
                r.paths.cover_png,
                "assets/shine.png"@,
            ]
        } else {
            seq![r.paths.label, spinning(r), r.paths.audio, "assets/shine.png"@]
        },
{
    command::law_inputs_in_order(
        r.paths.label,
        spinning(r),
        r.paths.audio,
        if r.request.cover {
            Some(r.paths.cover_png)
        } else {
            None
        },
        r.request.note,
        r.paths.out,
    );
}

/// Jobs that were taken on at different times work in different directories.
pub proof fn law_jobs_do_not_share(a: u128, b: u128, sep: char)
    requires
        dir_of(number::decimal(a as nat), sep) == dir_of(number::decimal(b as nat), sep),
    ensures
        a == b,
{
    let head = "work"@.push(sep) + "r-"@;
    let n = head.len() as int;
    let x = dir_of(number::decimal(a as nat), sep);
    assert(x.skip(n) =~= number::decimal(a as nat));
    assert(x.skip(n) =~= number::decimal(b as nat));
    number::law_decimal_is_unique(a as nat, b as nat);
}

/// A duration that was measured as a number and is at least a tenth of a second is
/// reckoned as it is; anything else as a tenth of a second.
pub proof fn law_duration_is_kept(measured: Double)
    ensures
        ({
            let tenth = Double { bits: 0x3fb9_9999_9999_999a };
            &&& !measured.is_nan() && measured.rank() >= tenth.rank() ==> reckoned_of(measured)
                == measured
            &&& measured.is_nan() || measured.rank() < tenth.rank() ==> reckoned_of(measured)
                == tenth
        }),
{
}

/// Progress of a full video is counted against all of its length; that of a note
/// too, as long as it lasts no more than a minute, and else against a minute.
pub proof fn law_full_length_counts(note: bool, measured: Double)
    requires
        !measured.is_nan(),
        measured.rank() >= (Double { bits: 0x3fb9_9999_9999_999a }).rank(),
    ensures
        ({
            let minute = Double { bits: 0x404e_0000_0000_0000 };
            &&& !note ==> effective_of(note, reckoned_of(measured)) == measured
            &&& note && measured.rank() <= minute.rank() ==> effective_of(
                note,
                reckoned_of(measured),
            ) == measured
            &&& note && measured.rank() > minute.rank() ==> effective_of(
                note,
                reckoned_of(measured),
            ) == minute
        }),
{
}

/// A render that is refused is refused for the first step that failed.
pub proof fn law_first_failure_decides(request: form::RequestView, says: spec_fn(Stage) -> bool)
    requires
        request.audio,
    ensures
        ({
            let end = end_of(request, first_stage(request), says);
            let readable = request.cover ==> says(Stage::Cover);
            &&& !readable ==> end == Stage::Refused(Reason::BadCover)
            &&& readable && request.reel && !says(Stage::ReelBase) ==> end == Stage::Refused(
                Reason::NoReel,
            )
            &&& readable && request.reel && says(Stage::ReelBase) && !says(Stage::Placeholder)
                ==> end == Stage::Refused(Reason::ReelFailed)
            &&& readable && request.reel && says(Stage::ReelBase) && says(Stage::Placeholder)
                && !says(Stage::Bake { placeholder: true }) ==> end == Stage::Refused(
                Reason::ReelFailed,
            )
            &&& readable && !request.reel && !says(Stage::Label) ==> end == Stage::Refused(
                Reason::LabelFailed,
            )
            &&& readable && !request.reel && says(Stage::Label) && !says(
                Stage::Disc(DiscStage::Cached),
            ) && !says(Stage::Disc(DiscStage::Base)) ==> end == Stage::Refused(Reason::NoDisc)
            &&& readable && !request.reel && says(Stage::Label) && !says(
                Stage::Disc(DiscStage::Cached),
            ) && says(Stage::Disc(DiscStage::Base)) && !(says(Stage::Disc(DiscStage::Tint))
                && says(Stage::Disc(DiscStage::Check))) ==> end == Stage::Refused(
                Reason::DiscFailed,
            )
        }),
{
    reveal_with_fuel(end_of, 7);
}

/// Who is to blame for a refusal: the request for missing audio and for a cover that
/// cannot be read, the server for anything else.
pub proof fn law_blame(reason: Reason)
    ensures
        refusal_of(reason).status == (if reason is NoAudio || reason is BadCover {
            Status::BadRequest
        } else {
            Status::Internal
        }),
        reply::code_of(Status::Accepted) == 202,
        reply::code_of(Status::BadRequest) == 400,
        reply::code_of(Status::NotFound) == 404,
        reply::code_of(Status::Internal) == 500,
{
}

/// What a refusal says.
pub proof fn law_refusals_say_why()
    ensures
        refusal_of(Reason::NoAudio).message == "An audio file is required."@,
        refusal_of(Reason::BadCover).message
            == "Could not read the cover image (unsupported format?)."@,
        refusal_of(Reason::NoReel).message
            == "assets/reel_base.png not found — start VinilCut from its project folder."@,
        refusal_of(Reason::ReelFailed).message == "failed to build the reel."@,
        refusal_of(Reason::LabelFailed).message == "failed to build label"@,
        refusal_of(Reason::NoDisc).message
            == "assets/disc_base.png not found — start VinilCut from its project folder."@,
        refusal_of(Reason::DiscFailed).message
            == "failed to build the colored disc from assets/disc_base.png."@,
{
}

/// The files of a job lie in its directory, each under a name of its own.
pub proof fn law_files_of_a_job(id: Seq<char>, sep: char)
    ensures
        ({
            let p = paths_of(id, sep);
            &&& p.dir == "work"@ + seq![sep] + "r-"@ + id
            &&& p.cover == p.dir + seq![sep] + "cover_input"@
            &&& p.cover_png == p.dir + seq![sep] + "cover.png"@
            &&& p.audio == p.dir + seq![sep] + "audio_input"@
            &&& p.label == p.dir + seq![sep] + "label.png"@
            &&& p.out == p.dir + seq![sep] + "out.mp4"@
            &&& p.reel_text == p.dir + seq![sep] + "reel_text.png"@
        }),
{
    let p = paths_of(id, sep);
    assert(p.dir =~= "work"@ + seq![sep] + "r-"@ + id);
    assert(p.cover =~= p.dir + seq![sep] + "cover_input"@);
    assert(p.cover_png =~= p.dir + seq![sep] + "cover.png"@);
    assert(p.audio =~= p.dir + seq![sep] + "audio_input"@);
    assert(p.label =~= p.dir + seq![sep] + "label.png"@);
    assert(p.out =~= p.dir + seq![sep] + "out.mp4"@);
    assert(p.reel_text =~= p.dir + seq![sep] + "reel_text.png"@);
}

/// Whatever there is to do for a render comes out as the laws have it.
pub proof fn law_action_comes_out(render: Render, r: Action)
    requires
        render.wf(),
        call_ensures(Render::action, (&render,), r),
    ensures
        r@ == action_of(render@),
{
}

/// A render is set up with what was asked for, with the files of its job, and with the
/// disc of its color, at its first step: the audio is asked for first, then the cover.
pub proof fn law_render_is_set_up(
    request: Request,
    paths: Paths,
    sep: char,
    corners: Vec<Corner>,
    r: Render,
)
    requires
        placed(request@, corners@),
        call_ensures(Render::new, (request, paths, sep, corners), r),
    ensures
        r@.request == request@,
        r@.paths == paths@,
        r@.corners == corners@,
        r@.disc == color::disc_path_of(request@.disc, sep),
        !request@.audio ==> r@.stage == Stage::Refused(Reason::NoAudio),
        request@.audio && request@.cover ==> r@.stage is Cover,
        request@.audio && !request@.cover && request@.reel ==> r@.stage is ReelBase,
        request@.audio && !request@.cover && !request@.reel ==> r@.stage is Label,
{
}

/// Whatever was measured, the length that comes out is the measured one where it counts:
/// at least a tenth of a second, and for a note at most a minute.
pub proof fn law_lengths_come_out(
    measured: Double,
    reckoned: Double,
    note: bool,
    whole: Double,
)
    requires
        call_ensures(reckoned_seconds, (measured,), reckoned),
        call_ensures(effective_seconds, (note, reckoned), whole),
    ensures
        ({
            let tenth = Double { bits: 0x3fb9_9999_9999_999a };
            let minute = Double { bits: 0x404e_0000_0000_0000 };
            let counts = !measured.is_nan() && measured.rank() >= tenth.rank();
            &&& counts ==> reckoned == measured
            &&& !counts ==> reckoned == tenth
            &&& !note ==> whole == reckoned
            &&& note && reckoned.rank() <= minute.rank() ==> whole == reckoned
            &&& note && reckoned.rank() > minute.rank() ==> whole == minute
        }),
{
}

/// A job is named by the reading of the clock in decimal, and its files lie under that
/// name.
pub proof fn law_job_is_named_by_the_clock(ns: u128, id: String, s: &str, sep: char, paths: Paths)
    requires
        call_ensures(job_id, (ns,), id),
        s@ == id@,
        call_ensures(job_paths, (s, sep), paths),
    ensures
        number::denoted(id@) == ns,
        paths@.dir == "work"@ + seq![sep] + "r-"@ + id@,
        paths@ == paths_of(id@, sep),
{
    number::law_decimal_denotes(ns as nat);
    law_files_of_a_job(id@, sep);
}

/// The text of a duration is what the prober wrote without the white space around it,
/// and there is one exactly if it wrote text at all.
pub proof fn law_duration_text_comes_out(stdout: &[u8], r: Option<String>)
    requires
        call_ensures(duration_text, (stdout,), r),
    ensures
        r is Some <==> vstd::utf8::valid_utf8(stdout@),
        r is Some ==> r->0@ == text::trim_of(vstd::utf8::decode_utf8(stdout@)),
{
}

/// Whatever a render is answered moves it to the next stage and changes nothing else.
pub proof fn law_answer_moves_the_stage(r: &mut Render, answer: bool)
    requires
        old(r).wf(),
        call_ensures(Render::answer, (r, answer), ()),
    ensures
        final(r)@.stage == stage_after(old(r)@.request, old(r)@.stage, answer),
        final(r)@.request == old(r)@.request,
        final(r)@.paths == old(r)@.paths,
        final(r)@.disc == old(r)@.disc,
        final(r)@.corners == old(r)@.corners,
{
}

/// Where each answer leads: on to the next step if the step went well, and to the
/// refusal of that step if it did not. A disc that is there is taken as it is.
pub proof fn law_where_answers_lead(request: form::RequestView)
    ensures
        stage_after(request, Stage::Cover, true) == (if request.reel {
            Stage::ReelBase
        } else {
            Stage::Label
        }),
        stage_after(request, Stage::Cover, false) == Stage::Refused(Reason::BadCover),
        stage_after(request, Stage::ReelBase, true) == Stage::Placeholder,
        stage_after(request, Stage::ReelBase, false) == Stage::Refused(Reason::NoReel),
        stage_after(request, Stage::Placeholder, true) == (Stage::Bake { placeholder: true }),
        stage_after(request, Stage::Placeholder, false) == (Stage::Bake { placeholder: false }),
        stage_after(request, Stage::Bake { placeholder: true }, true) == Stage::Ready,
        stage_after(request, Stage::Bake { placeholder: true }, false) == Stage::Refused(
            Reason::ReelFailed,
        ),
        stage_after(request, Stage::Bake { placeholder: false }, true) == Stage::Refused(
            Reason::ReelFailed,
        ),
        stage_after(request, Stage::Bake { placeholder: false }, false) == Stage::Refused(
            Reason::ReelFailed,
        ),
        stage_after(request, Stage::Label, true) == Stage::Disc(DiscStage::Cached),
        stage_after(request, Stage::Label, false) == Stage::Refused(Reason::LabelFailed),
        stage_after(request, Stage::Disc(DiscStage::Cached), true) == Stage::Ready,
        stage_after(request, Stage::Disc(DiscStage::Cached), false) == Stage::Disc(
            DiscStage::Base,
        ),
        stage_after(request, Stage::Disc(DiscStage::Base), true) == Stage::Disc(DiscStage::Tint),
        stage_after(request, Stage::Disc(DiscStage::Base), false) == Stage::Refused(
            Reason::NoDisc,
        ),
        stage_after(request, Stage::Disc(DiscStage::Tint), true) == Stage::Disc(DiscStage::Check),
        stage_after(request, Stage::Disc(DiscStage::Tint), false) == Stage::Refused(
            Reason::DiscFailed,
        ),
        stage_after(request, Stage::Disc(DiscStage::Check), true) == Stage::Ready,
        stage_after(request, Stage::Disc(DiscStage::Check), false) == Stage::Refused(
            Reason::DiscFailed,
        ),
{
}

/// Whatever is made of a stage of the disc and of a reason comes out as the laws have
/// it.
pub proof fn law_disc_moves_come_out(
    stage: DiscStage,
    answer: bool,
    r: DiscMove,
    reason: Reason,
    told: Refusal,
)
    requires
        call_ensures(ensure_disc, (stage, answer), r),
        call_ensures(refusal, (reason,), told),
    ensures
        r == disc_after(stage, answer),
        told@ == refusal_of(reason),
{
}

} // verus!
