//! The delivery pipeline.
//!
//! A delivery takes one payload to every destination of a configuration, in
//! the order the configuration lists them, and ends with one outcome for each.
//! What a destination needs done, a request sent or a file written, is handed
//! out as an action; what came of it is handed back as an event, and settles
//! the outcome of that destination. A destination that fails settles with a
//! failure outcome and the delivery goes on to the next.

use vstd::prelude::*;
use crate::config::{
    Config, ConfigView, FileUploaderView, HttpUploader, HttpUploaderView, Uploader, UploaderView,
};
use crate::filename::{dated, fills, Clock};
use crate::request::{
    build_request, copy_bytes, planned_request, EncodeError, HttpRequest, RequestView,
};
use crate::template::{parse_custom_syntax, resolved};
use crate::text::{decimal, push_decimal, push_str, string_of, text_of};

verus! {

/// The outcome of the delivery to one destination.
#[derive(Clone, Debug, PartialEq, Eq)]
pub struct UploadResult {
    pub uploader_name: String,
    pub url: Option<String>,
    pub thumbnail_url: Option<String>,
    pub deletion_url: Option<String>,
    pub error_message: Option<String>,
    pub file_path: Option<String>,
}

/// The mathematical content of an outcome.
pub struct Outcome {
    pub uploader_name: Seq<char>,
    pub url: Option<Seq<char>>,
    pub thumbnail_url: Option<Seq<char>>,
    pub deletion_url: Option<Seq<char>>,
    pub error_message: Option<Seq<char>>,
    pub file_path: Option<Seq<char>>,
}

impl View for UploadResult {
    type V = Outcome;

    open spec fn view(&self) -> Outcome {
        Outcome {
            uploader_name: self.uploader_name@,
            url: self.url.deep_view(),
            thumbnail_url: self.thumbnail_url.deep_view(),
            deletion_url: self.deletion_url.deep_view(),
            error_message: self.error_message.deep_view(),
            file_path: self.file_path.deep_view(),
        }
    }
}

impl DeepView for UploadResult {
    type V = Outcome;

    open spec fn deep_view(&self) -> Outcome {
        self@
    }
}

impl Outcome {
    /// The delivery reached its destination.
    pub open spec fn succeeded(self) -> bool {
        self.error_message is None
    }

    /// The outcome holds an address: of the capture, of its thumbnail or of
    /// its deletion.
    pub open spec fn has_address(self) -> bool {
        self.url is Some || self.thumbnail_url is Some || self.deletion_url is Some
    }

    /// The outcome is one of the destination given: it bears the
    /// destination's name; a file path stands only with a file destination and
    /// an address only with a network one, never both; and a failure holds
    /// neither.
    pub open spec fn fits(self, profile: UploaderView) -> bool {
        &&& self.uploader_name == profile_name(profile)
        &&& self.file_path is Some ==> profile is File && !self.has_address()
        &&& self.has_address() ==> profile is HTTP
        &&& self.error_message is Some ==> self.file_path is None && !self.has_address()
    }
}

impl UploadResult {
    /// Whether the delivery reached its destination.
    pub fn is_success(&self) -> (success: bool)
        ensures
            success == self@.succeeded(),
    {
        self.error_message.is_none()
    }
}

/// The outcome of a delivery that failed.
pub open spec fn failed(name: Seq<char>, message: Seq<char>) -> Outcome {
    Outcome {
        uploader_name: name,
        url: None,
        thumbnail_url: None,
        deletion_url: None,
        error_message: Some(message),
        file_path: None,
    }
}

/// The outcome of a file written at `path`.
pub open spec fn stored(name: Seq<char>, path: Seq<char>) -> Outcome {
    Outcome {
        uploader_name: name,
        url: None,
        thumbnail_url: None,
        deletion_url: None,
        error_message: None,
        file_path: Some(path),
    }
}

/// A template that may be missing, rendered against a body: a missing one
/// renders as the empty text.
pub open spec fn resolved_optional(template: Option<Seq<char>>, body: Seq<char>) -> Seq<char> {
    match template {
        Some(t) => resolved(t, body),
        None => Seq::empty(),
    }
}

/// A status in the range that stands for success.
pub open spec fn is_success_status(status: u16) -> bool {
    200 <= status < 300
}

/// What is reported of a reply that does not stand for success: its status and
/// its body.
pub open spec fn refusal_text(status: u16, body: Seq<char>) -> Seq<char> {
    decimal(status as nat) + seq![':', ' '] + body
}

/// The outcome that a reply settles. A reply in the success range gives the
/// three addresses that the destination's templates find in its body; any
/// other reply gives a failure that carries the status and the body.
pub open spec fn response_outcome(u: HttpUploaderView, status: u16, body: Seq<char>) -> Outcome {
    if is_success_status(status) {
        Outcome {
            uploader_name: u.name,
            url: Some(resolved(u.url, body)),
            thumbnail_url: Some(resolved_optional(u.thumbnail_url, body)),
            deletion_url: Some(resolved_optional(u.deletion_url, body)),
            error_message: None,
            file_path: None,
        }
    } else {
        failed(u.name, refusal_text(status, body))
    }
}

/// Where a file destination puts the file of a given name:
/// `<directory>/<name>.<extension>`.
pub open spec fn file_target(directory: Seq<char>, name: Seq<char>, extension: Seq<char>) -> Seq<
    char,
> {
    directory + seq!['/'] + name + seq!['.'] + extension
}

/// What is reported where the payload does not fit the layout of the body.
pub open spec fn encode_error_text(e: EncodeError) -> Seq<char> {
    match e {
        EncodeError::NotUrlEncoded => "the payload is not a url-encoded form"@,
        EncodeError::NotUtf8 => "the payload is not UTF-8 text"@,
    }
}

/// What is reported where an event does not answer the action that was handed
/// out.
pub open spec fn mismatch_text() -> Seq<char> {
    "the event does not answer the action"@
}

impl EncodeError {
    /// The error in words.
    pub fn message(&self) -> (text: String)
        ensures
            text@ == encode_error_text(*self),
    {
        match self {
            EncodeError::NotUrlEncoded => text_of("the payload is not a url-encoded form"),
            EncodeError::NotUtf8 => text_of("the payload is not UTF-8 text"),
        }
    }
}

/// What a destination needs done.
#[derive(Clone, Debug, PartialEq, Eq)]
pub enum Action {
    /// Send the request and hand back the reply.
    Send(HttpRequest),
    /// Make sure that `directory` exists, with the directories above it, then
    /// write `bytes` to the file at `path`.
    Write { directory: String, path: String, bytes: Vec<u8> },
}

/// What came of an action.
#[derive(Clone, Debug, PartialEq, Eq)]
pub enum Event {
    /// The reply to a request.
    Response { status: u16, body: String },
    /// The file was written.
    Written,
    /// The action could not be carried out; the text says why.
    Failed(String),
}

/// The mathematical content of an action.
pub enum ActionView {
    Send(RequestView),
    Write { directory: Seq<char>, path: Seq<char>, bytes: Seq<u8> },
}

/// The mathematical content of an event.
pub enum EventView {
    Response { status: u16, body: Seq<char> },
    Written,
    Failed(Seq<char>),
}

impl View for Action {
    type V = ActionView;

    open spec fn view(&self) -> ActionView {
        match self {
            Action::Send(request) => ActionView::Send(request@),
            Action::Write { directory, path, bytes } => ActionView::Write {
                directory: directory@,
                path: path@,
                bytes: bytes@,
            },
        }
    }
}

impl View for Event {
    type V = EventView;

    open spec fn view(&self) -> EventView {
        match self {
            Event::Response { status, body } => EventView::Response { status: *status, body: body@ },
            Event::Written => EventView::Written,
            Event::Failed(why) => EventView::Failed(why@),
        }
    }
}

/// What a delivery waits for.
pub enum Wait {
    /// Nothing: no action is out.
    Nothing,
    /// The reply to a request.
    Reply,
    /// The writing of the file at the path given.
    File(Seq<char>),
}

/// The name that a destination is shown under.
pub open spec fn profile_name(profile: UploaderView) -> Seq<char> {
    match profile {
        UploaderView::HTTP(u) => u.name,
        UploaderView::File(u) => u.name,
    }
}

/// The outcome that an event settles for a destination, given what the
/// delivery was waiting for.
pub open spec fn concluded(profile: UploaderView, wait: Wait, event: EventView) -> Outcome {
    match event {
        EventView::Failed(why) => failed(profile_name(profile), why),
        EventView::Response { status, body } => match (profile, wait) {
            (UploaderView::HTTP(u), Wait::Reply) => response_outcome(u, status, body),
            _ => failed(profile_name(profile), mismatch_text()),
        },
        EventView::Written => match (profile, wait) {
            (UploaderView::File(u), Wait::File(path)) => stored(u.name, path),
            _ => failed(profile_name(profile), mismatch_text()),
        },
    }
}

/// The action that a file destination asks for: the directory is the
/// destination's, the bytes are the payload, and the file is named by a
/// rendering of the destination's template at some reading of the clock.
pub open spec fn is_file_action(
    u: FileUploaderView,
    counter: nat,
    data: Seq<u8>,
    extension: Seq<char>,
    action: ActionView,
) -> bool {
    &&& action matches ActionView::Write { directory, path, bytes }
    &&& directory == u.file_path
    &&& bytes == data
    &&& exists|clock: Clock, name: Seq<char>|
        clock.valid() && #[trigger] fills(dated(u.file_name, counter, clock), name) && path
            == file_target(u.file_path, name, extension)
}

fn failure(name: &String, message: String) -> (result: UploadResult)
    ensures
        result@ == failed(name@, message@),
{
    UploadResult {
        uploader_name: name.clone(),
        url: None,
        thumbnail_url: None,
        deletion_url: None,
        error_message: Some(message),
        file_path: None,
    }
}

fn render_optional(template: &Option<String>, body: &str) -> (text: String)
    ensures
        text@ == resolved_optional(template.deep_view(), body@),
{
    match template {
        Some(t) => parse_custom_syntax(t.as_str(), body),
        None => String::new(),
    }
}

/// Settles the outcome of a reply.
pub fn outcome_of_response(u: &HttpUploader, status: u16, body: &str) -> (result: UploadResult)
    ensures
        result@ == response_outcome(u@, status, body@),
{
    if 200 <= status && status < 300 {
        UploadResult {
            uploader_name: u.name.clone(),
            url: Some(parse_custom_syntax(u.url.as_str(), body)),
            thumbnail_url: Some(render_optional(&u.thumbnail_url, body)),
            deletion_url: Some(render_optional(&u.deletion_url, body)),
            error_message: None,
            file_path: None,
        }
    } else {
        let mut text: Vec<char> = Vec::new();
        push_decimal(&mut text, status as u64);
        text.push(':');
        text.push(' ');
        push_str(&mut text, body);
        assert(text@ =~= refusal_text(status, body@));
        failure(&u.name, string_of(&text))
    }
}

/// The path of the file of a given name in a directory.
pub fn file_path_of(directory: &str, name: &str, extension: &str) -> (path: String)
    ensures
        path@ == file_target(directory@, name@, extension@),
{
    let mut out: Vec<char> = Vec::new();
    push_str(&mut out, directory);
    out.push('/');
    push_str(&mut out, name);
    out.push('.');
    push_str(&mut out, extension);
    assert(out@ =~= file_target(directory@, name@, extension@));
    string_of(&out)
}

enum Pending {
    Nothing,
    Reply,
    File(String),
}

/// A step of a delivery.
#[derive(Clone, Debug, PartialEq, Eq)]
pub enum Step {
    /// Carry out the action and hand back what came of it.
    Perform(Action),
    /// A destination was settled without any action; ask again.
    Settled,
    /// An action is out and its event has not come back.
    Waiting,
    /// Every destination is settled.
    Finished,
}

/// The mathematical content of a step.
pub enum StepView {
    Perform(ActionView),
    Settled,
    Waiting,
    Finished,
}

impl View for Step {
    type V = StepView;

    open spec fn view(&self) -> StepView {
        match self {
            Step::Perform(action) => StepView::Perform(action@),
            Step::Settled => StepView::Settled,
            Step::Waiting => StepView::Waiting,
            Step::Finished => StepView::Finished,
        }
    }
}

/// The state of a delivery as far as its results go: the outcomes settled so
/// far, and what it waits for.
pub struct Progress {
    pub outcomes: Seq<Outcome>,
    pub wait: Wait,
}

impl Progress {
    /// A delivery that has settled nothing and waits for nothing.
    pub open spec fn start() -> Progress {
        Progress { outcomes: Seq::empty(), wait: Wait::Nothing }
    }

    /// Every destination of the configuration is settled.
    pub open spec fn finished(self, conf: ConfigView) -> bool {
        self.wait is Nothing && self.outcomes.len() == conf.uploaders.len()
    }

    /// The destination that is served next, or is being served.
    pub open spec fn current(self, conf: ConfigView) -> UploaderView {
        conf.uploaders[self.outcomes.len() as int]
    }

    /// The delivery after an event. While no action is out an event changes
    /// nothing; otherwise it settles the destination that is being served.
    pub open spec fn after(self, conf: ConfigView, event: EventView) -> Progress {
        if self.wait is Nothing {
            self
        } else {
            Progress {
                outcomes: self.outcomes.push(concluded(self.current(conf), self.wait, event)),
                wait: Wait::Nothing,
            }
        }
    }

    /// A step from this state: what is handed out, and the state after it.
    ///
    /// While an action is out, nothing happens. When every destination is
    /// settled, the delivery is finished. Otherwise the step looks at the next
    /// destination. A network destination hands out the request it asks for; if
    /// the payload does not fit the layout of its body it is settled at once as
    /// failed. A file destination hands out the writing of a file named by its
    /// template.
    pub open spec fn steps_to(
        self,
        conf: ConfigView,
        data: Seq<u8>,
        extension: Seq<char>,
        step: StepView,
        after: Progress,
    ) -> bool {
        if !(self.wait is Nothing) {
            step == StepView::Waiting && after == self
        } else if self.finished(conf) {
            step == StepView::Finished && after == self
        } else {
            match self.current(conf) {
                UploaderView::HTTP(u) => match planned_request(u, data) {
                    Ok(request) => {
                        &&& step == StepView::Perform(ActionView::Send(request))
                        &&& after == Progress { outcomes: self.outcomes, wait: Wait::Reply }
                    },
                    Err(e) => {
                        &&& step == StepView::Settled
                        &&& after == Progress {
                            outcomes: self.outcomes.push(failed(u.name, encode_error_text(e))),
                            wait: Wait::Nothing,
                        }
                    },
                },
                UploaderView::File(u) => {
                    &&& step matches StepView::Perform(action)
                    &&& is_file_action(u, conf.last_index, data, extension, action)
                    &&& action matches ActionView::Write { path, .. }
                    &&& after == Progress { outcomes: self.outcomes, wait: Wait::File(path) }
                },
            }
        }
    }

    /// Each outcome settled so far is one of the destination at its place in
    /// the configuration: it bears that destination's name and is of its kind.
    pub open spec fn in_order(self, conf: ConfigView) -> bool {
        &&& self.outcomes.len() <= conf.uploaders.len()
        &&& forall|i: int|
            0 <= i < self.outcomes.len() ==> (#[trigger] self.outcomes[i]).fits(conf.uploaders[i])
    }
}

/// A configuration without destinations: the delivery is finished before it
/// has begun. Its first step hands out no action and settles no outcome, and
/// so does every step after it.
pub proof fn lemma_nothing_to_deliver(
    conf: ConfigView,
    data: Seq<u8>,
    extension: Seq<char>,
    step: StepView,
    after: Progress,
)
    requires
        conf.uploaders.len() == 0,
        Progress::start().steps_to(conf, data, extension, step, after),
    ensures
        step == StepView::Finished,
        after == Progress::start(),
        after.outcomes.len() == 0,
{
}

/// A delivery that is finished holds one outcome for each destination of
/// the configuration, in the configuration's order.
pub proof fn lemma_finished_is_complete(conf: ConfigView, progress: Progress)
    requires
        progress.finished(conf),
        progress.in_order(conf),
    ensures
        progress.outcomes.len() == conf.uploaders.len(),
        forall|i: int|
            0 <= i < conf.uploaders.len() ==> (#[trigger] progress.outcomes[i]).fits(
                conf.uploaders[i],
            ),
{
}

/// Whatever event settles a destination, the outcome is one of that
/// destination: it bears its name, holds a file path only for a file
/// destination and addresses only for a network one, and neither where it
/// failed.
pub proof fn lemma_outcome_fits(profile: UploaderView, wait: Wait, event: EventView)
    ensures
        concluded(profile, wait, event).fits(profile),
{
}

/// A reply outside the success range settles its destination as failed, with
/// the status and the body in the message, and stops nothing: the delivery
/// waits for nothing afterwards, and is not finished while destinations are
/// left.
pub proof fn lemma_refusal_does_not_stop(
    conf: ConfigView,
    progress: Progress,
    u: HttpUploaderView,
    status: u16,
    body: Seq<char>,
)
    requires
        progress.wait is Reply,
        progress.outcomes.len() < conf.uploaders.len(),
        progress.current(conf) == UploaderView::HTTP(u),
        !is_success_status(status),
    ensures
        ({
            let next = progress.after(conf, EventView::Response { status, body });
            &&& next.outcomes == progress.outcomes.push(
                failed(u.name, refusal_text(status, body)),
            )
            &&& !next.outcomes.last().succeeded()
            &&& next.wait is Nothing
            &&& progress.outcomes.len() + 1 < conf.uploaders.len() ==> !next.finished(conf)
                && next.current(conf) == conf.uploaders[progress.outcomes.len() + 1 as int]
        }),
{
}

/// Every event that answers an action settles exactly one destination, failed
/// or not, and leaves the delivery free to go on.
pub proof fn lemma_event_settles_one(conf: ConfigView, progress: Progress, event: EventView)
    requires
        !(progress.wait is Nothing),
    ensures
        progress.after(conf, event).outcomes.len() == progress.outcomes.len() + 1,
        progress.after(conf, event).outcomes.take(progress.outcomes.len() as int)
            == progress.outcomes,
        progress.after(conf, event).wait is Nothing,
{
    assert(progress.after(conf, event).outcomes.take(progress.outcomes.len() as int)
        =~= progress.outcomes);
}

/// The delivery of one payload to the destinations of a configuration.
pub struct Delivery<'a> {
    conf: &'a Config,
    data: &'a [u8],
    format: &'a str,
    results: Vec<UploadResult>,
    pending: Pending,
}

impl<'a> Delivery<'a> {
    #[verifier::type_invariant]
    spec fn inv(self) -> bool {
        &&& match self.pending {
            Pending::Nothing => self.results.len() <= self.conf.uploaders.len(),
            _ => self.results.len() < self.conf.uploaders.len(),
        }
        &&& forall|i: int|
            0 <= i < self.results.len() ==> (#[trigger] self.results@[i])@.fits(
                self.conf.uploaders@[i]@,
            )
    }

    /// The configuration whose destinations are served.
    pub closed spec fn config(self) -> ConfigView {
        self.conf@
    }

    /// The payload.
    pub closed spec fn payload(self) -> Seq<u8> {
        self.data@
    }

    /// The extension of the files that are written.
    pub closed spec fn extension(self) -> Seq<char> {
        self.format@
    }

    /// The outcomes settled so far, and what the delivery waits for.
    pub closed spec fn progress(self) -> Progress {
        Progress {
            outcomes: self.results.deep_view(),
            wait: match self.pending {
                Pending::Nothing => Wait::Nothing,
                Pending::Reply => Wait::Reply,
                Pending::File(path) => Wait::File(path@),
            },
        }
    }

    /// A delivery that has settled nothing yet.
    pub fn new(conf: &'a Config, data: &'a [u8], format: &'a str) -> (delivery: Self)
        ensures
            delivery.config() == conf@,
            delivery.payload() == data@,
            delivery.extension() == format@,
            delivery.progress() == Progress::start(),
    {
        let delivery = Delivery {
            conf,
            data,
            format,
            results: Vec::new(),
            pending: Pending::Nothing,
        };
        assert(delivery.results.deep_view() =~= Seq::empty());
        delivery
    }

    /// Whether an action is out.
    pub fn is_waiting(&self) -> (waiting: bool)
        ensures
            waiting == !(self.progress().wait is Nothing),
    {
        match self.pending {
            Pending::Nothing => false,
            _ => true,
        }
    }

    /// The number of destinations settled so far.
    pub fn settled(&self) -> (count: usize)
        ensures
            count == self.progress().outcomes.len(),
            count <= self.config().uploaders.len(),
    {
        proof {
            use_type_invariant(self);
        }
        self.results.len()
    }

    fn settle(&mut self, result: UploadResult)
        requires
            old(self).results.len() < old(self).conf.uploaders.len(),
            result@.fits(old(self).conf.uploaders@[old(self).results.len() as int]@),
        ensures
            final(self).config() == old(self).config(),
            final(self).payload() == old(self).payload(),
            final(self).extension() == old(self).extension(),
            final(self).progress() == (Progress {
                outcomes: old(self).progress().outcomes.push(result@),
                wait: Wait::Nothing,
            }),
    {
        proof {
            use_type_invariant(&*self);
        }
        let ghost before = self.results@;
        let mut results: Vec<UploadResult> = Vec::new();
        core::mem::swap(&mut self.results, &mut results);
        self.pending = Pending::Nothing;
        results.push(result);
        assert forall|i: int| 0 <= i < results.len() implies (#[trigger] results@[i])@.fits(
            self.conf.uploaders@[i]@,
        ) by {
            if i < before.len() {
                assert(results@[i] == before[i]);
            }
        }
        core::mem::swap(&mut self.results, &mut results);
        assert(self.results.deep_view() =~= before.map_values(|r: UploadResult| r@).push(result@));
        assert(old(self).results.deep_view() =~= before.map_values(|r: UploadResult| r@));
    }

    /// Takes the delivery one step on. The name of a file is rendered now.
    pub fn next_action(&mut self) -> (step: Step)
        ensures
            final(self).config() == old(self).config(),
            final(self).payload() == old(self).payload(),
            final(self).extension() == old(self).extension(),
            old(self).progress().outcomes.len() <= old(self).config().uploaders.len(),
            old(self).progress().steps_to(
                old(self).config(),
                old(self).payload(),
                old(self).extension(),
                step@,
                final(self).progress(),
            ),
    {
        proof {
            use_type_invariant(&*self);
        }
        match self.pending {
            Pending::Nothing => {},
            _ => {
                return Step::Waiting;
            },
        }
        let at: usize = self.results.len();
        if at >= self.conf.uploaders.len() {
            return Step::Finished;
        }
        assert(self.conf@.uploaders[at as int] == self.conf.uploaders@[at as int]@);
        match &self.conf.uploaders[at] {
            Uploader::HTTP(u) => match build_request(u, self.data) {
                Ok(request) => {
                    self.pending = Pending::Reply;
                    Step::Perform(Action::Send(request))
                },
                Err(e) => {
                    let result = failure(&u.name, e.message());
                    self.settle(result);
                    Step::Settled
                },
            },
            Uploader::File(u) => {
                let name = self.conf.make_filename(Some(u.file_name.as_str()));
                let path = file_path_of(u.file_path.as_str(), name.as_str(), self.format);
                proof {
                    let clock = choose|clock: Clock|
                        clock.valid() && #[trigger] fills(
                            dated(u.file_name@, self.conf.last_index as nat, clock),
                            name@,
                        );
                    assert(fills(dated(u@.file_name, self.conf@.last_index, clock), name@));
                }
                let action = Action::Write {
                    directory: u.file_path.clone(),
                    path: path.clone(),
                    bytes: copy_bytes(self.data),
                };
                self.pending = Pending::File(path);
                Step::Perform(action)
            },
        }
    }

    /// Takes in what came of the action that is out, and settles the outcome of
    /// its destination. An event that comes while no action is out is dropped.
    pub fn record(&mut self, event: Event)
        ensures
            final(self).config() == old(self).config(),
            final(self).payload() == old(self).payload(),
            final(self).extension() == old(self).extension(),
            !(old(self).progress().wait is Nothing) ==> old(self).progress().outcomes.len()
                < old(self).config().uploaders.len(),
            final(self).progress() == old(self).progress().after(old(self).config(), event@),
    {
        proof {
            use_type_invariant(&*self);
        }
        let at: usize = self.results.len();
        let result = match &self.pending {
            Pending::Nothing => {
                return ;
            },
            Pending::Reply => {
                assert(self.conf@.uploaders[at as int] == self.conf.uploaders@[at as int]@);
                let profile = &self.conf.uploaders[at];
                match (profile, &event) {
                    (_, Event::Failed(why)) => failure(profile.name(), why.clone()),
                    (Uploader::HTTP(u), Event::Response { status, body }) => outcome_of_response(
                        u,
                        *status,
                        body.as_str(),
                    ),
                    _ => failure(profile.name(), text_of("the event does not answer the action")),
                }
            },
            Pending::File(path) => {
                assert(self.conf@.uploaders[at as int] == self.conf.uploaders@[at as int]@);
                let profile = &self.conf.uploaders[at];
                match (profile, &event) {
                    (_, Event::Failed(why)) => failure(profile.name(), why.clone()),
                    (Uploader::File(u), Event::Written) => UploadResult {
                        uploader_name: u.name.clone(),
                        url: None,
                        thumbnail_url: None,
                        deletion_url: None,
                        error_message: None,
                        file_path: Some(path.clone()),
                    },
                    _ => failure(profile.name(), text_of("the event does not answer the action")),
                }
            },
        };
        self.settle(result);
    }

    /// Ends the delivery and hands out the outcomes settled so far, one for
    /// each destination from the first on, in the configuration's order, each
    /// of the kind of its destination.
    pub fn finish(self) -> (results: Vec<UploadResult>)
        ensures
            results.deep_view() == self.progress().outcomes,
            self.progress().in_order(self.config()),
    {
        proof {
            use_type_invariant(&self);
            assert forall|i: int| 0 <= i < self.progress().outcomes.len() implies (
            #[trigger] self.progress().outcomes[i]).fits(self.config().uploaders[i]) by {
                assert(self.progress().outcomes[i] == self.results@[i]@);
                assert(self.config().uploaders[i] == self.conf.uploaders@[i]@);
            }
        }
        self.results
    }

    /// Whether every destination is settled.
    pub fn is_finished(&self) -> (finished: bool)
        ensures
            finished == self.progress().finished(self.config()),
    {
        proof {
            use_type_invariant(self);
        }
        match self.pending {
            Pending::Nothing => self.results.len() == self.conf.uploaders.len(),
            _ => false,
        }
    }
}

/// Starts the delivery of a capture as it is handed over by the capture
/// side: in the PNG format, so that the files written bear the extension
/// `png`. Nothing is settled yet, and the configuration is left as it is.
pub fn handle_simple_upload<'a>(config: &'a Config, data: &'a [u8]) -> (delivery: Delivery<'a>)
    ensures
        delivery.config() == config@,
        delivery.payload() == data@,
        delivery.extension() == "png"@,
        delivery.progress() == Progress::start(),
{
    Delivery::new(config, data, "png")
}

} // verus!
