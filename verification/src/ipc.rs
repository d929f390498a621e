//! The control plane: what a client can ask of the daemon, and the course of
//! one connection.
//!
//! A connection reads a request, has it served, answers where the request has
//! an answer, and reads the next; it serves one request at a time, in the
//! order they arrive. It ends when the stream ends or when what was read is no
//! request.

use vstd::prelude::*;
use crate::config::{Config, ConfigView};
use crate::screenshot::ScreenshotType;
use crate::text::text_of;
use crate::upload::{Outcome, UploadResult};

verus! {

/// The most that one read takes from the stream. What one read delivers is
/// taken for one request.
pub const FRAME_SIZE: usize = 1024;

/// Replace the configuration.
#[derive(Clone, Debug, PartialEq, Eq)]
pub struct SetConfig {
    pub config: Config,
}

/// Read the configuration.
#[derive(Clone, Copy, Debug, PartialEq, Eq)]
pub struct GetConfig;

/// Deliver the bytes to the destinations of the configuration.
#[derive(Clone, Debug, PartialEq, Eq)]
pub struct Upload {
    pub data: Vec<u8>,
    pub format: String,
}

/// The address of a delivered capture.
#[derive(Clone, Debug, PartialEq, Eq)]
pub struct UploadResponse {
    pub url: String,
}

/// Take a capture.
#[derive(Clone, Copy, Debug, PartialEq, Eq)]
pub struct GetImage;

/// A capture: its bytes and the format they are in.
#[derive(Clone, Debug, PartialEq, Eq)]
pub struct GetImageResponse {
    pub data: Vec<u8>,
    pub format: String,
}

/// The answer to a request that failed.
#[derive(Clone, Debug, PartialEq, Eq)]
pub struct ErrorResponse {
    pub error: String,
}

impl ErrorResponse {
    /// The answer that carries the error given.
    pub fn new(error: String) -> (response: Self)
        ensures
            response.error == error,
    {
        Self { error }
    }
}

/// What a client can ask.
#[derive(Clone, Debug, PartialEq, Eq)]
pub enum Request {
    SetConfig(SetConfig),
    GetConfig(GetConfig),
    Upload(Upload),
    Screenshot(ScreenshotType),
}

/// The four kinds of request.
#[derive(Clone, Copy, Debug, PartialEq, Eq)]
pub enum Kind {
    SetConfig,
    GetConfig,
    Upload,
    Screenshot,
}

/// What is done for a request while the configuration is held.
#[derive(Clone, Debug, PartialEq, Eq)]
pub enum Job {
    /// Put the configuration in the place of the shared one.
    Replace(Config),
    /// Read the shared configuration.
    Read,
    /// Run a delivery of the bytes, with the shared configuration.
    Deliver { data: Vec<u8>, format: String },
    /// Have the capture taken. No delivery follows from it.
    Capture(ScreenshotType),
}

/// What came of a job.
#[derive(Debug, PartialEq, Eq)]
pub enum Served {
    /// The configuration was replaced.
    Replaced,
    /// The configuration that was read.
    Configuration(Config),
    /// The outcomes of the delivery.
    Delivered(Vec<UploadResult>),
    /// The bytes of the capture, or why there is none.
    Captured(Result<Vec<u8>, String>),
}

/// What is written back to the client.
#[derive(Clone, Debug, PartialEq, Eq)]
pub enum Reply {
    Configuration(Config),
    Outcomes(Vec<UploadResult>),
    Image(GetImageResponse),
    Error(ErrorResponse),
}

/// Where a connection stands.
#[derive(Clone, Copy, Debug, PartialEq, Eq)]
pub enum Phase {
    /// It waits for the next request to be read.
    AwaitRequest,
    /// What was read is being decoded.
    Decode,
    /// A request of the kind given is being served.
    Dispatch(Kind),
    /// The answer is being written.
    Respond,
    /// The connection has ended.
    Closed,
}

/// What the connection has to do next.
#[derive(Clone, Debug, PartialEq, Eq)]
pub enum Todo {
    /// Read from the stream, `FRAME_SIZE` bytes at most.
    Read,
    /// Decode the first `len` bytes of what was read as one request.
    Decode(usize),
    /// Enter the shared configuration, do the job, and leave.
    Serve(Job),
    /// Write the answer to the stream.
    Respond(Reply),
    /// End the connection.
    Close,
}

/// The mathematical content of a request.
pub enum RequestView {
    SetConfig(ConfigView),
    GetConfig,
    Upload { data: Seq<u8>, format: Seq<char> },
    Screenshot(ScreenshotType),
}

/// The mathematical content of a job.
pub enum JobView {
    Replace(ConfigView),
    Read,
    Deliver { data: Seq<u8>, format: Seq<char> },
    Capture(ScreenshotType),
}

/// The mathematical content of what came of a job.
pub enum ServedView {
    Replaced,
    Configuration(ConfigView),
    Delivered(Seq<Outcome>),
    Captured(Result<Seq<u8>, Seq<char>>),
}

/// The mathematical content of an answer.
pub enum ReplyView {
    Configuration(ConfigView),
    Outcomes(Seq<Outcome>),
    Image { data: Seq<u8>, format: Seq<char> },
    Error(Seq<char>),
}

/// The mathematical content of what a connection has to do next.
pub enum TodoView {
    Read,
    Decode(usize),
    Serve(JobView),
    Respond(ReplyView),
    Close,
}

impl View for Request {
    type V = RequestView;

    open spec fn view(&self) -> RequestView {
        match self {
            Request::SetConfig(set) => RequestView::SetConfig(set.config@),
            Request::GetConfig(_) => RequestView::GetConfig,
            Request::Upload(upload) => RequestView::Upload {
                data: upload.data@,
                format: upload.format@,
            },
            Request::Screenshot(what) => RequestView::Screenshot(*what),
        }
    }
}

impl DeepView for Request {
    type V = RequestView;

    open spec fn deep_view(&self) -> RequestView {
        self@
    }
}

impl View for Job {
    type V = JobView;

    open spec fn view(&self) -> JobView {
        match self {
            Job::Replace(config) => JobView::Replace(config@),
            Job::Read => JobView::Read,
            Job::Deliver { data, format } => JobView::Deliver { data: data@, format: format@ },
            Job::Capture(what) => JobView::Capture(*what),
        }
    }
}

impl View for Served {
    type V = ServedView;

    open spec fn view(&self) -> ServedView {
        match self {
            Served::Replaced => ServedView::Replaced,
            Served::Configuration(config) => ServedView::Configuration(config@),
            Served::Delivered(outcomes) => ServedView::Delivered(outcomes.deep_view()),
            Served::Captured(captured) => ServedView::Captured(
                match captured {
                    Ok(bytes) => Ok(bytes@),
                    Err(why) => Err(why@),
                },
            ),
        }
    }
}

impl View for Reply {
    type V = ReplyView;

    open spec fn view(&self) -> ReplyView {
        match self {
            Reply::Configuration(config) => ReplyView::Configuration(config@),
            Reply::Outcomes(outcomes) => ReplyView::Outcomes(outcomes.deep_view()),
            Reply::Image(image) => ReplyView::Image { data: image.data@, format: image.format@ },
            Reply::Error(error) => ReplyView::Error(error.error@),
        }
    }
}

impl View for Todo {
    type V = TodoView;

    open spec fn view(&self) -> TodoView {
        match self {
            Todo::Read => TodoView::Read,
            Todo::Decode(len) => TodoView::Decode(*len),
            Todo::Serve(job) => TodoView::Serve(job@),
            Todo::Respond(reply) => TodoView::Respond(reply@),
            Todo::Close => TodoView::Close,
        }
    }
}

/// The kind of a request.
pub open spec fn kind_of(request: RequestView) -> Kind {
    match request {
        RequestView::SetConfig(_) => Kind::SetConfig,
        RequestView::GetConfig => Kind::GetConfig,
        RequestView::Upload { .. } => Kind::Upload,
        RequestView::Screenshot(_) => Kind::Screenshot,
    }
}

/// The job that serves a request.
pub open spec fn job_of(request: RequestView) -> JobView {
    match request {
        RequestView::SetConfig(config) => JobView::Replace(config),
        RequestView::GetConfig => JobView::Read,
        RequestView::Upload { data, format } => JobView::Deliver { data, format },
        RequestView::Screenshot(what) => JobView::Capture(what),
    }
}

/// The answer to what came of a job, for a request of the kind given; none
/// where the request has no answer or what came does not fit it. A capture is
/// answered by the image in the format `png`, and a capture that failed by its
/// error.
pub open spec fn reply_to(kind: Kind, served: ServedView) -> Option<ReplyView> {
    match (kind, served) {
        (Kind::GetConfig, ServedView::Configuration(config)) => Some(
            ReplyView::Configuration(config),
        ),
        (Kind::Upload, ServedView::Delivered(outcomes)) => Some(ReplyView::Outcomes(outcomes)),
        (Kind::Screenshot, ServedView::Captured(Ok(data))) => Some(
            ReplyView::Image { data, format: "png"@ },
        ),
        (Kind::Screenshot, ServedView::Captured(Err(why))) => Some(ReplyView::Error(why)),
        _ => None,
    }
}

/// A connection after a read of `bytes` bytes. Nothing read is the end of the
/// stream and ends the connection. Otherwise what was read is one request, to
/// be decoded. A read that comes while a request is in hand, or that claims
/// more than one frame, ends the connection.
pub open spec fn after_read(phase: Phase, bytes: usize) -> (Phase, TodoView) {
    if phase == Phase::AwaitRequest && 0 < bytes <= FRAME_SIZE {
        (Phase::Decode, TodoView::Decode(bytes))
    } else {
        (Phase::Closed, TodoView::Close)
    }
}

/// A connection after what was read has been decoded: to a request, which is
/// handed on as the job that serves it, or to none where it is malformed,
/// which ends the connection.
pub open spec fn after_decode(phase: Phase, request: Option<RequestView>) -> (Phase, TodoView) {
    match request {
        Some(r) => if phase == Phase::Decode {
            (Phase::Dispatch(kind_of(r)), TodoView::Serve(job_of(r)))
        } else {
            (Phase::Closed, TodoView::Close)
        },
        None => (Phase::Closed, TodoView::Close),
    }
}

/// A connection after a job was done. A replaced configuration has no answer
/// and the next request is read. A configuration read, the outcomes of a
/// delivery and a capture are answered. What does not fit the request in hand
/// ends the connection.
pub open spec fn after_service(phase: Phase, served: ServedView) -> (Phase, TodoView) {
    match phase {
        Phase::Dispatch(kind) => if kind == Kind::SetConfig && served == ServedView::Replaced {
            (Phase::AwaitRequest, TodoView::Read)
        } else {
            match reply_to(kind, served) {
                Some(reply) => (Phase::Respond, TodoView::Respond(reply)),
                None => (Phase::Closed, TodoView::Close),
            }
        },
        _ => (Phase::Closed, TodoView::Close),
    }
}

/// A connection after the answer was written: the next request is read.
pub open spec fn after_response(phase: Phase) -> (Phase, TodoView) {
    if phase == Phase::Respond {
        (Phase::AwaitRequest, TodoView::Read)
    } else {
        (Phase::Closed, TodoView::Close)
    }
}

/// A step of a connection: where it stood, and where it stands and what it
/// has to do after something came.
pub open spec fn is_step(before: Phase, after: (Phase, TodoView)) -> bool {
    ||| exists|bytes: usize| after == after_read(before, bytes)
    ||| exists|request: Option<RequestView>| after == after_decode(before, request)
    ||| exists|served: ServedView| after == after_service(before, served)
    ||| after == after_response(before)
}

/// A connection reads only between requests: after any step it is asked to
/// read exactly where it waits for a request, so a request is served and
/// answered before the next is read. It is asked to close exactly where it has
/// ended.
pub proof fn lemma_reads_between_requests(before: Phase, after: (Phase, TodoView))
    requires
        is_step(before, after),
    ensures
        after.1 == TodoView::Read <==> after.0 == Phase::AwaitRequest,
        after.1 == TodoView::Close <==> after.0 == Phase::Closed,
        after.1 is Decode <==> after.0 == Phase::Decode,
        after.1 is Serve <==> after.0 is Dispatch,
        after.1 is Respond <==> after.0 == Phase::Respond,
{
}

/// A connection that has ended stays ended, whatever comes.
pub proof fn lemma_closed_is_final(after: (Phase, TodoView))
    requires
        is_step(Phase::Closed, after),
    ensures
        after == (Phase::Closed, TodoView::Close),
{
}

/// The end of the stream and a malformed request both end the connection,
/// wherever it stands.
pub proof fn lemma_stream_end_and_malformed_close(phase: Phase)
    ensures
        after_read(phase, 0) == (Phase::Closed, TodoView::Close),
        after_decode(phase, None) == (Phase::Closed, TodoView::Close),
{
}

/// A capture is answered by the image or by the error, and no delivery comes
/// of it: the job of a capture is the capture alone.
pub proof fn lemma_capture_delivers_nothing(what: ScreenshotType)
    ensures
        job_of(RequestView::Screenshot(what)) == JobView::Capture(what),
        !(job_of(RequestView::Screenshot(what)) is Deliver),
{
}

/// The course of one connection.
pub struct Connection {
    phase: Phase,
}

impl View for Connection {
    type V = Phase;

    closed spec fn view(&self) -> Phase {
        self.phase
    }
}

impl Connection {
    /// A connection that waits for its first request.
    pub fn new() -> (connection: Self)
        ensures
            connection@ == Phase::AwaitRequest,
    {
        Connection { phase: Phase::AwaitRequest }
    }

    /// Where the connection stands.
    pub fn phase(&self) -> (phase: Phase)
        ensures
            phase == self@,
    {
        self.phase
    }

    /// Whether the connection has ended.
    pub fn is_closed(&self) -> (closed: bool)
        ensures
            closed == (self@ == Phase::Closed),
    {
        match self.phase {
            Phase::Closed => true,
            _ => false,
        }
    }

    /// A read has delivered `bytes` bytes.
    pub fn on_read(&mut self, bytes: usize) -> (todo: Todo)
        ensures
            (final(self)@, todo@) == after_read(old(self)@, bytes),
    {
        match self.phase {
            Phase::AwaitRequest => {
                if 0 < bytes && bytes <= FRAME_SIZE {
                    self.phase = Phase::Decode;
                    Todo::Decode(bytes)
                } else {
                    self.phase = Phase::Closed;
                    Todo::Close
                }
            },
            _ => {
                self.phase = Phase::Closed;
                Todo::Close
            },
        }
    }

    /// What was read has been decoded: to a request, or to none where it is
    /// malformed.
    pub fn on_decoded(&mut self, request: Option<Request>) -> (todo: Todo)
        ensures
            (final(self)@, todo@) == after_decode(old(self)@, request.deep_view()),
    {
        match (self.phase, request) {
            (Phase::Decode, Some(r)) => {
                let (kind, job) = match r {
                    Request::SetConfig(set) => (Kind::SetConfig, Job::Replace(set.config)),
                    Request::GetConfig(_) => (Kind::GetConfig, Job::Read),
                    Request::Upload(upload) => (
                        Kind::Upload,
                        Job::Deliver { data: upload.data, format: upload.format },
                    ),
                    Request::Screenshot(what) => (Kind::Screenshot, Job::Capture(what)),
                };
                self.phase = Phase::Dispatch(kind);
                Todo::Serve(job)
            },
            _ => {
                self.phase = Phase::Closed;
                Todo::Close
            },
        }
    }

    /// The job is done, and this came of it.
    pub fn on_served(&mut self, served: Served) -> (todo: Todo)
        ensures
            (final(self)@, todo@) == after_service(old(self)@, served@),
    {
        let phase = self.phase;
        match (phase, served) {
            (Phase::Dispatch(Kind::SetConfig), Served::Replaced) => {
                self.phase = Phase::AwaitRequest;
                Todo::Read
            },
            (Phase::Dispatch(Kind::GetConfig), Served::Configuration(config)) => {
                self.phase = Phase::Respond;
                Todo::Respond(Reply::Configuration(config))
            },
            (Phase::Dispatch(Kind::Upload), Served::Delivered(outcomes)) => {
                self.phase = Phase::Respond;
                Todo::Respond(Reply::Outcomes(outcomes))
            },
            (Phase::Dispatch(Kind::Screenshot), Served::Captured(captured)) => {
                self.phase = Phase::Respond;
                match captured {
                    Ok(data) => Todo::Respond(
                        Reply::Image(GetImageResponse { data, format: text_of("png") }),
                    ),
                    Err(why) => Todo::Respond(Reply::Error(ErrorResponse::new(why))),
                }
            },
            _ => {
                self.phase = Phase::Closed;
                Todo::Close
            },
        }
    }

    /// The answer is written.
    pub fn on_responded(&mut self) -> (todo: Todo)
        ensures
            (final(self)@, todo@) == after_response(old(self)@),
    {
        match self.phase {
            Phase::Respond => {
                self.phase = Phase::AwaitRequest;
                Todo::Read
            },
            _ => {
                self.phase = Phase::Closed;
                Todo::Close
            },
        }
    }
}

} // verus!
