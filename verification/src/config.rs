//! The configuration: the destinations a capture is delivered to, and the
//! settings that are handed on to the capture side.

use vstd::prelude::*;
use crate::sharex;
use crate::text::{str_eq, text_of};

verus! {

/// A list of pairs of texts.
pub type Pairs = Seq<(Seq<char>, Seq<char>)>;

/// What a network destination is for. It informs the reader of a
/// configuration and changes nothing in a delivery.
#[derive(Clone, Copy, Debug, PartialEq, Eq)]
pub enum DestinationType {
    Unspecified,
    ImageUploader,
    TextUploader,
    FileUploader,
    URLShortener,
    URLSharingService,
}

/// How the payload is laid out in the body of a request.
#[derive(Clone, Copy, Debug, PartialEq, Eq)]
pub enum Body {
    Unencoded,
    MultipartFormData,
    FormURLEncoded,
    JSON,
    XML,
    Binary,
}

/// A network destination.
#[derive(Clone, Debug, PartialEq, Eq)]
pub struct HttpUploader {
    pub name: String,
    pub destination_type: DestinationType,
    pub request_method: String,
    pub request_url: String,
    pub parameters: Option<Vec<(String, String)>>,
    pub headers: Option<Vec<(String, String)>>,
    pub body: Body,
    pub arguments: Option<Vec<(String, String)>>,
    pub file_form_name: Option<String>,
    pub url: String,
    pub thumbnail_url: Option<String>,
    pub deletion_url: Option<String>,
    pub error_message: Option<String>,
}

/// A destination in the file system.
#[derive(Clone, Debug, PartialEq, Eq)]
pub struct FileUploader {
    /// The name the destination is shown under.
    pub name: String,
    /// The directory that the file is written to.
    pub file_path: String,
    /// The filename template, without extension.
    pub file_name: String,
}

/// A destination.
#[derive(Clone, Debug, PartialEq, Eq)]
pub enum Uploader {
    HTTP(HttpUploader),
    File(FileUploader),
}

/// An outside program that takes the capture in place of the built-in one.
#[derive(Clone, Debug, PartialEq, Eq)]
pub struct Screenshotter {
    pub path: String,
    pub args: Vec<String>,
}

/// The configuration.
#[derive(Clone, Debug, PartialEq, Eq)]
pub struct Config {
    pub uploaders: Vec<Uploader>,
    pub screenshotter: Option<Screenshotter>,
    pub last_index: u32,
    pub copy_to_clipboard: bool,
    pub copy_url_to_clipboard: bool,
    pub freeze_screen: bool,
    pub tessdata_path: Option<String>,
}

/// The mathematical content of a network destination.
pub struct HttpUploaderView {
    pub name: Seq<char>,
    pub destination_type: DestinationType,
    pub request_method: Seq<char>,
    pub request_url: Seq<char>,
    pub parameters: Option<Pairs>,
    pub headers: Option<Pairs>,
    pub body: Body,
    pub arguments: Option<Pairs>,
    pub file_form_name: Option<Seq<char>>,
    pub url: Seq<char>,
    pub thumbnail_url: Option<Seq<char>>,
    pub deletion_url: Option<Seq<char>>,
    pub error_message: Option<Seq<char>>,
}

/// The mathematical content of a file destination.
pub struct FileUploaderView {
    pub name: Seq<char>,
    pub file_path: Seq<char>,
    pub file_name: Seq<char>,
}

/// The mathematical content of a destination.
pub enum UploaderView {
    HTTP(HttpUploaderView),
    File(FileUploaderView),
}

/// The mathematical content of an outside capture program.
pub struct ScreenshotterView {
    pub path: Seq<char>,
    pub args: Seq<Seq<char>>,
}

/// The mathematical content of a configuration.
pub struct ConfigView {
    pub uploaders: Seq<UploaderView>,
    pub screenshotter: Option<ScreenshotterView>,
    pub last_index: nat,
    pub copy_to_clipboard: bool,
    pub copy_url_to_clipboard: bool,
    pub freeze_screen: bool,
    pub tessdata_path: Option<Seq<char>>,
}

impl View for HttpUploader {
    type V = HttpUploaderView;

    open spec fn view(&self) -> HttpUploaderView {
        HttpUploaderView {
            name: self.name@,
            destination_type: self.destination_type,
            request_method: self.request_method@,
            request_url: self.request_url@,
            parameters: self.parameters.deep_view(),
            headers: self.headers.deep_view(),
            body: self.body,
            arguments: self.arguments.deep_view(),
            file_form_name: self.file_form_name.deep_view(),
            url: self.url@,
            thumbnail_url: self.thumbnail_url.deep_view(),
            deletion_url: self.deletion_url.deep_view(),
            error_message: self.error_message.deep_view(),
        }
    }
}

impl View for FileUploader {
    type V = FileUploaderView;

    open spec fn view(&self) -> FileUploaderView {
        FileUploaderView { name: self.name@, file_path: self.file_path@, file_name: self.file_name@ }
    }
}

impl View for Uploader {
    type V = UploaderView;

    open spec fn view(&self) -> UploaderView {
        match self {
            Uploader::HTTP(u) => UploaderView::HTTP(u@),
            Uploader::File(u) => UploaderView::File(u@),
        }
    }
}

impl DeepView for Uploader {
    type V = UploaderView;

    open spec fn deep_view(&self) -> UploaderView {
        self@
    }
}

impl View for Screenshotter {
    type V = ScreenshotterView;

    open spec fn view(&self) -> ScreenshotterView {
        ScreenshotterView { path: self.path@, args: self.args.deep_view() }
    }
}

impl DeepView for Screenshotter {
    type V = ScreenshotterView;

    open spec fn deep_view(&self) -> ScreenshotterView {
        self@
    }
}

impl View for Config {
    type V = ConfigView;

    open spec fn view(&self) -> ConfigView {
        ConfigView {
            uploaders: self.uploaders.deep_view(),
            screenshotter: self.screenshotter.deep_view(),
            last_index: self.last_index as nat,
            copy_to_clipboard: self.copy_to_clipboard,
            copy_url_to_clipboard: self.copy_url_to_clipboard,
            freeze_screen: self.freeze_screen,
            tessdata_path: self.tessdata_path.deep_view(),
        }
    }
}

/// No key stands twice in the list.
pub open spec fn distinct_keys(pairs: Pairs) -> bool {
    forall|i: int, j: int|
        0 <= i < j < pairs.len() ==> (#[trigger] pairs[i]).0 != (#[trigger] pairs[j]).0
}

/// A list that may be missing has no key twice.
pub open spec fn distinct_optional(pairs: Option<Pairs>) -> bool {
    match pairs {
        Some(p) => distinct_keys(p),
        None => true,
    }
}

impl HttpUploaderView {
    /// The query parameters, the headers and the extra form fields each name a
    /// key once at most.
    pub open spec fn wf(self) -> bool {
        &&& distinct_optional(self.parameters)
        &&& distinct_optional(self.headers)
        &&& distinct_optional(self.arguments)
    }
}

impl UploaderView {
    /// A network destination names each key once at most; a file destination
    /// is always well formed.
    pub open spec fn wf(self) -> bool {
        match self {
            UploaderView::HTTP(u) => u.wf(),
            UploaderView::File(_) => true,
        }
    }
}

impl ConfigView {
    /// Every destination is well formed. The list of destinations may be
    /// empty.
    pub open spec fn wf(self) -> bool {
        forall|i: int| 0 <= i < self.uploaders.len() ==> (#[trigger] self.uploaders[i]).wf()
    }
}

/// Whether no key stands twice in the list.
pub fn has_distinct_keys(pairs: &Vec<(String, String)>) -> (distinct: bool)
    ensures
        distinct == distinct_keys(pairs.deep_view()),
{
    let ghost all = pairs.deep_view();
    let mut j: usize = 0;
    while j < pairs.len()
        invariant
            j <= pairs.len(),
            all == pairs.deep_view(),
            forall|a: int, b: int|
                0 <= a < b < j ==> (#[trigger] all[a]).0 != (#[trigger] all[b]).0,
        decreases pairs.len() - j,
    {
        let mut i: usize = 0;
        while i < j
            invariant
                i <= j < pairs.len(),
                all == pairs.deep_view(),
                forall|a: int| 0 <= a < i ==> (#[trigger] all[a]).0 != all[j as int].0,
            decreases j - i,
        {
            assert(all[i as int].0 == pairs@[i as int].0@);
            assert(all[j as int].0 == pairs@[j as int].0@);
            if str_eq(pairs[i].0.as_str(), pairs[j].0.as_str()) {
                return false;
            }
            i += 1;
        }
        j += 1;
    }
    true
}

/// The first position from `from` on at which the key stands, or -1.
pub open spec fn key_index(pairs: Pairs, key: Seq<char>, from: int) -> int
    decreases pairs.len() - from,
{
    if from < 0 || from >= pairs.len() {
        -1
    } else if pairs[from].0 == key {
        from
    } else {
        key_index(pairs, key, from + 1)
    }
}

/// The list with a value put under a key: in the place of the value that the
/// key had, or at the end where the key is new.
pub open spec fn with_pair(pairs: Pairs, key: Seq<char>, value: Seq<char>) -> Pairs {
    if key_index(pairs, key, 0) >= 0 {
        pairs.update(key_index(pairs, key, 0), (key, value))
    } else {
        pairs.push((key, value))
    }
}

/// Where a key is found it stands, and before that place it does not; where it
/// is not found it stands nowhere.
pub proof fn lemma_key_index(pairs: Pairs, key: Seq<char>, from: int)
    requires
        0 <= from <= pairs.len(),
    ensures
        key_index(pairs, key, from) == -1 || from <= key_index(pairs, key, from) < pairs.len(),
        key_index(pairs, key, from) >= 0 ==> pairs[key_index(pairs, key, from)].0 == key,
        forall|k: int|
            from <= k < pairs.len() && (key_index(pairs, key, from) == -1 || k < key_index(
                pairs,
                key,
                from,
            )) ==> (#[trigger] pairs[k]).0 != key,
    decreases pairs.len() - from,
{
    if from < pairs.len() && pairs[from].0 != key {
        lemma_key_index(pairs, key, from + 1);
    }
}

/// Putting a value under a key keeps the keys distinct.
pub proof fn lemma_with_pair_distinct(pairs: Pairs, key: Seq<char>, value: Seq<char>)
    requires
        distinct_keys(pairs),
    ensures
        distinct_keys(with_pair(pairs, key, value)),
{
    lemma_key_index(pairs, key, 0);
    let after = with_pair(pairs, key, value);
    let at = key_index(pairs, key, 0);
    assert forall|i: int, j: int| 0 <= i < j < after.len() implies (#[trigger] after[i]).0 != (
    #[trigger] after[j]).0 by {
        if at >= 0 {
            assert(after[i].0 == pairs[i].0);
            assert(after[j].0 == pairs[j].0);
        } else if j == pairs.len() {
            assert(after[i] == pairs[i]);
        } else {
            assert(after[i] == pairs[i]);
            assert(after[j] == pairs[j]);
        }
    }
}

/// Puts a value under a key, as a map does: a key that the list holds keeps
/// its place and takes the new value, a new key goes to the end.
pub fn insert_pair(pairs: &mut Vec<(String, String)>, key: String, value: String)
    ensures
        final(pairs).deep_view() == with_pair(old(pairs).deep_view(), key@, value@),
        distinct_keys(old(pairs).deep_view()) ==> distinct_keys(final(pairs).deep_view()),
{
    let ghost before = pairs.deep_view();
    let mut i: usize = 0;
    while i < pairs.len()
        invariant
            i <= pairs.len(),
            before == old(pairs).deep_view(),
            pairs.deep_view() == before,
            key_index(before, key@, 0) == key_index(before, key@, i as int),
        decreases pairs.len() - i,
    {
        assert(before[i as int].0 == pairs@[i as int].0@);
        if str_eq(pairs[i].0.as_str(), key.as_str()) {
            assert(key_index(before, key@, i as int) == i);
            pairs.set(i, (key, value));
            proof {
                assert(pairs.deep_view() =~= before.update(i as int, (key@, value@)));
                if distinct_keys(before) {
                    lemma_with_pair_distinct(before, key@, value@);
                }
            }
            return ;
        }
        i += 1;
    }
    pairs.push((key, value));
    proof {
        assert(pairs.deep_view() =~= before.push((key@, value@)));
        if distinct_keys(before) {
            lemma_with_pair_distinct(before, key@, value@);
        }
    }
}

fn optional_has_distinct_keys(pairs: &Option<Vec<(String, String)>>) -> (distinct: bool)
    ensures
        distinct == distinct_optional(pairs.deep_view()),
{
    match pairs {
        Some(p) => has_distinct_keys(p),
        None => true,
    }
}

impl HttpUploader {
    /// Whether the destination is well formed.
    pub fn is_valid(&self) -> (valid: bool)
        ensures
            valid == self@.wf(),
    {
        optional_has_distinct_keys(&self.parameters) && optional_has_distinct_keys(&self.headers)
            && optional_has_distinct_keys(&self.arguments)
    }
}

impl Uploader {
    /// The network destination that a ShareX custom uploader describes: every
    /// field taken over, each optional one present.
    pub fn from_sharex(c: sharex::Config) -> (uploader: Self)
        ensures
            uploader@.wf() == c.wf(),
            uploader == Uploader::HTTP(
                HttpUploader {
                    name: c.name,
                    destination_type: c.destination_type,
                    request_method: c.request_method,
                    request_url: c.request_url,
                    parameters: Some(c.parameters),
                    headers: Some(c.headers),
                    body: c.body,
                    arguments: Some(c.arguments),
                    file_form_name: Some(c.file_form_name),
                    url: c.url,
                    thumbnail_url: Some(c.thumbnail_url),
                    deletion_url: Some(c.deletion_url),
                    error_message: Some(c.error_message),
                },
            ),
    {
        Uploader::HTTP(
            HttpUploader {
                name: c.name,
                destination_type: c.destination_type,
                request_method: c.request_method,
                request_url: c.request_url,
                parameters: Some(c.parameters),
                headers: Some(c.headers),
                body: c.body,
                arguments: Some(c.arguments),
                file_form_name: Some(c.file_form_name),
                url: c.url,
                thumbnail_url: Some(c.thumbnail_url),
                deletion_url: Some(c.deletion_url),
                error_message: Some(c.error_message),
            },
        )
    }

    /// Whether the destination is well formed.
    pub fn is_valid(&self) -> (valid: bool)
        ensures
            valid == self@.wf(),
    {
        match self {
            Uploader::HTTP(u) => u.is_valid(),
            Uploader::File(_) => true,
        }
    }

    /// The name the destination is shown under.
    pub fn name(&self) -> (name: &String)
        ensures
            name@ == match *self {
                Uploader::HTTP(u) => u.name@,
                Uploader::File(u) => u.name@,
            },
    {
        match self {
            Uploader::HTTP(u) => &u.name,
            Uploader::File(u) => &u.name,
        }
    }
}

/// The file destination of the built-in configuration: it writes to the
/// directory given, under twelve random letters.
pub open spec fn default_file_destination(image_path: Seq<char>) -> FileUploaderView {
    FileUploaderView { name: "File"@, file_path: image_path, file_name: "%r12"@ }
}

/// The network destination of the built-in configuration: a public image
/// host.
pub open spec fn default_network_destination() -> HttpUploaderView {
    HttpUploaderView {
        name: "imgur"@,
        destination_type: DestinationType::ImageUploader,
        request_method: "POST"@,
        request_url: "https://api.imgur.com/3/image"@,
        parameters: None,
        headers: Some(seq![("Authorization"@, "Client-ID 8c964e2b2514a95"@)]),
        body: Body::MultipartFormData,
        arguments: Some(seq![("type"@, "file"@)]),
        file_form_name: Some("image"@),
        url: "$json:data.link$"@,
        thumbnail_url: None,
        deletion_url: Some("http://imgur.com/delete/$json:data.deletehash$"@),
        error_message: None,
    }
}

/// The built-in configuration, for a capture directory and a directory of
/// language data.
pub open spec fn default_configuration(image_path: Seq<char>, tessdata_path: Option<Seq<char>>)
    -> ConfigView {
    ConfigView {
        uploaders: seq![
            UploaderView::File(default_file_destination(image_path)),
            UploaderView::HTTP(default_network_destination()),
        ],
        screenshotter: None,
        last_index: 0,
        copy_to_clipboard: true,
        copy_url_to_clipboard: false,
        freeze_screen: true,
        tessdata_path,
    }
}

/// The built-in configuration is well formed.
pub proof fn lemma_default_is_well_formed(image_path: Seq<char>, tessdata_path: Option<Seq<char>>)
    ensures
        default_configuration(image_path, tessdata_path).wf(),
{
    let conf = default_configuration(image_path, tessdata_path);
    assert forall|i: int| 0 <= i < conf.uploaders.len() implies (#[trigger] conf.uploaders[i]).wf() by {
        if i == 1 {
            assert(conf.uploaders[1] == UploaderView::HTTP(default_network_destination()));
        }
    }
}

/// Why the configuration file could not be read.
#[derive(Clone, Copy, Debug, PartialEq, Eq)]
pub enum ReadFailure {
    /// There is no such file.
    Missing,
    /// The file is there and cannot be read.
    Unreadable,
}

/// Who stands behind the use of the built-in configuration.
#[derive(Clone, Copy, Debug, PartialEq, Eq)]
pub enum Approval {
    /// Nobody can be asked.
    NonInteractive,
    /// The user was asked and said yes.
    Approved,
    /// The user was asked and said no.
    Declined,
}

/// What is done about a configuration file that could not be read.
#[derive(Clone, Copy, Debug, PartialEq, Eq)]
pub enum Recovery {
    /// Write the built-in configuration to the file and go on with it.
    WriteDefaults,
    /// Give up loading.
    Fail,
}

/// The built-in configuration takes the place of a file that is missing, and
/// only where the user agreed or nobody could be asked. A file that cannot be
/// read fails the loading.
pub open spec fn recovery_of(failure: ReadFailure, approval: Approval) -> Recovery {
    if failure == ReadFailure::Missing && approval != Approval::Declined {
        Recovery::WriteDefaults
    } else {
        Recovery::Fail
    }
}

/// Decides what is done about a configuration file that could not be read.
pub fn recover(failure: ReadFailure, approval: Approval) -> (recovery: Recovery)
    ensures
        recovery == recovery_of(failure, approval),
{
    match (failure, approval) {
        (ReadFailure::Missing, Approval::NonInteractive) => Recovery::WriteDefaults,
        (ReadFailure::Missing, Approval::Approved) => Recovery::WriteDefaults,
        _ => Recovery::Fail,
    }
}

/// Whether an answer to the question if a configuration file is to be
/// written means yes, once it is trimmed and in lower case: no answer at all
/// does, and so does `y`.
pub open spec fn means_yes(answer: Seq<char>) -> bool {
    answer.len() == 0 || answer == "y"@
}

/// Whether an answer that is trimmed and in lower case means yes.
pub fn is_yes(answer: &str) -> (yes: bool)
    ensures
        yes == means_yes(answer@),
{
    answer.is_empty() || str_eq(answer, "y")
}

/// What an answer that is trimmed and in lower case approves.
pub fn approval_of(answer: &str) -> (approval: Approval)
    ensures
        approval == if means_yes(answer@) {
            Approval::Approved
        } else {
            Approval::Declined
        },
{
    if is_yes(answer) {
        Approval::Approved
    } else {
        Approval::Declined
    }
}

impl Config {
    /// The built-in configuration: a file destination in the capture directory
    /// given, and a public image host.
    pub fn with_defaults(image_path: String, tessdata_path: Option<String>) -> (config: Config)
        ensures
            config@ == default_configuration(image_path@, tessdata_path.deep_view()),
            config@.wf(),
    {
        let mut headers: Vec<(String, String)> = Vec::new();
        headers.push((text_of("Authorization"), text_of("Client-ID 8c964e2b2514a95")));
        let mut arguments: Vec<(String, String)> = Vec::new();
        arguments.push((text_of("type"), text_of("file")));
        let mut uploaders: Vec<Uploader> = Vec::new();
        uploaders.push(
            Uploader::File(
                FileUploader {
                    name: text_of("File"),
                    file_path: image_path,
                    file_name: text_of("%r12"),
                },
            ),
        );
        uploaders.push(
            Uploader::HTTP(
                HttpUploader {
                    name: text_of("imgur"),
                    destination_type: DestinationType::ImageUploader,
                    request_method: text_of("POST"),
                    request_url: text_of("https://api.imgur.com/3/image"),
                    parameters: None,
                    headers: Some(headers),
                    body: Body::MultipartFormData,
                    arguments: Some(arguments),
                    file_form_name: Some(text_of("image")),
                    url: text_of("$json:data.link$"),
                    thumbnail_url: None,
                    deletion_url: Some(text_of("http://imgur.com/delete/$json:data.deletehash$")),
                    error_message: None,
                },
            ),
        );
        let config = Config {
            uploaders,
            screenshotter: None,
            last_index: 0,
            copy_to_clipboard: true,
            copy_url_to_clipboard: false,
            freeze_screen: true,
            tessdata_path,
        };
        proof {
            lemma_default_is_well_formed(image_path@, tessdata_path.deep_view());
            let expected = default_configuration(image_path@, tessdata_path.deep_view());
            assert(headers.deep_view() =~= seq![("Authorization"@, "Client-ID 8c964e2b2514a95"@)]);
            assert(arguments.deep_view() =~= seq![("type"@, "file"@)]);
            assert(config.uploaders@[0]@ == expected.uploaders[0]);
            assert(config.uploaders@[1]@ == expected.uploaders[1]);
            assert(config@.uploaders =~= expected.uploaders);
        }
        config
    }

    /// Whether every destination is well formed.
    pub fn is_valid(&self) -> (valid: bool)
        ensures
            valid == self@.wf(),
    {
        let ghost all = self.uploaders.deep_view();
        let mut i: usize = 0;
        while i < self.uploaders.len()
            invariant
                i <= self.uploaders.len(),
                all == self.uploaders.deep_view(),
                forall|k: int| 0 <= k < i ==> (#[trigger] all[k]).wf(),
            decreases self.uploaders.len() - i,
        {
            assert(all[i as int] == self.uploaders@[i as int]@);
            if !self.uploaders[i].is_valid() {
                assert(!self@.uploaders[i as int].wf());
                return false;
            }
            i += 1;
        }
        true
    }
}

} // verus!
