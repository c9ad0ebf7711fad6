//! The content server of the page: what it answers to a request for the
//! page itself and to a request for a file of the local BokehJS folder.
//!
//! The server decides and frames; it reads no file. Where a file is asked
//! for, [`custom_protocol_handler`] says which one, the caller reads it, and
//! [`serve_file`] frames what was read.

use vstd::prelude::*;
use vstd::string::*;
use vstd::utf8::*;

use crate::asset_path::{
    asset_file_name, asset_name, components, is_plain_name, lemma_asset_name_is_plain,
    lemma_asset_path_of_plain_name, lemma_named_only_push, named_only, segments,
};
use crate::page::{build_bokeh_render_html, render_page_html};
use crate::resource::{
    active_resource, local_bundle_url, script_sources, BokehLocalResource, BokehResource,
    ResourceSpec,
};
use crate::text::option_text;

verus! {

/// The status of an answer that carries what was asked for.
pub const STATUS_OK: u16 = 200;

/// The status of an answer that carries the text of an error.
pub const STATUS_FAILED: u16 = 500;

/// The header that names the media type of a body.
pub const CONTENT_TYPE: &'static str = "content-type";

/// The header that names the origin allowed to read an answer.
pub const ALLOW_ORIGIN: &'static str = "access-control-allow-origin";

/// The media type of the page.
pub const HTML_TYPE: &'static str = "text/html";

/// The media type of a file whose name tells nothing.
pub const FALLBACK_TYPE: &'static str = "text/plain";

/// The origin of the page where the webview maps custom schemes to `https`.
pub const WINDOWS_ORIGIN: &'static str = "https://wry.render-bokeh";

/// The origin of the page elsewhere.
pub const ORIGIN: &'static str = "wry://render-bokeh";

/// What an asset request is told while BokehJS does not come from a folder.
pub const NOT_LOCAL_TEXT: &'static str = "BokehResource is not Local";

/// What precedes the path in the text of an invalid-path error.
pub const INVALID_PATH_TEXT: &'static str = "Invalid path ";

/// The kind of system that hosts the webview, as far as the origin of the
/// page depends on it.
#[derive(Clone, Copy, Debug, PartialEq, Eq, Structural)]
pub enum HostPlatform {
    Windows,
    Other,
}

/// An answer of the content server.
#[derive(Debug, PartialEq, Eq)]
pub struct Response {
    pub status: u16,
    /// Names and values, in the order in which they were set.
    pub headers: Vec<(String, String)>,
    pub body: Vec<u8>,
}

/// The mathematical value of an answer.
pub struct ResponseSpec {
    pub status: int,
    pub headers: Seq<(Seq<char>, Seq<char>)>,
    pub body: Seq<u8>,
}

impl View for Response {
    type V = ResponseSpec;

    open spec fn view(&self) -> ResponseSpec {
        ResponseSpec {
            status: self.status as int,
            headers: self.headers@.map_values(|h: (String, String)| (h.0@, h.1@)),
            body: self.body@,
        }
    }
}

/// Why a request was not answered with what it asked for.
#[derive(Debug, PartialEq, Eq)]
pub enum ServeError {
    /// A file of the BokehJS folder was asked for, but BokehJS does not come
    /// from a folder.
    NotLocal,
    /// The path is neither the page's nor that of a file of the BokehJS
    /// folder; it is kept for the error's text.
    InvalidPath(String),
    /// A step outside the server failed: the file could not be read, or the
    /// answer could not be handed on. The text is that of the failure.
    Failed(String),
}

/// The mathematical value of an error.
pub enum ServeErrorSpec {
    NotLocal,
    InvalidPath(Seq<char>),
    Failed(Seq<char>),
}

impl View for ServeError {
    type V = ServeErrorSpec;

    open spec fn view(&self) -> ServeErrorSpec {
        match *self {
            ServeError::NotLocal => ServeErrorSpec::NotLocal,
            ServeError::InvalidPath(path) => ServeErrorSpec::InvalidPath(path@),
            ServeError::Failed(text) => ServeErrorSpec::Failed(text@),
        }
    }
}

/// A file to read, and how to frame it once it is read.
#[derive(Debug, PartialEq, Eq)]
pub struct FileRequest {
    /// The folder to look in.
    pub folder_uri: String,
    /// The file's name in that folder; a plain name.
    pub file_name: String,
    pub content_type: String,
    pub allow_origin: String,
}

/// The mathematical value of a file request.
pub struct FileRequestSpec {
    pub folder_uri: Seq<char>,
    pub file_name: Seq<char>,
    pub content_type: Seq<char>,
    pub allow_origin: Seq<char>,
}

impl View for FileRequest {
    type V = FileRequestSpec;

    open spec fn view(&self) -> FileRequestSpec {
        FileRequestSpec {
            folder_uri: self.folder_uri@,
            file_name: self.file_name@,
            content_type: self.content_type@,
            allow_origin: self.allow_origin@,
        }
    }
}

/// What the handler makes of a request that it accepts.
#[derive(Debug, PartialEq, Eq)]
pub enum Served {
    /// The answer is complete.
    Page(Response),
    /// The answer is the content of a file, still to be read.
    File(FileRequest),
}

/// The mathematical value of what the handler made of a request.
pub enum ServedSpec {
    Page(ResponseSpec),
    File(FileRequestSpec),
}

impl View for Served {
    type V = ServedSpec;

    open spec fn view(&self) -> ServedSpec {
        match *self {
            Served::Page(response) => ServedSpec::Page(response@),
            Served::File(request) => ServedSpec::File(request@),
        }
    }
}

/// What a request path asks for.
#[derive(Debug, PartialEq, Eq)]
pub enum Route {
    /// The page.
    Page,
    /// A file of the BokehJS folder.
    File { folder_uri: String, file_name: String },
}

/// The mathematical value of a route.
pub enum RouteSpec {
    Page,
    File { folder_uri: Seq<char>, file_name: Seq<char> },
}

impl View for Route {
    type V = RouteSpec;

    open spec fn view(&self) -> RouteSpec {
        match *self {
            Route::Page => RouteSpec::Page,
            Route::File { folder_uri, file_name } => RouteSpec::File {
                folder_uri: folder_uri@,
                file_name: file_name@,
            },
        }
    }
}

/// The value of what a routing step returned.
pub open spec fn route_view(outcome: Result<Route, ServeError>) -> Result<
    RouteSpec,
    ServeErrorSpec,
> {
    match outcome {
        Ok(route) => Ok(route@),
        Err(error) => Err(error@),
    }
}

/// The value of what the handler returned.
pub open spec fn served_view(outcome: Result<Served, ServeError>) -> Result<
    ServedSpec,
    ServeErrorSpec,
> {
    match outcome {
        Ok(served) => Ok(served@),
        Err(error) => Err(error@),
    }
}

/// The value of an answer or an error.
pub open spec fn response_view(outcome: Result<Response, ServeError>) -> Result<
    ResponseSpec,
    ServeErrorSpec,
> {
    match outcome {
        Ok(response) => Ok(response@),
        Err(error) => Err(error@),
    }
}

/// The path of the page.
pub open spec fn page_path() -> Seq<char> {
    seq!['/']
}

/// The text of an error.
pub open spec fn error_message(error: ServeErrorSpec) -> Seq<char> {
    match error {
        ServeErrorSpec::NotLocal => NOT_LOCAL_TEXT@,
        ServeErrorSpec::InvalidPath(path) => INVALID_PATH_TEXT@ + path,
        ServeErrorSpec::Failed(text) => text,
    }
}

/// The origin of the page on a platform.
pub open spec fn allowed_origin(platform: HostPlatform) -> Seq<char> {
    match platform {
        HostPlatform::Windows => WINDOWS_ORIGIN@,
        HostPlatform::Other => ORIGIN@,
    }
}

/// The media type under which a file is sent: the one guessed from its
/// name, or plain text where there is no guess.
pub open spec fn content_type_text(guess: Option<Seq<char>>) -> Seq<char> {
    match guess {
        Some(media_type) => media_type,
        None => FALLBACK_TYPE@,
    }
}

/// What a path asks for under a resource. The path of the page asks for the
/// page. A path to a file of the resource directory asks for that file of
/// the folder, and is refused while BokehJS does not come from a folder.
/// Every other path is invalid.
pub open spec fn route_of(path: Seq<char>, resource: ResourceSpec) -> Result<
    RouteSpec,
    ServeErrorSpec,
> {
    if path == page_path() {
        Ok(RouteSpec::Page)
    } else {
        match asset_name(path) {
            Some(file_name) => match resource {
                ResourceSpec::LocalFolder { uri } => Ok(
                    RouteSpec::File { folder_uri: uri, file_name },
                ),
                _ => Err(ServeErrorSpec::NotLocal),
            },
            None => Err(ServeErrorSpec::InvalidPath(path)),
        }
    }
}

/// The answer that carries the page for a resource.
pub open spec fn page_response(resource: ResourceSpec) -> ResponseSpec {
    ResponseSpec {
        status: STATUS_OK as int,
        headers: seq![(CONTENT_TYPE@, HTML_TYPE@)],
        body: encode_utf8(render_page_html(resource)),
    }
}

/// The answer that carries a file: its media type, the origin that may read
/// it, and the content as it was read.
pub open spec fn file_response(request: FileRequestSpec, content: Seq<u8>) -> ResponseSpec {
    ResponseSpec {
        status: STATUS_OK as int,
        headers: seq![
            (CONTENT_TYPE@, request.content_type),
            (ALLOW_ORIGIN@, request.allow_origin),
        ],
        body: content,
    }
}

/// The answer that carries an error: no header, and the error's text.
pub open spec fn error_response(error: ServeErrorSpec) -> ResponseSpec {
    ResponseSpec {
        status: STATUS_FAILED as int,
        headers: Seq::empty(),
        body: encode_utf8(error_message(error)),
    }
}

/// What the handler makes of a request, given the media type guessed from
/// its path.
pub open spec fn served_of(
    path: Seq<char>,
    resource: ResourceSpec,
    platform: HostPlatform,
    guess: Option<Seq<char>>,
) -> Result<ServedSpec, ServeErrorSpec> {
    match route_of(path, resource) {
        Ok(RouteSpec::Page) => Ok(ServedSpec::Page(page_response(resource))),
        Ok(RouteSpec::File { folder_uri, file_name }) => Ok(
            ServedSpec::File(
                FileRequestSpec {
                    folder_uri,
                    file_name,
                    content_type: content_type_text(guess),
                    allow_origin: allowed_origin(platform),
                },
            ),
        ),
        Err(error) => Err(error),
    }
}

/// What a file request comes to once the file was read, or could not be.
pub open spec fn file_outcome(request: FileRequestSpec, read: Result<Seq<u8>, Seq<char>>) -> Result<
    ResponseSpec,
    ServeErrorSpec,
> {
    match read {
        Ok(content) => Ok(file_response(request, content)),
        Err(text) => Err(ServeErrorSpec::Failed(text)),
    }
}

/// The answer that is sent for an outcome.
pub open spec fn sent_response(outcome: Result<ResponseSpec, ServeErrorSpec>) -> ResponseSpec {
    match outcome {
        Ok(response) => response,
        Err(error) => error_response(error),
    }
}

/// The first media type that `mime_guess` knows for the extension of a path,
/// as text; none where the path has no extension or the extension is not
/// known.
pub uninterp spec fn first_mime_guess(path: Seq<char>) -> Option<Seq<char>>;

/// Calls `mime_guess::from_path(path).first()`, which looks the extension of
/// the path up in a fixed table, and writes the media type found as text.
/// The contract gives that result its name and claims nothing else of it.
#[verifier::external_body]
fn guess_media_type(path: &str) -> (guess: Option<String>)
    ensures
        option_text(guess) == first_mime_guess(path@),
{
    match mime_guess::from_path(path).first() {
        Some(media_type) => Some(media_type.to_string()),
        None => None,
    }
}

impl ServeError {
    /// The text of the error, as it is sent to the page.
    pub fn message(&self) -> (text: String)
        ensures
            text@ == error_message(self@),
    {
        match self {
            ServeError::NotLocal => String::from_str(NOT_LOCAL_TEXT),
            ServeError::InvalidPath(path) => String::from_str(INVALID_PATH_TEXT).concat(
                path.as_str(),
            ),
            ServeError::Failed(text) => text.clone(),
        }
    }
}

/// The origin that may read what the server sends, on a platform.
pub fn origin_of(platform: HostPlatform) -> (origin: String)
    ensures
        origin@ == allowed_origin(platform),
{
    match platform {
        HostPlatform::Windows => String::from_str(WINDOWS_ORIGIN),
        HostPlatform::Other => String::from_str(ORIGIN),
    }
}

/// The media type to send a file under, for what was guessed from its name.
pub fn content_type_of(guess: Option<String>) -> (content_type: String)
    ensures
        content_type@ == content_type_text(option_text(guess)),
{
    match guess {
        Some(media_type) => media_type,
        None => String::from_str(FALLBACK_TYPE),
    }
}

/// Whether a path is the path of the page.
fn is_page_path(path: &str) -> (page: bool)
    ensures
        page == (path@ == page_path()),
{
    if path.unicode_len() == 1 {
        let first = path.get_char(0);
        assert(first == '/' ==> path@ =~= page_path());
        first == '/'
    } else {
        false
    }
}

/// Decides what a request path asks for under a resource.
pub fn route(path: &str, resource: &Option<BokehResource>) -> (outcome: Result<Route, ServeError>)
    ensures
        route_view(outcome) == route_of(path@, active_resource(*resource)),
{
    if is_page_path(path) {
        return Ok(Route::Page);
    }
    match asset_file_name(path) {
        Some(file_name) => match resource {
            Some(BokehResource::Local(BokehLocalResource { folder_uri })) => Ok(
                Route::File { folder_uri: folder_uri.clone(), file_name },
            ),
            _ => Err(ServeError::NotLocal),
        },
        None => Err(ServeError::InvalidPath(String::from_str(path))),
    }
}

/// The answer that carries the page.
fn page_answer(resource: &Option<BokehResource>) -> (response: Response)
    ensures
        response@ == page_response(active_resource(*resource)),
{
    let html = build_bokeh_render_html(resource.clone());
    let mut headers: Vec<(String, String)> = Vec::new();
    headers.push((String::from_str(CONTENT_TYPE), String::from_str(HTML_TYPE)));
    let response = Response { status: STATUS_OK, headers, body: html.as_str().as_bytes_vec() };
    assert(response@.headers =~= page_response(active_resource(*resource)).headers);
    response
}

/// Handles a request on the origin of the page. The page's path is answered
/// at once with the page. The path of a file of the BokehJS folder is
/// answered with the file to read and the headers to send it under; the
/// caller reads the file and hands the outcome to [`serve_file`]. Anything
/// else is an error, which [`respond`] turns into an answer.
pub fn custom_protocol_handler(
    path: &str,
    resource: &Option<BokehResource>,
    platform: HostPlatform,
) -> (outcome: Result<Served, ServeError>)
    ensures
        served_view(outcome) == served_of(
            path@,
            active_resource(*resource),
            platform,
            first_mime_guess(path@),
        ),
{
    match route(path, resource) {
        Ok(Route::Page) => Ok(Served::Page(page_answer(resource))),
        Ok(Route::File { folder_uri, file_name }) => {
            let content_type = content_type_of(guess_media_type(path));
            Ok(
                Served::File(
                    FileRequest {
                        folder_uri,
                        file_name,
                        content_type,
                        allow_origin: origin_of(platform),
                    },
                ),
            )
        },
        Err(error) => Err(error),
    }
}

/// Frames the outcome of reading a requested file: the content, unchanged,
/// under the headers of the request; or the failure, as an error that
/// carries its text.
pub fn serve_file(request: FileRequest, read: Result<Vec<u8>, String>) -> (outcome: Result<
    Response,
    ServeError,
>)
    ensures
        response_view(outcome) == file_outcome(
            request@,
            match read {
                Ok(content) => Ok(content@),
                Err(text) => Err(text@),
            },
        ),
{
    match read {
        Ok(content) => {
            let mut headers: Vec<(String, String)> = Vec::new();
            headers.push((String::from_str(CONTENT_TYPE), request.content_type));
            headers.push((String::from_str(ALLOW_ORIGIN), request.allow_origin));
            let response = Response { status: STATUS_OK, headers, body: content };
            assert(response@.headers =~= file_response(request@, content@).headers);
            Ok(response)
        },
        Err(text) => Err(ServeError::Failed(text)),
    }
}

/// The answer to send: the one at hand, or for an error the failure status
/// with the error's text as body.
pub fn respond(outcome: Result<Response, ServeError>) -> (response: Response)
    ensures
        response@ == sent_response(response_view(outcome)),
{
    match outcome {
        Ok(response) => response,
        Err(error) => {
            let text = error.message();
            let response = Response {
                status: STATUS_FAILED,
                headers: Vec::new(),
                body: text.as_str().as_bytes_vec(),
            };
            assert(response@.headers =~= error_response(error@).headers);
            response
        },
    }
}

/// The path of the page asks for no file.
pub proof fn lemma_page_path_is_no_asset()
    ensures
        asset_name(page_path()) is None,
{
    let path = page_path();
    let empty = Seq::<char>::empty();
    assert(path.drop_last() == empty);
    assert(segments(empty) == seq![empty]);
    assert(segments(path) == seq![empty, empty]);
    let none = Seq::<Seq<char>>::empty();
    assert(segments(path) == none.push(empty).push(empty));
    assert(named_only(none) == none) by {
        reveal(Seq::filter);
    }
    lemma_named_only_push(none, empty);
    lemma_named_only_push(none.push(empty), empty);
    assert(components(path) == none);
}

/// A request for the page is answered with the page, whatever the resource.
pub proof fn lemma_page_is_always_served(
    resource: ResourceSpec,
    platform: HostPlatform,
    guess: Option<Seq<char>>,
)
    ensures
        served_of(page_path(), resource, platform, guess) == Ok::<ServedSpec, ServeErrorSpec>(
            ServedSpec::Page(page_response(resource)),
        ),
{
}

/// A request for a file of the resource directory is refused while BokehJS
/// does not come from a local folder: the handler returns the error, and the
/// answer sent for it has the failure status and the error's text as body.
pub proof fn lemma_asset_needs_local_folder(
    path: Seq<char>,
    resource: ResourceSpec,
    platform: HostPlatform,
    guess: Option<Seq<char>>,
)
    requires
        asset_name(path) is Some,
        !(resource is LocalFolder),
    ensures
        served_of(path, resource, platform, guess) == Err::<ServedSpec, ServeErrorSpec>(
            ServeErrorSpec::NotLocal,
        ),
        sent_response(Err(ServeErrorSpec::NotLocal)).status == STATUS_FAILED,
        sent_response(Err(ServeErrorSpec::NotLocal)).body == encode_utf8(NOT_LOCAL_TEXT@),
{
    lemma_page_path_is_no_asset();
}

/// A path that is neither the page's nor that of a file of the resource
/// directory is refused as invalid, whatever the resource, and the error
/// keeps the path.
pub proof fn lemma_other_paths_are_invalid(
    path: Seq<char>,
    resource: ResourceSpec,
    platform: HostPlatform,
    guess: Option<Seq<char>>,
)
    requires
        path != page_path(),
        asset_name(path) is None,
    ensures
        served_of(path, resource, platform, guess) == Err::<ServedSpec, ServeErrorSpec>(
            ServeErrorSpec::InvalidPath(path),
        ),
        sent_response(Err(ServeErrorSpec::InvalidPath(path))).status == STATUS_FAILED,
        sent_response(Err(ServeErrorSpec::InvalidPath(path))).body == encode_utf8(
            INVALID_PATH_TEXT@ + path,
        ),
{
}

/// The file that the handler asks the caller to read has a plain name, so
/// it lies in the folder of the resource, and that folder is the one looked
/// in.
pub proof fn lemma_file_stays_in_folder(path: Seq<char>, resource: ResourceSpec)
    requires
        route_of(path, resource) is Ok,
        route_of(path, resource)->Ok_0 is File,
    ensures
        resource is LocalFolder,
        route_of(path, resource)->Ok_0->folder_uri == resource->LocalFolder_uri,
        is_plain_name(route_of(path, resource)->Ok_0->file_name),
{
    lemma_asset_name_is_plain(path);
}

/// A file that was read is sent as it was read, byte for byte, under the
/// media type and the origin of its request.
pub proof fn lemma_file_is_sent_unchanged(request: FileRequestSpec, content: Seq<u8>)
    ensures
        sent_response(file_outcome(request, Ok(content))).body == content,
        sent_response(file_outcome(request, Ok(content))).status == STATUS_OK,
        sent_response(file_outcome(request, Ok(content))).headers == seq![
            (CONTENT_TYPE@, request.content_type),
            (ALLOW_ORIGIN@, request.allow_origin),
        ],
{
}

/// A file that could not be read is answered with the failure status and the
/// text of the failure.
pub proof fn lemma_read_failure_is_reported(request: FileRequestSpec, text: Seq<char>)
    ensures
        sent_response(file_outcome(request, Err(text))).status == STATUS_FAILED,
        sent_response(file_outcome(request, Err(text))).body == encode_utf8(text),
{
}

/// Every script that the page loads for a local folder is a file that the
/// content server hands out from that folder.
pub proof fn lemma_folder_scripts_are_served(uri: Seq<char>, k: int)
    requires
        0 <= k < 3,
    ensures
        ({
            let resource = ResourceSpec::LocalFolder { uri };
            let source = script_sources(resource)[k];
            &&& route_of(source, resource) is Ok
            &&& route_of(source, resource)->Ok_0 is File
            &&& route_of(source, resource)->Ok_0->folder_uri == uri
            &&& local_bundle_url(route_of(source, resource)->Ok_0->file_name) == source
        }),
{
    reveal_strlit("/");
    reveal_strlit("bokeh.min.js");
    reveal_strlit("bokeh-mathjax.min.js");
    reveal_strlit("bokeh-api.min.js");
    let resource = ResourceSpec::LocalFolder { uri };
    let name = if k == 0 {
        "bokeh.min.js"@
    } else if k == 1 {
        "bokeh-mathjax.min.js"@
    } else {
        "bokeh-api.min.js"@
    };
    assert(script_sources(resource)[k] == local_bundle_url(name));
    assert("/"@ =~= seq!['/']);
    assert(!name.contains('/'));
    assert(is_plain_name(name));
    lemma_asset_path_of_plain_name(name);
    assert(local_bundle_url(name).len() > 1);
}

} // verus!
