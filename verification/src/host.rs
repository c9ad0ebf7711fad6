//! The hidden window that draws a chart: what it is set up with, and what
//! its event loop does with each event until the picture has arrived or the
//! window was closed.
//!
//! Nothing here opens a window. [`plan_render`] says how the window and its
//! webview are to be made; the caller makes them, runs the loop, and asks
//! [`on_event`] what to do with each event that the loop reports.

use vstd::prelude::*;
use vstd::string::*;

use crate::page::{
    active_dpi, build_bokeh_render_html, render_call, render_page_html, render_script,
    resolve_dpi,
};
use crate::resource::{active_resource, BokehResource, ResourceSpec};
use crate::server::ORIGIN;
use crate::text::option_text;

verus! {

/// The scheme of the page's origin, which the content server answers on.
pub const PROTOCOL: &'static str = "wry";

/// How many pictures the channel to the caller holds.
pub const COMPLETION_CAPACITY: usize = 1;

/// What the page tells the event loop.
#[derive(Debug, PartialEq, Eq)]
pub enum UserEvent {
    /// The picture, as a data URL.
    PayloadReceived(String),
}

/// An event of the loop, as far as the loop cares.
#[derive(Debug, PartialEq, Eq)]
pub enum HostEvent {
    /// The window was asked to close.
    CloseRequested,
    /// The page has sent something.
    User(UserEvent),
    /// Anything else.
    Other,
}

impl Clone for UserEvent {
    fn clone(&self) -> (res: Self)
        ensures
            res == *self,
    {
        match self {
            UserEvent::PayloadReceived(payload) => UserEvent::PayloadReceived(payload.clone()),
        }
    }
}

impl Clone for HostEvent {
    fn clone(&self) -> (res: Self)
        ensures
            res == *self,
    {
        match self {
            HostEvent::CloseRequested => HostEvent::CloseRequested,
            HostEvent::User(event) => HostEvent::User(event.clone()),
            HostEvent::Other => HostEvent::Other,
        }
    }
}

/// What the loop does after an event.
#[derive(Debug, PartialEq, Eq)]
pub enum LoopStep {
    /// Go on waiting for events.
    Wait,
    /// Leave the loop; nothing is handed to the caller.
    Exit,
    /// Hand the picture to the caller, then leave the loop.
    Deliver(String),
}

/// How a render ended.
#[derive(Debug, PartialEq, Eq)]
pub enum Completion {
    /// The page has sent the picture.
    Delivered(String),
    /// The window was closed before the page sent anything.
    Closed,
}

/// One chart to draw.
pub struct RenderRequest {
    /// The chart as JSON; it is handed to the page as it is.
    pub json_data: String,
    /// The resolution of the picture, in dots per inch.
    pub dpi: Option<u64>,
    /// Where BokehJS comes from.
    pub resource: Option<BokehResource>,
}

/// How the window is made.
#[derive(Clone, Copy, Debug, PartialEq, Eq, Structural)]
pub struct WindowSettings {
    pub decorations: bool,
    pub visible: bool,
    pub transparent: bool,
}

/// Everything the host sets a render up with.
#[derive(Debug, PartialEq, Eq)]
pub struct RenderPlan {
    pub window: WindowSettings,
    /// The page, for the webview to show where it is given no address.
    pub html: String,
    /// The address that the webview loads the page from, where the content
    /// server hands it out.
    pub url: Option<String>,
    /// The scheme on which the content server answers, where there is one.
    pub protocol: Option<String>,
    /// Whether the webview is transparent.
    pub transparent: bool,
    /// The script to run in the page once the webview is built.
    pub script: String,
}

/// The mathematical value of a plan.
pub struct RenderPlanSpec {
    pub window: WindowSettings,
    pub html: Seq<char>,
    pub url: Option<Seq<char>>,
    pub protocol: Option<Seq<char>>,
    pub transparent: bool,
    pub script: Seq<char>,
}

impl View for RenderPlan {
    type V = RenderPlanSpec;

    open spec fn view(&self) -> RenderPlanSpec {
        RenderPlanSpec {
            window: self.window,
            html: self.html@,
            url: option_text(self.url),
            protocol: option_text(self.protocol),
            transparent: self.transparent,
            script: self.script@,
        }
    }
}

/// The window of a render: without decorations, not shown, transparent.
pub open spec fn hidden_window() -> WindowSettings {
    WindowSettings { decorations: false, visible: false, transparent: true }
}

/// Whether the page for a resource is handed out by the content server. It
/// is, but for a local file: the page that loads its one script straight
/// from a URI needs no server, and is shown from its text.
pub open spec fn has_content_server(resource: ResourceSpec) -> bool {
    !(resource is LocalFile)
}

/// The plan for a request: a hidden window, a transparent webview with the
/// page for the request's resource, loaded from the page's origin where the
/// content server hands it out, and the script that draws the request's
/// chart at its resolution.
pub open spec fn plan_of(request: RenderRequest) -> RenderPlanSpec {
    let resource = active_resource(request.resource);
    RenderPlanSpec {
        window: hidden_window(),
        html: render_page_html(resource),
        url: if has_content_server(resource) {
            Some(ORIGIN@)
        } else {
            None
        },
        protocol: if has_content_server(resource) {
            Some(PROTOCOL@)
        } else {
            None
        },
        transparent: true,
        script: render_call(request.json_data@, active_dpi(request.dpi)),
    }
}

/// What the loop does after an event: it leaves when the window is asked to
/// close, hands over the picture and leaves when the page has sent it, and
/// goes on waiting after anything else.
pub open spec fn step_of(event: HostEvent) -> LoopStep {
    match event {
        HostEvent::CloseRequested => LoopStep::Exit,
        HostEvent::User(UserEvent::PayloadReceived(payload)) => LoopStep::Deliver(payload),
        HostEvent::Other => LoopStep::Wait,
    }
}

/// What a loop has come to after a run of events, from the first event on:
/// nothing while it still waits; else how the first event that made it
/// leave ended the render. Events after that one are never looked at.
pub open spec fn completion_of(events: Seq<HostEvent>) -> Option<Completion>
    decreases events.len(),
{
    if events.len() == 0 {
        None
    } else {
        match step_of(events[0]) {
            LoopStep::Wait => completion_of(events.drop_first()),
            LoopStep::Exit => Some(Completion::Closed),
            LoopStep::Deliver(payload) => Some(Completion::Delivered(payload)),
        }
    }
}

/// Whether the loop is still waiting after each of the first `n` events.
pub open spec fn waits_through(events: Seq<HostEvent>, n: int) -> bool {
    forall|j: int| 0 <= j < n ==> step_of(#[trigger] events[j]) == LoopStep::Wait
}

/// The event that a message of the page becomes.
pub fn ipc_handler(body: String) -> (event: UserEvent)
    ensures
        event == UserEvent::PayloadReceived(body),
{
    UserEvent::PayloadReceived(body)
}

/// Decides what the loop does after an event.
pub fn on_event(event: HostEvent) -> (step: LoopStep)
    ensures
        step == step_of(event),
{
    match event {
        HostEvent::CloseRequested => LoopStep::Exit,
        HostEvent::User(UserEvent::PayloadReceived(payload)) => LoopStep::Deliver(payload),
        HostEvent::Other => LoopStep::Wait,
    }
}

/// Plans a render: the window, the webview and the script to run in it.
pub fn plan_render(request: &RenderRequest) -> (plan: RenderPlan)
    ensures
        plan@ == plan_of(*request),
{
    let served = match &request.resource {
        Some(BokehResource::LocalFile(_)) => false,
        _ => true,
    };
    RenderPlan {
        window: WindowSettings { decorations: false, visible: false, transparent: true },
        html: build_bokeh_render_html(request.resource.clone()),
        url: if served {
            Some(String::from_str(ORIGIN))
        } else {
            None
        },
        protocol: if served {
            Some(String::from_str(PROTOCOL))
        } else {
            None
        },
        transparent: true,
        script: render_script(request.json_data.as_str(), resolve_dpi(request.dpi)),
    }
}

/// Runs the loop's decisions over a run of events, as the loop would meet
/// them, and says how the render ended, if it did.
pub fn run_events(events: &Vec<HostEvent>) -> (completion: Option<Completion>)
    ensures
        completion == completion_of(events@),
{
    let mut i: usize = 0;
    proof {
        assert(events@.skip(0) == events@);
    }
    while i < events.len()
        invariant
            i <= events.len(),
            completion_of(events@) == completion_of(events@.skip(i as int)),
        decreases events.len() - i,
    {
        proof {
            let rest = events@.skip(i as int);
            assert(rest[0] == events@[i as int]);
            assert(rest.drop_first() == events@.skip(i + 1));
        }
        match on_event(events[i].clone()) {
            LoopStep::Wait => {},
            LoopStep::Exit => {
                return Some(Completion::Closed);
            },
            LoopStep::Deliver(payload) => {
                return Some(Completion::Delivered(payload));
            },
        }
        i = i + 1;
    }
    None
}

/// The loop waits on while nothing but other events come in.
pub proof fn lemma_waits_on_other_events(events: Seq<HostEvent>)
    requires
        waits_through(events, events.len() as int),
    ensures
        completion_of(events) is None,
    decreases events.len(),
{
    if events.len() > 0 {
        let rest = events.drop_first();
        assert forall|j: int| 0 <= j < rest.len() implies step_of(#[trigger] rest[j])
            == LoopStep::Wait by {
            assert(rest[j] == events[j + 1]);
        }
        lemma_waits_on_other_events(rest);
    }
}

/// The first event that makes the loop leave decides how the render ends.
pub proof fn lemma_first_exit_decides(events: Seq<HostEvent>, i: int)
    requires
        0 <= i < events.len(),
        waits_through(events, i),
        step_of(events[i]) != LoopStep::Wait,
    ensures
        completion_of(events) == match step_of(events[i]) {
            LoopStep::Deliver(payload) => Some(Completion::Delivered(payload)),
            _ => Some(Completion::Closed),
        },
    decreases i,
{
    if i > 0 {
        let rest = events.drop_first();
        assert forall|j: int| 0 <= j < i - 1 implies step_of(#[trigger] rest[j])
            == LoopStep::Wait by {
            assert(rest[j] == events[j + 1]);
        }
        assert(rest[i - 1] == events[i]);
        assert(step_of(events[0]) == LoopStep::Wait);
        lemma_first_exit_decides(rest, i - 1);
    }
}

/// Where the window is closed before the page has sent anything, the loop
/// leaves and no picture is handed over.
pub proof fn lemma_close_before_message(events: Seq<HostEvent>, i: int)
    requires
        0 <= i < events.len(),
        waits_through(events, i),
        events[i] == HostEvent::CloseRequested,
    ensures
        completion_of(events) == Some(Completion::Closed),
{
    lemma_first_exit_decides(events, i);
}

/// Where the page sends a picture before the window is closed, that picture
/// is handed over.
pub proof fn lemma_first_message_is_delivered(events: Seq<HostEvent>, i: int, payload: String)
    requires
        0 <= i < events.len(),
        waits_through(events, i),
        events[i] == HostEvent::User(UserEvent::PayloadReceived(payload)),
    ensures
        completion_of(events) == Some(Completion::Delivered(payload)),
{
    lemma_first_exit_decides(events, i);
}

/// Once a render has ended, no later event changes how it ended: at most one
/// picture is ever handed over.
pub proof fn lemma_completion_is_final(events: Seq<HostEvent>, later: Seq<HostEvent>)
    requires
        completion_of(events) is Some,
    ensures
        completion_of(events + later) == completion_of(events),
    decreases events.len(),
{
    let all = events + later;
    assert(all[0] == events[0]);
    if step_of(events[0]) == LoopStep::Wait {
        assert(all.drop_first() == events.drop_first() + later);
        lemma_completion_is_final(events.drop_first(), later);
    }
}

} // verus!
