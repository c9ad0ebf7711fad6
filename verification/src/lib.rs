//! Building blocks for rendering a Bokeh chart to a PNG inside a hidden
//! webview: where the BokehJS scripts come from, the page that draws the
//! chart, the answers of the in-page content server and the decisions of the
//! event loop that waits for the picture.

pub mod asset_path;
pub mod host;
pub mod occurrences;
pub mod page;
pub mod resource;
pub mod server;
pub mod text;

pub use host::{ipc_handler, on_event, plan_render, run_events, UserEvent};
pub use page::{build_bokeh_render_html, render_script};
pub use resource::{
    bokeh_cdn_as_script_html, bokeh_resource_as_script_html, BokehCDNResource,
    BokehLocalFileResource, BokehLocalResource, BokehResource,
};
pub use server::{custom_protocol_handler, respond, serve_file};
