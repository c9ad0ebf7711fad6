//! The page that draws a chart, and the script that starts the drawing.

use vstd::prelude::*;
use vstd::string::*;

use crate::resource::{
    active_resource, bokeh_resource_as_script_html, resource_script_html, BokehResource,
    ResourceSpec,
};
use crate::text::{decimal, decimal_string};

verus! {

/// The page up to the tags that load BokehJS: the opening of the document and
/// a style sheet that takes margins and padding away, so that nothing is cut
/// off the canvas.
pub const PAGE_HEAD: &'static str = "
        <html>
            <head>
            <style>
                html, body {
                    box-sizing: border-box;
                    display: flow-root;
                    height: 100%;
                    margin: 0;
                    padding: 0;
                }
            </style>
            ";

/// The page after the tags that load BokehJS: the script that defines
/// `renderBokeh`, which draws a chart, scales its canvas to a resolution and
/// posts the picture as a data URL, and the element that the chart is drawn
/// into. The page only defines the function; nothing in it calls it.
pub const PAGE_TAIL: &'static str = "
            <script type='text/javascript'>
                function setDPI(canvas, dpi) {
                    // Set up CSS size.
                    canvas.style.width = canvas.style.width || canvas.width + 'px';
                    canvas.style.height = canvas.style.height || canvas.height + 'px';

                    // Get size information.
                    var scaleFactor = dpi / 96;
                    var width = parseFloat(canvas.style.width);
                    var height = parseFloat(canvas.style.height);

                    // Backup the canvas contents.
                    var oldScale = canvas.width / width;
                    var backupScale = scaleFactor / oldScale;
                    var backup = canvas.cloneNode(false);
                    backup.getContext('2d').drawImage(canvas, 0, 0);

                    // Resize the canvas.
                    var ctx = canvas.getContext('2d');
                    canvas.width = Math.ceil(width * scaleFactor);
                    canvas.height = Math.ceil(height * scaleFactor);

                    // Redraw the canvas image and scale future draws.
                    ctx.setTransform(backupScale, 0, 0, backupScale, 0, 0);
                    ctx.drawImage(backup, 0, 0);
                    ctx.setTransform(scaleFactor, 0, 0, scaleFactor, 0, 0);
                }

                function renderBokeh(json, dpi) {
                    const data = JSON.parse(json);
                    const rootId = data['root_id'];
                    if (window.Bokeh === undefined) {
                        throw new Error('Bokeh is not loaded');
                    }
                    window.Bokeh.embed.embed_item(data, document.getElementById('root')).then((viewManager) => {
                        const view = viewManager.get_by_id(rootId);
                        const canvas = view.export().canvas;
                        setDPI(canvas, dpi); 
                        const dataURL = canvas.toDataURL('image/png', 1.0);
                        window.ipc.postMessage(dataURL);
                    });
                }
            </script>
            </head>
            <body>
            <div id='root'></div>
            </body>
        </html>
        ";

/// What the injected script says before the chart.
pub const RENDER_CALL_OPEN: &'static str = "window.onload = () => renderBokeh(`";

/// What the injected script says between the chart and the resolution.
pub const RENDER_CALL_MIDDLE: &'static str = "`, ";

/// What the injected script says after the resolution.
pub const RENDER_CALL_CLOSE: &'static str = ")";

/// The resolution at which a canvas is left as it was drawn.
pub const NATIVE_DPI: u64 = 96;

/// The page for a resource: the tags that load BokehJS, between the two
/// fixed parts of the page.
pub open spec fn render_page_html(resource: ResourceSpec) -> Seq<char> {
    PAGE_HEAD@ + resource_script_html(resource) + PAGE_TAIL@
}

/// The script that draws `json_data` at `dpi` dots per inch once the page has
/// loaded. The chart stands in it between backticks, as it is given.
pub open spec fn render_call(json_data: Seq<char>, dpi: nat) -> Seq<char> {
    RENDER_CALL_OPEN@ + json_data + RENDER_CALL_MIDDLE@ + decimal(dpi) + RENDER_CALL_CLOSE@
}

/// The resolution in force for an optional choice: no choice leaves the
/// canvas as it was drawn.
pub open spec fn active_dpi(dpi: Option<u64>) -> nat {
    match dpi {
        Some(d) => d as nat,
        None => NATIVE_DPI as nat,
    }
}

/// The whole page that draws a chart with BokehJS from `resource`; without a
/// resource, from the CDN in its default release.
pub fn build_bokeh_render_html(resource: Option<BokehResource>) -> (html: String)
    ensures
        html@ == render_page_html(active_resource(resource)),
{
    let scripts = bokeh_resource_as_script_html(resource);
    String::from_str(PAGE_HEAD).concat(scripts.as_str()).concat(PAGE_TAIL)
}

/// The script to run in the page: it calls `renderBokeh` with the chart and
/// the resolution when the page has loaded.
pub fn render_script(json_data: &str, dpi: u64) -> (script: String)
    ensures
        script@ == render_call(json_data@, dpi as nat),
{
    let number = decimal_string(dpi);
    String::from_str(RENDER_CALL_OPEN).concat(json_data).concat(RENDER_CALL_MIDDLE).concat(
        number.as_str(),
    ).concat(RENDER_CALL_CLOSE)
}

/// The resolution to draw at: the one chosen, or the native one.
pub fn resolve_dpi(dpi: Option<u64>) -> (resolved: u64)
    ensures
        resolved == active_dpi(dpi),
{
    match dpi {
        Some(d) => d,
        None => NATIVE_DPI,
    }
}

/// The page holds the tags of its resource between its two fixed parts, and
/// nothing else.
pub proof fn lemma_page_embeds_scripts(resource: ResourceSpec)
    ensures
        ({
            let page = render_page_html(resource);
            let scripts = resource_script_html(resource);
            let head = PAGE_HEAD@.len() as int;
            let tail = head + scripts.len();
            &&& page.len() == tail + PAGE_TAIL@.len()
            &&& page.subrange(0, head) == PAGE_HEAD@
            &&& page.subrange(head, tail) == scripts
            &&& page.subrange(tail, page.len() as int) == PAGE_TAIL@
        }),
{
}

} // verus!
