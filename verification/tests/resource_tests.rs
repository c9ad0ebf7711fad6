use bokeh_helpers::resource::{
    bokeh_cdn_as_script_html, bokeh_resource_as_script_html, BokehCDNResource,
    BokehLocalFileResource, BokehLocalResource, BokehResource, CDN_INDENT, DEFAULT_CDN_VERSION,
    LOCAL_INDENT, RESOURCE_DIR,
};

fn cdn(version: &str) -> Option<BokehResource> {
    Some(BokehResource::CDN(BokehCDNResource { version: version.to_string() }))
}

fn local(folder: &str) -> Option<BokehResource> {
    Some(BokehResource::Local(BokehLocalResource { folder_uri: folder.to_string() }))
}

fn local_file(uri: &str) -> Option<BokehResource> {
    Some(BokehResource::LocalFile(BokehLocalFileResource { file_uri: uri.to_string() }))
}

fn expected_cdn(version: &str) -> String {
    format!(
        "
        <script type='text/javascript' src='https://cdn.bokeh.org/bokeh/release/bokeh-{}.min.js'></script>
        <script type='text/javascript' src='https://cdn.bokeh.org/bokeh/release/bokeh-api-{}.min.js'></script>
        <script type='text/javascript' src='https://cdn.bokeh.org/bokeh/release/bokeh-mathjax-{}.min.js'></script>
        ",
        version, version, version
    )
}

fn expected_local() -> String {
    format!(
        "
            <script type='text/javascript' src='/bokeh-resource-dir/bokeh.min.js'></script>
            <script type='text/javascript' src='/bokeh-resource-dir/bokeh-mathjax.min.js'></script>
            <script type='text/javascript' src='/bokeh-resource-dir/bokeh-api.min.js'></script>
            "
    )
}

fn count(haystack: &str, needle: &str) -> usize {
    haystack.matches(needle).count()
}

#[test]
fn cdn_fragment_is_exact() {
    assert_eq!(bokeh_cdn_as_script_html("3.5.2"), expected_cdn("3.5.2"));
    assert_eq!(bokeh_cdn_as_script_html("2.4.3"), expected_cdn("2.4.3"));
}

#[test]
fn cdn_fragment_written_out() {
    let html = bokeh_cdn_as_script_html("3.4.0");
    let lines: Vec<&str> = html.split('\n').collect();
    assert_eq!(lines.len(), 5);
    assert_eq!(lines[0], "");
    assert_eq!(
        lines[1],
        "        <script type='text/javascript' src='https://cdn.bokeh.org/bokeh/release/bokeh-3.4.0.min.js'></script>"
    );
    assert_eq!(
        lines[2],
        "        <script type='text/javascript' src='https://cdn.bokeh.org/bokeh/release/bokeh-api-3.4.0.min.js'></script>"
    );
    assert_eq!(
        lines[3],
        "        <script type='text/javascript' src='https://cdn.bokeh.org/bokeh/release/bokeh-mathjax-3.4.0.min.js'></script>"
    );
    assert_eq!(lines[4], "        ");
}

#[test]
fn cdn_fragment_has_three_tags() {
    let html = bokeh_resource_as_script_html(cdn("3.5.2"));
    assert_eq!(count(&html, "<script type='text/javascript' src='"), 3);
    assert_eq!(count(&html, "'></script>"), 3);
    assert_eq!(count(&html, "3.5.2"), 3);
    assert_eq!(html, expected_cdn("3.5.2"));
}

#[test]
fn local_folder_fragment_has_three_tags() {
    let html = bokeh_resource_as_script_html(local("/opt/bokeh"));
    assert_eq!(count(&html, "<script type='text/javascript' src='"), 3);
    assert_eq!(count(&html, "'></script>"), 3);
    assert_eq!(html, expected_local());
}

#[test]
fn local_folder_fragment_written_out() {
    let html = bokeh_resource_as_script_html(local("anywhere"));
    let lines: Vec<&str> = html.split('\n').collect();
    assert_eq!(lines.len(), 5);
    assert_eq!(lines[0], "");
    assert_eq!(
        lines[1],
        "            <script type='text/javascript' src='/bokeh-resource-dir/bokeh.min.js'></script>"
    );
    assert_eq!(
        lines[2],
        "            <script type='text/javascript' src='/bokeh-resource-dir/bokeh-mathjax.min.js'></script>"
    );
    assert_eq!(
        lines[3],
        "            <script type='text/javascript' src='/bokeh-resource-dir/bokeh-api.min.js'></script>"
    );
    assert_eq!(lines[4], "            ");
}

#[test]
fn local_folder_fragment_does_not_name_the_folder() {
    assert_eq!(
        bokeh_resource_as_script_html(local("/one/folder")),
        bokeh_resource_as_script_html(local("/another/folder"))
    );
    assert!(!bokeh_resource_as_script_html(local("/one/folder")).contains("/one/folder"));
}

#[test]
fn local_file_fragment_has_one_tag() {
    let html = bokeh_resource_as_script_html(local_file("file:///opt/bokeh/bokeh.min.js"));
    assert_eq!(count(&html, "<script type='text/javascript' src='"), 1);
    assert_eq!(count(&html, "'></script>"), 1);
    assert_eq!(
        html,
        "\n            <script type='text/javascript' src='file:///opt/bokeh/bokeh.min.js'></script>\n            "
    );
}

#[test]
fn no_resource_falls_back_to_default_cdn() {
    assert_eq!(DEFAULT_CDN_VERSION, "3.5.2");
    assert_eq!(bokeh_resource_as_script_html(None), expected_cdn("3.5.2"));
    assert_eq!(bokeh_resource_as_script_html(None), bokeh_resource_as_script_html(cdn("3.5.2")));
    assert_eq!(bokeh_resource_as_script_html(None), bokeh_cdn_as_script_html("3.5.2"));
}

#[test]
fn version_is_not_validated() {
    assert_eq!(bokeh_cdn_as_script_html(""), expected_cdn(""));
    assert_eq!(bokeh_cdn_as_script_html("not a version"), expected_cdn("not a version"));
    assert_eq!(bokeh_cdn_as_script_html("3.5.2'><b>"), expected_cdn("3.5.2'><b>"));
    assert_eq!(bokeh_cdn_as_script_html("\u{e9}t\u{e9}"), expected_cdn("\u{e9}t\u{e9}"));
}

#[test]
fn resolving_twice_gives_the_same_bytes() {
    for resource in [None, cdn("3.5.2"), cdn("1.0.0"), local("/opt/bokeh"), local_file("bokeh.js")] {
        let first = bokeh_resource_as_script_html(resource.clone());
        let second = bokeh_resource_as_script_html(resource);
        assert_eq!(first.as_bytes(), second.as_bytes());
    }
}

#[test]
fn clones_are_equal_in_what_they_yield() {
    let resource = BokehResource::CDN(BokehCDNResource { version: "3.1.0".to_string() });
    let copy = resource.clone();
    assert_eq!(
        bokeh_resource_as_script_html(Some(resource)),
        bokeh_resource_as_script_html(Some(copy))
    );
    let folder = BokehLocalResource { folder_uri: "/opt/bokeh".to_string() };
    assert_eq!(folder.clone().folder_uri, "/opt/bokeh");
    let file = BokehLocalFileResource { file_uri: "bokeh.js".to_string() };
    assert_eq!(file.clone().file_uri, "bokeh.js");
}

#[test]
fn indents_and_directory() {
    assert_eq!(CDN_INDENT.len(), 8);
    assert_eq!(LOCAL_INDENT.len(), 12);
    assert!(CDN_INDENT.chars().all(|c| c == ' '));
    assert!(LOCAL_INDENT.chars().all(|c| c == ' '));
    assert_eq!(RESOURCE_DIR, "bokeh-resource-dir");
}

#[test]
fn tag_starts_are_counted_for_plain_addresses() {
    assert_eq!(count(&bokeh_resource_as_script_html(None), "<script"), 3);
    assert_eq!(count(&bokeh_resource_as_script_html(cdn("3.5.2")), "<script"), 3);
    assert_eq!(count(&bokeh_resource_as_script_html(cdn("")), "<script"), 3);
    assert_eq!(count(&bokeh_resource_as_script_html(local("/opt/<script")), "<script"), 3);
    assert_eq!(count(&bokeh_resource_as_script_html(local_file("bokeh.js")), "<script"), 1);
}

#[test]
fn a_version_with_a_tag_start_adds_to_the_count() {
    assert_eq!(count(&bokeh_resource_as_script_html(cdn("<script")), "<script"), 6);
    assert_eq!(count(&bokeh_resource_as_script_html(local_file("<script")), "<script"), 2);
}
