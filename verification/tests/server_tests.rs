use bokeh_helpers::page::build_bokeh_render_html;
use bokeh_helpers::resource::{
    BokehCDNResource, BokehLocalFileResource, BokehLocalResource, BokehResource,
};
use bokeh_helpers::server::{
    content_type_of, custom_protocol_handler, origin_of, respond, route, serve_file, FileRequest,
    HostPlatform, Response, Route, ServeError, Served, ALLOW_ORIGIN, CONTENT_TYPE, STATUS_FAILED,
    STATUS_OK,
};

fn cdn() -> Option<BokehResource> {
    Some(BokehResource::CDN(BokehCDNResource { version: "3.5.2".to_string() }))
}

fn folder(uri: &str) -> Option<BokehResource> {
    Some(BokehResource::Local(BokehLocalResource { folder_uri: uri.to_string() }))
}

fn single_file() -> Option<BokehResource> {
    Some(BokehResource::LocalFile(BokehLocalFileResource { file_uri: "bokeh.js".to_string() }))
}

fn header(name: &str, value: &str) -> (String, String) {
    (name.to_string(), value.to_string())
}

fn file_request(path: &str, resource: &Option<BokehResource>, platform: HostPlatform) -> FileRequest {
    match custom_protocol_handler(path, resource, platform) {
        Ok(Served::File(request)) => request,
        other => panic!("no file request for {}: {:?}", path, other),
    }
}

#[test]
fn page_path_routes_to_page() {
    for resource in [None, cdn(), folder("/opt/bokeh"), single_file()] {
        assert_eq!(route("/", &resource), Ok(Route::Page));
    }
}

#[test]
fn asset_path_routes_to_file_of_folder() {
    assert_eq!(
        route("/bokeh-resource-dir/bokeh.min.js", &folder("/opt/bokeh")),
        Ok(Route::File {
            folder_uri: "/opt/bokeh".to_string(),
            file_name: "bokeh.min.js".to_string()
        })
    );
    assert_eq!(
        route("/bokeh-resource-dir//bokeh-api.min.js/", &folder("")),
        Ok(Route::File { folder_uri: "".to_string(), file_name: "bokeh-api.min.js".to_string() })
    );
}

#[test]
fn asset_request_without_local_folder_is_rejected() {
    for resource in [None, cdn(), single_file()] {
        assert_eq!(
            route("/bokeh-resource-dir/bokeh.min.js", &resource),
            Err(ServeError::NotLocal)
        );
        for platform in [HostPlatform::Windows, HostPlatform::Other] {
            assert_eq!(
                custom_protocol_handler("/bokeh-resource-dir/bokeh.min.js", &resource, platform),
                Err(ServeError::NotLocal)
            );
        }
    }
}

#[test]
fn rejected_asset_request_is_answered_with_the_error() {
    let outcome = custom_protocol_handler(
        "/bokeh-resource-dir/bokeh.min.js",
        &cdn(),
        HostPlatform::Other,
    );
    let outcome = match outcome {
        Ok(served) => panic!("served {:?}", served),
        Err(error) => Err(error),
    };
    assert_eq!(
        respond(outcome),
        Response {
            status: 500,
            headers: vec![],
            body: b"BokehResource is not Local".to_vec()
        }
    );
}

#[test]
fn other_paths_are_invalid() {
    for resource in [None, cdn(), folder("/opt/bokeh"), single_file()] {
        for path in ["", "/index.html", "/bokeh-resource-dir", "/bokeh-resource-dir/a/b", "/x/y"] {
            assert_eq!(route(path, &resource), Err(ServeError::InvalidPath(path.to_string())));
            assert_eq!(
                custom_protocol_handler(path, &resource, HostPlatform::Other),
                Err(ServeError::InvalidPath(path.to_string()))
            );
        }
    }
}

#[test]
fn parent_of_resource_dir_is_invalid() {
    for resource in [None, cdn(), folder("/opt/bokeh"), single_file()] {
        assert_eq!(
            route("/bokeh-resource-dir/..", &resource),
            Err(ServeError::InvalidPath("/bokeh-resource-dir/..".to_string()))
        );
    }
}

#[test]
fn error_messages() {
    assert_eq!(ServeError::NotLocal.message(), "BokehResource is not Local");
    assert_eq!(
        ServeError::InvalidPath("/favicon.ico".to_string()).message(),
        "Invalid path /favicon.ico"
    );
    assert_eq!(ServeError::InvalidPath("".to_string()).message(), "Invalid path ");
    assert_eq!(
        ServeError::Failed("No such file or directory (os error 2)".to_string()).message(),
        "No such file or directory (os error 2)"
    );
}

#[test]
fn page_is_served_as_html() {
    for resource in [None, cdn(), folder("/opt/bokeh"), single_file()] {
        for platform in [HostPlatform::Windows, HostPlatform::Other] {
            let served = custom_protocol_handler("/", &resource, platform);
            assert_eq!(
                served,
                Ok(Served::Page(Response {
                    status: 200,
                    headers: vec![header("content-type", "text/html")],
                    body: build_bokeh_render_html(resource.clone()).into_bytes(),
                }))
            );
        }
    }
}

#[test]
fn script_is_served_with_javascript_type() {
    let request = file_request(
        "/bokeh-resource-dir/bokeh.min.js",
        &folder("/opt/bokeh"),
        HostPlatform::Other,
    );
    assert_eq!(
        request,
        FileRequest {
            folder_uri: "/opt/bokeh".to_string(),
            file_name: "bokeh.min.js".to_string(),
            content_type: "text/javascript".to_string(),
            allow_origin: "wry://render-bokeh".to_string(),
        }
    );
    assert!(request.content_type.contains("javascript"));
}

#[test]
fn media_type_follows_the_extension() {
    let resource = folder("/opt/bokeh");
    for (path, expected) in [
        ("/bokeh-resource-dir/style.css", "text/css"),
        ("/bokeh-resource-dir/data.json", "application/json"),
        ("/bokeh-resource-dir/picture.png", "image/png"),
        ("/bokeh-resource-dir/page.html", "text/html"),
        ("/bokeh-resource-dir/PAGE.HTML", "text/html"),
        ("/bokeh-resource-dir/module.wasm", "application/wasm"),
        ("/bokeh-resource-dir/notes.txt", "text/plain"),
    ] {
        assert_eq!(file_request(path, &resource, HostPlatform::Other).content_type, expected);
    }
}

#[test]
fn unknown_extension_is_plain_text() {
    let resource = folder("/opt/bokeh");
    for path in [
        "/bokeh-resource-dir/README",
        "/bokeh-resource-dir/file.no-such-extension",
        "/bokeh-resource-dir/.js",
        "/bokeh-resource-dir/trailing.",
    ] {
        assert_eq!(file_request(path, &resource, HostPlatform::Other).content_type, "text/plain");
    }
}

#[test]
fn media_type_is_the_first_guess_for_the_path() {
    let resource = folder("/opt/bokeh");
    for path in [
        "/bokeh-resource-dir/bokeh.min.js",
        "/bokeh-resource-dir/a.mjs",
        "/bokeh-resource-dir/a.svg",
        "/bokeh-resource-dir/a.tar.gz",
        "/bokeh-resource-dir//a.xml/",
        "/bokeh-resource-dir/a.unknown",
        "/bokeh-resource-dir/a",
    ] {
        let expected = match mime_guess::from_path(path).first() {
            Some(media_type) => media_type.to_string(),
            None => "text/plain".to_string(),
        };
        assert_eq!(file_request(path, &resource, HostPlatform::Other).content_type, expected);
    }
}

#[test]
fn content_type_defaults_to_plain_text() {
    assert_eq!(content_type_of(None), "text/plain");
    assert_eq!(content_type_of(Some("text/javascript".to_string())), "text/javascript");
    assert_eq!(content_type_of(Some("".to_string())), "");
}

#[test]
fn origin_depends_on_platform() {
    assert_eq!(origin_of(HostPlatform::Windows), "https://wry.render-bokeh");
    assert_eq!(origin_of(HostPlatform::Other), "wry://render-bokeh");
    let resource = folder("/opt/bokeh");
    assert_eq!(
        file_request("/bokeh-resource-dir/a.js", &resource, HostPlatform::Windows).allow_origin,
        "https://wry.render-bokeh"
    );
    assert_eq!(
        file_request("/bokeh-resource-dir/a.js", &resource, HostPlatform::Other).allow_origin,
        "wry://render-bokeh"
    );
}

#[test]
fn file_is_sent_byte_for_byte() {
    let content: Vec<u8> = (0..=255u8).chain([0, 255, 10, 13]).collect();
    let request = file_request(
        "/bokeh-resource-dir/bokeh.min.js",
        &folder("/opt/bokeh"),
        HostPlatform::Other,
    );
    let response = respond(serve_file(request, Ok(content.clone())));
    assert_eq!(
        response,
        Response {
            status: 200,
            headers: vec![
                header("content-type", "text/javascript"),
                header("access-control-allow-origin", "wry://render-bokeh"),
            ],
            body: content,
        }
    );
}

#[test]
fn empty_file_is_sent_empty() {
    let request = FileRequest {
        folder_uri: "/opt/bokeh".to_string(),
        file_name: "empty.css".to_string(),
        content_type: "text/css".to_string(),
        allow_origin: "https://wry.render-bokeh".to_string(),
    };
    assert_eq!(
        serve_file(request, Ok(vec![])),
        Ok(Response {
            status: 200,
            headers: vec![
                header("content-type", "text/css"),
                header("access-control-allow-origin", "https://wry.render-bokeh"),
            ],
            body: vec![],
        })
    );
}

#[test]
fn read_failure_is_reported() {
    let request = file_request(
        "/bokeh-resource-dir/missing.js",
        &folder("/opt/bokeh"),
        HostPlatform::Other,
    );
    let outcome = serve_file(request, Err("No such file or directory (os error 2)".to_string()));
    assert_eq!(
        outcome,
        Err(ServeError::Failed("No such file or directory (os error 2)".to_string()))
    );
    assert_eq!(
        respond(outcome),
        Response {
            status: 500,
            headers: vec![],
            body: b"No such file or directory (os error 2)".to_vec()
        }
    );
}

#[test]
fn invalid_path_is_answered_with_the_error() {
    assert_eq!(
        respond(Err(ServeError::InvalidPath("/\u{e9}".to_string()))),
        Response { status: 500, headers: vec![], body: "Invalid path /\u{e9}".as_bytes().to_vec() }
    );
}

#[test]
fn respond_keeps_an_answer_at_hand() {
    let response = Response {
        status: 200,
        headers: vec![header("content-type", "text/html")],
        body: b"<html></html>".to_vec(),
    };
    let copy = Response {
        status: 200,
        headers: vec![header("content-type", "text/html")],
        body: b"<html></html>".to_vec(),
    };
    assert_eq!(respond(Ok(response)), copy);
}

#[test]
fn statuses_and_header_names() {
    assert_eq!(STATUS_OK, 200);
    assert_eq!(STATUS_FAILED, 500);
    assert_eq!(CONTENT_TYPE, "content-type");
    assert_eq!(ALLOW_ORIGIN, "access-control-allow-origin");
}

#[test]
fn every_script_of_a_local_folder_is_served() {
    let resource = folder("/opt/bokeh");
    for name in ["bokeh.min.js", "bokeh-mathjax.min.js", "bokeh-api.min.js"] {
        let path = format!("/bokeh-resource-dir/{}", name);
        assert!(build_bokeh_render_html(resource.clone()).contains(&format!("src='{}'", path)));
        assert_eq!(
            route(&path, &resource),
            Ok(Route::File { folder_uri: "/opt/bokeh".to_string(), file_name: name.to_string() })
        );
    }
}
