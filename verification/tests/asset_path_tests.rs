use bokeh_helpers::asset_path::asset_file_name;
use std::path::PathBuf;

/// What a path names when it is read as a path of the file system, on a
/// system whose separator is the slash.
fn by_components(uri: &str) -> Option<String> {
    let path = PathBuf::from(uri);
    if path.parent() == Some(&PathBuf::from("/bokeh-resource-dir")) {
        path.file_name().map(|name| name.to_str().unwrap().to_string())
    } else {
        None
    }
}

fn some(name: &str) -> Option<String> {
    Some(name.to_string())
}

#[test]
fn plain_asset_paths() {
    assert_eq!(asset_file_name("/bokeh-resource-dir/bokeh.min.js"), some("bokeh.min.js"));
    assert_eq!(asset_file_name("/bokeh-resource-dir/bokeh-api.min.js"), some("bokeh-api.min.js"));
    assert_eq!(
        asset_file_name("/bokeh-resource-dir/bokeh-mathjax.min.js"),
        some("bokeh-mathjax.min.js")
    );
    assert_eq!(asset_file_name("/bokeh-resource-dir/x"), some("x"));
    assert_eq!(asset_file_name("/bokeh-resource-dir/..."), some("..."));
    assert_eq!(asset_file_name("/bokeh-resource-dir/.hidden"), some(".hidden"));
    assert_eq!(asset_file_name("/bokeh-resource-dir/a b%20c"), some("a b%20c"));
    assert_eq!(asset_file_name("/bokeh-resource-dir/\u{e9}t\u{e9}.js"), some("\u{e9}t\u{e9}.js"));
}

#[test]
fn segments_that_say_nothing_are_skipped() {
    assert_eq!(asset_file_name("/bokeh-resource-dir//bokeh.min.js"), some("bokeh.min.js"));
    assert_eq!(asset_file_name("//bokeh-resource-dir/bokeh.min.js"), some("bokeh.min.js"));
    assert_eq!(asset_file_name("/./bokeh-resource-dir/./bokeh.min.js"), some("bokeh.min.js"));
    assert_eq!(asset_file_name("/bokeh-resource-dir/bokeh.min.js/"), some("bokeh.min.js"));
    assert_eq!(asset_file_name("/bokeh-resource-dir/bokeh.min.js/."), some("bokeh.min.js"));
    assert_eq!(asset_file_name("/bokeh-resource-dir/bokeh.min.js/.//"), some("bokeh.min.js"));
}

#[test]
fn paths_that_ask_for_no_file() {
    for path in [
        "",
        "/",
        "//",
        "/.",
        "/..",
        "/bokeh-resource-dir",
        "/bokeh-resource-dir/",
        "/bokeh-resource-dir/.",
        "/bokeh-resource-dir/..",
        "/bokeh-resource-dir/../",
        "/bokeh-resource-dir/a/b",
        "/bokeh-resource-dir/a/..",
        "/bokeh-resource-dir/../a",
        "/../bokeh-resource-dir/a",
        "bokeh-resource-dir/a",
        "./bokeh-resource-dir/a",
        "/bokeh-resource-dirs/a",
        "/bokeh-resource-di/a",
        "/Bokeh-Resource-Dir/a",
        "/other/a",
        "/a",
        "/index.html",
        "\\bokeh-resource-dir\\a",
        "/bokeh-resource-dir\\a",
    ] {
        assert_eq!(asset_file_name(path), None, "{}", path);
    }
}

#[test]
fn file_names_are_plain() {
    for path in [
        "/bokeh-resource-dir/bokeh.min.js",
        "/bokeh-resource-dir//a/",
        "/./bokeh-resource-dir/./b/./",
        "/bokeh-resource-dir/...",
        "/bokeh-resource-dir/..a",
    ] {
        let name = asset_file_name(path).unwrap();
        assert!(!name.is_empty());
        assert!(!name.contains('/'));
        assert_ne!(name, ".");
        assert_ne!(name, "..");
    }
}

#[test]
fn agrees_with_the_components_of_a_path() {
    let pieces = ["", "/", ".", "..", "bokeh-resource-dir", "a.js", "//", "/./", "b", "..."];
    let mut paths: Vec<String> = Vec::new();
    for a in pieces {
        for b in pieces {
            for c in pieces {
                for d in pieces {
                    paths.push(format!("{}{}{}{}", a, b, c, d));
                    paths.push(format!("/{}/{}/{}/{}", a, b, c, d));
                }
            }
        }
    }
    let mut accepted = 0;
    for path in paths {
        let expected = by_components(&path);
        if expected.is_some() {
            accepted += 1;
        }
        assert_eq!(asset_file_name(&path), expected, "{}", path);
    }
    assert!(accepted > 0);
}
