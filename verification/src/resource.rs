//! Where BokehJS is loaded from, and the `<script>` tags that load it.

use vstd::prelude::*;
use vstd::string::*;
use vstd::utf8::*;

use crate::occurrences::{
    is_clear_of, lemma_clear_text_holds_no_word, lemma_no_occurrence_without_first,
    lemma_occurrences_of_joined, occurrences, occurrences_below, occurs_at, tail_is_clear_of,
};

verus! {

/// BokehJS served by the Bokeh CDN in a given release.
pub struct BokehCDNResource {
    pub version: String,
}

/// BokehJS read from a folder on the local disk, through the content server.
pub struct BokehLocalResource {
    pub folder_uri: String,
}

/// BokehJS as a single script that the page loads straight from its URI.
pub struct BokehLocalFileResource {
    pub file_uri: String,
}

/// The source of the BokehJS scripts of one render.
pub enum BokehResource {
    CDN(BokehCDNResource),
    Local(BokehLocalResource),
    LocalFile(BokehLocalFileResource),
}

impl Clone for BokehCDNResource {
    fn clone(&self) -> (res: Self)
        ensures
            res == *self,
    {
        BokehCDNResource { version: self.version.clone() }
    }
}

impl Clone for BokehLocalResource {
    fn clone(&self) -> (res: Self)
        ensures
            res == *self,
    {
        BokehLocalResource { folder_uri: self.folder_uri.clone() }
    }
}

impl Clone for BokehLocalFileResource {
    fn clone(&self) -> (res: Self)
        ensures
            res == *self,
    {
        BokehLocalFileResource { file_uri: self.file_uri.clone() }
    }
}

impl Clone for BokehResource {
    fn clone(&self) -> (res: Self)
        ensures
            res == *self,
    {
        match self {
            BokehResource::CDN(cdn) => BokehResource::CDN(cdn.clone()),
            BokehResource::Local(local) => BokehResource::Local(local.clone()),
            BokehResource::LocalFile(file) => BokehResource::LocalFile(file.clone()),
        }
    }
}

/// The mathematical value of a resource choice.
pub enum ResourceSpec {
    Cdn { version: Seq<char> },
    LocalFolder { uri: Seq<char> },
    LocalFile { uri: Seq<char> },
}

impl View for BokehResource {
    type V = ResourceSpec;

    open spec fn view(&self) -> ResourceSpec {
        match *self {
            BokehResource::CDN(cdn) => ResourceSpec::Cdn { version: cdn.version@ },
            BokehResource::Local(local) => ResourceSpec::LocalFolder { uri: local.folder_uri@ },
            BokehResource::LocalFile(file) => ResourceSpec::LocalFile { uri: file.file_uri@ },
        }
    }
}

/// The release that is loaded when the caller names no resource.
pub const DEFAULT_CDN_VERSION: &'static str = "3.5.2";

/// Where every release lives on the CDN, up to the bundle's name.
pub const CDN_RELEASE_URL: &'static str = "https://cdn.bokeh.org/bokeh/release/";

/// The first segment of the path under which the content server hands out
/// the files of a local folder.
pub const RESOURCE_DIR: &'static str = "bokeh-resource-dir";

/// What stands in a script tag before the address of the script.
pub const SCRIPT_TAG_OPEN: &'static str = "<script type='text/javascript' src='";

/// How every script tag starts.
pub const SCRIPT_TAG_START: &'static str = "<script";

/// What stands in a script tag after the address of the script.
pub const SCRIPT_TAG_CLOSE: &'static str = "'></script>";

/// The indent of the tags that load from the CDN.
pub const CDN_INDENT: &'static str = "        ";

/// The indent of the tags that load local scripts.
pub const LOCAL_INDENT: &'static str = "            ";

/// The resource in force for an optional choice: no choice means the CDN in
/// its default release.
pub open spec fn active_resource(resource: Option<BokehResource>) -> ResourceSpec {
    match resource {
        Some(r) => r@,
        None => ResourceSpec::Cdn { version: DEFAULT_CDN_VERSION@ },
    }
}

/// One tag that loads the script at `src`.
pub open spec fn script_tag(src: Seq<char>) -> Seq<char> {
    SCRIPT_TAG_OPEN@ + src + SCRIPT_TAG_CLOSE@
}

/// One indented line per source, in order, each holding the tag of that
/// source and ending in a line break.
pub open spec fn script_lines(indent: Seq<char>, sources: Seq<Seq<char>>) -> Seq<char>
    decreases sources.len(),
{
    if sources.len() == 0 {
        Seq::empty()
    } else {
        script_lines(indent, sources.drop_last()) + indent + script_tag(sources.last()) + "\n"@
    }
}

/// A fragment of HTML: a line break, the lines of tags, and the indent of
/// whatever follows the fragment.
pub open spec fn script_block(indent: Seq<char>, sources: Seq<Seq<char>>) -> Seq<char> {
    "\n"@ + script_lines(indent, sources) + indent
}

/// The address of one bundle of a release on the CDN; `bundle` is empty for
/// the core bundle and `"-api"` or `"-mathjax"` for the others.
pub open spec fn cdn_bundle_url(bundle: Seq<char>, version: Seq<char>) -> Seq<char> {
    CDN_RELEASE_URL@ + "bokeh"@ + bundle + "-"@ + version + ".min.js"@
}

/// The address, on the content server, of a file of the local folder.
pub open spec fn local_bundle_url(file_name: Seq<char>) -> Seq<char> {
    "/"@ + RESOURCE_DIR@ + "/"@ + file_name
}

/// The addresses of the scripts that a page loads for a resource, in the
/// order of their tags: three bundles from the CDN or from the local folder,
/// one script for a local file.
pub open spec fn script_sources(resource: ResourceSpec) -> Seq<Seq<char>> {
    match resource {
        ResourceSpec::Cdn { version } => seq![
            cdn_bundle_url(""@, version),
            cdn_bundle_url("-api"@, version),
            cdn_bundle_url("-mathjax"@, version),
        ],
        ResourceSpec::LocalFolder { uri } => seq![
            local_bundle_url("bokeh.min.js"@),
            local_bundle_url("bokeh-mathjax.min.js"@),
            local_bundle_url("bokeh-api.min.js"@),
        ],
        ResourceSpec::LocalFile { uri } => seq![uri],
    }
}

/// The indent in front of each tag of a resource.
pub open spec fn script_indent(resource: ResourceSpec) -> Seq<char> {
    match resource {
        ResourceSpec::Cdn { .. } => CDN_INDENT@,
        _ => LOCAL_INDENT@,
    }
}

/// The HTML that loads BokehJS from a resource.
pub open spec fn resource_script_html(resource: ResourceSpec) -> Seq<char> {
    script_block(script_indent(resource), script_sources(resource))
}

/// The views of a list of strings.
pub open spec fn texts(strings: Seq<String>) -> Seq<Seq<char>> {
    strings.map_values(|s: String| s@)
}

/// Writes the fragment that loads `sources`, one tag per line.
fn write_script_block(indent: &str, sources: &Vec<String>) -> (html: String)
    ensures
        html@ == script_block(indent@, texts(sources@)),
{
    let mut html = String::from_str("\n");
    let mut i: usize = 0;
    while i < sources.len()
        invariant
            i <= sources.len(),
            html@ == "\n"@ + script_lines(indent@, texts(sources@).take(i as int)),
        decreases sources.len() - i,
    {
        proof {
            let next = texts(sources@).take(i + 1);
            assert(next.drop_last() == texts(sources@).take(i as int));
            assert(next.last() == sources[i as int]@);
        }
        html.append(indent);
        html.append(SCRIPT_TAG_OPEN);
        html.append(sources[i].as_str());
        html.append(SCRIPT_TAG_CLOSE);
        html.append("\n");
        i = i + 1;
    }
    proof {
        assert(texts(sources@).take(i as int) == texts(sources@));
    }
    html.append(indent);
    html
}

fn cdn_bundle(bundle: &str, version: &str) -> (url: String)
    ensures
        url@ == cdn_bundle_url(bundle@, version@),
{
    String::from_str(CDN_RELEASE_URL).concat("bokeh").concat(bundle).concat("-").concat(
        version,
    ).concat(".min.js")
}

fn local_bundle(file_name: &str) -> (url: String)
    ensures
        url@ == local_bundle_url(file_name@),
{
    String::from_str("/").concat(RESOURCE_DIR).concat("/").concat(file_name)
}

/// The tags that load the three bundles of release `version` from the CDN.
/// The version goes into the addresses as it is given.
pub fn bokeh_cdn_as_script_html(version: &str) -> (html: String)
    ensures
        html@ == resource_script_html(ResourceSpec::Cdn { version: version@ }),
{
    let mut sources: Vec<String> = Vec::new();
    sources.push(cdn_bundle("", version));
    sources.push(cdn_bundle("-api", version));
    sources.push(cdn_bundle("-mathjax", version));
    assert(texts(sources@) == script_sources(ResourceSpec::Cdn { version: version@ }));
    write_script_block(CDN_INDENT, &sources)
}

/// The tags that load BokehJS from `resource`; without a resource, from the
/// CDN in its default release.
pub fn bokeh_resource_as_script_html(resource: Option<BokehResource>) -> (html: String)
    ensures
        html@ == resource_script_html(active_resource(resource)),
{
    match resource {
        Some(BokehResource::CDN(BokehCDNResource { version })) => bokeh_cdn_as_script_html(
            version.as_str(),
        ),
        Some(BokehResource::Local(_)) => {
            let mut sources: Vec<String> = Vec::new();
            sources.push(local_bundle("bokeh.min.js"));
            sources.push(local_bundle("bokeh-mathjax.min.js"));
            sources.push(local_bundle("bokeh-api.min.js"));
            assert(texts(sources@) == script_sources(active_resource(resource)));
            write_script_block(LOCAL_INDENT, &sources)
        },
        Some(BokehResource::LocalFile(BokehLocalFileResource { file_uri })) => {
            let mut sources: Vec<String> = Vec::new();
            sources.push(file_uri);
            assert(texts(sources@) == script_sources(active_resource(resource)));
            write_script_block(LOCAL_INDENT, &sources)
        },
        None => bokeh_cdn_as_script_html(DEFAULT_CDN_VERSION),
    }
}

/// A page loads three scripts for a resource, but for a local file, for
/// which it loads one.
pub proof fn lemma_script_source_count(resource: ResourceSpec)
    ensures
        script_sources(resource).len() == (if resource is LocalFile {
            1nat
        } else {
            3nat
        }),
{
}

/// Written out, the fragment for a single script is a line break, the indent,
/// the tag, a line break and the indent again.
pub proof fn lemma_script_block_of_one(indent: Seq<char>, src: Seq<char>)
    ensures
        script_block(indent, seq![src]) == "\n"@ + indent + script_tag(src) + "\n"@ + indent,
{
    let sources = seq![src];
    assert(sources.drop_last() == Seq::<Seq<char>>::empty());
    assert(script_lines(indent, sources.drop_last()) == Seq::<char>::empty());
    assert(script_lines(indent, sources) == indent + script_tag(src) + "\n"@);
}

/// Written out, the fragment for three scripts holds their three tags in
/// order, each on an indented line of its own.
pub proof fn lemma_script_block_of_three(
    indent: Seq<char>,
    first: Seq<char>,
    second: Seq<char>,
    third: Seq<char>,
)
    ensures
        script_block(indent, seq![first, second, third]) == "\n"@ + indent + script_tag(first)
            + "\n"@ + indent + script_tag(second) + "\n"@ + indent + script_tag(third) + "\n"@
            + indent,
{
    let three = seq![first, second, third];
    let two = seq![first, second];
    let one = seq![first];
    assert(three.drop_last() == two);
    assert(two.drop_last() == one);
    assert(one.drop_last() == Seq::<Seq<char>>::empty());
    assert(script_lines(indent, one.drop_last()) == Seq::<char>::empty());
    assert(script_lines(indent, one) == indent + script_tag(first) + "\n"@);
    assert(script_lines(indent, two) == script_lines(indent, one) + indent + script_tag(second)
        + "\n"@);
    assert(script_lines(indent, three) == script_lines(indent, two) + indent + script_tag(third)
        + "\n"@);
}

/// Without a resource the page loads what it loads for the CDN in its
/// default release.
pub proof fn lemma_default_resource_is_cdn(resource: BokehResource)
    requires
        resource@ == (ResourceSpec::Cdn { version: DEFAULT_CDN_VERSION@ }),
    ensures
        resource_script_html(active_resource(None)) == resource_script_html(
            active_resource(Some(resource)),
        ),
{
}

/// Resolving the same resource twice gives the same text, and so the same
/// bytes; a resource and its clone are the same resource.
pub proof fn lemma_resolve_is_deterministic(
    first: String,
    second: String,
    resource: Option<BokehResource>,
    again: Option<BokehResource>,
)
    requires
        active_resource(resource) == active_resource(again),
        first@ == resource_script_html(active_resource(resource)),
        second@ == resource_script_html(active_resource(again)),
    ensures
        first@ == second@,
        encode_utf8(first@) == encode_utf8(second@),
{
}

/// Whether the addresses that a page loads for a resource hold no `<`, so
/// that none of them can pass for the start of a tag: the release of a CDN
/// resource, or the URI of a local file, holds none.
pub open spec fn has_plain_addresses(resource: ResourceSpec) -> bool {
    match resource {
        ResourceSpec::Cdn { version } => is_clear_of(version, '<'),
        ResourceSpec::LocalFolder { uri } => true,
        ResourceSpec::LocalFile { uri } => is_clear_of(uri, '<'),
    }
}

/// The line that loads one script holds the start of a tag once, and does
/// not end in a `<`.
proof fn lemma_one_tag_in_a_line(indent: Seq<char>, src: Seq<char>)
    requires
        is_clear_of(indent, '<'),
        is_clear_of(src, '<'),
    ensures
        occurrences(indent + script_tag(src) + "\n"@, SCRIPT_TAG_START@) == 1,
        tail_is_clear_of(indent + script_tag(src) + "\n"@, '<', 6),
        (indent + script_tag(src) + "\n"@).len() >= 6,
{
    reveal_strlit("<script type='text/javascript' src='");
    reveal_strlit("'></script>");
    reveal_strlit("<script");
    reveal_strlit("\n");
    let word = SCRIPT_TAG_START@;
    let open = SCRIPT_TAG_OPEN@;
    let close = SCRIPT_TAG_CLOSE@ + "\n"@;
    assert(word[0] == '<');

    assert(occurrences(close, word) == 0) by {
        lemma_no_occurrence_without_first(close, word, 0, 2);
        assert(!occurs_at(close, word, 2)) by {
            if occurs_at(close, word, 2) {
                assert(close.subrange(2, 9)[1] == close[3]);
            }
        }
        assert(occurrences_below(close, word, 3) == occurrences_below(close, word, 2));
        lemma_no_occurrence_without_first(close, word, 3, close.len() as int);
    }
    assert(occurrences(open, word) == 1) by {
        assert(open.subrange(0, 7) =~= word);
        assert(occurs_at(open, word, 0));
        assert(occurrences_below(open, word, 0) == 0);
        assert(occurrences_below(open, word, 1) == 1);
        lemma_no_occurrence_without_first(open, word, 1, open.len() as int);
    }
    lemma_clear_text_holds_no_word(src, word);
    lemma_clear_text_holds_no_word(indent, word);
    lemma_occurrences_of_joined(src, close, word);
    lemma_occurrences_of_joined(open, src + close, word);
    lemma_occurrences_of_joined(indent, open + (src + close), word);
    let line = indent + script_tag(src) + "\n"@;
    assert(line =~= indent + (open + (src + close)));
    assert forall|i: int| 0 <= i < line.len() && line.len() - 6 <= i implies line[i] != '<' by {
        assert(line[i] == close[i - (line.len() - close.len())]);
    }
}

/// A line break and the lines that load a list of scripts hold the start of
/// a tag once for each script.
proof fn lemma_one_tag_for_each_line(indent: Seq<char>, sources: Seq<Seq<char>>)
    requires
        is_clear_of(indent, '<'),
        forall|k: int| 0 <= k < sources.len() ==> is_clear_of(#[trigger] sources[k], '<'),
    ensures
        occurrences("\n"@ + script_lines(indent, sources), SCRIPT_TAG_START@) == sources.len(),
        tail_is_clear_of("\n"@ + script_lines(indent, sources), '<', 6),
    decreases sources.len(),
{
    reveal_strlit("<script");
    reveal_strlit("\n");
    let word = SCRIPT_TAG_START@;
    if sources.len() == 0 {
        assert("\n"@ + script_lines(indent, sources) =~= "\n"@);
        lemma_clear_text_holds_no_word("\n"@, word);
    } else {
        let before = "\n"@ + script_lines(indent, sources.drop_last());
        let line = indent + script_tag(sources.last()) + "\n"@;
        lemma_one_tag_for_each_line(indent, sources.drop_last());
        lemma_one_tag_in_a_line(indent, sources.last());
        lemma_occurrences_of_joined(before, line, word);
        let whole = "\n"@ + script_lines(indent, sources);
        assert(whole =~= before + line);
        assert forall|i: int| 0 <= i < whole.len() && whole.len() - 6 <= i implies whole[i]
            != '<' by {
            assert(whole[i] == line[i - before.len()]);
        }
    }
}

/// A fragment whose indent and addresses hold no `<` holds the start of a
/// script tag exactly once for each address.
pub proof fn lemma_script_block_tag_count(indent: Seq<char>, sources: Seq<Seq<char>>)
    requires
        is_clear_of(indent, '<'),
        forall|k: int| 0 <= k < sources.len() ==> is_clear_of(#[trigger] sources[k], '<'),
    ensures
        occurrences(script_block(indent, sources), SCRIPT_TAG_START@) == sources.len(),
{
    reveal_strlit("<script");
    let word = SCRIPT_TAG_START@;
    lemma_one_tag_for_each_line(indent, sources);
    lemma_clear_text_holds_no_word(indent, word);
    lemma_occurrences_of_joined("\n"@ + script_lines(indent, sources), indent, word);
}

/// The HTML for a resource with plain addresses holds the start of a script
/// tag exactly three times, and exactly once for a local file.
pub proof fn lemma_script_tags_are_counted(resource: ResourceSpec)
    requires
        has_plain_addresses(resource),
    ensures
        occurrences(resource_script_html(resource), SCRIPT_TAG_START@) == (if resource
            is LocalFile {
            1nat
        } else {
            3nat
        }),
{
    reveal_strlit("        ");
    reveal_strlit("            ");
    reveal_strlit("https://cdn.bokeh.org/bokeh/release/");
    reveal_strlit("bokeh-resource-dir");
    reveal_strlit("bokeh");
    reveal_strlit("");
    reveal_strlit("-api");
    reveal_strlit("-mathjax");
    reveal_strlit("-");
    reveal_strlit(".min.js");
    reveal_strlit("/");
    reveal_strlit("bokeh.min.js");
    reveal_strlit("bokeh-mathjax.min.js");
    reveal_strlit("bokeh-api.min.js");
    let sources = script_sources(resource);
    let indent = script_indent(resource);
    assert(is_clear_of(indent, '<'));
    assert forall|k: int| 0 <= k < sources.len() implies is_clear_of(
        #[trigger] sources[k],
        '<',
    ) by {
        match resource {
            ResourceSpec::Cdn { version } => {
                let bundle = if k == 0 {
                    ""@
                } else if k == 1 {
                    "-api"@
                } else {
                    "-mathjax"@
                };
                assert(sources[k] == cdn_bundle_url(bundle, version));
                let url = sources[k];
                let lead = CDN_RELEASE_URL@ + "bokeh"@ + bundle + "-"@;
                assert(is_clear_of(lead, '<'));
                assert(url =~= lead + version + ".min.js"@);
                assert forall|i: int| 0 <= i < url.len() implies url[i] != '<' by {
                    if i < lead.len() {
                        assert(url[i] == lead[i]);
                    } else if i < lead.len() + version.len() {
                        assert(url[i] == version[i - lead.len()]);
                    } else {
                        assert(url[i] == ".min.js"@[i - lead.len() - version.len()]);
                    }
                }
            },
            ResourceSpec::LocalFolder { uri } => {
                assert(is_clear_of(sources[k], '<'));
            },
            ResourceSpec::LocalFile { uri } => {},
        }
    }
    lemma_script_block_tag_count(indent, sources);
}

} // verus!
