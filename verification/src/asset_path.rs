//! The paths under which the content server hands out the files of a local
//! folder: `/bokeh-resource-dir/<file name>`.
//!
//! A path is read as a run of segments between slashes. Empty segments and
//! segments that are a single dot say nothing, so `/a//b`, `/a/./b` and
//! `/a/b/` all name what `/a/b` names.

use vstd::prelude::*;
use vstd::string::*;

use crate::resource::RESOURCE_DIR;
use crate::text::chars_of;

verus! {

/// The segments of a text: the runs of characters between its slashes. A
/// text with n slashes has n + 1 segments, empty ones among them where a
/// slash stands first, last or next to another.
pub open spec fn segments(text: Seq<char>) -> Seq<Seq<char>>
    decreases text.len(),
{
    if text.len() == 0 {
        seq![Seq::empty()]
    } else {
        let before = segments(text.drop_last());
        if text.last() == '/' {
            before.push(Seq::empty())
        } else {
            before.drop_last().push(before.last().push(text.last()))
        }
    }
}

/// Whether a segment names anything: it is not empty and not a single dot.
pub open spec fn is_named(segment: Seq<char>) -> bool {
    segment.len() > 0 && segment != seq!['.']
}

/// Of a list of segments, those that name something, in order.
pub open spec fn named_only(segs: Seq<Seq<char>>) -> Seq<Seq<char>> {
    segs.filter(|segment: Seq<char>| is_named(segment))
}

/// The components of a path: its segments that name something.
pub open spec fn components(path: Seq<char>) -> Seq<Seq<char>> {
    named_only(segments(path))
}

/// Whether a path starts at the root.
pub open spec fn is_rooted(path: Seq<char>) -> bool {
    path.len() > 0 && path[0] == '/'
}

/// The segment that steps up to the parent.
pub open spec fn parent_segment() -> Seq<char> {
    seq!['.', '.']
}

/// The file that a path asks for, where it asks for a file of the resource
/// directory: it starts at the root and has two components, the directory's
/// name and the file's, and the file's is not a step up to the parent.
pub open spec fn asset_name(path: Seq<char>) -> Option<Seq<char>> {
    let parts = components(path);
    if is_rooted(path) && parts.len() == 2 && parts[0] == RESOURCE_DIR@ && parts[1]
        != parent_segment() {
        Some(parts[1])
    } else {
        None
    }
}

/// Whether a name can stand as the last segment of a path and be read back
/// as a file name: it is not empty, holds no slash, and is neither a dot nor
/// two dots.
pub open spec fn is_plain_name(name: Seq<char>) -> bool {
    is_named(name) && name != parent_segment() && !name.contains('/')
}

/// A text has at least one segment.
pub proof fn lemma_segments_nonempty(text: Seq<char>)
    ensures
        segments(text).len() >= 1,
    decreases text.len(),
{
    if text.len() > 0 {
        lemma_segments_nonempty(text.drop_last());
    }
}

/// No segment holds a slash.
pub proof fn lemma_segments_hold_no_slash(text: Seq<char>)
    ensures
        forall|k: int| 0 <= k < segments(text).len() ==> !(#[trigger] segments(text)[k]).contains('/'),
    decreases text.len(),
{
    if text.len() > 0 {
        lemma_segments_nonempty(text.drop_last());
        lemma_segments_hold_no_slash(text.drop_last());
        let before = segments(text.drop_last());
        if text.last() != '/' {
            let grown = before.last().push(text.last());
            assert forall|j: int| 0 <= j < grown.len() implies grown[j] != '/' by {
                if j < before.last().len() {
                    assert(before.last().contains(before.last()[j]));
                }
            }
        }
    }
}

/// A text without a slash is its own single segment.
pub proof fn lemma_segments_of_name(name: Seq<char>)
    requires
        !name.contains('/'),
    ensures
        segments(name) == seq![name],
    decreases name.len(),
{
    if name.len() > 0 {
        let shorter = name.drop_last();
        assert forall|j: int| 0 <= j < shorter.len() implies shorter[j] != '/' by {
            assert(name.contains(name[j]));
        }
        lemma_segments_of_name(shorter);
        assert(name.contains(name.last()));
        assert(shorter.push(name.last()) == name);
        assert(segments(name) == seq![name]);
    } else {
        assert(name == Seq::<char>::empty());
    }
}

/// The segments of two texts joined by a slash are the segments of the one
/// followed by the segments of the other.
pub proof fn lemma_segments_of_joined(front: Seq<char>, back: Seq<char>)
    ensures
        segments(front + seq!['/'] + back) == segments(front) + segments(back),
    decreases back.len(),
{
    let joined = front + seq!['/'] + back;
    lemma_segments_nonempty(back);
    if back.len() == 0 {
        assert(joined.drop_last() == front);
        assert(segments(back) == seq![Seq::<char>::empty()]);
        assert(segments(joined) == segments(front).push(Seq::empty()));
    } else {
        let shorter = back.drop_last();
        assert(joined.drop_last() == front + seq!['/'] + shorter);
        assert(joined.last() == back.last());
        lemma_segments_of_joined(front, shorter);
        lemma_segments_nonempty(shorter);
        let before = segments(front) + segments(shorter);
        if back.last() == '/' {
            assert(before.push(Seq::empty()) == segments(front) + segments(shorter).push(
                Seq::empty(),
            ));
        } else {
            assert(before.last() == segments(shorter).last());
            assert(before.drop_last() == segments(front) + segments(shorter).drop_last());
            assert(before.drop_last().push(before.last().push(back.last())) == segments(front)
                + segments(shorter).drop_last().push(segments(shorter).last().push(back.last())));
        }
    }
}

/// The named segments of a list with one more segment at its end.
pub proof fn lemma_named_only_push(segs: Seq<Seq<char>>, segment: Seq<char>)
    ensures
        named_only(segs.push(segment)) == if is_named(segment) {
            named_only(segs).push(segment)
        } else {
            named_only(segs)
        },
{
    reveal(Seq::filter);
    assert(segs.push(segment).drop_last() == segs);
}

/// The file name that a path asks for is a plain name: with it, no path
/// leaves the folder that it is looked up in.
pub proof fn lemma_asset_name_is_plain(path: Seq<char>)
    requires
        asset_name(path) is Some,
    ensures
        is_plain_name(asset_name(path)->0),
{
    let segs = segments(path);
    let pred = |segment: Seq<char>| is_named(segment);
    let name = components(path)[1];
    segs.lemma_filter_pred(pred, 1);
    segs.lemma_filter_contains_rev(pred, name);
    lemma_segments_hold_no_slash(path);
    let k = choose|k: int| 0 <= k < segs.len() && segs[k] == name;
    assert(!segs[k].contains('/'));
}

/// The path made of the resource directory and a plain name asks for the
/// file of that name.
pub proof fn lemma_asset_path_of_plain_name(name: Seq<char>)
    requires
        is_plain_name(name),
    ensures
        asset_name(seq!['/'] + RESOURCE_DIR@ + seq!['/'] + name) == Some(name),
{
    reveal_strlit("bokeh-resource-dir");
    let dir = RESOURCE_DIR@;
    let empty = Seq::<char>::empty();
    let path = seq!['/'] + dir + seq!['/'] + name;
    assert(!dir.contains('/'));
    lemma_segments_of_name(dir);
    lemma_segments_of_name(name);
    lemma_segments_of_joined(empty, dir);
    assert(empty + seq!['/'] + dir == seq!['/'] + dir);
    lemma_segments_of_joined(seq!['/'] + dir, name);
    assert(segments(empty) == seq![empty]);
    let segs = segments(path);
    assert(segs == seq![empty, dir, name]);
    let none = Seq::<Seq<char>>::empty();
    assert(segs == none.push(empty).push(dir).push(name));
    assert(named_only(none) == none) by {
        reveal(Seq::filter);
    }
    lemma_named_only_push(none, empty);
    lemma_named_only_push(none.push(empty), dir);
    lemma_named_only_push(none.push(empty).push(dir), name);
    assert(components(path) == seq![dir, name]);
    assert(path[0] == '/');
}

/// Whether the characters from `start` up to `end` are a named segment.
fn names_something(chars: &Vec<char>, start: usize, end: usize) -> (named: bool)
    requires
        start <= end <= chars.len(),
    ensures
        named == is_named(chars@.subrange(start as int, end as int)),
{
    let segment = Ghost(chars@.subrange(start as int, end as int));
    if end == start {
        false
    } else if end - start == 1 && chars[start] == '.' {
        assert(segment@ =~= seq!['.']);
        false
    } else {
        assert(segment@[0] == chars[start as int]);
        true
    }
}

/// Where in a path its components stand: for each, the positions of its
/// first character and of the one after its last.
fn component_spans(chars: &Vec<char>) -> (spans: Vec<(usize, usize)>)
    ensures
        spans@.len() == components(chars@).len(),
        forall|k: int|
            0 <= k < spans@.len() ==> {
                &&& (#[trigger] spans@[k]).0 <= spans@[k].1 <= chars@.len()
                &&& chars@.subrange(spans@[k].0 as int, spans@[k].1 as int) == components(
                    chars@,
                )[k]
            },
{
    let mut spans: Vec<(usize, usize)> = Vec::new();
    let mut start: usize = 0;
    let mut i: usize = 0;
    proof {
        assert(chars@.take(0) == Seq::<char>::empty());
        assert(segments(chars@.take(0)).drop_last() == Seq::<Seq<char>>::empty());
        assert(named_only(Seq::<Seq<char>>::empty()) == Seq::<Seq<char>>::empty()) by {
            reveal(Seq::filter);
        }
        assert(chars@.subrange(0, 0) == Seq::<char>::empty());
    }
    while i < chars.len()
        invariant
            start <= i <= chars.len(),
            segments(chars@.take(i as int)).len() >= 1,
            chars@.subrange(start as int, i as int) == segments(chars@.take(i as int)).last(),
            spans@.len() == named_only(segments(chars@.take(i as int)).drop_last()).len(),
            forall|k: int|
                0 <= k < spans@.len() ==> {
                    &&& (#[trigger] spans@[k]).0 <= spans@[k].1 <= chars@.len()
                    &&& chars@.subrange(spans@[k].0 as int, spans@[k].1 as int) == named_only(
                        segments(chars@.take(i as int)).drop_last(),
                    )[k]
                },
        decreases chars.len() - i,
    {
        let ghost before = segments(chars@.take(i as int));
        let ghost grown = chars@.take(i + 1);
        proof {
            assert(grown.drop_last() == chars@.take(i as int));
            assert(grown.last() == chars@[i as int]);
            lemma_segments_nonempty(grown);
        }
        if chars[i] == '/' {
            let named = names_something(chars, start, i);
            proof {
                assert(segments(grown) == before.push(Seq::empty()));
                assert(segments(grown).drop_last() == before);
                assert(before == before.drop_last().push(before.last()));
                lemma_named_only_push(before.drop_last(), before.last());
            }
            if named {
                spans.push((start, i));
            }
            start = i + 1;
            proof {
                assert(chars@.subrange(start as int, start as int) == Seq::<char>::empty());
            }
        } else {
            proof {
                assert(segments(grown) == before.drop_last().push(
                    before.last().push(chars@[i as int]),
                ));
                assert(segments(grown).drop_last() == before.drop_last());
                assert(chars@.subrange(start as int, i + 1) == chars@.subrange(
                    start as int,
                    i as int,
                ).push(chars@[i as int]));
            }
        }
        i = i + 1;
    }
    let named = names_something(chars, start, i);
    proof {
        assert(chars@.take(i as int) == chars@);
        let all = segments(chars@);
        assert(all == all.drop_last().push(all.last()));
        lemma_named_only_push(all.drop_last(), all.last());
    }
    if named {
        spans.push((start, i));
    }
    spans
}

/// Whether the characters from `start` up to `end` spell `word`.
fn spells(chars: &Vec<char>, start: usize, end: usize, word: &Vec<char>) -> (same: bool)
    requires
        start <= end <= chars.len(),
    ensures
        same == (chars@.subrange(start as int, end as int) == word@),
{
    let ghost segment = chars@.subrange(start as int, end as int);
    if end - start != word.len() {
        return false;
    }
    let mut j: usize = 0;
    while j < word.len()
        invariant
            start <= end <= chars.len(),
            end - start == word.len(),
            j <= word.len(),
            segment == chars@.subrange(start as int, end as int),
            forall|k: int| 0 <= k < j ==> segment[k] == word@[k],
        decreases word.len() - j,
    {
        if chars[start + j] != word[j] {
            assert(segment[j as int] != word@[j as int]);
            return false;
        }
        j = j + 1;
    }
    assert(segment =~= word@);
    true
}

/// The file that a request path asks for, if it asks for a file of the
/// resource directory.
pub fn asset_file_name(path: &str) -> (name: Option<String>)
    ensures
        match name {
            Some(n) => asset_name(path@) == Some(n@),
            None => asset_name(path@) is None,
        },
{
    let chars = chars_of(path);
    if chars.len() == 0 || chars[0] != '/' {
        return None;
    }
    let spans = component_spans(&chars);
    if spans.len() != 2 {
        return None;
    }
    let dir = chars_of(RESOURCE_DIR);
    let (dir_start, dir_end) = spans[0];
    let (start, end) = spans[1];
    if !spells(&chars, dir_start, dir_end, &dir) {
        return None;
    }
    let mut parent: Vec<char> = Vec::new();
    parent.push('.');
    parent.push('.');
    assert(parent@ == parent_segment());
    if spells(&chars, start, end, &parent) {
        return None;
    }
    let name = path.substring_char(start, end);
    Some(String::from_str(name))
}

} // verus!
