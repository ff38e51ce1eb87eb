use crate::compose::{line_bounds, spec_lines};
use crate::seqs::view_all;
use crate::text::{chars_of, opt_view, spec_trim, trim_bounds};
use vstd::prelude::*;
use vstd::string::*;

verus! {

/// Whether a line of a URI list, without the white space around it, names something:
/// it is not empty and is no comment.
pub open spec fn is_candidate(line: Seq<char>) -> bool {
    line.len() > 0 && line[0] != '#'
}

/// The lines of a URI list that name something, each without the white space around it.
pub open spec fn spec_candidates(lines: Seq<Seq<char>>) -> Seq<Seq<char>>
    decreases lines.len(),
{
    if lines.len() == 0 {
        Seq::empty()
    } else {
        let rest = spec_candidates(lines.drop_last());
        let t = spec_trim(lines.last());
        if is_candidate(t) {
            rest.push(t)
        } else {
            rest
        }
    }
}

/// The values that are there, in their order.
pub open spec fn spec_present(items: Seq<Option<Seq<char>>>) -> Seq<Seq<char>>
    decreases items.len(),
{
    if items.len() == 0 {
        Seq::empty()
    } else {
        let rest = spec_present(items.drop_last());
        match items.last() {
            Some(v) => rest.push(v),
            None => rest,
        }
    }
}

/// The views of a list of optional texts.
pub open spec fn opt_views(items: Seq<Option<String>>) -> Seq<Option<Seq<char>>> {
    Seq::new(items.len(), |i: int| opt_view(items[i]))
}

/// The lines of a URI list that name something.
pub fn uri_candidates(uri_list: &str) -> (out: Vec<String>)
    ensures
        view_all(out@) == spec_candidates(spec_lines(uri_list@)),
{
    let chars = chars_of(uri_list);
    let bounds = line_bounds(&chars);
    let ghost lines = spec_lines(uri_list@);
    let mut out: Vec<String> = Vec::new();
    let mut i: usize = 0;
    proof {
        assert(lines.take(0) =~= Seq::<Seq<char>>::empty());
        assert(view_all(out@) =~= spec_candidates(lines.take(0)));
    }
    while i < bounds.len()
        invariant
            i <= bounds.len(),
            chars@ == uri_list@,
            lines == spec_lines(uri_list@),
            bounds@.len() == lines.len(),
            forall|j: int|
                0 <= j < bounds@.len() ==> (#[trigger] bounds@[j]).0 <= bounds@[j].1 <= chars.len()
                    && chars@.subrange(bounds@[j].0 as int, bounds@[j].1 as int) == lines[j],
            view_all(out@) == spec_candidates(lines.take(i as int)),
        decreases bounds.len() - i,
    {
        let (from, to) = bounds[i];
        assert(bounds@[i as int] == (from, to));
        let (a, b) = trim_bounds(&chars, from, to);
        let ghost before = view_all(out@);
        proof {
            assert(lines.take(i + 1).drop_last() =~= lines.take(i as int));
            assert(lines.take(i + 1).last() == lines[i as int]);
        }
        if a < b && chars[a] != '#' {
            assert(chars@.subrange(a as int, b as int)[0] == chars@[a as int]);
            out.push(String::from_str(uri_list.substring_char(a, b)));
            assert(view_all(out@) =~= before.push(chars@.subrange(a as int, b as int)));
        } else {
            if a < b {
                assert(chars@.subrange(a as int, b as int)[0] == chars@[a as int]);
            }
        }
        i = i + 1;
    }
    assert(lines.take(i as int) =~= lines);
    out
}

/// A parsed URL of the `url` crate.
#[verifier::external_type_specification]
#[verifier::external_body]
pub struct ExUrl(url::Url);

/// Parses a text as a URL with `url::Url::parse`, which succeeds or fails by the text
/// alone: the contract names its success and claims nothing of the URL itself.
#[verifier::external_body]
fn parse_url(text: &str) -> (r: Option<url::Url>)
    ensures
        r is Some <==> parses_as_url(text@),
{
    url::Url::parse(text).ok()
}

/// Turns a URL into a local path with `Url::to_file_path`, which gives none for a host
/// that is not local. Paths depend on the platform: nothing is claimed of the result.
#[verifier::external_body]
fn url_to_file_path(url: &url::Url) -> (r: Option<String>) {
    url.to_file_path().ok().map(|p| p.to_string_lossy().into_owned())
}

/// The path of the local file that a URI names, if it names one. A text that is no URL
/// names none; for a URL the answer is that of the URL library.
fn file_uri_to_path(uri: &str) -> (r: Option<String>)
    ensures
        !parses_as_url(uri@) ==> r is None,
{
    match parse_url(uri) {
        Some(url) => url_to_file_path(&url),
        None => None,
    }
}

/// Whether `url::Url::parse` takes a text for an absolute URL.
pub uninterp spec fn parses_as_url(text: Seq<char>) -> bool;

/// Whether `resolved` can be what was found for the lines `candidates`: there is one
/// answer for each line, and a path was found only for lines that are URLs.
pub open spec fn found_for(candidates: Seq<Seq<char>>, resolved: Seq<Option<Seq<char>>>) -> bool {
    &&& resolved.len() == candidates.len()
    &&& forall|i: int|
        0 <= i < resolved.len() && (#[trigger] resolved[i]) is Some ==> parses_as_url(
            candidates[i],
        )
}

/// The paths that were found, in their order.
pub fn collect_paths(resolved: Vec<Option<String>>) -> (out: Vec<String>)
    ensures
        view_all(out@) == spec_present(opt_views(resolved@)),
{
    let ghost items = opt_views(resolved@);
    let mut out: Vec<String> = Vec::new();
    let mut i: usize = 0;
    proof {
        assert(items.take(0) =~= Seq::<Option<Seq<char>>>::empty());
        assert(view_all(out@) =~= spec_present(items.take(0)));
    }
    while i < resolved.len()
        invariant
            i <= resolved.len(),
            items == opt_views(resolved@),
            view_all(out@) == spec_present(items.take(i as int)),
        decreases resolved.len() - i,
    {
        let ghost before = view_all(out@);
        proof {
            assert(items.take(i + 1).drop_last() =~= items.take(i as int));
            assert(items.take(i + 1).last() == opt_view(resolved@[i as int]));
        }
        match &resolved[i] {
            Some(p) => {
                out.push(p.clone());
                assert(view_all(out@) =~= before.push(p@));
            },
            None => {},
        }
        i = i + 1;
    }
    assert(items.take(i as int) =~= items);
    out
}

/// The local paths that a URI list names. Blank lines and comments are passed over, and
/// so is every line that is no URL or names no local file. Which URLs name a local file
/// is for the URL library to say; what is certain is that the result holds, in order,
/// what it found for the lines that name something, and that it found nothing for a
/// line that is no URL.
pub fn parse_uri_list(uri_list: &str) -> (out: Vec<String>)
    ensures
        exists|resolved: Seq<Option<Seq<char>>>|
            found_for(spec_candidates(spec_lines(uri_list@)), resolved) && view_all(out@)
                == #[trigger] spec_present(resolved),
{
    let candidates = uri_candidates(uri_list);
    let ghost lines = view_all(candidates@);
    assert(lines.len() == candidates.len());
    let mut resolved: Vec<Option<String>> = Vec::new();
    let mut i: usize = 0;
    while i < candidates.len()
        invariant
            i <= candidates.len(),
            resolved.len() == i,
            lines == view_all(candidates@),
            forall|j: int|
                0 <= j < i && (#[trigger] resolved@[j]) is Some ==> parses_as_url(lines[j]),
        decreases candidates.len() - i,
    {
        assert(lines[i as int] == candidates@[i as int]@);
        resolved.push(file_uri_to_path(candidates[i].as_str()));
        i = i + 1;
    }
    let ghost views = opt_views(resolved@);
    let out = collect_paths(resolved);
    proof {
        assert forall|j: int| 0 <= j < views.len() && (#[trigger] views[j]) is Some implies parses_as_url(
            lines[j],
        ) by {
            assert(views[j] is Some ==> resolved@[j] is Some);
        }
        assert(found_for(spec_candidates(spec_lines(uri_list@)), views));
        assert(view_all(out@) == spec_present(views));
    }
    out
}

} // verus!
