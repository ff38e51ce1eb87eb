use crate::seqs::view_all;
use crate::text::opt_view;
use vstd::prelude::*;
use vstd::string::*;

verus! {

/// The columns to which HTML is wrapped when it is rendered as plain text.
pub const TEXT_WIDTH: usize = 80;

/// What is shown for a message without a body that can be displayed.
pub const NO_CONTENT: &'static str = "[No displayable content]";

/// The HTML that `ammonia` leaves of HTML when only the given tags are allowed.
pub uninterp spec fn sanitized_html(html: Seq<char>, tags: Set<Seq<char>>) -> Seq<char>;

/// The set of the texts of a list.
pub open spec fn text_set(items: Seq<String>) -> Set<Seq<char>> {
    Set::new(|t: Seq<char>| exists|i: int| 0 <= i < items.len() && (#[trigger] items[i])@ == t)
}

/// Cleans HTML with `ammonia::Builder::new().tags(..).clean(..)`, which keeps the text
/// and of the markup only the given tags with the attributes that the defaults of
/// `ammonia` allow. The result depends on the HTML and the set of tags alone; the
/// contract gives it a name and says nothing more of it. `ammonia` panics where `script`
/// or `style` is among the allowed tags, so these are not to be given.
#[verifier::external_body]
fn ammonia_clean(html: &str, tags: &Vec<String>) -> (r: String)
    requires
        !text_set(tags@).contains("script"@),
        !text_set(tags@).contains("style"@),
    ensures
        r@ == sanitized_html(html@, text_set(tags@)),
{
    let allowed: std::collections::HashSet<&str> = tags.iter().map(|t| t.as_str()).collect();
    ammonia::Builder::new().tags(allowed).clean(html).to_string()
}

/// The view of an optional string slice.
pub open spec fn opt_str_view(s: Option<&str>) -> Option<Seq<char>> {
    match s {
        Some(t) => Some(t@),
        None => None,
    }
}

/// The plain body that is shown: the plain part where there is one; else the rendering
/// of the HTML part, empty where rendering failed; else a note that there is nothing.
/// `rendered` is `None` where the message has no HTML part, and otherwise what the
/// renderer gave for it.
pub open spec fn spec_plain_body(plain: Option<Seq<char>>, rendered: Option<Option<Seq<char>>>) -> Seq<
    char,
> {
    match plain {
        Some(p) => p,
        None => match rendered {
            Some(Some(t)) => t,
            Some(None) => Seq::empty(),
            None => NO_CONTENT@,
        },
    }
}

/// The Markdown body that is shown: the conversion of the HTML part where there is one;
/// else the plain part; else a note that there is nothing. `converted` is `None` where
/// the message has no HTML part, and otherwise the Markdown that was made of the
/// cleaned HTML.
pub open spec fn spec_markdown_body(plain: Option<Seq<char>>, converted: Option<Seq<char>>) -> Seq<
    char,
> {
    match converted {
        Some(md) => md,
        None => match plain {
            Some(p) => p,
            None => NO_CONTENT@,
        },
    }
}

/// The view of what the renderer gave for an optional HTML part.
pub open spec fn rendered_view(r: Option<Option<String>>) -> Option<Option<Seq<char>>> {
    match r {
        Some(t) => Some(opt_view(t)),
        None => None,
    }
}

/// Chooses the plain body from the plain part and what the renderer gave for the HTML
/// part.
pub fn plain_body_from(text_plain: Option<&str>, rendered: Option<Option<String>>) -> (r: String)
    ensures
        r@ == spec_plain_body(opt_str_view(text_plain), rendered_view(rendered)),
{
    match text_plain {
        Some(p) => String::from_str(p),
        None => match rendered {
            Some(Some(t)) => t,
            Some(None) => String::new(),
            None => String::from_str(NO_CONTENT),
        },
    }
}

/// Chooses the Markdown body from the plain part and the conversion of the HTML part.
pub fn markdown_body_from(text_plain: Option<&str>, converted: Option<String>) -> (r: String)
    ensures
        r@ == spec_markdown_body(opt_str_view(text_plain), opt_view(converted)),
{
    match converted {
        Some(md) => md,
        None => match text_plain {
            Some(p) => String::from_str(p),
            None => String::from_str(NO_CONTENT),
        },
    }
}

/// The HTML that has to be rendered for the plain body: the HTML part, unless there is a
/// plain part, which is then shown as it is.
pub fn html_to_render<'a>(text_plain: Option<&str>, text_html: Option<&'a str>) -> (r: Option<
    &'a str,
>)
    ensures
        r == (if text_plain is None {
            text_html
        } else {
            None
        }),
{
    match text_plain {
        Some(_) => None,
        None => text_html,
    }
}

/// The tags that are kept of the HTML of a message: those that carry meaning and that
/// Markdown can express. Layout tables, images and styles go; their text stays.
pub open spec fn spec_semantic_tags() -> Seq<Seq<char>> {
    seq![
        "p"@,
        "br"@,
        "hr"@,
        "blockquote"@,
        "pre"@,
        "h1"@,
        "h2"@,
        "h3"@,
        "h4"@,
        "h5"@,
        "h6"@,
        "b"@,
        "strong"@,
        "i"@,
        "em"@,
        "code"@,
        "s"@,
        "del"@,
        "u"@,
        "small"@,
        "sub"@,
        "sup"@,
        "ul"@,
        "ol"@,
        "li"@,
        "a"@,
    ]
}

/// The tags that are kept of the HTML of a message.
pub fn semantic_tags() -> (tags: Vec<String>)
    ensures
        view_all(tags@) == spec_semantic_tags(),
        !text_set(tags@).contains("script"@),
        !text_set(tags@).contains("style"@),
{
    let mut tags: Vec<String> = Vec::new();
    tags.push(String::from_str("p"));
    tags.push(String::from_str("br"));
    tags.push(String::from_str("hr"));
    tags.push(String::from_str("blockquote"));
    tags.push(String::from_str("pre"));
    tags.push(String::from_str("h1"));
    tags.push(String::from_str("h2"));
    tags.push(String::from_str("h3"));
    tags.push(String::from_str("h4"));
    tags.push(String::from_str("h5"));
    tags.push(String::from_str("h6"));
    tags.push(String::from_str("b"));
    tags.push(String::from_str("strong"));
    tags.push(String::from_str("i"));
    tags.push(String::from_str("em"));
    tags.push(String::from_str("code"));
    tags.push(String::from_str("s"));
    tags.push(String::from_str("del"));
    tags.push(String::from_str("u"));
    tags.push(String::from_str("small"));
    tags.push(String::from_str("sub"));
    tags.push(String::from_str("sup"));
    tags.push(String::from_str("ul"));
    tags.push(String::from_str("ol"));
    tags.push(String::from_str("li"));
    tags.push(String::from_str("a"));
    proof {
        assert(view_all(tags@) =~= spec_semantic_tags());
        reveal_strlit("p");
        reveal_strlit("br");
        reveal_strlit("hr");
        reveal_strlit("blockquote");
        reveal_strlit("pre");
        reveal_strlit("h1");
        reveal_strlit("h2");
        reveal_strlit("h3");
        reveal_strlit("h4");
        reveal_strlit("h5");
        reveal_strlit("h6");
        reveal_strlit("b");
        reveal_strlit("strong");
        reveal_strlit("i");
        reveal_strlit("em");
        reveal_strlit("code");
        reveal_strlit("s");
        reveal_strlit("del");
        reveal_strlit("u");
        reveal_strlit("small");
        reveal_strlit("sub");
        reveal_strlit("sup");
        reveal_strlit("ul");
        reveal_strlit("ol");
        reveal_strlit("li");
        reveal_strlit("a");
        reveal_strlit("script");
        reveal_strlit("style");
        assert forall|i: int| 0 <= i < tags@.len() implies (#[trigger] tags@[i])@ != "script"@ && tags@[i]@
            != "style"@ by {
            let t = tags@[i]@;
            assert(t == spec_semantic_tags()[i]);
            assert("script"@.len() == 6 && "script"@[1] == 'c');
            assert("style"@.len() == 5 && "style"@[1] == 't');
            assert(t.len() != 6 || t[1] != 'c');
            assert(t.len() != 5 || t[1] != 't');
        }
    }
    tags
}

/// Strips the HTML of a message down to what carries meaning: the text stays, and of
/// the markup only the semantic tags. Layout tables, images, scripts and styles go.
pub fn clean_email_html(html: &str) -> (clean: String)
    ensures
        clean@ == sanitized_html(html@, spec_semantic_tags().to_set()),
{
    let tags = semantic_tags();
    proof {
        assert(text_set(tags@) =~= spec_semantic_tags().to_set()) by {
            assert forall|t: Seq<char>| text_set(tags@).contains(t)
                <==> spec_semantic_tags().to_set().contains(t) by {
                if text_set(tags@).contains(t) {
                    let i = choose|i: int| 0 <= i < tags@.len() && (#[trigger] tags@[i])@ == t;
                    assert(view_all(tags@)[i] == t);
                    assert(spec_semantic_tags().contains(t));
                }
                if spec_semantic_tags().to_set().contains(t) {
                    assert(spec_semantic_tags().contains(t));
                    let i = choose|i: int|
                        0 <= i < spec_semantic_tags().len() && spec_semantic_tags()[i] == t;
                    assert(view_all(tags@)[i] == tags@[i]@);
                }
            }
        }
    }
    ammonia_clean(html, &tags)
}

} // verus!
