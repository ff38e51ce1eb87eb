use crate::seqs::{first_match};
use crate::text::{chars_of, find_char, is_char, text_and_text, three_texts};
use vstd::prelude::*;
use vstd::string::*;

verus! {

/// What kind of message the compose dialog writes.
#[derive(Clone, Copy, Debug, PartialEq, Eq, Structural)]
pub enum ComposeMode {
    New,
    Reply,
    Forward,
}

/// A line without the carriage return at its end, if it has one.
pub open spec fn strip_cr(line: Seq<char>) -> Seq<char> {
    if line.len() > 0 && line.last() == '\r' {
        line.drop_last()
    } else {
        line
    }
}

/// The lines of a text. A line ends with a line feed, or with a carriage return and a
/// line feed; neither belongs to the line. What follows the last line feed is a line of
/// its own unless it is empty.
pub open spec fn spec_lines(s: Seq<char>) -> Seq<Seq<char>>
    decreases s.len(),
{
    if s.len() == 0 {
        Seq::empty()
    } else {
        match first_match(s, is_char('\n')) {
            Some(k) => if 0 <= k < s.len() {
                seq![strip_cr(s.subrange(0, k))] + spec_lines(s.subrange(k + 1, s.len() as int))
            } else {
                Seq::empty()
            },
            None => seq![s],
        }
    }
}

/// The bounds of the lines of `chars`, each as the places where it starts and ends.
pub fn line_bounds(chars: &Vec<char>) -> (out: Vec<(usize, usize)>)
    ensures
        out@.len() == spec_lines(chars@).len(),
        forall|i: int|
            0 <= i < out@.len() ==> (#[trigger] out@[i]).0 <= out@[i].1 <= chars.len()
                && chars@.subrange(out@[i].0 as int, out@[i].1 as int) == spec_lines(chars@)[i],
{
    let n = chars.len();
    let mut out: Vec<(usize, usize)> = Vec::new();
    let mut pos: usize = 0;
    let ghost mut done_lines: Seq<Seq<char>> = Seq::empty();
    proof {
        assert(chars@.subrange(0, n as int) =~= chars@);
    }
    while pos < n
        invariant
            pos <= n,
            n == chars.len(),
            out@.len() == done_lines.len(),
            done_lines + spec_lines(chars@.subrange(pos as int, n as int)) == spec_lines(chars@),
            forall|i: int|
                0 <= i < out@.len() ==> (#[trigger] out@[i]).0 <= out@[i].1 <= n && chars@.subrange(
                    out@[i].0 as int,
                    out@[i].1 as int,
                ) == done_lines[i],
        decreases n - pos,
    {
        let ghost s = chars@.subrange(pos as int, n as int);
        let ghost before = done_lines;
        match find_char(chars, pos, '\n') {
            Some(k) => {
                let end = if k > pos && chars[k - 1] == '\r' {
                    k - 1
                } else {
                    k
                };
                proof {
                    let raw = s.subrange(0, k - pos);
                    assert(raw =~= chars@.subrange(pos as int, k as int));
                    assert(strip_cr(raw) =~= chars@.subrange(pos as int, end as int));
                    assert(s.subrange(k - pos + 1, s.len() as int) =~= chars@.subrange(
                        k + 1,
                        n as int,
                    ));
                    done_lines = before.push(strip_cr(raw));
                    assert(before + (seq![strip_cr(raw)] + spec_lines(
                        chars@.subrange(k + 1, n as int),
                    )) =~= done_lines + spec_lines(chars@.subrange(k + 1, n as int)));
                }
                out.push((pos, end));
                pos = k + 1;
            },
            None => {
                proof {
                    done_lines = before.push(s);
                    assert(chars@.subrange(n as int, n as int) =~= Seq::<char>::empty());
                    assert(before + seq![s] =~= done_lines + spec_lines(
                        chars@.subrange(n as int, n as int),
                    ));
                }
                out.push((pos, n));
                pos = n;
            },
        }
    }
    proof {
        assert(chars@.subrange(n as int, n as int) =~= Seq::<char>::empty());
        assert(done_lines + Seq::<Seq<char>>::empty() =~= done_lines);
    }
    out
}

/// The lines of a quotation: each line of the body behind "> ", each ended by a line
/// feed.
pub open spec fn spec_quoted(lines: Seq<Seq<char>>) -> Seq<char>
    decreases lines.len(),
{
    if lines.len() == 0 {
        Seq::empty()
    } else {
        spec_quoted(lines.drop_last()) + "> "@ + lines.last() + "\n"@
    }
}

/// The text with which a reply starts: who wrote when, then the body as a quotation.
pub open spec fn spec_quote_body(body: Seq<char>, from: Seq<char>, date: Seq<char>) -> Seq<char> {
    "On "@ + date + ", "@ + from + " wrote:\n"@ + spec_quoted(spec_lines(body))
}

/// The text with which a reply starts.
pub fn quote_body(body: &str, from: &str, date: &str) -> (out: String)
    ensures
        out@ == spec_quote_body(body@, from@, date@),
{
    let mut out = String::from_str("On ");
    out.append(date);
    out.append(", ");
    out.append(from);
    out.append(" wrote:\n");
    let ghost head = out@;
    let chars = chars_of(body);
    let bounds = line_bounds(&chars);
    let ghost lines = spec_lines(body@);
    let mut i: usize = 0;
    proof {
        assert(lines.take(0) =~= Seq::<Seq<char>>::empty());
        assert(head + spec_quoted(lines.take(0)) =~= head);
    }
    while i < bounds.len()
        invariant
            i <= bounds.len(),
            chars@ == body@,
            lines == spec_lines(body@),
            bounds@.len() == lines.len(),
            forall|j: int|
                0 <= j < bounds@.len() ==> (#[trigger] bounds@[j]).0 <= bounds@[j].1 <= chars.len()
                    && chars@.subrange(bounds@[j].0 as int, bounds@[j].1 as int) == lines[j],
            out@ == head + spec_quoted(lines.take(i as int)),
        decreases bounds.len() - i,
    {
        let (a, b) = bounds[i];
        assert(bounds@[i as int] == (a, b));
        out.append("> ");
        out.append(body.substring_char(a, b));
        out.append("\n");
        proof {
            assert(lines.take(i + 1).drop_last() =~= lines.take(i as int));
            assert(lines.take(i + 1).last() == lines[i as int]);
            assert(out@ =~= head + spec_quoted(lines.take(i + 1)));
        }
        i = i + 1;
    }
    assert(lines.take(i as int) =~= lines);
    out
}

/// The text with which a forwarded message starts: a header with sender, date and
/// subject, then the body.
pub open spec fn spec_forward_body(
    body: Seq<char>,
    from: Seq<char>,
    date: Seq<char>,
    subject: Seq<char>,
) -> Seq<char> {
    "---------- Forwarded message ----------\n"@ + "From: "@ + from + "\n"@ + "Date: "@ + date
        + "\n"@ + "Subject: "@ + subject + "\n\n"@ + body
}

/// The text with which a forwarded message starts.
pub fn forward_body(body: &str, from: &str, date: &str, subject: &str) -> (out: String)
    ensures
        out@ == spec_forward_body(body@, from@, date@, subject@),
{
    let mut out = String::from_str("---------- Forwarded message ----------\n");
    out.append("From: ");
    out.append(from);
    out.append("\n");
    out.append("Date: ");
    out.append(date);
    out.append("\n");
    out.append("Subject: ");
    out.append(subject);
    out.append("\n\n");
    out.append(body);
    out
}

/// The references of a reply: what the answered message answered, then its own id.
pub open spec fn spec_build_references(in_reply_to: Option<Seq<char>>, message_id: Seq<char>) -> Seq<
    char,
> {
    match in_reply_to {
        Some(irt) => irt + " "@ + message_id,
        None => message_id,
    }
}

/// The references of a reply.
pub fn build_references(in_reply_to: Option<&str>, message_id: &str) -> (out: String)
    ensures
        out@ == spec_build_references(crate::mime::opt_str_view(in_reply_to), message_id@),
{
    match in_reply_to {
        Some(irt) => three_texts(irt, " ", message_id),
        None => String::from_str(message_id),
    }
}

/// Whether `s` starts with `prefix`.
pub open spec fn starts_with(s: Seq<char>, prefix: Seq<char>) -> bool {
    prefix.len() <= s.len() && s.subrange(0, prefix.len() as int) == prefix
}

/// Whether a text starts with another.
pub fn has_prefix(text: &str, prefix: &str) -> (r: bool)
    ensures
        r == starts_with(text@, prefix@),
{
    let t = chars_of(text);
    let p = chars_of(prefix);
    if p.len() > t.len() {
        return false;
    }
    let mut i: usize = 0;
    while i < p.len()
        invariant
            i <= p.len() <= t.len(),
            t@ == text@,
            p@ == prefix@,
            forall|j: int| 0 <= j < i ==> t@[j] == p@[j],
        decreases p.len() - i,
    {
        if t[i] != p[i] {
            assert(text@.subrange(0, prefix@.len() as int)[i as int] != prefix@[i as int]);
            return false;
        }
        i = i + 1;
    }
    assert(text@.subrange(0, prefix@.len() as int) =~= prefix@);
    true
}

/// The subject with a mark in front, unless it starts with the mark already.
pub open spec fn spec_marked_subject(subject: Seq<char>, mark: Seq<char>) -> Seq<char> {
    if starts_with(subject, mark) {
        subject
    } else {
        mark + subject
    }
}

/// The subject of a reply: the subject behind "Re: ", unless it starts so already.
pub fn reply_subject(subject: &str) -> (out: String)
    ensures
        out@ == spec_marked_subject(subject@, "Re: "@),
{
    if has_prefix(subject, "Re: ") {
        String::from_str(subject)
    } else {
        text_and_text("Re: ", subject)
    }
}

/// The subject of a forwarded message: the subject behind "Fwd: ", unless it starts so
/// already.
pub fn forward_subject(subject: &str) -> (out: String)
    ensures
        out@ == spec_marked_subject(subject@, "Fwd: "@),
{
    if has_prefix(subject, "Fwd: ") {
        String::from_str(subject)
    } else {
        text_and_text("Fwd: ", subject)
    }
}

/// A character with an upper-case letter of ASCII made lower case.
pub open spec fn ascii_lower(c: char) -> char {
    if 'A' <= c <= 'Z' {
        ((c as u8) + 32) as char
    } else {
        c
    }
}

/// A text with its upper-case letters of ASCII made lower case.
pub open spec fn lowered(s: Seq<char>) -> Seq<char> {
    Seq::new(s.len(), |i: int| ascii_lower(s[i]))
}

/// Whether a text is the given one, but for the case of the letters of ASCII.
pub fn lowered_is(text: &str, lower: &str) -> (r: bool)
    ensures
        r == (lowered(text@) == lower@),
{
    let t = chars_of(text);
    let p = chars_of(lower);
    if p.len() != t.len() {
        assert(lowered(text@).len() != lower@.len());
        return false;
    }
    let mut i: usize = 0;
    while i < p.len()
        invariant
            i <= p.len(),
            p.len() == t.len(),
            t@ == text@,
            p@ == lower@,
            forall|j: int| 0 <= j < i ==> ascii_lower(t@[j]) == p@[j],
        decreases p.len() - i,
    {
        let c = t[i];
        let l = if 'A' <= c && c <= 'Z' {
            ((c as u8) + 32) as char
        } else {
            c
        };
        if l != p[i] {
            assert(lowered(text@)[i as int] != lower@[i as int]);
            return false;
        }
        i = i + 1;
    }
    assert(lowered(text@) =~= lower@);
    true
}

/// The media type that goes with the extension of a file name, whatever the case of its
/// letters; for an extension that is not known, and for none, the type of arbitrary bytes.
pub open spec fn spec_mime_for(ext: Option<Seq<char>>) -> Seq<char> {
    match ext {
        None => "application/octet-stream"@,
        Some(e) => {
            let l = lowered(e);
            if l == "pdf"@ {
                "application/pdf"@
            } else if l == "zip"@ {
                "application/zip"@
            } else if l == "gz"@ || l == "gzip"@ {
                "application/gzip"@
            } else if l == "tar"@ {
                "application/x-tar"@
            } else if l == "png"@ {
                "image/png"@
            } else if l == "jpg"@ || l == "jpeg"@ {
                "image/jpeg"@
            } else if l == "gif"@ {
                "image/gif"@
            } else if l == "webp"@ {
                "image/webp"@
            } else if l == "svg"@ {
                "image/svg+xml"@
            } else if l == "txt"@ {
                "text/plain"@
            } else if l == "html"@ || l == "htm"@ {
                "text/html"@
            } else if l == "css"@ {
                "text/css"@
            } else if l == "csv"@ {
                "text/csv"@
            } else if l == "json"@ {
                "application/json"@
            } else if l == "xml"@ {
                "application/xml"@
            } else if l == "doc"@ {
                "application/msword"@
            } else if l == "docx"@ {
                "application/vnd.openxmlformats-officedocument.wordprocessingml.document"@
            } else if l == "xls"@ {
                "application/vnd.ms-excel"@
            } else if l == "xlsx"@ {
                "application/vnd.openxmlformats-officedocument.spreadsheetml.sheet"@
            } else if l == "odt"@ {
                "application/vnd.oasis.opendocument.text"@
            } else if l == "ods"@ {
                "application/vnd.oasis.opendocument.spreadsheet"@
            } else if l == "mp3"@ {
                "audio/mpeg"@
            } else if l == "mp4"@ {
                "video/mp4"@
            } else if l == "webm"@ {
                "video/webm"@
            } else {
                "application/octet-stream"@
            }
        },
    }
}

/// The media type that goes with the extension of a file name.
pub fn mime_for_extension(ext: Option<&str>) -> (r: &'static str)
    ensures
        r@ == spec_mime_for(crate::mime::opt_str_view(ext)),
{
    let e = match ext {
        Some(e) => e,
        None => {
            return "application/octet-stream";
        },
    };
    if lowered_is(e, "pdf") {
        "application/pdf"
    } else if lowered_is(e, "zip") {
        "application/zip"
    } else if lowered_is(e, "gz") || lowered_is(e, "gzip") {
        "application/gzip"
    } else if lowered_is(e, "tar") {
        "application/x-tar"
    } else if lowered_is(e, "png") {
        "image/png"
    } else if lowered_is(e, "jpg") || lowered_is(e, "jpeg") {
        "image/jpeg"
    } else if lowered_is(e, "gif") {
        "image/gif"
    } else if lowered_is(e, "webp") {
        "image/webp"
    } else if lowered_is(e, "svg") {
        "image/svg+xml"
    } else if lowered_is(e, "txt") {
        "text/plain"
    } else if lowered_is(e, "html") || lowered_is(e, "htm") {
        "text/html"
    } else if lowered_is(e, "css") {
        "text/css"
    } else if lowered_is(e, "csv") {
        "text/csv"
    } else if lowered_is(e, "json") {
        "application/json"
    } else if lowered_is(e, "xml") {
        "application/xml"
    } else if lowered_is(e, "doc") {
        "application/msword"
    } else if lowered_is(e, "docx") {
        "application/vnd.openxmlformats-officedocument.wordprocessingml.document"
    } else if lowered_is(e, "xls") {
        "application/vnd.ms-excel"
    } else if lowered_is(e, "xlsx") {
        "application/vnd.openxmlformats-officedocument.spreadsheetml.sheet"
    } else if lowered_is(e, "odt") {
        "application/vnd.oasis.opendocument.text"
    } else if lowered_is(e, "ods") {
        "application/vnd.oasis.opendocument.spreadsheet"
    } else if lowered_is(e, "mp3") {
        "audio/mpeg"
    } else if lowered_is(e, "mp4") {
        "video/mp4"
    } else if lowered_is(e, "webm") {
        "video/webm"
    } else {
        "application/octet-stream"
    }
}

/// Takes the extension of a path with `Path::extension` of the standard library: the
/// part of the file name behind its last dot, if the name has one that is not its first
/// character. How a path is split into names depends on the platform, so nothing is
/// claimed of the result.
#[verifier::external_body]
fn path_extension(path: &str) -> (r: Option<String>) {
    std::path::Path::new(path).extension().and_then(|e| e.to_str()).map(|e| e.to_string())
}

/// The media type that goes with a path, told by its extension.
pub fn mime_from_ext(path: &str) -> (r: &'static str)
    ensures
        exists|ext: Option<Seq<char>>| r@ == spec_mime_for(ext),
{
    let ext = path_extension(path);
    match &ext {
        Some(e) => {
            let r = mime_for_extension(Some(e.as_str()));
            assert(r@ == spec_mime_for(Some(e@)));
            r
        },
        None => {
            let r = mime_for_extension(None);
            assert(r@ == spec_mime_for(None));
            r
        },
    }
}

} // verus!
