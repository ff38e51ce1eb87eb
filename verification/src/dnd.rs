use crate::seqs::{first_match, lemma_first_match};
use crate::text::{
    chars_of, decimal, is_digit, lemma_decimal_digits, lemma_parse_decimal_roundtrip, parse_u64,
    spec_decimal, result_text_view, spec_parse_int, str_eq, IntFault,
};
use vstd::prelude::*;
use vstd::string::*;
use vstd::utf8::*;

verus! {

/// The media type under which file managers hand over a list of dropped files.
pub const URI_LIST_MIME: &'static str = "text/uri-list";

/// The media type under which a message travels while it is dragged to a folder.
pub const NEVERLIGHT_MAIL_MIME: &'static str = "application/x-neverlight-mail-message";

/// The error of the standard library for bytes that are not UTF-8.
#[verifier::external_type_specification]
#[verifier::external_body]
pub struct ExFromUtf8Error(std::string::FromUtf8Error);

/// Decodes bytes as UTF-8 text with `String::from_utf8` of the standard library. The call
/// succeeds exactly on well-formed UTF-8 and then gives the decoded characters.
#[verifier::external_body]
fn string_from_utf8(bytes: Vec<u8>) -> (r: Result<String, std::string::FromUtf8Error>)
    ensures
        r is Ok <==> valid_utf8(bytes@),
        r matches Ok(s) ==> s@ == decode_utf8(bytes@),
{
    String::from_utf8(bytes)
}

/// The text of a decoding error, as `to_string` of the standard library gives it. The
/// text is the standard library's own and nothing is claimed of it.
#[verifier::external_body]
fn utf8_error_text(e: &std::string::FromUtf8Error) -> (s: String) {
    e.to_string()
}

/// Files dropped from outside, as the text of a URI list.
#[derive(Debug)]
pub struct DraggedFiles(pub String);

impl Clone for DraggedFiles {
    fn clone(&self) -> (r: Self)
        ensures
            r.0@ == self.0@,
    {
        DraggedFiles(self.0.clone())
    }
}

impl DraggedFiles {
    /// The media types that a drop of files may have: the URI list alone.
    pub fn allowed() -> (r: Vec<String>)
        ensures
            r@.len() == 1,
            r@[0]@ == URI_LIST_MIME@,
    {
        let mut r: Vec<String> = Vec::new();
        r.push(String::from_str(URI_LIST_MIME));
        r
    }

    /// Takes dropped bytes as a URI list. The bytes must be UTF-8; the media type is not
    /// looked at.
    pub fn try_from(value: (Vec<u8>, String)) -> (r: Result<DraggedFiles, String>)
        ensures
            r is Ok <==> valid_utf8(value.0@),
            r matches Ok(files) ==> files.0@ == decode_utf8(value.0@),
    {
        let (bytes, _mime) = value;
        match string_from_utf8(bytes) {
            Ok(s) => Ok(DraggedFiles(s)),
            Err(e) => Err(utf8_error_text(&e)),
        }
    }
}

/// A message that is being dragged to another folder.
#[derive(Clone, Copy, Debug, PartialEq, Eq, Structural)]
pub struct DraggedMessage {
    pub envelope_hash: u64,
    pub source_mailbox: u64,
}

/// The text that carries a dragged message: the two numbers in decimal, with a colon between.
pub open spec fn spec_wire_text(m: DraggedMessage) -> Seq<char> {
    spec_decimal(m.envelope_hash as nat) + seq![':'] + spec_decimal(m.source_mailbox as nat)
}

/// The message that the standard library gives for each fault of a number.
pub open spec fn spec_fault_text(f: IntFault) -> Seq<char> {
    match f {
        IntFault::Empty => "cannot parse integer from empty string"@,
        IntFault::InvalidDigit => "invalid digit found in string"@,
        IntFault::PosOverflow => "number too large to fit in target type"@,
    }
}

/// The test for the character that separates the two numbers.
pub open spec fn is_colon() -> spec_fn(char) -> bool {
    |c: char| c == ':'
}

/// What reading `s` as a dragged message gives: the text is split at its first colon and
/// each side is read as a number, the left one first.
pub open spec fn spec_dragged_from_text(s: Seq<char>) -> Result<DraggedMessage, Seq<char>> {
    match first_match(s, is_colon()) {
        None => Err("missing ':' separator"@),
        Some(k) => match spec_parse_int(s.subrange(0, k)) {
            Err(f) => Err(spec_fault_text(f)),
            Ok(a) => match spec_parse_int(s.subrange(k + 1, s.len() as int)) {
                Err(f) => Err(spec_fault_text(f)),
                Ok(b) => Ok(DraggedMessage { envelope_hash: a, source_mailbox: b }),
            },
        },
    }
}

fn fault_text(f: IntFault) -> (s: String)
    ensures
        s@ == spec_fault_text(f),
{
    match f {
        IntFault::Empty => String::from_str("cannot parse integer from empty string"),
        IntFault::InvalidDigit => String::from_str("invalid digit found in string"),
        IntFault::PosOverflow => String::from_str("number too large to fit in target type"),
    }
}

/// The position of the first colon among `chars`.
fn find_colon(chars: &Vec<char>) -> (r: Option<usize>)
    ensures
        match r {
            Some(k) => k < chars.len() && first_match(chars@, is_colon()) == Some(k as int),
            None => first_match(chars@, is_colon()) is None,
        },
{
    let mut i: usize = 0;
    while i < chars.len()
        invariant
            i <= chars.len(),
            forall|j: int| 0 <= j < i ==> !is_colon()(#[trigger] chars@[j]),
        decreases chars.len() - i,
    {
        if chars[i] == ':' {
            proof {
                lemma_first_match(chars@, is_colon(), Some(i as int));
            }
            return Some(i);
        }
        i = i + 1;
    }
    proof {
        lemma_first_match(chars@, is_colon(), None);
    }
    None
}

impl DraggedMessage {
    /// The media types under which a dragged message is offered: the mail type alone.
    pub fn available(&self) -> (r: Vec<String>)
        ensures
            r@.len() == 1,
            r@[0]@ == NEVERLIGHT_MAIL_MIME@,
    {
        let mut r: Vec<String> = Vec::new();
        r.push(String::from_str(NEVERLIGHT_MAIL_MIME));
        r
    }

    /// The media types that a drop of a message may have: the mail type alone.
    pub fn allowed() -> (r: Vec<String>)
        ensures
            r@.len() == 1,
            r@[0]@ == NEVERLIGHT_MAIL_MIME@,
    {
        let mut r: Vec<String> = Vec::new();
        r.push(String::from_str(NEVERLIGHT_MAIL_MIME));
        r
    }

    /// The bytes that carry this message under `mime_type`: the wire text in UTF-8 for the
    /// mail type, nothing for any other.
    pub fn as_bytes(&self, mime_type: &str) -> (r: Option<Vec<u8>>)
        ensures
            mime_type@ == NEVERLIGHT_MAIL_MIME@ ==> r is Some && r->0@ == encode_utf8(
                spec_wire_text(*self),
            ),
            mime_type@ != NEVERLIGHT_MAIL_MIME@ ==> r is None,
    {
        if str_eq(mime_type, NEVERLIGHT_MAIL_MIME) {
            let mut s = decimal(self.envelope_hash);
            s.append(":");
            let b = decimal(self.source_mailbox);
            s.append(b.as_str());
            proof {
                reveal_strlit(":");
                assert(":"@ =~= seq![':']);
            }
            Some(s.as_str().as_bytes_vec())
        } else {
            None
        }
    }

    /// Reads a dragged message back from its bytes. The media type is not looked at.
    pub fn try_from(value: (Vec<u8>, String)) -> (r: Result<DraggedMessage, String>)
        ensures
            !valid_utf8(value.0@) ==> r is Err,
            valid_utf8(value.0@) ==> result_text_view(r) == spec_dragged_from_text(
                decode_utf8(value.0@),
            ),
    {
        let (bytes, _mime) = value;
        let s = match string_from_utf8(bytes) {
            Ok(s) => s,
            Err(e) => {
                return Err(utf8_error_text(&e));
            },
        };
        let chars = chars_of(s.as_str());
        let k = match find_colon(&chars) {
            Some(k) => k,
            None => {
                return Err(String::from_str("missing ':' separator"));
            },
        };
        let a = match parse_u64(&chars, 0, k) {
            Ok(a) => a,
            Err(f) => {
                return Err(fault_text(f));
            },
        };
        let b = match parse_u64(&chars, k + 1, chars.len()) {
            Ok(b) => b,
            Err(f) => {
                return Err(fault_text(f));
            },
        };
        Ok(DraggedMessage { envelope_hash: a, source_mailbox: b })
    }
}

/// A dragged message that is written to bytes and read back is the same message.
pub proof fn lemma_dragged_message_roundtrip(m: DraggedMessage)
    ensures
        valid_utf8(encode_utf8(spec_wire_text(m))),
        spec_dragged_from_text(decode_utf8(encode_utf8(spec_wire_text(m)))) == Ok::<
            DraggedMessage,
            Seq<char>,
        >(m),
{
    let a = spec_decimal(m.envelope_hash as nat);
    let b = spec_decimal(m.source_mailbox as nat);
    let s = spec_wire_text(m);
    encode_utf8_valid_utf8(s);
    encode_utf8_decode_utf8(s);
    lemma_decimal_digits(m.envelope_hash as nat);
    lemma_parse_decimal_roundtrip(m.envelope_hash);
    lemma_parse_decimal_roundtrip(m.source_mailbox);
    let p = is_colon();
    let k = a.len() as int;
    assert(s[k] == ':');
    assert forall|j: int| 0 <= j < k implies !p(#[trigger] s[j]) by {
        assert(s[j] == a[j]);
        assert(is_digit(a[j]));
    }
    lemma_first_match(s, p, Some(k));
    assert(s.subrange(0, k) =~= a);
    assert(s.subrange(k + 1, s.len() as int) =~= b);
}

} // verus!
