//! Talking to a chat server that streams its answer as server-sent events.

use crate::ollama::endpoint;
use crate::text::{has_prefix, str_is_empty, str_starts_with, to_chars, from_chars_range, matches_at, trim, trim_bounds};
use vstd::prelude::*;

verus! {

/// One message of a chat, with pictures for models that see.
#[derive(Debug, Clone)]
pub struct OpenAiMessage {
    pub role: String,
    pub content: String,
    /// The pictures, each in base64 without a prefix.
    pub images: Vec<String>,
}

impl OpenAiMessage {
    /// A message without pictures.
    pub fn text(role: &str, content: &str) -> (m: OpenAiMessage)
        ensures
            m.role@ == role@,
            m.content@ == content@,
            m.images@.len() == 0,
    {
        OpenAiMessage {
            role: String::from_str(role),
            content: String::from_str(content),
            images: Vec::new(),
        }
    }

    /// A message with pictures.
    pub fn with_images(role: &str, content: &str, images: Vec<String>) -> (m: OpenAiMessage)
        ensures
            m.role@ == role@,
            m.content@ == content@,
            m.images == images,
    {
        OpenAiMessage { role: String::from_str(role), content: String::from_str(content), images }
    }
}

/// The address to which a chat is sent.
pub fn completions_url(base_url: &str) -> (url: String)
    ensures
        url@ == endpoint(base_url@, "/v1/chat/completions"@),
{
    crate::ollama::endpoint_url(base_url, "/v1/chat/completions")
}

/// The kind of picture that base64 text begins like; a picture that
/// begins like none of the known kinds is taken for a JPEG.
pub open spec fn mime_of(image: Seq<char>) -> Seq<char> {
    if has_prefix(image, "/9j/"@) {
        "image/jpeg"@
    } else if has_prefix(image, "iVBORw0KGgo"@) {
        "image/png"@
    } else if has_prefix(image, "R0lGOD"@) {
        "image/gif"@
    } else if has_prefix(image, "UklGR"@) {
        "image/webp"@
    } else {
        "image/jpeg"@
    }
}

/// The kind of picture that base64 text holds.
pub fn image_mime(image: &str) -> (mime: &'static str)
    ensures
        mime@ == mime_of(image@),
{
    if str_starts_with(image, "/9j/") {
        "image/jpeg"
    } else if str_starts_with(image, "iVBORw0KGgo") {
        "image/png"
    } else if str_starts_with(image, "R0lGOD") {
        "image/gif"
    } else if str_starts_with(image, "UklGR") {
        "image/webp"
    } else {
        "image/jpeg"
    }
}

/// The address that carries a picture in itself.
pub open spec fn data_url(image: Seq<char>) -> Seq<char> {
    "data:"@ + mime_of(image) + ";base64,"@ + image
}

/// One part of a message with pictures.
#[derive(Debug)]
pub enum ContentPart {
    Text { text: String },
    ImageUrl { url: String },
}

/// What a message says: plain text, or parts.
#[derive(Debug)]
pub enum MessageContent {
    Plain(String),
    Parts(Vec<ContentPart>),
}

/// The content of a message. Without pictures it is the plain text; with
/// pictures it is one part for each picture, in order, and then the text
/// unless it is empty.
pub fn build_content(text: &str, images: &Vec<String>) -> (content: MessageContent)
    ensures
        images@.len() == 0 ==> content is Plain && content->Plain_0@ == text@,
        images@.len() > 0 ==> content is Parts && ({
            let parts = content->Parts_0@;
            &&& parts.len() == images@.len() + if text@.len() > 0 {
                1int
            } else {
                0int
            }
            &&& forall|i: int|
                0 <= i < images@.len() ==> (#[trigger] parts[i]) is ImageUrl
                    && parts[i]->ImageUrl_url@ == data_url(images@[i]@)
            &&& text@.len() > 0 ==> parts[images@.len() as int] is Text
                && parts[images@.len() as int]->Text_text@ == text@
        }),
{
    if images.len() == 0 {
        return MessageContent::Plain(String::from_str(text));
    }
    let mut parts: Vec<ContentPart> = Vec::new();
    let mut i: usize = 0;
    while i < images.len()
        invariant
            i <= images.len(),
            parts@.len() == i,
            forall|j: int|
                0 <= j < i ==> (#[trigger] parts@[j]) is ImageUrl && parts@[j]->ImageUrl_url@
                    == data_url(images@[j]@),
        decreases images.len() - i,
    {
        let image = images[i].as_str();
        let mut url = String::from_str("data:");
        url.append(image_mime(image));
        url.append(";base64,");
        url.append(image);
        assert(url@ =~= data_url(images@[i as int]@));
        parts.push(ContentPart::ImageUrl { url });
        i = i + 1;
    }
    if !str_is_empty(text) {
        parts.push(ContentPart::Text { text: String::from_str(text) });
    }
    MessageContent::Parts(parts)
}

/// The first empty line of `buf` begins at `k`: two line feeds in a row.
pub open spec fn first_blank_line(buf: Seq<u8>, k: int) -> bool {
    0 <= k && k + 1 < buf.len() && buf[k] == 10 && buf[k + 1] == 10 && forall|j: int|
        0 <= j < k ==> !(#[trigger] buf[j] == 10 && buf[j + 1] == 10)
}

/// Takes the first complete event out of what was received so far: the
/// bytes before the first two line feeds in a row are returned, the two are
/// dropped and the rest stays. Without them nothing is taken.
pub fn take_event(buf: &mut Vec<u8>) -> (event: Option<Vec<u8>>)
    ensures
        event is None ==> *final(buf) == *old(buf) && forall|j: int|
            0 <= j && j + 1 < old(buf)@.len() ==> !(#[trigger] old(buf)@[j] == 10 && old(buf)@[j
                + 1] == 10),
        event is Some ==> exists|k: int|
            first_blank_line(old(buf)@, k) && event->Some_0@ == old(buf)@.take(k) && final(buf)@
                == old(buf)@.skip(k + 2),
{
    if buf.len() < 2 {
        return None;
    }
    let mut pos: usize = 0;
    while pos + 1 < buf.len() && !(buf[pos] == 10 && buf[pos + 1] == 10)
        invariant
            pos + 1 <= buf.len(),
            *buf == *old(buf),
            forall|j: int| 0 <= j < pos ==> !(#[trigger] buf@[j] == 10 && buf@[j + 1] == 10),
        decreases buf.len() - pos,
    {
        pos = pos + 1;
    }
    if pos + 1 >= buf.len() {
        return None;
    }
    let mut tail = buf.split_off(pos);
    let first = tail.remove(0);
    let second = tail.remove(0);
    std::mem::swap(buf, &mut tail);
    proof {
        assert(first_blank_line(old(buf)@, pos as int));
        assert(tail@ =~= old(buf)@.take(pos as int));
        assert(buf@ =~= old(buf)@.skip(pos + 2));
    }
    Some(tail)
}

/// `s` without the occurrences of `p` that it begins with.
pub open spec fn without_leading(s: Seq<char>, p: Seq<char>) -> Seq<char>
    decreases s.len(),
{
    if p.len() > 0 && has_prefix(s, p) {
        without_leading(s.skip(p.len() as int), p)
    } else {
        s
    }
}

/// What an event carries: nothing unless it begins, whitespace aside, with
/// `data: `; else what follows, without further `data: ` and without
/// whitespace around it.
pub open spec fn payload_of(event: Seq<char>) -> Option<Seq<char>> {
    let line = trim(event);
    if has_prefix(line, "data: "@) {
        Some(trim(without_leading(line, "data: "@)))
    } else {
        None
    }
}

/// What an event carries.
pub fn event_payload(event: &str) -> (payload: Option<String>)
    ensures
        payload is Some <==> payload_of(event@) is Some,
        payload is Some ==> payload->Some_0@ == payload_of(event@)->Some_0,
{
    proof {
        reveal_strlit("data: ");
    }
    let chars = to_chars(event);
    let marker = to_chars("data: ");
    let (start, end) = trim_bounds(&chars);
    let line = crate::text::to_chars(from_chars_range(&chars, start, end).as_str());
    if !matches_at(&line, &marker, 0) {
        return None;
    }
    let mut from: usize = 0;
    assert(line@.skip(0) =~= line@);
    while matches_at(&line, &marker, from)
        invariant
            from <= line.len(),
            marker@ == "data: "@,
            marker@.len() == 6,
            without_leading(line@, marker@) == without_leading(line@.skip(from as int), marker@),
        decreases line.len() - from,
    {
        proof {
            let rest = line@.skip(from as int);
            assert(rest.subrange(0, 6) =~= line@.subrange(from as int, from + 6));
            assert(rest.skip(6) =~= line@.skip(from + 6));
        }
        from = from + marker.len();
    }
    proof {
        let rest = line@.skip(from as int);
        if from + 6 <= line.len() {
            assert(rest.subrange(0, 6) =~= line@.subrange(from as int, from + 6));
        }
        assert(without_leading(rest, marker@) == rest);
    }
    let rest = crate::text::to_chars(from_chars_range(&line, from, line.len()).as_str());
    assert(rest@ =~= line@.skip(from as int));
    let (a, b) = trim_bounds(&rest);
    Some(from_chars_range(&rest, a, b))
}

/// Whether the payload says that the stream is over.
pub fn is_done_marker(payload: &str) -> (b: bool)
    ensures
        b == (payload@ == "[DONE]"@),
{
    crate::text::str_equals(payload, "[DONE]")
}

} // verus!
