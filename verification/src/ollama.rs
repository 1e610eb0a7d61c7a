//! Talking to a chat server that streams its answer line by line.

use crate::text::{trim_end_matches, without_trailing};
use vstd::prelude::*;

verus! {

/// Where the server listens by default.
pub const DEFAULT_BASE_URL: &'static str = "http://localhost:11434";

/// One message of a chat, with pictures for models that see.
#[derive(Debug, Clone)]
pub struct OllamaMessage {
    pub role: String,
    pub content: String,
    /// The pictures, each in base64.
    pub images: Vec<String>,
}

impl OllamaMessage {
    /// A message without pictures.
    pub fn text(role: &str, content: &str) -> (m: OllamaMessage)
        ensures
            m.role@ == role@,
            m.content@ == content@,
            m.images@.len() == 0,
    {
        OllamaMessage {
            role: String::from_str(role),
            content: String::from_str(content),
            images: Vec::new(),
        }
    }

    /// A message with pictures.
    pub fn with_images(role: &str, content: &str, images: Vec<String>) -> (m: OllamaMessage)
        ensures
            m.role@ == role@,
            m.content@ == content@,
            m.images == images,
    {
        OllamaMessage { role: String::from_str(role), content: String::from_str(content), images }
    }
}

/// Where the server listens by default.
pub fn default_base_url() -> (url: &'static str)
    ensures
        url@ == DEFAULT_BASE_URL@,
{
    DEFAULT_BASE_URL
}

/// The address of a service of the server: the base address without
/// slashes at its end, then the path.
pub open spec fn endpoint(base_url: Seq<char>, path: Seq<char>) -> Seq<char> {
    without_trailing(base_url, '/') + path
}

/// The address of a service of a server.
pub fn endpoint_url(base_url: &str, path: &str) -> (url: String)
    ensures
        url@ == endpoint(base_url@, path@),
{
    let mut url = trim_end_matches(base_url, '/');
    url.append(path);
    url
}

/// The address to which a chat is sent.
pub fn chat_url(base_url: &str) -> (url: String)
    ensures
        url@ == endpoint(base_url@, "/api/chat"@),
{
    endpoint_url(base_url, "/api/chat")
}

/// The address that lists the models.
pub fn tags_url(base_url: &str) -> (url: String)
    ensures
        url@ == endpoint(base_url@, "/api/tags"@),
{
    endpoint_url(base_url, "/api/tags")
}

/// The messages of a request: the system message first where there is one,
/// then the chat.
pub fn with_system(messages: Vec<OllamaMessage>, system: Option<&str>) -> (all: Vec<OllamaMessage>)
    ensures
        system is None ==> all == messages,
        system is Some ==> all@.len() == messages@.len() + 1 && all@[0].role@ == "system"@
            && all@[0].content@ == system->Some_0@ && all@[0].images@.len() == 0 && all@.skip(1)
            == messages@,
{
    match system {
        None => messages,
        Some(s) => {
            let mut all = messages;
            all.insert(0, OllamaMessage::text("system", s));
            assert(all@.skip(1) =~= messages@);
            all
        },
    }
}

/// The first line feed of `buf` stands at `k`.
pub open spec fn first_line_feed(buf: Seq<u8>, k: int) -> bool {
    0 <= k < buf.len() && buf[k] == 10 && forall|j: int| 0 <= j < k ==> #[trigger] buf[j] != 10
}

/// Takes the first complete line out of what was received so far: the bytes
/// before the first line feed are returned, the line feed is dropped and the
/// rest stays. Without a line feed nothing is taken.
pub fn take_line(buf: &mut Vec<u8>) -> (line: Option<Vec<u8>>)
    ensures
        line is None ==> *final(buf) == *old(buf) && forall|j: int|
            0 <= j < old(buf)@.len() ==> #[trigger] old(buf)@[j] != 10,
        line is Some ==> exists|k: int|
            first_line_feed(old(buf)@, k) && line->Some_0@ == old(buf)@.take(k) && final(buf)@
                == old(buf)@.skip(k + 1),
{
    let mut pos: usize = 0;
    while pos < buf.len() && buf[pos] != 10
        invariant
            pos <= buf.len(),
            *buf == *old(buf),
            forall|j: int| 0 <= j < pos ==> #[trigger] buf@[j] != 10,
        decreases buf.len() - pos,
    {
        pos = pos + 1;
    }
    if pos == buf.len() {
        return None;
    }
    let mut tail = buf.split_off(pos);
    let feed = tail.remove(0);
    std::mem::swap(buf, &mut tail);
    proof {
        assert(first_line_feed(old(buf)@, pos as int));
        assert(tail@ =~= old(buf)@.take(pos as int));
        assert(buf@ =~= old(buf)@.skip(pos + 1));
    }
    Some(tail)
}

/// What to do with one line of the stream.
#[derive(Debug)]
pub enum ChunkAction {
    /// Nothing.
    Skip,
    /// Hand the text to the consumer; if it asks to go on and `then_done`
    /// holds, the stream is over.
    Emit { content: String, then_done: bool },
    /// The stream is over.
    Done,
}

/// What to do with a line that was read as a chunk: `content` is the text
/// it carries, `done` what it says of being the last.
pub fn chunk_action(content: Option<String>, done: Option<bool>) -> (action: ChunkAction)
    ensures
        content is Some && content->Some_0@.len() > 0 ==> action == (ChunkAction::Emit {
            content: content->Some_0,
            then_done: done == Some(true),
        }),
        !(content is Some && content->Some_0@.len() > 0) && done == Some(true) ==> action
            == ChunkAction::Done,
        !(content is Some && content->Some_0@.len() > 0) && done != Some(true) ==> action
            == ChunkAction::Skip,
{
    let finished = match done {
        Some(d) => d,
        None => false,
    };
    match content {
        Some(text) => {
            if text.as_str().unicode_len() > 0 {
                ChunkAction::Emit { content: text, then_done: finished }
            } else if finished {
                ChunkAction::Done
            } else {
                ChunkAction::Skip
            }
        },
        None => {
            if finished {
                ChunkAction::Done
            } else {
                ChunkAction::Skip
            }
        },
    }
}

} // verus!
