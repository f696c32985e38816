//! The AI extraction step, without the network: the prompt sent to the
//! generative backend, the accumulation of its streamed output, and the
//! parse of the whole output as one JSON array.

use vstd::prelude::*;
use vstd::string::*;
use crate::channel::Hub;
use crate::extract::views;
use crate::models::{Event, ScrapeError};

verus! {

/// What serde_json makes of a text read as a JSON array: its items, or
/// the message of the parse error.
pub uninterp spec fn json_array_parse(s: Seq<char>) -> Result<Seq<serde_json::Value>, Seq<char>>;

/// Whether a text is one JSON array.
pub open spec fn json_array_ok(s: Seq<char>) -> bool {
    json_array_parse(s) is Ok
}

/// The items of a text that is one JSON array.
pub open spec fn json_array_of(s: Seq<char>) -> Seq<serde_json::Value> {
    json_array_parse(s)->Ok_0
}

/// The parser's message for a text that is not one JSON array.
pub open spec fn json_error_text(s: Seq<char>) -> Seq<char> {
    json_array_parse(s)->Err_0
}

/// Relies on serde_json::from_str::<Vec<Value>>: its outcome depends on
/// the text alone, and empty text is an error (end of input while parsing
/// a value). The error is kept as its message.
#[verifier::external_body]
fn parse_json_array(s: &str) -> (r: Result<Vec<serde_json::Value>, String>)
    ensures
        match r {
            Ok(v) => json_array_parse(s@) == Ok::<Seq<serde_json::Value>, Seq<char>>(v@),
            Err(m) => json_array_parse(s@) == Err::<Seq<serde_json::Value>, Seq<char>>(m@),
        },
        s@.len() == 0 ==> r is Err,
{
    serde_json::from_str::<Vec<serde_json::Value>>(s).map_err(|e| e.to_string())
}

/// Relies on Vec::clone over serde_json::Value's derived Clone, which
/// copies every value field by field: the copy holds the same items.
#[verifier::external_body]
fn copy_items(v: &Vec<serde_json::Value>) -> (r: Vec<serde_json::Value>)
    ensures
        r@ == v@,
{
    v.clone()
}

/// The field names, separated by a comma and a space.
pub open spec fn join_tags(tags: Seq<Seq<char>>) -> Seq<char>
    decreases tags.len(),
{
    if tags.len() == 0 {
        Seq::empty()
    } else if tags.len() == 1 {
        tags[0]
    } else {
        join_tags(tags.drop_last()) + ", "@ + tags.last()
    }
}

pub open spec fn prompt_text(tags: Seq<Seq<char>>, html: Seq<char>) -> Seq<char> {
    "Extract the following information: "@ + join_tags(tags) + (".\nReturn the result as a JSON array of objects, where each object represents an item with the specified fields.\nOnly include the JSON array in your response, nothing else.\n\nHTML:\n"@ + html) + "\n"@
}

pub open spec fn system_text() -> Seq<char> {
    "You are an intelligent text extraction and conversion assistant. Extract structured information from the given HTML and convert it into pure JSON, containing only the structured data, with no commentary, explanations or extraneous words before or after the JSON. Fields may be missing from the page, and the page may be in a foreign language."@
}

pub fn join_with_commas(tags: &Vec<String>) -> (r: String)
    ensures
        r@ == join_tags(views(tags@)),
{
    let mut out = String::new();
    let mut i: usize = 0;
    while i < tags.len()
        invariant
            i <= tags@.len(),
            out@ == join_tags(views(tags@).take(i as int)),
        decreases tags@.len() - i,
    {
        proof {
            assert(views(tags@).take(i + 1).drop_last() =~= views(tags@).take(i as int));
            assert(views(tags@).take(i + 1).last() == tags@[i as int]@);
        }
        if i > 0 {
            out.append(", ");
        } else {
            assert(views(tags@).take(1)[0] == tags@[0]@);
        }
        out.append(tags[i].as_str());
        proof {
            reveal_strlit(", ");
        }
        i = i + 1;
    }
    assert(views(tags@).take(tags@.len() as int) =~= views(tags@));
    out
}

/// The user instruction: the wanted fields, then the page content.
pub fn build_prompt(tags: &Vec<String>, html: &str) -> (r: String)
    ensures
        r@ == prompt_text(views(tags@), html@),
{
    let mut out = String::from_str("Extract the following information: ");
    let joined = join_with_commas(tags);
    out.append(joined.as_str());
    let mut body = String::from_str(".\nReturn the result as a JSON array of objects, where each object represents an item with the specified fields.\nOnly include the JSON array in your response, nothing else.\n\nHTML:\n");
    body.append(html);
    out.append(body.as_str());
    out.append("\n");
    out
}

/// The system instruction: output pure structured data and nothing else.
pub fn build_system_prompt() -> (r: String)
    ensures
        r@ == system_text(),
{
    String::from_str("You are an intelligent text extraction and conversion assistant. Extract structured information from the given HTML and convert it into pure JSON, containing only the structured data, with no commentary, explanations or extraneous words before or after the JSON. Fields may be missing from the page, and the page may be in a foreign language.")
}

/// Reads the whole backend output as a JSON array of items.
pub fn parse_ai_response(response: &str) -> (r: Result<Vec<serde_json::Value>, ScrapeError>)
    ensures
        r is Ok <==> json_array_ok(response@),
        response@.len() == 0 ==> r is Err,
        r matches Ok(v) ==> v@ == json_array_of(response@),
        r matches Err(e) ==> (e matches ScrapeError::AI(m) && m@ == json_error_text(response@)),
{
    match parse_json_array(response) {
        Ok(items) => Ok(items),
        Err(msg) => Err(ScrapeError::AI(msg)),
    }
}

/// The output of one backend call as it streams in.
pub struct AiStream {
    pub buffer: String,
}

impl AiStream {
    /// Opens a call: announces it to subscribers, with an empty buffer.
    pub fn new(hub: &mut Hub) -> (r: AiStream)
        requires
            old(hub).wf(),
            old(hub).log@.len() < usize::MAX,
        ensures
            final(hub).wf(),
            r.buffer@.len() == 0,
            final(hub).log@.len() == old(hub).log@.len() + 1,
            final(hub).log@.drop_last() == old(hub).log@,
            final(hub).log@.last() matches Event::Progress(m) && m@ == "Starting AI processing..."@,
    {
        let ghost before = hub.log@;
        hub.publish(Event::Progress(String::from_str("Starting AI processing...")));
        assert(hub.log@.drop_last() =~= before);
        AiStream { buffer: String::new() }
    }

    /// Forwards a chunk to subscribers and appends it to the buffer.
    pub fn on_chunk(&mut self, hub: &mut Hub, chunk: String)
        requires
            old(hub).wf(),
            old(hub).log@.len() < usize::MAX,
        ensures
            final(hub).wf(),
            final(self).buffer@ == old(self).buffer@ + chunk@,
            final(hub).log@ == old(hub).log@.push(Event::ScrapingChunk(chunk)),
    {
        self.buffer.append(chunk.as_str());
        hub.publish(Event::ScrapingChunk(chunk));
    }

    /// A transport failure ends the call: it is published and returned.
    pub fn fail(self, hub: &mut Hub, message: String) -> (r: ScrapeError)
        requires
            old(hub).wf(),
            old(hub).log@.len() < usize::MAX,
        ensures
            final(hub).wf(),
            r == ScrapeError::AI(message),
            final(hub).log@ == old(hub).log@.push(Event::Error(message)),
    {
        let copy = message.clone();
        hub.publish(Event::Error(copy));
        ScrapeError::AI(message)
    }

    /// At the end of the stream the whole buffer is parsed. When it is one
    /// JSON array, completion and then its items are published, and the
    /// items come back. Otherwise the parser's message is published as an
    /// error and returned; no item is.
    pub fn finish(self, hub: &mut Hub) -> (r: Result<Vec<serde_json::Value>, ScrapeError>)
        requires
            old(hub).wf(),
            old(hub).log@.len() < usize::MAX - 1,
        ensures
            final(hub).wf(),
            r is Ok <==> json_array_ok(self.buffer@),
            self.buffer@.len() == 0 ==> r is Err,
            r matches Ok(v) ==> {
                &&& v@ == json_array_of(self.buffer@)
                &&& final(hub).log@.len() == old(hub).log@.len() + 2
                &&& final(hub).log@.subrange(0, old(hub).log@.len() as int) == old(hub).log@
                &&& final(hub).log@[old(hub).log@.len() as int] matches Event::Progress(m)
                    && m@ == "AI processing completed"@
                &&& final(hub).log@[old(hub).log@.len() as int + 1] matches Event::Success(w) && w@ == v@
            },
            r matches Err(e) ==> {
                &&& e matches ScrapeError::AI(m) && m@ == json_error_text(self.buffer@)
                &&& final(hub).log@.len() == old(hub).log@.len() + 1
                &&& final(hub).log@.drop_last() == old(hub).log@
                &&& final(hub).log@.last() matches Event::Error(t)
                    && t@ == "Failed to parse AI response: "@ + json_error_text(self.buffer@)
            },
    {
        let ghost before = hub.log@;
        match parse_ai_response(self.buffer.as_str()) {
            Ok(items) => {
                hub.publish(Event::Progress(String::from_str("AI processing completed")));
                let copy = copy_items(&items);
                hub.publish(Event::Success(copy));
                assert(hub.log@.subrange(0, before.len() as int) =~= before);
                Ok(items)
            },
            Err(ScrapeError::AI(m)) => {
                let mut text = String::from_str("Failed to parse AI response: ");
                text.append(m.as_str());
                hub.publish(Event::Error(text));
                assert(hub.log@.drop_last() =~= before);
                Err(ScrapeError::AI(m))
            },
            Err(e) => Err(e),
        }
    }
}

} // verus!
