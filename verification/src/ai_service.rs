//! The assistant chat: the request that goes to the model's service and the
//! reading of the answer that streams back.

use vstd::prelude::*;
use crate::models::AppSettings;
use crate::registry::str_equal;
use crate::scan::occurs_at;
use crate::scan::starts_with_text;
use crate::scan::trim;
use crate::scan::trimmed;
use crate::session::opt_text;

verus! {

/// One message of a conversation.
#[derive(Debug, PartialEq, Eq)]
pub struct ChatMessage {
    pub role: String,
    pub content: String,
}

/// Where a chat request goes and what it carries besides the messages.
#[derive(Debug, PartialEq, Eq)]
pub struct ChatRequest {
    /// The address of the completion service.
    pub url: String,
    /// The value of the authorization header.
    pub authorization: String,
    /// The name of the model.
    pub model: String,
}

/// A chat request as plain values.
pub struct ChatRequestView {
    pub url: Seq<char>,
    pub authorization: Seq<char>,
    pub model: Seq<char>,
}

impl View for ChatRequest {
    type V = ChatRequestView;

    open spec fn view(&self) -> ChatRequestView {
        ChatRequestView { url: self.url@, authorization: self.authorization@, model: self.model@ }
    }
}

/// The text without the slashes at its end.
pub open spec fn without_trailing_slashes(s: Seq<char>) -> Seq<char>
    decreases s.len(),
{
    if s.len() > 0 && s.last() == '/' {
        without_trailing_slashes(s.drop_last())
    } else {
        s
    }
}

/// The request that the settings call for.
pub open spec fn chat_request_of(
    api_key: Seq<char>,
    base_url: Option<Seq<char>>,
    model: Option<Seq<char>>,
) -> ChatRequestView {
    ChatRequestView {
        url: without_trailing_slashes(
            match base_url {
                Some(url) => url,
                None => "https://api.openai.com/v1"@,
            },
        ) + "/chat/completions"@,
        authorization: "Bearer "@ + api_key,
        model: match model {
            Some(name) => name,
            None => "gpt-3.5-turbo"@,
        },
    }
}

proof fn lemma_without_trailing(s: Seq<char>, to: int)
    requires
        0 <= to <= s.len(),
        forall|i: int| to <= i < s.len() ==> #[trigger] s[i] == '/',
        to > 0 ==> s[to - 1] != '/',
    ensures
        without_trailing_slashes(s) == s.subrange(0, to),
    decreases s.len() - to,
{
    if to == s.len() {
        assert(s.subrange(0, to) =~= s);
        if s.len() > 0 {
            assert(s.last() == s[to - 1]);
        }
    } else {
        let front = s.drop_last();
        assert(s[s.len() - 1] == '/');
        assert forall|i: int| to <= i < front.len() implies #[trigger] front[i] == '/' by {
            assert(front[i] == s[i]);
        }
        if to > 0 {
            assert(front[to - 1] == s[to - 1]);
        }
        lemma_without_trailing(front, to);
        assert(front.subrange(0, to) =~= s.subrange(0, to));
    }
}

/// The part of `s` without the slashes at its end.
pub fn trim_trailing_slashes(s: &str) -> (t: &str)
    ensures
        t@ == without_trailing_slashes(s@),
{
    let n = s.unicode_len();
    let mut to: usize = n;
    while to > 0 && s.get_char(to - 1) == '/'
        invariant
            to <= n,
            n == s@.len(),
            forall|i: int| to <= i < n ==> #[trigger] s@[i] == '/',
        decreases to,
    {
        to -= 1;
    }
    proof {
        lemma_without_trailing(s@, to as int);
    }
    s.substring_char(0, to)
}

/// Makes the chat request for the given settings. Fails where the settings
/// hold no key for the service.
pub fn chat_request(settings: &AppSettings) -> (request: Result<ChatRequest, String>)
    ensures
        match request {
            Ok(r) => settings.ai_api_key is Some && r@ == chat_request_of(
                settings.ai_api_key->0@,
                opt_text(settings.ai_base_url),
                opt_text(settings.ai_model),
            ),
            Err(message) => settings.ai_api_key is None && message@ == "AI API Key not configured"@,
        },
{
    match &settings.ai_api_key {
        None => Err(String::from_str("AI API Key not configured")),
        Some(api_key) => {
            let mut url = match &settings.ai_base_url {
                Some(base) => String::from_str(trim_trailing_slashes(base.as_str())),
                None => String::from_str(trim_trailing_slashes("https://api.openai.com/v1")),
            };
            url.append("/chat/completions");
            let mut authorization = String::from_str("Bearer ");
            authorization.append(api_key.as_str());
            let model = match &settings.ai_model {
                Some(name) => name.clone(),
                None => String::from_str("gpt-3.5-turbo"),
            };
            Ok(ChatRequest { url, authorization, model })
        },
    }
}

/// The position of the end of the line that begins at `from`: that of the
/// next line feed, or the end of the text.
pub open spec fn line_end(s: Seq<char>, from: int) -> int
    decreases s.len() - from,
{
    if from < 0 || from >= s.len() || s[from] == '\n' {
        from
    } else {
        line_end(s, from + 1)
    }
}

/// The marker in front of a line that carries data.
pub open spec fn data_marker() -> Seq<char> {
    "data: "@
}

/// The payload that ends a stream.
pub open spec fn done_payload() -> Seq<char> {
    "[DONE]"@
}

/// The payload of a line: what follows the data marker, where the line
/// without the white space around it begins with the marker.
pub open spec fn line_payload(line: Seq<char>) -> Option<Seq<char>> {
    let text = trimmed(line);
    if occurs_at(text, data_marker(), 0) {
        Some(text.subrange(data_marker().len() as int, text.len() as int))
    } else {
        None
    }
}

/// The payloads of the lines of `s` from position `from` on, up to the
/// payload that ends the stream.
pub open spec fn payloads_from(s: Seq<char>, from: int) -> Seq<Seq<char>>
    decreases s.len() - from,
{
    if from < 0 || from > s.len() {
        Seq::empty()
    } else {
        let end = line_end(s, from);
        let rest = if end < s.len() {
            proof {
                lemma_line_end_bounds(s, from);
            }
            payloads_from(s, end + 1)
        } else {
            Seq::empty()
        };
        match line_payload(s.subrange(from, end)) {
            Some(payload) => if payload == done_payload() {
                Seq::empty()
            } else {
                seq![payload] + rest
            },
            None => rest,
        }
    }
}

/// The payloads that a chunk of the stream carries.
pub open spec fn chunk_payloads(chunk: Seq<char>) -> Seq<Seq<char>> {
    payloads_from(chunk, 0)
}

/// The end of a line lies at or behind its start and within the text; it
/// is a line feed unless it is the end of the text; and no line feed lies
/// before it.
pub proof fn lemma_line_end_bounds(s: Seq<char>, from: int)
    requires
        0 <= from <= s.len(),
    ensures
        from <= line_end(s, from) <= s.len(),
        line_end(s, from) < s.len() ==> s[line_end(s, from)] == '\n',
        forall|i: int| from <= i < line_end(s, from) ==> #[trigger] s[i] != '\n',
    decreases s.len() - from,
{
    if from < s.len() && s[from] != '\n' {
        lemma_line_end_bounds(s, from + 1);
    }
}

proof fn lemma_line_end_found(s: Seq<char>, from: int, at: int)
    requires
        0 <= from <= at <= s.len(),
        forall|i: int| from <= i < at ==> #[trigger] s[i] != '\n',
        at < s.len() ==> s[at] == '\n',
    ensures
        line_end(s, from) == at,
    decreases at - from,
{
    if from < at {
        lemma_line_end_found(s, from + 1, at);
    }
}

/// The texts as plain values.
pub open spec fn text_views(texts: Seq<String>) -> Seq<Seq<char>> {
    Seq::new(texts.len(), |i: int| texts[i]@)
}

/// Reads one line: its payload, if it carries data.
pub fn payload_of_line(line: &str) -> (payload: Option<String>)
    ensures
        opt_text(payload) == line_payload(line@),
{
    proof {
        reveal_strlit("data: ");
    }
    let text = trim(line);
    if starts_with_text(text, "data: ") {
        let n = text.unicode_len();
        Some(String::from_str(text.substring_char(6, n)))
    } else {
        None
    }
}

/// Reads the payloads that a chunk of the stream carries: those of its data
/// lines, in their order, up to the one that ends the stream.
pub fn stream_payloads(chunk: &str) -> (payloads: Vec<String>)
    ensures
        text_views(payloads@) == chunk_payloads(chunk@),
{
    let n = chunk.unicode_len();
    let mut payloads: Vec<String> = Vec::new();
    let mut from: usize = 0;
    assert(text_views(payloads@) =~= Seq::<Seq<char>>::empty());
    loop
        invariant
            from <= n,
            n == chunk@.len(),
            chunk_payloads(chunk@) == text_views(payloads@) + payloads_from(chunk@, from as int),
        decreases n - from,
    {
        let mut end: usize = from;
        while end < n && chunk.get_char(end) != '\n'
            invariant
                from <= end <= n,
                n == chunk@.len(),
                forall|i: int| from <= i < end ==> #[trigger] chunk@[i] != '\n',
            decreases n - end,
        {
            end += 1;
        }
        proof {
            lemma_line_end_found(chunk@, from as int, end as int);
        }
        let line = chunk.substring_char(from, end);
        let ghost before = payloads@;
        match payload_of_line(line) {
            Some(payload) => {
                if str_equal(payload.as_str(), "[DONE]") {
                    assert(text_views(before) + Seq::<Seq<char>>::empty() =~= text_views(before));
                    return payloads;
                }
                payloads.push(payload);
                assert(text_views(payloads@) =~= text_views(before) + seq![payload@]);
            },
            None => {},
        }
        if end >= n {
            assert(text_views(payloads@) + Seq::<Seq<char>>::empty() =~= text_views(payloads@));
            assert(chunk_payloads(chunk@) =~= text_views(payloads@));
            return payloads;
        }
        assert(chunk_payloads(chunk@) =~= text_views(payloads@) + payloads_from(
            chunk@,
            end as int + 1,
        ));
        from = end + 1;
    }
}

/// The message for a service that answers with a failure.
pub fn api_error_message(answer: &str) -> (message: String)
    ensures
        message@ == "API Error: "@ + answer@,
{
    let mut message = String::from_str("API Error: ");
    message.append(answer);
    message
}

/// The message for a stream that breaks.
pub fn stream_error_message(reason: &str) -> (message: String)
    ensures
        message@ == "Stream error: "@ + reason@,
{
    let mut message = String::from_str("Stream error: ");
    message.append(reason);
    message
}

} // verus!
