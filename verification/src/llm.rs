//! Talking to a language model.

use vstd::prelude::*;
use vstd::string::*;
use crate::text::{occurs, text_contains, texts};

verus! {

#[derive(Debug, Clone)]
pub struct Message {
    pub role: String,
    pub content: String,
}

/// What a message says.
#[verifier::ext_equal]
pub struct MessageView {
    pub role: Seq<char>,
    pub content: Seq<char>,
}

impl View for Message {
    type V = MessageView;

    open spec fn view(&self) -> MessageView {
        MessageView { role: self.role@, content: self.content@ }
    }
}

pub open spec fn message_views(v: Seq<Message>) -> Seq<MessageView> {
    v.map_values(|m: Message| m@)
}

#[derive(Debug, Clone)]
pub struct LlmResponse {
    pub content: String,
}

/// A conversation of a system prompt and one user message.
pub open spec fn conversation(system: Seq<char>, user: Seq<char>) -> Seq<MessageView> {
    seq![
        MessageView { role: "system"@, content: system },
        MessageView { role: "user"@, content: user },
    ]
}

pub fn system_and_user(system: &str, user: String) -> (r: Vec<Message>)
    ensures
        message_views(r@) == conversation(system@, user@),
{
    let mut v: Vec<Message> = Vec::new();
    v.push(Message { role: String::from_str("system"), content: String::from_str(system) });
    v.push(Message { role: String::from_str("user"), content: user });
    proof {
        assert(message_views(v@) =~= conversation(system@, v@[1].content@));
    }
    v
}

// ---------------------------------------------------------------------------
// A scripted model
// ---------------------------------------------------------------------------

/// Mock LLM for testing. Returns scripted responses and records requests.
#[derive(Debug)]
pub struct MockLlm {
    responses: Vec<LlmResponse>,
    requests: Vec<Vec<Message>>,
    embed_requests: Vec<Vec<String>>,
}

/// The script that is left, and what was asked so far.
#[verifier::ext_equal]
pub struct MockLlmView {
    pub responses: Seq<Seq<char>>,
    pub requests: Seq<Seq<MessageView>>,
    pub embed_requests: Seq<Seq<Seq<char>>>,
}

impl View for MockLlm {
    type V = MockLlmView;

    closed spec fn view(&self) -> MockLlmView {
        MockLlmView {
            responses: self.responses@.map_values(|r: LlmResponse| r.content@),
            requests: self.requests@.map_values(|q: Vec<Message>| message_views(q@)),
            embed_requests: self.embed_requests@.map_values(|q: Vec<String>| texts(q@)),
        }
    }
}

/// The answer to a request: the first of the script, or a fixed text once the script is at its end.
pub open spec fn scripted_answer(script: Seq<Seq<char>>) -> Seq<char> {
    if script.len() > 0 {
        script[0]
    } else {
        "mock response"@
    }
}

pub open spec fn script_after(script: Seq<Seq<char>>) -> Seq<Seq<char>> {
    if script.len() > 0 {
        script.skip(1)
    } else {
        script
    }
}

impl MockLlm {
    pub fn new() -> (r: Self)
        ensures
            r@ == (MockLlmView { responses: seq![], requests: seq![], embed_requests: seq![] }),
    {
        let r = MockLlm {
            responses: Vec::new(),
            requests: Vec::new(),
            embed_requests: Vec::new(),
        };
        proof {
            assert(r@.responses =~= seq![]);
            assert(r@.requests =~= seq![]);
            assert(r@.embed_requests =~= seq![]);
        }
        r
    }

    /// Queue a response to be returned on the next call to `complete`.
    pub fn queue_response(&mut self, content: String)
        ensures
            final(self)@ == (MockLlmView {
                responses: old(self)@.responses.push(content@),
                ..old(self)@
            }),
    {
        self.responses.push(LlmResponse { content });
        proof {
            assert(self@.responses =~= old(self)@.responses.push(content@));
        }
    }

    /// Answers a request and records it.
    pub fn complete(&mut self, messages: Vec<Message>) -> (r: LlmResponse)
        ensures
            r.content@ == scripted_answer(old(self)@.responses),
            final(self)@ == (MockLlmView {
                responses: script_after(old(self)@.responses),
                requests: old(self)@.requests.push(message_views(messages@)),
                ..old(self)@
            }),
    {
        self.requests.push(messages);
        proof {
            assert(self@.requests =~= old(self)@.requests.push(message_views(messages@)));
        }
        if self.responses.len() == 0 {
            LlmResponse { content: String::from_str("mock response") }
        } else {
            let ghost before = self.responses@;
            let r = self.responses.remove(0);
            proof {
                assert(self@.responses =~= old(self)@.responses.skip(1));
            }
            r
        }
    }

    /// Records a request for embeddings.
    pub fn record_embed(&mut self, request: Vec<String>)
        ensures
            final(self)@ == (MockLlmView {
                embed_requests: old(self)@.embed_requests.push(texts(request@)),
                ..old(self)@
            }),
    {
        self.embed_requests.push(request);
        proof {
            assert(self@.embed_requests =~= old(self)@.embed_requests.push(texts(request@)));
        }
    }

    /// All recorded completion requests, in order.
    pub fn recorded_requests(&self) -> (r: &Vec<Vec<Message>>)
        ensures
            r@.map_values(|q: Vec<Message>| message_views(q@)) == self@.requests,
    {
        &self.requests
    }

    /// All recorded embedding requests, in order.
    pub fn recorded_embed_requests(&self) -> (r: &Vec<Vec<String>>)
        ensures
            r@.map_values(|q: Vec<String>| texts(q@)) == self@.embed_requests,
    {
        &self.embed_requests
    }
}

/// The answers of a script that is asked `n` times.
pub open spec fn script_answers(script: Seq<Seq<char>>, n: nat) -> Seq<Seq<char>>
    decreases n,
{
    if n == 0 {
        seq![]
    } else {
        seq![scripted_answer(script)] + script_answers(script_after(script), (n - 1) as nat)
    }
}

/// Responses come out in the order in which they were queued, each once, and the fixed text comes
/// after the last of them.
pub proof fn law_script_is_played_in_order(script: Seq<Seq<char>>, n: nat)
    ensures
        script_answers(script, n).len() == n,
        forall|i: int|
            0 <= i < n ==> (#[trigger] script_answers(script, n)[i]) == (if i < script.len() {
                script[i]
            } else {
                "mock response"@
            }),
    decreases n,
{
    if n > 0 {
        let rest = script_after(script);
        law_script_is_played_in_order(rest, (n - 1) as nat);
        assert forall|i: int| 0 <= i < n implies (#[trigger] script_answers(script, n)[i]) == (if i
            < script.len() {
            script[i]
        } else {
            "mock response"@
        }) by {
            if i > 0 {
                assert(script_answers(script, n)[i] == script_answers(rest, (n - 1) as nat)[i - 1]);
            }
        }
    }
}

// ---------------------------------------------------------------------------
// Keywords
// ---------------------------------------------------------------------------

/// The keywords, each of which stands for one dimension of a mock embedding.
pub open spec fn keywords() -> Seq<Seq<char>> {
    seq![
        "sort"@,
        "order"@,
        "filter"@,
        "select"@,
        "map"@,
        "transform"@,
        "read"@,
        "write"@,
        "parse"@,
        "format"@,
        "send"@,
        "receive"@,
        "create"@,
        "delete"@,
        "search"@,
        "find"@,
    ]
}

/// The dimensionality of mock embeddings.
pub const EMBED_DIM: usize = 16;

/// What `str::to_lowercase` makes of a text.
pub uninterp spec fn lowercase(s: Seq<char>) -> Seq<char>;

/// `str::to_lowercase` of the standard library, whose result depends on the text alone.
#[verifier::external_body]
fn to_lowercase(s: &str) -> (r: String)
    ensures
        r@ == lowercase(s@),
{
    s.to_lowercase()
}

/// Which keywords a text in lower case mentions.
pub fn keywords_in(lower: &str) -> (r: Vec<bool>)
    ensures
        r@.len() == EMBED_DIM,
        forall|i: int| 0 <= i < r@.len() ==> (#[trigger] r@[i]) == occurs(lower@, keywords()[i]),
{
    let words: [&str; 16] = [
        "sort",
        "order",
        "filter",
        "select",
        "map",
        "transform",
        "read",
        "write",
        "parse",
        "format",
        "send",
        "receive",
        "create",
        "delete",
        "search",
        "find",
    ];
    let mut hits: Vec<bool> = Vec::new();
    let mut i: usize = 0;
    while i < 16
        invariant
            i <= 16,
            hits@.len() == i,
            forall|j: int| 0 <= j < 16 ==> (#[trigger] words@[j])@ == keywords()[j],
            forall|j: int| 0 <= j < i ==> (#[trigger] hits@[j]) == occurs(lower@, keywords()[j]),
        decreases 16 - i,
    {
        let hit = text_contains(lower, words[i]);
        proof {
            assert(words@[i as int]@ == keywords()[i as int]);
        }
        hits.push(hit);
        i += 1;
    }
    hits
}

/// Which keywords a text mentions, in whatever case.
pub fn keyword_hits(text: &str) -> (r: Vec<bool>)
    ensures
        r@.len() == EMBED_DIM,
        forall|i: int|
            0 <= i < r@.len() ==> (#[trigger] r@[i]) == occurs(lowercase(text@), keywords()[i]),
{
    let lower = to_lowercase(text);
    keywords_in(lower.as_str())
}

/// A conversation is two messages: first the system's, then the user's.
pub proof fn law_conversation_has_two_voices(system: Seq<char>, user: Seq<char>)
    ensures
        conversation(system, user).len() == 2,
        conversation(system, user)[0].role == "system"@,
        conversation(system, user)[0].content == system,
        conversation(system, user)[1].role == "user"@,
        conversation(system, user)[1].content == user,
{
}

/// The words that each dimension of a mock embedding stands for.
pub proof fn law_dimensions_stand_for_words()
    ensures
        keywords().len() == EMBED_DIM,
        keywords()[0] == "sort"@ && keywords()[1] == "order"@,
        keywords()[2] == "filter"@ && keywords()[3] == "select"@,
        keywords()[4] == "map"@ && keywords()[5] == "transform"@,
        keywords()[6] == "read"@ && keywords()[7] == "write"@,
        keywords()[8] == "parse"@ && keywords()[9] == "format"@,
        keywords()[10] == "send"@ && keywords()[11] == "receive"@,
        keywords()[12] == "create"@ && keywords()[13] == "delete"@,
        keywords()[14] == "search"@ && keywords()[15] == "find"@,
{
}

/// What a value says in contracts is what its fields say, each in its own place.
pub proof fn law_views_show_every_field(message: Message)
    ensures
        message@.role == message.role@,
        message@.content == message.content@,
{
}

/// A list says in contracts what its items say, one for one and in their order.
pub proof fn law_items_are_read_one_for_one(v: Seq<Message>)
    ensures
        message_views(v).len() == v.len(),
        forall|i: int| 0 <= i < v.len() ==> #[trigger] message_views(v)[i] == v[i]@,
{
}

} // verus!
