//! Asking a language model for type signatures, and reading its answers.

use vstd::prelude::*;
use vstd::string::*;
use crate::llm::{conversation, message_views, system_and_user, Message};
use crate::text::{
    chars_of, ends_with, has_prefix, has_suffix, head, string_of, strip_prefix, trim, trim_chars,
};

verus! {

/// The system prompt instructing the LLM to extract function signatures
/// in AgentCodeRepo's universal type syntax.
pub const EXTRACTION_SYSTEM_PROMPT: &'static str = r#"You are a type extraction engine for AgentCodeRepo, a universal code index.

Given source code, extract all exported/public functions, types, and values.
Express each one's type in AgentCodeRepo's universal type syntax.

## AgentCodeRepo Type Syntax

Primitives: Int, Float, String, Bool, Bytes, Unit, Never
Functions: `param -> ret` (pure), `param ->{Effect1, Effect2} ret` (effectful)
Generics: `forall a. a -> a`
Constraints: `forall a. Ord a => List a -> List a`
Higher-kinded: `forall (f : Type -> Type). Functor f => (a -> b) -> f a -> f b`
Records: `{ name: String, age: Int }`
Variants: `< Ok: a | Err: e >`
Tuples: `(Int, String)`
Type application: `List a`, `Map k v`, `Result e a`

## Effects

IO       - filesystem, network, system calls
Async    - requires async runtime
Fail e   - can fail with error type e
State s  - reads/modifies mutable state of type s
Rand     - uses randomness
Alloc    - heap allocation

## Output Format

Respond with a JSON array. Each element is an object with:
- "name": the function/value name
- "type": the AgentCodeRepo type signature as a string
- "description": a brief natural-language description

Example:
```json
[
  {
    "name": "sort",
    "type": "forall a. Ord a => List a -> List a",
    "description": "Sort a list using the natural ordering of its elements"
  },
  {
    "name": "http_get",
    "type": "String ->{IO, Fail HttpError} Response",
    "description": "Perform an HTTP GET request to the given URL"
  }
]
```

Only include public/exported items. Respond with ONLY the JSON array, no other text."#;

/// The system prompt for judging a change of a function's source.
pub const LOGIC_ASSESSMENT_PROMPT: &'static str = r#"You are a backward-compatibility assessor for AgentCodeRepo, a universal code index.

Given the old and new versions of a function's source code, determine whether the behavioral change is BREAKING for existing callers.

A change is BREAKING if:
- The function returns different results for the same inputs
- Error handling changed (e.g., previously never failed, now can fail)
- Side effects changed meaningfully (e.g., now writes to disk when it didn't before)
- The function's contract/invariants changed

A change is NOT BREAKING if:
- Only performance changed (faster/slower but same results)
- Internal refactoring with identical behavior
- Comments or formatting changed
- Logging or debug output changed

Respond with ONLY a JSON object:
{"breaking": true, "reason": "brief explanation"} or {"breaking": false}"#;

/// The request that shows a file to the model.
pub open spec fn extraction_request(file_path: Seq<char>, source: Seq<char>) -> Seq<char> {
    "Extract all exported types, functions, and values from this file.\nFile: "@ + file_path
        + "\n\n```\n"@ + source + "\n```"@
}

/// The messages that ask for the signatures of a file.
pub fn extract_signatures(file_path: &str, source: &str) -> (r: Vec<Message>)
    ensures
        message_views(r@) == conversation(
            EXTRACTION_SYSTEM_PROMPT@,
            extraction_request(file_path@, source@),
        ),
{
    let mut user = String::from_str(
        "Extract all exported types, functions, and values from this file.\nFile: ",
    );
    user.append(file_path);
    user.append("\n\n```\n");
    user.append(source);
    user.append("\n```");
    system_and_user(EXTRACTION_SYSTEM_PROMPT, user)
}

/// A model's answer without the code fences around it: an opening fence at its start, a closing
/// one at its end, and white space on either side.
pub open spec fn unfenced(response: Seq<char>) -> Seq<char> {
    let t = trim(response);
    let body = if has_prefix(t, "```json"@) {
        t.skip("```json"@.len() as int)
    } else if has_prefix(t, "```"@) {
        t.skip("```"@.len() as int)
    } else {
        t
    };
    let inner = if has_suffix(body, "```"@) {
        body.take(body.len() - "```"@.len())
    } else {
        body
    };
    trim(inner)
}

/// Strip markdown code fences if present.
pub fn strip_code_fences(response: &str) -> (r: String)
    ensures
        r@ == unfenced(response@),
{
    let chars = chars_of(response);
    let t = trim_chars(chars.as_slice());
    let body = match strip_prefix(t, "```json") {
        Some(b) => b,
        None => match strip_prefix(t, "```") {
            Some(b) => b,
            None => t,
        },
    };
    let fence = chars_of("```");
    let inner = if ends_with(body, fence.as_slice()) {
        head(body, body.len() - fence.len())
    } else {
        body
    };
    string_of(trim_chars(inner))
}

/// One item of the model's answer.
#[derive(Debug, Clone)]
pub struct RawExtraction {
    pub name: String,
    pub ty: String,
    pub description: String,
}

/// The type of an extracted function: in the canonical form that the type parser gave it, or, where
/// it did not parse, the text that the model wrote.
#[derive(Debug, Clone)]
pub enum SigType {
    Parsed(String),
    Named(String),
}

/// What a type says.
pub enum SigTypeView {
    Parsed(Seq<char>),
    Named(Seq<char>),
}

impl View for SigType {
    type V = SigTypeView;

    open spec fn view(&self) -> SigTypeView {
        match self {
            SigType::Parsed(s) => SigTypeView::Parsed(s@),
            SigType::Named(s) => SigTypeView::Named(s@),
        }
    }
}

/// A function signature.
#[derive(Debug, Clone)]
pub struct FunctionSig {
    pub name: String,
    pub ty: SigType,
    pub description: String,
}

/// The signature that an item of the answer stands for, given what the type parser made of its
/// type. Falls back to a named type if parsing failed (LLM output can be imperfect).
pub fn parse_extraction_item(item: RawExtraction, parsed: Option<String>) -> (r: FunctionSig)
    ensures
        r.name@ == item.name@,
        r.description@ == item.description@,
        r.ty@ == match parsed {
            Some(canonical) => SigTypeView::Parsed(canonical@),
            None => SigTypeView::Named(item.ty@),
        },
{
    let ty = match parsed {
        Some(canonical) => SigType::Parsed(canonical),
        None => SigType::Named(item.ty),
    };
    FunctionSig { name: item.name, ty, description: item.description }
}

/// The request that shows both versions of a function to the model.
pub open spec fn assessment_request(
    name: Seq<char>,
    old_source: Seq<char>,
    new_source: Seq<char>,
) -> Seq<char> {
    "Function: "@ + name + "\n\nOLD SOURCE:\n```\n"@ + old_source + "\n```\n\nNEW SOURCE:\n```\n"@
        + new_source + "\n```"@
}

/// The messages that ask whether a function's logic change is breaking.
pub fn assess_logic_breaking(function_name: &str, old_source: &str, new_source: &str) -> (r: Vec<
    Message,
>)
    ensures
        message_views(r@) == conversation(
            LOGIC_ASSESSMENT_PROMPT@,
            assessment_request(function_name@, old_source@, new_source@),
        ),
{
    let mut user = String::from_str("Function: ");
    user.append(function_name);
    user.append("\n\nOLD SOURCE:\n```\n");
    user.append(old_source);
    user.append("\n```\n\nNEW SOURCE:\n```\n");
    user.append(new_source);
    user.append("\n```");
    system_and_user(LOGIC_ASSESSMENT_PROMPT, user)
}

/// The model's judgement of a change.
#[derive(Debug, Clone)]
pub struct AssessmentResponse {
    pub breaking: bool,
    pub reason: Option<String>,
}

/// Why a change is breaking, where the model says that it is.
///
/// `None` if it's safe or if the judgement could not be read.
pub fn parse_assessment_response(assessment: Option<AssessmentResponse>) -> (r: Option<String>)
    ensures
        match assessment {
            Some(a) => if a.breaking {
                r matches Some(reason) && reason@ == match a.reason {
                    Some(t) => t@,
                    None => "logic change detected"@,
                }
            } else {
                r is None
            },
            None => r is None,
        },
{
    match assessment {
        Some(a) => {
            if a.breaking {
                match a.reason {
                    Some(t) => Some(t),
                    None => Some(String::from_str("logic change detected")),
                }
            } else {
                None
            }
        },
        None => None,
    }
}

/// The signatures that the items of an answer stand for, in order, given what the type parser made of
/// each type.
pub fn parse_extraction_response(items: Vec<RawExtraction>, parsed: Vec<Option<String>>) -> (r: Vec<
    FunctionSig,
>)
    requires
        parsed@.len() == items@.len(),
    ensures
        r@.len() == items@.len(),
        forall|i: int|
            0 <= i < r@.len() ==> {
                &&& (#[trigger] r@[i]).name@ == items@[i].name@
                &&& r@[i].description@ == items@[i].description@
                &&& r@[i].ty@ == match parsed@[i] {
                    Some(canonical) => SigTypeView::Parsed(canonical@),
                    None => SigTypeView::Named(items@[i].ty@),
                }
            },
{
    let ghost all = items@;
    let ghost types = parsed@;
    let mut items = items;
    let mut parsed = parsed;
    let mut out: Vec<FunctionSig> = Vec::new();
    let total: usize = items.len();
    let mut i: usize = 0;
    while i < total
        invariant
            i <= total,
            total == all.len(),
            types.len() == all.len(),
            items@ == all.skip(i as int),
            parsed@ == types.skip(i as int),
            out@.len() == i,
            forall|j: int|
                0 <= j < i ==> {
                    &&& (#[trigger] out@[j]).name@ == all[j].name@
                    &&& out@[j].description@ == all[j].description@
                    &&& out@[j].ty@ == match types[j] {
                        Some(canonical) => SigTypeView::Parsed(canonical@),
                        None => SigTypeView::Named(all[j].ty@),
                    }
                },
        decreases total - i,
    {
        let item = items.remove(0);
        let ty = parsed.remove(0);
        proof {
            assert(all.skip(i as int)[0] == all[i as int]);
            assert(types.skip(i as int)[0] == types[i as int]);
            assert(all.skip(i as int).remove(0) =~= all.skip(i as int + 1));
            assert(types.skip(i as int).remove(0) =~= types.skip(i as int + 1));
        }
        out.push(parse_extraction_item(item, ty));
        i += 1;
    }
    out
}

/// The model is asked about the file that was read: the question names the file and holds its whole
/// source.
pub proof fn law_question_holds_file_and_source(file_path: Seq<char>, source: Seq<char>)
    ensures
        has_suffix(
            extraction_request(file_path, source),
            file_path + "\n\n```\n"@ + source + "\n```"@,
        ),
{
    let q = extraction_request(file_path, source);
    let end = file_path + "\n\n```\n"@ + source + "\n```"@;
    assert(q.skip(q.len() - end.len()) =~= end);
}

/// The model is shown the old source as the old one and the new source as the new one, and told which
/// function it is about.
pub proof fn law_assessment_tells_old_from_new(
    name: Seq<char>,
    old_source: Seq<char>,
    new_source: Seq<char>,
)
    ensures
        has_prefix(
            assessment_request(name, old_source, new_source),
            "Function: "@ + name + "\n\nOLD SOURCE:\n```\n"@ + old_source,
        ),
        has_suffix(
            assessment_request(name, old_source, new_source),
            "\n```\n\nNEW SOURCE:\n```\n"@ + new_source + "\n```"@,
        ),
{
    let q = assessment_request(name, old_source, new_source);
    let start = "Function: "@ + name + "\n\nOLD SOURCE:\n```\n"@ + old_source;
    let end = "\n```\n\nNEW SOURCE:\n```\n"@ + new_source + "\n```"@;
    assert(q.take(start.len() as int) =~= start);
    assert(q.skip(q.len() - end.len()) =~= end);
}

proof fn lemma_trim_plain(s: Seq<char>)
    requires
        s.len() > 0,
        !crate::text::is_space(s[0]),
        !crate::text::is_space(s.last()),
    ensures
        trim(s) == s,
{
    assert(crate::text::trim_start(s) == s);
    assert(crate::text::trim_end(s) == s);
}

/// What stands between code fences is taken out of them, with or without the word `json` behind the
/// first; and an answer without fences is taken as it is.
pub proof fn law_code_fences_are_taken_off(body: Seq<char>, plain: Seq<char>)
    requires
        !has_prefix(body + "```"@, "json"@),
        trim(plain) == plain,
        !has_prefix(plain, "```"@),
        !has_suffix(plain, "```"@),
    ensures
        unfenced("```json"@ + body + "```"@) == trim(body),
        unfenced("```"@ + body + "```"@) == trim(body),
        unfenced(plain) == plain,
{
    reveal_strlit("```json");
    reveal_strlit("```");
    reveal_strlit("json");
    let a = "```json"@ + body + "```"@;
    assert(a[0] == '`');
    assert(a.last() == "```"@[2]);
    lemma_trim_plain(a);
    assert(a.take(7) =~= "```json"@);
    let inner = a.skip(7);
    assert(inner =~= body + "```"@);
    assert(inner.skip(inner.len() - 3) =~= "```"@);
    assert(inner.take(inner.len() - 3) =~= body);
    let b = "```"@ + body + "```"@;
    assert(b[0] == '`');
    assert(b.last() == "```"@[2]);
    lemma_trim_plain(b);
    assert(b.take(3) =~= "```"@);
    assert(b.skip(3) =~= body + "```"@);
    assert(b.skip(3).take(4) =~= b.subrange(3, 7) || b.len() < 7);
    if has_prefix(b, "```json"@) {
        let rest = body + "```"@;
        assert(rest.take(4) =~= "json"@) by {
            assert forall|i: int| 0 <= i < 4 implies rest.take(4)[i] == "json"@[i] by {
                assert(b.take(7)[3 + i] == "```json"@[3 + i]);
                assert(b[3 + i] == rest[i]);
            }
        }
    }
    assert(b.skip(3).take(b.skip(3).len() - 3) =~= body);
    if has_prefix(plain, "```json"@) {
        assert(plain.take(3) =~= "```"@) by {
            assert forall|i: int| 0 <= i < 3 implies plain.take(3)[i] == "```"@[i] by {
                assert(plain.take(7)[i] == "```json"@[i]);
            }
        }
    }
    assert(trim(trim(plain)) == plain);
}

/// What a value says in contracts is what its fields say, each in its own place.
pub proof fn law_views_show_every_field(sig_type: SigType)
    ensures
        sig_type@ == (match sig_type {
            SigType::Parsed(s) => SigTypeView::Parsed(s@),
            SigType::Named(s) => SigTypeView::Named(s@),
        }),
{
}

/// The model is asked for all that a file exports before it is shown the file.
pub proof fn law_question_comes_before_the_file(file_path: Seq<char>, source: Seq<char>)
    ensures
        has_prefix(
            extraction_request(file_path, source),
            "Extract all exported types, functions, and values from this file.\nFile: "@ + file_path,
        ),
{
    let q = extraction_request(file_path, source);
    let start = "Extract all exported types, functions, and values from this file.\nFile: "@ + file_path;
    assert(q.take(start.len() as int) =~= start);
}

} // verus!
