//! Searching for functions, by type and by meaning.

use vstd::prelude::*;
use vstd::string::*;
use crate::format::TextFormat;
use crate::index::{row_of, ExtractedSig, SignatureRowView};
use crate::status::Status;
use crate::text::{lemma_ended_line, opt_text, split};

verus! {

/// A function that was found.
#[derive(Debug)]
pub struct SearchResult {
    pub repo_id: String,
    pub owner_name: String,
    pub repo_name: String,
    pub file_path: String,
    /// Implementation language (e.g. "rust", "python"), empty if unknown.
    pub language: String,
    pub function_name: String,
    pub type_signature: String,
    pub description: String,
    /// Cosine distance as it is shown (only populated for semantic search; lower = more similar).
    pub distance: Option<String>,
}

#[derive(Debug)]
pub struct SearchResponse {
    pub results: Vec<SearchResult>,
}

/// The lines that show a function: its name, place, language and distance, and below them its type
/// and its description.
pub open spec fn result_text(r: SearchResult) -> Seq<char> {
    r.function_name@ + "  "@ + r.owner_name@ + "/"@ + r.repo_name@ + ":"@ + r.file_path@ + (
    if r.language@.len() == 0 {
        ""@
    } else {
        "  ["@ + r.language@ + "]"@
    }) + (match r.distance {
        Some(d) => "  dist="@ + d@,
        None => ""@,
    }) + "\n  "@ + r.type_signature@ + "\n"@ + (if r.description@.len() == 0 {
        ""@
    } else {
        "  "@ + r.description@ + "\n"@
    })
}

/// The functions that were found, with an empty line between them.
pub open spec fn results_text(rs: Seq<SearchResult>) -> Seq<char>
    decreases rs.len(),
{
    if rs.len() == 0 {
        seq![]
    } else if rs.len() == 1 {
        result_text(rs[0])
    } else {
        results_text(rs.drop_last()) + "\n"@ + result_text(rs.last())
    }
}

fn render_result(r: &SearchResult) -> (s: String)
    ensures
        s@ == result_text(*r),
{
    let mut s = r.function_name.clone();
    s.append("  ");
    s.append(r.owner_name.as_str());
    s.append("/");
    s.append(r.repo_name.as_str());
    s.append(":");
    s.append(r.file_path.as_str());
    let mut language = String::from_str("");
    if !r.language.as_str().is_empty() {
        language = String::from_str("  [");
        language.append(r.language.as_str());
        language.append("]");
    }
    s.append(language.as_str());
    let mut distance = String::from_str("");
    match &r.distance {
        Some(d) => {
            distance = String::from_str("  dist=");
            distance.append(d.as_str());
        },
        None => {},
    }
    s.append(distance.as_str());
    s.append("\n  ");
    s.append(r.type_signature.as_str());
    s.append("\n");
    let mut description = String::from_str("");
    if !r.description.as_str().is_empty() {
        description = String::from_str("  ");
        description.append(r.description.as_str());
        description.append("\n");
    }
    s.append(description.as_str());
    s
}

impl TextFormat for SearchResponse {
    open spec fn text(&self) -> Seq<char> {
        if self.results@.len() == 0 {
            "(no results)\n"@
        } else {
            results_text(self.results@)
        }
    }

    open spec fn renders(&self) -> bool {
        true
    }

    fn to_text(&self) -> (r: String) {
        let v = &self.results;
        if v.len() == 0 {
            return String::from_str("(no results)\n");
        }
        let mut s = render_result(&v[0]);
        let mut i: usize = 1;
        while i < v.len()
            invariant
                1 <= i <= v@.len(),
                s@ == results_text(v@.take(i as int)),
            decreases v@.len() - i,
        {
            proof {
                assert(v@.take(i as int + 1).drop_last() =~= v@.take(i as int));
                assert(v@.take(i as int + 1).last() == v@[i as int]);
            }
            s.append("\n");
            s.append(render_result(&v[i]).as_str());
            i += 1;
        }
        proof {
            assert(v@.take(i as int) =~= v@);
        }
        s
    }
}

#[derive(Debug)]
pub struct TypeSearchRequest {
    /// A AgentCodeRepo type signature string, e.g. "forall a. Ord a => List a -> List a".
    pub query: String,
    pub limit: usize,
}

#[derive(Debug)]
pub struct SemanticSearchRequest {
    /// Free-text query, e.g. "sort a list of integers".
    pub query: String,
    pub limit: usize,
}

pub fn default_limit() -> (r: usize)
    ensures
        r == 20,
{
    20
}

/// What a query by type is held against: its canonical form, or the query itself where it has none.
pub open spec fn type_key(query: Seq<char>, canonical: Option<Seq<char>>) -> Seq<char> {
    match canonical {
        Some(c) => c,
        None => query,
    }
}

/// The type to search for: in the canonical form that the type parser gives it, so that it matches
/// regardless of variable naming, or as it was written where it does not parse.
pub fn search_by_type(body: &TypeSearchRequest, canonical: Option<String>) -> (r: String)
    ensures
        r@ == type_key(body.query@, opt_text(canonical)),
{
    match canonical {
        Some(c) => c,
        None => body.query.clone(),
    }
}

/// Whether a stored function is among those that a search by type is after.
pub open spec fn has_type(row: SignatureRowView, key: Seq<char>) -> bool {
    row.type_normalized == key
}

/// A function that was indexed with the canonical form of its type is found by every query that has
/// the same canonical form, however its variables are named, and whatever file and language the
/// function stands in; a query with another canonical form does not find it.
pub proof fn law_search_by_type_goes_by_canonical_form(
    sig: ExtractedSig,
    repo_id: Seq<char>,
    path: Seq<char>,
    commit: Seq<char>,
    id: Seq<char>,
    query: Seq<char>,
    canonical: Seq<char>,
)
    ensures
        has_type(row_of(repo_id, path, commit, sig, id), type_key(query, Some(canonical)))
            <==> sig.type_normalized@ == canonical,
{
}

/// The stored functions that a search by type is after.
pub open spec fn of_type(table: Set<SignatureRowView>, key: Seq<char>) -> Set<SignatureRowView> {
    table.filter(|row: SignatureRowView| has_type(row, key))
}

/// Whether rows are an answer to a search by type: each has the type, none stands there twice, and
/// there are as many of them as the limit allows.
pub open spec fn answers(
    table: Set<SignatureRowView>,
    key: Seq<char>,
    limit: nat,
    rows: Seq<SignatureRowView>,
) -> bool {
    &&& rows.no_duplicates()
    &&& rows.to_set().subset_of(of_type(table, key))
    &&& rows.len() == (if of_type(table, key).len() <= limit {
        of_type(table, key).len()
    } else {
        limit
    })
}

/// The language of types: the canonical form of a text, where it is a type, and which types are equal
/// up to the names of bound variables.
pub struct TypeLanguage {
    pub canonical: spec_fn(Seq<char>) -> Option<Seq<char>>,
    pub equal: spec_fn(Seq<char>, Seq<char>) -> bool,
}

/// Whether types are equal exactly where they have one canonical form.
pub open spec fn goes_by_canonical_form(lang: TypeLanguage) -> bool {
    forall|s: Seq<char>, t: Seq<char>|
        (lang.canonical)(s) is Some && (lang.canonical)(t) is Some ==> (#[trigger] (lang.equal)(s, t)
            <==> (lang.canonical)(s) == (lang.canonical)(t))
}

/// Whether every function is stored with the canonical form of its type, or with the text itself
/// where that is no type.
pub open spec fn stored_in_form(lang: TypeLanguage, table: Set<SignatureRowView>) -> bool {
    forall|row: SignatureRowView| #[trigger]
        table.contains(row) ==> row.type_normalized == type_key(
            row.type_signature,
            (lang.canonical)(row.type_signature),
        )
}

proof fn lemma_answer_is_complete(
    table: Set<SignatureRowView>,
    key: Seq<char>,
    limit: nat,
    rows: Seq<SignatureRowView>,
)
    requires
        table.finite(),
        answers(table, key, limit, rows),
        of_type(table, key).len() <= limit,
    ensures
        rows.to_set() == of_type(table, key),
{
    rows.unique_seq_to_set();
    table.lemma_len_filter(|row: SignatureRowView| has_type(row, key));
    vstd::set_lib::lemma_subset_equality(rows.to_set(), of_type(table, key));
}

/// Two queries with one canonical form are after the same functions, and find the same ones where the
/// limit lets all of them through.
pub proof fn law_one_canonical_form_finds_the_same(
    table: Set<SignatureRowView>,
    queries: (Seq<char>, Seq<char>),
    canonical: Seq<char>,
    limit: nat,
    found: (Seq<SignatureRowView>, Seq<SignatureRowView>),
)
    requires
        table.finite(),
        answers(table, type_key(queries.0, Some(canonical)), limit, found.0),
        answers(table, type_key(queries.1, Some(canonical)), limit, found.1),
        of_type(table, canonical).len() <= limit,
    ensures
        of_type(table, type_key(queries.0, Some(canonical))) == of_type(
            table,
            type_key(queries.1, Some(canonical)),
        ),
        found.0.to_set() == found.1.to_set(),
        found.0.to_set() == of_type(table, canonical),
{
    lemma_answer_is_complete(table, canonical, limit, found.0);
    lemma_answer_is_complete(table, canonical, limit, found.1);
}

/// Queries for types that are equal up to the names of bound variables find the same functions: where
/// the limit lets all of them through, those whose type equals the query, and no others. Of a
/// function whose signature is no type only the text is compared.
pub proof fn law_equal_types_find_the_same(
    lang: TypeLanguage,
    table: Set<SignatureRowView>,
    queries: (Seq<char>, Seq<char>),
    limit: nat,
    found: (Seq<SignatureRowView>, Seq<SignatureRowView>),
)
    requires
        goes_by_canonical_form(lang),
        table.finite(),
        stored_in_form(lang, table),
        (lang.canonical)(queries.0) is Some,
        (lang.canonical)(queries.1) is Some,
        (lang.equal)(queries.0, queries.1),
        answers(table, type_key(queries.0, (lang.canonical)(queries.0)), limit, found.0),
        answers(table, type_key(queries.1, (lang.canonical)(queries.1)), limit, found.1),
        of_type(table, type_key(queries.0, (lang.canonical)(queries.0))).len() <= limit,
    ensures
        found.0.to_set() == found.1.to_set(),
        forall|row: SignatureRowView|
            (lang.canonical)(row.type_signature) is Some ==> (#[trigger] found.0.to_set().contains(
                row,
            ) <==> table.contains(row) && (lang.equal)(row.type_signature, queries.0)),
        forall|row: SignatureRowView|
            (lang.canonical)(row.type_signature) is None ==> (#[trigger] found.0.to_set().contains(
                row,
            ) <==> table.contains(row) && Some(row.type_signature) == (lang.canonical)(queries.0)),
{
    let canonical = (lang.canonical)(queries.0).unwrap();
    law_one_canonical_form_finds_the_same(table, queries, canonical, limit, found);
    assert forall|row: SignatureRowView|
        (lang.canonical)(row.type_signature) is Some implies (#[trigger] found.0.to_set().contains(
        row,
    ) <==> table.contains(row) && (lang.equal)(row.type_signature, queries.0)) by {
        assert((lang.equal)(row.type_signature, queries.0) <==> (lang.canonical)(
            row.type_signature,
        ) == Some(canonical));
    }
}

/// A function as it was found in the index.
#[derive(Debug)]
pub struct FoundFunction {
    pub repo_id: String,
    pub owner_name: String,
    pub repo_name: String,
    pub file_path: String,
    pub language: String,
    pub function_name: String,
    pub type_signature: String,
    pub description: String,
}

/// The result that shows a function that was found by its type: it has no distance.
pub open spec fn type_result(f: FoundFunction) -> SearchResult {
    SearchResult {
        repo_id: f.repo_id,
        owner_name: f.owner_name,
        repo_name: f.repo_name,
        file_path: f.file_path,
        language: f.language,
        function_name: f.function_name,
        type_signature: f.type_signature,
        description: f.description,
        distance: None,
    }
}

/// The answer to a search by type: the functions that were found, in their order.
pub fn type_search_response(found: Vec<FoundFunction>) -> (r: SearchResponse)
    ensures
        r.results@ == found@.map_values(|f: FoundFunction| type_result(f)),
        forall|i: int|
            0 <= i < found@.len() ==> {
                let result = #[trigger] r.results@[i];
                &&& result.repo_id@ == found@[i].repo_id@
                &&& result.owner_name@ == found@[i].owner_name@
                &&& result.repo_name@ == found@[i].repo_name@
                &&& result.file_path@ == found@[i].file_path@
                &&& result.language@ == found@[i].language@
                &&& result.function_name@ == found@[i].function_name@
                &&& result.type_signature@ == found@[i].type_signature@
                &&& result.description@ == found@[i].description@
                &&& result.distance is None
            },
{
    let mut rest = found;
    let ghost all = found@;
    let mut results: Vec<SearchResult> = Vec::new();
    let total: usize = rest.len();
    let mut i: usize = 0;
    while i < total
        invariant
            i <= total,
            total == all.len(),
            rest@ == all.skip(i as int),
            results@ == all.take(i as int).map_values(|f: FoundFunction| type_result(f)),
        decreases total - i,
    {
        let f = rest.remove(0);
        proof {
            assert(all.skip(i as int)[0] == all[i as int]);
            assert(all.skip(i as int).remove(0) =~= all.skip(i as int + 1));
        }
        results.push(
            SearchResult {
                repo_id: f.repo_id,
                owner_name: f.owner_name,
                repo_name: f.repo_name,
                file_path: f.file_path,
                language: f.language,
                function_name: f.function_name,
                type_signature: f.type_signature,
                description: f.description,
                distance: None,
            },
        );
        proof {
            assert(results@ =~= all.take(i as int + 1).map_values(
                |f: FoundFunction| type_result(f),
            ));
        }
        i += 1;
    }
    proof {
        assert(all.take(i as int) =~= all);
    }
    SearchResponse { results }
}

/// Which of the vectors that a model gave for a query is searched for: the first. Where the model
/// failed or gave none there is no answer.
pub fn search_semantic(vectors: Option<usize>) -> (r: Result<usize, Status>)
    ensures
        match r {
            Ok(i) => vectors matches Some(n) && n > 0 && i == 0,
            Err(e) => e == Status::InternalServerError && (vectors matches Some(n)
                ==> n == 0),
        },
{
    match vectors {
        Some(n) => {
            if n > 0 {
                Ok(0)
            } else {
                Err(Status::InternalServerError)
            }
        },
        None => Err(Status::InternalServerError),
    }
}

/// A result names the function that was found and the place at which it was found, field by field,
/// and has no distance; so that two functions that differ have results that differ.
pub proof fn law_result_names_what_was_found(f: FoundFunction, g: FoundFunction)
    ensures
        type_result(f).repo_id == f.repo_id,
        type_result(f).owner_name == f.owner_name,
        type_result(f).repo_name == f.repo_name,
        type_result(f).file_path == f.file_path,
        type_result(f).language == f.language,
        type_result(f).function_name == f.function_name,
        type_result(f).type_signature == f.type_signature,
        type_result(f).description == f.description,
        type_result(f).distance is None,
        type_result(f) == type_result(g) ==> f == g,
{
}

/// Every function that was found is shown, in its place, with an empty line between two of them.
pub proof fn law_all_functions_are_shown(
    a: Seq<SearchResult>,
    b: Seq<SearchResult>,
    one: SearchResult,
)
    requires
        a.len() > 0,
        b.len() > 0,
    ensures
        results_text(a + b) == results_text(a) + "\n"@ + results_text(b),
        results_text(seq![one]) == result_text(one),
        crate::text::has_prefix(
            result_text(one),
            one.function_name@ + "  "@ + one.owner_name@ + "/"@ + one.repo_name@ + ":"@
                + one.file_path@,
        ),
    decreases b.len(),
{
    let start = one.function_name@ + "  "@ + one.owner_name@ + "/"@ + one.repo_name@ + ":"@
        + one.file_path@;
    assert(result_text(one).take(start.len() as int) =~= start);
    if b.len() == 1 {
        assert((a + b).drop_last() =~= a);
        assert((a + b).last() == b[0]);
    } else {
        law_all_functions_are_shown(a, b.drop_last(), one);
        assert((a + b).drop_last() =~= a + b.drop_last());
        assert(results_text(a + b) =~= results_text(a) + "\n"@ + results_text(b));
    }
}

/// A query that has a canonical form is searched by it, and one that has none by its own words.
pub proof fn law_queries_are_searched_in_form(query: Seq<char>, canonical: Seq<char>)
    ensures
        type_key(query, Some(canonical)) == canonical,
        type_key(query, None) == query,
{
}

/// A function that was found is shown in lines: its name and its place, with its language and its
/// distance where they are known; its type; and its description, where it has one.
pub proof fn law_function_is_shown_in_lines(r: SearchResult)
    ensures
        split(result_text(r), '\n') == split(
            r.function_name@ + "  "@ + r.owner_name@ + "/"@ + r.repo_name@ + ":"@ + r.file_path@ + (
            if r.language@.len() == 0 {
                seq![]
            } else {
                "  ["@ + r.language@ + "]"@
            }) + (match r.distance {
                Some(d) => "  dist="@ + d@,
                None => seq![],
            }),
            '\n',
        ) + split("  "@ + r.type_signature@, '\n') + (if r.description@.len() == 0 {
            seq![]
        } else {
            split("  "@ + r.description@, '\n')
        }) + seq![Seq::<char>::empty()],
{
    reveal_strlit("");
    reveal_strlit("\n");
    reveal_strlit("  ");
    reveal_strlit("\n  ");
    let line = r.function_name@ + "  "@ + r.owner_name@ + "/"@ + r.repo_name@ + ":"@ + r.file_path@ + (
    if r.language@.len() == 0 {
        seq![]
    } else {
        "  ["@ + r.language@ + "]"@
    }) + (match r.distance {
        Some(d) => "  dist="@ + d@,
        None => seq![],
    });
    let end = Seq::<char>::empty();
    let description = "  "@ + r.description@;
    let last = if r.description@.len() == 0 {
        end
    } else {
        description + seq!['\n'] + end
    };
    let signature = "  "@ + r.type_signature@;
    assert(result_text(r) =~= line + seq!['\n'] + (signature + seq!['\n'] + last));
    lemma_ended_line(line, signature + seq!['\n'] + last);
    lemma_ended_line(signature, last);
    lemma_ended_line(description, end);
}

/// An answer shows what was found, and says so where that is nothing.
pub proof fn law_answer_shows_what_was_found(r: SearchResponse)
    ensures
        r.results@.len() > 0 ==> r.text() == results_text(r.results@),
        r.results@.len() == 0 ==> r.text() == "(no results)\n"@,
{
}

/// There is a text for every answer; a list has one where each of its items has.
pub proof fn law_answers_can_be_shown(search_response: SearchResponse)
    ensures
        search_response.renders(),
{
}

} // verus!
