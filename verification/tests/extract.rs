use agentcoderepo::extract::{
    assess_logic_breaking, extract_signatures, parse_assessment_response, parse_extraction_item,
    parse_extraction_response, strip_code_fences, AssessmentResponse, FunctionSig, RawExtraction,
    SigType,
};

fn text(v: &serde_json::Value, key: &str) -> String {
    v[key].as_str().unwrap().to_string()
}

/// Read an answer; `parse` stands for the type parser.
fn signatures(response: &str, parse: fn(&str) -> Option<String>) -> Vec<FunctionSig> {
    let json = strip_code_fences(response);
    let items: Vec<serde_json::Value> = serde_json::from_str(&json).unwrap();
    let items: Vec<RawExtraction> = items
        .iter()
        .map(|v| RawExtraction {
            name: text(v, "name"),
            ty: text(v, "type"),
            description: text(v, "description"),
        })
        .collect();
    let parsed: Vec<Option<String>> = items.iter().map(|i| parse(&i.ty)).collect();
    parse_extraction_response(items, parsed)
}

fn parses(ty: &str) -> Option<String> {
    Some(ty.to_string())
}

fn fails(_: &str) -> Option<String> {
    None
}

#[test]
fn parse_clean_json() {
    let json = r#"[
            {
                "name": "sort",
                "type": "forall a. Ord a => List a -> List a",
                "description": "Sort a list"
            }
        ]"#;
    let sigs = signatures(json, parses);
    assert_eq!(sigs.len(), 1);
    assert_eq!(sigs[0].name, "sort");
    assert_eq!(sigs[0].description, "Sort a list");
    // The type is the one that was parsed
    assert!(matches!(&sigs[0].ty, SigType::Parsed(s) if s == "forall a. Ord a => List a -> List a"));
}

#[test]
fn unparseable_type_falls_back_to_named() {
    let json = r#"[{
            "name": "weird",
            "type": "something the LLM made up ???",
            "description": "unparseable"
        }]"#;
    let sigs = signatures(json, fails);
    assert_eq!(sigs.len(), 1);
    assert!(matches!(&sigs[0].ty, SigType::Named(s) if s.contains("???")));
}

#[test]
fn parse_json_with_code_fences() {
    let json = "```json\n[{\"name\": \"f\", \"type\": \"Int -> Int\", \"description\": \"d\"}]\n```";
    let sigs = signatures(json, parses);
    assert_eq!(sigs.len(), 1);
    assert_eq!(sigs[0].name, "f");
}

#[test]
fn parse_empty_array() {
    let sigs = signatures("[]", parses);
    assert!(sigs.is_empty());
}

#[test]
fn fences_are_stripped() {
    assert_eq!(strip_code_fences("  ```\n[1]\n```  "), "[1]");
    assert_eq!(strip_code_fences("```json[1]```"), "[1]");
    assert_eq!(strip_code_fences(" [1] "), "[1]");
    assert_eq!(strip_code_fences("[1]```"), "[1]");
}

#[test]
fn prompts_hold_the_source() {
    let messages = extract_signatures("src/a.rs", "fn a() {}");
    assert_eq!(messages.len(), 2);
    assert_eq!(messages[0].role, "system");
    assert_eq!(messages[1].role, "user");
    assert!(messages[1].content.contains("src/a.rs") && messages[1].content.contains("fn a() {}"));
    let messages = assess_logic_breaking("f", "old", "new");
    assert_eq!(
        messages[1].content,
        "Function: f\n\nOLD SOURCE:\n```\nold\n```\n\nNEW SOURCE:\n```\nnew\n```"
    );
}

#[test]
fn only_a_breaking_judgement_has_a_reason() {
    let judged = |breaking: bool, reason: Option<&str>| {
        parse_assessment_response(Some(AssessmentResponse {
            breaking,
            reason: reason.map(|r| r.to_string()),
        }))
    };
    assert_eq!(judged(true, Some("sorts down")).as_deref(), Some("sorts down"));
    assert_eq!(judged(true, None).as_deref(), Some("logic change detected"));
    assert_eq!(judged(false, Some("x")), None);
    assert_eq!(parse_assessment_response(None), None);
}

#[test]
fn item_keeps_its_name_and_description() {
    let item = RawExtraction {
        name: "n".to_string(),
        ty: "t".to_string(),
        description: "d".to_string(),
    };
    let sig = parse_extraction_item(item, Some("T".to_string()));
    assert_eq!((sig.name.as_str(), sig.description.as_str()), ("n", "d"));
    assert!(matches!(sig.ty, SigType::Parsed(s) if s == "T"));
}
