use memory_server::neo4j::{
    fact_from_node, fact_type_from_labels, plan_store_data, statements_for_fact,
    store_statements_with_ids, CypherStatement, NodeRecord, ParamValue, EVENT_MERGE_QUERY,
    STATE_ARCHIVE_QUERY, STATE_CREATE_QUERY,
};
use memory_server::neo4j::{take_row, RowDecision, RowRead};
use memory_server::types::{ExtractedFact, ExtractionResult, FactType};

fn fact(t: FactType, entity: &str, attribute: &str) -> ExtractedFact {
    ExtractedFact {
        fact_type: t,
        entity: entity.to_string(),
        attribute: attribute.to_string(),
        value: "v".to_string(),
        context: "c".to_string(),
        change_reason: Some("moved".to_string()),
        confidence_bits: 0.75f32.to_bits(),
    }
}

fn names(s: &CypherStatement) -> Vec<String> {
    s.params.iter().map(|(n, _)| n.clone()).collect()
}

fn text_param(s: &CypherStatement, name: &str) -> Option<String> {
    s.params.iter().find_map(|(n, v)| match v {
        ParamValue::Text(t) if n == name => Some(t.clone()),
        _ => None,
    })
}

#[test]
fn event_is_merged_once() {
    let v = statements_for_fact(&fact(FactType::Event, "user", "job"), "id-1");
    assert_eq!(v.len(), 1);
    assert_eq!(v[0].text, EVENT_MERGE_QUERY);
    assert_eq!(names(&v[0]), vec!["id", "entity", "attribute", "value", "context", "confidence"]);
    assert_eq!(text_param(&v[0], "id"), Some("id-1".to_string()));
    assert_eq!(text_param(&v[0], "entity"), Some("user".to_string()));
    assert!(matches!(v[0].params[5].1, ParamValue::ConfidenceBits(b) if b == 0.75f32.to_bits()));
}

#[test]
fn state_archives_then_creates() {
    let v = statements_for_fact(&fact(FactType::State, "user", "city"), "id-2");
    assert_eq!(v.len(), 2);
    assert_eq!(v[0].text, STATE_ARCHIVE_QUERY);
    assert_eq!(names(&v[0]), vec!["entity", "attribute"]);
    assert_eq!(text_param(&v[0], "attribute"), Some("city".to_string()));
    assert_eq!(v[1].text, STATE_CREATE_QUERY);
    assert_eq!(
        names(&v[1]),
        vec!["id", "entity", "attribute", "value", "context", "change_reason", "confidence"]
    );
    assert!(matches!(&v[1].params[5].1, ParamValue::OptionalText(Some(r)) if r == "moved"));
}

#[test]
fn non_fact_writes_nothing() {
    assert!(statements_for_fact(&fact(FactType::NotAFact, "x", "y"), "id").is_empty());
}

#[test]
fn statements_follow_the_facts_in_order() {
    let data = ExtractionResult {
        facts: vec![
            fact(FactType::State, "a", "1"),
            fact(FactType::NotAFact, "b", "2"),
            fact(FactType::Event, "c", "3"),
        ],
    };
    let ids = vec!["i0".to_string(), "i1".to_string(), "i2".to_string()];
    let v = store_statements_with_ids(&data, &ids);
    assert_eq!(v.len(), 3);
    assert_eq!(v[0].text, STATE_ARCHIVE_QUERY);
    assert_eq!(v[1].text, STATE_CREATE_QUERY);
    assert_eq!(text_param(&v[1], "id"), Some("i0".to_string()));
    assert_eq!(v[2].text, EVENT_MERGE_QUERY);
    assert_eq!(text_param(&v[2], "id"), Some("i2".to_string()));
}

#[test]
fn planned_ids_are_fresh_uuids() {
    let data = ExtractionResult {
        facts: vec![fact(FactType::Event, "a", "1"), fact(FactType::State, "b", "2")],
    };
    let v = plan_store_data(&data);
    assert_eq!(v.len(), 3);
    let id0 = text_param(&v[0], "id").unwrap();
    let id1 = text_param(&v[2], "id").unwrap();
    for id in [&id0, &id1] {
        assert_eq!(id.chars().count(), 36);
        assert_eq!(id.chars().nth(14), Some('4'));
        assert_eq!(id.chars().nth(8), Some('-'));
    }
    assert_ne!(id0, id1);
}

#[test]
fn empty_extraction_writes_nothing() {
    assert!(plan_store_data(&ExtractionResult { facts: vec![] }).is_empty());
}

#[test]
fn event_label_wins() {
    let l = |v: &[&str]| v.iter().map(|s| s.to_string()).collect::<Vec<String>>();
    assert_eq!(fact_type_from_labels(&l(&["State", "Event"])), FactType::Event);
    assert_eq!(fact_type_from_labels(&l(&["ArchivedState", "State"])), FactType::State);
    assert_eq!(fact_type_from_labels(&l(&["ArchivedState"])), FactType::NotAFact);
    assert_eq!(fact_type_from_labels(&l(&[])), FactType::NotAFact);
}

#[test]
fn node_fields_default_to_empty() {
    let node = NodeRecord {
        labels: vec!["State".to_string()],
        entity: Some("user".to_string()),
        attribute: None,
        value: Some("Berlin".to_string()),
        context: None,
        change_reason: None,
        confidence_bits: 0,
    };
    let f = fact_from_node(&node);
    assert_eq!(f.fact_type, FactType::State);
    assert_eq!(f.entity, "user");
    assert_eq!(f.attribute, "");
    assert_eq!(f.value, "Berlin");
    assert_eq!(f.context, "");
    assert_eq!(f.change_reason, None);
    assert_eq!(f.confidence_bits, 0);
}

#[test]
fn rows_are_taken_until_the_end() {
    let node = NodeRecord {
        labels: vec!["Event".to_string()],
        entity: Some("user".to_string()),
        attribute: Some("job".to_string()),
        value: None,
        context: None,
        change_reason: None,
        confidence_bits: 0,
    };
    let mut facts = Vec::new();
    assert!(matches!(take_row(&mut facts, RowRead::Node(node)), RowDecision::Next));
    assert_eq!(facts.len(), 1);
    assert_eq!(facts[0].fact_type, FactType::Event);
    assert!(matches!(take_row(&mut facts, RowRead::End), RowDecision::Done));
    assert!(matches!(take_row(&mut facts, RowRead::StreamError), RowDecision::Done));
    assert!(matches!(take_row(&mut facts, RowRead::MissingNode("no n".to_string())), RowDecision::Fail(e) if e == "no n"));
    assert_eq!(facts.len(), 1);
}

#[test]
fn defaults_are_empty_non_facts() {
    assert_eq!(FactType::default(), FactType::NotAFact);
    let f = ExtractedFact::default();
    assert_eq!(f.fact_type, FactType::NotAFact);
    assert_eq!(f.entity, "");
    assert_eq!(f.change_reason, None);
    assert_eq!(f32::from_bits(f.confidence_bits), 0.0);
    assert!(ExtractionResult::default().facts.is_empty());
}
