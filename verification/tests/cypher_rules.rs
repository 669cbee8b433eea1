use memory_server::neo4j::{check_read_only, validate_cypher_query, QueryRejection};

fn unsafe_op(r: Result<(), QueryRejection>) -> Option<String> {
    match r {
        Err(QueryRejection::UnsafeOperation(op)) => Some(op),
        _ => None,
    }
}

#[test]
fn read_queries_are_accepted() {
    assert!(validate_cypher_query("MATCH (n:Event) RETURN n ORDER BY n.weight DESC LIMIT 10").is_ok());
    assert!(validate_cypher_query("RETURN 1").is_ok());
}

#[test]
fn lower_case_and_padding_are_accepted() {
    assert!(validate_cypher_query("  \n match (n) return n  ").is_ok());
}

#[test]
fn non_read_start_is_refused() {
    assert!(matches!(validate_cypher_query("CREATE (n)"), Err(QueryRejection::NotReadOnly)));
    assert!(matches!(validate_cypher_query("WITH 1 AS x RETURN x"), Err(QueryRejection::NotReadOnly)));
    assert!(matches!(validate_cypher_query(""), Err(QueryRejection::NotReadOnly)));
}

#[test]
fn write_keyword_is_refused() {
    assert_eq!(unsafe_op(validate_cypher_query("MATCH (n) DETACH DELETE n")), Some("DELETE".to_string()));
    assert_eq!(unsafe_op(validate_cypher_query("match (n) call db.labels()")), Some("CALL".to_string()));
}

#[test]
fn first_keyword_of_the_list_is_reported() {
    assert_eq!(
        unsafe_op(validate_cypher_query("MATCH (n) SET n.x = 1 REMOVE n.y")),
        Some("REMOVE".to_string())
    );
}

#[test]
fn keyword_inside_a_word_is_refused() {
    assert_eq!(unsafe_op(validate_cypher_query("MATCH (n:Asset) RETURN n")), Some("SET".to_string()));
}

#[test]
fn unicode_upper_casing_counts() {
    // U+017F (long s) upper-cases to `S`, so the query holds `SET`.
    assert_eq!(unsafe_op(validate_cypher_query("MATCH (n) RETURN n.\u{17f}et")), Some("SET".to_string()));
}

#[test]
fn check_does_not_upper_case() {
    assert!(matches!(check_read_only("match (n) return n"), Err(QueryRejection::NotReadOnly)));
    assert!(check_read_only("\tMATCH (n) RETURN n\n").is_ok());
}

#[test]
fn rejection_messages() {
    assert_eq!(QueryRejection::NotReadOnly.message(), "Query must start with MATCH or RETURN");
    assert_eq!(
        QueryRejection::UnsafeOperation("DROP".to_string()).message(),
        "Unsafe operation detected: DROP"
    );
}

#[test]
fn merge_query_is_refused() {
    assert_eq!(
        unsafe_op(validate_cypher_query("MATCH (n:Event) MERGE (m:State {entity: n.entity}) RETURN n")),
        Some("MERGE".to_string())
    );
}

#[test]
fn foreach_is_refused() {
    assert_eq!(unsafe_op(validate_cypher_query("MATCH (n) RETURN n.foreachCount")), Some("FOREACH".to_string()));
    assert_eq!(
        unsafe_op(validate_cypher_query("MATCH p = (a)-->(b) FOREACH (x IN nodes(p) | REMOVE x.k) RETURN a")),
        Some("REMOVE".to_string())
    );
    assert_eq!(
        unsafe_op(validate_cypher_query("MATCH (n) FOREACH (x IN [n] | MERGE (x)-[:R]->(x)) RETURN n")),
        Some("MERGE".to_string())
    );
}

#[test]
fn read_of_a_download_property_is_accepted() {
    assert!(validate_cypher_query("MATCH (n) RETURN n.download, n.payload").is_ok());
}
