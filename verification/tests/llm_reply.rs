use memory_server::llm::{clean_generated_query, message_content};

#[test]
fn missing_message_is_an_error() {
    assert_eq!(message_content(None), Err("No message returned".to_string()));
}

#[test]
fn message_text_is_trimmed() {
    assert_eq!(message_content(Some("  {\"facts\": []}\n")), Ok("{\"facts\": []}".to_string()));
}

#[test]
fn fenced_block_with_tag_is_extracted() {
    let reply = "```cypher\nMATCH (n:State) RETURN n ORDER BY n.weight DESC LIMIT 5\n```";
    assert_eq!(
        clean_generated_query(reply),
        "MATCH (n:State) RETURN n ORDER BY n.weight DESC LIMIT 5"
    );
}

#[test]
fn text_around_the_block_is_ignored() {
    let reply = "Here is the query:\n```\nMATCH (n) RETURN n\n```\nIt returns all nodes.";
    assert_eq!(clean_generated_query(reply), "MATCH (n) RETURN n");
}

#[test]
fn only_the_first_block_is_kept() {
    let reply = "```sql\nMATCH (a) RETURN a\n```\n```\nMATCH (b) RETURN b\n```";
    assert_eq!(clean_generated_query(reply), "MATCH (a) RETURN a");
}

#[test]
fn tag_line_without_fence_is_dropped() {
    assert_eq!(clean_generated_query("neo4j\nMATCH (n)\nRETURN n"), "MATCH (n)\nRETURN n");
}

#[test]
fn padded_tag_line_with_crlf_is_dropped() {
    assert_eq!(clean_generated_query(" cypher \r\nMATCH (n)\r\nRETURN n"), "MATCH (n)\nRETURN n");
}

#[test]
fn plain_reply_is_only_trimmed() {
    assert_eq!(clean_generated_query("  MATCH (n) RETURN n \n"), "MATCH (n) RETURN n");
}

#[test]
fn non_tag_first_line_is_kept() {
    assert_eq!(clean_generated_query("CYPHER\nMATCH (n)"), "CYPHER\nMATCH (n)");
}

#[test]
fn single_fence_is_left_in_place() {
    assert_eq!(clean_generated_query("```MATCH (n) RETURN n"), "```MATCH (n) RETURN n");
}

#[test]
fn four_backticks_hold_no_block() {
    assert_eq!(clean_generated_query("````"), "````");
}

#[test]
fn empty_block_gives_empty_query() {
    assert_eq!(clean_generated_query("``````"), "");
}
