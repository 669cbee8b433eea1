//! The graph side of the memory: which Cypher statements store a set of
//! extracted facts, which read queries are allowed to run, and how a stored
//! node becomes a fact again.

use vstd::prelude::*;
use crate::ids;
use crate::text;
use crate::types::{ExtractedFact, ExtractionResult, FactModel, FactType, opt_view, clone_opt_string};

verus! {

/// A connection pool to a Neo4j database.
#[verifier::external_type_specification]
#[verifier::external_body]
pub struct ExGraph(neo4rs::Graph);

/// A handle on the graph database that holds the long-term memory.
pub struct Neo4jClient {
    graph: neo4rs::Graph,
}

impl Neo4jClient {
    /// A client over an open connection pool.
    pub fn from_graph(graph: neo4rs::Graph) -> (c: Neo4jClient)
        ensures
            c.graph() == graph,
    {
        Neo4jClient { graph }
    }

    /// The connection pool.
    pub closed spec fn graph(&self) -> neo4rs::Graph {
        self.graph
    }

    /// The connection pool, to run statements on.
    pub fn graph_ref(&self) -> (g: &neo4rs::Graph)
        ensures
            *g == self.graph(),
    {
        &self.graph
    }
}

/// Writes an event: the node of the same entity and attribute is created
/// with weight 1.0 the first time and has its weight raised by 0.1 after.
pub const EVENT_MERGE_QUERY: &'static str = "MERGE (e:Event {entity: $entity, attribute: $attribute})\n                     ON CREATE SET\n                         e.id        = $id,\n                         e.value     = $value,\n                         e.context   = $context,\n                         e.confidence = $confidence,\n                         e.timestamp = timestamp(),\n                         e.weight    = 1.0\n                     ON MATCH SET\n                         e.weight    = e.weight + 0.1";

/// Moves the current state of an entity's attribute to the archive.
pub const STATE_ARCHIVE_QUERY: &'static str = "MATCH (s:State {entity: $entity, attribute: $attribute})\n                     SET s:ArchivedState\n                     REMOVE s:State";

/// Writes a new current state.
pub const STATE_CREATE_QUERY: &'static str = "CREATE (s:State {\n                         id:            $id,\n                         entity:        $entity,\n                         attribute:     $attribute,\n                         value:         $value,\n                         context:       $context,\n                         change_reason: $change_reason,\n                         confidence:    $confidence,\n                         timestamp:     timestamp(),\n                         weight:        1.0\n                     })";

/// A value bound to a statement parameter.
#[derive(Debug, Clone)]
pub enum ParamValue {
    Text(String),
    OptionalText(Option<String>),
    /// A confidence, as the bit pattern of a single-precision value.
    ConfidenceBits(u32),
}

/// The mathematical value of a `ParamValue`.
pub enum ParamModel {
    Text(Seq<char>),
    OptionalText(Option<Seq<char>>),
    ConfidenceBits(u32),
}

impl View for ParamValue {
    type V = ParamModel;

    open spec fn view(&self) -> ParamModel {
        match self {
            ParamValue::Text(s) => ParamModel::Text(s@),
            ParamValue::OptionalText(o) => ParamModel::OptionalText(opt_view(*o)),
            ParamValue::ConfidenceBits(b) => ParamModel::ConfidenceBits(*b),
        }
    }
}

/// A Cypher statement with its named parameters, in the order they are
/// bound.
#[derive(Debug, Clone)]
pub struct CypherStatement {
    pub text: String,
    pub params: Vec<(String, ParamValue)>,
}

/// The mathematical value of a `CypherStatement`.
pub struct StatementModel {
    pub text: Seq<char>,
    pub params: Seq<(Seq<char>, ParamModel)>,
}

/// The view of a named parameter.
pub open spec fn param_view(p: (String, ParamValue)) -> (Seq<char>, ParamModel) {
    (p.0@, p.1@)
}

impl View for CypherStatement {
    type V = StatementModel;

    open spec fn view(&self) -> StatementModel {
        StatementModel { text: self.text@, params: self.params@.map_values(|p| param_view(p)) }
    }
}

/// The views of a sequence of statements.
pub open spec fn statement_views(v: Seq<CypherStatement>) -> Seq<StatementModel> {
    v.map_values(|s: CypherStatement| s@)
}

/// The statement that records an event fact under the node id `id`.
pub open spec fn event_statement(f: FactModel, id: Seq<char>) -> StatementModel {
    StatementModel {
        text: EVENT_MERGE_QUERY@,
        params: seq![
            ("id"@, ParamModel::Text(id)),
            ("entity"@, ParamModel::Text(f.entity)),
            ("attribute"@, ParamModel::Text(f.attribute)),
            ("value"@, ParamModel::Text(f.value)),
            ("context"@, ParamModel::Text(f.context)),
            ("confidence"@, ParamModel::ConfidenceBits(f.confidence_bits)),
        ],
    }
}

/// The statement that archives the current state of a fact's entity and
/// attribute.
pub open spec fn archive_statement(f: FactModel) -> StatementModel {
    StatementModel {
        text: STATE_ARCHIVE_QUERY@,
        params: seq![
            ("entity"@, ParamModel::Text(f.entity)),
            ("attribute"@, ParamModel::Text(f.attribute)),
        ],
    }
}

/// The statement that writes a state fact as the new current state under
/// the node id `id`.
pub open spec fn create_state_statement(f: FactModel, id: Seq<char>) -> StatementModel {
    StatementModel {
        text: STATE_CREATE_QUERY@,
        params: seq![
            ("id"@, ParamModel::Text(id)),
            ("entity"@, ParamModel::Text(f.entity)),
            ("attribute"@, ParamModel::Text(f.attribute)),
            ("value"@, ParamModel::Text(f.value)),
            ("context"@, ParamModel::Text(f.context)),
            ("change_reason"@, ParamModel::OptionalText(f.change_reason)),
            ("confidence"@, ParamModel::ConfidenceBits(f.confidence_bits)),
        ],
    }
}

/// The statements that store one fact: an event is merged, a state first
/// archives the current one and then is created, and a non-fact is skipped.
pub open spec fn fact_statements(f: FactModel, id: Seq<char>) -> Seq<StatementModel> {
    match f.fact_type {
        FactType::Event => seq![event_statement(f, id)],
        FactType::State => seq![archive_statement(f), create_state_statement(f, id)],
        FactType::NotAFact => seq![],
    }
}

/// A parameter named after a field of the fact, or `id`, is bound to that
/// field, or to the node id.
pub open spec fn carries_fact_field(f: FactModel, id: Seq<char>, p: (Seq<char>, ParamModel)) -> bool {
    &&& p.0 == "id"@ ==> p.1 == ParamModel::Text(id)
    &&& p.0 == "entity"@ ==> p.1 == ParamModel::Text(f.entity)
    &&& p.0 == "attribute"@ ==> p.1 == ParamModel::Text(f.attribute)
    &&& p.0 == "value"@ ==> p.1 == ParamModel::Text(f.value)
    &&& p.0 == "context"@ ==> p.1 == ParamModel::Text(f.context)
    &&& p.0 == "change_reason"@ ==> p.1 == ParamModel::OptionalText(f.change_reason)
    &&& p.0 == "confidence"@ ==> p.1 == ParamModel::ConfidenceBits(f.confidence_bits)
}

/// Every parameter bound by a statement that stores a fact carries the
/// fact's field of the same name: `id` the node id, `entity`, `attribute`,
/// `value`, `context` and `change_reason` the fact's texts, `confidence` its
/// confidence; an event binds all but `change_reason`, the archive of a
/// state binds `entity` and `attribute`, and the new state binds all seven.
pub proof fn lemma_statement_params_carry_fact_fields(f: FactModel, id: Seq<char>)
    ensures
        forall|i: int, j: int|
            #![trigger fact_statements(f, id)[i].params[j]]
            0 <= i < fact_statements(f, id).len() && 0 <= j < fact_statements(f, id)[i].params.len()
                ==> carries_fact_field(f, id, fact_statements(f, id)[i].params[j]),
        f.fact_type == FactType::Event ==> fact_statements(f, id).len() == 1
            && fact_statements(f, id)[0].text == EVENT_MERGE_QUERY@
            && fact_statements(f, id)[0].params.map_values(|p: (Seq<char>, ParamModel)| p.0) =~= seq![
                "id"@,
                "entity"@,
                "attribute"@,
                "value"@,
                "context"@,
                "confidence"@,
            ],
        f.fact_type == FactType::State ==> fact_statements(f, id).len() == 2
            && fact_statements(f, id)[0].text == STATE_ARCHIVE_QUERY@
            && fact_statements(f, id)[0].params.map_values(|p: (Seq<char>, ParamModel)| p.0) =~= seq![
                "entity"@,
                "attribute"@,
            ] && fact_statements(f, id)[1].text == STATE_CREATE_QUERY@
            && fact_statements(f, id)[1].params.map_values(|p: (Seq<char>, ParamModel)| p.0) =~= seq![
                "id"@,
                "entity"@,
                "attribute"@,
                "value"@,
                "context"@,
                "change_reason"@,
                "confidence"@,
            ],
        f.fact_type == FactType::NotAFact ==> fact_statements(f, id).len() == 0,
{
    reveal_strlit("id");
    reveal_strlit("entity");
    reveal_strlit("attribute");
    reveal_strlit("value");
    reveal_strlit("context");
    reveal_strlit("change_reason");
    reveal_strlit("confidence");
    assert("id"@.len() == 2);
    assert("entity"@.len() == 6);
    assert("attribute"@.len() == 9);
    assert("value"@.len() == 5);
    assert("context"@.len() == 7);
    assert("change_reason"@.len() == 13);
    assert("confidence"@.len() == 10);
    let ss = fact_statements(f, id);
    assert forall|i: int, j: int|
        0 <= i < ss.len() && 0 <= j < ss[i].params.len() implies carries_fact_field(
        f,
        id,
        #[trigger] ss[i].params[j],
    ) by {
        match f.fact_type {
            FactType::Event => {
                assert(i == 0);
                assert(j == 0 || j == 1 || j == 2 || j == 3 || j == 4 || j == 5);
            },
            FactType::State => {
                if i == 0 {
                    assert(j == 0 || j == 1);
                } else {
                    assert(i == 1);
                    assert(j == 0 || j == 1 || j == 2 || j == 3 || j == 4 || j == 5 || j == 6);
                }
            },
            FactType::NotAFact => {},
        }
    }
}

/// A state fact first moves the current state of its entity and attribute
/// to the archive, and only then writes itself as the new current state.
pub proof fn lemma_state_archives_before_creating(f: FactModel, id: Seq<char>)
    requires
        f.fact_type == FactType::State,
    ensures
        fact_statements(f, id).len() == 2,
        fact_statements(f, id)[0].text == STATE_ARCHIVE_QUERY@,
        fact_statements(f, id)[1].text == STATE_CREATE_QUERY@,
        fact_statements(f, id)[0].params[0] == fact_statements(f, id)[1].params[1],
        fact_statements(f, id)[0].params[1] == fact_statements(f, id)[1].params[2],
{
}

/// The statements that store `facts` in order, the fact at index `i` under
/// the node id `ids[i]`.
pub open spec fn store_statements(facts: Seq<FactModel>, ids: Seq<Seq<char>>) -> Seq<StatementModel>
    decreases facts.len(),
{
    if facts.len() == 0 {
        seq![]
    } else {
        store_statements(facts.drop_last(), ids.take(facts.len() - 1)) + fact_statements(
            facts.last(),
            ids[facts.len() - 1],
        )
    }
}

fn text_param(name: &str, v: &String) -> (p: (String, ParamValue))
    ensures
        param_view(p) == (name@, ParamModel::Text(v@)),
{
    (String::from_str(name), ParamValue::Text(v.clone()))
}

/// The statements that store one fact under the node id `id`.
pub fn statements_for_fact(fact: &ExtractedFact, id: &str) -> (v: Vec<CypherStatement>)
    ensures
        statement_views(v@) == fact_statements(fact@, id@),
{
    let idv = String::from_str(id);
    match fact.fact_type {
        FactType::Event => {
            let mut params: Vec<(String, ParamValue)> = Vec::new();
            params.push(text_param("id", &idv));
            params.push(text_param("entity", &fact.entity));
            params.push(text_param("attribute", &fact.attribute));
            params.push(text_param("value", &fact.value));
            params.push(text_param("context", &fact.context));
            params.push(
                (String::from_str("confidence"), ParamValue::ConfidenceBits(fact.confidence_bits)),
            );
            let st = CypherStatement { text: String::from_str(EVENT_MERGE_QUERY), params };
            assert(st@.params =~= event_statement(fact@, id@).params);
            let v = vec![st];
            assert(statement_views(v@) =~= fact_statements(fact@, id@));
            v
        },
        FactType::State => {
            let mut ap: Vec<(String, ParamValue)> = Vec::new();
            ap.push(text_param("entity", &fact.entity));
            ap.push(text_param("attribute", &fact.attribute));
            let archive = CypherStatement { text: String::from_str(STATE_ARCHIVE_QUERY), params: ap };
            assert(archive@.params =~= archive_statement(fact@).params);
            let mut cp: Vec<(String, ParamValue)> = Vec::new();
            cp.push(text_param("id", &idv));
            cp.push(text_param("entity", &fact.entity));
            cp.push(text_param("attribute", &fact.attribute));
            cp.push(text_param("value", &fact.value));
            cp.push(text_param("context", &fact.context));
            cp.push(
                (
                    String::from_str("change_reason"),
                    ParamValue::OptionalText(clone_opt_string(&fact.change_reason)),
                ),
            );
            cp.push(
                (String::from_str("confidence"), ParamValue::ConfidenceBits(fact.confidence_bits)),
            );
            let create = CypherStatement { text: String::from_str(STATE_CREATE_QUERY), params: cp };
            assert(create@.params =~= create_state_statement(fact@, id@).params);
            let v = vec![archive, create];
            assert(statement_views(v@) =~= fact_statements(fact@, id@));
            v
        },
        FactType::NotAFact => {
            let v: Vec<CypherStatement> = Vec::new();
            assert(statement_views(v@) =~= fact_statements(fact@, id@));
            v
        },
    }
}

/// How many statements store `facts`: one per event and two per state.
pub open spec fn statement_count(facts: Seq<FactModel>) -> int
    decreases facts.len(),
{
    if facts.len() == 0 {
        0
    } else {
        statement_count(facts.drop_last()) + match facts.last().fact_type {
            FactType::Event => 1int,
            FactType::State => 2int,
            FactType::NotAFact => 0int,
        }
    }
}

/// Storing facts runs one statement per event, two per state and none for
/// anything else, whatever node ids are used.
pub proof fn lemma_store_statement_count(facts: Seq<FactModel>, ids: Seq<Seq<char>>)
    ensures
        store_statements(facts, ids).len() == statement_count(facts),
    decreases facts.len(),
{
    if facts.len() > 0 {
        lemma_store_statement_count(facts.drop_last(), ids.take(facts.len() - 1));
    }
}

/// The statements that store the facts of `data` in order, the fact at
/// index `i` under the node id `ids[i]`.
pub fn store_statements_with_ids(data: &ExtractionResult, ids: &Vec<String>) -> (v: Vec<
    CypherStatement,
>)
    requires
        ids@.len() == data.facts@.len(),
    ensures
        statement_views(v@) == store_statements(data.fact_views(), text::views(ids@)),
{
    let n = data.facts.len();
    let ghost facts = data.fact_views();
    let ghost idv = text::views(ids@);
    let mut out: Vec<CypherStatement> = Vec::new();
    let mut i: usize = 0;
    assert(facts.take(0) =~= Seq::<FactModel>::empty());
    assert(statement_views(out@) =~= Seq::<StatementModel>::empty());
    while i < n
        invariant
            i <= n,
            n == data.facts@.len(),
            n == ids@.len(),
            facts == data.fact_views(),
            idv == text::views(ids@),
            statement_views(out@) == store_statements(facts.take(i as int), idv.take(i as int)),
        decreases n - i,
    {
        let mut more = statements_for_fact(&data.facts[i], ids[i].as_str());
        let ghost before = out@;
        let ghost added = more@;
        out.append(&mut more);
        proof {
            let fs = facts.take(i + 1);
            let is = idv.take(i + 1);
            assert(fs.drop_last() =~= facts.take(i as int));
            assert(is.take(i as int) =~= idv.take(i as int));
            assert(fs.last() == data.facts@[i as int]@);
            assert(is[i as int] == ids@[i as int]@);
            assert(statement_views(out@) =~= statement_views(before) + statement_views(added));
        }
        i = i + 1;
    }
    assert(facts.take(n as int) =~= facts);
    assert(idv.take(n as int) =~= idv);
    out
}

/// The statements that store the facts of `data`, each under a fresh
/// random node id.
pub fn plan_store_data(data: &ExtractionResult) -> (v: Vec<CypherStatement>)
    ensures
        exists|ids: Seq<Seq<char>>|
            {
                &&& ids.len() == data.facts@.len()
                &&& forall|i: int| 0 <= i < ids.len() ==> ids::is_uuid_v4_text(#[trigger] ids[i])
                &&& statement_views(v@) == store_statements(data.fact_views(), ids)
            },
{
    let n = data.facts.len();
    let mut ids: Vec<String> = Vec::new();
    let mut i: usize = 0;
    while i < n
        invariant
            i <= n,
            n == data.facts@.len(),
            ids@.len() == i,
            forall|k: int| 0 <= k < i ==> ids::is_uuid_v4_text(#[trigger] ids@[k]@),
        decreases n - i,
    {
        ids.push(ids::new_uuid_v4());
        i = i + 1;
    }
    let v = store_statements_with_ids(data, &ids);
    let ghost idv = text::views(ids@);
    assert(forall|k: int| 0 <= k < idv.len() ==> ids::is_uuid_v4_text(#[trigger] idv[k]) ) by {
        assert forall|k: int| 0 <= k < idv.len() implies ids::is_uuid_v4_text(#[trigger] idv[k]) by {
            assert(idv[k] == ids@[k]@);
        }
    }
    v
}

/// The kind of fact that a node with these labels records: an `Event`
/// label wins over a `State` label, and a node with neither is no fact.
pub open spec fn labels_fact_type(labels: Seq<Seq<char>>) -> FactType {
    if labels.contains("Event"@) {
        FactType::Event
    } else if labels.contains("State"@) {
        FactType::State
    } else {
        FactType::NotAFact
    }
}

/// The kind of fact that a node with these labels records.
pub fn fact_type_from_labels(labels: &Vec<String>) -> (t: FactType)
    ensures
        t == labels_fact_type(text::views(labels@)),
{
    let ghost ls = text::views(labels@);
    let mut has_event = false;
    let mut has_state = false;
    let mut i: usize = 0;
    while i < labels.len()
        invariant
            i <= labels@.len(),
            ls == text::views(labels@),
            has_event == (exists|k: int| 0 <= k < i && ls[k] == "Event"@),
            has_state == (exists|k: int| 0 <= k < i && ls[k] == "State"@),
        decreases labels@.len() - i,
    {
        assert(ls[i as int] == labels@[i as int]@);
        if text::str_eq(labels[i].as_str(), "Event") {
            has_event = true;
        }
        if text::str_eq(labels[i].as_str(), "State") {
            has_state = true;
        }
        i = i + 1;
    }
    if has_event {
        assert(ls.contains("Event"@));
        FactType::Event
    } else if has_state {
        assert(ls.contains("State"@));
        FactType::State
    } else {
        FactType::NotAFact
    }
}

/// What a stored node holds, read out of the database as plain values.
#[derive(Debug, Clone)]
pub struct NodeRecord {
    pub labels: Vec<String>,
    pub entity: Option<String>,
    pub attribute: Option<String>,
    pub value: Option<String>,
    pub context: Option<String>,
    pub change_reason: Option<String>,
    /// The stored confidence, as the bit pattern of a single-precision
    /// value (0.0 where the node has none).
    pub confidence_bits: u32,
}

/// The fact read from a node keeps what the node stores: its confidence,
/// its change reason, and each text field that is present; a missing text
/// field is read as empty.
pub proof fn lemma_node_fact_keeps_fields(n: NodeRecord)
    ensures
        node_fact(n).confidence_bits == n.confidence_bits,
        node_fact(n).change_reason == opt_view(n.change_reason),
        n.entity matches Some(e) ==> node_fact(n).entity == e@,
        n.entity is None ==> node_fact(n).entity.len() == 0,
        n.attribute matches Some(a) ==> node_fact(n).attribute == a@,
        n.attribute is None ==> node_fact(n).attribute.len() == 0,
        n.value matches Some(v) ==> node_fact(n).value == v@,
        n.value is None ==> node_fact(n).value.len() == 0,
        n.context matches Some(c) ==> node_fact(n).context == c@,
        n.context is None ==> node_fact(n).context.len() == 0,
{
}

/// A missing text read as the empty text.
pub open spec fn or_empty(o: Option<String>) -> Seq<char> {
    match o {
        Some(s) => s@,
        None => Seq::empty(),
    }
}

/// The fact that a stored node records.
pub open spec fn node_fact(n: NodeRecord) -> FactModel {
    FactModel {
        fact_type: labels_fact_type(text::views(n.labels@)),
        entity: or_empty(n.entity),
        attribute: or_empty(n.attribute),
        value: or_empty(n.value),
        context: or_empty(n.context),
        change_reason: opt_view(n.change_reason),
        confidence_bits: n.confidence_bits,
    }
}

fn text_or_empty(o: &Option<String>) -> (s: String)
    ensures
        s@ == or_empty(*o),
{
    match o {
        Some(x) => x.clone(),
        None => String::new(),
    }
}

/// The fact that a stored node records; a missing text field becomes empty.
pub fn fact_from_node(node: &NodeRecord) -> (f: ExtractedFact)
    ensures
        f@ == node_fact(*node),
        f.confidence_bits == node.confidence_bits,
        node.entity matches Some(e) ==> f.entity@ == e@,
        node.entity is None ==> f.entity@.len() == 0,
        node.attribute matches Some(a) ==> f.attribute@ == a@,
        node.attribute is None ==> f.attribute@.len() == 0,
        node.value matches Some(v) ==> f.value@ == v@,
        node.value is None ==> f.value@.len() == 0,
        node.context matches Some(c) ==> f.context@ == c@,
        node.context is None ==> f.context@.len() == 0,
        opt_view(f.change_reason) == opt_view(node.change_reason),
{
    ExtractedFact {
        fact_type: fact_type_from_labels(&node.labels),
        entity: text_or_empty(&node.entity),
        attribute: text_or_empty(&node.attribute),
        value: text_or_empty(&node.value),
        context: text_or_empty(&node.context),
        change_reason: clone_opt_string(&node.change_reason),
        confidence_bits: node.confidence_bits,
    }
}

/// The upper-case form of a text, as `str::to_uppercase` computes it by the
/// Unicode case mappings.
pub uninterp spec fn uppercase(s: Seq<char>) -> Seq<char>;

/// Calls `str::to_uppercase`. The contract names the result `uppercase` of
/// the text and says nothing of how each character is mapped, which follows
/// the Unicode case tables (a character may map to several, or to an ASCII
/// letter from outside ASCII).
#[verifier::external_body]
fn to_uppercase(s: &str) -> (u: String)
    ensures
        u@ == uppercase(s@),
{
    s.to_uppercase()
}

/// Why a query was refused.
#[derive(Debug, Clone)]
pub enum QueryRejection {
    /// The query does not begin with `MATCH` or `RETURN`.
    NotReadOnly,
    /// The query holds the named write or procedure keyword.
    UnsafeOperation(String),
}

impl QueryRejection {
    /// The message that reports the refusal.
    pub fn message(&self) -> (m: String)
        ensures
            self matches QueryRejection::NotReadOnly ==> m@
                == "Query must start with MATCH or RETURN"@,
            self matches QueryRejection::UnsafeOperation(op) ==> m@
                == "Unsafe operation detected: "@ + op@,
    {
        match self {
            QueryRejection::NotReadOnly => String::from_str("Query must start with MATCH or RETURN"),
            QueryRejection::UnsafeOperation(op) => String::from_str(
                "Unsafe operation detected: ",
            ).concat(op.as_str()),
        }
    }
}

/// The keywords of the Cypher clauses that write the graph or its schema
/// (`DELETE`, `DROP`, `REMOVE`, `CREATE`, `SET`, `MERGE`, `FOREACH`) or call
/// procedures and subqueries (`CALL`), in the order they are looked for.
pub open spec fn unsafe_operations() -> Seq<Seq<char>> {
    seq!["DELETE"@, "DROP"@, "REMOVE"@, "CREATE"@, "SET"@, "CALL"@, "MERGE"@, "FOREACH"@]
}

/// The text opens a read: it begins with `MATCH` or `RETURN`.
pub open spec fn starts_as_read(t: Seq<char>) -> bool {
    text::starts_with(t, "MATCH"@) || text::starts_with(t, "RETURN"@)
}

/// `r` is the verdict on an upper-cased query `upper`, whose surrounding
/// white space does not count: accepted when it begins as a read and holds
/// none of the unsafe keywords; else refused as not a read, or, when it
/// begins as a read, for the first unsafe keyword of the list that it holds.
pub open spec fn read_only_verdict(upper: Seq<char>, r: Result<(), QueryRejection>) -> bool {
    let t = text::trim(upper);
    let ops = unsafe_operations();
    match r {
        Ok(()) => starts_as_read(t) && forall|i: int| 0 <= i < ops.len() ==> !text::contains(t, #[trigger] ops[i]),
        Err(QueryRejection::NotReadOnly) => !starts_as_read(t),
        Err(QueryRejection::UnsafeOperation(op)) => {
            &&& starts_as_read(t)
            &&& exists|k: int|
                0 <= k < ops.len() && op@ == ops[k] && text::contains(t, ops[k]) && forall|j: int|
                    0 <= j < k ==> !text::contains(t, #[trigger] ops[j])
        },
    }
}

/// Two verdicts that agree: both accept, both refuse a non-read, or both
/// refuse for the same keyword.
pub open spec fn same_verdict(r1: Result<(), QueryRejection>, r2: Result<(), QueryRejection>) -> bool {
    match (r1, r2) {
        (Ok(()), Ok(())) => true,
        (Err(QueryRejection::NotReadOnly), Err(QueryRejection::NotReadOnly)) => true,
        (Err(QueryRejection::UnsafeOperation(a)), Err(QueryRejection::UnsafeOperation(b))) => a@
            == b@,
        _ => false,
    }
}

/// The decision on a query is unique: two results that both satisfy
/// `read_only_verdict` for the same query agree.
pub proof fn lemma_verdict_is_unique(
    upper: Seq<char>,
    r1: Result<(), QueryRejection>,
    r2: Result<(), QueryRejection>,
)
    requires
        read_only_verdict(upper, r1),
        read_only_verdict(upper, r2),
    ensures
        same_verdict(r1, r2),
{
    let t = text::trim(upper);
    let ops = unsafe_operations();
    match (r1, r2) {
        (Err(QueryRejection::UnsafeOperation(a)), Err(QueryRejection::UnsafeOperation(b))) => {
            let k1 = choose|k: int|
                0 <= k < ops.len() && a@ == ops[k] && text::contains(t, ops[k]) && forall|j: int|
                    0 <= j < k ==> !text::contains(t, #[trigger] ops[j]);
            let k2 = choose|k: int|
                0 <= k < ops.len() && b@ == ops[k] && text::contains(t, ops[k]) && forall|j: int|
                    0 <= j < k ==> !text::contains(t, #[trigger] ops[j]);
            if k1 < k2 {
                assert(!text::contains(t, ops[k1]));
            }
            if k2 < k1 {
                assert(!text::contains(t, ops[k2]));
            }
        },
        (Ok(()), Err(QueryRejection::UnsafeOperation(b))) => {
            let k2 = choose|k: int|
                0 <= k < ops.len() && b@ == ops[k] && text::contains(t, ops[k]) && forall|j: int|
                    0 <= j < k ==> !text::contains(t, #[trigger] ops[j]);
            assert(!text::contains(t, ops[k2]));
        },
        (Err(QueryRejection::UnsafeOperation(a)), Ok(())) => {
            let k1 = choose|k: int|
                0 <= k < ops.len() && a@ == ops[k] && text::contains(t, ops[k]) && forall|j: int|
                    0 <= j < k ==> !text::contains(t, #[trigger] ops[j]);
            assert(!text::contains(t, ops[k1]));
        },
        _ => {},
    }
}

/// White space around a query does not change its verdict.
pub proof fn lemma_verdict_ignores_outer_whitespace(upper: Seq<char>, r: Result<(), QueryRejection>)
    ensures
        read_only_verdict(upper, r) == read_only_verdict(text::trim(upper), r),
{
    text::lemma_trim_idempotent(upper);
}

/// The keywords refused are exactly `DELETE`, `DROP`, `REMOVE`, `CREATE`,
/// `SET`, `CALL`, `MERGE` and `FOREACH`: a query whose trimmed text begins
/// with `MATCH` or `RETURN` and holds none of them is accepted, whatever
/// else it holds (a `WHERE`, an `ORDER BY`, a `LIMIT`); one that holds any
/// of them is refused, for one of them.
pub proof fn lemma_exactly_write_keywords_refused(upper: Seq<char>, r: Result<(), QueryRejection>)
    requires
        read_only_verdict(upper, r),
    ensures
        ({
            let t = text::trim(upper);
            let read_start = text::starts_with(t, "MATCH"@) || text::starts_with(t, "RETURN"@);
            let has_write = text::contains(t, "DELETE"@) || text::contains(t, "DROP"@)
                || text::contains(t, "REMOVE"@) || text::contains(t, "CREATE"@) || text::contains(
                t,
                "SET"@,
            ) || text::contains(t, "CALL"@) || text::contains(t, "MERGE"@) || text::contains(
                t,
                "FOREACH"@,
            );
            &&& (read_start && !has_write) ==> r is Ok
            &&& r is Ok ==> read_start && !has_write
            &&& (r is Err && read_start) ==> (r matches Err(QueryRejection::UnsafeOperation(op))
                && text::contains(t, op@) && (op@ == "DELETE"@ || op@ == "DROP"@ || op@
                == "REMOVE"@ || op@ == "CREATE"@ || op@ == "SET"@ || op@ == "CALL"@ || op@
                == "MERGE"@ || op@ == "FOREACH"@))
        }),
{
    let t = text::trim(upper);
    let ops = unsafe_operations();
    assert(ops.len() == 8);
    assert(ops[0] == "DELETE"@);
    assert(ops[1] == "DROP"@);
    assert(ops[2] == "REMOVE"@);
    assert(ops[3] == "CREATE"@);
    assert(ops[4] == "SET"@);
    assert(ops[5] == "CALL"@);
    assert(ops[6] == "MERGE"@);
    assert(ops[7] == "FOREACH"@);
    match r {
        Err(QueryRejection::UnsafeOperation(op)) => {
            let k = choose|k: int|
                0 <= k < ops.len() && op@ == ops[k] && text::contains(t, ops[k]) && forall|j: int|
                    0 <= j < k ==> !text::contains(t, #[trigger] ops[j]);
            assert(0 <= k < 8);
            assert(k == 0 || k == 1 || k == 2 || k == 3 || k == 4 || k == 5 || k == 6 || k == 7);
        },
        Ok(()) => {
            assert(!text::contains(t, ops[0]));
            assert(!text::contains(t, ops[1]));
            assert(!text::contains(t, ops[2]));
            assert(!text::contains(t, ops[3]));
            assert(!text::contains(t, ops[4]));
            assert(!text::contains(t, ops[5]));
            assert(!text::contains(t, ops[6]));
            assert(!text::contains(t, ops[7]));
        },
        _ => {},
    }
}

/// An accepted query holds none of the clauses that write the graph or call
/// a procedure.
pub proof fn lemma_accepted_query_is_read_only(upper: Seq<char>)
    requires
        read_only_verdict(upper, Ok(())),
    ensures
        ({
            let t = text::trim(upper);
            &&& starts_as_read(t)
            &&& !text::contains(t, "CREATE"@)
            &&& !text::contains(t, "MERGE"@)
            &&& !text::contains(t, "SET"@)
            &&& !text::contains(t, "DELETE"@)
            &&& !text::contains(t, "REMOVE"@)
            &&& !text::contains(t, "DROP"@)
            &&& !text::contains(t, "FOREACH"@)
            &&& !text::contains(t, "CALL"@)
        }),
{
    let ops = unsafe_operations();
    assert(ops[0] == "DELETE"@);
    assert(ops[1] == "DROP"@);
    assert(ops[2] == "REMOVE"@);
    assert(ops[3] == "CREATE"@);
    assert(ops[4] == "SET"@);
    assert(ops[5] == "CALL"@);
    assert(ops[6] == "MERGE"@);
    assert(ops[7] == "FOREACH"@);
}

/// Decides whether an upper-cased query may run: it must begin, after
/// leading white space, with `MATCH` or `RETURN`, and hold none of the
/// keywords of `unsafe_operations` anywhere, not even inside a longer word,
/// so that no clause that writes or calls a procedure gets through.
pub fn check_read_only(upper: &str) -> (r: Result<(), QueryRejection>)
    ensures
        read_only_verdict(upper@, r),
{
    let t = text::trim_str(upper);
    let tc = text::chars_of(t);
    let match_kw = text::chars_of("MATCH");
    let return_kw = text::chars_of("RETURN");
    if !(text::occurs_at_exec(&tc, &match_kw, 0) || text::occurs_at_exec(&tc, &return_kw, 0)) {
        return Err(QueryRejection::NotReadOnly);
    }
    let ops: Vec<&str> = vec![
        "DELETE",
        "DROP",
        "REMOVE",
        "CREATE",
        "SET",
        "CALL",
        "MERGE",
        "FOREACH",
    ];
    let ghost spec_ops = unsafe_operations();
    assert(ops@.len() == 8);
    assert(forall|i: int| 0 <= i < 8 ==> (#[trigger] ops@[i])@ == spec_ops[i]);
    let mut i: usize = 0;
    while i < ops.len()
        invariant
            i <= ops@.len(),
            ops@.len() == 8,
            spec_ops == unsafe_operations(),
            tc@ == t@,
            t@ == text::trim(upper@),
            starts_as_read(t@),
            forall|k: int| 0 <= k < 8 ==> (#[trigger] ops@[k])@ == spec_ops[k],
            forall|j: int| 0 <= j < i ==> !text::contains(t@, #[trigger] spec_ops[j]),
        decreases ops@.len() - i,
    {
        let oc = text::chars_of(ops[i]);
        if text::contains_exec(&tc, &oc) {
            let op = String::from_str(ops[i]);
            assert(op@ == spec_ops[i as int]);
            return Err(QueryRejection::UnsafeOperation(op));
        }
        i = i + 1;
    }
    Ok(())
}

/// Decides whether a query may run against the graph: the query is
/// upper-cased and must then pass `check_read_only`.
pub fn validate_cypher_query(query: &str) -> (r: Result<(), QueryRejection>)
    ensures
        read_only_verdict(uppercase(query@), r),
{
    let upper = to_uppercase(query);
    check_read_only(upper.as_str())
}

/// What reading the next row of a query's answer gave.
#[derive(Debug, Clone)]
pub enum RowRead {
    /// A row whose column `n` holds a node.
    Node(NodeRecord),
    /// A row without a node in column `n`, with the reason.
    MissingNode(String),
    /// The answer has no more rows.
    End,
    /// The stream of rows failed.
    StreamError,
}

/// What to do after a row.
#[derive(Debug, Clone)]
pub enum RowDecision {
    /// Read the next row.
    Next,
    /// Stop and answer with the facts read so far.
    Done,
    /// Stop and answer with this error.
    Fail(String),
}

/// The views of a sequence of facts.
pub open spec fn fact_views(v: Seq<ExtractedFact>) -> Seq<FactModel> {
    v.map_values(|f: ExtractedFact| f@)
}

/// Takes in one row of a retrieval answer: a node's fact is added and the
/// next row read; a row without a node fails the retrieval; the end of the
/// rows, or a failing stream, ends it with the facts read so far.
pub fn take_row(facts: &mut Vec<ExtractedFact>, read: RowRead) -> (d: RowDecision)
    ensures
        read matches RowRead::Node(n) ==> fact_views(final(facts)@) == fact_views(old(facts)@).push(
            node_fact(n),
        ) && d is Next,
        read matches RowRead::MissingNode(e) ==> fact_views(final(facts)@) == fact_views(
            old(facts)@,
        ) && (d matches RowDecision::Fail(m) && m@ == e@),
        (read is End || read is StreamError) ==> fact_views(final(facts)@) == fact_views(
            old(facts)@,
        ) && d is Done,
{
    match read {
        RowRead::Node(n) => {
            let f = fact_from_node(&n);
            facts.push(f);
            assert(fact_views(facts@) =~= fact_views(old(facts)@).push(node_fact(n)));
            RowDecision::Next
        },
        RowRead::MissingNode(e) => RowDecision::Fail(e),
        RowRead::End => RowDecision::Done,
        RowRead::StreamError => RowDecision::Done,
    }
}

} // verus!
