//! What the library does with a chat model's reply: take the message text
//! out of it, and turn a generated Cypher reply into the bare query.

use vstd::prelude::*;
use crate::text;

verus! {

/// The three backticks that open and close a Markdown code block.
pub open spec fn code_fence() -> Seq<char> {
    seq!['`', '`', '`']
}

/// The text between the first code fence and the next one after it; the
/// whole text when there are fewer than two fences.
pub open spec fn strip_code_fence(s: Seq<char>) -> Seq<char> {
    let i = text::index_of(s, code_fence());
    if i < s.len() {
        let rest = s.skip(i + 3);
        let j = text::index_of(rest, code_fence());
        if j < rest.len() {
            rest.take(j)
        } else {
            s
        }
    } else {
        s
    }
}

/// A line that names the language of a code block.
pub open spec fn is_language_tag(t: Seq<char>) -> bool {
    t == "cypher"@ || t == "sql"@ || t == "neo4j"@
}

/// The text without its first line when that line, trimmed, is a language
/// tag; the remaining lines are joined with `\n`.
pub open spec fn drop_language_tag(s: Seq<char>) -> Seq<char> {
    let ls = text::lines(s);
    if ls.len() > 0 && is_language_tag(text::trim(ls[0])) {
        text::join(ls.drop_first(), seq!['\n'])
    } else {
        s
    }
}

/// The query that a generated reply holds.
pub open spec fn cleaned_query(reply: Seq<char>) -> Seq<char> {
    text::trim(drop_language_tag(strip_code_fence(reply)))
}

/// What `clean_generated_query` returns carries no surrounding white space.
pub proof fn lemma_cleaned_query_is_trimmed(reply: Seq<char>)
    ensures
        text::trim(cleaned_query(reply)) == cleaned_query(reply),
{
    text::lemma_trim_idempotent(drop_language_tag(strip_code_fence(reply)));
}

/// A reply with no code fence and no language line is only trimmed.
pub proof fn lemma_plain_reply_is_only_trimmed(reply: Seq<char>)
    requires
        !text::contains(reply, code_fence()),
        text::lines(reply).len() == 0 || !is_language_tag(text::trim(text::lines(reply)[0])),
    ensures
        cleaned_query(reply) == text::trim(reply),
{
    text::lemma_contains_index_of(reply, code_fence());
}

/// In a reply that holds one fenced code block, with no backtick before it
/// and none inside it, the query is the block's body (without a leading
/// language line), trimmed; whatever follows the block is ignored.
pub proof fn lemma_fenced_block_is_extracted(pre: Seq<char>, body: Seq<char>, post: Seq<char>)
    requires
        forall|k: int| 0 <= k < pre.len() ==> pre[k] != '`',
        forall|k: int| 0 <= k < body.len() ==> body[k] != '`',
    ensures
        cleaned_query(pre + code_fence() + body + code_fence() + post) == text::trim(
            drop_language_tag(body),
        ),
{
    let f = code_fence();
    let s = pre + f + body + f + post;
    let rest = body + f + post;
    assert forall|j: int| 0 <= j < pre.len() implies !text::occurs_at(s, f, j) by {
        if text::occurs_at(s, f, j) {
            assert(s.subrange(j, j + 3)[0] == s[j]);
        }
    }
    assert(s.subrange(pre.len() as int, pre.len() + 3int) =~= f);
    text::lemma_index_of_is(s, f, pre.len() as int);
    assert(s.skip(pre.len() + 3int) =~= rest);
    assert forall|j: int| 0 <= j < body.len() implies !text::occurs_at(rest, f, j) by {
        if text::occurs_at(rest, f, j) {
            assert(rest.subrange(j, j + 3)[0] == rest[j]);
        }
    }
    assert(rest.subrange(body.len() as int, body.len() + 3int) =~= f);
    text::lemma_index_of_is(rest, f, body.len() as int);
    assert(rest.take(body.len() as int) =~= body);
}

/// A first line that names the language (`cypher`, `sql` or `neo4j`, with
/// any white space around it) is dropped and every line after it is kept:
/// what remains is the text after the first newline, as it stands, apart
/// from one final newline.
pub proof fn lemma_tag_line_dropped_rest_kept(tag_line: Seq<char>, rest: Seq<char>)
    requires
        forall|i: int| 0 <= i < tag_line.len() ==> tag_line[i] != '\n' && tag_line[i] != '\r',
        forall|i: int| 0 <= i < rest.len() ==> rest[i] != '\r',
        text::trim(tag_line) == "cypher"@ || text::trim(tag_line) == "sql"@ || text::trim(tag_line)
            == "neo4j"@,
    ensures
        drop_language_tag(tag_line + seq!['\n'] + rest) == text::without_final_newline(rest),
{
    let nl = seq!['\n'];
    let s = tag_line + nl + rest;
    let k = tag_line.len() as int;
    assert forall|j: int| 0 <= j < k implies !text::occurs_at(s, nl, j) by {
        if text::occurs_at(s, nl, j) {
            assert(s.subrange(j, j + 1)[0] == s[j]);
        }
    }
    assert(s.subrange(k, k + 1) =~= nl);
    text::lemma_index_of_is(s, nl, k);
    assert(s.take(k) =~= tag_line);
    assert(s.skip(k + 1) =~= rest);
    if k > 0 {
        assert(tag_line.last() != '\r');
    }
    assert(text::strip_cr(tag_line) == tag_line);
    assert(text::lines(s) == seq![tag_line] + text::lines(rest));
    assert((seq![tag_line] + text::lines(rest)).drop_first() =~= text::lines(rest));
    text::lemma_lines_join_back(rest);
}

/// A fenced block that opens with a language line yields all of the lines
/// after that line, however many there are, trimmed.
pub proof fn lemma_tagged_block_keeps_every_line(
    pre: Seq<char>,
    tag_line: Seq<char>,
    query: Seq<char>,
    post: Seq<char>,
)
    requires
        forall|k: int| 0 <= k < pre.len() ==> pre[k] != '`',
        forall|k: int|
            0 <= k < tag_line.len() ==> tag_line[k] != '`' && tag_line[k] != '\n' && tag_line[k]
                != '\r',
        forall|k: int| 0 <= k < query.len() ==> query[k] != '`' && query[k] != '\r',
        text::trim(tag_line) == "cypher"@ || text::trim(tag_line) == "sql"@ || text::trim(tag_line)
            == "neo4j"@,
    ensures
        cleaned_query(pre + code_fence() + (tag_line + seq!['\n'] + query) + code_fence() + post)
            == text::trim(text::without_final_newline(query)),
{
    let body = tag_line + seq!['\n'] + query;
    assert forall|k: int| 0 <= k < body.len() implies body[k] != '`' by {
        if k < tag_line.len() {
            assert(body[k] == tag_line[k]);
        } else if k > tag_line.len() {
            assert(body[k] == query[k - tag_line.len() - 1]);
        }
    }
    lemma_fenced_block_is_extracted(pre, body, post);
    lemma_tag_line_dropped_rest_kept(tag_line, query);
}

/// The text of a reply's message, trimmed; an error when the reply carried
/// no message.
pub fn message_content(content: Option<&str>) -> (r: Result<String, String>)
    ensures
        content is None ==> (r matches Err(e) && e@ == "No message returned"@),
        content matches Some(c) ==> (r matches Ok(s) && s@ == text::trim(c@)),
{
    match content {
        None => Err(String::from_str("No message returned")),
        Some(c) => Ok(String::from_str(text::trim_str(c))),
    }
}

/// The Cypher query in a generated reply: the body of its first code block
/// if it has one, without a leading language line, trimmed.
pub fn clean_generated_query(reply: &str) -> (q: String)
    ensures
        q@ == cleaned_query(reply@),
{
    let cs = text::chars_of(reply);
    let n = cs.len();
    let fence: Vec<char> = vec!['`', '`', '`'];
    assert(fence@ =~= code_fence());
    assert(reply@.skip(0) =~= reply@);
    let i = text::find_from(&cs, &fence, 0);
    let stripped: String = if i < n {
        proof {
            text::lemma_index_of_bounds(reply@, code_fence());
        }
        let j = text::find_from(&cs, &fence, i + 3);
        if j < n {
            let body = reply.substring_char(i + 3, j);
            assert(body@ =~= reply@.skip(i + 3).take(j - i - 3));
            String::from_str(body)
        } else {
            String::from_str(reply)
        }
    } else {
        String::from_str(reply)
    };
    assert(stripped@ == strip_code_fence(reply@));
    let ls = text::split_lines(stripped.as_str());
    assert(ls@.len() > 0 ==> text::views(ls@)[0] == ls@[0]@);
    assert(text::views(ls@).len() == ls@.len());
    let untagged: String = if ls.len() > 0 && is_language_tag_exec(text::trim_str(ls[0].as_str())) {
        proof {
            reveal_strlit("\n");
            assert(text::views(ls@).drop_first() =~= text::views(ls@).skip(1));
        }
        let joined = text::join_from(&ls, 1, "\n");
        assert("\n"@ == seq!['\n']);
        assert(joined@ == text::join(text::views(ls@).drop_first(), seq!['\n']));
        assert(joined@ == drop_language_tag(stripped@));
        joined
    } else {
        assert(stripped@ == drop_language_tag(stripped@));
        stripped
    };
    assert(untagged@ == drop_language_tag(strip_code_fence(reply@)));
    String::from_str(text::trim_str(untagged.as_str()))
}

/// Whether `t` is a language tag.
fn is_language_tag_exec(t: &str) -> (b: bool)
    ensures
        b == is_language_tag(t@),
{
    text::str_eq(t, "cypher") || text::str_eq(t, "sql") || text::str_eq(t, "neo4j")
}

} // verus!
