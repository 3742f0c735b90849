//! Retrieval-augmented generation: the in-memory document store and the RAG
//! tool's requests and answers. Embedding, similarity scoring and the vector
//! databases are the caller's; a stored document carries them as a payload.

use vstd::prelude::*;
use crate::error::HeliosError;
use crate::json::{JsonValue, str_arg, u64_arg, json_get};
use crate::text::{owned, push_str, str_eq, decimal, usize_to_string, utf8_len, char_width};
use crate::tools::is_tool_error;

verus! {

/// A document in the store: its id, its text, and what the caller keeps with
/// it (its embedding and metadata).
#[derive(Debug)]
pub struct StoredDocument<P> {
    /// The document's id.
    pub id: String,
    /// Its text.
    pub text: String,
    /// Its embedding and metadata.
    pub payload: P,
}

/// The documents other than those with id `id`, in order.
pub open spec fn without_id<P>(ds: Seq<StoredDocument<P>>, id: Seq<char>) -> Seq<StoredDocument<P>>
    decreases ds.len(),
{
    if ds.len() == 0 {
        Seq::empty()
    } else {
        let rest = without_id(ds.drop_last(), id);
        if ds.last().id@ == id {
            rest
        } else {
            rest.push(ds.last())
        }
    }
}

/// Whether no two documents share an id.
pub open spec fn ids_distinct<P>(ds: Seq<StoredDocument<P>>) -> bool {
    forall|i: int, j: int| 0 <= i < j < ds.len() ==> (#[trigger] ds[i]).id@ != (#[trigger] ds[j]).id@
}

/// The in-memory document store, oldest document first.
#[derive(Debug)]
pub struct DocumentStore<P> {
    /// The documents.
    pub docs: Vec<StoredDocument<P>>,
}

/// Removes the documents with id `id`, keeping the order of the rest.
fn remove_id<P>(docs: Vec<StoredDocument<P>>, id: &str) -> (out: Vec<StoredDocument<P>>)
    ensures
        out@ == without_id(docs@, id@),
{
    let mut out: Vec<StoredDocument<P>> = Vec::new();
    let ghost all = docs@;
    for d in it: docs.into_iter()
        invariant
            it.seq() == all,
            out@ == without_id(all.take(it.index() as int), id@),
    {
        assert(all.take(it.index() + 1).drop_last() =~= all.take(it.index() as int));
        if !str_eq(d.id.as_str(), id) {
            out.push(d);
        }
    }
    assert(all.take(all.len() as int) =~= all);
    out
}

impl<P> DocumentStore<P> {
    /// An empty store.
    pub fn new() -> (s: Self)
        ensures
            s.docs@.len() == 0,
    {
        DocumentStore { docs: Vec::new() }
    }

    /// Adds a document; one with the same id is replaced, and the new one goes last.
    pub fn add(&mut self, id: &str, text: &str, payload: P)
        ensures
            final(self).docs@.len() == without_id(old(self).docs@, id@).len() + 1,
            final(self).docs@.drop_last() == without_id(old(self).docs@, id@),
            final(self).docs@.last().id@ == id@,
            final(self).docs@.last().text@ == text@,
            final(self).docs@.last().payload == payload,
    {
        let mut docs: Vec<StoredDocument<P>> = Vec::new();
        std::mem::swap(&mut docs, &mut self.docs);
        let mut kept = remove_id(docs, id);
        kept.push(StoredDocument { id: owned(id), text: owned(text), payload });
        self.docs = kept;
    }

    /// Removes the documents with id `id`.
    pub fn delete(&mut self, id: &str)
        ensures
            final(self).docs@ == without_id(old(self).docs@, id@),
    {
        let mut docs: Vec<StoredDocument<P>> = Vec::new();
        std::mem::swap(&mut docs, &mut self.docs);
        self.docs = remove_id(docs, id);
    }

    /// Removes every document.
    pub fn clear(&mut self)
        ensures
            final(self).docs@.len() == 0,
    {
        self.docs = Vec::new();
    }

    /// The number of documents.
    pub fn count(&self) -> (n: usize)
        ensures
            n == self.docs@.len(),
    {
        self.docs.len()
    }
}


/// The first characters of `s` that take exactly `n` bytes in UTF-8, if some
/// prefix does (none when byte `n` falls inside a character).
pub open spec fn byte_prefix(s: Seq<char>, n: nat) -> Option<Seq<char>>
    decreases s.len(),
{
    if n == 0 {
        Some(Seq::empty())
    } else if s.len() == 0 || char_width(s[0]) > n {
        None
    } else {
        match byte_prefix(s.drop_first(), (n - char_width(s[0])) as nat) {
            Some(p) => Some(seq![s[0]] + p),
            None => None,
        }
    }
}

/// A preview of `s`: the text itself when it takes at most `limit` bytes, else
/// its first `limit` bytes and `...`; nothing when byte `limit` falls inside a
/// character, where cutting the text there is not possible.
pub open spec fn preview_of(s: Seq<char>, limit: nat) -> Option<Seq<char>> {
    if utf8_len(s) > limit {
        match byte_prefix(s, limit) {
            Some(p) => Some(p + "..."@),
            None => None,
        }
    } else {
        Some(s)
    }
}

/// The first `n` bytes of `s` as characters, if `n` falls between characters.
fn byte_prefix_exec(s: &str, n: usize) -> (r: Option<String>)
    ensures
        match r {
            Some(p) => byte_prefix(s@, n as nat) == Some(p@),
            None => byte_prefix(s@, n as nat) is None,
        },
{
    let cs = crate::text::chars_of(s);
    let mut out = String::new();
    let mut used: usize = 0;
    let mut i: usize = 0;
    assert(cs@.skip(0) =~= cs@);
    proof {
        if let Some(p) = byte_prefix(s@, n as nat) {
            assert(out@ + p =~= p);
        }
    }
    while used < n
        invariant
            i <= cs@.len(),
            cs@ == s@,
            used <= n,
            byte_prefix(s@, n as nat) == match byte_prefix(cs@.skip(i as int), (n - used) as nat) {
                Some(p) => Some(out@ + p),
                None => None::<Seq<char>>,
            },
        decreases n - used,
    {
        if i >= cs.len() {
            return None;
        }
        let c = cs[i];
        let w = crate::text::width_of(c);
        let ghost rest = cs@.skip(i as int);
        assert(rest[0] == c);
        if w > n - used {
            return None;
        }
        assert(rest.drop_first() =~= cs@.skip(i + 1));
        crate::text::push_char(&mut out, c);
        proof {
            let q = byte_prefix(cs@.skip(i + 1), (n - used - w) as nat);
            if let Some(p) = q {
                assert(out@ + p =~= out@.drop_last() + (seq![c] + p));
            }
        }
        used = used + w;
        i = i + 1;
    }
    assert(byte_prefix(cs@.skip(i as int), 0) == Some(Seq::<char>::empty()));
    assert(out@ + Seq::<char>::empty() =~= out@);
    Some(out)
}

/// The preview of `s` cut at `limit` bytes.
pub fn preview(s: &str, limit: usize) -> (r: Option<String>)
    ensures
        match r {
            Some(p) => preview_of(s@, limit as nat) == Some(p@),
            None => preview_of(s@, limit as nat) is None,
        },
{
    if crate::text::byte_len(s) > limit {
        match byte_prefix_exec(s, limit) {
            Some(mut p) => {
                push_str(&mut p, "...");
                Some(p)
            },
            None => None,
        }
    } else {
        Some(owned(s))
    }
}

/// A request to the RAG tool.
#[derive(Debug)]
pub enum RagRequest {
    /// Store a text; with the members of the `metadata` argument when that is
    /// an object.
    AddDocument { text: String, with_metadata: bool },
    /// Find the documents closest to a query.
    Search { query: String, limit: usize },
    /// Remove a document.
    Delete { doc_id: String },
    /// Remove every document.
    Clear,
    /// Count the documents.
    Count,
}

/// The members of the `metadata` argument, when it is an object.
pub open spec fn metadata_arg(args: JsonValue) -> Option<Seq<(String, JsonValue)>> {
    match json_get(args, "metadata"@) {
        Some(JsonValue::Object(ms)) => Some(ms@),
        _ => None,
    }
}

/// Reads the RAG tool's arguments: the operation, and the text, query, limit
/// (default 5) or document id it needs; an error for a missing one or an
/// unknown operation.
pub fn rag_request(args: &JsonValue) -> (r: Result<RagRequest, HeliosError>)
    ensures
        match str_arg(*args, "operation"@) {
            None => is_tool_error(r, "Missing 'operation' parameter"@),
            Some(op) => if op == "add_document"@ {
                match str_arg(*args, "text"@) {
                    None => is_tool_error(r, "Missing 'text' for add_document"@),
                    Some(t) => r matches Ok(RagRequest::AddDocument { text, with_metadata }) && text@ == t
                        && with_metadata == metadata_arg(*args) is Some,
                }
            } else if op == "search"@ {
                match str_arg(*args, "text"@) {
                    None => is_tool_error(r, "Missing 'text' for search"@),
                    Some(t) => r matches Ok(RagRequest::Search { query, limit }) && query@ == t
                        && limit == (match u64_arg(*args, "limit"@) { Some(n) => n as usize, None => 5 }),
                }
            } else if op == "delete"@ {
                match str_arg(*args, "doc_id"@) {
                    None => is_tool_error(r, "Missing 'doc_id' for delete"@),
                    Some(d) => r matches Ok(RagRequest::Delete { doc_id }) && doc_id@ == d,
                }
            } else if op == "clear"@ {
                r matches Ok(RagRequest::Clear)
            } else if op == "count"@ {
                r matches Ok(RagRequest::Count)
            } else {
                is_tool_error(r, "Unknown operation '"@ + op + "'. Valid: add_document, search, delete, clear, count"@)
            },
        },
{
    let op = match args.str_member("operation") {
        Some(o) => o,
        None => {
            return Err(HeliosError::ToolError(owned("Missing 'operation' parameter")));
        },
    };
    if str_eq(op, "add_document") {
        let text = match args.str_member("text") {
            Some(t) => t,
            None => {
                return Err(HeliosError::ToolError(owned("Missing 'text' for add_document")));
            },
        };
        let with_metadata = match args.get("metadata") {
            Some(JsonValue::Object(_)) => true,
            _ => false,
        };
        Ok(RagRequest::AddDocument { text: owned(text), with_metadata })
    } else if str_eq(op, "search") {
        let query = match args.str_member("text") {
            Some(t) => t,
            None => {
                return Err(HeliosError::ToolError(owned("Missing 'text' for search")));
            },
        };
        let limit: usize = match args.u64_member("limit") {
            Some(n) => n as usize,
            None => 5,
        };
        Ok(RagRequest::Search { query: owned(query), limit })
    } else if str_eq(op, "delete") {
        match args.str_member("doc_id") {
            Some(d) => Ok(RagRequest::Delete { doc_id: owned(d) }),
            None => Err(HeliosError::ToolError(owned("Missing 'doc_id' for delete"))),
        }
    } else if str_eq(op, "clear") {
        Ok(RagRequest::Clear)
    } else if str_eq(op, "count") {
        Ok(RagRequest::Count)
    } else {
        let mut m = owned("Unknown operation '");
        push_str(&mut m, op);
        push_str(&mut m, "'. Valid: add_document, search, delete, clear, count");
        Err(HeliosError::ToolError(m))
    }
}


/// What the RAG tool answers after storing a document: the backend, the new
/// id and a preview of the text cut at 100 bytes; nothing when the cut would
/// fall inside a character.
pub fn rag_added_text(backend: &str, doc_id: &str, text: &str) -> (r: Option<String>)
    ensures
        match preview_of(text@, 100) {
            Some(p) => (r matches Some(out) && out@ == "\u{2713} Document added successfully (backend: "@ + backend@
                + ")\nID: "@ + doc_id@ + "\nText preview: "@ + p),
            None => r is None,
        },
{
    let p = match preview(text, 100) {
        Some(p) => p,
        None => {
            return None;
        },
    };
    let mut out = owned("\u{2713} Document added successfully (backend: ");
    push_str(&mut out, backend);
    push_str(&mut out, ")\nID: ");
    push_str(&mut out, doc_id);
    push_str(&mut out, "\nText preview: ");
    push_str(&mut out, p.as_str());
    Some(out)
}

/// A search hit as the RAG tool reports it.
#[derive(Debug)]
pub struct RagHit {
    /// The document's id.
    pub id: String,
    /// Its similarity score, as displayed (four decimals).
    pub score: String,
    /// Its text.
    pub text: String,
}

/// The report line of hit number `i` (from 1), given its preview.
pub open spec fn hit_line(i: nat, h: RagHit, preview: Seq<char>) -> Seq<char> {
    decimal(i) + ". [Score: "@ + h.score@ + "] "@ + preview + "\n   ID: "@ + h.id@
}

/// The report of the first `k` hits, `None` when a preview cannot be cut.
pub open spec fn hit_lines(hs: Seq<RagHit>, k: nat) -> Option<Seq<Seq<char>>>
    decreases k,
{
    if k == 0 {
        Some(Seq::empty())
    } else {
        match (hit_lines(hs, (k - 1) as nat), preview_of(hs[k - 1].text@, 200)) {
            (Some(ls), Some(p)) => Some(ls.push(hit_line(k, hs[k - 1], p))),
            _ => None,
        }
    }
}

/// What the RAG tool answers for search hits, best first: a note when there are
/// none, else their count and one entry per hit with the text cut at 200 bytes;
/// nothing when a cut would fall inside a character.
pub fn rag_results_text(hits: &Vec<RagHit>) -> (r: Option<String>)
    ensures
        hits@.len() == 0 ==> (r matches Some(out) && out@ == "No matching documents found"@),
        hits@.len() > 0 ==> match hit_lines(hits@, hits@.len()) {
            Some(ls) => (r matches Some(out) && out@ == "Found "@ + decimal(hits@.len()) + " result(s):\n\n"@
                + crate::text::join(ls, "\n\n"@)),
            None => r is None,
        },
{
    if hits.len() == 0 {
        return Some(owned("No matching documents found"));
    }
    let mut lines: Vec<String> = Vec::new();
    let mut i: usize = 0;
    while i < hits.len()
        invariant
            i <= hits@.len(),
            hit_lines(hits@, i as nat) == Some(lines@.map_values(|l: String| l@)),
        decreases hits@.len() - i,
    {
        let p = match preview(hits[i].text.as_str(), 200) {
            Some(p) => p,
            None => {
                proof {
                    lemma_hit_lines_stay_none(hits@, (i + 1) as nat, hits@.len());
                }
                return None;
            },
        };
        let mut l = usize_to_string(i + 1);
        push_str(&mut l, ". [Score: ");
        push_str(&mut l, hits[i].score.as_str());
        push_str(&mut l, "] ");
        push_str(&mut l, p.as_str());
        push_str(&mut l, "\n   ID: ");
        push_str(&mut l, hits[i].id.as_str());
        let ghost before = lines@.map_values(|l: String| l@);
        lines.push(l);
        assert(lines@.map_values(|l: String| l@) =~= before.push(hit_line((i + 1) as nat, hits@[i as int], p@)));
        i = i + 1;
    }
    let mut out = owned("Found ");
    push_str(&mut out, usize_to_string(hits.len()).as_str());
    push_str(&mut out, " result(s):\n\n");
    push_str(&mut out, crate::text::join_strings(&lines, "\n\n").as_str());
    Some(out)
}

/// Once the report of the first `k` hits cannot be made, neither can that of more.
pub proof fn lemma_hit_lines_stay_none(hs: Seq<RagHit>, k: nat, m: nat)
    requires
        k <= m,
        hit_lines(hs, k) is None,
    ensures
        hit_lines(hs, m) is None,
    decreases m - k,
{
    if k < m {
        lemma_hit_lines_stay_none(hs, k + 1, m);
    }
}

/// What the RAG tool answers after deleting a document.
pub fn rag_deleted_text(doc_id: &str) -> (out: String)
    ensures
        out@ == "\u{2713} Document '"@ + doc_id@ + "' deleted"@,
{
    let mut out = owned("\u{2713} Document '");
    push_str(&mut out, doc_id);
    push_str(&mut out, "' deleted");
    out
}

/// What the RAG tool answers after clearing the collection.
pub fn rag_cleared_text() -> (out: String)
    ensures
        out@ == "\u{2713} All documents cleared from collection"@,
{
    owned("\u{2713} All documents cleared from collection")
}

/// What the RAG tool answers for a count.
pub fn rag_count_text(count: usize, backend: &str) -> (out: String)
    ensures
        out@ == "Document count: "@ + decimal(count as nat) + " (backend: "@ + backend@ + ")"@,
{
    let mut out = owned("Document count: ");
    push_str(&mut out, usize_to_string(count).as_str());
    push_str(&mut out, " (backend: ");
    push_str(&mut out, backend);
    push_str(&mut out, ")");
    out
}


/// The first `limit` bytes of `s` (all of it when it is shorter), as the
/// vector-database tool cuts texts; nothing when byte `limit` falls inside a
/// character.
pub open spec fn cut_at(s: Seq<char>, limit: nat) -> Option<Seq<char>> {
    if utf8_len(s) <= limit {
        Some(s)
    } else {
        byte_prefix(s, limit)
    }
}

/// `s` cut at `limit` bytes.
fn cut_at_exec(s: &str, limit: usize) -> (r: Option<String>)
    ensures
        match r {
            Some(p) => cut_at(s@, limit as nat) == Some(p@),
            None => cut_at(s@, limit as nat) is None,
        },
{
    if crate::text::byte_len(s) <= limit {
        Some(owned(s))
    } else {
        byte_prefix_exec(s, limit)
    }
}

/// Reads the arguments of the tool backed by a vector database: as for the RAG
/// tool, but without the `count` operation.
pub fn qdrant_request(args: &JsonValue) -> (r: Result<RagRequest, HeliosError>)
    ensures
        match str_arg(*args, "operation"@) {
            None => is_tool_error(r, "Missing 'operation' parameter"@),
            Some(op) => if op == "add_document"@ {
                match str_arg(*args, "text"@) {
                    None => is_tool_error(r, "Missing 'text' for add_document"@),
                    Some(t) => r matches Ok(RagRequest::AddDocument { text, with_metadata }) && text@ == t
                        && with_metadata == metadata_arg(*args) is Some,
                }
            } else if op == "search"@ {
                match str_arg(*args, "text"@) {
                    None => is_tool_error(r, "Missing 'text' for search"@),
                    Some(t) => r matches Ok(RagRequest::Search { query, limit }) && query@ == t
                        && limit == (match u64_arg(*args, "limit"@) { Some(n) => n as usize, None => 5 }),
                }
            } else if op == "delete"@ {
                match str_arg(*args, "doc_id"@) {
                    None => is_tool_error(r, "Missing 'doc_id' for delete"@),
                    Some(d) => r matches Ok(RagRequest::Delete { doc_id }) && doc_id@ == d,
                }
            } else if op == "clear"@ {
                r matches Ok(RagRequest::Clear)
            } else {
                is_tool_error(r, "Unknown operation '"@ + op + "'. Valid: add_document, search, delete, clear"@)
            },
        },
{
    match args.str_member("operation") {
        Some(op) => {
            if str_eq(op, "add_document") || str_eq(op, "search") || str_eq(op, "delete") || str_eq(op, "clear") {
                rag_request(args)
            } else {
                let mut m = owned("Unknown operation '");
                push_str(&mut m, op);
                push_str(&mut m, "'. Valid: add_document, search, delete, clear");
                Err(HeliosError::ToolError(m))
            }
        },
        None => Err(HeliosError::ToolError(owned("Missing 'operation' parameter"))),
    }
}

/// What the vector-database tool answers after storing a document: the new id
/// and the text cut at 100 bytes; nothing when the cut would fall inside a
/// character.
pub fn qdrant_added_text(doc_id: &str, text: &str) -> (r: Option<String>)
    ensures
        match cut_at(text@, 100) {
            Some(p) => (r matches Some(out) && out@ == "\u{2713} Document added successfully\nID: "@ + doc_id@
                + "\nText preview: "@ + p),
            None => r is None,
        },
{
    let p = match cut_at_exec(text, 100) {
        Some(p) => p,
        None => {
            return None;
        },
    };
    let mut out = owned("\u{2713} Document added successfully\nID: ");
    push_str(&mut out, doc_id);
    push_str(&mut out, "\nText preview: ");
    push_str(&mut out, p.as_str());
    Some(out)
}

/// The vector-database tool's entry for hit number `i` (from 1), given its cut text.
pub open spec fn qdrant_hit_line(i: nat, h: RagHit, cut: Seq<char>) -> Seq<char> {
    decimal(i) + ". [Score: "@ + h.score@ + "] "@ + cut + "\n   ID: "@ + h.id@ + "\n"@
}

/// The vector-database tool's entries for the first `k` hits, `None` when a
/// text cannot be cut.
pub open spec fn qdrant_hit_lines(hs: Seq<RagHit>, k: nat) -> Option<Seq<Seq<char>>>
    decreases k,
{
    if k == 0 {
        Some(Seq::empty())
    } else {
        match (qdrant_hit_lines(hs, (k - 1) as nat), cut_at(hs[k - 1].text@, 150)) {
            (Some(ls), Some(c)) => Some(ls.push(qdrant_hit_line(k, hs[k - 1], c))),
            _ => None,
        }
    }
}

/// Once the entries of the first `k` hits cannot be made, neither can those of more.
proof fn lemma_qdrant_hit_lines_stay_none(hs: Seq<RagHit>, k: nat, m: nat)
    requires
        k <= m,
        qdrant_hit_lines(hs, k) is None,
    ensures
        qdrant_hit_lines(hs, m) is None,
    decreases m - k,
{
    if k < m {
        lemma_qdrant_hit_lines_stay_none(hs, k + 1, m);
    }
}

/// What the vector-database tool answers for search hits, best first: a note
/// when there are none, else their count and one entry per hit with the text cut
/// at 150 bytes; nothing when a cut would fall inside a character.
pub fn qdrant_results_text(hits: &Vec<RagHit>) -> (r: Option<String>)
    ensures
        hits@.len() == 0 ==> (r matches Some(out) && out@ == "No matching documents found"@),
        hits@.len() > 0 ==> match qdrant_hit_lines(hits@, hits@.len()) {
            Some(ls) => (r matches Some(out) && out@ == "Found "@ + decimal(hits@.len()) + " result(s):\n\n"@
                + crate::text::join(ls, "\n"@)),
            None => r is None,
        },
{
    if hits.len() == 0 {
        return Some(owned("No matching documents found"));
    }
    let mut lines: Vec<String> = Vec::new();
    let mut i: usize = 0;
    while i < hits.len()
        invariant
            i <= hits@.len(),
            qdrant_hit_lines(hits@, i as nat) == Some(lines@.map_values(|l: String| l@)),
        decreases hits@.len() - i,
    {
        let c = match cut_at_exec(hits[i].text.as_str(), 150) {
            Some(c) => c,
            None => {
                proof {
                    lemma_qdrant_hit_lines_stay_none(hits@, (i + 1) as nat, hits@.len());
                }
                return None;
            },
        };
        let mut l = usize_to_string(i + 1);
        push_str(&mut l, ". [Score: ");
        push_str(&mut l, hits[i].score.as_str());
        push_str(&mut l, "] ");
        push_str(&mut l, c.as_str());
        push_str(&mut l, "\n   ID: ");
        push_str(&mut l, hits[i].id.as_str());
        push_str(&mut l, "\n");
        let ghost before = lines@.map_values(|l: String| l@);
        lines.push(l);
        assert(lines@.map_values(|l: String| l@) =~= before.push(qdrant_hit_line((i + 1) as nat, hits@[i as int], c@)));
        i = i + 1;
    }
    let mut out = owned("Found ");
    push_str(&mut out, usize_to_string(hits.len()).as_str());
    push_str(&mut out, " result(s):\n\n");
    push_str(&mut out, crate::text::join_strings(&lines, "\n").as_str());
    Some(out)
}

/// The number of points a vector database reports for a collection: the
/// `points_count` member of its `result`, 0 when there is none.
pub fn points_count(info: &JsonValue) -> (n: u64)
    ensures
        n == match json_get(*info, "result"@) {
            Some(res) => match u64_arg(res, "points_count"@) {
                Some(c) => c,
                None => 0,
            },
            None => 0,
        },
{
    match info.get("result") {
        Some(res) => match res.u64_member("points_count") {
            Some(c) => c,
            None => 0,
        },
        None => 0,
    }
}

/// The documents kept by `without_id` are documents of `ds`, none with id `id`.
pub proof fn lemma_without_id<P>(ds: Seq<StoredDocument<P>>, id: Seq<char>)
    ensures
        forall|i: int| 0 <= i < without_id(ds, id).len() ==> (#[trigger] without_id(ds, id)[i]).id@ != id,
        forall|i: int| 0 <= i < without_id(ds, id).len() ==> ds.contains(#[trigger] without_id(ds, id)[i]),
        ids_distinct(ds) ==> ids_distinct(without_id(ds, id)),
    decreases ds.len(),
{
    if ds.len() > 0 {
        let init = ds.drop_last();
        lemma_without_id(init, id);
        let w = without_id(init, id);
        assert forall|i: int| 0 <= i < w.len() implies ds.contains(#[trigger] w[i]) by {
            let k = choose|k: int| 0 <= k < init.len() && init[k] == w[i];
            assert(ds[k] == w[i]);
        }
        if ds.last().id@ != id {
            assert(without_id(ds, id) == w.push(ds.last()));
            assert forall|i: int| 0 <= i < w.push(ds.last()).len() implies ds.contains(#[trigger] w.push(ds.last())[i]) by {
                if i == w.len() {
                    assert(ds[ds.len() - 1] == ds.last());
                } else {
                    assert(w.push(ds.last())[i] == w[i]);
                }
            }
            if ids_distinct(ds) {
                assert(ids_distinct(init)) by {
                    assert forall|i: int, j: int| 0 <= i < j < init.len() implies (#[trigger] init[i]).id@ != (#[trigger] init[j]).id@ by {
                        assert(init[i] == ds[i] && init[j] == ds[j]);
                    }
                }
                assert forall|i: int, j: int| 0 <= i < j < w.push(ds.last()).len() implies (#[trigger] w.push(
                    ds.last(),
                )[i]).id@ != (#[trigger] w.push(ds.last())[j]).id@ by {
                    if j == w.len() {
                        let k = choose|k: int| 0 <= k < init.len() && init[k] == w[i];
                        assert(ds[k] == w[i]);
                        assert(ds[ds.len() - 1] == ds.last());
                    } else {
                        assert(w.push(ds.last())[i] == w[i] && w.push(ds.last())[j] == w[j]);
                    }
                }
            }
        } else {
            if ids_distinct(ds) {
                assert forall|i: int, j: int| 0 <= i < j < init.len() implies (#[trigger] init[i]).id@ != (#[trigger] init[j]).id@ by {
                    assert(init[i] == ds[i] && init[j] == ds[j]);
                }
            }
        }
    }
}

/// Adding a document keeps ids unique: the store never holds two documents with
/// the same id, whatever is added or deleted.
pub proof fn lemma_add_keeps_ids_distinct<P>(ds: Seq<StoredDocument<P>>, d: StoredDocument<P>)
    requires
        ids_distinct(ds),
    ensures
        ids_distinct(without_id(ds, d.id@).push(d)),
        ids_distinct(without_id(ds, d.id@)),
{
    lemma_without_id(ds, d.id@);
    let w = without_id(ds, d.id@);
    assert forall|i: int, j: int| 0 <= i < j < w.push(d).len() implies (#[trigger] w.push(d)[i]).id@ != (
    #[trigger] w.push(d)[j]).id@ by {
        if j == w.len() {
            assert(w.push(d)[i] == w[i]);
        } else {
            assert(w.push(d)[i] == w[i] && w.push(d)[j] == w[j]);
        }
    }
}


/// Deleting an id keeps every other document, in order: what `delete` leaves,
/// and what `add` keeps before its new document, is the store filtered to the
/// documents whose id differs from the given one.
pub proof fn lemma_without_id_keeps_others<P>(ds: Seq<StoredDocument<P>>, id: Seq<char>)
    ensures
        without_id(ds, id) == ds.filter(|d: StoredDocument<P>| d.id@ != id),
        forall|i: int| 0 <= i < ds.len() && (#[trigger] ds[i]).id@ != id ==> without_id(ds, id).contains(ds[i]),
        without_id(ds, id).len() == ds.len() - ds.filter(|d: StoredDocument<P>| d.id@ == id).len(),
    decreases ds.len(),
{
    reveal(Seq::filter);
    if ds.len() > 0 {
        lemma_without_id_keeps_others(ds.drop_last(), id);
    }
    let p = |d: StoredDocument<P>| d.id@ != id;
    broadcast use vstd::seq_lib::group_filter_ensures;
    assert forall|i: int| 0 <= i < ds.len() && (#[trigger] ds[i]).id@ != id implies without_id(ds, id).contains(ds[i]) by {
        assert(p(ds[i]));
        ds.lemma_filter_contains(p, i);
    }
}

} // verus!
