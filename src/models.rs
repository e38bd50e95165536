//! Records of the knowledge graph: files, documents, chunks, queries and
//! entities, plus the directory-tree node shown to users.
use vstd::prelude::*;
use crate::text::{lemma_seq_less_total, lemma_seq_less_transitive, seq_less, str_less};

verus! {

/// A `:File` node: metadata of one file on disk, keyed by its path.
#[derive(Clone, Debug, PartialEq, Eq)]
pub struct FileNode {
    pub id: String,
    pub path: String,
    pub filename: String,
    pub size_bytes: i64,
    pub modified_at: String,
    pub mime_type: Option<String>,
}

/// A `:Document` node: the parsed content of one file.
#[derive(Clone, Debug, PartialEq, Eq)]
pub struct DocumentNode {
    pub id: String,
    pub title: String,
    pub doc_type: String,
    pub language: String,
    pub source: String,
}

/// A `:Chunk` node: one segment of a document. Its embedding vector is
/// held by the caller beside it, at the same position.
#[derive(Clone, Debug, PartialEq, Eq)]
pub struct ChunkNode {
    pub id: String,
    pub document_id: String,
    pub index: i64,
    pub text: String,
    pub tokens: i64,
}

/// A `:Query` node: the audit record of one question.
#[derive(Clone, Debug, PartialEq, Eq)]
pub struct QueryNode {
    pub id: String,
    pub question: String,
    pub created_at: String,
}

/// An `:Entity` node: a named concept, keyed by its name.
#[derive(Clone, Debug, PartialEq, Eq)]
pub struct EntityNode {
    pub id: String,
    pub label: String,
}

/// One entry of a directory listing.
#[derive(Debug)]
pub struct FileTreeNode {
    pub path: String,
    pub name: String,
    pub is_dir: bool,
    pub children: Vec<FileTreeNode>,
}

/// Whether `a` is listed before `b`: directories first, then by name in
/// `str` order.
pub open spec fn listed_before(a: FileTreeNode, b: FileTreeNode) -> bool {
    (a.is_dir && !b.is_dir) || (a.is_dir == b.is_dir && seq_less(a.name@, b.name@))
}

/// No entry is listed after one that should follow it.
pub open spec fn listing_ordered(s: Seq<FileTreeNode>) -> bool {
    forall|i: int, j: int| 0 <= i < j < s.len() ==> !listed_before(#[trigger] s[j], #[trigger] s[i])
}

proof fn lemma_listed_before(a: FileTreeNode, b: FileTreeNode, c: FileTreeNode)
    ensures
        !listed_before(a, a),
        listed_before(a, b) && listed_before(b, c) ==> listed_before(a, c),
{
    lemma_seq_less_total(a.name@, a.name@);
    if listed_before(a, b) && listed_before(b, c) && a.is_dir == b.is_dir && b.is_dir == c.is_dir {
        lemma_seq_less_transitive(a.name@, b.name@, c.name@);
    }
}

fn entry_before(a: &FileTreeNode, b: &FileTreeNode) -> (r: bool)
    ensures
        r == listed_before(*a, *b),
{
    if a.is_dir != b.is_dir {
        a.is_dir
    } else {
        str_less(a.name.as_str(), b.name.as_str())
    }
}

/// The entries of a directory in listing order: directories first, then by
/// name; entries that tie keep their order.
pub fn order_tree_children(entries: Vec<FileTreeNode>) -> (r: Vec<FileTreeNode>)
    ensures
        r@.to_multiset() == entries@.to_multiset(),
        listing_ordered(r@),
{
    let ghost orig = entries@;
    let mut rest = entries;
    let mut out: Vec<FileTreeNode> = Vec::new();
    let ghost mut k: int = 0;
    proof {
        assert(orig.subrange(0, 0) =~= Seq::<FileTreeNode>::empty());
        assert(orig.subrange(0, orig.len() as int) =~= orig);
        broadcast use vstd::seq_lib::group_to_multiset_ensures;
    }
    while rest.len() > 0
        invariant
            0 <= k <= orig.len(),
            rest@ == orig.subrange(k, orig.len() as int),
            out@.to_multiset() == orig.subrange(0, k).to_multiset(),
            listing_ordered(out@),
        decreases rest.len(),
    {
        let x = rest.remove(0);
        let mut j: usize = 0;
        while j < out.len() && !entry_before(&x, &out[j])
            invariant
                j <= out.len(),
                forall|m: int| 0 <= m < j ==> !listed_before(x, #[trigger] out@[m]),
            decreases out.len() - j,
        {
            j = j + 1;
        }
        let ghost before = out@;
        out.insert(j, x);
        proof {
            vstd::seq_lib::to_multiset_insert(before, j as int, x);
            assert(orig.subrange(0, k + 1) =~= orig.subrange(0, k).push(orig[k]));
            vstd::seq_lib::to_multiset_build(orig.subrange(0, k), orig[k]);
            assert(orig.subrange(k + 1, orig.len() as int) =~= orig.subrange(k, orig.len() as int).remove(0));
            let s = out@;
            assert forall|i: int, i2: int| 0 <= i < i2 < s.len() implies !listed_before(#[trigger] s[i2], #[trigger] s[i]) by {
                if i2 < j {
                } else if i2 == j {
                    assert(s[i] == before[i]);
                } else if i == j {
                    let y = before[i2 - 1];
                    assert(s[i2] == y);
                    lemma_listed_before(y, x, before[j as int]);
                    lemma_listed_before(y, y, y);
                    if listed_before(y, x) {
                        assert(listed_before(y, before[j as int]));
                        if i2 - 1 > j {
                            assert(!listed_before(before[i2 - 1], before[j as int]));
                        }
                    }
                } else if i < j {
                    assert(s[i] == before[i]);
                    assert(s[i2] == before[i2 - 1]);
                } else {
                    assert(s[i] == before[i - 1]);
                    assert(s[i2] == before[i2 - 1]);
                }
            }
            k = k + 1;
        }
    }
    proof {
        assert(orig.subrange(0, k) =~= orig);
    }
    out
}

} // verus!
