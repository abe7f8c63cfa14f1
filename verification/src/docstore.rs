//! Memory document store queries: deleting, listing and patching documents
//! by identifier or tag. Loading and persisting the store, and the
//! similarity scoring over embedding vectors, stay with the caller; these
//! functions work on the document list as plain values.

use vstd::prelude::*;
use crate::secure::OkResponse;
use crate::tasks::lemma_filter_push;

verus! {

/// One stored memory document. The caller keeps any embedding vector it
/// computes beside the store; the fields here are what the store's own
/// rules read.
#[derive(Debug)]
pub struct MemoryDoc {
    pub id: String,
    pub title: String,
    pub tags: Vec<String>,
    pub content: String,
    pub created_at: String,
    pub updated_at: String,
}

/// Request to store one document.
#[derive(Debug)]
pub struct SaveMemoryPayload {
    pub title: String,
    pub tags: Vec<String>,
    pub content: String,
}

/// Request to rank documents against a query.
#[derive(Debug)]
pub struct QueryCodexPayload {
    pub q: String,
    pub top_k: Option<usize>,
    pub tags: Option<Vec<String>>,
}

/// Request to page through documents, optionally by tag.
#[derive(Debug)]
pub struct ListMemoryPayload {
    pub tag: Option<String>,
    pub limit: Option<usize>,
    pub offset: Option<usize>,
}

/// Request to patch one document.
#[derive(Debug)]
pub struct UpdateMemoryPayload {
    pub id: String,
    pub patch: UpdateMemoryPatch,
}

/// The fields an update may replace.
#[derive(Debug)]
pub struct UpdateMemoryPatch {
    pub title: Option<String>,
    pub tags: Option<Vec<String>>,
    pub content: Option<String>,
}

/// Request naming one document.
#[derive(Debug)]
pub struct DeleteMemoryPayload {
    pub id: String,
}

/// A page of documents and the total count before paging.
#[derive(Debug)]
pub struct ListMemoryResponse {
    pub items: Vec<MemoryDoc>,
    pub total: usize,
}

/// The views of a list of strings.
pub open spec fn strs_view(s: Seq<String>) -> Seq<Seq<char>> {
    s.map_values(|x: String| x@)
}

/// Whether `d` carries `tag`.
pub open spec fn spec_has_tag(d: MemoryDoc, tag: Seq<char>) -> bool {
    exists|j: int| 0 <= j < d.tags@.len() && d.tags@[j]@ == tag
}

/// Whether `d` passes an optional tag filter.
pub open spec fn keep_doc(d: MemoryDoc, filt: Option<Seq<char>>) -> bool {
    match filt {
        None => true,
        Some(tag) => spec_has_tag(d, tag),
    }
}

/// The tag filter a list request asks for.
pub open spec fn spec_tag_of(payload: Option<ListMemoryPayload>) -> Option<Seq<char>> {
    match payload {
        None => None,
        Some(p) => match p.tag {
            None => None,
            Some(t) => Some(t@),
        },
    }
}

/// The page start a list request asks for (0 when absent).
pub open spec fn spec_offset_of(payload: Option<ListMemoryPayload>) -> nat {
    match payload {
        None => 0,
        Some(p) => match p.offset {
            None => 0,
            Some(o) => o as nat,
        },
    }
}

/// The page size a list request asks for (everything when absent).
pub open spec fn spec_limit_of(payload: Option<ListMemoryPayload>, total: nat) -> nat {
    match payload {
        None => total,
        Some(p) => match p.limit {
            None => total,
            Some(l) => l as nat,
        },
    }
}

/// The documents that pass the filter, in stored order.
pub open spec fn spec_list_docs(s: Seq<MemoryDoc>, filt: Option<Seq<char>>) -> Seq<MemoryDoc> {
    s.filter(|d: MemoryDoc| keep_doc(d, filt))
}

/// The page `[offset, offset + limit)` of `s`, clipped to its length.
pub open spec fn spec_page(s: Seq<MemoryDoc>, offset: nat, limit: nat) -> Seq<MemoryDoc> {
    let lo = if offset > s.len() {
        s.len()
    } else {
        offset
    };
    let hi = if offset + limit > s.len() {
        s.len()
    } else {
        offset + limit
    };
    s.subrange(lo as int, hi as int)
}

/// True when `b` is `a` with `patch` applied and its update stamp set to
/// `now`: patched fields take the patch's values, the rest stay, and the
/// identifier and creation stamp never change.
pub open spec fn spec_patched(a: MemoryDoc, patch: UpdateMemoryPatch, now: Seq<char>, b: MemoryDoc) -> bool {
    &&& b.id@ == a.id@
    &&& b.created_at@ == a.created_at@
    &&& b.updated_at@ == now
    &&& b.title@ == (match patch.title {
        Some(t) => t@,
        None => a.title@,
    })
    &&& strs_view(b.tags@) == (match patch.tags {
        Some(ts) => strs_view(ts@),
        None => strs_view(a.tags@),
    })
    &&& b.content@ == (match patch.content {
        Some(c) => c@,
        None => a.content@,
    })
}

/// The first index holding `id`, or the length when none does.
pub open spec fn spec_doc_index(s: Seq<MemoryDoc>, id: Seq<char>) -> int
    decreases s.len(),
{
    if s.len() == 0 {
        0
    } else if s[0].id@ == id {
        0
    } else {
        1 + spec_doc_index(s.drop_first(), id)
    }
}

/// `spec_doc_index` points at the first match, or past the end.
proof fn lemma_doc_index(s: Seq<MemoryDoc>, id: Seq<char>)
    ensures
        0 <= spec_doc_index(s, id) <= s.len(),
        spec_doc_index(s, id) < s.len() ==> s[spec_doc_index(s, id)].id@ == id,
        forall|j: int| 0 <= j < spec_doc_index(s, id) ==> s[j].id@ != id,
    decreases s.len(),
{
    if s.len() > 0 && s[0].id@ != id {
        lemma_doc_index(s.drop_first(), id);
        let i = spec_doc_index(s, id);
        assert forall|j: int| 0 <= j < i implies s[j].id@ != id by {
            if j > 0 {
                assert(s.drop_first()[j - 1] == s[j]);
            }
        }
        if i < s.len() {
            assert(s.drop_first()[i - 1] == s[i]);
        }
    }
}

/// Drops every document whose id is `payload.id`; every other document
/// stays, in order. Never fails.
#[verifier::loop_isolation(false)]
pub fn delete_memory(docs: &mut Vec<MemoryDoc>, payload: DeleteMemoryPayload) -> (r: Result<
    OkResponse,
    String,
>)
    ensures
        final(docs)@ == old(docs)@.filter((|d: MemoryDoc| d.id@ != payload.id@)),
        r == Ok::<OkResponse, String>(OkResponse { ok: true }),
{
    let ghost orig = docs@;
    let mut out: Vec<MemoryDoc> = Vec::new();
    let ghost k: int = 0;
    while docs.len() > 0
        invariant
            0 <= k <= orig.len(),
            docs@ == orig.skip(k),
            out@ == orig.subrange(0, k).filter((|d: MemoryDoc| d.id@ != payload.id@)),
        decreases docs@.len(),
    {
        let d = docs.remove(0);
        proof {
            assert(d == orig[k]);
            assert(docs@ =~= orig.skip(k + 1));
            assert(orig.subrange(0, k + 1) =~= orig.subrange(0, k).push(orig[k]));
            lemma_filter_push(orig.subrange(0, k), orig[k], (|d: MemoryDoc| d.id@ != payload.id@));
        }
        if !d.id.eq(&payload.id) {
            out.push(d);
        }
        proof {
            k = k + 1;
        }
    }
    proof {
        assert(orig.subrange(0, orig.len() as int) =~= orig);
    }
    *docs = out;
    Ok(OkResponse { ok: true })
}

/// Tests whether `v` holds a string equal to `s`.
fn contains_string(v: &Vec<String>, s: &String) -> (r: bool)
    ensures
        r == exists|j: int| 0 <= j < v@.len() && v@[j]@ == s@,
{
    let mut i: usize = 0;
    while i < v.len()
        invariant
            i <= v@.len(),
            forall|j: int| 0 <= j < i ==> v@[j]@ != s@,
        decreases v@.len() - i,
    {
        if v[i].eq(s) {
            return true;
        }
        i = i + 1;
    }
    false
}

/// Pages through the documents that pass the request's tag filter: the
/// response counts every match and carries the requested page of them, in
/// stored order. Never fails.
#[verifier::loop_isolation(false)]
pub fn list_memory(docs: Vec<MemoryDoc>, payload: Option<ListMemoryPayload>) -> (r: Result<
    ListMemoryResponse,
    String,
>)
    ensures
        r is Ok,
        r->Ok_0.total == spec_list_docs(docs@, spec_tag_of(payload)).len(),
        r->Ok_0.items@ == spec_page(
            spec_list_docs(docs@, spec_tag_of(payload)),
            spec_offset_of(payload),
            spec_limit_of(payload, spec_list_docs(docs@, spec_tag_of(payload)).len()),
        ),
{
    let ghost orig = docs@;
    let ghost filt = spec_tag_of(payload);
    let mut docs = docs;
    let mut kept: Vec<MemoryDoc> = Vec::new();
    let ghost k: int = 0;
    while docs.len() > 0
        invariant
            0 <= k <= orig.len(),
            docs@ == orig.skip(k),
            kept@ == orig.subrange(0, k).filter((|d: MemoryDoc| keep_doc(d, filt))),
        decreases docs@.len(),
    {
        let d = docs.remove(0);
        proof {
            assert(d == orig[k]);
            assert(docs@ =~= orig.skip(k + 1));
            assert(orig.subrange(0, k + 1) =~= orig.subrange(0, k).push(orig[k]));
            lemma_filter_push(orig.subrange(0, k), orig[k], (|d: MemoryDoc| keep_doc(d, filt)));
        }
        let keep = match &payload {
            None => true,
            Some(p) => match &p.tag {
                None => true,
                Some(tag) => contains_string(&d.tags, tag),
            },
        };
        if keep {
            kept.push(d);
        }
        proof {
            k = k + 1;
        }
    }
    proof {
        assert(orig.subrange(0, orig.len() as int) =~= orig);
    }
    let ghost flt = spec_list_docs(orig, filt);
    let total = kept.len();
    let offset = match &payload {
        None => 0,
        Some(p) => match p.offset {
            None => 0,
            Some(o) => o,
        },
    };
    let lo = if offset > total {
        total
    } else {
        offset
    };
    let mut dropped: usize = 0;
    while dropped < lo
        invariant
            dropped <= lo,
            lo <= flt.len(),
            kept@ == flt.skip(dropped as int),
        decreases lo - dropped,
    {
        kept.remove(0);
        proof {
            assert(flt.skip(dropped as int).remove(0) =~= flt.skip(dropped + 1));
        }
        dropped = dropped + 1;
    }
    let rem = total - lo;
    let take = match &payload {
        None => rem,
        Some(p) => match p.limit {
            None => rem,
            Some(l) => if l > rem {
                rem
            } else {
                l
            },
        },
    };
    kept.truncate(take);
    proof {
        assert(kept@ =~= spec_page(
            flt,
            spec_offset_of(payload),
            spec_limit_of(payload, flt.len()),
        ));
    }
    Ok(ListMemoryResponse { items: kept, total })
}

/// Copies one string.
pub(crate) fn clone_string(s: &String) -> (r: String)
    ensures
        r@ == s@,
{
    s.clone()
}

/// Copies a list of strings.
pub(crate) fn clone_strings(v: &Vec<String>) -> (r: Vec<String>)
    ensures
        strs_view(r@) == strs_view(v@),
        r@.len() == v@.len(),
{
    let mut r: Vec<String> = Vec::new();
    let mut i: usize = 0;
    while i < v.len()
        invariant
            i <= v@.len(),
            r@.len() == i,
            forall|j: int| 0 <= j < i ==> r@[j]@ == v@[j]@,
        decreases v@.len() - i,
    {
        r.push(clone_string(&v[i]));
        i = i + 1;
    }
    proof {
        assert(strs_view(r@) =~= strs_view(v@));
    }
    r
}

/// Patches the first document whose id is `payload.id`, stamping it with
/// `now`, and returns a copy of the patched document. Fails exactly when no
/// document carries that id, leaving the store unchanged.
#[verifier::loop_isolation(false)]
pub fn update_memory(docs: &mut Vec<MemoryDoc>, payload: UpdateMemoryPayload, now: &str) -> (r:
    Result<MemoryDoc, String>)
    ensures
        r is Ok <==> spec_doc_index(old(docs)@, payload.id@) < old(docs)@.len(),
        r is Err ==> final(docs)@ == old(docs)@ && r->Err_0@ == "memory not found"@,
        r is Ok ==> ({
            let i = spec_doc_index(old(docs)@, payload.id@);
            &&& final(docs)@.len() == old(docs)@.len()
            &&& spec_patched(old(docs)@[i], payload.patch, now@, final(docs)@[i])
            &&& spec_patched(old(docs)@[i], payload.patch, now@, r->Ok_0)
            &&& forall|j: int| 0 <= j < old(docs)@.len() && j != i ==> final(docs)@[j] == old(
                docs,
            )@[j]
        }),
{
    let ghost orig = docs@;
    proof {
        lemma_doc_index(orig, payload.id@);
    }
    let mut i: usize = 0;
    while i < docs.len()
        invariant
            i <= orig.len(),
            docs@ == orig,
            forall|j: int| 0 <= j < i ==> orig[j].id@ != payload.id@,
        decreases orig.len() - i,
    {
        if docs[i].id.eq(&payload.id) {
            proof {
                assert(spec_doc_index(orig, payload.id@) == i) by {
                    lemma_doc_index(orig, payload.id@);
                    let ix = spec_doc_index(orig, payload.id@);
                    assert(!(ix < i) && !(i < ix));
                }
            }
            let d_old = docs.remove(i);
            let title = match payload.patch.title {
                Some(t) => t,
                None => d_old.title,
            };
            let tags = match payload.patch.tags {
                Some(ts) => ts,
                None => d_old.tags,
            };
            let content = match payload.patch.content {
                Some(c) => c,
                None => d_old.content,
            };
            let d_new = MemoryDoc {
                id: d_old.id,
                title,
                tags,
                content,
                created_at: d_old.created_at,
                updated_at: now.to_owned(),
            };
            let copy = MemoryDoc {
                id: clone_string(&d_new.id),
                title: clone_string(&d_new.title),
                tags: clone_strings(&d_new.tags),
                content: clone_string(&d_new.content),
                created_at: clone_string(&d_new.created_at),
                updated_at: clone_string(&d_new.updated_at),
            };
            docs.insert(i, d_new);
            proof {
                assert(docs@ =~= orig.update(i as int, docs@[i as int]));
                assert(forall|j: int|
                    0 <= j < orig.len() && j != i ==> docs@[j] == orig[j]);
            }
            return Ok(copy);
        }
        i = i + 1;
    }
    proof {
        lemma_doc_index(orig, payload.id@);
        assert(spec_doc_index(orig, payload.id@) >= orig.len()) by {
            let ix = spec_doc_index(orig, payload.id@);
            if ix < orig.len() {
                assert(orig[ix].id@ == payload.id@);
            }
        }
    }
    Err("memory not found".to_owned())
}

} // verus!
