use vstd::prelude::*;

use crate::backend::query_matches;

verus! {

/// The view of a list of field names: the sequence of their character
/// sequences, in schema order.  Position `i` in this sequence is the field
/// identity that the rest of the model speaks of.
pub open spec fn names_of(fields: Seq<String>) -> Seq<Seq<char>> {
    fields.map_values(|s: String| s@)
}

/// The view of a record: its (key, value) pairs as character sequences,
/// in the order the record lists them.
pub open spec fn pair_views(rec: Seq<(String, String)>) -> Seq<(Seq<char>, Seq<char>)> {
    rec.map_values(|p: (String, String)| (p.0@, p.1@))
}

/// No name occurs twice.
pub open spec fn distinct_names(names: Seq<Seq<char>>) -> bool {
    forall|i: int, j: int| 0 <= i < j < names.len() ==> names[i] != names[j]
}

/// The first position of `k` in `names`, or -1 when it does not occur.
pub open spec fn field_index_of(names: Seq<Seq<char>>, k: Seq<char>) -> int
    decreases names.len(),
{
    if names.len() == 0 {
        -1
    } else if names[0] == k {
        0
    } else {
        let rest = field_index_of(names.drop_first(), k);
        if rest < 0 {
            -1
        } else {
            rest + 1
        }
    }
}

/// A document in the model: the (field position, text) pairs that were
/// kept from a record, in record order.
pub open spec fn translate_spec(
    names: Seq<Seq<char>>,
    rec: Seq<(Seq<char>, Seq<char>)>,
) -> Seq<(nat, Seq<char>)>
    decreases rec.len(),
{
    if rec.len() == 0 {
        Seq::empty()
    } else {
        let rest = translate_spec(names, rec.drop_last());
        let p = rec.last();
        if names.contains(p.0) {
            rest.push((field_index_of(names, p.0) as nat, p.1))
        } else {
            rest
        }
    }
}

/// The view of the executable translator's output.
pub open spec fn doc_pairs_view(pairs: Seq<(usize, String)>) -> Seq<(nat, Seq<char>)> {
    pairs.map_values(|p: (usize, String)| (p.0 as nat, p.1@))
}

pub proof fn lemma_field_index_of_found(names: Seq<Seq<char>>, k: Seq<char>)
    requires
        names.contains(k),
    ensures
        0 <= field_index_of(names, k) < names.len(),
        names[field_index_of(names, k)] == k,
        forall|i: int| 0 <= i < field_index_of(names, k) ==> names[i] != k,
    decreases names.len(),
{
    if names.len() == 0 {
    } else if names[0] == k {
    } else {
        let rest = names.drop_first();
        assert(rest.contains(k)) by {
            let w = choose|w: int| 0 <= w < names.len() && names[w] == k;
            assert(rest[w - 1] == k);
        }
        lemma_field_index_of_found(rest, k);
        assert forall|i: int| 0 <= i < field_index_of(names, k) implies names[i] != k by {
            if i > 0 {
                assert(rest[i - 1] == names[i]);
            }
        }
    }
}

pub proof fn lemma_field_index_of_missing(names: Seq<Seq<char>>, k: Seq<char>)
    requires
        !names.contains(k),
    ensures
        field_index_of(names, k) == -1,
    decreases names.len(),
{
    if names.len() == 0 {
    } else {
        assert(names[0] != k);
        let rest = names.drop_first();
        assert(!rest.contains(k)) by {
            if rest.contains(k) {
                let w = choose|w: int| 0 <= w < rest.len() && rest[w] == k;
                assert(names[w + 1] == k);
            }
        }
        lemma_field_index_of_missing(rest, k);
    }
}


/// Pushing one more field name maps through the view pointwise.
pub proof fn lemma_names_of_push(s: Seq<String>, x: String)
    ensures
        names_of(s.push(x)) == names_of(s).push(x@),
{
    assert(names_of(s.push(x)) =~= names_of(s).push(x@));
}

/// The display-field pairs of a document: the (0, text) pairs, in order.
/// Only the display field is stored, so this is also the stored form of a
/// committed document.
pub open spec fn display_pairs_of(doc: Seq<(nat, Seq<char>)>) -> Seq<(nat, Seq<char>)>
    decreases doc.len(),
{
    if doc.len() == 0 {
        Seq::empty()
    } else {
        let rest = display_pairs_of(doc.drop_first());
        if doc.first().0 == 0 {
            seq![doc.first()] + rest
        } else {
            rest
        }
    }
}

/// The first display-field text of a document, if it has one: what the
/// result materializer reports for a hit on this document.
pub open spec fn first_display_of(doc: Seq<(nat, Seq<char>)>) -> Option<Seq<char>>
    decreases doc.len(),
{
    if doc.len() == 0 {
        None
    } else if doc.first().0 == 0 {
        Some(doc.first().1)
    } else {
        first_display_of(doc.drop_first())
    }
}

/// How many of the committed documents match the query.
pub open spec fn count_matches(
    names: Seq<Seq<char>>,
    query: Seq<char>,
    docs: Seq<Seq<(nat, Seq<char>)>>,
) -> nat
    decreases docs.len(),
{
    if docs.len() == 0 {
        0
    } else {
        count_matches(names, query, docs.drop_last()) + if query_matches(
            names,
            query,
            docs.last(),
        ) {
            1nat
        } else {
            0nat
        }
    }
}

/// Soundness of a result list: every returned string is the first stored
/// display-field text of some committed document that matches the query.
pub open spec fn hits_are_matches(
    names: Seq<Seq<char>>,
    query: Seq<char>,
    docs: Seq<Seq<(nat, Seq<char>)>>,
    titles: Seq<String>,
) -> bool {
    forall|j: int|
        #![trigger titles[j]]
        0 <= j < titles.len() ==> exists|i: int|
            0 <= i < docs.len() && query_matches(names, query, #[trigger] docs[i])
                && first_display_of(docs[i]) == Some(titles[j]@)
}

/// Completeness of a result list: when no more documents match than the
/// result bound allows, every matching committed document that has a
/// display value contributes its display text; a matching document without
/// one is omitted while the call still succeeds.
pub open spec fn hits_complete(
    names: Seq<Seq<char>>,
    query: Seq<char>,
    docs: Seq<Seq<(nat, Seq<char>)>>,
    titles: Seq<String>,
    limit: int,
) -> bool {
    count_matches(names, query, docs) <= limit ==> forall|i: int|
        #![trigger docs[i]]
        0 <= i < docs.len() && query_matches(names, query, docs[i]) && first_display_of(
            docs[i],
        ) is Some ==> exists|j: int|
            0 <= j < titles.len() && Some((#[trigger] titles[j])@) == first_display_of(docs[i])
}

/// The stored form of a document reports the same first display text as
/// the document itself.
pub proof fn lemma_first_display_of_display_pairs(doc: Seq<(nat, Seq<char>)>)
    ensures
        first_display_of(display_pairs_of(doc)) == first_display_of(doc),
    decreases doc.len(),
{
    if doc.len() == 0 {
    } else {
        lemma_first_display_of_display_pairs(doc.drop_first());
        if doc.first().0 == 0 {
            let dp = display_pairs_of(doc);
            assert(dp == seq![doc.first()] + display_pairs_of(doc.drop_first()));
            assert(dp[0] == doc.first());
        }
    }
}

/// Law: a record key that is not a schema field contributes nothing.
/// Appending a pair with an unknown key to a record leaves the translated
/// document unchanged, so such a key neither errors nor is indexed.
pub proof fn lemma_unknown_key_dropped(
    names: Seq<Seq<char>>,
    rec: Seq<(Seq<char>, Seq<char>)>,
    k: Seq<char>,
    v: Seq<char>,
)
    requires
        !names.contains(k),
    ensures
        translate_spec(names, rec.push((k, v))) == translate_spec(names, rec),
{
    let pushed = rec.push((k, v));
    assert(pushed.drop_last() =~= rec);
    assert(pushed.last() == (k, v));
}

/// Law: the schema holds exactly the display field and the other fields.
/// A name is a field of the schema built from display name `d` and others
/// `others` exactly when it is `d` or one of `others`.
pub proof fn lemma_schema_names_cover(d: Seq<char>, others: Seq<Seq<char>>)
    ensures
        forall|k: Seq<char>|
            #[trigger] (seq![d] + others).contains(k) <==> (k == d || others.contains(k)),
{
    let all = seq![d] + others;
    assert forall|k: Seq<char>| #[trigger] all.contains(k) implies (k == d || others.contains(
        k,
    )) by {
        let w = choose|w: int| 0 <= w < all.len() && all[w] == k;
        if w > 0 {
            assert(others[w - 1] == k);
        }
    }
    assert forall|k: Seq<char>| (k == d || others.contains(k)) implies #[trigger] all.contains(
        k,
    ) by {
        if k == d {
            assert(all[0] == k);
        } else {
            let w = choose|w: int| 0 <= w < others.len() && others[w] == k;
            assert(all[w + 1] == k);
        }
    }
}

/// Law: a commit publishes exactly the pending documents.  The committed
/// count after a commit is the count before it plus the size of the batch;
/// in particular a batch of N documents committed onto an empty index
/// yields count N, and a single transient add yields count 1.
pub proof fn lemma_commit_adds_pending(
    committed: Seq<Seq<(nat, Seq<char>)>>,
    pending: Seq<Seq<(nat, Seq<char>)>>,
)
    ensures
        (committed + pending).len() == committed.len() + pending.len(),
{
}

/// Law: every search hit comes from a matching committed document, so a
/// query that matches no committed document — in particular any query on
/// an empty index — yields an empty result, not an error.
pub proof fn lemma_no_match_no_hits(
    names: Seq<Seq<char>>,
    query: Seq<char>,
    docs: Seq<Seq<(nat, Seq<char>)>>,
    hits: Seq<String>,
)
    requires
        forall|i: int| 0 <= i < docs.len() ==> !query_matches(names, query, #[trigger] docs[i]),
        hits_are_matches(names, query, docs, hits),
    ensures
        hits.len() == 0,
{
    if hits.len() > 0 {
        let h = hits[0];
        let i = choose|i: int|
            0 <= i < docs.len() && query_matches(names, query, docs[i]) && first_display_of(
                docs[i],
            ) == Some(h@);
        assert(!query_matches(names, query, docs[i]));
        assert(false);
    }
}

/// Law: a document that matches the query is reported through its display
/// text, no matter which field holds the matching term, whenever the
/// matching set fits the result bound and the document has a display
/// value.
pub proof fn lemma_matching_doc_reported(
    names: Seq<Seq<char>>,
    query: Seq<char>,
    docs: Seq<Seq<(nat, Seq<char>)>>,
    hits: Seq<String>,
    limit: int,
    i: int,
)
    requires
        hits_complete(names, query, docs, hits, limit),
        count_matches(names, query, docs) <= limit,
        0 <= i < docs.len(),
        query_matches(names, query, docs[i]),
        first_display_of(docs[i]) is Some,
    ensures
        exists|j: int|
            0 <= j < hits.len() && Some((#[trigger] hits[j])@) == first_display_of(docs[i]),
{
}

} // verus!
