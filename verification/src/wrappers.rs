use vstd::prelude::*;

use crate::backend::builder_add_stored_text;
use crate::backend::builder_add_text;
use crate::backend::builder_names;
use crate::backend::builder_new;
use crate::backend::build_in_ram;
use crate::backend::doc_add_text;
use crate::backend::doc_display_text;
use crate::backend::doc_new;
use crate::backend::doc_fields;
use crate::backend::field_id;
use crate::backend::query_matches;
use crate::backend::query_parses;
use crate::backend::writer_matches_index;
use crate::backend::writer_add;
use crate::backend::WriterHandle;
use crate::backend::writer_open;
use crate::backend::writer_pending;
use crate::errors::IndexError;
use crate::model::distinct_names;
use crate::model::doc_pairs_view;
use crate::model::field_index_of;
use crate::model::lemma_field_index_of_found;
use crate::model::lemma_field_index_of_missing;
use crate::model::names_of;
use crate::model::pair_views;
use crate::model::lemma_names_of_push;
use crate::model::count_matches;
use crate::model::display_pairs_of;
use crate::model::first_display_of;
use crate::model::hits_are_matches;
use crate::model::hits_complete;
use crate::model::lemma_first_display_of_display_pairs;
use crate::model::translate_spec;

verus! {

/// The memory budget, in bytes, handed to the transient writer that backs
/// a single `add_document` call.
pub const TRANSIENT_WRITER_BUDGET: usize = 50_000_000;

/// The memory budget, in bytes, handed to the long-lived batch writer.
pub const BATCH_WRITER_BUDGET: usize = 2_000_000_000;

/// How many results a plain `search` returns at most.
pub const DEFAULT_TOP_K: usize = 10;

/// An in-memory full-text index with a fixed schema.
///
/// The schema is a list of field names, all indexed as text; the first one,
/// the display field, is also stored, and its text is what `search`
/// returns.  The model of the committed state is a sequence of documents,
/// each a sequence of (field position, text) pairs; `docs()` exposes it and
/// grows only at commit boundaries.
pub struct TantivyIndexWrapper {
    index: tantivy::Index,
    fields: Vec<String>,
    handles: Vec<tantivy::schema::Field>,
    title_field_name: String,
    committed: Ghost<Seq<Seq<(nat, Seq<char>)>>>,
}

impl TantivyIndexWrapper {
    /// The schema's field names, display field first.
    pub closed spec fn names(&self) -> Seq<Seq<char>> {
        names_of(self.fields@)
    }

    /// The committed documents, in commit order.
    pub closed spec fn docs(&self) -> Seq<Seq<(nat, Seq<char>)>> {
        self.committed@
    }

    /// The display field's name.
    pub closed spec fn display_name(&self) -> Seq<char> {
        self.title_field_name@
    }

    /// Well-formedness: at least one field, no duplicate names, the display
    /// field stands first, and the stored handles mirror the schema
    /// positions.
    pub closed spec fn wf(&self) -> bool {
        &&& self.fields@.len() >= 1
        &&& self.handles@.len() == self.fields@.len()
        &&& distinct_names(self.names())
        &&& self.title_field_name@ == self.names()[0]
        &&& forall|i: int|
            0 <= i < self.handles@.len() ==> field_id(#[trigger] self.handles@[i]) == i
    }

    /// Builds an index over the given fields: `name_field` is the display
    /// field, stored and indexed; every entry of `fields` is indexed only.
    /// A name that occurs twice is rejected.  The new index has no
    /// committed documents.
    #[verifier::loop_isolation(false)]
    pub fn new(index_name: String, name_field: String, fields: Vec<String>) -> (r: Result<
        TantivyIndexWrapper,
        IndexError,
    >)
        ensures
            r is Ok <==> distinct_names(seq![name_field@] + names_of(fields@)),
            r matches Ok(w) ==> {
                &&& w.wf()
                &&& w.names() == seq![name_field@] + names_of(fields@)
                &&& w.display_name() == name_field@
                &&& w.docs() == Seq::<Seq<(nat, Seq<char>)>>::empty()
            },
            r matches Err(e) ==> e == IndexError::DuplicateField,
    {
        let ghost display_view = name_field@;
        let title_field_name = name_field.clone();
        let mut all_fields: Vec<String> = Vec::new();
        all_fields.push(name_field);
        proof {
            assert(names_of(all_fields@) =~= seq![display_view] + names_of(fields@).take(0));
        }
        let mut k: usize = 0;
        while k < fields.len()
            invariant
                k <= fields.len(),
                names_of(all_fields@) == seq![display_view] + names_of(fields@).take(k as int),
            decreases fields.len() - k,
        {
            let name_k = fields[k].clone();
            proof {
                lemma_names_of_push(all_fields@, name_k);
                assert(names_of(fields@).take(k + 1) =~= names_of(fields@).take(k as int).push(
                    fields@[k as int]@,
                ));
            }
            all_fields.push(name_k);
            proof {
                assert(names_of(all_fields@) =~= seq![display_view] + names_of(fields@).take(
                    k + 1,
                ));
            }
            k += 1;
        }
        proof {
            assert(names_of(fields@).take(fields@.len() as int) =~= names_of(fields@));
        }
        let ghost all_names = names_of(all_fields@);

        // Reject duplicate field names.
        let n = all_fields.len();
        let mut i: usize = 0;
        while i < n
            invariant
                n == all_fields@.len(),
                i <= n,
                all_names == names_of(all_fields@),
                forall|a: int, b: int| 0 <= a < b < n && a < i ==> all_names[a] != all_names[b],
            decreases n - i,
        {
            let mut j: usize = i + 1;
            while j < n
                invariant
                    n == all_fields@.len(),
                    i < n,
                    i < j <= n,
                    all_names == names_of(all_fields@),
                    forall|b: int| i < b < j ==> all_names[i as int] != all_names[b],
                decreases n - j,
            {
                if all_fields[i] == all_fields[j] {
                    proof {
                        assert(all_names[i as int] == all_names[j as int]);
                        assert(!distinct_names(all_names));
                    }
                    return Err(IndexError::DuplicateField);
                }
                j += 1;
            }
            i += 1;
        }
        assert(distinct_names(all_names));

        // Declare the fields to tantivy, display field first and stored.
        let mut builder = builder_new();
        let mut handles: Vec<tantivy::schema::Field> = Vec::new();
        proof {
            assert(builder_names(builder) =~= all_names.take(0));
        }
        let mut k: usize = 0;
        while k < all_fields.len()
            invariant
                all_names == names_of(all_fields@),
                distinct_names(all_names),
                k <= all_fields@.len(),
                builder_names(builder) == all_names.take(k as int),
                handles@.len() == k,
                forall|i: int| 0 <= i < k ==> field_id(#[trigger] handles@[i]) == i,
            decreases all_fields.len() - k,
        {
            proof {
                if all_names.take(k as int).contains(all_names[k as int]) {
                    let w = choose|w: int|
                        0 <= w < k && all_names.take(k as int)[w] == all_names[k as int];
                    assert(all_names[w] == all_names[k as int]);
                    assert(false);
                }
            }
            let f = if k == 0 {
                builder_add_stored_text(&mut builder, &all_fields[k])
            } else {
                builder_add_text(&mut builder, &all_fields[k])
            };
            handles.push(f);
            proof {
                assert(all_names.take(k + 1) =~= all_names.take(k as int).push(
                    all_names[k as int],
                ));
            }
            k += 1;
        }
        proof {
            assert(all_names.take(all_names.len() as int) =~= all_names);
        }
        let index = build_in_ram(builder);
        Ok(
            TantivyIndexWrapper {
                index,
                fields: all_fields,
                handles,
                title_field_name,
                committed: Ghost(Seq::empty()),
            },
        )
    }

    /// The schema's field names, display field first.
    #[verifier::loop_isolation(false)]
    pub fn field_names(&self) -> (r: Vec<String>)
        ensures
            names_of(r@) == self.names(),
    {
        let mut out: Vec<String> = Vec::new();
        proof {
            assert(names_of(out@) =~= self.names().take(0));
        }
        let mut k: usize = 0;
        while k < self.fields.len()
            invariant
                k <= self.fields@.len(),
                names_of(out@) == self.names().take(k as int),
            decreases self.fields.len() - k,
        {
            let name_k = self.fields[k].clone();
            proof {
                lemma_names_of_push(out@, name_k);
            }
            out.push(name_k);
            proof {
                assert(names_of(out@) =~= self.names().take(k + 1));
            }
            k += 1;
        }
        proof {
            assert(self.names().take(self.names().len() as int) =~= self.names());
        }
        out
    }

    /// The document translator: keeps the record's pairs whose key is a
    /// schema field, replacing the key by the field's position, and drops
    /// every other pair silently.
    #[verifier::loop_isolation(false)]
    pub fn field_vec_from_hashmap(&self, record: &Vec<(String, String)>) -> (r: Vec<(
        usize,
        String,
    )>)
        requires
            self.wf(),
        ensures
            doc_pairs_view(r@) == translate_spec(self.names(), pair_views(record@)),
            forall|i: int| 0 <= i < r@.len() ==> (#[trigger] r@[i]).0 < self.names().len(),
    {
        let mut out: Vec<(usize, String)> = Vec::new();
        proof {
            assert(doc_pairs_view(out@) =~= translate_spec(
                self.names(),
                pair_views(record@).take(0),
            ));
        }
        let mut k: usize = 0;
        while k < record.len()
            invariant
                self.wf(),
                k <= record@.len(),
                doc_pairs_view(out@) == translate_spec(
                    self.names(),
                    pair_views(record@).take(k as int),
                ),
                forall|i: int| 0 <= i < out@.len() ==> (#[trigger] out@[i]).0 < self.fields@.len(),
            decreases record.len() - k,
        {
            let key = &record[k].0;
            let mut j: usize = 0;
            let mut found: bool = false;
            let mut pos: usize = 0;
            while j < self.fields.len() && !found
                invariant
                    self.wf(),
                    j <= self.fields@.len(),
                    k < record@.len(),
                    key@ == record@[k as int].0@,
                    !found ==> forall|a: int| 0 <= a < j ==> self.names()[a] != key@,
                    found ==> pos < j && self.names()[pos as int] == key@ && forall|a: int|
                        0 <= a < pos ==> self.names()[a] != key@,
                decreases self.fields.len() - j,
            {
                if self.fields[j] == *key {
                    found = true;
                    pos = j;
                }
                j += 1;
            }
            proof {
                let rec_views = pair_views(record@);
                assert(rec_views.take(k + 1).drop_last() =~= rec_views.take(k as int));
                assert(rec_views.take(k + 1).last() == (record@[k as int].0@,
                record@[k as int].1@));
                if found {
                    assert(self.names().contains(key@));
                    lemma_field_index_of_found(self.names(), key@);
                    assert(field_index_of(self.names(), key@) == pos as int) by {
                        let fi = field_index_of(self.names(), key@);
                        if fi < pos as int {
                            assert(self.names()[fi] != key@);
                        } else if fi > pos as int {
                            assert(self.names()[pos as int] != key@);
                        }
                    }
                } else {
                    assert(!self.names().contains(key@)) by {
                        if self.names().contains(key@) {
                            let w = choose|w: int|
                                0 <= w < self.names().len() && self.names()[w] == key@;
                            assert(self.names()[w] != key@);
                        }
                    }
                    lemma_field_index_of_missing(self.names(), key@);
                }
            }
            if found {
                out.push((pos, record[k].1.clone()));
                proof {
                    assert(doc_pairs_view(out@) =~= translate_spec(
                        self.names(),
                        pair_views(record@).take(k + 1),
                    ));
                }
            } else {
                proof {
                    assert(doc_pairs_view(out@) =~= translate_spec(
                        self.names(),
                        pair_views(record@).take(k + 1),
                    ));
                }
            }
            k += 1;
        }
        proof {
            assert(pair_views(record@).take(record@.len() as int) =~= pair_views(record@));
        }
        out
    }

    /// Builds the tantivy document for a record: exactly the translated
    /// pairs, in record order.
    #[verifier::loop_isolation(false)]
    fn make_document(&self, record: &Vec<(String, String)>) -> (d: tantivy::TantivyDocument)
        requires
            self.wf(),
        ensures
            doc_fields(d) == translate_spec(self.names(), pair_views(record@)),
    {
        let pairs = self.field_vec_from_hashmap(record);
        let mut d = doc_new();
        proof {
            assert(doc_fields(d) =~= doc_pairs_view(pairs@.take(0)));
        }
        let mut k: usize = 0;
        while k < pairs.len()
            invariant
                self.wf(),
                k <= pairs@.len(),
                forall|i: int|
                    0 <= i < pairs@.len() ==> (#[trigger] pairs@[i]).0 < self.handles@.len(),
                doc_fields(d) == doc_pairs_view(pairs@.take(k as int)),
            decreases pairs.len() - k,
        {
            doc_add_text(&mut d, &self.handles, pairs[k].0, &pairs[k].1);
            proof {
                assert(doc_pairs_view(pairs@.take(k + 1)) =~= doc_pairs_view(
                    pairs@.take(k as int),
                ).push(((pairs@[k as int].0 as nat), pairs@[k as int].1@)));
            }
            k += 1;
        }
        proof {
            assert(pairs@.take(pairs@.len() as int) =~= pairs@);
        }
        d
    }

    /// Translates a record and appends it to the given writer's pending
    /// buffer.  Nothing becomes visible to searchers before a commit.
    pub fn add_document_nocommit(
        &self,
        index_writer: &mut WriterHandle,
        record: &Vec<(String, String)>,
    ) -> (r: Result<(), IndexError>)
        requires
            self.wf(),
        ensures
            r is Ok ==> writer_pending(*final(index_writer)) == writer_pending(
                *old(index_writer),
            ).push(translate_spec(self.names(), pair_views(record@))),
            r is Err ==> writer_pending(*final(index_writer)) == writer_pending(
                *old(index_writer),
            ),
            r matches Err(e) ==> e == IndexError::WriterError,
            forall|ix: tantivy::Index|
                writer_matches_index(*final(index_writer), ix) == writer_matches_index(
                    *old(index_writer),
                    ix,
                ),
    {
        let d = self.make_document(record);
        writer_add(index_writer, d)
    }

    /// Relies on tantivy's `IndexWriter::commit`: on success every document
    /// the writer had buffered becomes durably visible to every searcher
    /// acquired afterwards, and the buffer is empty; on failure the index
    /// keeps its last committed generation and the buffered documents are
    /// lost.  The `requires` ties the writer to this wrapper's own index.
    #[verifier::external_body]
    fn apply_commit(&mut self, w: &mut WriterHandle) -> (r: Result<(), IndexError>)
        requires
            writer_matches_index(*old(w), old(self).index),
        ensures
            final(self).fields == old(self).fields,
            final(self).handles == old(self).handles,
            final(self).title_field_name == old(self).title_field_name,
            final(self).index == old(self).index,
            r is Ok ==> final(self).committed@ == old(self).committed@ + writer_pending(*old(w))
                && writer_pending(*final(w)) == Seq::<Seq<(nat, Seq<char>)>>::empty(),
            r is Err ==> final(self).committed@ == old(self).committed@,
            r matches Err(e) ==> e == IndexError::WriterError,
            forall|ix: tantivy::Index|
                writer_matches_index(*final(w), ix) == writer_matches_index(*old(w), ix),
    {
        match w.inner.commit() {
            Ok(_) => Ok(()),
            Err(_) => Err(IndexError::WriterError),
        }
    }

    /// Adds one document and commits it: opens a transient writer,
    /// translates the record, appends it and commits.  On success exactly
    /// this document joins the committed state; on any failure the
    /// committed state is unchanged.
    pub fn add_document(&mut self, record: &Vec<(String, String)>) -> (r: Result<(), IndexError>)
        requires
            old(self).wf(),
        ensures
            final(self).wf(),
            final(self).names() == old(self).names(),
            final(self).display_name() == old(self).display_name(),
            r is Ok ==> final(self).docs() == old(self).docs().push(
                translate_spec(old(self).names(), pair_views(record@)),
            ),
            r is Err ==> final(self).docs() == old(self).docs(),
            r matches Err(e) ==> e == IndexError::WriterError,
    {
        let mut w = match writer_open(&self.index, TRANSIENT_WRITER_BUDGET) {
            Ok(w) => w,
            Err(e) => {
                return Err(e);
            },
        };
        match self.add_document_nocommit(&mut w, record) {
            Ok(()) => {},
            Err(e) => {
                return Err(e);
            },
        }
        self.apply_commit(&mut w)
    }

    /// Relies on tantivy's `Index::reader` and `Searcher::num_docs`: a
    /// reader acquired after the last commit sees exactly the committed
    /// documents, and `num_docs` counts them; nothing is ever deleted here.
    #[verifier::external_body]
    fn read_num_docs(&self) -> (r: Result<u64, IndexError>)
        ensures
            r matches Ok(n) ==> n as nat == self.docs().len(),
            r matches Err(e) ==> e == IndexError::StorageError,
    {
        match self.index.reader() {
            Ok(reader) => Ok(reader.searcher().num_docs()),
            Err(_) => Err(IndexError::StorageError),
        }
    }

    /// The number of documents visible in the current committed snapshot.
    /// Pending, uncommitted documents are never counted.
    pub fn num_docs(&self) -> (r: Result<u64, IndexError>)
        ensures
            r matches Ok(n) ==> n as nat == self.docs().len(),
            r matches Err(e) ==> e == IndexError::StorageError,
    {
        self.read_num_docs()
    }

    /// Relies on tantivy's `QueryParser::{for_index, parse_query}`,
    /// `Index::reader`, `Searcher::{search, doc}` and `TopDocs::with_limit`:
    /// the parser accepts the query as a function of the query string and
    /// the schema's field names; the collector's hits are committed
    /// documents that match the query, at most `limit` of them, and it
    /// misses none when no more than `limit` match; `doc` fetches a hit's
    /// stored form, which holds exactly the document's display pairs, the
    /// display field being the only stored one.  The hit loop stays here
    /// because tantivy scores hits in floating point.
    #[verifier::external_body]
    fn collect_hits(&self, query: &str, limit: usize) -> (r: Result<
        Vec<tantivy::TantivyDocument>,
        IndexError,
    >)
        requires
            self.wf(),
            limit >= 1,
        ensures
            (r matches Err(e) && e == IndexError::QueryParseError) <==> !query_parses(
                self.names(),
                query@,
            ),
            r matches Err(e) ==> (e == IndexError::QueryParseError || e
                == IndexError::StorageError),
            r matches Ok(ds) ==> {
                &&& ds@.len() <= limit
                &&& (forall|j: int|
                    #![trigger ds@[j]]
                    0 <= j < ds@.len() ==> exists|i: int|
                        0 <= i < self.docs().len() && query_matches(
                            self.names(),
                            query@,
                            #[trigger] self.docs()[i],
                        ) && doc_fields(ds@[j]) == display_pairs_of(self.docs()[i]))
                &&& (count_matches(self.names(), query@, self.docs()) <= limit ==> forall|i: int|
                    #![trigger self.docs()[i]]
                    0 <= i < self.docs().len() && query_matches(
                        self.names(),
                        query@,
                        self.docs()[i],
                    ) ==> exists|j: int|
                        0 <= j < ds@.len() && doc_fields(#[trigger] ds@[j]) == display_pairs_of(
                            self.docs()[i],
                        ))
            },
    {
        let parser = tantivy::query::QueryParser::for_index(&self.index, self.handles.clone());
        let q = parser.parse_query(query).map_err(|_| IndexError::QueryParseError)?;
        let searcher = self.index.reader().map_err(|_| IndexError::StorageError)?.searcher();
        let collector = tantivy::collector::TopDocs::with_limit(limit);
        let top = searcher.search(&q, &collector).map_err(|_| IndexError::StorageError)?;
        let mut out = Vec::new();
        for hit in top {
            out.push(searcher.doc(hit.1).map_err(|_| IndexError::StorageError)?);
        }
        Ok(out)
    }

    /// Searches all fields for the query and returns up to `limit` display
    /// field texts, best score first.  A term may be qualified with a field
    /// name and a boost (`field:term^boost`).  A malformed query is an
    /// error value, exactly when the parser rejects it.  Every returned
    /// string is the first display text of a committed document matching
    /// the query, and when no more than `limit` documents match, every
    /// matching document with a display value is reported; a matching
    /// document without one is skipped, not an error.
    #[verifier::loop_isolation(false)]
    pub fn search_top_k(&self, query: &str, limit: usize) -> (r: Result<Vec<String>, IndexError>)
        requires
            self.wf(),
            limit >= 1,
        ensures
            (r matches Err(e) && e == IndexError::QueryParseError) <==> !query_parses(
                self.names(),
                query@,
            ),
            r matches Err(e) ==> (e == IndexError::QueryParseError || e
                == IndexError::StorageError),
            r matches Ok(v) ==> {
                &&& v@.len() <= limit
                &&& hits_are_matches(self.names(), query@, self.docs(), v@)
                &&& hits_complete(self.names(), query@, self.docs(), v@, limit as int)
            },
    {
        let ds = match self.collect_hits(query, limit) {
            Ok(ds) => ds,
            Err(e) => {
                return Err(e);
            },
        };
        // The result materializer: report each hit's first display text,
        // skipping a hit that has none.
        let mut out: Vec<String> = Vec::new();
        let mut k: usize = 0;
        while k < ds.len()
            invariant
                k <= ds@.len(),
                out@.len() <= k,
                hits_are_matches(self.names(), query@, self.docs(), out@),
                forall|dj: int|
                    #![trigger ds@[dj]]
                    0 <= dj < k && first_display_of(doc_fields(ds@[dj])) is Some
                        ==> exists|j: int|
                        0 <= j < out@.len() && Some((#[trigger] out@[j])@) == first_display_of(
                            doc_fields(ds@[dj]),
                        ),
            decreases ds.len() - k,
        {
            let ghost old_out = out@;
            match doc_display_text(&ds, k, &self.handles) {
                Some(t) => {
                    proof {
                        assert(0 <= k < ds@.len());
                        let i = choose|i: int|
                            0 <= i < self.docs().len() && query_matches(
                                self.names(),
                                query@,
                                self.docs()[i],
                            ) && doc_fields(ds@[k as int]) == display_pairs_of(self.docs()[i]);
                        lemma_first_display_of_display_pairs(self.docs()[i]);
                        assert(first_display_of(self.docs()[i]) == Some(t@));
                    }
                    out.push(t);
                    proof {
                        assert forall|j: int| #![trigger out@[j]] 0 <= j
                            < out@.len() implies exists|i: int|
                            0 <= i < self.docs().len() && query_matches(
                                self.names(),
                                query@,
                                #[trigger] self.docs()[i],
                            ) && first_display_of(self.docs()[i]) == Some(out@[j]@) by {
                            if j < out@.len() - 1 {
                                assert(out@[j] == old_out[j]);
                            } else {
                                assert(out@[j]@ == t@);
                            }
                        }
                        assert(hits_are_matches(self.names(), query@, self.docs(), out@));
                        assert forall|dj: int|
                            #![trigger ds@[dj]]
                            0 <= dj < k + 1 && first_display_of(
                                doc_fields(ds@[dj]),
                            ) is Some implies exists|j: int|
                            0 <= j < out@.len() && Some((#[trigger] out@[j])@) == first_display_of(
                                doc_fields(ds@[dj]),
                            ) by {
                            if dj == k {
                                assert(out@[out@.len() - 1] == t);
                            } else {
                                let j0 = choose|j0: int|
                                    0 <= j0 < old_out.len() && Some(old_out[j0]@)
                                        == first_display_of(doc_fields(ds@[dj]));
                                assert(out@[j0] == old_out[j0]);
                            }
                        }
                    }
                },
                None => {},
            }
            k += 1;
        }
        proof {
            assert(hits_complete(self.names(), query@, self.docs(), out@, limit as int)) by {
                if count_matches(self.names(), query@, self.docs()) <= limit as int {
                    assert forall|i: int|
                        0 <= i < self.docs().len() && query_matches(
                            self.names(),
                            query@,
                            #[trigger] self.docs()[i],
                        ) && first_display_of(self.docs()[i]) is Some implies exists|j: int|
                        0 <= j < out@.len() && Some((#[trigger] out@[j])@) == first_display_of(
                            self.docs()[i],
                        ) by {
                        let dj = choose|dj: int|
                            0 <= dj < ds@.len() && doc_fields(ds@[dj]) == display_pairs_of(
                                self.docs()[i],
                            );
                        lemma_first_display_of_display_pairs(self.docs()[i]);
                        assert(first_display_of(doc_fields(ds@[dj])) == first_display_of(
                            self.docs()[i],
                        ));
                        assert(first_display_of(doc_fields(ds@[dj])) is Some);
                    }
                }
            }
        }
        Ok(out)
    }

    /// `search_top_k` with the default result bound.
    pub fn search(&self, query: &str) -> (r: Result<Vec<String>, IndexError>)
        requires
            self.wf(),
        ensures
            (r matches Err(e) && e == IndexError::QueryParseError) <==> !query_parses(
                self.names(),
                query@,
            ),
            r matches Err(e) ==> (e == IndexError::QueryParseError || e
                == IndexError::StorageError),
            r matches Ok(v) ==> {
                &&& v@.len() <= DEFAULT_TOP_K
                &&& hits_are_matches(self.names(), query@, self.docs(), v@)
                &&& hits_complete(self.names(), query@, self.docs(), v@, DEFAULT_TOP_K as int)
            },
    {
        self.search_top_k(query, DEFAULT_TOP_K)
    }
}

/// A long-lived batch writer.  It owns the index while the batch is open,
/// which is how the single-writer rule is kept: no second writer can be
/// opened against the index until the batch handle is gone.  Documents
/// added here stay pending, invisible to `num_docs` and `search`, until
/// the one `commit` call publishes them all.
pub struct BatchIndexer {
    index: TantivyIndexWrapper,
    index_writer: WriterHandle,
}

impl BatchIndexer {
    /// Well-formedness: the owned index is well-formed and the writer was
    /// opened on that index, so its commits publish there and nowhere
    /// else.
    pub closed spec fn wf(&self) -> bool {
        &&& self.index.wf()
        &&& writer_matches_index(self.index_writer, self.index.index)
    }

    /// The owned index's schema names, display field first.
    pub closed spec fn names(&self) -> Seq<Seq<char>> {
        self.index.names()
    }

    /// The owned index's committed documents.
    pub closed spec fn committed(&self) -> Seq<Seq<(nat, Seq<char>)>> {
        self.index.docs()
    }

    /// The documents buffered since the batch was opened (or last
    /// committed), in add order.
    pub closed spec fn pending(&self) -> Seq<Seq<(nat, Seq<char>)>> {
        writer_pending(self.index_writer)
    }

    /// The owned index, as a value.
    pub closed spec fn index_view(&self) -> TantivyIndexWrapper {
        self.index
    }

    /// The owned index's display field name.
    pub closed spec fn display_name(&self) -> Seq<char> {
        self.index.display_name()
    }

    /// Opens a batch over `index`, taking ownership of it.  The new batch
    /// has no pending documents and leaves the committed state alone.
    pub fn new(index: TantivyIndexWrapper) -> (r: Result<BatchIndexer, IndexError>)
        requires
            index.wf(),
        ensures
            r matches Ok(b) ==> {
                &&& b.wf()
                &&& b.index_view() == index
                &&& b.names() == index.names()
                &&& b.committed() == index.docs()
                &&& b.pending() == Seq::<Seq<(nat, Seq<char>)>>::empty()
            },
            r matches Err(e) ==> e == IndexError::WriterError,
    {
        let index_writer = match writer_open(&index.index, BATCH_WRITER_BUDGET) {
            Ok(w) => w,
            Err(e) => {
                return Err(e);
            },
        };
        Ok(BatchIndexer { index, index_writer })
    }

    /// Translates a record and buffers it.  The committed state, and with
    /// it what `num_docs` and any searcher report, is untouched.
    pub fn add_document(&mut self, record: &Vec<(String, String)>) -> (r: Result<(), IndexError>)
        requires
            old(self).wf(),
        ensures
            final(self).wf(),
            final(self).names() == old(self).names(),
            final(self).committed() == old(self).committed(),
            r is Ok ==> final(self).pending() == old(self).pending().push(
                translate_spec(old(self).names(), pair_views(record@)),
            ),
            r is Err ==> final(self).pending() == old(self).pending(),
            r matches Err(e) ==> e == IndexError::WriterError,
    {
        self.index.add_document_nocommit(&mut self.index_writer, record)
    }

    /// Publishes every pending document at once: on success the committed
    /// state is exactly the old one followed by the pending batch, and the
    /// batch is empty again.  On failure the committed state is unchanged
    /// and the pending documents are lost.
    pub fn commit(&mut self) -> (r: Result<(), IndexError>)
        requires
            old(self).wf(),
        ensures
            final(self).wf(),
            final(self).names() == old(self).names(),
            r is Ok ==> final(self).committed() == old(self).committed() + old(self).pending()
                && final(self).pending() == Seq::<Seq<(nat, Seq<char>)>>::empty(),
            r is Err ==> final(self).committed() == old(self).committed(),
            r matches Err(e) ==> e == IndexError::WriterError,
    {
        self.index.apply_commit(&mut self.index_writer)
    }

    /// The committed document count, as the owned index reports it.
    pub fn num_docs(&self) -> (r: Result<u64, IndexError>)
        ensures
            r matches Ok(n) ==> n as nat == self.committed().len(),
            r matches Err(e) ==> e == IndexError::StorageError,
    {
        self.index.num_docs()
    }

    /// Gives the index back, ending the batch.  Pending documents that
    /// were never committed are dropped with the writer and stay invisible
    /// forever.  The index carries its committed state out with it.
    pub fn into_index(self) -> (r: TantivyIndexWrapper)
        ensures
            r == self.index_view(),
            self.wf() ==> r.wf(),
            r.names() == self.names(),
            r.docs() == self.committed(),
            r.display_name() == self.display_name(),
    {
        self.index
    }
}

} // verus!
