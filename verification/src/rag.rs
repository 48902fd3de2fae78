//! Documents loaded from the datasets directory, and their chunks.
use vstd::prelude::*;

use crate::chunking::{chunk_content, chunks_of_contents, views};
use crate::paths::{emiko_path, emiko_path_text, home_directory, DATASETS_DIR_NAME};
use crate::text::{chars_of, string_from_chars};

verus! {

/// A document read from the datasets directory: its text and its metadata
/// (key/value pairs; a file's document carries its path under `filename`).
#[derive(Debug)]
pub struct Document {
    page_content: String,
    metadata: Vec<(String, String)>,
}

impl Clone for Document {
    /// A copy of the document (see `Document::duplicate`).
    fn clone(&self) -> (r: Document)
        ensures
            r@ == self@,
    {
        self.duplicate()
    }
}

/// What a document holds, as mathematical values.
pub struct DocumentView {
    pub content: Seq<char>,
    pub metadata: Seq<(Seq<char>, Seq<char>)>,
}

/// The contents of a list of key/value pairs.
pub open spec fn pair_views(v: Seq<(String, String)>) -> Seq<(Seq<char>, Seq<char>)> {
    v.map_values(|e: (String, String)| (e.0@, e.1@))
}

/// No key occurs twice.
pub open spec fn keys_unique(metadata: Seq<(Seq<char>, Seq<char>)>) -> bool {
    forall|i: int, j: int| 0 <= i < j < metadata.len() ==> metadata[i].0 != metadata[j].0
}

impl Document {
    /// A document's metadata holds each key at most once.
    #[verifier::type_invariant]
    spec fn metadata_keys_unique(&self) -> bool {
        keys_unique(pair_views(self.metadata@))
    }
}

impl View for Document {
    type V = DocumentView;

    closed spec fn view(&self) -> DocumentView {
        DocumentView { content: self.page_content@, metadata: pair_views(self.metadata@) }
    }
}

/// The views of a list of documents.
pub open spec fn document_views(v: Seq<Document>) -> Seq<DocumentView> {
    v.map_values(|d: Document| d@)
}

/// The contents of a list of documents.
pub open spec fn contents(docs: Seq<DocumentView>) -> Seq<Seq<char>> {
    docs.map_values(|d: DocumentView| d.content)
}

/// The documents of several batches, batch after batch.
pub open spec fn batch_views(batches: Seq<Vec<Document>>) -> Seq<DocumentView>
    decreases batches.len(),
{
    if batches.len() == 0 {
        seq![]
    } else {
        batch_views(batches.drop_last()) + document_views(batches.last()@)
    }
}

/// The contents of a list of strings.
pub open spec fn string_views(v: Seq<String>) -> Seq<Seq<char>> {
    v.map_values(|s: String| s@)
}

impl Document {
    /// The document of a file: its text, and its path under the key `filename`.
    pub fn from_file(path: String, content: String) -> (d: Document)
        ensures
            d@.content == content@,
            d@.metadata == seq![("filename"@, path@)],
    {
        let mut metadata: Vec<(String, String)> = Vec::new();
        metadata.push((String::from_str("filename"), path));
        assert(keys_unique(pair_views(metadata@)));
        let d = Document { page_content: content, metadata };
        assert(pair_views(d.metadata@) =~= seq![("filename"@, d.metadata@[0].1@)]);
        d
    }

    /// The text of the document.
    pub fn page_content(&self) -> (r: &str)
        ensures
            r@ == self@.content,
    {
        self.page_content.as_str()
    }

    /// The value stored under `key`, if any. Keys occur at most once, so the
    /// value is the one paired with `key`.
    pub fn metadata_value(&self, key: &str) -> (r: Option<String>)
        ensures
            keys_unique(self@.metadata),
            r matches Some(v) ==> exists|i: int|
                0 <= i < self@.metadata.len() && self@.metadata[i] == (key@, v@),
            r matches Some(v) ==> forall|i: int|
                0 <= i < self@.metadata.len() && self@.metadata[i].0 == key@ ==> self@.metadata[i].1
                    == v@,
            r is None ==> forall|i: int|
                0 <= i < self@.metadata.len() ==> self@.metadata[i].0 != key@,
    {
        proof {
            use_type_invariant(self);
        }
        let wanted = String::from_str(key);
        let n = self.metadata.len();
        let mut k: usize = 0;
        while k < n
            invariant
                n == self.metadata@.len(),
                k <= n,
                wanted@ == key@,
                keys_unique(self@.metadata),
                forall|i: int| 0 <= i < k ==> self@.metadata[i].0 != key@,
            decreases n - k,
        {
            assert(self@.metadata[k as int] == (self.metadata@[k as int].0@, self.metadata@[
                k as int].1@));
            if self.metadata[k].0 == wanted {
                return Some(self.metadata[k].1.clone());
            }
            k = k + 1;
        }
        None
    }

    /// A copy of the document.
    pub fn duplicate(&self) -> (r: Document)
        ensures
            r@ == self@,
    {
        proof {
            use_type_invariant(self);
        }
        let mut metadata: Vec<(String, String)> = Vec::new();
        let n = self.metadata.len();
        let mut k: usize = 0;
        while k < n
            invariant
                n == self.metadata@.len(),
                k <= n,
                pair_views(metadata@) == pair_views(self.metadata@).take(k as int),
            decreases n - k,
        {
            let a = self.metadata[k].0.clone();
            let b = self.metadata[k].1.clone();
            let ghost prev = metadata@;
            metadata.push((a, b));
            assert(metadata@ == prev.push((a, b)));
            assert(pair_views(metadata@) =~= pair_views(prev).push((a@, b@)));
            assert((a@, b@) == pair_views(self.metadata@)[k as int]);
            k = k + 1;
            assert(pair_views(metadata@) =~= pair_views(self.metadata@).take(k as int));
        }
        assert(pair_views(self.metadata@).take(n as int) =~= pair_views(self.metadata@));
        assert(keys_unique(pair_views(metadata@)));
        Document { page_content: self.page_content.clone(), metadata }
    }
}

/// What the loader does with one entry of a datasets directory.
#[derive(Debug, PartialEq, Eq, Structural, Clone, Copy)]
pub enum EntryAction {
    /// Read the file into one document.
    ReadFile,
    /// Load the documents of the sub-directory, recursively.
    LoadDirectory,
    /// Leave the entry out.
    Skip,
}

/// The action for a directory entry: files are read; directories are
/// descended into only when loading is recursive; anything else is skipped.
pub fn entry_action(is_file: bool, is_dir: bool, recursive: bool) -> (r: EntryAction)
    ensures
        r == (if is_file {
            EntryAction::ReadFile
        } else if is_dir && recursive {
            EntryAction::LoadDirectory
        } else {
            EntryAction::Skip
        }),
{
    if is_file {
        EntryAction::ReadFile
    } else if is_dir && recursive {
        EntryAction::LoadDirectory
    } else {
        EntryAction::Skip
    }
}

/// The retrieval state: where datasets live, the documents loaded so far,
/// the embedding service, and the chunks of the last chunking.
pub struct RAG {
    dataset_path: String,
    documents: Vec<Document>,
    embedding_model: String,
    embedding_url: String,
    embed: String,
    chunks: Vec<String>,
}

/// What a `RAG` holds, as mathematical values.
pub struct RagView {
    pub dataset_path: Seq<char>,
    pub documents: Seq<DocumentView>,
    pub embedding_model: Seq<char>,
    pub embedding_url: Seq<char>,
    pub embed: Seq<char>,
    pub chunks: Seq<Seq<char>>,
}

impl View for RAG {
    type V = RagView;

    closed spec fn view(&self) -> RagView {
        RagView {
            dataset_path: self.dataset_path@,
            documents: document_views(self.documents@),
            embedding_model: self.embedding_model@,
            embedding_url: self.embedding_url@,
            embed: self.embed@,
            chunks: string_views(self.chunks@),
        }
    }
}

impl RAG {
    /// A fresh state over the datasets directory of the home directory
    /// (`HOME`, or `USERPROFILE` when `HOME` is not set): no documents, no
    /// chunks, the default embedding model and service. The path is joined
    /// with `separator`, the platform's main path separator. There is none
    /// when no home directory is known.
    pub fn new(home: Option<String>, user_profile: Option<String>, separator: char) -> (r: Option<
        RAG,
    >)
        ensures
            (home is None && user_profile is None) <==> r is None,
            r matches Some(rag) ==> {
                &&& rag@.dataset_path == emiko_path_text(
                    (match home {
                        Some(h) => h@,
                        None => user_profile->0@,
                    }),
                    DATASETS_DIR_NAME@,
                    separator,
                )
                &&& rag@.documents == Seq::<DocumentView>::empty()
                &&& rag@.embedding_model == "mxbai-embed-large:latest"@
                &&& rag@.embedding_url == "http://localhost:11434/api/embed"@
                &&& rag@.embed == Seq::<char>::empty()
                &&& rag@.chunks == Seq::<Seq<char>>::empty()
            },
    {
        let dir = match home_directory(home, user_profile) {
            Some(d) => d,
            None => return None,
        };
        let r = RAG {
            dataset_path: emiko_path(dir.as_str(), DATASETS_DIR_NAME, separator),
            documents: Vec::new(),
            embedding_model: String::from_str("mxbai-embed-large:latest"),
            embedding_url: String::from_str("http://localhost:11434/api/embed"),
            embed: String::new(),
            chunks: Vec::new(),
        };
        assert(document_views(r.documents@) =~= Seq::<DocumentView>::empty());
        assert(string_views(r.chunks@) =~= Seq::<Seq<char>>::empty());
        Some(r)
    }

    /// Sets the directory that documents are loaded from.
    pub fn set_dataset_path(&mut self, path: String)
        ensures
            final(self)@ == (RagView { dataset_path: path@, ..old(self)@ }),
    {
        self.dataset_path = path;
    }

    /// The directory that documents are loaded from.
    pub fn dataset_path(&self) -> (r: &str)
        ensures
            r@ == self@.dataset_path,
    {
        self.dataset_path.as_str()
    }

    /// The documents loaded so far.
    pub fn documents(&self) -> (r: &Vec<Document>)
        ensures
            document_views(r@) == self@.documents,
    {
        &self.documents
    }

    /// Adds the documents loaded from the entries of the datasets directory,
    /// one batch per entry in directory order, after the documents already
    /// held; returns all documents held.
    pub fn loader(&mut self, loaded: Vec<Vec<Document>>) -> (r: Vec<Document>)
        ensures
            final(self)@ == (RagView {
                documents: old(self)@.documents + batch_views(loaded@),
                ..old(self)@
            }),
            document_views(r@) == final(self)@.documents,
    {
        let ghost start = document_views(self.documents@);
        let n = loaded.len();
        let mut k: usize = 0;
        while k < n
            invariant
                n == loaded@.len(),
                k <= n,
                document_views(self.documents@) == start + batch_views(loaded@.take(k as int)),
                self.dataset_path == old(self).dataset_path,
                self.embedding_model == old(self).embedding_model,
                self.embedding_url == old(self).embedding_url,
                self.embed == old(self).embed,
                self.chunks == old(self).chunks,
            decreases n - k,
        {
            let batch = &loaded[k];
            let m = batch.len();
            let mut i: usize = 0;
            let ghost before = document_views(self.documents@);
            while i < m
                invariant
                    m == batch@.len(),
                    i <= m,
                    document_views(self.documents@) == before + document_views(batch@.take(
                        i as int,
                    )),
                    self.dataset_path == old(self).dataset_path,
                    self.embedding_model == old(self).embedding_model,
                    self.embedding_url == old(self).embedding_url,
                    self.embed == old(self).embed,
                    self.chunks == old(self).chunks,
                decreases m - i,
            {
                let d = batch[i].duplicate();
                let ghost prev = self.documents@;
                self.documents.push(d);
                assert(self.documents@ == prev.push(d));
                assert(document_views(self.documents@) =~= document_views(prev).push(d@));
                assert(document_views(batch@.take(i + 1)) =~= document_views(batch@.take(
                    i as int,
                )).push(batch@[i as int]@));
                i = i + 1;
                assert(document_views(self.documents@) =~= before + document_views(
                    batch@.take(i as int),
                ));
            }
            proof {
                assert(batch@.take(m as int) =~= batch@);
                let t = loaded@.take(k + 1);
                assert(t.drop_last() =~= loaded@.take(k as int));
                assert(t.last() == loaded@[k as int]);
                assert(before + document_views(batch@) =~= start + batch_views(t));
            }
            k = k + 1;
        }
        assert(loaded@.take(n as int) =~= loaded@);
        let mut r: Vec<Document> = Vec::new();
        let total = self.documents.len();
        let mut i: usize = 0;
        while i < total
            invariant
                total == self.documents@.len(),
                i <= total,
                document_views(r@) == document_views(self.documents@).take(i as int),
            decreases total - i,
        {
            let d = self.documents[i].duplicate();
            let ghost prev = r@;
            r.push(d);
            assert(r@ == prev.push(d));
            assert(document_views(r@) =~= document_views(prev).push(d@));
            i = i + 1;
            assert(document_views(r@) =~= document_views(self.documents@).take(i as int));
        }
        assert(document_views(self.documents@).take(total as int) =~= document_views(
            self.documents@,
        ));
        r
    }

    /// Splits every document into chunks, replacing the chunks of any earlier
    /// call; returns the chunks. The size argument is accepted and not used.
    pub fn chunk(&mut self, chunk_size: u16) -> (r: Vec<String>)
        ensures
            final(self)@ == (RagView {
                chunks: chunks_of_contents(contents(old(self)@.documents)),
                ..old(self)@
            }),
            string_views(r@) == final(self)@.chunks,
    {
        let mut chunks: Vec<String> = Vec::new();
        let mut r: Vec<String> = Vec::new();
        let n = self.documents.len();
        let mut k: usize = 0;
        while k < n
            invariant
                n == self.documents@.len(),
                k <= n,
                string_views(chunks@) == chunks_of_contents(
                    contents(document_views(self.documents@)).take(k as int),
                ),
                string_views(r@) == string_views(chunks@),
            decreases n - k,
        {
            let text = chars_of(self.documents[k].page_content.as_str());
            let pieces = chunk_content(&text);
            let ghost before = string_views(chunks@);
            let m = pieces.len();
            let mut i: usize = 0;
            while i < m
                invariant
                    m == pieces@.len(),
                    i <= m,
                    string_views(chunks@) == before + views(pieces@).take(i as int),
                    string_views(r@) == string_views(chunks@),
                decreases m - i,
            {
                let piece = string_from_chars(&pieces[i]);
                let ghost prev_r = r@;
                let ghost prev_c = chunks@;
                r.push(piece.clone());
                chunks.push(piece);
                assert(r@ == prev_r.push(piece));
                assert(chunks@ == prev_c.push(piece));
                assert(string_views(r@) =~= string_views(prev_r).push(piece@));
                assert(string_views(chunks@) =~= string_views(prev_c).push(piece@));
                assert(views(pieces@).take(i + 1) =~= views(pieces@).take(i as int).push(
                    pieces@[i as int]@,
                ));
                i = i + 1;
                assert(string_views(chunks@) =~= before + views(pieces@).take(i as int));
                assert(string_views(r@) =~= string_views(chunks@));
            }
            proof {
                assert(views(pieces@).take(m as int) =~= views(pieces@));
                let cs = contents(document_views(self.documents@));
                let t = cs.take(k + 1);
                assert(t.drop_last() =~= cs.take(k as int));
                assert(t.last() == self.documents@[k as int].page_content@);
            }
            k = k + 1;
        }
        proof {
            let cs = contents(document_views(self.documents@));
            assert(cs.take(n as int) =~= cs);
        }
        self.chunks = chunks;
        r
    }

    /// The chunks of the last chunking.
    pub fn chunks(&self) -> (r: &Vec<String>)
        ensures
            string_views(r@) == self@.chunks,
    {
        &self.chunks
    }
}

} // verus!
