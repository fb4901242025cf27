//! Which entries of a repository are documents, and the order in which
//! documents are listed.

use vstd::prelude::*;
use vstd::string::*;
use crate::effect::{DirEntry, DirEntryView, Effect, EffectView, Reply, ReplyView, Step, StepView};
use crate::model::{
    DocumentFileType, DocumentMetadata, DocumentMetadataView, ListDocumentsResponse,
    ListDocumentsResponseView,
};
use crate::path_guard::{
    components, document_type, is_absolute, is_component, join, joined,
    lemma_components_of_joined, lemma_empty_path_has_no_components, lemma_name_is_one_component,
};
use crate::text::{
    chars_of, chain3, lemma_lex_le_total, lemma_lex_le_transitive, lex_le, lex_le_chars,
    lowercase, same_text, spec_lowercase,
};

verus! {

/// The folders that hold no documents, whatever is in them.
pub open spec fn default_excluded() -> Seq<Seq<char>> {
    seq![
        "node_modules"@,
        ".git"@,
        "target"@,
        "dist"@,
        "build"@,
        ".next"@,
        "__pycache__"@,
        ".venv"@,
        "venv"@,
        ".cache"@,
        ".turbo"@,
        "coverage"@,
        ".nyc_output"@,
        ".parcel-cache"@,
        ".svelte-kit"@,
        ".nuxt"@,
        ".output"@,
    ]
}

/// Tells documents from everything else in a repository.
#[derive(Debug, Clone, PartialEq, Eq)]
pub struct DocumentIndex {
    /// The names of the folders that are not looked into.
    pub excluded: Vec<String>,
}

impl View for DocumentIndex {
    type V = Seq<Seq<char>>;

    open spec fn view(&self) -> Seq<Seq<char>> {
        self.excluded.deep_view()
    }
}

/// What the index makes of an entry of a directory.
#[derive(Debug, Clone, Copy, PartialEq, Eq, Structural)]
pub enum Verdict {
    /// The entry is passed over.
    Skip,
    /// The entry is a folder to look into.
    Descend,
    /// The entry is a document of this kind.
    Document(DocumentFileType),
}

/// Whether a name marks its file or folder as hidden: it starts with a dot.
pub open spec fn is_hidden(name: Seq<char>) -> bool {
    name.len() > 0 && name[0] == '.'
}

/// What the index makes of an entry: hidden entries are passed over;
/// folders are looked into unless their name is excluded; regular files are
/// documents if their extension says so; anything else is passed over.
pub open spec fn entry_verdict(excluded: Seq<Seq<char>>, entry: DirEntryView) -> Verdict {
    if is_hidden(entry.name) {
        Verdict::Skip
    } else if entry.is_dir {
        if excluded.contains(entry.name) {
            Verdict::Skip
        } else {
            Verdict::Descend
        }
    } else if entry.is_file {
        match document_type(entry.name) {
            Some(file_type) => Verdict::Document(file_type),
            None => Verdict::Skip,
        }
    } else {
        Verdict::Skip
    }
}

/// Decides [`is_hidden`].
pub fn hidden(name: &str) -> (out: bool)
    ensures
        out == is_hidden(name@),
{
    name.unicode_len() > 0 && name.get_char(0) == '.'
}

impl DocumentIndex {
    /// An index that looks into every folder but those named in `excluded`.
    pub fn new(excluded: Vec<String>) -> (index: DocumentIndex)
        ensures
            index@ == excluded.deep_view(),
    {
        DocumentIndex { excluded }
    }

    /// Whether folders of this name are not looked into.
    pub fn is_excluded(&self, name: &str) -> (out: bool)
        ensures
            out == self@.contains(name@),
    {
        let mut i: usize = 0;
        while i < self.excluded.len()
            invariant
                i <= self.excluded.len(),
                forall|j: int| 0 <= j < i ==> self@[j] != name@,
            decreases self.excluded.len() - i,
        {
            assert(self@[i as int] == self.excluded[i as int]@);
            if same_text(self.excluded[i].as_str(), name) {
                return true;
            }
            i += 1;
        }
        false
    }

    /// Says what an entry of a directory is.
    pub fn classify(&self, entry: &DirEntry) -> (verdict: Verdict)
        ensures
            verdict == entry_verdict(self@, entry@),
    {
        if hidden(entry.name.as_str()) {
            Verdict::Skip
        } else if entry.is_dir {
            if self.is_excluded(entry.name.as_str()) {
                Verdict::Skip
            } else {
                Verdict::Descend
            }
        } else if entry.is_file {
            match DocumentFileType::of_path(entry.name.as_str()) {
                Some(file_type) => Verdict::Document(file_type),
                None => Verdict::Skip,
            }
        } else {
            Verdict::Skip
        }
    }
}

impl Default for DocumentIndex {
    /// The index that passes over the folders of [`default_excluded`].
    fn default() -> (index: DocumentIndex)
        ensures
            index@ == default_excluded(),
    {
        let mut excluded: Vec<String> = Vec::new();
        excluded.push(String::from_str("node_modules"));
        excluded.push(String::from_str(".git"));
        excluded.push(String::from_str("target"));
        excluded.push(String::from_str("dist"));
        excluded.push(String::from_str("build"));
        excluded.push(String::from_str(".next"));
        excluded.push(String::from_str("__pycache__"));
        excluded.push(String::from_str(".venv"));
        excluded.push(String::from_str("venv"));
        excluded.push(String::from_str(".cache"));
        excluded.push(String::from_str(".turbo"));
        excluded.push(String::from_str("coverage"));
        excluded.push(String::from_str(".nyc_output"));
        excluded.push(String::from_str(".parcel-cache"));
        excluded.push(String::from_str(".svelte-kit"));
        excluded.push(String::from_str(".nuxt"));
        excluded.push(String::from_str(".output"));
        assert(excluded.deep_view() =~= default_excluded());
        DocumentIndex { excluded }
    }
}

/// What a document is ordered by: its path from the repository's root, in
/// lowercase.
pub open spec fn sort_key(document: DocumentMetadataView) -> Seq<char> {
    spec_lowercase(document.relative_path)
}

/// Whether `first` may stand before `second` in a listing.
pub open spec fn in_order(first: DocumentMetadataView, second: DocumentMetadataView) -> bool {
    lex_le(sort_key(first), sort_key(second))
}

/// `listing`, which is in order, with `document` put into it: before the
/// first document that it may stand before.
pub open spec fn placed(document: DocumentMetadataView, listing: Seq<DocumentMetadataView>) -> Seq<
    DocumentMetadataView,
>
    decreases listing.len(),
{
    if listing.len() == 0 {
        seq![document]
    } else if in_order(document, listing[0]) {
        seq![document] + listing
    } else {
        seq![listing[0]] + placed(document, listing.skip(1))
    }
}

/// The documents in the order of their keys. Documents with the same key
/// keep the order in which they stood.
pub open spec fn sorted_documents(documents: Seq<DocumentMetadataView>) -> Seq<DocumentMetadataView>
    decreases documents.len(),
{
    if documents.len() == 0 {
        documents
    } else {
        placed(documents[0], sorted_documents(documents.skip(1)))
    }
}

proof fn lemma_placed_is_insert(
    document: DocumentMetadataView,
    listing: Seq<DocumentMetadataView>,
    at: int,
)
    requires
        0 <= at <= listing.len(),
        forall|j: int| 0 <= j < at ==> !in_order(document, #[trigger] listing[j]),
        at < listing.len() ==> in_order(document, listing[at]),
    ensures
        placed(document, listing) == listing.insert(at, document),
    decreases at,
{
    if at == 0 {
        if listing.len() == 0 {
            assert(seq![document] =~= listing.insert(0, document));
        } else {
            assert(seq![document] + listing =~= listing.insert(0, document));
        }
    } else {
        assert(!in_order(document, listing[0]));
        let rest = listing.skip(1);
        assert forall|j: int| 0 <= j < at - 1 implies !in_order(document, #[trigger] rest[j]) by {
            assert(rest[j] == listing[j + 1]);
        }
        lemma_placed_is_insert(document, rest, at - 1);
        assert(seq![listing[0]] + rest.insert(at - 1, document) =~= listing.insert(at, document));
    }
}

/// A copy of a document's metadata.
pub fn copy_metadata(document: &DocumentMetadata) -> (out: DocumentMetadata)
    ensures
        out@ == document@,
{
    DocumentMetadata {
        name: document.name.clone(),
        relative_path: document.relative_path.clone(),
        absolute_path: document.absolute_path.clone(),
        file_type: document.file_type,
        size_bytes: document.size_bytes,
    }
}

/// A document with the key that it is ordered by.
pub type Keyed = (Seq<char>, DocumentMetadataView);

/// `listing`, which is in the order of its keys, with `item` put into it:
/// before the first of its items whose key does not come before `item`'s.
pub open spec fn placed_by_key(item: Keyed, listing: Seq<Keyed>) -> Seq<Keyed>
    decreases listing.len(),
{
    if listing.len() == 0 {
        seq![item]
    } else if lex_le(item.0, listing[0].0) {
        seq![item] + listing
    } else {
        seq![listing[0]] + placed_by_key(item, listing.skip(1))
    }
}

/// The items in the order of their keys. Items with the same key keep the
/// order in which they stood.
pub open spec fn sorted_by_key(items: Seq<Keyed>) -> Seq<Keyed>
    decreases items.len(),
{
    if items.len() == 0 {
        items
    } else {
        placed_by_key(items[0], sorted_by_key(items.skip(1)))
    }
}

/// Each document with its key: the key at the same place in `keys`.
pub open spec fn keyed(documents: Seq<DocumentMetadataView>, keys: Seq<Seq<char>>) -> Seq<Keyed> {
    Seq::new(documents.len(), |i: int| (keys[i], documents[i]))
}

/// The documents without their keys.
pub open spec fn unkeyed(items: Seq<Keyed>) -> Seq<DocumentMetadataView> {
    Seq::new(items.len(), |i: int| items[i].1)
}

/// The documents in the order of the keys given for them, each key at the
/// place of its document. Documents with the same key keep the order in
/// which they stood.
pub open spec fn sorted_by(documents: Seq<DocumentMetadataView>, keys: Seq<Seq<char>>) -> Seq<
    DocumentMetadataView,
> {
    unkeyed(sorted_by_key(keyed(documents, keys)))
}

/// The keys that documents are listed by: their paths in lowercase.
pub open spec fn sort_keys(documents: Seq<DocumentMetadataView>) -> Seq<Seq<char>> {
    Seq::new(documents.len(), |i: int| sort_key(documents[i]))
}

proof fn lemma_placed_by_key_is_insert(item: Keyed, listing: Seq<Keyed>, at: int)
    requires
        0 <= at <= listing.len(),
        forall|j: int| 0 <= j < at ==> !lex_le(item.0, (#[trigger] listing[j]).0),
        at < listing.len() ==> lex_le(item.0, listing[at].0),
    ensures
        placed_by_key(item, listing) == listing.insert(at, item),
    decreases at,
{
    if at == 0 {
        if listing.len() == 0 {
            assert(seq![item] =~= listing.insert(0, item));
        } else {
            assert(seq![item] + listing =~= listing.insert(0, item));
        }
    } else {
        assert(!lex_le(item.0, listing[0].0));
        let rest = listing.skip(1);
        assert forall|j: int| 0 <= j < at - 1 implies !lex_le(item.0, (#[trigger] rest[j]).0) by {
            assert(rest[j] == listing[j + 1]);
        }
        lemma_placed_by_key_is_insert(item, rest, at - 1);
        assert(seq![listing[0]] + rest.insert(at - 1, item) =~= listing.insert(at, item));
    }
}

/// Whether every item has the key that its document is listed by.
pub open spec fn all_keyed(items: Seq<Keyed>) -> bool {
    forall|i: int| 0 <= i < items.len() ==> (#[trigger] items[i]).0 == sort_key(items[i].1)
}

proof fn lemma_placed_by_key_is_placed(document: DocumentMetadataView, listing: Seq<Keyed>)
    requires
        all_keyed(listing),
    ensures
        all_keyed(placed_by_key((sort_key(document), document), listing)),
        unkeyed(placed_by_key((sort_key(document), document), listing)) == placed(
            document,
            unkeyed(listing),
        ),
    decreases listing.len(),
{
    let item = (sort_key(document), document);
    if listing.len() == 0 {
        assert(unkeyed(seq![item]) == seq![document]);
        assert(unkeyed(listing).len() == 0);
    } else {
        assert(listing[0].0 == sort_key(listing[0].1));
        assert(unkeyed(listing)[0] == listing[0].1);
        if lex_le(item.0, listing[0].0) {
            assert(unkeyed(seq![item] + listing) == seq![document] + unkeyed(listing));
        } else {
            let rest = listing.skip(1);
            assert forall|i: int| 0 <= i < rest.len() implies (#[trigger] rest[i]).0 == sort_key(
                rest[i].1,
            ) by {
                assert(rest[i] == listing[i + 1]);
            }
            lemma_placed_by_key_is_placed(document, rest);
            assert(unkeyed(listing).skip(1) == unkeyed(rest));
            let tail = placed_by_key(item, rest);
            assert(unkeyed(seq![listing[0]] + tail) == seq![listing[0].1] + unkeyed(tail));
        }
    }
}

/// Put in order by their paths in lowercase, documents stand as
/// [`sorted_documents`] says.
proof fn lemma_sorted_by_sort_keys(documents: Seq<DocumentMetadataView>)
    ensures
        all_keyed(sorted_by_key(keyed(documents, sort_keys(documents)))),
        sorted_by(documents, sort_keys(documents)) == sorted_documents(documents),
    decreases documents.len(),
{
    let items = keyed(documents, sort_keys(documents));
    if documents.len() == 0 {
        assert(unkeyed(items) == documents);
    } else {
        let rest = documents.skip(1);
        lemma_sorted_by_sort_keys(rest);
        assert(items.skip(1) == keyed(rest, sort_keys(rest)));
        assert(items[0] == (sort_key(documents[0]), documents[0]));
        lemma_placed_by_key_is_placed(documents[0], sorted_by_key(items.skip(1)));
    }
}

/// Whether the keys of a listing do not go down.
pub open spec fn keys_go_up(listing: Seq<Keyed>) -> bool {
    forall|i: int, j: int| 0 <= i <= j < listing.len() ==> lex_le(listing[i].0, listing[j].0)
}

/// The items of a listing that have the key `key`, in the order in which
/// they stand.
pub open spec fn having_key(listing: Seq<Keyed>, key: Seq<char>) -> Seq<Keyed>
    decreases listing.len(),
{
    if listing.len() == 0 {
        listing
    } else if listing[0].0 == key {
        seq![listing[0]] + having_key(listing.skip(1), key)
    } else {
        having_key(listing.skip(1), key)
    }
}

proof fn lemma_placed_by_key_position(item: Keyed, listing: Seq<Keyed>) -> (at: int)
    ensures
        0 <= at <= listing.len(),
        placed_by_key(item, listing) == listing.insert(at, item),
        forall|j: int| 0 <= j < at ==> !lex_le(item.0, (#[trigger] listing[j]).0),
        at < listing.len() ==> lex_le(item.0, listing[at].0),
    decreases listing.len(),
{
    if listing.len() == 0 || lex_le(item.0, listing[0].0) {
        lemma_placed_by_key_is_insert(item, listing, 0);
        0
    } else {
        let rest = listing.skip(1);
        let at = lemma_placed_by_key_position(item, rest);
        assert forall|j: int| 0 <= j < at + 1 implies !lex_le(item.0, (#[trigger] listing[j]).0) by {
            if j > 0 {
                assert(listing[j] == rest[j - 1]);
            }
        }
        if at + 1 < listing.len() {
            assert(listing[at + 1] == rest[at]);
        }
        lemma_placed_by_key_is_insert(item, listing, at + 1);
        at + 1
    }
}

proof fn lemma_placed_by_key_keeps_order(item: Keyed, listing: Seq<Keyed>)
    requires
        keys_go_up(listing),
    ensures
        keys_go_up(placed_by_key(item, listing)),
        placed_by_key(item, listing).to_multiset() == listing.to_multiset().insert(item),
{
    let at = lemma_placed_by_key_position(item, listing);
    let out = listing.insert(at, item);
    vstd::seq_lib::to_multiset_insert(listing, at, item);
    assert forall|i: int, j: int| 0 <= i <= j < out.len() implies lex_le(out[i].0, out[j].0) by {
        if i == j {
            crate::text::lemma_lex_le_reflexive(out[i].0);
        } else if j == at {
            assert(out[i] == listing[i]);
            lemma_lex_le_total(item.0, listing[i].0);
        } else if i == at {
            assert(out[j] == listing[j - 1]);
            assert(lex_le(listing[at].0, listing[j - 1].0));
            lemma_lex_le_transitive(item.0, listing[at].0, listing[j - 1].0);
        } else {
            let a = if i < at {
                i
            } else {
                i - 1
            };
            let b = if j < at {
                j
            } else {
                j - 1
            };
            assert(out[i] == listing[a]);
            assert(out[j] == listing[b]);
            assert(lex_le(listing[a].0, listing[b].0));
        }
    }
}

proof fn lemma_placed_by_key_having(item: Keyed, listing: Seq<Keyed>, key: Seq<char>)
    ensures
        having_key(placed_by_key(item, listing), key) == if item.0 == key {
            seq![item] + having_key(listing, key)
        } else {
            having_key(listing, key)
        },
    decreases listing.len(),
{
    if listing.len() == 0 {
        assert(seq![item].skip(1) == listing);
    } else if lex_le(item.0, listing[0].0) {
        assert((seq![item] + listing).skip(1) == listing);
    } else {
        let rest = listing.skip(1);
        crate::text::lemma_lex_le_reflexive(item.0);
        assert(listing[0].0 != item.0);
        lemma_placed_by_key_having(item, rest, key);
        assert((seq![listing[0]] + placed_by_key(item, rest)).skip(1) == placed_by_key(item, rest));
    }
}

/// Put in the order of their keys, items are the same items, each as often
/// as before; their keys do not go down; and for every key, the items with
/// that key stand as they stood before.
pub proof fn law_sorted_by_key_is_stable(items: Seq<Keyed>, key: Seq<char>)
    ensures
        keys_go_up(sorted_by_key(items)),
        sorted_by_key(items).to_multiset() == items.to_multiset(),
        having_key(sorted_by_key(items), key) == having_key(items, key),
    decreases items.len(),
{
    if items.len() > 0 {
        let rest = items.skip(1);
        law_sorted_by_key_is_stable(rest, key);
        lemma_placed_by_key_keeps_order(items[0], sorted_by_key(rest));
        lemma_placed_by_key_having(items[0], sorted_by_key(rest), key);
        assert(items =~= rest.insert(0, items[0]));
        vstd::seq_lib::to_multiset_insert(rest, 0, items[0]);
    }
}

/// Puts documents in the order of the keys given for them, `keys[i]` being
/// the key of `documents[i]`: keys go up in dictionary order, and documents
/// with the same key keep the order in which they stood.
pub fn sort_documents_by(documents: Vec<DocumentMetadata>, keys: Vec<Vec<char>>) -> (out: Vec<
    DocumentMetadata,
>)
    requires
        keys.len() == documents.len(),
    ensures
        out.deep_view() == sorted_by(documents.deep_view(), keys.deep_view()),
{
    let ghost all = keyed(documents.deep_view(), keys.deep_view());
    let mut rest = documents;
    let mut rest_keys = keys;
    let mut out: Vec<DocumentMetadata> = Vec::new();
    let mut out_keys: Vec<Vec<char>> = Vec::new();
    assert(all.skip(all.len() as int) =~= Seq::empty());
    assert(keyed(out.deep_view(), out_keys.deep_view()) =~= Seq::empty());
    assert(keyed(rest.deep_view(), rest_keys.deep_view()) =~= all.take(rest.len() as int));
    while rest.len() > 0
        invariant
            rest.len() <= all.len(),
            rest_keys.len() == rest.len(),
            out_keys.len() == out.len(),
            keyed(rest.deep_view(), rest_keys.deep_view()) == all.take(rest.len() as int),
            keyed(out.deep_view(), out_keys.deep_view()) == sorted_by_key(
                all.skip(rest.len() as int),
            ),
        decreases rest.len(),
    {
        let ghost before = keyed(rest.deep_view(), rest_keys.deep_view());
        let ghost listing = keyed(out.deep_view(), out_keys.deep_view());
        let ghost found = out.deep_view();
        let ghost found_keys = out_keys.deep_view();
        let n = rest.len();
        assert(before[n - 1] == (rest_keys.deep_view()[n - 1], rest.deep_view()[n - 1]));
        let document = rest.pop().unwrap();
        let key = rest_keys.pop().unwrap();
        let ghost item = (key@, document@);
        assert(item == all[n - 1]);
        assert(keyed(rest.deep_view(), rest_keys.deep_view()) =~= all.take(n - 1));
        let mut at: usize = 0;
        while at < out.len() && !lex_le_chars(&key, &out_keys[at])
            invariant
                at <= out.len(),
                out_keys.len() == out.len(),
                item == (key@, document@),
                listing == keyed(out.deep_view(), out_keys.deep_view()),
                forall|j: int| 0 <= j < at ==> !lex_le(item.0, (#[trigger] listing[j]).0),
            decreases out.len() - at,
        {
            assert(listing[at as int].0 == out_keys[at as int]@);
            at += 1;
        }
        proof {
            if at < out.len() {
                assert(listing[at as int].0 == out_keys[at as int]@);
            }
            lemma_placed_by_key_is_insert(item, listing, at as int);
            assert(all.skip(n - 1)[0] == all[n - 1]);
            assert(all.skip(n - 1).skip(1) =~= all.skip(n as int));
        }
        out.insert(at, document);
        out_keys.insert(at, key);
        assert(out.deep_view() =~= found.insert(at as int, item.1));
        assert(out_keys.deep_view() =~= found_keys.insert(at as int, item.0));
        assert(keyed(out.deep_view(), out_keys.deep_view()) =~= listing.insert(at as int, item));
    }
    assert(all.skip(0) =~= all);
    assert(out.deep_view() =~= unkeyed(keyed(out.deep_view(), out_keys.deep_view())));
    out
}

/// Puts documents in the order in which they are listed: by their paths
/// from the repository's root, without regard to case.
pub fn sort_documents(documents: Vec<DocumentMetadata>) -> (out: Vec<DocumentMetadata>)
    ensures
        out.deep_view() == sorted_documents(documents.deep_view()),
{
    let mut keys: Vec<Vec<char>> = Vec::new();
    let mut i: usize = 0;
    while i < documents.len()
        invariant
            i <= documents.len(),
            keys.len() == i,
            forall|j: int| 0 <= j < i ==> (#[trigger] keys[j])@ == sort_key(documents[j]@),
        decreases documents.len() - i,
    {
        let folded = lowercase(documents[i].relative_path.as_str());
        keys.push(chars_of(folded.as_str()));
        i += 1;
    }
    proof {
        assert forall|j: int| 0 <= j < keys.len() implies keys.deep_view()[j] == sort_keys(
            documents.deep_view(),
        )[j] by {
            assert(keys.deep_view()[j] == keys[j]@);
            assert(documents.deep_view()[j] == documents[j]@);
        }
        assert(keys.deep_view() =~= sort_keys(documents.deep_view()));
        lemma_sorted_by_sort_keys(documents.deep_view());
    }
    sort_documents_by(documents, keys)
}

/// A directory that is being gone through.
#[derive(Debug, Clone, PartialEq, Eq)]
pub struct Frame {
    /// The directory's path on the filesystem.
    pub dir: String,
    /// The directory's path from the repository's root; empty for the root.
    pub relative: String,
    /// The directory's entries, in the order in which they were listed.
    pub entries: Vec<DirEntry>,
    /// How many of the entries have been dealt with.
    pub cursor: usize,
}

/// The view of a [`Frame`].
pub struct FrameView {
    pub dir: Seq<char>,
    pub relative: Seq<char>,
    pub entries: Seq<DirEntryView>,
    pub cursor: nat,
}

impl View for Frame {
    type V = FrameView;

    open spec fn view(&self) -> FrameView {
        FrameView {
            dir: self.dir@,
            relative: self.relative@,
            entries: self.entries.deep_view(),
            cursor: self.cursor as nat,
        }
    }
}

impl DeepView for Frame {
    type V = FrameView;

    open spec fn deep_view(&self) -> FrameView {
        self@
    }
}

/// How far the listing of a project's documents has come.
#[derive(Debug, PartialEq, Eq)]
pub struct ScanProgress {
    /// The index that tells documents from everything else.
    pub index: DocumentIndex,
    /// The project's repositories, in the order in which they are gone
    /// through.
    pub repositories: Vec<String>,
    /// How many of the repositories have been begun.
    pub begun: usize,
    /// The directories that are being gone through, each inside the one
    /// before it.
    pub open: Vec<Frame>,
    /// The documents found so far, in the order in which they were come
    /// upon.
    pub documents: Vec<DocumentMetadata>,
}

/// The view of a [`ScanProgress`].
pub struct ScanProgressView {
    pub excluded: Seq<Seq<char>>,
    pub repositories: Seq<Seq<char>>,
    pub begun: nat,
    pub open: Seq<FrameView>,
    pub documents: Seq<DocumentMetadataView>,
}

impl View for ScanProgress {
    type V = ScanProgressView;

    open spec fn view(&self) -> ScanProgressView {
        ScanProgressView {
            excluded: self.index@,
            repositories: self.repositories.deep_view(),
            begun: self.begun as nat,
            open: self.open.deep_view(),
            documents: self.documents.deep_view(),
        }
    }
}

/// The path from the repository's root of an entry called `name` in the
/// directory whose path from the root is `relative`.
pub open spec fn child_relative(relative: Seq<char>, name: Seq<char>) -> Seq<char> {
    if relative.len() == 0 {
        name
    } else {
        relative + seq!['/'] + name
    }
}

/// The metadata of the document that an entry of a directory is.
pub open spec fn entry_document(
    frame: FrameView,
    entry: DirEntryView,
    file_type: DocumentFileType,
) -> DocumentMetadataView {
    DocumentMetadataView {
        name: entry.name,
        relative_path: child_relative(frame.relative, entry.name),
        absolute_path: joined(frame.dir, entry.name),
        file_type,
        size_bytes: entry.size_bytes,
    }
}

/// How much is left to do in a directory, and one more.
pub open spec fn frame_work(frame: FrameView) -> nat {
    if frame.cursor >= frame.entries.len() {
        1
    } else {
        (frame.entries.len() - frame.cursor + 1) as nat
    }
}

/// How much is left to do in the open directories.
pub open spec fn work(open: Seq<FrameView>) -> nat
    decreases open.len(),
{
    if open.len() == 0 {
        0
    } else {
        work(open.drop_last()) + frame_work(open.last())
    }
}

/// The frame with one more entry dealt with.
pub open spec fn moved_on(frame: FrameView) -> FrameView {
    FrameView { cursor: frame.cursor + 1, ..frame }
}

/// The progress once everything was done that needs no further listing:
/// the innermost directory is gone through entry by entry, documents are
/// taken down, directories that are done are left, until an entry is a
/// folder to look into or no directory is open.
pub open spec fn settled(p: ScanProgressView) -> ScanProgressView
    decreases work(p.open),
{
    if p.open.len() == 0 {
        p
    } else {
        let top = p.open.last();
        let below = p.open.drop_last();
        if top.cursor >= top.entries.len() {
            settled(ScanProgressView { open: below, ..p })
        } else {
            let entry = top.entries[top.cursor as int];
            let moved = below.push(moved_on(top));
            proof {
                assert(moved.drop_last() =~= below);
            }
            match entry_verdict(p.excluded, entry) {
                Verdict::Descend => p,
                Verdict::Skip => settled(ScanProgressView { open: moved, ..p }),
                Verdict::Document(file_type) => settled(
                    ScanProgressView {
                        open: moved,
                        documents: p.documents.push(entry_document(top, entry, file_type)),
                        ..p
                    },
                ),
            }
        }
    }
}

/// Whether nothing is left to do without a further listing.
pub open spec fn is_settled(p: ScanProgressView) -> bool {
    p.open.len() > 0 ==> {
        let top = p.open.last();
        top.cursor < top.entries.len() && entry_verdict(p.excluded, top.entries[top.cursor as int])
            == Verdict::Descend
    }
}

/// The directory whose listing is waited for, if one is: the folder that
/// the innermost open directory has come to, or, where no directory is open,
/// the next repository.
pub open spec fn awaited_directory(p: ScanProgressView) -> Option<Seq<char>> {
    if p.open.len() > 0 {
        let top = p.open.last();
        Some(joined(top.dir, top.entries[top.cursor as int].name))
    } else if p.begun < p.repositories.len() {
        Some(p.repositories[p.begun as int])
    } else {
        None
    }
}

/// The next step of the listing: the listing of the awaited directory is
/// asked for; where none is awaited, the documents are handed out in their
/// order.
pub open spec fn scan_step(p: ScanProgressView) -> StepView<ListDocumentsResponseView> {
    match awaited_directory(p) {
        Some(path) => StepView::Ask(EffectView::ReadDir { path }),
        None => StepView::Finish(
            Ok(ListDocumentsResponseView { documents: sorted_documents(p.documents) }),
        ),
    }
}

/// The progress with the awaited directory opened on its entries.
pub open spec fn opened(p: ScanProgressView, entries: Seq<DirEntryView>) -> ScanProgressView {
    if p.open.len() > 0 {
        let top = p.open.last();
        let name = top.entries[top.cursor as int].name;
        ScanProgressView {
            open: p.open.drop_last().push(moved_on(top)).push(
                FrameView {
                    dir: joined(top.dir, name),
                    relative: child_relative(top.relative, name),
                    entries,
                    cursor: 0,
                },
            ),
            ..p
        }
    } else if p.begun < p.repositories.len() {
        ScanProgressView {
            begun: p.begun + 1,
            open: seq![
                FrameView {
                    dir: p.repositories[p.begun as int],
                    relative: Seq::empty(),
                    entries,
                    cursor: 0,
                },
            ],
            ..p
        }
    } else {
        p
    }
}

/// The progress once a reply has come in. A listing opens the awaited
/// directory, and what can be done without a further listing is done; a
/// directory that cannot be listed counts as empty. Any other reply changes
/// nothing.
pub open spec fn scan_record(p: ScanProgressView, reply: ReplyView) -> ScanProgressView {
    match reply {
        ReplyView::Entries(Some(entries)) => settled(opened(p, entries)),
        ReplyView::Entries(None) => settled(opened(p, Seq::empty())),
        _ => p,
    }
}

proof fn lemma_work_push(open: Seq<FrameView>, frame: FrameView)
    ensures
        work(open.push(frame)) == work(open) + frame_work(frame),
{
    assert(open.push(frame).drop_last() =~= open);
}

proof fn lemma_settled_is_settled(p: ScanProgressView)
    ensures
        is_settled(settled(p)),
        settled(settled(p)) == settled(p),
        settled(p).excluded == p.excluded,
        settled(p).repositories == p.repositories,
        settled(p).begun == p.begun,
    decreases work(p.open),
{
    if p.open.len() > 0 {
        let top = p.open.last();
        let below = p.open.drop_last();
        if top.cursor >= top.entries.len() {
            lemma_settled_is_settled(ScanProgressView { open: below, ..p });
        } else {
            let entry = top.entries[top.cursor as int];
            let moved = below.push(moved_on(top));
            lemma_work_push(below, moved_on(top));
            match entry_verdict(p.excluded, entry) {
                Verdict::Descend => {},
                Verdict::Skip => {
                    lemma_settled_is_settled(ScanProgressView { open: moved, ..p });
                },
                Verdict::Document(file_type) => {
                    lemma_settled_is_settled(
                        ScanProgressView {
                            open: moved,
                            documents: p.documents.push(entry_document(top, entry, file_type)),
                            ..p
                        },
                    );
                },
            }
        }
    }
}

impl ScanProgress {
    /// Whether the progress is one that the listing can have come to:
    /// nothing is left to do without a further listing.
    pub open spec fn wf(&self) -> bool {
        is_settled(self@)
    }

    /// The progress of a listing that has not begun.
    pub fn new(index: DocumentIndex, repositories: Vec<String>) -> (out: ScanProgress)
        ensures
            out.wf(),
            all_in_place(out@),
            all_visible(out@),
            out@ == (ScanProgressView {
                excluded: index@,
                repositories: repositories.deep_view(),
                begun: 0,
                open: Seq::empty(),
                documents: Seq::empty(),
            }),
    {
        let out = ScanProgress {
            index,
            repositories,
            begun: 0,
            open: Vec::new(),
            documents: Vec::new(),
        };
        assert(out.open.deep_view() =~= Seq::empty());
        assert(out.documents.deep_view() =~= Seq::empty());
        out
    }

    /// Does what can be done without a further listing.
    fn settle(&mut self)
        ensures
            final(self)@ == settled(old(self)@),
            final(self).begun == old(self).begun,
            final(self).repositories == old(self).repositories,
    {
        loop
            invariant
                settled(self@) == settled(old(self)@),
                self.begun == old(self).begun,
                self.repositories == old(self).repositories,
                self.index == old(self).index,
            ensures
                self@ == settled(old(self)@),
                self.begun == old(self).begun,
                self.repositories == old(self).repositories,
            decreases work(self@.open),
        {
            let ghost now = self@;
            if self.open.len() == 0 {
                break ;
            }
            let mut top = self.open.pop().unwrap();
            assert(top@ == now.open.last());
            assert(self.open.deep_view() =~= now.open.drop_last());
            if top.cursor >= top.entries.len() {
                continue ;
            }
            assert(top.entries.deep_view()[top.cursor as int] == top.entries[top.cursor as int]@);
            let verdict = self.index.classify(&top.entries[top.cursor]);
            match verdict {
                Verdict::Descend => {
                    self.open.push(top);
                    assert(self.open.deep_view() =~= now.open);
                    break ;
                },
                Verdict::Skip => {},
                Verdict::Document(file_type) => {
                    let entry = &top.entries[top.cursor];
                    let relative_path = if top.relative.as_str().unicode_len() == 0 {
                        entry.name.clone()
                    } else {
                        proof {
                            reveal_strlit("/");
                        }
                        assert("/"@ =~= seq!['/']);
                        chain3(top.relative.as_str(), "/", entry.name.as_str())
                    };
                    let ghost found = self.documents.deep_view();
                    let document = DocumentMetadata {
                        name: entry.name.clone(),
                        relative_path,
                        absolute_path: join(top.dir.as_str(), entry.name.as_str()),
                        file_type,
                        size_bytes: entry.size_bytes,
                    };
                    self.documents.push(document);
                    assert(self.documents.deep_view() =~= found.push(
                        entry_document(now.open.last(), now.open.last().entries[top.cursor as int], file_type),
                    ));
                },
            }
            proof {
                lemma_work_push(now.open.drop_last(), moved_on(now.open.last()));
            }
            top.cursor = top.cursor + 1;
            let ghost below = self.open.deep_view();
            self.open.push(top);
            assert(self.open.deep_view() =~= below.push(moved_on(now.open.last())));
        }
    }

    /// The next step of the listing.
    pub fn step(&self) -> (out: Step<ListDocumentsResponse>)
        requires
            self.wf(),
        ensures
            out@ == scan_step(self@),
    {
        if self.open.len() > 0 {
            let top = &self.open[self.open.len() - 1];
            assert(top@ == self@.open.last());
            assert(top.entries.deep_view()[top.cursor as int] == top.entries[top.cursor as int]@);
            Step::Ask(
                Effect::ReadDir {
                    path: join(top.dir.as_str(), top.entries[top.cursor].name.as_str()),
                },
            )
        } else if self.begun < self.repositories.len() {
            assert(self@.repositories[self.begun as int] == self.repositories[self.begun as int]@);
            Step::Ask(Effect::ReadDir { path: self.repositories[self.begun].clone() })
        } else {
            let mut copies: Vec<DocumentMetadata> = Vec::new();
            let mut i: usize = 0;
            while i < self.documents.len()
                invariant
                    i <= self.documents.len(),
                    copies.deep_view() == self.documents.deep_view().take(i as int),
                decreases self.documents.len() - i,
            {
                let ghost before = copies.deep_view();
                let copy = copy_metadata(&self.documents[i]);
                assert(self.documents.deep_view()[i as int] == copy@);
                copies.push(copy);
                assert(copies.deep_view() =~= before.push(copy@));
                assert(copies.deep_view() =~= self.documents.deep_view().take(i + 1));
                i += 1;
            }
            assert(copies.deep_view() =~= self.documents.deep_view());
            Step::Finish(Ok(ListDocumentsResponse { documents: sort_documents(copies) }))
        }
    }

    /// Takes a reply in.
    pub fn record(self, reply: Reply) -> (out: ScanProgress)
        requires
            self.wf(),
        ensures
            out.wf(),
            out@ == scan_record(self@, reply@),
    {
        let ghost before = self@;
        let mut next = self;
        let entries = match reply {
            Reply::Entries(Some(entries)) => entries,
            Reply::Entries(None) => {
                let empty: Vec<DirEntry> = Vec::new();
                assert(empty.deep_view() =~= Seq::empty());
                empty
            },
            _ => {
                return next;
            },
        };
        if next.open.len() > 0 {
            let mut top = next.open.pop().unwrap();
            assert(top@ == before.open.last());
            assert(next.open.deep_view() =~= before.open.drop_last());
            assert(top@.entries.len() == top.entries.len());
            assert(top.cursor < top.entries.len());
            assert(top.entries.deep_view()[top.cursor as int] == top.entries[top.cursor as int]@);
            let name = &top.entries[top.cursor].name;
            let relative = if top.relative.as_str().unicode_len() == 0 {
                name.clone()
            } else {
                proof {
                    reveal_strlit("/");
                }
                assert("/"@ =~= seq!['/']);
                chain3(top.relative.as_str(), "/", name.as_str())
            };
            let frame = Frame {
                dir: join(top.dir.as_str(), name.as_str()),
                relative,
                entries,
                cursor: 0,
            };
            top.cursor = top.cursor + 1;
            let ghost below = next.open.deep_view();
            next.open.push(top);
            next.open.push(frame);
            assert(next.open.deep_view() =~= below.push(moved_on(before.open.last())).push(frame@));
        } else if next.begun < next.repositories.len() {
            assert(before.repositories[next.begun as int] == next.repositories[next.begun as int]@);
            let frame = Frame {
                dir: next.repositories[next.begun].clone(),
                relative: String::new(),
                entries,
                cursor: 0,
            };
            next.begun = next.begun + 1;
            next.open.push(frame);
            assert(next.open.deep_view() =~= seq![frame@]);
        } else {
            return next;
        }
        assert(next@ == opened(before, entries.deep_view()));
        proof {
            lemma_settled_is_settled(next@);
        }
        next.settle();
        next
    }
}

/// Begins the listing of the documents of a project's repositories: the
/// progress of a listing of which nothing is known yet, and its first step.
pub fn begin_listing(index: DocumentIndex, repositories: Vec<String>) -> (out: (
    ScanProgress,
    Step<ListDocumentsResponse>,
))
    ensures
        out.0.wf(),
        all_in_place(out.0@),
        all_visible(out.0@),
        out.0@ == (ScanProgressView {
            excluded: index@,
            repositories: repositories.deep_view(),
            begun: 0,
            open: Seq::empty(),
            documents: Seq::empty(),
        }),
        out.1@ == scan_step(out.0@),
{
    let progress = ScanProgress::new(index, repositories);
    let step = progress.step();
    (progress, step)
}

/// Lists the documents of a project's repositories: takes the reply to the
/// step before in, and says what to do next. A progress in which something
/// is left to do without a further listing has that done first.
pub fn list_project_documents(progress: ScanProgress, reply: Reply) -> (out: (
    ScanProgress,
    Step<ListDocumentsResponse>,
))
    ensures
        out.0.wf(),
        out.0@ == scan_record(settled(progress@), reply@),
        out.1@ == scan_step(out.0@),
{
    let mut current = progress;
    proof {
        lemma_settled_is_settled(current@);
    }
    current.settle();
    let next = current.record(reply);
    let step = next.step();
    (next, step)
}

/// Whether every document of a listing may stand before every document
/// after it.
pub open spec fn is_ordered(listing: Seq<DocumentMetadataView>) -> bool {
    forall|i: int, j: int| 0 <= i <= j < listing.len() ==> in_order(listing[i], listing[j])
}

proof fn lemma_placed_position(document: DocumentMetadataView, listing: Seq<DocumentMetadataView>) -> (at:
    int)
    ensures
        0 <= at <= listing.len(),
        placed(document, listing) == listing.insert(at, document),
        forall|j: int| 0 <= j < at ==> !in_order(document, #[trigger] listing[j]),
        at < listing.len() ==> in_order(document, listing[at]),
    decreases listing.len(),
{
    if listing.len() == 0 || in_order(document, listing[0]) {
        lemma_placed_is_insert(document, listing, 0);
        0
    } else {
        let rest = listing.skip(1);
        let at = lemma_placed_position(document, rest);
        assert forall|j: int| 0 <= j < at + 1 implies !in_order(document, #[trigger] listing[j]) by {
            if j > 0 {
                assert(listing[j] == rest[j - 1]);
            }
        }
        if at + 1 < listing.len() {
            assert(listing[at + 1] == rest[at]);
        }
        lemma_placed_is_insert(document, listing, at + 1);
        at + 1
    }
}

proof fn lemma_placed_keeps_order(document: DocumentMetadataView, listing: Seq<DocumentMetadataView>)
    requires
        is_ordered(listing),
    ensures
        is_ordered(placed(document, listing)),
        placed(document, listing).to_multiset() == listing.to_multiset().insert(document),
{
    let at = lemma_placed_position(document, listing);
    let out = listing.insert(at, document);
    vstd::seq_lib::to_multiset_insert(listing, at, document);
    assert forall|i: int, j: int| 0 <= i <= j < out.len() implies in_order(out[i], out[j]) by {
        if i == j {
            crate::text::lemma_lex_le_reflexive(sort_key(out[i]));
        } else if j == at {
            assert(out[i] == listing[i]);
            lemma_lex_le_total(sort_key(document), sort_key(listing[i]));
        } else if i == at {
            assert(out[j] == listing[j - 1]);
            assert(in_order(listing[at], listing[j - 1]));
            lemma_lex_le_transitive(
                sort_key(document),
                sort_key(listing[at]),
                sort_key(listing[j - 1]),
            );
        } else {
            let a = if i < at {
                i
            } else {
                i - 1
            };
            let b = if j < at {
                j
            } else {
                j - 1
            };
            assert(out[i] == listing[a]);
            assert(out[j] == listing[b]);
            assert(in_order(listing[a], listing[b]));
        }
    }
}

/// A listing holds the documents that were found, each as often as it was
/// found, and every document in it may stand before every document after
/// it: the paths, in lowercase, do not go down.
pub proof fn law_listing_is_sorted(documents: Seq<DocumentMetadataView>)
    ensures
        is_ordered(sorted_documents(documents)),
        sorted_documents(documents).to_multiset() == documents.to_multiset(),
    decreases documents.len(),
{
    if documents.len() > 0 {
        let rest = documents.skip(1);
        law_listing_is_sorted(rest);
        lemma_placed_keeps_order(documents[0], sorted_documents(rest));
        assert(documents =~= rest.insert(0, documents[0]));
        vstd::seq_lib::to_multiset_insert(rest, 0, documents[0]);
    }
}

/// The documents of a listing that are ordered by `key`, in the order in
/// which they stand.
pub open spec fn with_key(listing: Seq<DocumentMetadataView>, key: Seq<char>) -> Seq<
    DocumentMetadataView,
>
    decreases listing.len(),
{
    if listing.len() == 0 {
        listing
    } else if sort_key(listing[0]) == key {
        seq![listing[0]] + with_key(listing.skip(1), key)
    } else {
        with_key(listing.skip(1), key)
    }
}

proof fn lemma_placed_with_key(
    document: DocumentMetadataView,
    listing: Seq<DocumentMetadataView>,
    key: Seq<char>,
)
    ensures
        with_key(placed(document, listing), key) == if sort_key(document) == key {
            seq![document] + with_key(listing, key)
        } else {
            with_key(listing, key)
        },
    decreases listing.len(),
{
    if listing.len() == 0 {
        assert(seq![document].skip(1) == listing);
    } else if in_order(document, listing[0]) {
        assert((seq![document] + listing).skip(1) == listing);
    } else {
        let rest = listing.skip(1);
        crate::text::lemma_lex_le_reflexive(sort_key(document));
        assert(sort_key(listing[0]) != sort_key(document));
        lemma_placed_with_key(document, rest, key);
        assert((seq![listing[0]] + placed(document, rest)).skip(1) == placed(document, rest));
    }
}

/// Documents that are ordered by the same key keep the order in which they
/// were found: for every key, the documents with that key stand in the
/// listing as they stood before it was put in order.
pub proof fn law_listing_keeps_ties_in_order(documents: Seq<DocumentMetadataView>, key: Seq<char>)
    ensures
        with_key(sorted_documents(documents), key) == with_key(documents, key),
    decreases documents.len(),
{
    if documents.len() > 0 {
        let rest = documents.skip(1);
        law_listing_keeps_ties_in_order(rest, key);
        lemma_placed_with_key(documents[0], sorted_documents(rest), key);
    }
}

/// Whether an entry of this name and kind counts as a document: it is not
/// hidden, and its extension names its kind.
pub open spec fn is_listable(document: DocumentMetadataView) -> bool {
    !is_hidden(document.name) && document_type(document.name) == Some(document.file_type)
}

/// Whether all of `documents` count as documents.
pub open spec fn all_listable(documents: Seq<DocumentMetadataView>) -> bool {
    forall|i: int| 0 <= i < documents.len() ==> is_listable(#[trigger] documents[i])
}

proof fn lemma_settled_keeps_listable(p: ScanProgressView)
    requires
        all_listable(p.documents),
    ensures
        all_listable(settled(p).documents),
    decreases work(p.open),
{
    if p.open.len() > 0 {
        let top = p.open.last();
        let below = p.open.drop_last();
        if top.cursor >= top.entries.len() {
            lemma_settled_keeps_listable(ScanProgressView { open: below, ..p });
        } else {
            let entry = top.entries[top.cursor as int];
            let moved = below.push(moved_on(top));
            lemma_work_push(below, moved_on(top));
            match entry_verdict(p.excluded, entry) {
                Verdict::Descend => {},
                Verdict::Skip => {
                    lemma_settled_keeps_listable(ScanProgressView { open: moved, ..p });
                },
                Verdict::Document(file_type) => {
                    lemma_settled_keeps_listable(
                        ScanProgressView {
                            open: moved,
                            documents: p.documents.push(entry_document(top, entry, file_type)),
                            ..p
                        },
                    );
                },
            }
        }
    }
}

/// Only documents are listed. Whatever the disk lists, a listing takes down
/// nothing but entries that are not hidden and whose extension names a kind
/// of document, and hands out nothing else in the end.
pub proof fn law_scan_lists_documents_only(p: ScanProgressView, reply: ReplyView)
    requires
        all_listable(p.documents),
    ensures
        all_listable(scan_record(p, reply).documents),
        all_listable(sorted_documents(p.documents)),
{
    match reply {
        ReplyView::Entries(Some(entries)) => {
            lemma_settled_keeps_listable(opened(p, entries));
        },
        ReplyView::Entries(None) => {
            lemma_settled_keeps_listable(opened(p, Seq::empty()));
        },
        _ => {},
    }
    law_listing_is_sorted(p.documents);
    let sorted = sorted_documents(p.documents);
    assert forall|i: int| 0 <= i < sorted.len() implies is_listable(#[trigger] sorted[i]) by {
        vstd::seq_lib::to_multiset_contains(sorted, sorted[i]);
        vstd::seq_lib::to_multiset_contains(p.documents, sorted[i]);
        assert(sorted.contains(sorted[i]));
        let k = choose|k: int| 0 <= k < p.documents.len() && p.documents[k] == sorted[i];
        assert(is_listable(p.documents[k]));
    }
}

/// Hidden and excluded folders are not looked into: the folder whose
/// listing is asked for inside a repository is one whose name does not start
/// with a dot and is not on the index's list.
pub proof fn law_scan_passes_over_excluded(p: ScanProgressView)
    requires
        is_settled(p),
        p.open.len() > 0,
    ensures
        ({
            let top = p.open.last();
            let entry = top.entries[top.cursor as int];
            &&& scan_step(p) == StepView::<ListDocumentsResponseView>::Ask(
                EffectView::ReadDir { path: joined(top.dir, entry.name) },
            )
            &&& entry.is_dir
            &&& !is_hidden(entry.name)
            &&& !p.excluded.contains(entry.name)
        }),
{
}

/// Whether `name` can be the name of an entry of a directory: it is not
/// empty and holds no `/`.
pub open spec fn is_plain_name(name: Seq<char>) -> bool {
    name.len() > 0 && !name.contains('/')
}

/// Whether all of `entries` have names that entries can have.
pub open spec fn all_plain(entries: Seq<DirEntryView>) -> bool {
    forall|i: int| 0 <= i < entries.len() ==> is_plain_name(#[trigger] entries[i].name)
}

/// Whether an open directory is where its path from the repository's root
/// says, and holds entries with names that entries can have.
pub open spec fn frame_in_place(repo: Seq<char>, frame: FrameView) -> bool {
    &&& all_plain(frame.entries)
    &&& if frame.relative.len() == 0 {
        frame.dir == repo
    } else {
        &&& !is_absolute(frame.relative)
        &&& frame.relative.last() != '/'
        &&& frame.dir == joined(repo, frame.relative)
    }
}

/// Whether a document lies in one of the repositories: its path on the
/// filesystem is its path from the root, taken from that repository.
pub open spec fn document_in_place(
    repositories: Seq<Seq<char>>,
    document: DocumentMetadataView,
) -> bool {
    exists|r: int|
        {
            &&& 0 <= r < repositories.len()
            &&& !is_absolute(document.relative_path)
            &&& document.absolute_path == joined(#[trigger] repositories[r], document.relative_path)
        }
}

/// Whether everything in a listing's progress is where it says: the open
/// directories belong to the repository begun last, and every document found
/// lies in one of the repositories.
pub open spec fn all_in_place(p: ScanProgressView) -> bool {
    &&& p.begun <= p.repositories.len()
    &&& p.open.len() > 0 ==> p.begun >= 1
    &&& forall|k: int|
        0 <= k < p.open.len() ==> frame_in_place(p.repositories[p.begun - 1], #[trigger] p.open[k])
    &&& forall|i: int|
        0 <= i < p.documents.len() ==> document_in_place(p.repositories, #[trigger] p.documents[i])
}

proof fn lemma_child_in_place(repo: Seq<char>, frame: FrameView, name: Seq<char>)
    requires
        frame_in_place(repo, frame),
        is_plain_name(name),
    ensures
        child_relative(frame.relative, name).len() > 0,
        !is_absolute(child_relative(frame.relative, name)),
        child_relative(frame.relative, name).last() != '/',
        joined(frame.dir, name) == joined(repo, child_relative(frame.relative, name)),
{
    assert(name.contains(name[0]));
    assert(name.contains(name.last()));
    if frame.relative.len() > 0 {
        let relative = frame.relative;
        let child = relative + seq!['/'] + name;
        assert(child[0] == relative[0]);
        assert(child.last() == name.last());
        let base = if repo.len() == 0 || repo.last() == '/' {
            repo
        } else {
            repo + seq!['/']
        };
        assert(frame.dir == base + relative);
        assert(frame.dir.last() == relative.last());
        assert(joined(frame.dir, name) == base + relative + seq!['/'] + name);
        assert(joined(repo, child) == base + child);
        assert(base + relative + seq!['/'] + name == base + child);
    }
}

proof fn lemma_settled_keeps_places(p: ScanProgressView)
    requires
        all_in_place(p),
    ensures
        all_in_place(settled(p)),
    decreases work(p.open),
{
    if p.open.len() > 0 {
        let top = p.open.last();
        let below = p.open.drop_last();
        let repo = p.repositories[p.begun - 1];
        assert(frame_in_place(repo, top));
        assert forall|k: int| 0 <= k < below.len() implies frame_in_place(
            repo,
            #[trigger] below[k],
        ) by {
            assert(below[k] == p.open[k]);
        }
        if top.cursor >= top.entries.len() {
            lemma_settled_keeps_places(ScanProgressView { open: below, ..p });
        } else {
            let entry = top.entries[top.cursor as int];
            let moved = below.push(moved_on(top));
            lemma_work_push(below, moved_on(top));
            assert forall|k: int| 0 <= k < moved.len() implies frame_in_place(
                repo,
                #[trigger] moved[k],
            ) by {
                if k < below.len() {
                    assert(moved[k] == below[k]);
                }
            }
            match entry_verdict(p.excluded, entry) {
                Verdict::Descend => {},
                Verdict::Skip => {
                    lemma_settled_keeps_places(ScanProgressView { open: moved, ..p });
                },
                Verdict::Document(file_type) => {
                    let document = entry_document(top, entry, file_type);
                    let found = p.documents.push(document);
                    lemma_child_in_place(repo, top, entry.name);
                    assert(document_in_place(p.repositories, document)) by {
                        assert(document.absolute_path == joined(
                            p.repositories[p.begun - 1],
                            document.relative_path,
                        ));
                    }
                    assert forall|i: int| 0 <= i < found.len() implies document_in_place(
                        p.repositories,
                        #[trigger] found[i],
                    ) by {
                        if i < p.documents.len() {
                            assert(found[i] == p.documents[i]);
                        }
                    }
                    lemma_settled_keeps_places(
                        ScanProgressView { open: moved, documents: found, ..p },
                    );
                },
            }
        }
    }
}

/// Every document that is listed lies in one of the project's repositories.
/// As long as the disk lists entries under names that entries can have,
/// everything stays in place from reply to reply; and a document that is in
/// place has its path on the filesystem made of its path from the root,
/// taken from a repository, so that by its text it lies below that
/// repository's root. The documents handed out in the end are the
/// documents found, so they are in place too.
pub proof fn law_listed_documents_lie_inside(p: ScanProgressView, reply: ReplyView)
    requires
        all_in_place(p),
        is_settled(p),
        reply matches ReplyView::Entries(Some(entries)) ==> all_plain(entries),
    ensures
        all_in_place(scan_record(p, reply)),
        forall|i: int|
            0 <= i < sorted_documents(p.documents).len() ==> document_in_place(
                p.repositories,
                #[trigger] sorted_documents(p.documents)[i],
            ),
        forall|document: DocumentMetadataView, r: int|
            0 <= r < p.repositories.len() && !is_absolute(document.relative_path)
                && document.absolute_path == joined(
                #[trigger] p.repositories[r],
                document.relative_path,
            ) ==> components(p.repositories[r]).is_prefix_of(
                #[trigger] components(document.absolute_path),
            ),
{
    let entries = match reply {
        ReplyView::Entries(Some(entries)) => entries,
        _ => Seq::empty(),
    };
    if reply is Entries {
        let next = opened(p, entries);
        if p.open.len() > 0 {
            let top = p.open.last();
            let repo = p.repositories[p.begun - 1];
            let name = top.entries[top.cursor as int].name;
            assert(frame_in_place(repo, top));
            lemma_child_in_place(repo, top, name);
            assert forall|k: int| 0 <= k < next.open.len() implies frame_in_place(
                repo,
                #[trigger] next.open[k],
            ) by {
                if k < p.open.len() - 1 {
                    assert(next.open[k] == p.open[k]);
                }
            }
        } else if p.begun < p.repositories.len() {
            assert forall|k: int| 0 <= k < next.open.len() implies frame_in_place(
                next.repositories[next.begun - 1],
                #[trigger] next.open[k],
            ) by {}
        }
        assert(all_in_place(next));
        lemma_settled_keeps_places(next);
    }
    law_listing_is_sorted(p.documents);
    let sorted = sorted_documents(p.documents);
    assert forall|i: int| 0 <= i < sorted.len() implies document_in_place(
        p.repositories,
        #[trigger] sorted[i],
    ) by {
        vstd::seq_lib::to_multiset_contains(sorted, sorted[i]);
        vstd::seq_lib::to_multiset_contains(p.documents, sorted[i]);
        assert(sorted.contains(sorted[i]));
        let k = choose|k: int| 0 <= k < p.documents.len() && p.documents[k] == sorted[i];
        assert(document_in_place(p.repositories, p.documents[k]));
    }
    assert forall|document: DocumentMetadataView, r: int|
        0 <= r < p.repositories.len() && !is_absolute(document.relative_path)
            && document.absolute_path == joined(
            #[trigger] p.repositories[r],
            document.relative_path,
        ) implies components(p.repositories[r]).is_prefix_of(
        #[trigger] components(document.absolute_path),
    ) by {
        lemma_components_of_joined(p.repositories[r], document.relative_path);
        assert((components(p.repositories[r]) + components(document.relative_path)).subrange(
            0,
            components(p.repositories[r]).len() as int,
        ) == components(p.repositories[r]));
    }
}

/// Whether a folder may be looked into by its path from the repository's
/// root: none of the path's components is hidden, and none is an excluded
/// name.
pub open spec fn folder_is_visible(excluded: Seq<Seq<char>>, relative: Seq<char>) -> bool {
    forall|k: int|
        0 <= k < components(relative).len() ==> {
            let part = #[trigger] components(relative)[k];
            !is_hidden(part) && !excluded.contains(part)
        }
}

/// Whether a document may be listed by its path from the repository's root:
/// none of the path's components is hidden, and none of the folders among
/// them, which are all but the last, is an excluded name.
pub open spec fn document_is_visible(
    excluded: Seq<Seq<char>>,
    document: DocumentMetadataView,
) -> bool {
    let parts = components(document.relative_path);
    &&& parts.len() > 0
    &&& forall|k: int| 0 <= k < parts.len() ==> !is_hidden(#[trigger] parts[k])
    &&& forall|k: int| 0 <= k < parts.len() - 1 ==> !excluded.contains(#[trigger] parts[k])
}

/// Whether every open directory may be looked into and every document found
/// may be listed.
pub open spec fn all_visible(p: ScanProgressView) -> bool {
    &&& forall|k: int|
        0 <= k < p.open.len() ==> folder_is_visible(p.excluded, (#[trigger] p.open[k]).relative)
    &&& forall|i: int|
        0 <= i < p.documents.len() ==> document_is_visible(p.excluded, #[trigger] p.documents[i])
}

proof fn lemma_child_components(repo: Seq<char>, frame: FrameView, name: Seq<char>)
    requires
        frame_in_place(repo, frame),
        is_plain_name(name),
        !is_hidden(name),
    ensures
        components(child_relative(frame.relative, name)) == components(frame.relative).push(name),
{
    assert(is_component(name));
    lemma_name_is_one_component(name);
    assert(name.contains(name[0]));
    if frame.relative.len() == 0 {
        lemma_empty_path_has_no_components(frame.relative);
        assert(components(frame.relative).push(name) == seq![name]);
    } else {
        assert(!is_absolute(name));
        assert(child_relative(frame.relative, name) == joined(frame.relative, name));
        lemma_components_of_joined(frame.relative, name);
        assert(components(frame.relative) + seq![name] == components(frame.relative).push(name));
    }
}

proof fn lemma_settled_keeps_visible(p: ScanProgressView)
    requires
        all_in_place(p),
        all_visible(p),
    ensures
        all_visible(settled(p)),
    decreases work(p.open),
{
    if p.open.len() > 0 {
        let top = p.open.last();
        let below = p.open.drop_last();
        let repo = p.repositories[p.begun - 1];
        assert(frame_in_place(repo, top));
        assert(folder_is_visible(p.excluded, top.relative));
        assert forall|k: int| 0 <= k < below.len() implies frame_in_place(
            repo,
            #[trigger] below[k],
        ) && folder_is_visible(p.excluded, below[k].relative) by {
            assert(below[k] == p.open[k]);
        }
        if top.cursor >= top.entries.len() {
            lemma_settled_keeps_visible(ScanProgressView { open: below, ..p });
        } else {
            let entry = top.entries[top.cursor as int];
            let moved = below.push(moved_on(top));
            lemma_work_push(below, moved_on(top));
            assert forall|k: int| 0 <= k < moved.len() implies frame_in_place(
                repo,
                #[trigger] moved[k],
            ) && folder_is_visible(p.excluded, moved[k].relative) by {
                if k < below.len() {
                    assert(moved[k] == below[k]);
                }
            }
            match entry_verdict(p.excluded, entry) {
                Verdict::Descend => {},
                Verdict::Skip => {
                    lemma_settled_keeps_visible(ScanProgressView { open: moved, ..p });
                },
                Verdict::Document(file_type) => {
                    let document = entry_document(top, entry, file_type);
                    let found = p.documents.push(document);
                    lemma_child_in_place(repo, top, entry.name);
                    lemma_child_components(repo, top, entry.name);
                    let parts = components(document.relative_path);
                    assert(parts == components(top.relative).push(entry.name));
                    assert(document_is_visible(p.excluded, document)) by {
                        assert forall|k: int| 0 <= k < parts.len() implies !is_hidden(
                            #[trigger] parts[k],
                        ) by {
                            if k < parts.len() - 1 {
                                assert(parts[k] == components(top.relative)[k]);
                            }
                        }
                        assert forall|k: int| 0 <= k < parts.len() - 1 implies !p.excluded.contains(
                            #[trigger] parts[k],
                        ) by {
                            assert(parts[k] == components(top.relative)[k]);
                        }
                    }
                    assert(document_in_place(p.repositories, document)) by {
                        assert(document.absolute_path == joined(
                            p.repositories[p.begun - 1],
                            document.relative_path,
                        ));
                    }
                    assert forall|i: int| 0 <= i < found.len() implies document_in_place(
                        p.repositories,
                        #[trigger] found[i],
                    ) && document_is_visible(p.excluded, found[i]) by {
                        if i < p.documents.len() {
                            assert(found[i] == p.documents[i]);
                        }
                    }
                    lemma_settled_keeps_visible(
                        ScanProgressView { open: moved, documents: found, ..p },
                    );
                },
            }
        }
    }
}

/// No document is listed from a hidden or an excluded folder. As long as
/// the disk lists entries under names that entries can have, every document
/// that a listing takes down, and every document that it hands out in the
/// end, has a path from the repository's root of which no component starts
/// with a dot and of which no folder is an excluded name; and every folder
/// that is looked into has such a path too. The excluded names are matched
/// as whole names.
pub proof fn law_listed_paths_are_visible(p: ScanProgressView, reply: ReplyView)
    requires
        all_in_place(p),
        all_visible(p),
        is_settled(p),
        reply matches ReplyView::Entries(Some(entries)) ==> all_plain(entries),
    ensures
        all_visible(scan_record(p, reply)),
        forall|i: int|
            0 <= i < sorted_documents(p.documents).len() ==> document_is_visible(
                p.excluded,
                #[trigger] sorted_documents(p.documents)[i],
            ),
{
    let entries = match reply {
        ReplyView::Entries(Some(entries)) => entries,
        _ => Seq::empty(),
    };
    if reply is Entries {
        let next = opened(p, entries);
        law_listed_documents_lie_inside(p, reply);
        if p.open.len() > 0 {
            let top = p.open.last();
            let repo = p.repositories[p.begun - 1];
            let name = top.entries[top.cursor as int].name;
            assert(frame_in_place(repo, top));
            assert(folder_is_visible(p.excluded, top.relative));
            assert(entry_verdict(p.excluded, top.entries[top.cursor as int]) == Verdict::Descend);
            lemma_child_components(repo, top, name);
            let parts = components(child_relative(top.relative, name));
            assert(folder_is_visible(p.excluded, child_relative(top.relative, name))) by {
                assert forall|k: int| 0 <= k < parts.len() implies {
                    let part = #[trigger] parts[k];
                    !is_hidden(part) && !p.excluded.contains(part)
                } by {
                    if k < parts.len() - 1 {
                        assert(parts[k] == components(top.relative)[k]);
                    }
                }
            }
            assert forall|k: int| 0 <= k < next.open.len() implies folder_is_visible(
                p.excluded,
                (#[trigger] next.open[k]).relative,
            ) by {
                if k < p.open.len() - 1 {
                    assert(next.open[k] == p.open[k]);
                } else if k == p.open.len() - 1 {
                    assert(next.open[k].relative == top.relative);
                }
            }
        } else if p.begun < p.repositories.len() {
            lemma_empty_path_has_no_components(Seq::<char>::empty());
            assert forall|k: int| 0 <= k < next.open.len() implies folder_is_visible(
                p.excluded,
                (#[trigger] next.open[k]).relative,
            ) by {}
        }
        assert(all_visible(next));
        assert(all_in_place(next)) by {
            if p.open.len() > 0 {
                let top = p.open.last();
                let repo = p.repositories[p.begun - 1];
                let name = top.entries[top.cursor as int].name;
                lemma_child_in_place(repo, top, name);
                assert forall|k: int| 0 <= k < next.open.len() implies frame_in_place(
                    repo,
                    #[trigger] next.open[k],
                ) by {
                    if k < p.open.len() - 1 {
                        assert(next.open[k] == p.open[k]);
                    }
                }
            }
        }
        lemma_settled_keeps_visible(next);
    }
    law_listing_is_sorted(p.documents);
    let sorted = sorted_documents(p.documents);
    assert forall|i: int| 0 <= i < sorted.len() implies document_is_visible(
        p.excluded,
        #[trigger] sorted[i],
    ) by {
        vstd::seq_lib::to_multiset_contains(sorted, sorted[i]);
        vstd::seq_lib::to_multiset_contains(p.documents, sorted[i]);
        assert(sorted.contains(sorted[i]));
        let k = choose|k: int| 0 <= k < p.documents.len() && p.documents[k] == sorted[i];
        assert(document_is_visible(p.excluded, p.documents[k]));
    }
}

} // verus!
