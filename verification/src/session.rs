use vstd::prelude::*;
use vstd::string::StrSliceExecFns;

use crate::diagnostics::Diagnostic;
use crate::text::str_eq;

verus! {

/// One open document: its full text and the editor's version number.
#[derive(Debug, Clone)]
pub struct Document {
    pub text: String,
    pub version: i32,
}

/// Index of the first entry of `s` at or after `k` whose key has the
/// character content `uri`, or `s.len()` if there is none.
pub open spec fn key_index_from<T>(s: Seq<(String, T)>, uri: Seq<char>, k: int) -> int
    decreases s.len() - k when 0 <= k <= s.len()
{
    if k >= s.len() {
        s.len() as int
    } else if s[k].0@ == uri {
        k
    } else {
        key_index_from(s, uri, k + 1)
    }
}

pub open spec fn key_index<T>(s: Seq<(String, T)>, uri: Seq<char>) -> int {
    key_index_from(s, uri, 0)
}

pub open spec fn has_key<T>(s: Seq<(String, T)>, uri: Seq<char>) -> bool {
    key_index(s, uri) < s.len()
}

pub proof fn lemma_key_index_from<T>(s: Seq<(String, T)>, uri: Seq<char>, k: int)
    requires
        0 <= k <= s.len(),
    ensures
        k <= key_index_from(s, uri, k) <= s.len(),
        forall|j: int| k <= j < key_index_from(s, uri, k) ==> (#[trigger] s[j]).0@ != uri,
        key_index_from(s, uri, k) < s.len() ==> s[key_index_from(s, uri, k)].0@ == uri,
    decreases s.len() - k,
{
    if k < s.len() && s[k].0@ != uri {
        lemma_key_index_from(s, uri, k + 1);
    }
}

/// No two entries carry the same key.
pub open spec fn keys_unique<T>(s: Seq<(String, T)>) -> bool {
    forall|a: int, b: int|
        #![trigger s[a], s[b]]
        0 <= a < b < s.len() ==> s[a].0@ != s[b].0@
}

/// Index of the entry whose key reads `uri`, or `None`.
fn find_key<T>(v: &Vec<(String, T)>, uri: &str) -> (r: Option<usize>)
    ensures
        r matches Some(k) ==> key_index(v@, uri@) == k && k < v@.len(),
        r is None ==> key_index(v@, uri@) == v@.len(),
{
    let mut i: usize = 0;
    while i < v.len()
        invariant
            0 <= i <= v@.len(),
            key_index(v@, uri@) == key_index_from(v@, uri@, i as int),
        decreases v@.len() - i,
    {
        if str_eq(v[i].0.as_str(), uri) {
            return Some(i);
        }
        i = i + 1;
    }
    None
}

/// The authoritative store of open documents, with a diagnostics
/// cache that outlives closing a document.
#[derive(Debug)]
pub struct DocumentStore {
    pub documents: Vec<(String, Document)>,
    pub diagnostics: Vec<(String, Vec<Diagnostic>)>,
}

impl DocumentStore {
    /// Both tables are keyed by URI, each key at most once.
    pub open spec fn wf(self) -> bool {
        keys_unique(self.documents@) && keys_unique(self.diagnostics@)
    }

    pub fn new() -> (s: DocumentStore)
        ensures
            s.wf(),
            s.documents@ == Seq::<(String, Document)>::empty(),
            s.diagnostics@ == Seq::<(String, Vec<Diagnostic>)>::empty(),
    {
        DocumentStore { documents: Vec::new(), diagnostics: Vec::new() }
    }

    /// Inserts the document, or replaces text and version when the
    /// URI is already open; opening is idempotent.
    pub fn open(&mut self, uri: String, text: String, version: i32)
        requires
            old(self).wf(),
        ensures
            final(self).wf(),
            final(self).diagnostics == old(self).diagnostics,
            ({
                let k = key_index(old(self).documents@, uri@);
                if k < old(self).documents@.len() {
                    final(self).documents@ == old(self).documents@.update(
                        k,
                        (uri, Document { text, version }),
                    )
                } else {
                    final(self).documents@ == old(self).documents@.push(
                        (uri, Document { text, version }),
                    )
                }
            }),
    {
        proof {
            lemma_key_index_from(self.documents@, uri@, 0);
        }
        match find_key(&self.documents, uri.as_str()) {
            Some(k) => {
                self.documents.set(k, (uri, Document { text, version }));
                proof {
                    lemma_keys_unique_update(old(self).documents@, self.documents@, k as int);
                }
            },
            None => {
                self.documents.push((uri, Document { text, version }));
                proof {
                    assert(self.documents@[old(self).documents@.len() as int].0@ == uri@);
                    lemma_keys_unique_push(old(self).documents@, self.documents@);
                }
            },
        }
    }

    /// Updates text and version when the URI is open and the new
    /// version is higher; a change that does not raise the version is
    /// ignored, so the stored version never decreases.  Returns
    /// whether the URI was open at all.
    pub fn change(&mut self, uri: &str, text: String, version: i32) -> (r: bool)
        requires
            old(self).wf(),
        ensures
            final(self).wf(),
            final(self).diagnostics == old(self).diagnostics,
            r == has_key(old(self).documents@, uri@),
            !has_key(old(self).documents@, uri@) ==> *final(self) == *old(self),
            ({
                let k = key_index(old(self).documents@, uri@);
                has_key(old(self).documents@, uri@) ==> {
                    &&& version > old(self).documents@[k].1.version ==> final(self).documents@
                        == old(self).documents@.update(
                        k,
                        (old(self).documents@[k].0, Document { text, version }),
                    )
                    &&& version <= old(self).documents@[k].1.version ==> *final(self) == *old(self)
                    &&& final(self).documents@[k].1.version >= old(self).documents@[k].1.version
                }
            }),
    {
        proof {
            lemma_key_index_from(self.documents@, uri@, 0);
        }
        match find_key(&self.documents, uri) {
            Some(k) => {
                if version > self.documents[k].1.version {
                    let key = self.documents[k].0.clone();
                    self.documents.set(k, (key, Document { text, version }));
                    proof {
                        lemma_keys_unique_update(old(self).documents@, self.documents@, k as int);
                    }
                }
                true
            },
            None => false,
        }
    }

    /// Removes the document; its cached diagnostics survive.  Returns
    /// whether the URI was open.
    pub fn close(&mut self, uri: &str) -> (r: bool)
        requires
            old(self).wf(),
        ensures
            final(self).wf(),
            final(self).diagnostics == old(self).diagnostics,
            r == has_key(old(self).documents@, uri@),
            !has_key(old(self).documents@, uri@) ==> *final(self) == *old(self),
            has_key(old(self).documents@, uri@) ==> final(self).documents@ == old(
                self,
            ).documents@.remove(key_index(old(self).documents@, uri@)),
    {
        match find_key(&self.documents, uri) {
            Some(k) => {
                self.documents.remove(k);
                proof {
                    lemma_keys_unique_remove(old(self).documents@, self.documents@, k as int);
                }
                true
            },
            None => false,
        }
    }

    /// Borrows the document under `uri`, when open.
    pub fn get(&self, uri: &str) -> (r: Option<&Document>)
        ensures
            r is Some <==> has_key(self.documents@, uri@),
            r matches Some(d) ==> *d == self.documents@[key_index(self.documents@, uri@)].1,
    {
        match find_key(&self.documents, uri) {
            Some(k) => Some(&self.documents[k].1),
            None => None,
        }
    }

    /// Copies of all open documents, in insertion order.
    pub fn all_documents(&self) -> (r: Vec<Document>)
        ensures
            r@.len() == self.documents@.len(),
            forall|k: int| 0 <= k < r@.len() ==> r@[k] == self.documents@[k].1,
    {
        let mut out: Vec<Document> = Vec::new();
        let mut i: usize = 0;
        while i < self.documents.len()
            invariant
                0 <= i <= self.documents@.len(),
                out@.len() == i,
                forall|k: int| 0 <= k < i ==> out@[k] == self.documents@[k].1,
            decreases self.documents@.len() - i,
        {
            let d = &self.documents[i].1;
            out.push(Document { text: d.text.clone(), version: d.version });
            i = i + 1;
        }
        out
    }

    /// Copies of all open documents with their URIs, in insertion
    /// order; this is what a replay after a restart re-sends.
    pub fn all(&self) -> (r: Vec<(String, Document)>)
        ensures
            r@.len() == self.documents@.len(),
            forall|k: int| 0 <= k < r@.len() ==> r@[k] == self.documents@[k],
    {
        let mut out: Vec<(String, Document)> = Vec::new();
        let mut i: usize = 0;
        while i < self.documents.len()
            invariant
                0 <= i <= self.documents@.len(),
                out@.len() == i,
                forall|k: int| 0 <= k < i ==> out@[k] == self.documents@[k],
            decreases self.documents@.len() - i,
        {
            let e = &self.documents[i];
            out.push((e.0.clone(), Document { text: e.1.text.clone(), version: e.1.version }));
            i = i + 1;
        }
        out
    }

    /// Whether the URI is currently open.
    pub fn is_open(&self, uri: &str) -> (r: bool)
        ensures
            r == has_key(self.documents@, uri@),
    {
        match find_key(&self.documents, uri) {
            Some(_) => true,
            None => false,
        }
    }

    /// Stores the diagnostics for a URI, replacing earlier ones.
    pub fn set_diagnostics(&mut self, uri: String, diags: Vec<Diagnostic>)
        requires
            old(self).wf(),
        ensures
            final(self).wf(),
            final(self).documents == old(self).documents,
            ({
                let k = key_index(old(self).diagnostics@, uri@);
                if k < old(self).diagnostics@.len() {
                    final(self).diagnostics@ == old(self).diagnostics@.update(k, (uri, diags))
                } else {
                    final(self).diagnostics@ == old(self).diagnostics@.push((uri, diags))
                }
            }),
    {
        proof {
            lemma_key_index_from(self.diagnostics@, uri@, 0);
        }
        match find_key(&self.diagnostics, uri.as_str()) {
            Some(k) => {
                self.diagnostics.set(k, (uri, diags));
                proof {
                    lemma_keys_unique_update(old(self).diagnostics@, self.diagnostics@, k as int);
                }
            },
            None => {
                self.diagnostics.push((uri, diags));
                proof {
                    assert(self.diagnostics@[old(self).diagnostics@.len() as int].0@ == uri@);
                    lemma_keys_unique_push(old(self).diagnostics@, self.diagnostics@);
                }
            },
        }
    }

    /// Borrows the cached diagnostics for a URI, when any are stored.
    pub fn get_diagnostics(&self, uri: &str) -> (r: Option<&Vec<Diagnostic>>)
        ensures
            r is Some <==> has_key(self.diagnostics@, uri@),
            r matches Some(d) ==> *d == self.diagnostics@[key_index(self.diagnostics@, uri@)].1,
    {
        match find_key(&self.diagnostics, uri) {
            Some(k) => Some(&self.diagnostics[k].1),
            None => None,
        }
    }
}

impl Default for DocumentStore {
    /// An empty store.
    fn default() -> (s: DocumentStore)
        ensures
            s.wf(),
            s.documents@ == Seq::<(String, Document)>::empty(),
            s.diagnostics@ == Seq::<(String, Vec<Diagnostic>)>::empty(),
    {
        DocumentStore::new()
    }
}

/// Replacing an entry with one under the same key keeps keys unique.
proof fn lemma_keys_unique_update<T>(s0: Seq<(String, T)>, s1: Seq<(String, T)>, k: int)
    requires
        keys_unique(s0),
        0 <= k < s0.len(),
        s1.len() == s0.len(),
        s1[k].0@ == s0[k].0@,
        forall|j: int| 0 <= j < s0.len() && j != k ==> s1[j] == s0[j],
    ensures
        keys_unique(s1),
{
    assert forall|a: int, b: int|
        #![trigger s1[a], s1[b]]
        0 <= a < b < s1.len() implies s1[a].0@ != s1[b].0@ by {
        assert(s0[a].0@ != s0[b].0@);
    }
}

/// Appending an entry under an absent key keeps keys unique.
proof fn lemma_keys_unique_push<T>(s0: Seq<(String, T)>, s1: Seq<(String, T)>)
    requires
        keys_unique(s0),
        s1.len() == s0.len() + 1,
        forall|j: int| 0 <= j < s0.len() ==> s1[j] == s0[j],
        key_index(s0, s1[s0.len() as int].0@) == s0.len(),
    ensures
        keys_unique(s1),
{
    lemma_key_index_from(s0, s1[s0.len() as int].0@, 0);
    assert forall|a: int, b: int|
        #![trigger s1[a], s1[b]]
        0 <= a < b < s1.len() implies s1[a].0@ != s1[b].0@ by {
        if b < s0.len() {
            assert(s0[a].0@ != s0[b].0@);
        } else {
            assert(s1[a] == s0[a]);
        }
    }
}

/// Removing an entry keeps keys unique.
proof fn lemma_keys_unique_remove<T>(s0: Seq<(String, T)>, s1: Seq<(String, T)>, k: int)
    requires
        keys_unique(s0),
        0 <= k < s0.len(),
        s1 == s0.remove(k),
    ensures
        keys_unique(s1),
{
    assert forall|a: int, b: int|
        #![trigger s1[a], s1[b]]
        0 <= a < b < s1.len() implies s1[a].0@ != s1[b].0@ by {
        if b < k {
            assert(s1[a] == s0[a] && s1[b] == s0[b]);
        } else if a < k {
            assert(s1[a] == s0[a] && s1[b] == s0[b + 1]);
        } else {
            assert(s1[a] == s0[a + 1] && s1[b] == s0[b + 1]);
        }
    }
}

} // verus!
