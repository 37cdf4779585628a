//! The open documents of the server and how requests are routed.
//!
//! The client sends whole documents (full sync): opening stores the text,
//! a change replaces the text of an open document, closing forgets it.

use vstd::prelude::*;

use crate::text::{str_eq, to_owned_string};

verus! {

/// The text of each open document, by URI.
pub struct DocumentStore {
    uris: Vec<String>,
    contents: Vec<String>,
}

impl DocumentStore {
    /// One text per URI, no URI twice.
    pub closed spec fn wf(&self) -> bool {
        &&& self.uris.len() == self.contents.len()
        &&& forall|i: int, j: int|
            0 <= i < j < self.uris.len() ==> (#[trigger] self.uris@[i])@ != (#[trigger] self.uris@[j])@
    }

    /// The text of the document `uri`, when it is open.
    pub closed spec fn doc(&self, uri: Seq<char>) -> Option<Seq<char>> {
        if exists|i: int| 0 <= i < self.uris.len() && (#[trigger] self.uris@[i])@ == uri {
            let i = choose|i: int| 0 <= i < self.uris.len() && (#[trigger] self.uris@[i])@ == uri;
            Some(self.contents@[i]@)
        } else {
            None
        }
    }

    proof fn lemma_doc_at(&self, i: int)
        requires
            self.wf(),
            0 <= i < self.uris.len(),
        ensures
            self.doc(self.uris@[i]@) == Some(self.contents@[i]@),
    {
        let u = self.uris@[i]@;
        assert(exists|k: int| 0 <= k < self.uris.len() && (#[trigger] self.uris@[k])@ == u);
        let k = choose|k: int| 0 <= k < self.uris.len() && (#[trigger] self.uris@[k])@ == u;
        if k != i {
            if k < i {
                assert(self.uris@[k]@ != self.uris@[i]@);
            } else {
                assert(self.uris@[i]@ != self.uris@[k]@);
            }
        }
    }

    /// No documents open.
    pub fn new() -> (s: Self)
        ensures
            s.wf(),
            forall|u: Seq<char>| s.doc(u) is None,
    {
        DocumentStore { uris: Vec::new(), contents: Vec::new() }
    }

    fn position(&self, uri: &str) -> (r: Option<usize>)
        requires
            self.wf(),
        ensures
            match r {
                Some(i) => i < self.uris.len() && self.uris@[i as int]@ == uri@,
                None => forall|j: int| 0 <= j < self.uris.len() ==> self.uris@[j]@ != uri@,
            },
    {
        let mut i: usize = 0;
        while i < self.uris.len()
            invariant
                i <= self.uris.len(),
                forall|j: int| 0 <= j < i ==> self.uris@[j]@ != uri@,
            decreases self.uris.len() - i,
        {
            if str_eq(self.uris[i].as_str(), uri) {
                return Some(i);
            }
            i = i + 1;
        }
        None
    }

    /// The text of the document `uri`, when it is open.
    pub fn get(&self, uri: &str) -> (r: Option<&String>)
        requires
            self.wf(),
        ensures
            match r {
                Some(t) => self.doc(uri@) == Some(t@),
                None => self.doc(uri@) is None,
            },
    {
        match self.position(uri) {
            Some(i) => {
                proof {
                    self.lemma_doc_at(i as int);
                }
                Some(&self.contents[i])
            },
            None => None,
        }
    }

    /// Open (or reopen) the document `uri` with the text `content`.
    pub fn open(&mut self, uri: &str, content: String)
        requires
            old(self).wf(),
        ensures
            final(self).wf(),
            final(self).doc(uri@) == Some(content@),
            forall|u: Seq<char>| u != uri@ ==> final(self).doc(u) == old(self).doc(u),
    {
        let ghost c = content@;
        match self.position(uri) {
            Some(i) => {
                self.contents.set(i, content);
                proof {
                    self.lemma_doc_at(i as int);
                    assert forall|u: Seq<char>| u != uri@ implies self.doc(u) == old(self).doc(u) by {
                        if exists|k: int| 0 <= k < self.uris.len() && (#[trigger] self.uris@[k])@ == u {
                            let k = choose|k: int| 0 <= k < self.uris.len() && (#[trigger] self.uris@[k])@ == u;
                            self.lemma_doc_at(k);
                            old(self).lemma_doc_at(k);
                        }
                    }
                }
            },
            None => {
                self.uris.push(to_owned_string(uri));
                self.contents.push(content);
                proof {
                    let n = self.uris.len() - 1;
                    assert(self.uris@[n]@ == uri@);
                    self.lemma_doc_at(n);
                    assert forall|u: Seq<char>| u != uri@ implies self.doc(u) == old(self).doc(u) by {
                        if exists|k: int| 0 <= k < self.uris.len() && (#[trigger] self.uris@[k])@ == u {
                            let k = choose|k: int| 0 <= k < self.uris.len() && (#[trigger] self.uris@[k])@ == u;
                            assert(k < n);
                            self.lemma_doc_at(k);
                            old(self).lemma_doc_at(k);
                        } else {
                            assert forall|k: int| 0 <= k < old(self).uris.len() implies (#[trigger] old(self).uris@[k])@
                                != u by {
                                assert(self.uris@[k] == old(self).uris@[k]);
                            }
                        }
                    }
                }
            },
        }
    }

    /// Replace the text of the open document `uri`; a document that is
    /// not open stays closed.  Whether it was open.
    pub fn change(&mut self, uri: &str, content: String) -> (was_open: bool)
        requires
            old(self).wf(),
        ensures
            final(self).wf(),
            was_open == old(self).doc(uri@) is Some,
            was_open ==> final(self).doc(uri@) == Some(content@),
            !was_open ==> final(self).doc(uri@) is None,
            forall|u: Seq<char>| u != uri@ ==> final(self).doc(u) == old(self).doc(u),
    {
        match self.position(uri) {
            Some(i) => {
                proof {
                    self.lemma_doc_at(i as int);
                }
                self.open(uri, content);
                true
            },
            None => {
                assert(self.doc(uri@) is None);
                false
            },
        }
    }

    /// Forget the document `uri`.
    pub fn close(&mut self, uri: &str)
        requires
            old(self).wf(),
        ensures
            final(self).wf(),
            final(self).doc(uri@) is None,
            forall|u: Seq<char>| u != uri@ ==> final(self).doc(u) == old(self).doc(u),
    {
        if let Some(i) = self.position(uri) {
            let ghost ou = self.uris@;
            let ghost oc = self.contents@;
            self.uris.remove(i);
            self.contents.remove(i);
            proof {
                assert forall|a: int, b: int| 0 <= a < b < self.uris.len() implies (#[trigger] self.uris@[a])@
                    != (#[trigger] self.uris@[b])@ by {
                    let oa = if a < i { a } else { a + 1 };
                    let ob = if b < i { b } else { b + 1 };
                    assert(self.uris@[a] == ou[oa] && self.uris@[b] == ou[ob]);
                    assert(ou[oa]@ != ou[ob]@);
                }
                assert forall|k: int| 0 <= k < self.uris.len() implies (#[trigger] self.uris@[k])@ != uri@ by {
                    let ok = if k < i { k } else { k + 1 };
                    assert(self.uris@[k] == ou[ok]);
                    assert(ou[ok]@ != ou[i as int]@);
                }
                assert forall|u: Seq<char>| u != uri@ implies self.doc(u) == old(self).doc(u) by {
                    if exists|k: int| 0 <= k < self.uris.len() && (#[trigger] self.uris@[k])@ == u {
                        let k = choose|k: int| 0 <= k < self.uris.len() && (#[trigger] self.uris@[k])@ == u;
                        let ok = if k < i { k } else { k + 1 };
                        assert(self.uris@[k] == ou[ok] && self.contents@[k] == oc[ok]);
                        self.lemma_doc_at(k);
                        old(self).lemma_doc_at(ok);
                    } else {
                        assert forall|k: int| 0 <= k < old(self).uris.len() implies (#[trigger] old(self).uris@[k])@ != u by {
                            if k != i {
                                let nk = if k < i { k } else { k - 1 };
                                assert(self.uris@[nk] == ou[k]);
                            }
                        }
                    }
                }
            }
        }
    }
}

/// The requests the server serves.
#[derive(Debug, Clone, Copy, PartialEq, Eq, Structural)]
pub enum RequestRoute {
    DocumentSymbol,
    Hover,
    Completion,
    GotoDefinition,
    GotoDeclaration,
    /// Answered with an empty result, so the client does not wait.
    Unknown,
}

pub open spec fn route_of(method: Seq<char>) -> RequestRoute {
    if method == "textDocument/documentSymbol"@ {
        RequestRoute::DocumentSymbol
    } else if method == "textDocument/hover"@ {
        RequestRoute::Hover
    } else if method == "textDocument/completion"@ {
        RequestRoute::Completion
    } else if method == "textDocument/definition"@ {
        RequestRoute::GotoDefinition
    } else if method == "textDocument/declaration"@ {
        RequestRoute::GotoDeclaration
    } else {
        RequestRoute::Unknown
    }
}

/// The route of a request method.
pub fn request_route(method: &str) -> (r: RequestRoute)
    ensures
        r == route_of(method@),
{
    if str_eq(method, "textDocument/documentSymbol") {
        RequestRoute::DocumentSymbol
    } else if str_eq(method, "textDocument/hover") {
        RequestRoute::Hover
    } else if str_eq(method, "textDocument/completion") {
        RequestRoute::Completion
    } else if str_eq(method, "textDocument/definition") {
        RequestRoute::GotoDefinition
    } else if str_eq(method, "textDocument/declaration") {
        RequestRoute::GotoDeclaration
    } else {
        RequestRoute::Unknown
    }
}

/// The notifications the server acts on.
#[derive(Debug, Clone, Copy, PartialEq, Eq, Structural)]
pub enum NotificationRoute {
    DidOpen,
    DidChange,
    DidClose,
    Ignored,
}

pub open spec fn notification_route_of(method: Seq<char>) -> NotificationRoute {
    if method == "textDocument/didOpen"@ {
        NotificationRoute::DidOpen
    } else if method == "textDocument/didChange"@ {
        NotificationRoute::DidChange
    } else if method == "textDocument/didClose"@ {
        NotificationRoute::DidClose
    } else {
        NotificationRoute::Ignored
    }
}

/// The route of a notification method.
pub fn notification_route(method: &str) -> (r: NotificationRoute)
    ensures
        r == notification_route_of(method@),
{
    if str_eq(method, "textDocument/didOpen") {
        NotificationRoute::DidOpen
    } else if str_eq(method, "textDocument/didChange") {
        NotificationRoute::DidChange
    } else if str_eq(method, "textDocument/didClose") {
        NotificationRoute::DidClose
    } else {
        NotificationRoute::Ignored
    }
}

} // verus!
