//! Selector database and multi-part completion engine.
//!
//! ObjC selectors like `tableView:cellForRowAtIndexPath:` are multi-part.
//! Entries are grouped by their first part so that completion can fill in
//! the whole skeleton.

use vstd::prelude::*;

use crate::multimap::{
    distinct_keys, key_index, lemma_key_index_unique, lemma_push_then_values, push_value, values_of,
    MultiMap,
};
use vstd::seq_lib::lemma_multiset_commutative;
use crate::text::{
    append_str, append_string, chars_of, has_char, lemma_first_of, pieces, piece_spans,
    range_find_char, range_starts_with, starts_with, str_eq, string_of, to_owned_string, views,
};

verus! {

/// A parsed ObjC selector.
///
/// `tableView:cellForRowAtIndexPath:` → parts: `["tableView", "cellForRowAtIndexPath"]`
#[derive(Debug, Clone)]
pub struct Selector {
    pub parts: Vec<String>,
    /// Written with colons (a keyword selector such as `setName:`).
    pub keyword: bool,
}

impl View for Selector {
    type V = Seq<Seq<char>>;

    open spec fn view(&self) -> Seq<Seq<char>> {
        views(self.parts@)
    }
}

/// The parts of `raw`: the whole text when it holds no `:`, otherwise the
/// non-empty pieces between colons.
pub open spec fn parse_spec(raw: Seq<char>) -> Seq<Seq<char>> {
    if !has_char(raw, ':') {
        seq![raw]
    } else {
        pieces(raw, ':')
    }
}

/// Every part followed by a colon: `foo:bar:`.
pub open spec fn colon_join(parts: Seq<Seq<char>>) -> Seq<char>
    decreases parts.len(),
{
    if parts.len() == 0 {
        seq![]
    } else {
        parts[0] + seq![':'] + colon_join(parts.drop_first())
    }
}

/// The text of a selector: the single part of a unary selector, otherwise
/// every part followed by a colon.
pub open spec fn selector_text(parts: Seq<Seq<char>>, keyword: bool) -> Seq<char> {
    if !keyword && parts.len() == 1 {
        parts[0]
    } else {
        colon_join(parts)
    }
}

pub proof fn lemma_colon_join_push(parts: Seq<Seq<char>>, p: Seq<char>)
    ensures
        colon_join(parts.push(p)) == colon_join(parts) + p + seq![':'],
    decreases parts.len(),
{
    if parts.len() == 0 {
        assert(parts.push(p).drop_first() =~= Seq::<Seq<char>>::empty());
        assert(colon_join(parts.push(p).drop_first()) =~= Seq::<char>::empty());
        assert(colon_join(parts) =~= Seq::<char>::empty());
        assert(colon_join(parts.push(p)) =~= p + seq![':']);
    } else {
        assert(parts.push(p).drop_first() =~= parts.drop_first().push(p));
        lemma_colon_join_push(parts.drop_first(), p);
        assert(colon_join(parts.push(p)) =~= colon_join(parts) + p + seq![':']);
    }
}

/// Every part is non-empty and holds no colon.
pub open spec fn plain_parts(parts: Seq<Seq<char>>) -> bool {
    forall|i: int| 0 <= i < parts.len() ==> parts[i].len() > 0 && !has_char(#[trigger] parts[i], ':')
}

pub proof fn lemma_pieces_of_colon_join(parts: Seq<Seq<char>>)
    requires
        plain_parts(parts),
    ensures
        pieces(colon_join(parts), ':') == parts,
    decreases parts.len(),
{
    if parts.len() > 0 {
        let p = parts[0];
        let rest = parts.drop_first();
        let s = colon_join(parts);
        assert(s =~= p + seq![':'] + colon_join(rest));
        assert(!has_char(p, ':'));
        lemma_first_of(s, ':', p.len() as int);
        assert(s.take(p.len() as int) =~= p);
        assert(s.skip(p.len() + 1 as int) =~= colon_join(rest));
        lemma_pieces_of_colon_join(rest);
        assert(pieces(s, ':') =~= seq![p] + rest);
    } else {
        assert(colon_join(parts).len() == 0);
    }
}

pub proof fn lemma_colon_join_has_colon(parts: Seq<Seq<char>>)
    requires
        parts.len() > 0,
    ensures
        has_char(colon_join(parts), ':'),
{
    let s = colon_join(parts);
    assert(s =~= parts[0] + seq![':'] + colon_join(parts.drop_first()));
    assert(s[parts[0].len() as int] == ':');
}

/// A selector written out as text reads back as the same selector
/// (for non-empty, colon-free parts; a unary selector has one part).
pub proof fn lemma_text_parse_roundtrip(parts: Seq<Seq<char>>, keyword: bool)
    requires
        parts.len() >= 1,
        plain_parts(parts),
        !keyword ==> parts.len() == 1,
    ensures
        parse_spec(selector_text(parts, keyword)) == parts,
        has_char(selector_text(parts, keyword), ':') == keyword,
{
    if !keyword {
        assert(!has_char(parts[0], ':'));
    } else {
        lemma_colon_join_has_colon(parts);
        lemma_pieces_of_colon_join(parts);
    }
}

/// Parsing a well-formed selector and writing it back gives the same
/// text back: a unary selector (no colon), or a keyword selector whose
/// non-empty parts are each followed by a colon.
pub proof fn lemma_parse_text_roundtrip(raw: Seq<char>)
    requires
        !has_char(raw, ':') || raw == colon_join(pieces(raw, ':')),
    ensures
        selector_text(parse_spec(raw), has_char(raw, ':')) == raw,
{
}

impl Selector {
    pub fn parse(raw: &str) -> (s: Self)
        ensures
            s@ == parse_spec(raw@),
            s.keyword == has_char(raw@, ':'),
    {
        let v = chars_of(raw);
        let mut parts: Vec<String> = Vec::new();
        let found = range_find_char(&v, 0, v.len(), ':');
        let keyword = found.is_some();
        proof {
            if let Some(i) = found {
                assert(v@[i as int] == ':');
                assert(has_char(raw@, ':'));
            } else {
                assert(!has_char(raw@, ':'));
            }
        }
        match found {
            None => {
                assert(!has_char(raw@, ':'));
                parts.push(to_owned_string(raw));
                assert(views(parts@) =~= seq![raw@]);
            },
            Some(_) => {
                let spans = piece_spans(&v, ':');
                let mut k: usize = 0;
                while k < spans.len()
                    invariant
                        v@ == raw@,
                        spans.len() == pieces(v@, ':').len(),
                        forall|j: int|
                            #![trigger spans@[j]]
                            0 <= j < spans.len() ==> spans@[j].0 < spans@[j].1 <= v.len(),
                        forall|j: int|
                            #![trigger spans@[j]]
                            0 <= j < spans.len() ==> v@.subrange(
                                spans@[j].0 as int,
                                spans@[j].1 as int,
                            ) == pieces(v@, ':')[j],
                        k <= spans.len(),
                        views(parts@) == pieces(v@, ':').take(k as int),
                    decreases spans.len() - k,
                {
                    let (a, b) = spans[k];
                    assert(spans@[k as int] == (a, b));
                    let piece = string_of(&v, a, b);
                    assert(piece@ == pieces(v@, ':')[k as int]);
                    let ghost before = parts@;
                    parts.push(piece);
                    assert(parts@ == before.push(piece));
                    assert(views(parts@) =~= views(before).push(piece@));
                    assert(pieces(v@, ':').take(k + 1) =~= pieces(v@, ':').take(k as int).push(
                        pieces(v@, ':')[k as int],
                    ));
                    k = k + 1;
                }
                assert(pieces(v@, ':').take(k as int) =~= pieces(v@, ':'));
            },
        }
        Selector { parts, keyword }
    }

    pub fn is_unary(&self) -> (b: bool)
        ensures
            b == (!self.keyword && self@.len() == 1),
    {
        !self.keyword && self.parts.len() == 1
    }

    /// Reconstruct the full selector string (e.g. `foo:bar:`).
    pub fn to_string(&self) -> (s: String)
        ensures
            s@ == selector_text(self@, self.keyword),
    {
        if self.is_unary() {
            self.parts[0].clone()
        } else {
            let mut s = String::new();
            let mut i: usize = 0;
            while i < self.parts.len()
                invariant
                    i <= self.parts.len(),
                    s@ == colon_join(self@.take(i as int)),
                decreases self.parts.len() - i,
            {
                proof {
                    lemma_colon_join_push(self@.take(i as int), self@[i as int]);
                    assert(self@.take(i as int).push(self@[i as int]) =~= self@.take(i + 1));
                }
                append_string(&mut s, &self.parts[i]);
                append_str(&mut s, ":");
                proof {
                    reveal_strlit(":");
                }
                i = i + 1;
            }
            assert(self@.take(i as int) =~= self@);
            s
        }
    }
}

/// Whether two selectors have the same parts.
pub fn same_selector(a: &Selector, b: &Selector) -> (r: bool)
    ensures
        r == (a@ == b@),
{
    assert(a@.len() == a.parts@.len() && b@.len() == b.parts@.len());
    if a.parts.len() != b.parts.len() {
        return false;
    }
    let mut i: usize = 0;
    while i < a.parts.len()
        invariant
            a.parts.len() == b.parts.len(),
            i <= a.parts.len(),
            forall|j: int| 0 <= j < i ==> a@[j] == b@[j],
        decreases a.parts.len() - i,
    {
        if !str_eq(a.parts[i].as_str(), b.parts[i].as_str()) {
            assert(a@[i as int] != b@[i as int]);
            return false;
        }
        i = i + 1;
    }
    assert(a@ =~= b@);
    true
}

/// Two selectors are equal when they have the same parts, however they
/// were written.
impl PartialEq for Selector {
    fn eq(&self, other: &Self) -> (r: bool) {
        same_selector(self, other)
    }
}

impl vstd::std_specs::cmp::PartialEqSpecImpl for Selector {
    open spec fn obeys_eq_spec() -> bool {
        true
    }

    open spec fn eq_spec(&self, other: &Self) -> bool {
        self@ == other@
    }
}

impl Eq for Selector {
}

impl core::hash::Hash for Selector {
    /// Hashes the parts alone, as equality compares them alone.
    #[verifier::external_body]
    fn hash<H: core::hash::Hasher>(&self, state: &mut H) {
        self.parts.hash(state)
    }
}

/// An entry in the selector database.
#[derive(Debug, Clone)]
pub struct SelectorEntry {
    pub selector: Selector,
    /// The class or protocol that defines this selector.
    pub defined_in: String,
    pub is_class_method: bool,
    /// Full signature for completion display.
    pub signature: String,
}

/// The entries whose selector has the parts `sel`, in order.
pub open spec fn matching(entries: Seq<SelectorEntry>, sel: Seq<Seq<char>>) -> Seq<SelectorEntry>
    decreases entries.len(),
{
    if entries.len() == 0 {
        seq![]
    } else {
        let rest = matching(entries.drop_last(), sel);
        if entries.last().selector@ == sel {
            rest.push(entries.last())
        } else {
            rest
        }
    }
}

/// All entries stored under keys that start with `prefix`, bucket by bucket.
pub open spec fn completions(
    buckets: Seq<(Seq<char>, Seq<SelectorEntry>)>,
    prefix: Seq<char>,
) -> Seq<SelectorEntry>
    decreases buckets.len(),
{
    if buckets.len() == 0 {
        seq![]
    } else {
        let rest = completions(buckets.drop_last(), prefix);
        if starts_with(buckets.last().0, prefix) {
            rest + buckets.last().1
        } else {
            rest
        }
    }
}

/// The entries whose selector text parses to the same parts as `raw`.
pub open spec fn find_spec(
    buckets: Seq<(Seq<char>, Seq<SelectorEntry>)>,
    raw: Seq<char>,
) -> Seq<SelectorEntry> {
    let sel = parse_spec(raw);
    if sel.len() == 0 {
        seq![]
    } else {
        matching(values_of(buckets, sel[0]), sel)
    }
}

/// The database after inserting `e` (grouped under its first part).
pub open spec fn insert_spec(
    buckets: Seq<(Seq<char>, Seq<SelectorEntry>)>,
    e: SelectorEntry,
) -> Seq<(Seq<char>, Seq<SelectorEntry>)> {
    if e.selector@.len() == 0 {
        buckets
    } else {
        push_value(buckets, e.selector@[0], e)
    }
}

/// Every entry is stored under the first part of its selector.
pub open spec fn entries_keyed(buckets: Seq<(Seq<char>, Seq<SelectorEntry>)>) -> bool {
    forall|i: int, j: int|
        0 <= i < buckets.len() && 0 <= j < buckets[i].1.len() ==> #[trigger] buckets[i].1[j].selector@.len()
            > 0 && buckets[i].1[j].selector@[0] == buckets[i].0
}

/// In-memory selector lookup table.
pub struct SelectorDb {
    /// first_part → list of entries with that first part.
    index: MultiMap<SelectorEntry>,
}

impl SelectorDb {
    pub closed spec fn wf(&self) -> bool {
        &&& self.index.wf()
        &&& distinct_keys(self.index.view())
        &&& entries_keyed(self.index.view())
    }

    /// The buckets of the table: first part and entries, in insertion order.
    pub closed spec fn buckets(&self) -> Seq<(Seq<char>, Seq<SelectorEntry>)> {
        self.index.view()
    }

    pub fn new() -> (db: Self)
        ensures
            db.wf(),
            db.buckets() == Seq::<(Seq<char>, Seq<SelectorEntry>)>::empty(),
    {
        SelectorDb { index: MultiMap::new() }
    }

    pub fn insert(&mut self, entry: SelectorEntry)
        requires
            old(self).wf(),
        ensures
            final(self).wf(),
            final(self).buckets() == insert_spec(old(self).buckets(), entry),
    {
        if entry.selector.parts.len() > 0 {
            let first = entry.selector.parts[0].clone();
            let ghost old_b = self.index.view();
            self.index.push(first, entry);
            assert(entries_keyed(self.index.view())) by {
                let nb = self.index.view();
                assert forall|i: int, j: int|
                    0 <= i < nb.len() && 0 <= j < nb[i].1.len() implies #[trigger] nb[i].1[j].selector@.len()
                    > 0 && nb[i].1[j].selector@[0] == nb[i].0 by {
                    match key_index(old_b, entry.selector@[0]) {
                        Some(b) => {
                            if i == b && j == old_b[b].1.len() {
                            } else {
                                assert(nb[i].1[j] == old_b[i].1[j]);
                            }
                        },
                        None => {
                            if i == old_b.len() {
                            } else {
                                assert(nb[i] == old_b[i]);
                            }
                        },
                    }
                }
            }
        }
    }

    /// All selectors whose first part starts with `prefix`.
    pub fn complete(&self, prefix: &str) -> (r: Vec<&SelectorEntry>)
        requires
            self.wf(),
        ensures
            r@.map_values(|e: &SelectorEntry| *e) == completions(self.buckets(), prefix@),
    {
        let p = chars_of(prefix);
        let mut r: Vec<&SelectorEntry> = Vec::new();
        let n = self.index.len();
        let mut i: usize = 0;
        while i < n
            invariant
                self.wf(),
                p@ == prefix@,
                n == self.buckets().len(),
                i <= n,
                r@.map_values(|e: &SelectorEntry| *e) == completions(
                    self.buckets().take(i as int),
                    prefix@,
                ),
            decreases n - i,
        {
            let key = self.index.key_at(i);
            let kv = chars_of(key.as_str());
            assert(kv@.subrange(0, kv.len() as int) =~= kv@);
            let take_it = range_starts_with(&kv, 0, kv.len(), &p);
            let ghost before = r@.map_values(|e: &SelectorEntry| *e);
            assert(self.buckets().take(i + 1).drop_last() =~= self.buckets().take(i as int));
            if take_it {
                let list = self.index.values_at(i);
                let mut j: usize = 0;
                while j < list.len()
                    invariant
                        j <= list.len(),
                        r@.map_values(|e: &SelectorEntry| *e) == before + list@.take(j as int),
                    decreases list.len() - j,
                {
                    let ghost r0 = r@;
                    r.push(&list[j]);
                    assert(r@ == r0.push(&list@[j as int]));
                    assert(r@.map_values(|e: &SelectorEntry| *e) =~= r0.map_values(
                        |e: &SelectorEntry| *e,
                    ).push(list@[j as int]));
                    assert(list@.take(j + 1) =~= list@.take(j as int).push(list@[j as int]));
                    assert(r@.map_values(|e: &SelectorEntry| *e) =~= before + list@.take(j + 1));
                    j = j + 1;
                }
                assert(list@.take(j as int) =~= list@);
            }
            i = i + 1;
        }
        assert(self.buckets().take(n as int) =~= self.buckets());
        r
    }

    /// Exact lookup by selector string.
    pub fn find(&self, selector_str: &str) -> (r: Vec<&SelectorEntry>)
        requires
            self.wf(),
        ensures
            r@.map_values(|e: &SelectorEntry| *e) == find_spec(self.buckets(), selector_str@),
    {
        let sel = Selector::parse(selector_str);
        let mut r: Vec<&SelectorEntry> = Vec::new();
        if sel.parts.len() == 0 {
            return r;
        }
        match self.index.get(sel.parts[0].as_str()) {
            None => {
                assert(r@.map_values(|e: &SelectorEntry| *e) =~= Seq::<SelectorEntry>::empty());
                r
            },
            Some(list) => {
                let mut j: usize = 0;
                while j < list.len()
                    invariant
                        j <= list.len(),
                        r@.map_values(|e: &SelectorEntry| *e) == matching(
                            list@.take(j as int),
                            sel@,
                        ),
                    decreases list.len() - j,
                {
                    assert(list@.take(j + 1).drop_last() =~= list@.take(j as int));
                    let ghost r0 = r@;
                    if same_selector(&list[j].selector, &sel) {
                        r.push(&list[j]);
                        assert(r@ == r0.push(&list@[j as int]));
                        assert(r@.map_values(|e: &SelectorEntry| *e) =~= r0.map_values(
                            |e: &SelectorEntry| *e,
                        ).push(list@[j as int]));
                    }
                    assert(r@.map_values(|e: &SelectorEntry| *e) =~= matching(
                        list@.take(j + 1),
                        sel@,
                    ));
                    j = j + 1;
                }
                assert(list@.take(j as int) =~= list@);
                r
            },
        }
    }
}

pub proof fn lemma_matching_push(entries: Seq<SelectorEntry>, e: SelectorEntry, sel: Seq<Seq<char>>)
    ensures
        matching(entries.push(e), sel) == if e.selector@ == sel {
            matching(entries, sel).push(e)
        } else {
            matching(entries, sel)
        },
{
    assert(entries.push(e).drop_last() =~= entries);
}

/// After inserting an entry whose selector has parts, looking up its
/// selector text yields what the lookup yielded before, followed by the new
/// entry.
pub proof fn lemma_insert_then_find(
    buckets: Seq<(Seq<char>, Seq<SelectorEntry>)>,
    e: SelectorEntry,
    raw: Seq<char>,
)
    requires
        distinct_keys(buckets),
        e.selector@.len() > 0,
        parse_spec(raw) == e.selector@,
    ensures
        find_spec(insert_spec(buckets, e), raw) == find_spec(buckets, raw).push(e),
{
    let sel = e.selector@;
    if sel.len() > 0 {
        let k = sel[0];
        let nb = push_value(buckets, k, e);
        assert(insert_spec(buckets, e) == nb);
        assert(find_spec(buckets, raw) == matching(values_of(buckets, k), sel));
        assert(find_spec(nb, raw) == matching(values_of(nb, k), sel));
        match key_index(buckets, k) {
            Some(i) => {
                assert(nb[i].0 == k);
                lemma_key_index_unique(nb, k, i);
                assert(distinct_keys(nb)) by {
                    assert forall|a: int, b: int| 0 <= a < b < nb.len() implies nb[a].0 != nb[b].0 by {
                        assert(nb[a].0 == buckets[a].0);
                        assert(nb[b].0 == buckets[b].0);
                    }
                }
                lemma_key_index_unique(nb, k, i);
                lemma_matching_push(buckets[i].1, e, sel);
                assert(values_of(nb, k) == buckets[i].1.push(e));
                assert(values_of(buckets, k) == buckets[i].1);
                assert(find_spec(nb, raw) == matching(buckets[i].1.push(e), sel));
            },
            None => {
                let i = buckets.len() as int;
                assert(distinct_keys(nb)) by {
                    assert forall|a: int, b: int| 0 <= a < b < nb.len() implies nb[a].0 != nb[b].0 by {
                        if b == i {
                            assert(buckets[a].0 != k);
                        }
                    }
                }
                lemma_key_index_unique(nb, k, i);
                lemma_matching_push(Seq::<SelectorEntry>::empty(), e, sel);
                assert(Seq::<SelectorEntry>::empty().push(e) =~= seq![e]);
                assert(values_of(nb, k) == seq![e]);
                assert(values_of(buckets, k) == Seq::<SelectorEntry>::empty());
                assert(find_spec(nb, raw) == matching(seq![e], sel));
                assert(matching(Seq::<SelectorEntry>::empty(), sel) =~= Seq::<SelectorEntry>::empty());
            },
        }
    }
}

/// The table after inserting `es`, in turn, into an empty one.
pub open spec fn inserted(es: Seq<SelectorEntry>) -> Seq<(Seq<char>, Seq<SelectorEntry>)>
    decreases es.len(),
{
    if es.len() == 0 {
        seq![]
    } else {
        insert_spec(inserted(es.drop_last()), es.last())
    }
}

/// The entries of `es` that complete `prefix`: those whose selector has a
/// first part that starts with it, in order.
pub open spec fn completing(es: Seq<SelectorEntry>, prefix: Seq<char>) -> Seq<SelectorEntry>
    decreases es.len(),
{
    if es.len() == 0 {
        seq![]
    } else {
        let r = completing(es.drop_last(), prefix);
        let e = es.last();
        if e.selector@.len() > 0 && starts_with(e.selector@[0], prefix) {
            r.push(e)
        } else {
            r
        }
    }
}

proof fn lemma_completions_update(
    b: Seq<(Seq<char>, Seq<SelectorEntry>)>,
    i: int,
    e: SelectorEntry,
    p: Seq<char>,
)
    requires
        0 <= i < b.len(),
    ensures
        completions(b.update(i, (b[i].0, b[i].1.push(e))), p).to_multiset() == if starts_with(b[i].0, p) {
            completions(b, p).to_multiset().insert(e)
        } else {
            completions(b, p).to_multiset()
        },
    decreases b.len(),
{
    broadcast use Seq::to_multiset_ensures;
    let nb = b.update(i, (b[i].0, b[i].1.push(e)));
    let rest = completions(b.drop_last(), p);
    if i == b.len() - 1 {
        assert(nb.drop_last() =~= b.drop_last());
        if starts_with(b[i].0, p) {
            lemma_multiset_commutative(rest, b[i].1.push(e));
            lemma_multiset_commutative(rest, b[i].1);
            b[i].1.to_multiset_ensures();
            assert(b[i].1.push(e).to_multiset() =~= b[i].1.to_multiset().insert(e));
            assert(rest.to_multiset().add(b[i].1.push(e).to_multiset()) =~= rest.to_multiset().add(
                b[i].1.to_multiset(),
            ).insert(e));
        }
    } else {
        assert(nb.drop_last() =~= b.drop_last().update(i, (b[i].0, b[i].1.push(e))));
        lemma_completions_update(b.drop_last(), i, e, p);
        let nrest = completions(nb.drop_last(), p);
        if starts_with(b.last().0, p) {
            lemma_multiset_commutative(nrest, nb.last().1);
            lemma_multiset_commutative(rest, b.last().1);
            if starts_with(b[i].0, p) {
                assert(nrest.to_multiset().add(b.last().1.to_multiset()) =~= rest.to_multiset().add(
                    b.last().1.to_multiset(),
                ).insert(e));
            }
        }
    }
}

proof fn lemma_completions_insert(
    b: Seq<(Seq<char>, Seq<SelectorEntry>)>,
    e: SelectorEntry,
    p: Seq<char>,
)
    requires
        distinct_keys(b),
    ensures
        distinct_keys(insert_spec(b, e)),
        completions(insert_spec(b, e), p).to_multiset() == if e.selector@.len() > 0 && starts_with(
            e.selector@[0],
            p,
        ) {
            completions(b, p).to_multiset().insert(e)
        } else {
            completions(b, p).to_multiset()
        },
{
    broadcast use Seq::to_multiset_ensures;
    if e.selector@.len() > 0 {
        let k = e.selector@[0];
        lemma_push_then_values(b, k, e, k);
        match key_index(b, k) {
            Some(i) => {
                assert(b[i].0 == k);
                lemma_completions_update(b, i, e, p);
            },
            None => {
                let nb = b.push((k, seq![e]));
                assert(nb.drop_last() =~= b);
                if starts_with(k, p) {
                    lemma_multiset_commutative(completions(b, p), seq![e]);
                    assert(seq![e] =~= Seq::<SelectorEntry>::empty().push(e));
                    Seq::<SelectorEntry>::empty().to_multiset_ensures();
                    assert(seq![e].to_multiset() =~= vstd::multiset::Multiset::<SelectorEntry>::empty().insert(e));
                    assert(completions(b, p).to_multiset().add(seq![e].to_multiset()) =~= completions(
                        b,
                        p,
                    ).to_multiset().insert(e));
                }
            },
        }
    }
}

/// Completion is exact: after any sequence of insertions into an empty
/// table, `complete(prefix)` gives exactly the inserted entries whose
/// selector's first part starts with `prefix`, each as often as it was
/// inserted (grouped by first part).
pub proof fn lemma_complete_after_inserts(es: Seq<SelectorEntry>, prefix: Seq<char>)
    ensures
        distinct_keys(inserted(es)),
        completions(inserted(es), prefix).to_multiset() == completing(es, prefix).to_multiset(),
    decreases es.len(),
{
    broadcast use Seq::to_multiset_ensures;
    if es.len() == 0 {
        assert(completions(inserted(es), prefix) =~= Seq::<SelectorEntry>::empty());
    } else {
        lemma_complete_after_inserts(es.drop_last(), prefix);
        lemma_completions_insert(inserted(es.drop_last()), es.last(), prefix);
        completing(es.drop_last(), prefix).to_multiset_ensures();
    }
}

} // verus!
