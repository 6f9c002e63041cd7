use vstd::prelude::*;
use crate::error::Error;
use crate::handler::{handler_ids, Handler};
use crate::mime::{essence_of, MimeType};

verus! {

/// One association: a mimetype key (possibly a wildcard) and its handlers,
/// the first of which is the default.
pub struct Entry {
    pub mime: MimeType,
    pub handlers: Vec<Handler>,
}

/// A mapping from mimetype keys to ordered, duplicate-free handler lists.
pub struct AssocStore {
    entries: Vec<Entry>,
}

pub open spec fn no_duplicates(s: Seq<Seq<char>>) -> bool {
    forall|i: int, j: int| 0 <= i < s.len() && 0 <= j < s.len() && i != j ==> s[i] != s[j]
}

/// Copies a handler list.
pub fn copy_handlers(v: &Vec<Handler>) -> (r: Vec<Handler>)
    ensures
        handler_ids(r@) == handler_ids(v@),
{
    let mut r: Vec<Handler> = Vec::new();
    let mut i: usize = 0;
    while i < v.len()
        invariant
            i <= v@.len(),
            handler_ids(r@) =~= handler_ids(v@.subrange(0, i as int)),
        decreases v@.len() - i,
    {
        r.push(v[i].duplicate());
        i = i + 1;
        assert(handler_ids(v@.subrange(0, i as int)) =~= handler_ids(v@.subrange(0, i - 1)).push(v@[i - 1]@));
    }
    assert(v@.subrange(0, i as int) =~= v@);
    r
}

/// Whether `h` is among `v`.
pub fn contains_handler(v: &Vec<Handler>, h: &Handler) -> (r: bool)
    ensures
        r == handler_ids(v@).contains(h@),
{
    let mut i: usize = 0;
    while i < v.len()
        invariant
            i <= v@.len(),
            forall|j: int| 0 <= j < i ==> v@[j]@ != h@,
        decreases v@.len() - i,
    {
        if v[i].same_as(h) {
            assert(handler_ids(v@)[i as int] == h@);
            return true;
        }
        i = i + 1;
    }
    assert(!handler_ids(v@).contains(h@)) by {
        if handler_ids(v@).contains(h@) {
            let j = choose|j: int| 0 <= j < handler_ids(v@).len() && handler_ids(v@)[j] == h@;
            assert(v@[j]@ == h@);
        }
    }
    false
}

impl AssocStore {
    pub closed spec fn key_at(&self, i: int) -> (Seq<char>, Seq<char>) {
        self.entries@[i].mime@
    }

    pub closed spec fn has_key(&self, k: (Seq<char>, Seq<char>)) -> bool {
        exists|i: int| 0 <= i < self.entries@.len() && self.entries@[i].mime@ == k
    }

    pub closed spec fn index_of(&self, k: (Seq<char>, Seq<char>)) -> int {
        choose|i: int| 0 <= i < self.entries@.len() && self.entries@[i].mime@ == k
    }

    /// Keys are unique and no list holds a handler twice.
    pub closed spec fn wf(&self) -> bool {
        &&& forall|i: int, j: int|
            0 <= i < self.entries@.len() && 0 <= j < self.entries@.len() && i != j
                ==> #[trigger] self.entries@[i].mime@ != #[trigger] self.entries@[j].mime@
        &&& forall|i: int|
            0 <= i < self.entries@.len() ==> no_duplicates(#[trigger] handler_ids(self.entries@[i].handlers@))
                && self.entries@[i].handlers@.len() > 0
    }

    proof fn lemma_view_at(&self, i: int)
        requires
            self.wf(),
            0 <= i < self.entries@.len(),
        ensures
            self@.contains_key(self.entries@[i].mime@),
            self@[self.entries@[i].mime@] == handler_ids(self.entries@[i].handlers@),
    {
        let k = self.entries@[i].mime@;
        assert(self.has_key(k));
        let j = self.index_of(k);
        assert(self.entries@[j].mime@ == k);
    }

    /// Every list in the store is non-empty and duplicate-free.
    pub proof fn lemma_lists_wf(&self, k: (Seq<char>, Seq<char>))
        requires
            self.wf(),
            self@.contains_key(k),
        ensures
            no_duplicates(self@[k]),
            self@[k].len() > 0,
    {
        let j = self.index_of(k);
        assert(self.has_key(k));
        assert(0 <= j < self.entries@.len());
    }

    pub fn new() -> (r: AssocStore)
        ensures
            r.wf(),
            r@ == Map::<(Seq<char>, Seq<char>), Seq<Seq<char>>>::empty(),
    {
        let r = AssocStore { entries: Vec::new() };
        assert(r@ =~= Map::<(Seq<char>, Seq<char>), Seq<Seq<char>>>::empty());
        r
    }

    fn find(&self, m: &MimeType) -> (r: Option<usize>)
        requires
            self.wf(),
        ensures
            r matches Some(i) ==> i < self.entries@.len() && self.entries@[i as int].mime@ == m@,
            r is None ==> !self@.contains_key(m@),
    {
        let mut i: usize = 0;
        while i < self.entries.len()
            invariant
                i <= self.entries@.len(),
                forall|j: int| 0 <= j < i ==> self.entries@[j].mime@ != m@,
            decreases self.entries@.len() - i,
        {
            if self.entries[i].mime.same_as(m) {
                return Some(i);
            }
            i = i + 1;
        }
        None
    }

    /// The handlers stored under exactly the key `m`, if any.
    pub fn lookup(&self, m: &MimeType) -> (r: Option<Vec<Handler>>)
        requires
            self.wf(),
        ensures
            r is Some <==> self@.contains_key(m@),
            r matches Some(v) ==> handler_ids(v@) == self@[m@],
    {
        match self.find(m) {
            Some(i) => {
                proof {
                    self.lemma_view_at(i as int);
                }
                Some(copy_handlers(&self.entries[i].handlers))
            },
            None => None,
        }
    }

    /// Replaces the whole entry for the literal key `m` with the single handler `h`.
    pub fn set_handler(&mut self, m: MimeType, h: Handler)
        requires
            old(self).wf(),
        ensures
            final(self).wf(),
            final(self)@ == old(self)@.insert(m@, seq![h@]),
    {
        let mut hs: Vec<Handler> = Vec::new();
        hs.push(h);
        assert(handler_ids(hs@) =~= seq![hs@[0]@]);
        self.put(m, hs);
    }


    /// Appends `h` to the list for the literal key `m` unless it is already
    /// there; creates a one-handler list where the key is absent.
    pub fn add_handler(&mut self, m: MimeType, h: Handler)
        requires
            old(self).wf(),
        ensures
            final(self).wf(),
            final(self)@ == added(old(self)@, m@, h@),
    {
        match self.find(&m) {
            Some(i) => {
                proof {
                    self.lemma_view_at(i as int);
                }
                if !contains_handler(&self.entries[i].handlers, &h) {
                    let mut hs = copy_handlers(&self.entries[i].handlers);
                    let ghost before = handler_ids(hs@);
                    hs.push(h);
                    assert(handler_ids(hs@) =~= before.push(hs@.last()@));
                    assert(no_duplicates(handler_ids(hs@))) by {
                        assert(no_duplicates(before));
                        assert forall|a: int, b: int|
                            0 <= a < handler_ids(hs@).len() && 0 <= b < handler_ids(hs@).len() && a != b
                            implies handler_ids(hs@)[a] != handler_ids(hs@)[b] by {
                            if a == before.len() {
                                assert(handler_ids(hs@)[b] == before[b]);
                            } else if b == before.len() {
                                assert(handler_ids(hs@)[a] == before[a]);
                            }
                        }
                    }
                    self.put(m, hs);
                }
            },
            None => {
                self.set_handler(m, h);
            },
        }
    }

    /// Deletes the whole entry for the literal key `m`; fails with `NotFound`,
    /// leaving the store as it was, where there is none.
    pub fn remove_handler(&mut self, m: &MimeType) -> (r: Result<(), Error>)
        requires
            old(self).wf(),
        ensures
            final(self).wf(),
            r is Ok <==> old(self)@.contains_key(m@),
            r is Ok ==> final(self)@ == old(self)@.remove(m@),
            r is Err ==> final(self)@ == old(self)@,
            r matches Err(e) ==> (e matches Error::NotFound(s) && s@ == essence_of(m@)),
    {
        let ghost pre = *self;
        match self.find(m) {
            None => Err(Error::NotFound(m.essence())),
            Some(i) => {
                proof {
                    pre.lemma_view_at(i as int);
                }
                self.entries.remove(i);
                assert(self.wf()) by {
                    assert forall|a: int, b: int|
                        0 <= a < self.entries@.len() && 0 <= b < self.entries@.len() && a != b
                        implies #[trigger] self.entries@[a].mime@ != #[trigger] self.entries@[b].mime@ by {
                        let pa = if a < i { a } else { a + 1 };
                        let pb = if b < i { b } else { b + 1 };
                        assert(self.entries@[a] == pre.entries@[pa]);
                        assert(self.entries@[b] == pre.entries@[pb]);
                    }
                    assert forall|a: int| 0 <= a < self.entries@.len()
                        implies no_duplicates(#[trigger] handler_ids(self.entries@[a].handlers@))
                            && self.entries@[a].handlers@.len() > 0 by {
                        let pa = if a < i { a } else { a + 1 };
                        assert(self.entries@[a] == pre.entries@[pa]);
                        assert(no_duplicates(handler_ids(pre.entries@[pa].handlers@)));
                        assert(pre.entries@[pa].handlers@.len() > 0);
                    }
                }
                let ghost mv = m@;
                assert forall|k| #[trigger] self@.contains_key(k) <==> pre@.remove(mv).contains_key(k) by {
                    if self.has_key(k) {
                        let j = self.index_of(k);
                        let pj = if j < i { j } else { j + 1 };
                        assert(self.entries@[j] == pre.entries@[pj]);
                        assert(pre.entries@[pj].mime@ != pre.entries@[i as int].mime@);
                    }
                    if pre.has_key(k) && k != mv {
                        let pj = pre.index_of(k);
                        assert(pj != i);
                        let j = if pj < i { pj } else { pj - 1 };
                        assert(self.entries@[j] == pre.entries@[pj]);
                    }
                }
                assert forall|k| #[trigger] self@.contains_key(k) implies self@[k] == pre@.remove(mv)[k] by {
                    let j = self.index_of(k);
                    self.lemma_view_at(j);
                    let pj = if j < i { j } else { j + 1 };
                    assert(self.entries@[j] == pre.entries@[pj]);
                    pre.lemma_view_at(pj);
                }
                assert(self@ =~= pre@.remove(mv));
                Ok(())
            },
        }
    }

    pub closed spec fn count(&self) -> nat {
        self.entries@.len()
    }

    /// The number of entries.
    pub fn entry_count(&self) -> (r: usize)
        ensures
            r == self.count(),
    {
        self.entries.len()
    }

    /// Each key of the store is the key of one of its entries.
    pub proof fn lemma_keys_listed(&self, k: (Seq<char>, Seq<char>))
        requires
            self@.contains_key(k),
        ensures
            exists|i: int| 0 <= i < self.count() && self.key_at(i) == k,
    {
        assert(self.has_key(k));
        let i = choose|i: int| 0 <= i < self.entries@.len() && self.entries@[i].mime@ == k;
        assert(self.key_at(i) == k);
    }

    /// The `i`-th entry: a key of the store and its list.
    pub fn entry_at(&self, i: usize) -> (r: (MimeType, Vec<Handler>))
        requires
            self.wf(),
            i < self.count(),
        ensures
            r.0@ == self.key_at(i as int),
            self@.contains_key(r.0@),
            handler_ids(r.1@) == self@[r.0@],
    {
        proof {
            self.lemma_view_at(i as int);
        }
        (self.entries[i].mime.duplicate(), copy_handlers(&self.entries[i].handlers))
    }

    /// Puts a list under key `m`, replacing any list there.
    fn put(&mut self, m: MimeType, hs: Vec<Handler>)
        requires
            old(self).wf(),
            no_duplicates(handler_ids(hs@)),
            hs@.len() > 0,
        ensures
            final(self).wf(),
            final(self)@ == old(self)@.insert(m@, handler_ids(hs@)),
    {
        let ghost mv = m@;
        let ghost ids = handler_ids(hs@);
        let ghost pre = *self;
        match self.find(&m) {
            Some(i) => {
                self.entries.set(i, Entry { mime: m, handlers: hs });
                assert(self.wf()) by {
                    assert forall|a: int, b: int|
                        0 <= a < self.entries@.len() && 0 <= b < self.entries@.len() && a != b
                        implies #[trigger] self.entries@[a].mime@ != #[trigger] self.entries@[b].mime@ by {
                        assert(pre.entries@[a].mime@ == self.entries@[a].mime@);
                        assert(pre.entries@[b].mime@ == self.entries@[b].mime@);
                    }
                    assert forall|a: int| 0 <= a < self.entries@.len()
                        implies no_duplicates(#[trigger] handler_ids(self.entries@[a].handlers@))
                            && self.entries@[a].handlers@.len() > 0 by {
                        if a != i {
                            assert(self.entries@[a] == pre.entries@[a]);
                        }
                    }
                }
                assert forall|k| #[trigger] self@.contains_key(k) <==> pre@.insert(mv, ids).contains_key(k) by {
                    if self.has_key(k) {
                        let j = self.index_of(k);
                        if j != i {
                            assert(pre.entries@[j] == self.entries@[j]);
                        }
                    }
                    if pre.has_key(k) {
                        let j = pre.index_of(k);
                        if j != i {
                            assert(pre.entries@[j] == self.entries@[j]);
                        } else {
                            assert(self.entries@[i as int].mime@ == mv);
                        }
                    }
                    if k == mv {
                        assert(self.entries@[i as int].mime@ == mv);
                    }
                }
                assert forall|k| #[trigger] self@.contains_key(k) implies self@[k] == pre@.insert(mv, ids)[k] by {
                    let j = self.index_of(k);
                    self.lemma_view_at(j);
                    if j != i {
                        assert(pre.entries@[j] == self.entries@[j]);
                        pre.lemma_view_at(j);
                    }
                }
                assert(self@ =~= pre@.insert(mv, ids));
            },
            None => {
                self.entries.push(Entry { mime: m, handlers: hs });
                let ghost n: int = self.entries@.len() - 1;
                assert(self.wf()) by {
                    assert forall|a: int, b: int|
                        0 <= a < self.entries@.len() && 0 <= b < self.entries@.len() && a != b
                        implies #[trigger] self.entries@[a].mime@ != #[trigger] self.entries@[b].mime@ by {
                        if a < n {
                            assert(self.entries@[a] == pre.entries@[a]);
                            pre.lemma_view_at(a);
                        }
                        if b < n {
                            assert(self.entries@[b] == pre.entries@[b]);
                            pre.lemma_view_at(b);
                        }
                    }
                    assert forall|a: int| 0 <= a < self.entries@.len()
                        implies no_duplicates(#[trigger] handler_ids(self.entries@[a].handlers@))
                            && self.entries@[a].handlers@.len() > 0 by {
                        if a < n {
                            assert(self.entries@[a] == pre.entries@[a]);
                        }
                    }
                }
                assert forall|k| #[trigger] self@.contains_key(k) <==> pre@.insert(mv, ids).contains_key(k) by {
                    if self.has_key(k) {
                        let j = self.index_of(k);
                        if j < n {
                            assert(pre.entries@[j] == self.entries@[j]);
                        }
                    }
                    if pre.has_key(k) {
                        let j = pre.index_of(k);
                        assert(pre.entries@[j] == self.entries@[j]);
                    }
                    if k == mv {
                        assert(self.entries@[n].mime@ == mv);
                    }
                }
                assert forall|k| #[trigger] self@.contains_key(k) implies self@[k] == pre@.insert(mv, ids)[k] by {
                    let j = self.index_of(k);
                    self.lemma_view_at(j);
                    if j < n {
                        assert(pre.entries@[j] == self.entries@[j]);
                        pre.lemma_view_at(j);
                    }
                }
                assert(self@ =~= pre@.insert(mv, ids));
            },
        }
    }
}

/// The association list after `add_handler(m, h)`.
pub open spec fn added(
    s: Map<(Seq<char>, Seq<char>), Seq<Seq<char>>>,
    m: (Seq<char>, Seq<char>),
    h: Seq<char>,
) -> Map<(Seq<char>, Seq<char>), Seq<Seq<char>>> {
    if s.contains_key(m) {
        if s[m].contains(h) {
            s
        } else {
            s.insert(m, s[m].push(h))
        }
    } else {
        s.insert(m, seq![h])
    }
}

/// Adding the same handler to the same key a second time changes nothing: in
/// particular the length of that key's list stays what the first addition made it.
pub proof fn law_add_handler_idempotent(s: Map<(Seq<char>, Seq<char>), Seq<Seq<char>>>, m: (Seq<char>, Seq<char>), h: Seq<char>)
    ensures
        added(added(s, m, h), m, h) == added(s, m, h),
        added(added(s, m, h), m, h)[m].len() == added(s, m, h)[m].len(),
{
    let once = added(s, m, h);
    assert(once.contains_key(m));
    if s.contains_key(m) && !s[m].contains(h) {
        assert(once[m].last() == h);
        assert(once[m].contains(h));
    } else if !s.contains_key(m) {
        assert(once[m][0] == h);
        assert(once[m].contains(h));
    }
}

impl View for AssocStore {
    type V = Map<(Seq<char>, Seq<char>), Seq<Seq<char>>>;

    closed spec fn view(&self) -> Map<(Seq<char>, Seq<char>), Seq<Seq<char>>> {
        Map::new(
            |k: (Seq<char>, Seq<char>)| self.has_key(k),
            |k: (Seq<char>, Seq<char>)| handler_ids(self.entries@[self.index_of(k)].handlers@),
        )
    }
}

} // verus!
