use vstd::prelude::*;
use crate::dispatch::strings_view;
use crate::handler::{handler_ids, Handler};
use crate::mime::{essence_of, MimeType};
use crate::resolver::AssocMap;
use crate::store::{added, AssocStore};

verus! {

/// The characters of `s`.
pub fn chars_of(s: &str) -> (r: Vec<char>)
    ensures
        r@ == s@,
{
    let n = s.unicode_len();
    let mut r: Vec<char> = Vec::new();
    let mut i: usize = 0;
    while i < n
        invariant
            n == s@.len(),
            i <= n,
            r@ == s@.subrange(0, i as int),
        decreases n - i,
    {
        r.push(s.get_char(i));
        i = i + 1;
        assert(r@ =~= s@.subrange(0, i as int));
    }
    assert(s@.subrange(0, n as int) =~= s@);
    r
}

/// The first position of `c` in `s`, if any.
pub open spec fn first_at(s: Seq<char>, c: char, i: int) -> bool {
    0 <= i < s.len() && s[i] == c && forall|j: int| 0 <= j < i ==> s[j] != c
}

/// The non-empty fields of `s` between `sep` separators: what has been closed
/// so far, and the field still open at the end.
pub open spec fn split_acc(s: Seq<char>, sep: char) -> (Seq<Seq<char>>, Seq<char>)
    decreases s.len(),
{
    if s.len() == 0 {
        (Seq::empty(), Seq::empty())
    } else {
        let (done, cur) = split_acc(s.drop_last(), sep);
        if s.last() == sep {
            (if cur.len() > 0 { done.push(cur) } else { done }, Seq::empty())
        } else {
            (done, cur.push(s.last()))
        }
    }
}

/// The non-empty `sep`-separated fields of `s`, in order.
pub open spec fn fields(s: Seq<char>, sep: char) -> Seq<Seq<char>> {
    let (done, cur) = split_acc(s, sep);
    if cur.len() > 0 {
        done.push(cur)
    } else {
        done
    }
}

/// What a line `type/subtype=h1;h2;...` of an association file holds: the key
/// split at its first `/`, and the non-empty handler fields after the first `=`.
/// `None` for a line with no `=`, or whose key has no `/`.
pub open spec fn line_spec(line: Seq<char>) -> Option<((Seq<char>, Seq<char>), Seq<Seq<char>>)> {
    if exists|i: int| first_at(line, '=', i) {
        let i = choose|i: int| first_at(line, '=', i);
        let key = line.subrange(0, i);
        if exists|j: int| first_at(key, '/', j) {
            let j = choose|j: int| first_at(key, '/', j);
            Some(((key.subrange(0, j), key.subrange(j + 1, key.len() as int)), fields(line.subrange(i + 1, line.len() as int), ';')))
        } else {
            None
        }
    } else {
        None
    }
}

fn find_char(v: &Vec<char>, c: char, to: usize) -> (r: Option<usize>)
    requires
        to <= v@.len(),
    ensures
        r matches Some(i) ==> first_at(v@.subrange(0, to as int), c, i as int),
        r is None ==> !exists|i: int| first_at(v@.subrange(0, to as int), c, i),
{
    let ghost s = v@.subrange(0, to as int);
    let mut i: usize = 0;
    while i < to
        invariant
            i <= to <= v@.len(),
            s == v@.subrange(0, to as int),
            forall|j: int| 0 <= j < i ==> v@[j] != c,
        decreases to - i,
    {
        if v[i] == c {
            assert(first_at(s, c, i as int));
            return Some(i);
        }
        i = i + 1;
    }
    assert forall|k: int| !first_at(s, c, k) by {
        if 0 <= k < s.len() {
            assert(s[k] == v@[k]);
        }
    }
    None
}

proof fn lemma_first_unique(s: Seq<char>, c: char, i: int, k: int)
    requires
        first_at(s, c, i),
        first_at(s, c, k),
    ensures
        i == k,
{
    if i < k {
        assert(s[i] != c);
    } else if k < i {
        assert(s[k] != c);
    }
}

/// The `sep`-separated non-empty fields of `s` from position `from` on.
pub fn split_fields(s: &str, v: &Vec<char>, from: usize, sep: char) -> (r: Vec<String>)
    requires
        v@ == s@,
        from <= v@.len(),
    ensures
        strings_view(r@) == fields(s@.subrange(from as int, s@.len() as int), sep),
{
    let n = v.len();
    let ghost rest = s@.subrange(from as int, n as int);
    let mut done: Vec<String> = Vec::new();
    let mut start: usize = from;
    let mut i: usize = from;
    assert(rest.subrange(0, 0) =~= Seq::<char>::empty());
    while i < n
        invariant
            n == v@.len(),
            v@ == s@,
            rest == s@.subrange(from as int, n as int),
            from <= start <= i <= n,
            split_acc(rest.subrange(0, i - from), sep) == (strings_view(done@), s@.subrange(start as int, i as int)),
        decreases n - i,
    {
        let ghost pre = rest.subrange(0, i - from);
        let ghost next = rest.subrange(0, i + 1 - from);
        assert(next.drop_last() =~= pre);
        assert(next.last() == v@[i as int]);
        if v[i] == sep {
            if start < i {
                let f = s.substring_char(start, i);
                let ghost before = strings_view(done@);
                done.push(f.to_owned());
                assert(strings_view(done@) =~= before.push(f@));
            }
            start = i + 1;
            assert(s@.subrange(start as int, i + 1) =~= Seq::<char>::empty());
        } else {
            assert(s@.subrange(start as int, i + 1) =~= s@.subrange(start as int, i as int).push(v@[i as int]));
        }
        i = i + 1;
    }
    assert(rest.subrange(0, n - from) =~= rest);
    if start < n {
        let f = s.substring_char(start, n);
        let ghost before = strings_view(done@);
        done.push(f.to_owned());
        assert(strings_view(done@) =~= before.push(f@));
    }
    done
}

fn handlers_of(v: Vec<String>) -> (r: Vec<Handler>)
    ensures
        handler_ids(r@) == strings_view(v@),
{
    let mut r: Vec<Handler> = Vec::new();
    let mut i: usize = 0;
    while i < v.len()
        invariant
            i <= v@.len(),
            handler_ids(r@) =~= strings_view(v@).subrange(0, i as int),
        decreases v@.len() - i,
    {
        let ghost before = handler_ids(r@);
        r.push(Handler::new(v[i].as_str()));
        assert(handler_ids(r@) =~= before.push(v@[i as int]@));
        i = i + 1;
    }
    assert(strings_view(v@).subrange(0, v@.len() as int) =~= strings_view(v@));
    r
}

/// Reads one line of an association file.
pub fn parse_line(line: &str) -> (r: Option<(MimeType, Vec<Handler>)>)
    ensures
        match r {
            Some((m, hs)) => line_spec(line@) == Some((m@, handler_ids(hs@))),
            None => line_spec(line@) is None,
        },
{
    let v = chars_of(line);
    let n = v.len();
    assert(v@.subrange(0, n as int) =~= v@);
    match find_char(&v, '=', n) {
        None => None,
        Some(i) => {
            let ghost key = line@.subrange(0, i as int);
            proof {
                assert forall|k: int| first_at(line@, '=', k) implies k == i by {
                    lemma_first_unique(line@, '=', i as int, k);
                }
                assert(v@.subrange(0, i as int) =~= key);
            }
            match find_char(&v, '/', i) {
                None => {
                    assert(first_at(line@, '=', i as int));
                    None
                },
                Some(j) => {
                    proof {
                        assert forall|k: int| first_at(key, '/', k) implies k == j by {
                            lemma_first_unique(key, '/', j as int, k);
                        }
                    }
                    let ty = line.substring_char(0, j);
                    let sub = line.substring_char(j + 1, i);
                    assert(sub@ =~= key.subrange(j + 1, key.len() as int));
                    assert(ty@ =~= key.subrange(0, j as int));
                    let hs = handlers_of(split_fields(line, &v, i + 1, ';'));
                    proof {
                        assert(first_at(line@, '=', i as int));
                        assert(first_at(key, '/', j as int));
                        let ii = choose|k: int| first_at(line@, '=', k);
                        assert(ii == i);
                        let jj = choose|k: int| first_at(key, '/', k);
                        assert(jj == j);
                        assert(key.len() == i);
                        assert(line_spec(line@) == Some(((ty@, sub@), handler_ids(hs@))));
                    }
                    Some((MimeType::new(ty, sub), hs))
                },
            }
        },
    }
}

/// The association list after adding each of `hs` to key `m`, in order.
pub open spec fn add_all(s: AssocMap, m: (Seq<char>, Seq<char>), hs: Seq<Seq<char>>) -> AssocMap
    decreases hs.len(),
{
    if hs.len() == 0 {
        s
    } else {
        added(add_all(s, m, hs.drop_last()), m, hs.last())
    }
}

/// The name of a section header line `[name]`.
pub open spec fn header_spec(line: Seq<char>) -> Option<Seq<char>> {
    if line.len() >= 2 && line[0] == '[' && line.last() == ']' {
        Some(line.subrange(1, line.len() - 1))
    } else {
        None
    }
}

/// Reading `lines` in order: whether the last header seen names `section`, and
/// the associations read from the lines under such headers so far.
pub open spec fn load_acc(lines: Seq<Seq<char>>, section: Seq<char>) -> (bool, AssocMap)
    decreases lines.len(),
{
    if lines.len() == 0 {
        (false, Map::empty())
    } else {
        let (inside, s) = load_acc(lines.drop_last(), section);
        let l = lines.last();
        match header_spec(l) {
            Some(name) => (name == section, s),
            None => if inside {
                match line_spec(l) {
                    Some((m, hs)) => (true, add_all(s, m, hs)),
                    None => (true, s),
                }
            } else {
                (false, s)
            },
        }
    }
}

pub open spec fn lines_view(lines: Seq<String>) -> Seq<Seq<char>> {
    lines.map_values(|l: String| l@)
}

fn header_name(line: &str) -> (r: Option<&str>)
    ensures
        match r {
            Some(n) => header_spec(line@) == Some(n@),
            None => header_spec(line@) is None,
        },
{
    let n = line.unicode_len();
    if n >= 2 && line.get_char(0) == '[' && line.get_char(n - 1) == ']' {
        Some(line.substring_char(1, n - 1))
    } else {
        None
    }
}

fn add_each(store: &mut AssocStore, m: &MimeType, hs: &Vec<Handler>)
    requires
        old(store).wf(),
    ensures
        final(store).wf(),
        final(store)@ == add_all(old(store)@, m@, handler_ids(hs@)),
{
    let ghost s0 = store@;
    let mut i: usize = 0;
    assert(handler_ids(hs@).subrange(0, 0) =~= Seq::<Seq<char>>::empty());
    while i < hs.len()
        invariant
            i <= hs@.len(),
            store.wf(),
            store@ == add_all(s0, m@, handler_ids(hs@).subrange(0, i as int)),
        decreases hs@.len() - i,
    {
        let ghost pre = handler_ids(hs@).subrange(0, i as int);
        let ghost next = handler_ids(hs@).subrange(0, i + 1);
        assert(next.drop_last() =~= pre);
        store.add_handler(m.duplicate(), hs[i].duplicate());
        i = i + 1;
    }
    assert(handler_ids(hs@).subrange(0, hs@.len() as int) =~= handler_ids(hs@));
}

/// Reads the associations of section `section` of an association file, given
/// as its lines. A handler named twice for a key is kept once.
pub fn load_section(lines: &Vec<String>, section: &str) -> (r: AssocStore)
    ensures
        r.wf(),
        r@ == load_acc(lines_view(lines@), section@).1,
{
    let ghost lv = lines_view(lines@);
    let mut store = AssocStore::new();
    let mut inside = false;
    let wanted = String::from_str(section);
    let mut i: usize = 0;
    assert(lv.subrange(0, 0) =~= Seq::<Seq<char>>::empty());
    while i < lines.len()
        invariant
            i <= lines@.len(),
            lv == lines_view(lines@),
            wanted@ == section@,
            store.wf(),
            load_acc(lv.subrange(0, i as int), section@) == (inside, store@),
        decreases lines@.len() - i,
    {
        let ghost pre = lv.subrange(0, i as int);
        let ghost next = lv.subrange(0, i + 1);
        assert(next.drop_last() =~= pre);
        assert(next.last() == lines@[i as int]@);
        let line = lines[i].as_str();
        match header_name(line) {
            Some(name) => {
                let n = String::from_str(name);
                inside = n == wanted;
            },
            None => {
                if inside {
                    match parse_line(line) {
                        Some((m, hs)) => add_each(&mut store, &m, &hs),
                        None => {},
                    }
                }
            },
        }
        i = i + 1;
    }
    assert(lv.subrange(0, lines@.len() as int) =~= lv);
    store
}

/// The handlers, each followed by `;`.
pub open spec fn joined(hs: Seq<Seq<char>>) -> Seq<char>
    decreases hs.len(),
{
    if hs.len() == 0 {
        Seq::empty()
    } else {
        joined(hs.drop_last()) + hs.last() + seq![';']
    }
}

/// The line `type/subtype=h1;h2;` for one association.
pub open spec fn entry_line(m: (Seq<char>, Seq<char>), hs: Seq<Seq<char>>) -> Seq<char> {
    essence_of(m) + seq!['='] + joined(hs)
}

pub open spec fn header_line(section: Seq<char>) -> Seq<char> {
    seq!['['] + section + seq![']']
}

/// Writes one association as a line of an association file.
pub fn render_line(m: &MimeType, hs: &Vec<Handler>) -> (r: String)
    ensures
        r@ == entry_line(m@, handler_ids(hs@)),
{
    proof {
        reveal_strlit("=");
        reveal_strlit(";");
    }
    let mut r = m.essence().concat("=");
    let ghost head = r@;
    let mut i: usize = 0;
    assert(handler_ids(hs@).subrange(0, 0) =~= Seq::<Seq<char>>::empty());
    while i < hs.len()
        invariant
            i <= hs@.len(),
            head == essence_of(m@) + seq!['='],
            r@ == head + joined(handler_ids(hs@).subrange(0, i as int)),
        decreases hs@.len() - i,
    {
        let ghost pre = handler_ids(hs@).subrange(0, i as int);
        let ghost next = handler_ids(hs@).subrange(0, i + 1);
        assert(next.drop_last() =~= pre);
        proof {
            reveal_strlit(";");
            assert(";"@ =~= seq![';']);
            assert(next.last() == hs@[i as int]@);
        }
        r = r.concat(hs[i].id.as_str()).concat(";");
        assert(r@ =~= head + joined(next));
        i = i + 1;
    }
    assert(handler_ids(hs@).subrange(0, hs@.len() as int) =~= handler_ids(hs@));
    r
}

/// Writes a store as section `section` of an association file: the header,
/// then one line per key.
pub fn render_section(store: &AssocStore, section: &str) -> (r: Vec<String>)
    requires
        store.wf(),
    ensures
        r@.len() == store.count() + 1,
        r@[0]@ == header_line(section@),
        forall|i: int|
            0 <= i < store.count() ==> #[trigger] r@[i + 1]@ == entry_line(store.key_at(i), store@[store.key_at(i)]),
{
    proof {
        reveal_strlit("[");
        reveal_strlit("]");
    }
    let mut r: Vec<String> = Vec::new();
    r.push(String::from_str("[").concat(section).concat("]"));
    assert(r@[0]@ =~= header_line(section@));
    let n = store.entry_count();
    let mut i: usize = 0;
    while i < n
        invariant
            n == store.count(),
            store.wf(),
            i <= n,
            r@.len() == i + 1,
            r@[0]@ == header_line(section@),
            forall|j: int| 0 <= j < i ==> #[trigger] r@[j + 1]@ == entry_line(store.key_at(j), store@[store.key_at(j)]),
        decreases n - i,
    {
        let (m, hs) = store.entry_at(i);
        let line = render_line(&m, &hs);
        let ghost before = r@;
        r.push(line);
        assert forall|j: int| 0 <= j < i + 1 implies #[trigger] r@[j + 1]@ == entry_line(store.key_at(j), store@[store.key_at(j)]) by {
            if j < i {
                assert(r@[j + 1] == before[j + 1]);
            }
        }
        i = i + 1;
    }
    r
}

pub open spec fn free_of(s: Seq<char>, c: char) -> bool {
    forall|k: int| 0 <= k < s.len() ==> s[k] != c
}

proof fn lemma_split_tail(s: Seq<char>, t: Seq<char>, sep: char)
    requires
        free_of(t, sep),
    ensures
        split_acc(s + t, sep) == (split_acc(s, sep).0, split_acc(s, sep).1 + t),
    decreases t.len(),
{
    if t.len() == 0 {
        assert(s + t =~= s);
        assert(split_acc(s, sep).1 + t =~= split_acc(s, sep).1);
    } else {
        let u = t.drop_last();
        assert((s + t).drop_last() =~= s + u);
        assert((s + t).last() == t.last());
        lemma_split_tail(s, u, sep);
        assert(split_acc(s, sep).1 + u + seq![t.last()] =~= split_acc(s, sep).1 + t);
        assert((split_acc(s, sep).1 + u).push(t.last()) =~= split_acc(s, sep).1 + u + seq![t.last()]);
    }
}

proof fn lemma_split_joined(hs: Seq<Seq<char>>)
    requires
        forall|k: int| 0 <= k < hs.len() ==> hs[k].len() > 0 && free_of(#[trigger] hs[k], ';'),
    ensures
        split_acc(joined(hs), ';') == (hs, Seq::<char>::empty()),
    decreases hs.len(),
{
    if hs.len() > 0 {
        let front = hs.drop_last();
        let h = hs.last();
        assert(forall|k: int| 0 <= k < front.len() ==> front[k] == hs[k]);
        lemma_split_joined(front);
        lemma_split_tail(joined(front), h, ';');
        let j = joined(hs);
        assert(j == joined(front) + h + seq![';']);
        assert(j.drop_last() =~= joined(front) + h);
        assert(j.last() == ';');
        assert(Seq::<char>::empty() + h =~= h);
        assert(front.push(h) =~= hs);
    } else {
        assert(joined(hs).len() == 0);
    }
}

/// A line written for an association reads back as that association, where
/// the type holds neither `/` nor `=`, the subtype holds no `=`, and every
/// handler is non-empty and free of `;`.
pub proof fn law_line_round_trip(m: (Seq<char>, Seq<char>), hs: Seq<Seq<char>>)
    requires
        free_of(m.0, '/'),
        free_of(m.0, '='),
        free_of(m.1, '='),
        forall|k: int| 0 <= k < hs.len() ==> hs[k].len() > 0 && free_of(#[trigger] hs[k], ';'),
    ensures
        line_spec(entry_line(m, hs)) == Some((m, hs)),
{
    let line = entry_line(m, hs);
    let key = m.0 + seq!['/'] + m.1;
    let i = key.len() as int;
    assert(line =~= key + seq!['='] + joined(hs));
    assert(line.subrange(0, i) =~= key);
    assert(first_at(line, '=', i)) by {
        assert forall|j: int| 0 <= j < i implies line[j] != '=' by {
            assert(line[j] == key[j]);
            if j < m.0.len() {
                assert(key[j] == m.0[j]);
            } else if j > m.0.len() {
                assert(key[j] == m.1[j - m.0.len() - 1]);
            }
        }
    }
    assert forall|k: int| first_at(line, '=', k) implies k == i by {
        lemma_first_unique(line, '=', i, k);
    }
    let j = m.0.len() as int;
    assert(first_at(key, '/', j)) by {
        assert forall|x: int| 0 <= x < j implies key[x] != '/' by {
            assert(key[x] == m.0[x]);
        }
    }
    assert forall|k: int| first_at(key, '/', k) implies k == j by {
        lemma_first_unique(key, '/', j, k);
    }
    assert(key.subrange(0, j) =~= m.0);
    assert(key.subrange(j + 1, key.len() as int) =~= m.1);
    assert(line.subrange(i + 1, line.len() as int) =~= joined(hs));
    lemma_split_joined(hs);
    let ii = choose|k: int| first_at(line, '=', k);
    assert(ii == i);
    let jj = choose|k: int| first_at(key, '/', k);
    assert(jj == j);
}

} // verus!
