use vstd::prelude::*;
use crate::handler::Handler;
use crate::mimeapps::{chars_of, first_at, header_spec, lines_view};
use crate::regex_table::{rules_view, RegexRule, RegexTable};

verus! {

/// A `name=value` line: the text before the first `=` (not empty) and the
/// text after it.
pub open spec fn pair_spec(line: Seq<char>) -> Option<(Seq<char>, Seq<char>)> {
    if exists|i: int| first_at(line, '=', i) {
        let i = choose|i: int| first_at(line, '=', i);
        if i > 0 {
            Some((line.subrange(0, i), line.subrange(i + 1, line.len() as int)))
        } else {
            None
        }
    } else {
        None
    }
}

/// Reading `lines` in order: whether the last header seen names `section`, and
/// the `name=value` pairs read under such headers so far.
pub open spec fn pairs_acc(lines: Seq<Seq<char>>, section: Seq<char>) -> (bool, Seq<(Seq<char>, Seq<char>)>)
    decreases lines.len(),
{
    if lines.len() == 0 {
        (false, Seq::empty())
    } else {
        let (inside, ps) = pairs_acc(lines.drop_last(), section);
        let l = lines.last();
        match header_spec(l) {
            Some(name) => (name == section, ps),
            None => if inside {
                match pair_spec(l) {
                    Some(p) => (true, ps.push(p)),
                    None => (true, ps),
                }
            } else {
                (false, ps)
            },
        }
    }
}

pub open spec fn string_pairs_view(v: Seq<(String, String)>) -> Seq<(Seq<char>, Seq<char>)> {
    v.map_values(|p: (String, String)| (p.0@, p.1@))
}

/// Each pair with its two sides exchanged.
pub open spec fn swapped(ps: Seq<(Seq<char>, Seq<char>)>) -> Seq<(Seq<char>, Seq<char>)> {
    ps.map_values(|p: (Seq<char>, Seq<char>)| (p.1, p.0))
}

/// The regex rules of a section whose lines read `handler=pattern`, in order.
pub open spec fn rules_of(lines: Seq<Seq<char>>, section: Seq<char>) -> Seq<(Seq<char>, Seq<char>)> {
    swapped(pairs_acc(lines, section).1)
}

/// The value of the last `name=value` line for `name` in the pairs.
pub open spec fn last_value(ps: Seq<(Seq<char>, Seq<char>)>, name: Seq<char>) -> Option<Seq<char>>
    decreases ps.len(),
{
    if ps.len() == 0 {
        None
    } else if ps.last().0 == name {
        Some(ps.last().1)
    } else {
        last_value(ps.drop_last(), name)
    }
}

/// Reads a `name=value` line.
pub fn parse_pair(line: &str) -> (r: Option<(String, String)>)
    ensures
        match r {
            Some((a, b)) => pair_spec(line@) == Some((a@, b@)),
            None => pair_spec(line@) is None,
        },
{
    let v = chars_of(line);
    let n = v.len();
    let mut i: usize = 0;
    while i < n
        invariant
            n == v@.len(),
            v@ == line@,
            i <= n,
            forall|j: int| 0 <= j < i ==> v@[j] != '=',
        decreases n - i,
    {
        if v[i] == '=' {
            assert(first_at(line@, '=', i as int));
            proof {
                assert forall|k: int| first_at(line@, '=', k) implies k == i by {
                    if k < i {
                        assert(v@[k] != '=');
                    } else if i < k {
                        assert(line@[i as int] != '=');
                    }
                }
            }
            if i == 0 {
                return None;
            }
            let a = line.substring_char(0, i);
            let b = line.substring_char(i + 1, n);
            return Some((a.to_owned(), b.to_owned()));
        }
        i = i + 1;
    }
    assert forall|k: int| !first_at(line@, '=', k) by {
        if 0 <= k < n {
            assert(v@[k] == line@[k]);
        }
    }
    None
}

/// The `name=value` pairs of section `section`, in order.
pub fn section_pairs(lines: &Vec<String>, section: &str) -> (r: Vec<(String, String)>)
    ensures
        string_pairs_view(r@) == pairs_acc(lines_view(lines@), section@).1,
{
    let ghost lv = lines_view(lines@);
    let mut out: Vec<(String, String)> = Vec::new();
    let mut inside = false;
    let wanted = String::from_str(section);
    let mut i: usize = 0;
    assert(lv.subrange(0, 0) =~= Seq::<Seq<char>>::empty());
    assert(string_pairs_view(out@) =~= Seq::<(Seq<char>, Seq<char>)>::empty());
    while i < lines.len()
        invariant
            i <= lines@.len(),
            lv == lines_view(lines@),
            wanted@ == section@,
            pairs_acc(lv.subrange(0, i as int), section@) == (inside, string_pairs_view(out@)),
        decreases lines@.len() - i,
    {
        let ghost pre = lv.subrange(0, i as int);
        let ghost next = lv.subrange(0, i + 1);
        assert(next.drop_last() =~= pre);
        assert(next.last() == lines@[i as int]@);
        let line = lines[i].as_str();
        let n = line.unicode_len();
        if n >= 2 && line.get_char(0) == '[' && line.get_char(n - 1) == ']' {
            let name = String::from_str(line.substring_char(1, n - 1));
            inside = name == wanted;
        } else if inside {
            match parse_pair(line) {
                Some(p) => {
                    let ghost before = string_pairs_view(out@);
                    out.push(p);
                    assert(string_pairs_view(out@) =~= before.push(
                        (out@.last().0@, out@.last().1@),
                    ));
                },
                None => {},
            }
        }
        i = i + 1;
    }
    assert(lv.subrange(0, lines@.len() as int) =~= lv);
    out
}

/// Reads the regex rules of section `section`, whose lines read
/// `handler=pattern`, keeping their order.
pub fn load_rules(lines: &Vec<String>, section: &str) -> (r: RegexTable)
    ensures
        rules_view(r.rules@) == rules_of(lines_view(lines@), section@),
{
    let ps = section_pairs(lines, section);
    let ghost pv = string_pairs_view(ps@);
    let mut rules: Vec<RegexRule> = Vec::new();
    let mut i: usize = 0;
    while i < ps.len()
        invariant
            i <= ps@.len(),
            pv == string_pairs_view(ps@),
            rules_view(rules@) =~= swapped(pv.subrange(0, i as int)),
        decreases ps@.len() - i,
    {
        let ghost before = rules_view(rules@);
        rules.push(RegexRule::new(ps[i].1.as_str(), Handler::new(ps[i].0.as_str())));
        assert(rules_view(rules@) =~= before.push((pv[i as int].1, pv[i as int].0)));
        assert(swapped(pv.subrange(0, i + 1)) =~= swapped(pv.subrange(0, i as int)).push((pv[i as int].1, pv[i as int].0)));
        i = i + 1;
    }
    assert(pv.subrange(0, ps@.len() as int) =~= pv);
    RegexTable::new(rules)
}

/// The value of the last line `name=value` in section `section`.
pub fn setting(lines: &Vec<String>, section: &str, name: &str) -> (r: Option<String>)
    ensures
        match r {
            Some(v) => last_value(pairs_acc(lines_view(lines@), section@).1, name@) == Some(v@),
            None => last_value(pairs_acc(lines_view(lines@), section@).1, name@) is None,
        },
{
    let ps = section_pairs(lines, section);
    let ghost pv = string_pairs_view(ps@);
    let wanted = String::from_str(name);
    let mut i: usize = ps.len();
    assert(pv.subrange(0, ps@.len() as int) =~= pv);
    while i > 0
        invariant
            i <= ps@.len(),
            wanted@ == name@,
            pv == string_pairs_view(ps@),
            pv == pairs_acc(lines_view(lines@), section@).1,
            last_value(pv, name@) == last_value(pv.subrange(0, i as int), name@),
        decreases i,
    {
        let ghost pre = pv.subrange(0, i as int);
        assert(pre.last() == pv[i - 1]);
        assert(pv[i - 1] == (ps@[i - 1].0@, ps@[i - 1].1@));
        if ps[i - 1].0 == wanted {
            return Some(ps[i - 1].1.clone());
        }
        assert(pre.drop_last() =~= pv.subrange(0, i - 1));
        i = i - 1;
    }
    None
}

} // verus!
