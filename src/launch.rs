use vstd::prelude::*;
use crate::dispatch::strings_view;
use crate::mimeapps::{chars_of, fields, split_fields};

verus! {

/// The field code of a command word such as `%f`, if it is one.
pub open spec fn code(w: Seq<char>) -> Option<char> {
    if w.len() == 2 && w[0] == '%' {
        Some(w[1])
    } else {
        None
    }
}

/// `%F` or `%U`: a place for the whole list of arguments.
pub open spec fn is_multi(w: Seq<char>) -> bool {
    code(w) == Some('F') || code(w) == Some('U')
}

/// `%f` or `%u`: a place for a single argument.
pub open spec fn is_single(w: Seq<char>) -> bool {
    code(w) == Some('f') || code(w) == Some('u')
}

/// The command words with each argument placeholder replaced by `args` and
/// every other field code dropped.
pub open spec fn expand(words: Seq<Seq<char>>, args: Seq<Seq<char>>) -> Seq<Seq<char>>
    decreases words.len(),
{
    if words.len() == 0 {
        Seq::empty()
    } else {
        let w = words.last();
        expand(words.drop_last(), args) + if is_multi(w) || is_single(w) {
            args
        } else if code(w) is Some {
            Seq::empty()
        } else {
            seq![w]
        }
    }
}

pub open spec fn takes_many(words: Seq<Seq<char>>) -> bool {
    exists|i: int| 0 <= i < words.len() && is_multi(#[trigger] words[i])
}

pub open spec fn takes_one(words: Seq<Seq<char>>) -> bool {
    exists|i: int| 0 <= i < words.len() && is_single(#[trigger] words[i])
}

/// The processes to start for a command and its arguments: one with all of
/// them where the command has a place for several, one per argument where it
/// has a place for one, and else one with the arguments after the command.
pub open spec fn invocations(words: Seq<Seq<char>>, args: Seq<Seq<char>>) -> Seq<Seq<Seq<char>>> {
    if takes_many(words) {
        seq![expand(words, args)]
    } else if takes_one(words) && args.len() > 0 {
        Seq::new(args.len(), |i: int| expand(words, seq![args[i]]))
    } else if takes_one(words) {
        seq![expand(words, Seq::empty())]
    } else {
        seq![words + args]
    }
}

pub open spec fn commands_view(v: Seq<Vec<String>>) -> Seq<Seq<Seq<char>>> {
    v.map_values(|c: Vec<String>| strings_view(c@))
}

fn code_of(w: &str) -> (r: Option<char>)
    ensures
        r == code(w@),
{
    if w.unicode_len() == 2 && w.get_char(0) == '%' {
        Some(w.get_char(1))
    } else {
        None
    }
}

fn copy_strings(v: &Vec<String>) -> (r: Vec<String>)
    ensures
        strings_view(r@) == strings_view(v@),
{
    let mut r: Vec<String> = Vec::new();
    let mut i: usize = 0;
    while i < v.len()
        invariant
            i <= v@.len(),
            strings_view(r@) =~= strings_view(v@).subrange(0, i as int),
        decreases v@.len() - i,
    {
        let ghost before = strings_view(r@);
        r.push(v[i].clone());
        assert(strings_view(r@) =~= before.push(v@[i as int]@));
        i = i + 1;
    }
    assert(strings_view(v@).subrange(0, v@.len() as int) =~= strings_view(v@));
    r
}

fn expand_words(words: &Vec<String>, args: &Vec<String>) -> (r: Vec<String>)
    ensures
        strings_view(r@) == expand(strings_view(words@), strings_view(args@)),
{
    let ghost wv = strings_view(words@);
    let ghost av = strings_view(args@);
    let mut r: Vec<String> = Vec::new();
    let mut i: usize = 0;
    assert(wv.subrange(0, 0) =~= Seq::<Seq<char>>::empty());
    while i < words.len()
        invariant
            i <= words@.len(),
            wv == strings_view(words@),
            av == strings_view(args@),
            strings_view(r@) == expand(wv.subrange(0, i as int), av),
        decreases words@.len() - i,
    {
        let ghost pre = wv.subrange(0, i as int);
        let ghost next = wv.subrange(0, i + 1);
        let ghost before = strings_view(r@);
        assert(next.drop_last() =~= pre);
        assert(next.last() == words@[i as int]@);
        let w = words[i].as_str();
        match code_of(w) {
            Some(c) => {
                if c == 'F' || c == 'U' || c == 'f' || c == 'u' {
                    let mut j: usize = 0;
                    while j < args.len()
                        invariant
                            j <= args@.len(),
                            av == strings_view(args@),
                            strings_view(r@) =~= before + av.subrange(0, j as int),
                        decreases args@.len() - j,
                    {
                        let ghost b = strings_view(r@);
                        r.push(args[j].clone());
                        assert(strings_view(r@) =~= b.push(av[j as int]));
                        j = j + 1;
                    }
                    assert(av.subrange(0, args@.len() as int) =~= av);
                } else {
                    assert(before + Seq::<Seq<char>>::empty() =~= before);
                }
            },
            None => {
                r.push(words[i].clone());
            },
        }
        assert(strings_view(r@) =~= expand(next, av));
        i = i + 1;
    }
    assert(wv.subrange(0, words@.len() as int) =~= wv);
    r
}

/// The processes to start for the command line `exec` of a handler and the
/// resources `args` given to it, each as its list of words.
pub fn invocations_for(exec: &str, args: &Vec<String>) -> (r: Vec<Vec<String>>)
    ensures
        commands_view(r@) == invocations(fields(exec@, ' '), strings_view(args@)),
{
    let v = chars_of(exec);
    let words = split_fields(exec, &v, 0, ' ');
    assert(exec@.subrange(0, exec@.len() as int) =~= exec@);
    let ghost wv = strings_view(words@);
    let ghost av = strings_view(args@);
    let mut many = false;
    let mut one = false;
    let mut i: usize = 0;
    while i < words.len()
        invariant
            i <= words@.len(),
            wv == strings_view(words@),
            many <==> exists|k: int| 0 <= k < i && is_multi(#[trigger] wv[k]),
            one <==> exists|k: int| 0 <= k < i && is_single(#[trigger] wv[k]),
        decreases words@.len() - i,
    {
        let c = code_of(words[i].as_str());
        assert(wv[i as int] == words@[i as int]@);
        if c == Some('F') || c == Some('U') {
            many = true;
        }
        if c == Some('f') || c == Some('u') {
            one = true;
        }
        i = i + 1;
    }
    let mut r: Vec<Vec<String>> = Vec::new();
    if many {
        r.push(expand_words(&words, args));
        assert(commands_view(r@) =~= seq![expand(wv, av)]);
    } else if one && args.len() > 0 {
        let mut j: usize = 0;
        while j < args.len()
            invariant
                j <= args@.len(),
                wv == strings_view(words@),
                av == strings_view(args@),
                commands_view(r@) =~= Seq::new(j as nat, |k: int| expand(wv, seq![av[k]])),
            decreases args@.len() - j,
        {
            let mut single: Vec<String> = Vec::new();
            single.push(args[j].clone());
            assert(strings_view(single@) =~= seq![av[j as int]]);
            let ghost b = commands_view(r@);
            r.push(expand_words(&words, &single));
            assert(commands_view(r@) =~= b.push(expand(wv, seq![av[j as int]])));
            j = j + 1;
        }
    } else if one {
        let none: Vec<String> = Vec::new();
        assert(strings_view(none@) =~= Seq::<Seq<char>>::empty());
        r.push(expand_words(&words, &none));
        assert(commands_view(r@) =~= seq![expand(wv, Seq::empty())]);
    } else {
        let mut all = copy_strings(&words);
        let extra = copy_strings(args);
        let mut j: usize = 0;
        let ghost base = strings_view(all@);
        while j < extra.len()
            invariant
                j <= extra@.len(),
                strings_view(all@) =~= base + strings_view(extra@).subrange(0, j as int),
            decreases extra@.len() - j,
        {
            let ghost b = strings_view(all@);
            all.push(extra[j].clone());
            assert(strings_view(all@) =~= b.push(extra@[j as int]@));
            j = j + 1;
        }
        assert(strings_view(extra@).subrange(0, extra@.len() as int) =~= av);
        r.push(all);
        assert(commands_view(r@) =~= seq![wv + av]);
    }
    r
}

/// The command that runs `argv` inside a terminal whose command line is
/// `terminal_exec`: the terminal's words, then `-e`, then `argv`.
pub fn in_terminal(terminal_exec: &str, argv: &Vec<String>) -> (r: Vec<String>)
    ensures
        strings_view(r@) == fields(terminal_exec@, ' ') + seq!["-e"@] + strings_view(argv@),
{
    let v = chars_of(terminal_exec);
    let mut r = split_fields(terminal_exec, &v, 0, ' ');
    assert(terminal_exec@.subrange(0, terminal_exec@.len() as int) =~= terminal_exec@);
    let ghost base = strings_view(r@);
    r.push(String::from_str("-e"));
    assert(strings_view(r@) =~= base + seq!["-e"@]);
    let ghost head = strings_view(r@);
    let mut j: usize = 0;
    while j < argv.len()
        invariant
            j <= argv@.len(),
            strings_view(r@) =~= head + strings_view(argv@).subrange(0, j as int),
        decreases argv@.len() - j,
    {
        let ghost b = strings_view(r@);
        r.push(argv[j].clone());
        assert(strings_view(r@) =~= b.push(argv@[j as int]@));
        j = j + 1;
    }
    assert(strings_view(argv@).subrange(0, argv@.len() as int) =~= strings_view(argv@));
    r
}

} // verus!
