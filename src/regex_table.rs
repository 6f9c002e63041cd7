use vstd::prelude::*;
use crate::handler::Handler;

verus! {

/// Whether `pattern` compiles, and if so whether it matches somewhere in `text`
/// (`None` for a pattern that does not compile).
pub uninterp spec fn regex_match_of(pattern: Seq<char>, text: Seq<char>) -> Option<bool>;

/// Relies on `regex::Regex::new`, which compiles the pattern or reports an
/// error, and `regex::Regex::is_match`, which tells whether the compiled
/// pattern matches anywhere in the text. Both depend on their arguments alone.
#[verifier::external_body]
fn regex_match(pattern: &str, text: &str) -> (r: Option<bool>)
    ensures
        r == regex_match_of(pattern@, text@),
{
    regex::Regex::new(pattern).ok().map(|re| re.is_match(text))
}

/// A rule of the table: a pattern over a resource's raw text, and the handler
/// that takes the resources it matches.
pub struct RegexRule {
    pub pattern: String,
    pub handler: Handler,
}

/// Rules in declaration order; the first match wins.
pub struct RegexTable {
    pub rules: Vec<RegexRule>,
}

pub open spec fn rules_view(rules: Seq<RegexRule>) -> Seq<(Seq<char>, Seq<char>)> {
    rules.map_values(|r: RegexRule| (r.pattern@, r.handler@))
}

/// The handler of the first rule whose pattern matches `text`. A rule whose
/// pattern does not compile never matches.
pub open spec fn first_match(rules: Seq<(Seq<char>, Seq<char>)>, text: Seq<char>) -> Option<Seq<char>>
    decreases rules.len(),
{
    if rules.len() == 0 {
        None
    } else if regex_match_of(rules[0].0, text) == Some(true) {
        Some(rules[0].1)
    } else {
        first_match(rules.drop_first(), text)
    }
}

impl RegexRule {
    pub fn new(pattern: &str, handler: Handler) -> (r: RegexRule)
        ensures
            r.pattern@ == pattern@,
            r.handler@ == handler@,
    {
        RegexRule { pattern: pattern.to_owned(), handler }
    }
}

impl RegexTable {
    pub fn new(rules: Vec<RegexRule>) -> (r: RegexTable)
        ensures
            r.rules@ == rules@,
    {
        RegexTable { rules }
    }

    /// The handler of the first rule, in declaration order, whose pattern matches `text`.
    pub fn get_handler(&self, text: &str) -> (r: Option<Handler>)
        ensures
            r matches Some(h) ==> first_match(rules_view(self.rules@), text@) == Some(h@),
            r is None ==> first_match(rules_view(self.rules@), text@) is None,
    {
        let ghost all = rules_view(self.rules@);
        let mut i: usize = 0;
        assert(all.subrange(0, all.len() as int) =~= all);
        while i < self.rules.len()
            invariant
                i <= self.rules@.len(),
                all == rules_view(self.rules@),
                first_match(all, text@) == first_match(all.subrange(i as int, all.len() as int), text@),
            decreases self.rules@.len() - i,
        {
            let ghost rest = all.subrange(i as int, all.len() as int);
            assert(rest[0] == (self.rules@[i as int].pattern@, self.rules@[i as int].handler@));
            if regex_match(self.rules[i].pattern.as_str(), text) == Some(true) {
                return Some(self.rules[i].handler.duplicate());
            }
            assert(rest.drop_first() =~= all.subrange(i + 1, all.len() as int));
            i = i + 1;
        }
        None
    }
}

} // verus!
