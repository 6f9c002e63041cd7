use vstd::prelude::*;
use crate::error::Error;
use crate::handler::{handler_ids, Handler};
use crate::mime::{essence_of, wildcard_of, MimeType};
use crate::regex_table::{first_match, rules_view, RegexTable};
use crate::store::{added, copy_handlers, AssocStore};

verus! {

pub type AssocMap = Map<(Seq<char>, Seq<char>), Seq<Seq<char>>>;

/// The list stored under exactly `k`, empty where there is none.
pub open spec fn tier(s: AssocMap, k: (Seq<char>, Seq<char>)) -> Seq<Seq<char>> {
    if s.contains_key(k) {
        s[k]
    } else {
        Seq::empty()
    }
}

/// The candidate handlers for `m`: the first non-empty of the user store's
/// exact entry, the user store's wildcard entry, the system store's exact
/// entry and the system store's wildcard entry. Tiers are never merged.
pub open spec fn candidates_spec(user: AssocMap, system: AssocMap, m: (Seq<char>, Seq<char>)) -> Seq<Seq<char>> {
    if tier(user, m).len() > 0 {
        tier(user, m)
    } else if tier(user, wildcard_of(m)).len() > 0 {
        tier(user, wildcard_of(m))
    } else if tier(system, m).len() > 0 {
        tier(system, m)
    } else {
        tier(system, wildcard_of(m))
    }
}

/// What resolution decided: use this handler, or let the user pick among
/// these candidates (default first).
#[derive(Debug)]
pub enum Resolution {
    Use(Handler),
    Select(Vec<Handler>),
}

/// The association sources and settings that resolution consults.
pub struct Resolver {
    pub user: AssocStore,
    pub system: AssocStore,
    pub regex: RegexTable,
    pub enable_selector: bool,
}

/// Whether `r` is what resolving `m` must give: `NotFound` with no candidate,
/// the candidates to choose from where there are several and the selector is
/// on, else the default (the first candidate).
pub open spec fn resolution_of(
    user: AssocMap,
    system: AssocMap,
    enable_selector: bool,
    m: (Seq<char>, Seq<char>),
    r: Result<Resolution, Error>,
) -> bool {
    let c = candidates_spec(user, system, m);
    if c.len() == 0 {
        r matches Err(e) && (e matches Error::NotFound(s) && s@ == essence_of(m))
    } else if c.len() > 1 && enable_selector {
        r matches Ok(Resolution::Select(v)) && handler_ids(v@) == c
    } else {
        r matches Ok(Resolution::Use(h)) && h@ == c[0]
    }
}

/// Where the user store has an entry for exactly `m`, resolution takes its list,
/// whatever the wildcard entries and the system store hold.
pub proof fn law_exact_user_entry_wins(user: &AssocStore, system: &AssocStore, m: (Seq<char>, Seq<char>))
    requires
        user.wf(),
        system.wf(),
        user@.contains_key(m),
    ensures
        candidates_spec(user@, system@, m) == user@[m],
        forall|other: AssocMap| candidates_spec(user@, other, m) == user@[m],
{
    user.lemma_lists_wf(m);
}

/// After `set_handler(m, h)`, resolving `m` gives exactly `h`, and the list
/// stored for `m` has length one.
pub proof fn law_set_then_get(
    before: AssocMap,
    system: AssocMap,
    enable_selector: bool,
    m: (Seq<char>, Seq<char>),
    h: Seq<char>,
    r: Result<Resolution, Error>,
)
    requires
        resolution_of(before.insert(m, seq![h]), system, enable_selector, m, r),
    ensures
        r matches Ok(Resolution::Use(x)) && x@ == h,
        before.insert(m, seq![h])[m] == seq![h],
        before.insert(m, seq![h])[m].len() == 1,
{
    assert(candidates_spec(before.insert(m, seq![h]), system, m) == seq![h]);
}

fn tier_of(s: &AssocStore, k: &MimeType) -> (r: Vec<Handler>)
    requires
        s.wf(),
    ensures
        handler_ids(r@) == tier(s@, k@),
{
    match s.lookup(k) {
        Some(v) => v,
        None => {
            let v: Vec<Handler> = Vec::new();
            assert(handler_ids(v@) =~= Seq::<Seq<char>>::empty());
            v
        },
    }
}

impl Resolver {
    pub open spec fn wf(&self) -> bool {
        self.user.wf() && self.system.wf()
    }

    pub fn new(user: AssocStore, system: AssocStore, regex: RegexTable, enable_selector: bool) -> (r: Resolver)
        requires
            user.wf(),
            system.wf(),
        ensures
            r.wf(),
            r.user@ == user@,
            r.system@ == system@,
            r.regex.rules@ == regex.rules@,
            r.enable_selector == enable_selector,
    {
        Resolver { user, system, regex, enable_selector }
    }

    /// The candidate handlers for `m`, from the first non-empty tier.
    pub fn candidates(&self, m: &MimeType) -> (r: Vec<Handler>)
        requires
            self.wf(),
        ensures
            handler_ids(r@) == candidates_spec(self.user@, self.system@, m@),
    {
        let exact = tier_of(&self.user, m);
        if exact.len() > 0 {
            return exact;
        }
        let w = m.wildcard();
        let user_wild = tier_of(&self.user, &w);
        if user_wild.len() > 0 {
            return user_wild;
        }
        let sys = tier_of(&self.system, m);
        if sys.len() > 0 {
            return sys;
        }
        tier_of(&self.system, &w)
    }

    /// Resolves the handler for mimetype `m`.
    pub fn get_handler(&self, m: &MimeType) -> (r: Result<Resolution, Error>)
        requires
            self.wf(),
        ensures
            resolution_of(self.user@, self.system@, self.enable_selector, m@, r),
    {
        let c = self.candidates(m);
        if c.len() == 0 {
            Err(Error::NotFound(m.essence()))
        } else if c.len() > 1 && self.enable_selector {
            Ok(Resolution::Select(c))
        } else {
            assert(handler_ids(c@)[0] == c@[0]@);
            Ok(Resolution::Use(c[0].duplicate()))
        }
    }

    /// Resolves the handler of a resource with raw text `text`: the regex table
    /// first, where a match settles it; else by the resource's mimetype, or the
    /// error that classifying it gave.
    pub fn resolve_resource(&self, text: &str, mime: Result<MimeType, Error>) -> (r: Result<Resolution, Error>)
        requires
            self.wf(),
        ensures
            first_match(rules_view(self.regex.rules@), text@) matches Some(h)
                ==> (r matches Ok(Resolution::Use(x)) && x@ == h),
            first_match(rules_view(self.regex.rules@), text@) is None ==> match mime {
                Ok(m) => resolution_of(self.user@, self.system@, self.enable_selector, m@, r),
                Err(e) => r == Err::<Resolution, Error>(e),
            },
    {
        match self.regex.get_handler(text) {
            Some(h) => Ok(Resolution::Use(h)),
            None => match mime {
                Ok(m) => self.get_handler(&m),
                Err(e) => Err(e),
            },
        }
    }

    /// Makes `h` the only handler for the literal key `m` of the user store.
    pub fn set_handler(&mut self, m: MimeType, h: Handler)
        requires
            old(self).wf(),
        ensures
            final(self).wf(),
            final(self).user@ == old(self).user@.insert(m@, seq![h@]),
            final(self).system@ == old(self).system@,
            final(self).enable_selector == old(self).enable_selector,
            final(self).regex.rules@ == old(self).regex.rules@,
    {
        self.user.set_handler(m, h);
    }

    /// Adds `h` to the handlers of the literal key `m` of the user store, unless
    /// it is there already.
    pub fn add_handler(&mut self, m: MimeType, h: Handler)
        requires
            old(self).wf(),
        ensures
            final(self).wf(),
            final(self).user@ == added(old(self).user@, m@, h@),
            final(self).system@ == old(self).system@,
            final(self).enable_selector == old(self).enable_selector,
            final(self).regex.rules@ == old(self).regex.rules@,
    {
        self.user.add_handler(m, h);
    }

    /// Removes the user store's entry for the literal key `m`.
    pub fn remove_handler(&mut self, m: &MimeType) -> (r: Result<(), Error>)
        requires
            old(self).wf(),
        ensures
            final(self).wf(),
            r is Ok <==> old(self).user@.contains_key(m@),
            r is Ok ==> final(self).user@ == old(self).user@.remove(m@),
            r is Err ==> final(self).user@ == old(self).user@,
            r matches Err(e) ==> (e matches Error::NotFound(s) && s@ == essence_of(m@)),
            final(self).system@ == old(self).system@,
            final(self).enable_selector == old(self).enable_selector,
            final(self).regex.rules@ == old(self).regex.rules@,
    {
        self.user.remove_handler(m)
    }
}

/// Reads back the selector's choice: `output` is the line that the selector
/// printed, or `None` where it failed. The choice stands where it names one of
/// the candidates; anything else cancels.
pub fn select_from_output(candidates: &Vec<Handler>, output: Option<&str>) -> (r: Result<Handler, Error>)
    ensures
        r is Ok <==> (output matches Some(o) && handler_ids(candidates@).contains(o@)),
        r matches Ok(h) ==> (output matches Some(o) && h@ == o@),
        r matches Err(e) ==> e is Cancelled,
{
    match output {
        None => Err(Error::Cancelled),
        Some(o) => {
            let chosen = Handler::new(o);
            let mut i: usize = 0;
            while i < candidates.len()
                invariant
                    i <= candidates@.len(),
                    chosen@ == o@,
                    output == Some(o),
                    forall|j: int| 0 <= j < i ==> candidates@[j]@ != o@,
                decreases candidates@.len() - i,
            {
                if candidates[i].same_as(&chosen) {
                    assert(handler_ids(candidates@)[i as int] == o@);
                    assert(handler_ids(candidates@).contains(o@));
                    let h = candidates[i].duplicate();
                    assert(h@ == o@);
                    return Ok(h);
                }
                i = i + 1;
            }
            assert(!handler_ids(candidates@).contains(o@)) by {
                if handler_ids(candidates@).contains(o@) {
                    let j = choose|j: int| 0 <= j < handler_ids(candidates@).len() && handler_ids(candidates@)[j] == o@;
                    assert(candidates@[j]@ == o@);
                }
            }
            Err(Error::Cancelled)
        },
    }
}

} // verus!
