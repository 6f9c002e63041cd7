use vstd::prelude::*;

verus! {

/// An installed application association, known by its identifier
/// (the name of its desktop entry). Two handlers are equal when their
/// identifiers are.
#[derive(Debug)]
pub struct Handler {
    pub id: String,
}

impl View for Handler {
    type V = Seq<char>;

    open spec fn view(&self) -> Seq<char> {
        self.id@
    }
}

impl Handler {
    pub fn new(id: &str) -> (r: Handler)
        ensures
            r@ == id@,
    {
        Handler { id: id.to_owned() }
    }

    /// The identifier, as written in configuration and selector output.
    pub fn name(&self) -> (r: String)
        ensures
            r@ == self@,
    {
        self.id.clone()
    }

    pub fn same_as(&self, other: &Handler) -> (r: bool)
        ensures
            r == (self@ == other@),
    {
        self.id == other.id
    }

    pub fn duplicate(&self) -> (r: Handler)
        ensures
            r@ == self@,
    {
        Handler { id: self.id.clone() }
    }
}

/// The identifiers of a list of handlers, in order.
pub open spec fn handler_ids(hs: Seq<Handler>) -> Seq<Seq<char>> {
    hs.map_values(|h: Handler| h@)
}

} // verus!
