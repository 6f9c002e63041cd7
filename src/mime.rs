use vstd::prelude::*;
use crate::error::Error;

verus! {

/// A mimetype reduced to its essence: a type and a subtype, parameters dropped.
#[derive(Debug)]
pub struct MimeType {
    pub ty: String,
    pub sub: String,
}

impl View for MimeType {
    type V = (Seq<char>, Seq<char>);

    open spec fn view(&self) -> (Seq<char>, Seq<char>) {
        (self.ty@, self.sub@)
    }
}

/// The subtype that marks a wildcard association key.
pub open spec fn wildcard_sub() -> Seq<char> {
    seq!['*']
}

/// The key under which wildcard associations for the type of `m` are stored.
pub open spec fn wildcard_of(m: (Seq<char>, Seq<char>)) -> (Seq<char>, Seq<char>) {
    (m.0, wildcard_sub())
}

/// "type/subtype"
pub open spec fn essence_of(m: (Seq<char>, Seq<char>)) -> Seq<char> {
    m.0 + seq!['/'] + m.1
}

pub open spec fn scheme_handler_type() -> Seq<char> {
    seq!['x', '-', 's', 'c', 'h', 'e', 'm', 'e', '-', 'h', 'a', 'n', 'd', 'l', 'e', 'r']
}

/// The mimetype of every URL with the given scheme.
pub open spec fn scheme_mime(scheme: Seq<char>) -> (Seq<char>, Seq<char>) {
    (scheme_handler_type(), scheme)
}

pub open spec fn octet_stream() -> (Seq<char>, Seq<char>) {
    (
        seq!['a', 'p', 'p', 'l', 'i', 'c', 'a', 't', 'i', 'o', 'n'],
        seq!['o', 'c', 't', 'e', 't', '-', 's', 't', 'r', 'e', 'a', 'm'],
    )
}

pub open spec fn zero_size() -> (Seq<char>, Seq<char>) {
    (
        seq!['a', 'p', 'p', 'l', 'i', 'c', 'a', 't', 'i', 'o', 'n'],
        seq!['x', '-', 'z', 'e', 'r', 'o', 's', 'i', 'z', 'e'],
    )
}

/// A guess of the system database that says nothing about the file:
/// absent, the generic binary sentinel or the empty-file sentinel.
pub open spec fn unconfident(g: Option<(Seq<char>, Seq<char>)>) -> bool {
    match g {
        None => true,
        Some(m) => m == octet_stream() || m == zero_size(),
    }
}

/// How a file is classified from the guess by name and the guess by content.
pub open spec fn file_mime_spec(
    by_name: Option<(Seq<char>, Seq<char>)>,
    by_content: Option<(Seq<char>, Seq<char>)>,
) -> Option<(Seq<char>, Seq<char>)> {
    if !unconfident(by_name) {
        by_name
    } else if !unconfident(by_content) {
        by_content
    } else {
        None
    }
}

pub open spec fn opt_view(m: Option<MimeType>) -> Option<(Seq<char>, Seq<char>)> {
    match m {
        Some(x) => Some(x@),
        None => None,
    }
}

impl MimeType {
    pub fn new(ty: &str, sub: &str) -> (r: MimeType)
        ensures
            r@ == (ty@, sub@),
    {
        MimeType { ty: ty.to_owned(), sub: sub.to_owned() }
    }

    pub fn duplicate(&self) -> (r: MimeType)
        ensures
            r@ == self@,
    {
        MimeType { ty: self.ty.clone(), sub: self.sub.clone() }
    }

    /// Equality of essences.
    pub fn same_as(&self, other: &MimeType) -> (r: bool)
        ensures
            r == (self@ == other@),
    {
        self.ty == other.ty && self.sub == other.sub
    }

    /// The wildcard key for this mimetype's type.
    pub fn wildcard(&self) -> (r: MimeType)
        ensures
            r@ == wildcard_of(self@),
    {
        proof {
            reveal_strlit("*");
        }
        MimeType { ty: self.ty.clone(), sub: String::from_str("*") }
    }

    pub fn is_wildcard(&self) -> (r: bool)
        ensures
            r == (self@.1 == wildcard_sub()),
    {
        proof {
            reveal_strlit("*");
        }
        if self.sub.as_str().unicode_len() == 1 && self.sub.as_str().get_char(0) == '*' {
            assert(self.sub@ =~= wildcard_sub());
            true
        } else {
            false
        }
    }

    /// The mimetype of a URL with scheme `scheme`: `x-scheme-handler/<scheme>`.
    pub fn for_scheme(scheme: &str) -> (r: MimeType)
        ensures
            r@ == scheme_mime(scheme@),
    {
        proof {
            reveal_strlit("x-scheme-handler");
        }
        MimeType { ty: String::from_str("x-scheme-handler"), sub: scheme.to_owned() }
    }

    /// The essence as text: "type/subtype".
    pub fn essence(&self) -> (r: String)
        ensures
            r@ == essence_of(self@),
    {
        proof {
            reveal_strlit("/");
        }
        self.ty.clone().concat("/").concat(self.sub.as_str())
    }

    fn is_named(&self, ty: &str, sub: &str) -> (r: bool)
        ensures
            r == (self@ == (ty@, sub@)),
    {
        let t = String::from_str(ty);
        let s = String::from_str(sub);
        self.ty == t && self.sub == s
    }

    /// Whether this is the generic binary type, "application/octet-stream".
    pub fn is_named_octet_stream(&self) -> (r: bool)
        ensures
            r == (self@ == octet_stream()),
    {
        proof {
            reveal_strlit("application");
            reveal_strlit("octet-stream");
            assert("application"@ =~= octet_stream().0);
            assert("octet-stream"@ =~= octet_stream().1);
        }
        self.is_named("application", "octet-stream")
    }

    /// Whether a guess of the system database is the binary or empty-file sentinel.
    pub fn is_sentinel(&self) -> (r: bool)
        ensures
            r == unconfident(Some(self@)),
    {
        proof {
            reveal_strlit("application");
            reveal_strlit("octet-stream");
            reveal_strlit("x-zerosize");
            assert("application"@ =~= octet_stream().0);
            assert("octet-stream"@ =~= octet_stream().1);
            assert("x-zerosize"@ =~= zero_size().1);
        }
        self.is_named("application", "octet-stream") || self.is_named("application", "x-zerosize")
    }
}

/// Classifies a local file from the system database's two guesses: the one by
/// file name is taken when confident, else the one by content, else the file is
/// ambiguous.
pub fn decide_file_mime(path: &str, by_name: Option<MimeType>, by_content: Option<MimeType>) -> (r: Result<MimeType, Error>)
    ensures
        r matches Ok(m) ==> file_mime_spec(opt_view(by_name), opt_view(by_content)) == Some(m@),
        r matches Err(e) ==> e matches Error::Ambiguous(p) && p@ == path@,
        r is Err <==> file_mime_spec(opt_view(by_name), opt_view(by_content)) is None,
        unconfident(opt_view(by_name)) && unconfident(opt_view(by_content))
            ==> (r matches Err(e) && (e matches Error::Ambiguous(p) && p@ == path@)),
{
    match by_name {
        Some(m) if !m.is_sentinel() => return Ok(m),
        _ => {},
    }
    match by_content {
        Some(m) if !m.is_sentinel() => Ok(m),
        _ => Err(Error::Ambiguous(path.to_owned())),
    }
}

} // verus!
