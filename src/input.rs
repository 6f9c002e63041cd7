use vstd::prelude::*;
use crate::error::Error;
use crate::mime::{octet_stream, opt_view, MimeType};

verus! {

/// What `mime` reads from user text: the type and subtype of its essence,
/// or `None` where the text is not a mimetype.
pub uninterp spec fn mime_parse_of(s: Seq<char>) -> Option<(Seq<char>, Seq<char>)>;

/// Relies on `<mime::Mime as FromStr>::from_str`, which parses the text or
/// fails, and `mime::Mime::essence_str`, its "type/subtype" part. Both depend on
/// the text alone.
#[verifier::external_body]
fn parse_mime(s: &str) -> (r: Option<MimeType>)
    ensures
        opt_view(r) == mime_parse_of(s@),
{
    s.parse::<mime::Mime>().ok().and_then(
        |m| m.essence_str().split_once('/').map(|(t, u)| MimeType { ty: t.to_owned(), sub: u.to_owned() }),
    )
}

/// Relies on `xdg_mime::SharedMimeInfo::get_mime_types_from_file_name`: the
/// mimetypes that the system database's glob rules give for a file name, in
/// its order. The database is read from disk, so nothing is promised of it.
#[verifier::external_body]
fn mimes_from_file_name(name: &str) -> (r: Option<Vec<MimeType>>) {
    xdg_mime::SharedMimeInfo::new().get_mime_types_from_file_name(name).iter().map(
        |m| m.essence_str().split_once('/').map(|(t, u)| MimeType { ty: t.to_owned(), sub: u.to_owned() }),
    ).collect()
}

pub open spec fn mimes_view(v: Seq<MimeType>) -> Seq<(Seq<char>, Seq<char>)> {
    v.map_values(|m: MimeType| m@)
}

/// The mimetype of an extension from the database's guesses for it: the first
/// guess, unless there is none or the only one is generic binary data.
pub open spec fn ext_mime_spec(guesses: Seq<(Seq<char>, Seq<char>)>) -> Option<(Seq<char>, Seq<char>)> {
    if guesses.len() == 0 || (guesses.len() == 1 && guesses[0] == octet_stream()) {
        None
    } else {
        Some(guesses[0])
    }
}

/// Classifies the extension `ext` from the system database's guesses for it:
/// `Ambiguous(ext)` where there is no guess or the only one is
/// "application/octet-stream", else the first guess.
pub fn decide_ext_mime(ext: &str, guesses: &Vec<MimeType>) -> (r: Result<MimeType, Error>)
    ensures
        match ext_mime_spec(mimes_view(guesses@)) {
            Some(m) => r matches Ok(x) && x@ == m,
            None => r matches Err(e) && (e matches Error::Ambiguous(t) && t@ == ext@),
        },
{
    if guesses.len() == 0 || (guesses.len() == 1 && guesses[0].is_named_octet_stream()) {
        Err(Error::Ambiguous(ext.to_owned()))
    } else {
        assert(mimes_view(guesses@)[0] == guesses@[0]@);
        Ok(guesses[0].duplicate())
    }
}

pub open spec fn starts_with_dot(s: Seq<char>) -> bool {
    s.len() > 0 && s[0] == '.'
}

/// A mimetype given by a user: an extension such as ".pdf", or a mimetype
/// such as "image/jpeg" (a wildcard such as "image/*" included).
#[derive(Debug)]
pub struct MimeOrExtension(pub MimeType);

impl MimeOrExtension {
    /// Reads user input. An extension is looked up in the system database and
    /// classified by `decide_ext_mime`; the database is read from disk, so of
    /// an extension only the error is stated here. A mimetype must parse and
    /// have a subtype.
    pub fn from_str(s: &str) -> (r: Result<MimeOrExtension, Error>)
        ensures
            !starts_with_dot(s@) ==> (r is Ok <==> (mime_parse_of(s@) matches Some(m) && m.1.len() > 0)),
            !starts_with_dot(s@) ==> (r matches Ok(x) ==> Some(x.0@) == mime_parse_of(s@)),
            !starts_with_dot(s@) ==> (r matches Err(e) ==> (e matches Error::InvalidMime(t) && t@ == s@)),
            starts_with_dot(s@) ==> (r matches Err(e) ==> (e matches Error::Ambiguous(t) && t@ == s@)),
    {
        if s.unicode_len() > 0 && s.get_char(0) == '.' {
            let guesses = match mimes_from_file_name(s) {
                Some(v) => v,
                None => Vec::new(),
            };
            match decide_ext_mime(s, &guesses) {
                Ok(m) => Ok(MimeOrExtension(m)),
                Err(e) => Err(e),
            }
        } else {
            match parse_mime(s) {
                Some(m) if m.sub.as_str().unicode_len() > 0 => Ok(MimeOrExtension(m)),
                _ => Err(Error::InvalidMime(s.to_owned())),
            }
        }
    }
}

impl std::str::FromStr for MimeOrExtension {
    type Err = Error;

    fn from_str(s: &str) -> Result<MimeOrExtension, Error> {
        MimeOrExtension::from_str(s)
    }
}

} // verus!
