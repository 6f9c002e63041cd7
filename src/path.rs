use vstd::prelude::*;
use crate::error::Error;
use crate::mime::{decide_file_mime, essence_of, scheme_mime, unconfident, MimeType};

verus! {

/// What `url` reads from text that is a URL: its scheme, its serialization,
/// the local path that it names (for a `file` URL whose path converts), and
/// its path component. `None` where the text is not an absolute URL.
pub uninterp spec fn url_parts_of(s: Seq<char>) -> Option<(Seq<char>, Seq<char>, Option<Seq<char>>, Seq<char>)>;

/// Relies on `url::Url::parse`, and on `Url::scheme`, `Url::as_str`,
/// `Url::to_file_path` and `Url::path` of what it returns: all depend on the
/// text alone.
#[verifier::external_body]
fn parse_url(s: &str) -> (r: Option<(String, String, Option<String>, String)>)
    ensures
        match r {
            Some(p) => url_parts_of(s@) == Some((p.0@, p.1@, match p.2 {
                Some(f) => Some(f@),
                None => None,
            }, p.3@)),
            None => url_parts_of(s@) is None,
        },
{
    url::Url::parse(s).ok().map(
        |u| (
            u.scheme().to_owned(),
            u.as_str().to_owned(),
            u.to_file_path().ok().map(|p| p.to_string_lossy().into_owned()),
            u.path().to_owned(),
        ),
    )
}

/// Relies on `xdg_mime::GuessBuilder::guess` with the file name set: the
/// system database's guess from the name. It reads the database from disk,
/// so nothing is promised of it.
#[verifier::external_body]
fn guess_by_name(path: &str) -> (r: Option<MimeType>) {
    let db = xdg_mime::SharedMimeInfo::new();
    let mut g = db.guess_mime_type();
    g.file_name(path);
    let m = g.guess().mime_type().clone();
    m.essence_str().split_once('/').map(|(t, u)| MimeType { ty: t.to_owned(), sub: u.to_owned() })
}

/// Relies on `xdg_mime::GuessBuilder::guess` with the path set: the system
/// database's guess from the name, the metadata and the content of the file.
/// It reads the disk, so nothing is promised of it.
#[verifier::external_body]
fn guess_by_content(path: &str) -> (r: Option<MimeType>) {
    let db = xdg_mime::SharedMimeInfo::new();
    let mut g = db.guess_mime_type();
    g.file_name(path);
    g.path(path);
    let m = g.guess().mime_type().clone();
    m.essence_str().split_once('/').map(|(t, u)| MimeType { ty: t.to_owned(), sub: u.to_owned() })
}

pub open spec fn file_scheme() -> Seq<char> {
    seq!['f', 'i', 'l', 'e']
}

/// A resource given by a user: a URL, or a local path.
#[derive(Debug)]
pub enum UserPath {
    /// `text` is the URL's serialization.
    Url { text: String, scheme: String },
    File(String),
}

impl UserPath {
    /// The text of this resource: the URL's serialization, or the path.
    pub open spec fn text_spec(&self) -> Seq<char> {
        match self {
            UserPath::Url { text, .. } => text@,
            UserPath::File(p) => p@,
        }
    }

    /// Reads a path or URL. Text that is no absolute URL is a local path; a
    /// `file` URL becomes the path that it names, and is a bad path where it
    /// names none; any other URL stays a URL.
    pub fn from_str(s: &str) -> (r: Result<UserPath, Error>)
        ensures
            url_parts_of(s@) is None ==> (r matches Ok(UserPath::File(p)) && p@ == s@),
            url_parts_of(s@) matches Some(u) ==> if u.0 == file_scheme() {
                match u.2 {
                    Some(f) => r matches Ok(UserPath::File(p)) && p@ == f,
                    None => r matches Err(e) && (e matches Error::BadPath(t) && t@ == u.3),
                }
            } else {
                r matches Ok(UserPath::Url { text, scheme }) && text@ == u.1 && scheme@ == u.0
            },
    {
        match parse_url(s) {
            None => Ok(UserPath::File(s.to_owned())),
            Some((scheme, text, file, path)) => {
                proof {
                    reveal_strlit("file");
                    assert("file"@ =~= file_scheme());
                }
                let file_word = String::from_str("file");
                if scheme == file_word {
                    match file {
                        Some(f) => Ok(UserPath::File(f)),
                        None => Err(Error::BadPath(path)),
                    }
                } else {
                    Ok(UserPath::Url { text, scheme })
                }
            },
        }
    }

    /// The text of this resource.
    pub fn to_string(&self) -> (r: String)
        ensures
            r@ == self.text_spec(),
    {
        match self {
            UserPath::Url { text, .. } => text.clone(),
            UserPath::File(p) => p.clone(),
        }
    }

    /// Classifies this resource. A URL is `x-scheme-handler/<scheme>`, always.
    /// A file is what the system database guesses from its name, or else from
    /// its content; where neither is confident it is ambiguous.
    pub fn get_mime(&self) -> (r: Result<MimeType, Error>)
        ensures
            self matches UserPath::Url { scheme, .. } ==> (r matches Ok(m) && m@ == scheme_mime(scheme@)),
            self matches UserPath::File(p) ==> match r {
                Ok(m) => !unconfident(Some(m@)),
                Err(e) => e matches Error::Ambiguous(t) && t@ == p@,
            },
    {
        match self {
            UserPath::Url { scheme, .. } => Ok(MimeType::for_scheme(scheme.as_str())),
            UserPath::File(p) => {
                let by_name = guess_by_name(p.as_str());
                let confident = match &by_name {
                    Some(m) => !m.is_sentinel(),
                    None => false,
                };
                let by_content = if confident {
                    None
                } else {
                    guess_by_content(p.as_str())
                };
                decide_file_mime(p.as_str(), by_name, by_content)
            },
        }
    }
}

impl std::str::FromStr for UserPath {
    type Err = Error;

    fn from_str(s: &str) -> Result<UserPath, Error> {
        UserPath::from_str(s)
    }
}

/// A row of the mimetype table for `p`: its text, beside the essence of its
/// URL scheme's mimetype, or of a confident guess for a file.
pub open spec fn row_of(row: (String, String), p: UserPath) -> bool {
    &&& row.0@ == p.text_spec()
    &&& match p {
        UserPath::Url { scheme, .. } => row.1@ == essence_of(scheme_mime(scheme@)),
        UserPath::File(_) => exists|m: (Seq<char>, Seq<char>)| !unconfident(Some(m)) && row.1@ == essence_of(m),
    }
}

/// The rows of the mimetype table: each resource's text beside the essence
/// of its mimetype, in input order. The first resource that cannot be
/// classified fails the whole table.
pub fn mime_table(paths: &Vec<UserPath>) -> (r: Result<Vec<(String, String)>, Error>)
    ensures
        r matches Ok(rows) ==> rows@.len() == paths@.len() && forall|i: int|
            0 <= i < rows@.len() ==> row_of(#[trigger] rows@[i], paths@[i]),
        (forall|i: int| 0 <= i < paths@.len() ==> paths@[i] is Url) ==> r is Ok,
        r matches Err(e) ==> exists|k: int|
            0 <= k < paths@.len() && (#[trigger] paths@[k] matches UserPath::File(p) && (e matches Error::Ambiguous(t) && t@ == p@)),
{
    let mut rows: Vec<(String, String)> = Vec::new();
    let mut i: usize = 0;
    while i < paths.len()
        invariant
            i <= paths@.len(),
            rows@.len() == i,
            forall|j: int| 0 <= j < i ==> row_of(#[trigger] rows@[j], paths@[j]),
        decreases paths@.len() - i,
    {
        let m = match paths[i].get_mime() {
            Ok(m) => m,
            Err(e) => {
                assert(paths@[i as int] matches UserPath::File(p) && (e matches Error::Ambiguous(t) && t@ == p@));
                return Err(e);
            },
        };
        let ghost before = rows@;
        rows.push((paths[i].to_string(), m.essence()));
        assert(row_of(rows@[i as int], paths@[i as int]));
        assert forall|j: int| 0 <= j < i + 1 implies row_of(#[trigger] rows@[j], paths@[j]) by {
            if j < i {
                assert(rows@[j] == before[j]);
            }
        }
        i = i + 1;
    }
    Ok(rows)
}

} // verus!
