use vstd::prelude::*;

verus! {

/// `dir` joined with the relative component `name`, as a path: a separator is
/// put between them unless `dir` is empty or already ends in one.
pub open spec fn join_spec(dir: Seq<char>, name: Seq<char>) -> Seq<char> {
    if dir.len() == 0 || dir.last() == '/' {
        dir + name
    } else {
        dir + seq!['/'] + name
    }
}

/// The directory of the project's assets (manual pages and the like), below
/// the project root.
pub fn assets_dir(project_root: &str) -> (r: String)
    ensures
        r@ == join_spec(project_root@, "assets"@),
{
    let n = project_root.unicode_len();
    let root = String::from_str(project_root);
    if n == 0 || project_root.get_char(n - 1) == '/' {
        root.concat("assets")
    } else {
        proof {
            reveal_strlit("/");
        }
        root.concat("/").concat("assets")
    }
}

} // verus!
