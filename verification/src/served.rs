//! What a local server serves for a leased path: the path itself where it
//! names a directory, and the directory that holds it where it names a file.

use vstd::prelude::*;

verus! {

/// Where the last `/` of `path` stands, if it has one.
pub open spec fn last_slash(path: Seq<char>) -> Option<int>
    decreases path.len(),
{
    if path.len() == 0 {
        None
    } else if path.last() == '/' {
        Some(path.len() - 1)
    } else {
        last_slash(path.drop_last())
    }
}

/// `last_slash` is the greatest index at which `path` holds a `/`.
pub proof fn lemma_last_slash(path: Seq<char>)
    ensures
        match last_slash(path) {
            Some(at) => 0 <= at < path.len() && path[at] == '/' && forall|i: int|
                at < i < path.len() ==> path[i] != '/',
            None => forall|i: int| 0 <= i < path.len() ==> path[i] != '/',
        },
    decreases path.len(),
{
    if path.len() > 0 && path.last() != '/' {
        let front = path.drop_last();
        lemma_last_slash(front);
        assert forall|i: int| 0 <= i < front.len() implies front[i] == path[i] by {}
        match last_slash(front) {
            Some(at) => {
                assert forall|i: int| at < i < path.len() implies path[i] != '/' by {
                    if i < front.len() {
                        assert(front[i] == path[i]);
                    }
                }
            },
            None => {
                assert forall|i: int| 0 <= i < path.len() implies path[i] != '/' by {
                    if i < front.len() {
                        assert(front[i] == path[i]);
                    }
                }
            },
        }
    }
}

/// The directory that holds the file `path`: what stands before the last
/// `/`, the root for a file directly under it, and `.` for a bare name.
pub open spec fn directory_of(path: Seq<char>) -> Seq<char> {
    match last_slash(path) {
        Some(at) => if at == 0 {
            seq!['/']
        } else {
            path.take(at)
        },
        None => seq!['.'],
    }
}

/// The name of the file `path` inside its directory.
pub open spec fn file_name_of(path: Seq<char>) -> Seq<char> {
    match last_slash(path) {
        Some(at) => path.skip(at + 1),
        None => path,
    }
}

fn find_last_slash(path: &str) -> (found: Option<usize>)
    ensures
        match found {
            Some(at) => last_slash(path@) == Some(at as int) && at < path@.len(),
            None => last_slash(path@) is None,
        },
{
    let mut end: usize = path.unicode_len();
    assert(path@.take(end as int) =~= path@);
    while end > 0
        invariant
            end <= path@.len(),
            last_slash(path@) == last_slash(path@.take(end as int)),
        decreases end,
    {
        let ghost upto = path@.take(end as int);
        assert(upto.last() == path@[end - 1]);
        assert(upto.drop_last() =~= path@.take(end - 1));
        if path.get_char(end - 1) == '/' {
            return Some(end - 1);
        }
        end -= 1;
    }
    None
}

/// The directory that a server for `path` is rooted at: `path` itself
/// unless it names a file, and then the directory that holds the file.
pub fn server_root(path: &str, names_file: bool) -> (root: String)
    ensures
        root@ == if names_file {
            directory_of(path@)
        } else {
            path@
        },
{
    if !names_file {
        return path.to_owned();
    }
    match find_last_slash(path) {
        Some(at) => {
            if at == 0 {
                proof {
                    reveal_strlit("/");
                    assert("/"@ =~= seq!['/']);
                }
                "/".to_owned()
            } else {
                assert(path@.subrange(0, at as int) =~= path@.take(at as int));
                path.substring_char(0, at).to_owned()
            }
        },
        None => {
            proof {
                reveal_strlit(".");
                assert("."@ =~= seq!['.']);
            }
            ".".to_owned()
        },
    }
}

/// What a server for `path` has to be asked for: the file's name where
/// `path` names a file, and nothing where it names a directory.
pub fn served_entry(path: &str, names_file: bool) -> (entry: String)
    ensures
        entry@ == if names_file {
            file_name_of(path@)
        } else {
            Seq::<char>::empty()
        },
{
    if !names_file {
        return String::new();
    }
    match find_last_slash(path) {
        Some(at) => {
            let end = path.unicode_len();
            assert(path@.subrange(at as int + 1, end as int) =~= path@.skip(at as int + 1));
            path.substring_char(at + 1, end).to_owned()
        },
        None => path.to_owned(),
    }
}

/// A path is its directory, a `/` and its file name, unless it is a bare
/// name or stands directly under the root.
pub proof fn law_path_parts(path: Seq<char>)
    ensures
        match last_slash(path) {
            Some(at) => if at == 0 {
                path == directory_of(path) + file_name_of(path)
            } else {
                path == directory_of(path) + seq!['/'] + file_name_of(path)
            },
            None => path == file_name_of(path),
        },
        forall|i: int| 0 <= i < file_name_of(path).len() ==> file_name_of(path)[i] != '/',
{
    lemma_last_slash(path);
    match last_slash(path) {
        Some(at) => {
            if at == 0 {
                assert(path =~= directory_of(path) + file_name_of(path));
            } else {
                assert(path =~= directory_of(path) + seq!['/'] + file_name_of(path));
            }
            assert forall|i: int| 0 <= i < file_name_of(path).len() implies file_name_of(path)[i]
                != '/' by {
                assert(file_name_of(path)[i] == path[at + 1 + i]);
            }
        },
        None => {},
    }
}

} // verus!
