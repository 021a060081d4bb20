//! Path and file-name helpers. Paths are handled as their `/`-separated text.

use vstd::prelude::*;
use crate::error::Error;
use crate::utils::text::{
    chars_of, contains, contains_seq, seq_eq, slice, str_lowercase, string_of, to_lower,
};

verus! {

/// Index of the last occurrence of `c` in `s`, or -1.
pub open spec fn last_index_of(s: Seq<char>, c: char) -> int
    decreases s.len(),
{
    if s.len() == 0 {
        -1
    } else if s.last() == c {
        s.len() - 1
    } else {
        last_index_of(s.drop_last(), c)
    }
}

/// The last component of a path when it is a normal name, as `Path::file_name`
/// returns it: trailing `/` and `.` components are skipped, `..` has no name.
pub open spec fn file_name(p: Seq<char>) -> Option<Seq<char>>
    decreases p.len(),
{
    if p.len() == 0 {
        None
    } else if p.last() == '/' {
        file_name(p.drop_last())
    } else {
        let k = last_index_of(p, '/');
        let comp = p.subrange(k + 1, p.len() as int);
        if comp == seq!['.'] {
            proof {
                lemma_last_index_bounds(p, '/');
            }
            file_name(p.subrange(0, k + 1))
        } else if comp == seq!['.', '.'] {
            None
        } else {
            Some(comp)
        }
    }
}

/// `Path::extension`: the part of the file name after its last `.`, unless
/// there is no `.` or the only one starts the name.
pub open spec fn extension(p: Seq<char>) -> Option<Seq<char>> {
    match file_name(p) {
        Some(name) => {
            let j = last_index_of(name, '.');
            if j <= 0 {
                None
            } else {
                Some(name.subrange(j + 1, name.len() as int))
            }
        },
        None => None,
    }
}

/// The extensions recognized as video files.
pub open spec fn video_extensions() -> Seq<Seq<char>> {
    seq![
        "mkv"@,
        "mp4"@,
        "avi"@,
        "mov"@,
        "wmv"@,
        "m4v"@,
        "ts"@,
        "m2ts"@,
        "flv"@,
        "webm"@,
        "mpg"@,
        "mpeg"@,
        "rmvb"@,
    ]
}

pub proof fn lemma_last_index_bounds(s: Seq<char>, c: char)
    ensures
        -1 <= last_index_of(s, c) < s.len(),
        last_index_of(s, c) >= 0 ==> s[last_index_of(s, c)] == c,
        forall|k: int| last_index_of(s, c) < k < s.len() ==> s[k] != c,
    decreases s.len(),
{
    if s.len() > 0 && s.last() != c {
        let t = s.drop_last();
        lemma_last_index_bounds(t, c);
        assert forall|k: int| last_index_of(s, c) < k < s.len() implies s[k] != c by {
            if k < t.len() {
                assert(s[k] == t[k]);
            }
        }
    }
}

pub fn rfind_char(s: &Vec<char>, c: char) -> (r: Option<usize>)
    ensures
        match r {
            Some(k) => k == last_index_of(s@, c) && k < s.len(),
            None => last_index_of(s@, c) == -1,
        },
{
    let mut i: usize = s.len();
    assert(s@.subrange(0, i as int) =~= s@);
    while i > 0
        invariant
            i <= s.len(),
            last_index_of(s@, c) == last_index_of(s@.subrange(0, i as int), c),
        decreases i,
    {
        assert(s@.subrange(0, i as int).drop_last() =~= s@.subrange(0, i - 1));
        if s[i - 1] == c {
            return Some(i - 1);
        }
        i = i - 1;
    }
    None
}

pub fn file_name_of(p: &Vec<char>) -> (r: Option<Vec<char>>)
    ensures
        match r {
            Some(v) => file_name(p@) == Some(v@),
            None => file_name(p@) is None,
        },
{
    let mut end: usize = p.len();
    assert(p@.subrange(0, end as int) =~= p@);
    loop
        invariant
            end <= p.len(),
            file_name(p@) == file_name(p@.subrange(0, end as int)),
        decreases end,
    {
        let ghost q = p@.subrange(0, end as int);
        if end == 0 {
            return None;
        }
        if p[end - 1] == '/' {
            assert(q.drop_last() =~= p@.subrange(0, end - 1));
            end = end - 1;
        } else {
            let head = slice(p, 0, end);
            let start: usize = match rfind_char(&head, '/') {
                Some(k) => k + 1,
                None => 0,
            };
            proof {
                lemma_last_index_bounds(q, '/');
            }
            let comp = slice(p, start, end);
            assert(comp@ =~= q.subrange(last_index_of(q, '/') + 1, q.len() as int));
            if comp.len() == 1 && comp[0] == '.' {
                assert(comp@ =~= seq!['.']);
                assert(q.subrange(0, start as int) =~= p@.subrange(0, start as int));
                end = start;
            } else if comp.len() == 2 && comp[0] == '.' && comp[1] == '.' {
                assert(comp@ =~= seq!['.', '.']);
                return None;
            } else {
                assert(comp@ != seq!['.']);
                assert(comp@ != seq!['.', '.']);
                return Some(comp);
            }
        }
    }
}

fn extension_chars(p: &Vec<char>) -> (r: Option<Vec<char>>)
    ensures
        match r {
            Some(v) => extension(p@) == Some(v@),
            None => extension(p@) is None,
        },
{
    match file_name_of(p) {
        Some(name) => {
            match rfind_char(&name, '.') {
                Some(j) => {
                    if j == 0 {
                        None
                    } else {
                        Some(slice(&name, j + 1, name.len()))
                    }
                },
                None => None,
            }
        },
        None => None,
    }
}

/// The extension of a path, as `Path::extension` gives it.
pub fn path_extension(path: &str) -> (r: Option<String>)
    ensures
        match r {
            Some(e) => extension(path@) == Some(e@),
            None => extension(path@) is None,
        },
{
    let p = chars_of(path);
    match extension_chars(&p) {
        Some(e) => Some(string_of(&e)),
        None => None,
    }
}

/// Get file extension in lowercase.
pub fn get_extension(path: &str) -> (r: Option<String>)
    ensures
        match r {
            Some(e) => extension(path@) is Some && e@ == str_lowercase(extension(path@)->0),
            None => extension(path@) is None,
        },
{
    let p = chars_of(path);
    match extension_chars(&p) {
        Some(e) => {
            let l = to_lower(&e);
            Some(string_of(&l))
        },
        None => None,
    }
}

/// Whether a (lowercase) extension is one of the video extensions.
pub fn is_video_extension(ext: &str) -> (r: bool)
    ensures
        r == video_extensions().contains(ext@),
{
    let ev = chars_of(ext);
    let exts: [&str; 13] = [
        "mkv",
        "mp4",
        "avi",
        "mov",
        "wmv",
        "m4v",
        "ts",
        "m2ts",
        "flv",
        "webm",
        "mpg",
        "mpeg",
        "rmvb",
    ];
    let ghost list = video_extensions();
    assert(exts@.map_values(|s: &str| s@) =~= list);
    let mut i: usize = 0;
    while i < 13
        invariant
            i <= 13,
            ev@ == ext@,
            list == video_extensions(),
            exts@.map_values(|s: &str| s@) == list,
            forall|k: int| 0 <= k < i ==> list[k] != ev@,
        decreases 13 - i,
    {
        let cand = chars_of(exts[i]);
        assert(list[i as int] == exts@[i as int]@);
        if seq_eq(&cand, &ev) {
            assert(list[i as int] == ev@);
            assert(list.contains(ev@));
            return true;
        }
        i = i + 1;
    }
    false
}

/// Check if a file is a video file based on extension.
pub fn is_video_file(path: &str) -> (r: bool)
    ensures
        r == (extension(path@) is Some && video_extensions().contains(
            str_lowercase(extension(path@)->0),
        )),
{
    match get_extension(path) {
        Some(e) => is_video_extension(e.as_str()),
        None => false,
    }
}

/// Check if a path contains "sample" (case insensitive).
pub fn is_sample(path: &str) -> (r: bool)
    ensures
        r == contains_seq(str_lowercase(path@), "sample"@),
{
    let p = chars_of(path);
    let l = to_lower(&p);
    let pat = chars_of("sample");
    contains(&l, &pat)
}

/// Check that a path exists and is a directory, given what the file system reports.
pub fn ensure_directory(path: &str, exists: bool, is_dir: bool) -> (r: Result<(), Error>)
    ensures
        r is Ok <==> exists && is_dir,
        !exists ==> (r matches Err(Error::PathNotFound(p)) && p@ == path@),
        exists && !is_dir ==> (r matches Err(Error::NotADirectory(p)) && p@ == path@),
{
    if !exists {
        return Err(Error::PathNotFound(path.to_string()));
    }
    if !is_dir {
        return Err(Error::NotADirectory(path.to_string()));
    }
    Ok(())
}

} // verus!
