//! Small verified helpers on strings and string lists.

use vstd::prelude::*;

verus! {

/// Character-wise equality of two string slices, stated over their views.
pub fn str_eq(a: &str, b: &str) -> (r: bool)
    ensures
        r == (a@ == b@),
{
    let a_len = a.unicode_len();
    let b_len = b.unicode_len();
    if a_len != b_len {
        return false;
    }
    let mut i: usize = 0;
    while i < a_len
        invariant
            a_len == a@.len(),
            a_len == b@.len(),
            i <= a_len,
            forall|j: int| 0 <= j < i ==> a@[j] == b@[j],
        decreases a_len - i,
    {
        if a.get_char(i) != b.get_char(i) {
            return false;
        }
        i += 1;
    }
    proof {
        assert(a@ =~= b@);
    }
    true
}

/// Whether some element of `v` has the view `s`.
pub fn vec_contains_str(v: &Vec<String>, s: &str) -> (r: bool)
    ensures
        r == v.deep_view().contains(s@),
{
    let mut i: usize = 0;
    while i < v.len()
        invariant
            i <= v@.len(),
            forall|j: int| 0 <= j < i ==> v.deep_view()[j] != s@,
        decreases v@.len() - i,
    {
        if str_eq(v[i].as_str(), s) {
            proof {
                assert(v.deep_view()[i as int] == s@);
            }
            return true;
        }
        i += 1;
    }
    false
}

/// The file-name suffix that marks an entry of the clip store as a clip.
pub open spec fn clip_suffix() -> Seq<char> {
    seq!['.', 'm', 'p', '3']
}

/// A directory entry counts as a clip when its name ends in the clip suffix.
pub open spec fn is_clip_file(file: Seq<char>) -> bool {
    file.len() >= 4 && file.subrange(file.len() - 4, file.len() as int) == clip_suffix()
}

/// The clip name of a clip file: the file name with the suffix removed.
pub open spec fn clip_name_of(file: Seq<char>) -> Seq<char> {
    file.subrange(0, file.len() - 4)
}

/// The clip names derived from a directory listing: each file that ends in
/// the clip suffix contributes its name without the suffix, in listing order.
pub open spec fn clips_of(files: Seq<Seq<char>>) -> Seq<Seq<char>>
    decreases files.len(),
{
    if files.len() == 0 {
        Seq::empty()
    } else {
        let rest = clips_of(files.drop_last());
        if is_clip_file(files.last()) {
            rest.push(clip_name_of(files.last()))
        } else {
            rest
        }
    }
}

/// Derives the playable clip names from the file names of a directory
/// listing: keeps the entries whose name ends in `.mp3` and strips that
/// suffix, preserving the listing order.
pub fn get_sounds(file_names: &Vec<String>) -> (names: Vec<String>)
    ensures
        names.deep_view() == clips_of(file_names.deep_view()),
{
    let mut names: Vec<String> = Vec::new();
    let mut i: usize = 0;
    while i < file_names.len()
        invariant
            i <= file_names@.len(),
            names.deep_view() == clips_of(file_names.deep_view().take(i as int)),
        decreases file_names@.len() - i,
    {
        let file = file_names[i].as_str();
        let n = file.unicode_len();
        let ghost prev = names.deep_view();
        if n >= 4 && file.get_char(n - 4) == '.' && file.get_char(n - 3) == 'm'
            && file.get_char(n - 2) == 'p' && file.get_char(n - 1) == '3' {
            proof {
                assert(file@.subrange(file@.len() - 4, file@.len() as int) =~= clip_suffix());
            }
            let name = file.substring_char(0, n - 4);
            names.push(String::from_str(name));
            proof {
                assert(names.deep_view() =~= prev.push(clip_name_of(file@)));
            }
        } else {
            proof {
                if n >= 4 {
                    assert(!is_clip_file(file@)) by {
                        if is_clip_file(file@) {
                            let s = file@.subrange(file@.len() - 4, file@.len() as int);
                            assert(s[0] == file@[file@.len() - 4]);
                            assert(s[1] == file@[file@.len() - 3]);
                            assert(s[2] == file@[file@.len() - 2]);
                            assert(s[3] == file@[file@.len() - 1]);
                        }
                    }
                }
            }
        }
        proof {
            let fv = file_names.deep_view();
            assert(fv.take(i + 1).drop_last() =~= fv.take(i as int));
            assert(fv.take(i + 1).last() == file@);
        }
        i += 1;
    }
    proof {
        assert(file_names.deep_view().take(file_names.deep_view().len() as int)
            =~= file_names.deep_view());
    }
    names
}

} // verus!
