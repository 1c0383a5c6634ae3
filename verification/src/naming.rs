//! Output-name derivation: the final component of a slash-separated path, its
//! stem, and the policy that turns an input path and an optional requested
//! name into the name of the exported `.mp4` file.

use vstd::prelude::*;

verus! {

/// Index just past the last occurrence of `c` in `s`, or 0 when `s` has none.
pub open spec fn after_last(s: Seq<char>, c: char) -> int
    decreases s.len(),
{
    if s.len() == 0 {
        0
    } else if s.last() == c {
        s.len() as int
    } else {
        after_last(s.drop_last(), c)
    }
}

/// `after_last` is pinned down by its defining property: everything from the
/// cut onward differs from `c`, and the cut sits just past a `c` (or at 0).
pub proof fn lemma_after_last_at(s: Seq<char>, c: char, k: int)
    requires
        0 <= k <= s.len(),
        forall|i: int| k <= i < s.len() ==> s[i] != c,
        k > 0 ==> s[k - 1] == c,
    ensures
        after_last(s, c) == k,
    decreases s.len(),
{
    if s.len() == 0 {
    } else if s.last() == c {
        assert(k == s.len());
    } else {
        assert(k < s.len());
        lemma_after_last_at(s.drop_last(), c, k);
    }
}

/// The file named by a path, as `std::path` reads one on Unix: trailing
/// separators are ignored, a final `.` component is skipped, and an empty
/// path or a final `..` component names no file.
pub open spec fn file_name_of(p: Seq<char>) -> Option<Seq<char>>
    decreases p.len(),
{
    if p.len() == 0 {
        None
    } else if p.last() == '/' {
        file_name_of(p.drop_last())
    } else {
        let name = p.subrange(after_last(p, '/'), p.len() as int);
        if name == seq!['.'] {
            file_name_of(p.drop_last())
        } else if name == seq!['.', '.'] {
            None
        } else {
            Some(name)
        }
    }
}

/// The stem of a file name: everything before the last `.`, except that a
/// name without a `.`, or whose only `.` leads it, is its own stem.
pub open spec fn stem_of(name: Seq<char>) -> Seq<char> {
    let d = after_last(name, '.');
    if d <= 1 {
        name
    } else {
        name.take(d - 1)
    }
}

/// The extension every exported file carries.
pub open spec fn mp4_ext() -> Seq<char> {
    ".mp4"@
}

/// The name used when the input path yields no stem.
pub open spec fn fallback_name() -> Seq<char> {
    "export.mp4"@
}

/// Whether `s` literally ends in `.mp4` (case-sensitive).
pub open spec fn ends_with_mp4(s: Seq<char>) -> bool {
    s.len() >= 4 && s.subrange(s.len() - 4, s.len() as int) == mp4_ext()
}

/// The default output name: the input's file stem with `.mp4` appended, or
/// `export.mp4` when the input path names no file.
pub open spec fn default_name_of(input: Seq<char>) -> Seq<char> {
    match file_name_of(input) {
        Some(n) => stem_of(n) + mp4_ext(),
        None => fallback_name(),
    }
}

/// The output name the bridge settles on: a requested name is kept verbatim
/// when it already ends in `.mp4` and gets `.mp4` appended otherwise; with no
/// requested name the default applies.
pub open spec fn output_name_of(input: Seq<char>, requested: Option<Seq<char>>) -> Seq<char> {
    match requested {
        Some(name) => if ends_with_mp4(name) {
            name
        } else {
            name + mp4_ext()
        },
        None => default_name_of(input),
    }
}

/// The file named by `path`, per `file_name_of`.
pub fn file_name(path: &str) -> (r: Option<String>)
    ensures
        match file_name_of(path@) {
            Some(n) => r matches Some(s) && s@ == n,
            None => r is None,
        },
{
    let mut end: usize = path.unicode_len();
    proof {
        assert(path@.take(end as int) =~= path@);
    }
    loop
        invariant
            end <= path@.len(),
            file_name_of(path@.take(end as int)) == file_name_of(path@),
        decreases end,
    {
        let ghost q = path@.take(end as int);
        if end == 0 {
            return None;
        }
        let last = path.get_char(end - 1);
        if last == '/' {
            proof {
                assert(q.drop_last() =~= path@.take(end - 1));
            }
            end = end - 1;
        } else {
            let mut start: usize = end;
            while start > 0 && path.get_char(start - 1) != '/'
                invariant
                    start <= end <= path@.len(),
                    end > 0 && path@[end - 1] != '/',
                    forall|i: int| start <= i < end ==> path@[i] != '/',
                    start == end ==> (start > 0 && path@[start - 1] != '/'),
                decreases start,
            {
                start = start - 1;
            }
            proof {
                assert(start < end);
                assert(forall|i: int| start <= i < q.len() ==> q[i] != '/');
                lemma_after_last_at(q, '/', start as int);
            }
            let ghost name = q.subrange(start as int, end as int);
            proof {
                assert(name =~= path@.subrange(start as int, end as int));
            }
            if end - start == 1 && last == '.' {
                proof {
                    assert(name =~= seq!['.']);
                    assert(q.drop_last() =~= path@.take(end - 1));
                }
                end = end - 1;
            } else if end - start == 2 && path.get_char(start) == '.' && last == '.' {
                proof {
                    assert(name =~= seq!['.', '.']);
                }
                return None;
            } else {
                proof {
                    if name == seq!['.'] {
                        assert(name[0] == '.');
                        assert(false);
                    }
                    if name == seq!['.', '.'] {
                        assert(name[0] == '.' && name[1] == '.');
                        assert(false);
                    }
                }
                let s = path.substring_char(start, end);
                return Some(s.to_owned());
            }
        }
    }
}

/// The stem of the file named by `path`: `file_name_of` composed with
/// `stem_of`.
pub fn file_stem(path: &str) -> (r: Option<String>)
    ensures
        match file_name_of(path@) {
            Some(n) => r matches Some(s) && s@ == stem_of(n),
            None => r is None,
        },
{
    let name = match file_name(path) {
        Some(name) => name,
        None => {
            return None;
        },
    };
    let n = name.as_str();
    let len: usize = n.unicode_len();
    let mut d: usize = len;
    while d > 0 && n.get_char(d - 1) != '.'
        invariant
            d <= len == n@.len(),
            forall|i: int| d <= i < len ==> n@[i] != '.',
        decreases d,
    {
        d = d - 1;
    }
    proof {
        lemma_after_last_at(n@, '.', d as int);
    }
    if d <= 1 {
        Some(name)
    } else {
        Some(n.substring_char(0, d - 1).to_owned())
    }
}

/// Whether `name` literally ends in `.mp4`, per `ends_with_mp4`.
pub fn has_mp4_ext(name: &str) -> (r: bool)
    ensures
        r == ends_with_mp4(name@),
{
    proof {
        reveal_strlit(".mp4");
    }
    let len: usize = name.unicode_len();
    if len < 4 {
        return false;
    }
    let ghost tail = name@.subrange(name@.len() - 4, name@.len() as int);
    let r = name.get_char(len - 4) == '.' && name.get_char(len - 3) == 'm' && name.get_char(
        len - 2,
    ) == 'p' && name.get_char(len - 1) == '4';
    proof {
        if r {
            assert(tail =~= mp4_ext());
        } else {
            if tail == mp4_ext() {
                assert(tail[0] == '.' && tail[1] == 'm' && tail[2] == 'p' && tail[3] == '4');
                assert(false);
            }
        }
    }
    r
}

/// The default output name for `input_path`, per `default_name_of`.
pub fn default_output_name(input_path: &str) -> (r: String)
    ensures
        r@ == default_name_of(input_path@),
{
    match file_stem(input_path) {
        Some(stem) => stem.concat(".mp4"),
        None => String::from_str("export.mp4"),
    }
}

/// The output name the bridge settles on, per `output_name_of`.
pub fn resolve_output_name(input_path: &str, output_file_name: Option<String>) -> (r: String)
    ensures
        r@ == output_name_of(input_path@, output_file_name.deep_view()),
{
    match output_file_name {
        Some(name) => {
            if has_mp4_ext(name.as_str()) {
                name
            } else {
                name.concat(".mp4")
            }
        },
        None => default_output_name(input_path),
    }
}

/// Law: with no requested name, the output name is the input's file stem
/// with `.mp4` appended, or `export.mp4` when the input names no file.
pub proof fn lemma_default_name(input: Seq<char>)
    ensures
        file_name_of(input) matches Some(n) ==> output_name_of(input, None) == stem_of(n)
            + mp4_ext(),
        file_name_of(input) is None ==> output_name_of(input, None) == fallback_name(),
{
}

/// Law: a requested name already ending in `.mp4` is used verbatim.
pub proof fn lemma_requested_mp4_kept(input: Seq<char>, name: Seq<char>)
    requires
        ends_with_mp4(name),
    ensures
        output_name_of(input, Some(name)) == name,
{
}

/// Law: a requested name not ending in `.mp4` gets `.mp4` appended, whatever
/// extension it already carries.
pub proof fn lemma_requested_name_suffixed(input: Seq<char>, name: Seq<char>)
    requires
        !ends_with_mp4(name),
    ensures
        output_name_of(input, Some(name)) == name + mp4_ext(),
{
}

proof fn lemma_append_mp4_ends(x: Seq<char>)
    ensures
        ends_with_mp4(x + mp4_ext()),
{
    reveal_strlit(".mp4");
    let y = x + mp4_ext();
    assert(y.subrange(y.len() - 4, y.len() as int) =~= mp4_ext());
}

/// Law: whatever the input and whatever was requested, the settled output
/// name ends in `.mp4`.
pub proof fn lemma_output_name_is_mp4(input: Seq<char>, requested: Option<Seq<char>>)
    ensures
        ends_with_mp4(output_name_of(input, requested)),
{
    match requested {
        Some(name) => {
            if !ends_with_mp4(name) {
                lemma_append_mp4_ends(name);
            }
        },
        None => {
            match file_name_of(input) {
                Some(n) => {
                    lemma_append_mp4_ends(stem_of(n));
                },
                None => {
                    reveal_strlit(".mp4");
                    reveal_strlit("export.mp4");
                    assert(fallback_name().subrange(6, 10) =~= mp4_ext());
                },
            }
        },
    }
}

} // verus!
