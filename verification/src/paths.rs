//! Paths held as strings: joining relative components the way
//! `PathBuf::push` does, and splitting a file name at its last dot the way
//! `Path::extension` and `Path::file_stem` do.

use vstd::prelude::*;
use vstd::string::*;

verus! {

/// The operating system the launcher runs on.
#[derive(Clone, Copy, Debug, PartialEq, Eq, Structural)]
pub enum Platform {
    Windows,
    MacOs,
    /// Unix other than macOS.
    Linux,
    /// Anything else.
    Other,
}

/// Whether `c` separates path components on `p` (`/`, and `\` on Windows).
pub open spec fn is_separator(p: Platform, c: char) -> bool {
    c == '/' || (p == Platform::Windows && c == '\\')
}

/// The separator `PathBuf::push` inserts on `p`.
pub open spec fn separator(p: Platform) -> char {
    if p == Platform::Windows {
        '\\'
    } else {
        '/'
    }
}

/// A relative component without separators, drive colon or parent/current
/// directory meaning.
pub open spec fn is_plain_component(c: Seq<char>) -> bool {
    &&& c.len() > 0
    &&& forall|i: int| 0 <= i < c.len() ==> c[i] != '/' && c[i] != '\\' && c[i] != ':'
    &&& c != "."@
    &&& c != ".."@
}

/// `base` is a bare Windows drive such as `C:`.
pub open spec fn is_bare_drive(p: Platform, base: Seq<char>) -> bool {
    &&& p == Platform::Windows
    &&& base.len() == 2
    &&& base[1] == ':'
    &&& (('a' <= base[0] && base[0] <= 'z') || ('A' <= base[0] && base[0] <= 'Z'))
}

/// `base` joined with the plain component `comp`: a separator goes between
/// them unless `base` is empty, already ends in one, or is a bare Windows
/// drive.
pub open spec fn joined(p: Platform, base: Seq<char>, comp: Seq<char>) -> Seq<char> {
    if base.len() > 0 && !is_separator(p, base.last()) && !is_bare_drive(p, base) {
        base + seq![separator(p)] + comp
    } else {
        base + comp
    }
}

/// `base` joined with each of `comps` in turn.
pub open spec fn joined_all(p: Platform, base: Seq<char>, comps: Seq<Seq<char>>) -> Seq<char>
    decreases comps.len(),
{
    if comps.len() == 0 {
        base
    } else {
        joined(p, joined_all(p, base, comps.drop_last()), comps.last())
    }
}

fn separator_text(p: Platform) -> (r: &'static str)
    ensures
        r@ == seq![separator(p)],
{
    match p {
        Platform::Windows => {
            proof { reveal_strlit("\\"); }
            assert("\\"@ =~= seq!['\\']);
            "\\"
        },
        _ => {
            proof { reveal_strlit("/"); }
            assert("/"@ =~= seq!['/']);
            "/"
        },
    }
}

/// Joins a plain relative component onto a path.
pub fn join_path(p: Platform, base: &str, comp: &str) -> (r: String)
    requires
        is_plain_component(comp@),
    ensures
        r@ == joined(p, base@, comp@),
{
    let mut r = String::from_str(base);
    let n = base.unicode_len();
    if n > 0 {
        let last = base.get_char(n - 1);
        let sep = last == '/' || (p == Platform::Windows && last == '\\');
        let drive = p == Platform::Windows && n == 2 && last == ':' && {
            let c = base.get_char(0);
            ('a' <= c && c <= 'z') || ('A' <= c && c <= 'Z')
        };
        if !sep && !drive {
            r.append(separator_text(p));
        }
    }
    r.append(comp);
    r
}

/// Index of the last `.` in `s`, or -1 if there is none.
pub open spec fn last_dot(s: Seq<char>) -> int
    decreases s.len(),
{
    if s.len() == 0 {
        -1
    } else if s.last() == '.' {
        s.len() - 1
    } else {
        last_dot(s.drop_last())
    }
}

proof fn lemma_last_dot(s: Seq<char>)
    ensures
        -1 <= last_dot(s) < s.len(),
        last_dot(s) >= 0 ==> s[last_dot(s)] == '.',
        forall|i: int| last_dot(s) < i < s.len() ==> s[i] != '.',
    decreases s.len(),
{
    if s.len() > 0 && s.last() != '.' {
        lemma_last_dot(s.drop_last());
        assert forall|i: int| last_dot(s) < i < s.len() implies s[i] != '.' by {
            if i < s.len() - 1 {
                assert(s[i] == s.drop_last()[i]);
            }
        }
    }
}

/// The extension of a file name (`Path::extension`): what follows the last
/// dot, unless there is no dot or the only dot leads the name.
pub open spec fn extension(name: Seq<char>) -> Option<Seq<char>> {
    if last_dot(name) <= 0 {
        None
    } else {
        Some(name.subrange(last_dot(name) + 1, name.len() as int))
    }
}

/// The stem of a file name (`Path::file_stem`): what precedes the last dot,
/// or the whole name if there is no dot or the only dot leads the name.
pub open spec fn file_stem(name: Seq<char>) -> Seq<char> {
    if last_dot(name) <= 0 {
        name
    } else {
        name.subrange(0, last_dot(name))
    }
}

fn last_dot_exec(name: &str) -> (r: Option<usize>)
    ensures
        r is None <==> last_dot(name@) == -1,
        r matches Some(i) ==> i == last_dot(name@),
{
    proof { lemma_last_dot(name@); }
    let n = name.unicode_len();
    let mut i: usize = n;
    assert(name@.take(n as int) =~= name@);
    while i > 0
        invariant
            i <= n,
            n == name@.len(),
            last_dot(name@) == last_dot(name@.take(i as int)),
        decreases i,
    {
        assert(name@.take(i as int).last() == name@[i - 1]);
        if name.get_char(i - 1) == '.' {
            return Some(i - 1);
        }
        assert(name@.take(i as int).drop_last() =~= name@.take(i - 1));
        i = i - 1;
    }
    None
}

/// The extension of a file name.
pub fn file_extension(name: &str) -> (r: Option<String>)
    ensures
        r is Some <==> extension(name@) is Some,
        r matches Some(e) ==> e@ == extension(name@)->0,
{
    proof { lemma_last_dot(name@); }
    match last_dot_exec(name) {
        Some(i) => {
            let n = name.unicode_len();
            if i == 0 {
                None
            } else {
                Some(String::from_str(name.substring_char(i + 1, n)))
            }
        },
        None => None,
    }
}

/// The stem of a file name.
pub fn file_stem_of(name: &str) -> (r: String)
    ensures
        r@ == file_stem(name@),
{
    proof { lemma_last_dot(name@); }
    match last_dot_exec(name) {
        Some(i) => {
            if i == 0 {
                String::from_str(name)
            } else {
                String::from_str(name.substring_char(0, i))
            }
        },
        None => String::from_str(name),
    }
}

} // verus!
