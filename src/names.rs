use vstd::prelude::*;

verus! {

/// A full repository name has the shape `owner/name`: exactly one `/`,
/// with a non-empty part on each side.
pub open spec fn valid_repo_name(s: Seq<char>) -> bool {
    exists|i: int|
        0 < i < s.len() - 1 && s[i] == '/' && (forall|j: int|
            0 <= j < s.len() && j != i ==> s[j] != '/')
}

/// `s` ends with `suffix`.
pub open spec fn has_suffix(s: Seq<char>, suffix: Seq<char>) -> bool {
    suffix.len() <= s.len() && s.subrange(s.len() - suffix.len(), s.len() as int) == suffix
}

/// The build-tool families whose configuration files are looked for.
#[derive(Clone, Copy, Debug, PartialEq, Eq, Structural)]
pub enum MarkerKind {
    Hardhat,
    Foundry,
}

/// The file names that declare a build tool of `kind`, in the order in
/// which they are checked remotely.
pub open spec fn marker_files(kind: MarkerKind) -> Seq<Seq<char>> {
    match kind {
        MarkerKind::Hardhat => seq![hardhat_js(), hardhat_ts()],
        MarkerKind::Foundry => seq![foundry_toml()],
    }
}

pub open spec fn hardhat_js() -> Seq<char> {
    seq!['h', 'a', 'r', 'd', 'h', 'a', 't', '.', 'c', 'o', 'n', 'f', 'i', 'g', '.', 'j', 's']
}

pub open spec fn hardhat_ts() -> Seq<char> {
    seq!['h', 'a', 'r', 'd', 'h', 'a', 't', '.', 'c', 'o', 'n', 'f', 'i', 'g', '.', 't', 's']
}

pub open spec fn foundry_toml() -> Seq<char> {
    seq!['f', 'o', 'u', 'n', 'd', 'r', 'y', '.', 't', 'o', 'm', 'l']
}

/// A path names a marker file of `kind` when it ends with one of its file
/// names (nested paths count).
pub open spec fn is_marker_path(kind: MarkerKind, path: Seq<char>) -> bool {
    exists|c: int| 0 <= c < marker_files(kind).len() && has_suffix(path, marker_files(kind)[c])
}

/// Tells whether `name` has the shape `owner/name`.
pub fn is_repo_name(name: &str) -> (r: bool)
    ensures
        r == valid_repo_name(name@),
{
    let n = name.unicode_len();
    let mut count: usize = 0;
    let mut pos: usize = 0;
    let mut i: usize = 0;
    while i < n
        invariant
            i <= n,
            n == name@.len(),
            count <= 2,
            count == 0 ==> forall|j: int| 0 <= j < i ==> name@[j] != '/',
            count >= 1 ==> pos < i && name@[pos as int] == '/',
            count == 1 ==> forall|j: int| 0 <= j < i && j != pos ==> name@[j] != '/',
            count == 2 ==> exists|j: int| 0 <= j < i && j != pos && name@[j] == '/',
        decreases n - i,
    {
        if name.get_char(i) == '/' {
            if count == 0 {
                pos = i;
                count = 1;
            } else if count == 1 {
                assert(name@[i as int] == '/' && i != pos);
                count = 2;
            }
        }
        i = i + 1;
    }
    let r = count == 1 && pos > 0 && pos + 1 < n;
    if r {
        assert(0 < pos < name@.len() - 1 && name@[pos as int] == '/');
    } else {
        proof {
            if valid_repo_name(name@) {
                let w = choose|w: int|
                    0 < w < name@.len() - 1 && name@[w] == '/' && (forall|j: int|
                        0 <= j < name@.len() && j != w ==> name@[j] != '/');
                assert(name@[w] == '/');
                if count == 2 {
                    let j = choose|j: int| 0 <= j < i && j != pos && name@[j] == '/';
                    assert(name@[j] == '/');
                }
            }
        }
    }
    r
}

/// Tells whether `s` ends with `suffix`.
pub fn ends_with(s: &str, suffix: &str) -> (r: bool)
    ensures
        r == has_suffix(s@, suffix@),
{
    let n = s.unicode_len();
    let m = suffix.unicode_len();
    if m > n {
        return false;
    }
    let off = n - m;
    let mut k: usize = 0;
    while k < m
        invariant
            n == s@.len(),
            m == suffix@.len(),
            off == n - m,
            k <= m,
            forall|j: int| 0 <= j < k ==> s@[off + j] == suffix@[j],
        decreases m - k,
    {
        if s.get_char(off + k) != suffix.get_char(k) {
            assert(s@.subrange(off as int, n as int)[k as int] != suffix@[k as int]);
            return false;
        }
        k = k + 1;
    }
    assert(s@.subrange(off as int, n as int) =~= suffix@);
    true
}

/// The file names of `kind`, in checking order.
pub fn marker_file(kind: MarkerKind, index: usize) -> (r: &'static str)
    requires
        index < marker_files(kind).len(),
    ensures
        r@ == marker_files(kind)[index as int],
{
    proof {
        reveal_strlit("hardhat.config.js");
        reveal_strlit("hardhat.config.ts");
        reveal_strlit("foundry.toml");
    }
    match kind {
        MarkerKind::Hardhat => if index == 0 {
            "hardhat.config.js"
        } else {
            "hardhat.config.ts"
        },
        MarkerKind::Foundry => "foundry.toml",
    }
}

/// How many file names declare a build tool of `kind`.
pub fn marker_file_count(kind: MarkerKind) -> (r: usize)
    ensures
        r == marker_files(kind).len(),
{
    match kind {
        MarkerKind::Hardhat => 2,
        MarkerKind::Foundry => 1,
    }
}

/// Tells whether an added file path names a marker file of `kind`.
pub fn is_marker(kind: MarkerKind, path: &str) -> (r: bool)
    ensures
        r == is_marker_path(kind, path@),
{
    let count = marker_file_count(kind);
    let mut c: usize = 0;
    while c < count
        invariant
            count == marker_files(kind).len(),
            c <= count,
            forall|j: int| 0 <= j < c ==> !has_suffix(path@, marker_files(kind)[j]),
        decreases count - c,
    {
        if ends_with(path, marker_file(kind, c)) {
            return true;
        }
        c = c + 1;
    }
    false
}

} // verus!
