use vstd::prelude::*;
use vstd::string::*;

verus! {

/// The decimal digit for `d`, which is below ten.
pub open spec fn digit_char(d: nat) -> char {
    if d == 0 { '0' } else if d == 1 { '1' } else if d == 2 { '2' } else if d == 3 { '3' }
    else if d == 4 { '4' } else if d == 5 { '5' } else if d == 6 { '6' } else if d == 7 { '7' }
    else if d == 8 { '8' } else { '9' }
}

/// The decimal digits of `n`, without leading zeros.
pub open spec fn decimal(n: nat) -> Seq<char>
    decreases n,
{
    if n < 10 {
        seq![digit_char(n)]
    } else {
        decimal(n / 10) + seq![digit_char(n % 10)]
    }
}

/// Lexicographic order of texts by code point, as `String`'s `Ord` orders
/// them.
pub open spec fn text_le(a: Seq<char>, b: Seq<char>) -> bool
    decreases a.len(),
{
    if a.len() == 0 {
        true
    } else if b.len() == 0 {
        false
    } else if a[0] != b[0] {
        (a[0] as u32) < (b[0] as u32)
    } else {
        text_le(a.drop_first(), b.drop_first())
    }
}

/// The texts of `v` are in ascending order.
pub open spec fn texts_sorted(v: Seq<String>) -> bool {
    forall|i: int, j: int| 0 <= i < j < v.len() ==> text_le(#[trigger] v[i]@, #[trigger] v[j]@)
}

/// The character sequences of `v`.
pub open spec fn text_views(v: Seq<String>) -> Seq<Seq<char>> {
    v.map_values(|t: String| t@)
}

/// The text of the digit `d`, which is below ten.
fn digit_text(d: u64) -> (r: &'static str)
    requires
        d < 10,
    ensures
        r@ == seq![digit_char(d as nat)],
{
    proof {
        reveal_strlit("0");
        reveal_strlit("1");
        reveal_strlit("2");
        reveal_strlit("3");
        reveal_strlit("4");
        reveal_strlit("5");
        reveal_strlit("6");
        reveal_strlit("7");
        reveal_strlit("8");
        reveal_strlit("9");
    }
    if d == 0 { "0" } else if d == 1 { "1" } else if d == 2 { "2" } else if d == 3 { "3" }
    else if d == 4 { "4" } else if d == 5 { "5" } else if d == 6 { "6" } else if d == 7 { "7" }
    else if d == 8 { "8" } else { "9" }
}

/// The decimal digits of `n`.
pub fn decimal_text(n: u64) -> (r: String)
    ensures
        r@ == decimal(n as nat),
    decreases n,
{
    if n < 10 {
        String::from_str(digit_text(n))
    } else {
        let mut s = decimal_text(n / 10);
        s.append(digit_text(n % 10));
        s
    }
}

/// `s` with each backslash turned into a `/`.
pub open spec fn forward_slashes(s: Seq<char>) -> Seq<char> {
    s.map_values(|c: char| if c == '\\' { '/' } else { c })
}

/// `s` with each backslash turned into a `/`.
pub fn to_forward_slashes(s: &str) -> (r: String)
    ensures
        r@ == forward_slashes(s@),
{
    let n = s.unicode_len();
    let slash = "/";
    proof {
        reveal_strlit("/");
    }
    let mut out = String::new();
    let mut i: usize = 0;
    while i < n
        invariant
            n == s@.len(),
            i <= n,
            slash@ == seq!['/'],
            out@ == forward_slashes(s@.subrange(0, i as int)),
        decreases n - i,
    {
        let c = s.get_char(i);
        if c == '\\' {
            out.append(slash);
        } else {
            out.append(s.substring_char(i, i + 1));
        }
        assert(out@ =~= forward_slashes(s@.subrange(0, i + 1)));
        i = i + 1;
    }
    assert(s@.subrange(0, n as int) =~= s@);
    out
}

/// Relies on `itertools::Itertools::sorted` over `String`s (a `slice::sort`
/// of the collected items): the same texts, in ascending order.
#[verifier::external_body]
pub(crate) fn sort_texts(v: Vec<String>) -> (r: Vec<String>)
    ensures
        text_views(r@).to_multiset() == text_views(v@).to_multiset(),
        texts_sorted(r@),
{
    itertools::Itertools::sorted(v.into_iter()).collect()
}

/// `dir` without one trailing `/`.
pub open spec fn trim_slash(dir: Seq<char>) -> Seq<char> {
    if dir.len() > 0 && dir.last() == '/' {
        dir.drop_last()
    } else {
        dir
    }
}

/// `path` relative to the directory `dir` (which may end in `/`): what
/// follows `dir` and a `/` when `path` lies under `dir`, nothing when the
/// two name the same directory, and `path` itself otherwise.
pub open spec fn relative_to(path: Seq<char>, dir: Seq<char>) -> Seq<char> {
    let d = trim_slash(dir);
    if dir.len() == 0 {
        path
    } else if path == dir || path == d {
        Seq::empty()
    } else if d.len() < path.len() && path.subrange(0, d.len() as int) == d && path[d.len() as int] == '/' {
        path.subrange(d.len() as int + 1, path.len() as int)
    } else {
        path
    }
}

/// `path` relative to `dir`, with `/` as the only separator.
pub open spec fn display_path(path: Seq<char>, dir: Seq<char>) -> Seq<char> {
    forward_slashes(relative_to(path, dir))
}

/// Whether `text` begins with `prefix`.
fn starts_with(text: &str, prefix: &str) -> (r: bool)
    ensures
        r == (prefix@.len() <= text@.len() && text@.subrange(0, prefix@.len() as int) == prefix@),
{
    let n = text.unicode_len();
    let m = prefix.unicode_len();
    if m > n {
        return false;
    }
    let mut i: usize = 0;
    while i < m
        invariant
            n == text@.len(),
            m == prefix@.len(),
            m <= n,
            i <= m,
            forall|j: int| 0 <= j < i ==> text@[j] == prefix@[j],
        decreases m - i,
    {
        if text.get_char(i) != prefix.get_char(i) {
            assert(text@.subrange(0, m as int)[i as int] != prefix@[i as int]);
            return false;
        }
        i = i + 1;
    }
    assert(text@.subrange(0, m as int) =~= prefix@);
    true
}

/// `path` relative to the directory `dir`.
pub fn relative_path(path: &String, dir: &String) -> (r: String)
    ensures
        r@ == relative_to(path@, dir@),
{
    let p = path.as_str();
    let full = dir.as_str();
    let k = full.unicode_len();
    if k == 0 {
        return path.clone();
    }
    let d = if full.get_char(k - 1) == '/' {
        full.substring_char(0, k - 1)
    } else {
        full
    };
    proof {
        if full@.last() == '/' {
            assert(d@ =~= trim_slash(dir@));
        }
    }
    if *path == *dir || p.unicode_len() == d.unicode_len() && starts_with(p, d) {
        proof {
            if path@ != dir@ {
                assert(p@ =~= d@);
            }
        }
        return String::new();
    }
    let n = p.unicode_len();
    let m = d.unicode_len();
    if m < n && starts_with(p, d) && p.get_char(m) == '/' {
        let rest = p.substring_char(m + 1, n);
        rest.to_owned()
    } else {
        proof {
            if p@ == d@ {
                assert(p@.subrange(0, m as int) =~= p@);
            }
        }
        path.clone()
    }
}

/// `path` relative to `dir`, with `/` as the only separator.
pub fn display_relative(path: &String, dir: &String) -> (r: String)
    ensures
        r@ == display_path(path@, dir@),
{
    let rel = relative_path(path, dir);
    to_forward_slashes(rel.as_str())
}

/// The texts of `items` joined with a newline between each two.
pub open spec fn joined_lines(items: Seq<String>) -> Seq<char>
    decreases items.len(),
{
    if items.len() == 0 {
        Seq::empty()
    } else if items.len() == 1 {
        items[0]@
    } else {
        joined_lines(items.drop_last()) + seq!['\n'] + items.last()@
    }
}

/// Appends the texts of `items` to `out`, one per line.
pub fn push_lines(out: &mut String, items: &Vec<String>)
    ensures
        final(out)@ == old(out)@ + joined_lines(items@),
{
    let mut i: usize = 0;
    let ghost start = out@;
    let newline = "\n";
    proof {
        reveal_strlit("\n");
    }
    assert(items@.subrange(0, 0) =~= Seq::<String>::empty());
    while i < items.len()
        invariant
            i <= items@.len(),
            newline@ == seq!['\n'],
            out@ == start + joined_lines(items@.subrange(0, i as int)),
        decreases items@.len() - i,
    {
        let ghost before = items@.subrange(0, i as int);
        let ghost after = items@.subrange(0, i + 1);
        assert(after.drop_last() =~= before);
        assert(after.last() == items@[i as int]);
        if i > 0 {
            out.append(newline);
        }
        out.append(items[i].as_str());
        assert(out@ =~= start + joined_lines(after));
        i = i + 1;
    }
    assert(items@.subrange(0, items@.len() as int) =~= items@);
}

} // verus!
