//! Small string operations with exact contracts over `Seq<char>`.

use vstd::prelude::*;

verus! {

/// Equality of string slices (`str::eq` of std) compares their contents.
pub assume_specification[ <str as PartialEq>::eq ](s: &str, other: &str) -> (res: bool)
    ensures
        res == (s@ == other@),
;

/// Whether two string slices hold the same characters.
pub fn str_equal(a: &str, b: &str) -> (r: bool)
    ensures
        r == (a@ == b@),
{
    a.eq(b)
}

/// `i` is the first index at which `s` holds `x`.
pub open spec fn is_first_index<A>(s: Seq<A>, x: A, i: int) -> bool {
    &&& 0 <= i < s.len()
    &&& s[i] == x
    &&& forall|j: int| 0 <= j < i ==> s[j] != x
}

/// The first index at which `s` holds `x`, if any.
pub open spec fn first_index<A>(s: Seq<A>, x: A) -> Option<int> {
    if exists|i: int| is_first_index(s, x, i) {
        Some(choose|i: int| is_first_index(s, x, i))
    } else {
        None
    }
}

/// A first index is unique, so `first_index` names it.
pub proof fn lemma_first_index_found<A>(s: Seq<A>, x: A, i: int)
    requires
        is_first_index(s, x, i),
    ensures
        first_index(s, x) == Some(i),
{
    let k = choose|k: int| is_first_index(s, x, k);
    assert(is_first_index(s, x, k));
    if k < i {
        assert(s[k] != x);
    } else if i < k {
        assert(s[i] != x);
    }
}

/// Without any occurrence, `first_index` is `None`.
pub proof fn lemma_first_index_absent<A>(s: Seq<A>, x: A)
    requires
        forall|j: int| 0 <= j < s.len() ==> s[j] != x,
    ensures
        first_index(s, x) is None,
{
    if exists|i: int| is_first_index(s, x, i) {
        let k = choose|k: int| is_first_index(s, x, k);
        assert(s[k] != x);
    }
}

/// The character of a decimal digit.
pub open spec fn digit_char(d: nat) -> char {
    (48 + d) as char
}

/// The decimal notation of `n`, without leading zeros.
pub open spec fn decimal(n: nat) -> Seq<char>
    decreases n,
{
    if n < 10 {
        seq![digit_char(n)]
    } else {
        decimal(n / 10).push(digit_char(n % 10))
    }
}

fn digit_str(d: usize) -> (r: &'static str)
    requires
        d < 10,
    ensures
        r@ == seq![digit_char(d as nat)],
{
    proof {
        reveal_strlit("0");
        reveal_strlit("1");
        reveal_strlit("2");
        reveal_strlit("3");
        reveal_strlit("4");
        reveal_strlit("5");
        reveal_strlit("6");
        reveal_strlit("7");
        reveal_strlit("8");
        reveal_strlit("9");
    }
    match d {
        0 => "0",
        1 => "1",
        2 => "2",
        3 => "3",
        4 => "4",
        5 => "5",
        6 => "6",
        7 => "7",
        8 => "8",
        _ => "9",
    }
}

/// Appends the decimal notation of `n` to `out`.
pub fn push_decimal(out: &mut String, n: usize)
    ensures
        final(out)@ == old(out)@ + decimal(n as nat),
    decreases n,
{
    if n < 10 {
        out.append(digit_str(n));
    } else {
        push_decimal(out, n / 10);
        out.append(digit_str(n % 10));
        assert(decimal(n as nat) == decimal((n / 10) as nat).push(digit_char((n % 10) as nat)));
        assert(old(out)@ + decimal(n as nat) =~= old(out)@ + decimal((n / 10) as nat) + seq![
            digit_char((n % 10) as nat),
        ]);
    }
}

/// The index of the first `.` in `s`, if any.
pub fn find_dot(s: &str) -> (r: Option<usize>)
    ensures
        match r {
            Some(i) => first_index(s@, '.') == Some(i as int),
            None => first_index(s@, '.') is None,
        },
{
    let n = s.unicode_len();
    let mut i: usize = 0;
    while i < n
        invariant
            n == s@.len(),
            i <= n,
            forall|j: int| 0 <= j < i ==> s@[j] != '.',
        decreases n - i,
    {
        if s.get_char(i) == '.' {
            proof {
                lemma_first_index_found(s@, '.', i as int);
            }
            return Some(i);
        }
        i = i + 1;
    }
    proof {
        lemma_first_index_absent(s@, '.');
    }
    None
}

/// The part of a qualified name `Ns.Name` before and after its first dot.
pub open spec fn split_qualified(name: Seq<char>) -> Option<(Seq<char>, Seq<char>)> {
    match first_index(name, '.') {
        Some(k) => Some((name.subrange(0, k), name.subrange(k + 1, name.len() as int))),
        None => None,
    }
}

/// Splits `Ns.Name` at its first dot into its namespace and local parts.
pub fn split_qualified_name(name: &str) -> (r: Option<(String, String)>)
    ensures
        match r {
            Some((ns, local)) => split_qualified(name@) == Some((ns@, local@)),
            None => split_qualified(name@) is None,
        },
{
    match find_dot(name) {
        Some(k) => {
            let n = name.unicode_len();
            let ns = name.substring_char(0, k);
            let local = name.substring_char(k + 1, n);
            Some((String::from_str(ns), String::from_str(local)))
        },
        None => None,
    }
}

/// The concatenation of two strings.
pub fn concat_str(a: &str, b: &str) -> (r: String)
    ensures
        r@ == a@ + b@,
{
    let mut s = String::from_str(a);
    s.append(b);
    s
}

/// What std's `Debug` formatting (`{:?}`) gives for a string slice with the
/// characters `s`: the string in double quotes, with escapes.
pub uninterp spec fn debug_text(s: Seq<char>) -> Seq<char>;

/// Calls std's `Debug` formatting of a string slice (`format!("{:?}", s)`); the
/// contract claims that the result is the named text `debug_text` of `s`.
#[verifier::external_body]
pub(crate) fn debug_quoted(s: &str) -> (r: String)
    ensures
        r@ == debug_text(s@),
{
    format!("{:?}", s)
}

} // verus!
