//! Small verified text utilities: decimal rendering, joining, searching.
use vstd::prelude::*;

verus! {

/// The character of a decimal digit.
pub open spec fn digit_char(d: nat) -> char {
    if d == 0 {
        '0'
    } else if d == 1 {
        '1'
    } else if d == 2 {
        '2'
    } else if d == 3 {
        '3'
    } else if d == 4 {
        '4'
    } else if d == 5 {
        '5'
    } else if d == 6 {
        '6'
    } else if d == 7 {
        '7'
    } else if d == 8 {
        '8'
    } else {
        '9'
    }
}

/// The decimal rendering of a natural number, without sign or leading zeros
/// (what `Display` prints for an unsigned integer).
pub open spec fn decimal(n: nat) -> Seq<char>
    decreases n,
{
    if n < 10 {
        seq![digit_char(n)]
    } else {
        decimal(n / 10).push(digit_char(n % 10))
    }
}

/// The rendering of a boolean (what `Display` prints for `bool`).
pub open spec fn bool_text(b: bool) -> Seq<char> {
    if b {
        seq!['t', 'r', 'u', 'e']
    } else {
        seq!['f', 'a', 'l', 's', 'e']
    }
}

/// `parts` joined with `sep` between neighbours (what `[String]::join` returns).
pub open spec fn join(parts: Seq<Seq<char>>, sep: Seq<char>) -> Seq<char>
    decreases parts.len(),
{
    if parts.len() == 0 {
        Seq::empty()
    } else if parts.len() == 1 {
        parts[0]
    } else {
        join(parts.drop_last(), sep) + sep + parts.last()
    }
}

/// `s` holds `pat` as a contiguous piece.
pub open spec fn has_substring(s: Seq<char>, pat: Seq<char>) -> bool {
    exists|k: int| 0 <= k && k + pat.len() <= s.len() && #[trigger] s.subrange(k, k + pat.len()) == pat
}

/// `i` is the position of the first `c` in `s`.
pub open spec fn is_first_index(s: Seq<char>, c: char, i: int) -> bool {
    &&& 0 <= i < s.len()
    &&& s[i] == c
    &&& forall|j: int| 0 <= j < i ==> s[j] != c
}

/// The position of the first `c` in `s`, if there is one.
pub open spec fn first_index(s: Seq<char>, c: char) -> Option<int> {
    if exists|i: int| is_first_index(s, c, i) {
        Some(choose|i: int| is_first_index(s, c, i))
    } else {
        None
    }
}

/// The first position of a character is unique.
pub proof fn lemma_first_index_unique(s: Seq<char>, c: char, i: int)
    requires
        is_first_index(s, c, i),
    ensures
        first_index(s, c) == Some(i),
{
    let k = choose|k: int| is_first_index(s, c, k);
    assert(is_first_index(s, c, k));
    if k < i {
        assert(s[k] != c);
    }
    if i < k {
        assert(s[i] != c);
    }
}

/// No position holds `c`, so there is no first one.
pub proof fn lemma_first_index_none(s: Seq<char>, c: char)
    requires
        forall|j: int| 0 <= j < s.len() ==> s[j] != c,
    ensures
        first_index(s, c) == None::<int>,
{
    if exists|i: int| is_first_index(s, c, i) {
        let i = choose|i: int| is_first_index(s, c, i);
        assert(s[i] == c);
    }
}

/// The text of one decimal digit.
fn digit_str(d: u64) -> (r: &'static str)
    requires
        d < 10,
    ensures
        r@ == seq![digit_char(d as nat)],
{
    if d == 0 {
        proof { reveal_strlit("0"); }
        "0"
    } else if d == 1 {
        proof { reveal_strlit("1"); }
        "1"
    } else if d == 2 {
        proof { reveal_strlit("2"); }
        "2"
    } else if d == 3 {
        proof { reveal_strlit("3"); }
        "3"
    } else if d == 4 {
        proof { reveal_strlit("4"); }
        "4"
    } else if d == 5 {
        proof { reveal_strlit("5"); }
        "5"
    } else if d == 6 {
        proof { reveal_strlit("6"); }
        "6"
    } else if d == 7 {
        proof { reveal_strlit("7"); }
        "7"
    } else if d == 8 {
        proof { reveal_strlit("8"); }
        "8"
    } else {
        proof { reveal_strlit("9"); }
        "9"
    }
}

/// Renders an unsigned integer in decimal.
pub fn u64_to_decimal(n: u64) -> (r: String)
    ensures
        r@ == decimal(n as nat),
    decreases n,
{
    if n < 10 {
        digit_str(n).to_owned()
    } else {
        let mut s = u64_to_decimal(n / 10);
        s.append(digit_str(n % 10));
        s
    }
}

/// Renders a boolean as `true` or `false`.
pub fn bool_to_text(b: bool) -> (r: String)
    ensures
        r@ == bool_text(b),
{
    if b {
        proof { reveal_strlit("true"); }
        "true".to_owned()
    } else {
        proof { reveal_strlit("false"); }
        "false".to_owned()
    }
}

/// Joins `parts` with `sep` between neighbours.
pub fn join_strings(parts: &Vec<String>, sep: &str) -> (r: String)
    ensures
        r@ == join(parts@.map_values(|p: String| p@), sep@),
{
    let ghost views = parts@.map_values(|p: String| p@);
    let mut res = String::new();
    let n = parts.len();
    let mut i: usize = 0;
    while i < n
        invariant
            n == parts@.len(),
            i <= n,
            views == parts@.map_values(|p: String| p@),
            res@ == join(views.take(i as int), sep@),
        decreases n - i,
    {
        if i != 0 {
            res.append(sep);
        }
        res.append(parts[i].as_str());
        assert(views.take(i + 1).drop_last() =~= views.take(i as int));
        i = i + 1;
    }
    assert(views.take(n as int) =~= views);
    res
}

/// The characters of `s`, one by one.
pub fn chars_of(s: &str) -> (r: Vec<char>)
    ensures
        r@ == s@,
{
    let n = s.unicode_len();
    let mut v: Vec<char> = Vec::new();
    let mut i: usize = 0;
    while i < n
        invariant
            n == s@.len(),
            i <= n,
            v@ == s@.take(i as int),
        decreases n - i,
    {
        v.push(s.get_char(i));
        assert(s@.take(i + 1) =~= s@.take(i as int).push(s@[i as int]));
        i = i + 1;
    }
    assert(s@.take(n as int) =~= s@);
    v
}

/// The position of the first `c` in `s`, if there is one.
pub fn find_char(s: &Vec<char>, c: char) -> (r: Option<usize>)
    ensures
        r matches Some(i) ==> first_index(s@, c) == Some(i as int),
        r is None ==> first_index(s@, c) == None::<int>,
{
    let n = s.len();
    let mut i: usize = 0;
    while i < n
        invariant
            n == s@.len(),
            i <= n,
            forall|j: int| 0 <= j < i ==> s@[j] != c,
        decreases n - i,
    {
        if s[i] == c {
            proof { lemma_first_index_unique(s@, c, i as int); }
            return Some(i);
        }
        i = i + 1;
    }
    proof { lemma_first_index_none(s@, c); }
    None
}

/// Whether `pat` occurs in `s` as a contiguous piece.
pub fn contains_chars(s: &Vec<char>, pat: &Vec<char>) -> (r: bool)
    ensures
        r == has_substring(s@, pat@),
{
    let n = s.len();
    let m = pat.len();
    if m > n {
        return false;
    }
    let mut k: usize = 0;
    while k <= n - m
        invariant
            n == s@.len(),
            m == pat@.len(),
            m <= n,
            k <= n - m + 1,
            forall|k2: int| 0 <= k2 < k ==> #[trigger] s@.subrange(k2, k2 + m) != pat@,
        decreases n - m + 1 - k,
    {
        let mut j: usize = 0;
        let mut same = true;
        while j < m
            invariant
                n == s@.len(),
                m == pat@.len(),
                k + m <= n,
                j <= m,
                same == (forall|t: int| 0 <= t < j ==> s@[k + t] == pat@[t]),
            decreases m - j,
        {
            if s[k + j] != pat[j] {
                same = false;
            }
            j = j + 1;
        }
        if same {
            assert(s@.subrange(k as int, k + m) =~= pat@);
            return true;
        }
        assert(s@.subrange(k as int, k + m)[0] == s@[k as int]);
        assert(s@.subrange(k as int, k + m) != pat@) by {
            let t = choose|t: int| 0 <= t < m && s@[k + t] != pat@[t];
            assert(s@.subrange(k as int, k + m)[t] == s@[k + t]);
        }
        k = k + 1;
    }
    proof {
        if has_substring(s@, pat@) {
            let w = choose|w: int| 0 <= w && w + pat@.len() <= s@.len() && #[trigger] s@.subrange(w, w + pat@.len()) == pat@;
            assert(s@.subrange(w, w + m) != pat@);
        }
    }
    false
}

/// Whether `pat` occurs in `s` as a contiguous piece.
pub fn str_contains(s: &str, pat: &str) -> (r: bool)
    ensures
        r == has_substring(s@, pat@),
{
    let sc = chars_of(s);
    let pc = chars_of(pat);
    contains_chars(&sc, &pc)
}

/// The position of the first `c` at or after `start` in `s`, if there is one.
pub fn find_char_from(s: &Vec<char>, c: char, start: usize) -> (r: Option<usize>)
    requires
        start <= s@.len(),
    ensures
        r matches Some(i) ==> start <= i && first_index(s@.subrange(start as int, s@.len() as int), c) == Some(
            i - start,
        ),
        r is None ==> first_index(s@.subrange(start as int, s@.len() as int), c) == None::<int>,
{
    let ghost rest = s@.subrange(start as int, s@.len() as int);
    let n = s.len();
    let mut i: usize = start;
    while i < n
        invariant
            n == s@.len(),
            start <= i <= n,
            rest == s@.subrange(start as int, s@.len() as int),
            forall|j: int| 0 <= j < i - start ==> rest[j] != c,
        decreases n - i,
    {
        if s[i] == c {
            proof { lemma_first_index_unique(rest, c, i - start); }
            return Some(i);
        }
        i = i + 1;
    }
    proof { lemma_first_index_none(rest, c); }
    None
}

/// A decimal rendering is never empty.
pub proof fn lemma_decimal_nonempty(n: nat)
    ensures
        decimal(n).len() >= 1,
    decreases n,
{
    if n >= 10 {
        lemma_decimal_nonempty(n / 10);
    }
}

/// Different numbers have different decimal renderings.
pub proof fn law_decimal_injective(a: nat, b: nat)
    ensures
        decimal(a) == decimal(b) ==> a == b,
    decreases a,
{
    if decimal(a) == decimal(b) {
        if a < 10 && b < 10 {
            assert(decimal(a)[0] == decimal(b)[0]);
        } else if a < 10 {
            lemma_decimal_nonempty(b / 10);
            assert(decimal(a).len() == 1);
        } else if b < 10 {
            lemma_decimal_nonempty(a / 10);
            assert(decimal(b).len() == 1);
        } else {
            let da = decimal(a / 10);
            let db = decimal(b / 10);
            assert(decimal(a).last() == decimal(b).last());
            assert(decimal(a).drop_last() =~= da);
            assert(decimal(b).drop_last() =~= db);
            law_decimal_injective(a / 10, b / 10);
            assert(a % 10 == b % 10);
        }
    }
}

} // verus!
