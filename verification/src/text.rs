use vstd::prelude::*;

verus! {

/// Unicode `White_Space` code points: the characters that `str::trim` removes.
pub open spec fn is_whitespace(c: char) -> bool {
    let n = c as u32;
    ||| 0x09 <= n <= 0x0D
    ||| n == 0x20
    ||| n == 0x85
    ||| n == 0xA0
    ||| n == 0x1680
    ||| 0x2000 <= n <= 0x200A
    ||| n == 0x2028
    ||| n == 0x2029
    ||| n == 0x202F
    ||| n == 0x205F
    ||| n == 0x3000
}

pub fn char_is_whitespace(c: char) -> (r: bool)
    ensures
        r == is_whitespace(c),
{
    let n = c as u32;
    (0x09 <= n && n <= 0x0D) || n == 0x20 || n == 0x85 || n == 0xA0 || n == 0x1680 || (0x2000
        <= n && n <= 0x200A) || n == 0x2028 || n == 0x2029 || n == 0x202F || n == 0x205F || n
        == 0x3000
}

pub open spec fn ascii_lower(c: char) -> char {
    if 'A' <= c <= 'Z' {
        ((c as u32) + 32) as char
    } else {
        c
    }
}

/// ASCII upper case: `a`..`z` to `A`..`Z`, every other character unchanged.
pub open spec fn ascii_upper(c: char) -> char {
    if 'a' <= c <= 'z' {
        ((c as u32) - 32) as char
    } else {
        c
    }
}

pub fn char_ascii_lower(c: char) -> (r: char)
    ensures
        r == ascii_lower(c),
{
    if 'A' <= c && c <= 'Z' {
        ((c as u8) + 32) as char
    } else {
        c
    }
}


/// `s` without its leading whitespace.
pub open spec fn trim_front(s: Seq<char>) -> Seq<char>
    decreases s.len(),
{
    if s.len() > 0 && is_whitespace(s[0]) {
        trim_front(s.drop_first())
    } else {
        s
    }
}

/// `s` without its trailing whitespace.
pub open spec fn trim_back(s: Seq<char>) -> Seq<char>
    decreases s.len(),
{
    if s.len() > 0 && is_whitespace(s.last()) {
        trim_back(s.drop_last())
    } else {
        s
    }
}

/// What `str::trim` leaves of `s`.
pub open spec fn trimmed(s: Seq<char>) -> Seq<char> {
    trim_back(trim_front(s))
}

/// Appends one character to a string. Trusted: calls `String::push`, which std
/// documents as appending the character to the end of the string.
#[verifier::external_body]
fn push_char(s: &mut String, c: char)
    ensures
        final(s)@ == old(s)@.push(c),
{
    s.push(c);
}

/// The bounds `(a, b)` of the trimmed part of `s`: `trimmed(s@) == s@[a..b]`.
pub fn trim_bounds(s: &str) -> (r: (usize, usize))
    ensures
        r.0 <= r.1 <= s@.len(),
        trimmed(s@) == s@.subrange(r.0 as int, r.1 as int),
{
    let n = s.unicode_len();
    let mut a: usize = 0;
    assert(s@.subrange(0, n as int) =~= s@);
    while a < n && char_is_whitespace(s.get_char(a))
        invariant
            n == s@.len(),
            a <= n,
            trim_front(s@) == trim_front(s@.subrange(a as int, n as int)),
        decreases n - a,
    {
        assert(s@.subrange(a as int, n as int).drop_first() =~= s@.subrange(a + 1, n as int));
        a = a + 1;
    }
    assert(trim_front(s@) == s@.subrange(a as int, n as int));
    let mut b: usize = n;
    while b > a && char_is_whitespace(s.get_char(b - 1))
        invariant
            n == s@.len(),
            a <= b <= n,
            trim_back(s@.subrange(a as int, n as int)) == trim_back(s@.subrange(a as int, b as int)),
        decreases b - a,
    {
        assert(s@.subrange(a as int, b as int).drop_last() =~= s@.subrange(a as int, b - 1));
        b = b - 1;
    }
    (a, b)
}


/// One character of a normalized identifier: ASCII lower case, space as underscore.
pub open spec fn id_char(c: char) -> char {
    if c == ' ' {
        '_'
    } else {
        ascii_lower(c)
    }
}

/// The namespace given to an identifier that names none.
pub open spec fn default_namespace() -> Seq<char> {
    "minecraft:"@
}

/// An identifier as the plugin compares it: trimmed, ASCII lower case, spaces as
/// underscores, and in the `minecraft:` namespace unless it names one (holds a `:`).
pub open spec fn normalized_id(s: Seq<char>) -> Seq<char> {
    let l = trimmed(s).map_values(|c: char| id_char(c));
    if l.contains(':') {
        l
    } else {
        default_namespace() + l
    }
}

/// Normalizes a block, item or entity identifier (see `normalized_id`).
pub fn normalize_id(value: &str) -> (r: String)
    ensures
        r@ == normalized_id(value@),
{
    let (a, b) = trim_bounds(value);
    let ghost t = value@.subrange(a as int, b as int);
    let mut lower = String::new();
    let mut has_colon = false;
    let mut i = a;
    while i < b
        invariant
            a <= i <= b <= value@.len(),
            t == value@.subrange(a as int, b as int),
            lower@ == t.subrange(0, i - a).map_values(|c: char| id_char(c)),
            has_colon == lower@.contains(':'),
        decreases b - i,
    {
        let c = value.get_char(i);
        let d = if c == ' ' {
            '_'
        } else {
            char_ascii_lower(c)
        };
        let ghost before = lower@;
        push_char(&mut lower, d);
        proof {
            assert(t.subrange(0, i + 1 - a) =~= t.subrange(0, i - a).push(c));
            assert(lower@ =~= t.subrange(0, i + 1 - a).map_values(|c: char| id_char(c)));
            if d == ':' {
                assert(lower@[lower@.len() - 1] == ':');
            }
            if before.contains(':') {
                let k = choose|k: int| 0 <= k < before.len() && before[k] == ':';
                assert(lower@[k] == ':');
            }
            if lower@.contains(':') && !before.contains(':') {
                let k = choose|k: int| 0 <= k < lower@.len() && lower@[k] == ':';
                if k < before.len() {
                    assert(before[k] == ':');
                }
            }
        }
        has_colon = has_colon || d == ':';
        i = i + 1;
    }
    assert(t.subrange(0, b - a) =~= t);
    if has_colon {
        lower
    } else {
        let mut r = String::from_str("minecraft:");
        r.append(lower.as_str());
        r
    }
}


/// The decimal digit character for `d < 10`.
pub open spec fn digit_char(d: nat) -> char {
    if d == 0 { '0' }
    else if d == 1 { '1' }
    else if d == 2 { '2' }
    else if d == 3 { '3' }
    else if d == 4 { '4' }
    else if d == 5 { '5' }
    else if d == 6 { '6' }
    else if d == 7 { '7' }
    else if d == 8 { '8' }
    else { '9' }
}

/// The decimal representation of `n`, without sign or leading zeros.
pub open spec fn decimal(n: nat) -> Seq<char>
    decreases n,
{
    if n < 10 {
        seq![digit_char(n)]
    } else {
        decimal(n / 10).push(digit_char(n % 10))
    }
}

fn digit(d: u64) -> (c: char)
    requires
        d < 10,
    ensures
        c == digit_char(d as nat),
{
    if d == 0 { '0' }
    else if d == 1 { '1' }
    else if d == 2 { '2' }
    else if d == 3 { '3' }
    else if d == 4 { '4' }
    else if d == 5 { '5' }
    else if d == 6 { '6' }
    else if d == 7 { '7' }
    else if d == 8 { '8' }
    else { '9' }
}

/// `n` written in decimal, as `format!("{n}")` writes it.
pub fn decimal_string(n: u64) -> (r: String)
    ensures
        r@ == decimal(n as nat),
    decreases n,
{
    if n < 10 {
        let mut r = String::new();
        push_char(&mut r, digit(n));
        assert(r@ =~= seq![digit_char(n as nat)]);
        r
    } else {
        let mut r = decimal_string(n / 10);
        push_char(&mut r, digit(n % 10));
        r
    }
}

/// `pattern` occurs in `s` at position `i`.
pub open spec fn occurs_at(s: Seq<char>, pattern: Seq<char>, i: int) -> bool {
    0 <= i && i + pattern.len() <= s.len() && s.subrange(i, i + pattern.len()) == pattern
}

/// `pattern` occurs somewhere in `s` (`str::contains`).
pub open spec fn has_substring(s: Seq<char>, pattern: Seq<char>) -> bool {
    exists|i: int| occurs_at(s, pattern, i)
}

fn occurs_at_exec(s: &str, pattern: &str, i: usize, n: usize, m: usize) -> (r: bool)
    requires
        n == s@.len(),
        m == pattern@.len(),
        i + m <= n,
    ensures
        r == occurs_at(s@, pattern@, i as int),
{
    let mut k: usize = 0;
    while k < m
        invariant
            n == s@.len(),
            m == pattern@.len(),
            i + m <= n,
            k <= m,
            forall|j: int| 0 <= j < k ==> s@[i + j] == pattern@[j],
        decreases m - k,
    {
        if s.get_char(i + k) != pattern.get_char(k) {
            assert(s@.subrange(i as int, i + m)[k as int] != pattern@[k as int]);
            return false;
        }
        k = k + 1;
    }
    assert(s@.subrange(i as int, i + m) =~= pattern@);
    true
}

/// Whether `pattern` occurs in `s`.
pub fn contains_str(s: &str, pattern: &str) -> (r: bool)
    ensures
        r == has_substring(s@, pattern@),
{
    let n = s.unicode_len();
    let m = pattern.unicode_len();
    if m > n {
        return false;
    }
    let mut i: usize = 0;
    loop
        invariant
            n == s@.len(),
            m == pattern@.len(),
            m <= n,
            i <= n - m,
            forall|j: int| 0 <= j < i ==> !occurs_at(s@, pattern@, j),
        decreases n - m - i,
    {
        if occurs_at_exec(s, pattern, i, n, m) {
            return true;
        }
        if i == n - m {
            return false;
        }
        i = i + 1;
    }
}

/// Whether `s` contains the character `c`.
pub fn contains_char(s: &str, c: char) -> (r: bool)
    ensures
        r == s@.contains(c),
{
    let n = s.unicode_len();
    let mut i: usize = 0;
    while i < n
        invariant
            n == s@.len(),
            i <= n,
            forall|j: int| 0 <= j < i ==> s@[j] != c,
        decreases n - i,
    {
        if s.get_char(i) == c {
            return true;
        }
        i = i + 1;
    }
    false
}

} // verus!
