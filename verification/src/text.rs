//! Character-level helpers shared by the version classifiers and parsers.
//!
//! Text is modelled as `Seq<char>`; executable code works on `Vec<char>`
//! copies of string slices and turns results back into `String`s.
use vstd::prelude::*;

verus! {

/// Unicode `White_Space` code points, as `char::is_whitespace` accepts them.
pub open spec fn is_ws(c: char) -> bool {
    ||| c == ' '
    ||| c == '\t'
    ||| c == '\n'
    ||| c == '\u{0B}'
    ||| c == '\u{0C}'
    ||| c == '\r'
    ||| c == '\u{85}'
    ||| c == '\u{A0}'
    ||| c == '\u{1680}'
    ||| ('\u{2000}' <= c && c <= '\u{200A}')
    ||| c == '\u{2028}'
    ||| c == '\u{2029}'
    ||| c == '\u{202F}'
    ||| c == '\u{205F}'
    ||| c == '\u{3000}'
}

pub open spec fn is_digit(c: char) -> bool {
    '0' <= c && c <= '9'
}

pub open spec fn is_alpha(c: char) -> bool {
    ('a' <= c && c <= 'z') || ('A' <= c && c <= 'Z')
}

pub open spec fn is_alnum(c: char) -> bool {
    is_alpha(c) || is_digit(c)
}

pub open spec fn lower(c: char) -> char {
    if 'A' <= c && c <= 'Z' {
        ((c as u32) + 32) as char
    } else {
        c
    }
}

pub open spec fn lower_all(s: Seq<char>) -> Seq<char> {
    s.map_values(|c: char| lower(c))
}

/// A text is blank when it holds nothing but whitespace.
pub open spec fn is_blank(s: Seq<char>) -> bool {
    forall|i: int| 0 <= i < s.len() ==> is_ws(#[trigger] s[i])
}

pub open spec fn trim_start(s: Seq<char>) -> Seq<char>
    decreases s.len(),
{
    if s.len() > 0 && is_ws(s[0]) {
        trim_start(s.drop_first())
    } else {
        s
    }
}

pub open spec fn trim_end(s: Seq<char>) -> Seq<char>
    decreases s.len(),
{
    if s.len() > 0 && is_ws(s.last()) {
        trim_end(s.drop_last())
    } else {
        s
    }
}

pub open spec fn trim(s: Seq<char>) -> Seq<char> {
    trim_end(trim_start(s))
}

/// Drops every leading `v` or `V`.
pub open spec fn strip_v_all(s: Seq<char>) -> Seq<char>
    decreases s.len(),
{
    if s.len() > 0 && (s[0] == 'v' || s[0] == 'V') {
        strip_v_all(s.drop_first())
    } else {
        s
    }
}

/// Drops at most one leading `v` or `V`.
pub open spec fn strip_v_once(s: Seq<char>) -> Seq<char> {
    if s.len() > 0 && (s[0] == 'v' || s[0] == 'V') {
        s.drop_first()
    } else {
        s
    }
}

pub open spec fn all_digits(s: Seq<char>) -> bool {
    forall|i: int| 0 <= i < s.len() ==> is_digit(#[trigger] s[i])
}

/// Splits `s` at every character that `sep` accepts, as `str::split` does:
/// `n` separators give `n + 1` pieces, empty ones included.
pub open spec fn split_by(s: Seq<char>, sep: spec_fn(char) -> bool) -> Seq<Seq<char>>
    decreases s.len(),
{
    if s.len() == 0 {
        seq![Seq::<char>::empty()]
    } else {
        let head = split_by(s.drop_last(), sep);
        if sep(s.last()) {
            head.push(Seq::<char>::empty())
        } else {
            head.update(head.len() - 1, head.last().push(s.last()))
        }
    }
}

pub proof fn lemma_split_by_nonempty(s: Seq<char>, sep: spec_fn(char) -> bool)
    ensures
        split_by(s, sep).len() >= 1,
    decreases s.len(),
{
    if s.len() > 0 {
        lemma_split_by_nonempty(s.drop_last(), sep);
    }
}

/// Position of the first character that `p` accepts.
pub open spec fn first_index(s: Seq<char>, p: spec_fn(char) -> bool) -> Option<int>
    decreases s.len(),
{
    if s.len() == 0 {
        None
    } else if p(s[0]) {
        Some(0)
    } else {
        match first_index(s.drop_first(), p) {
            Some(i) => Some(i + 1),
            None => None,
        }
    }
}

/// Position of the last occurrence of `c`.
pub open spec fn last_index_of(s: Seq<char>, c: char) -> Option<int>
    decreases s.len(),
{
    if s.len() == 0 {
        None
    } else if s.last() == c {
        Some(s.len() - 1)
    } else {
        last_index_of(s.drop_last(), c)
    }
}

pub open spec fn is_char(c: char) -> spec_fn(char) -> bool {
    |x: char| x == c
}

/// Membership in a set of characters.
pub open spec fn in_set(set: Seq<char>) -> spec_fn(char) -> bool {
    |x: char| set.contains(x)
}

pub open spec fn trim_start_by(s: Seq<char>, p: spec_fn(char) -> bool) -> Seq<char>
    decreases s.len(),
{
    if s.len() > 0 && p(s[0]) {
        trim_start_by(s.drop_first(), p)
    } else {
        s
    }
}

pub open spec fn trim_end_by(s: Seq<char>, p: spec_fn(char) -> bool) -> Seq<char>
    decreases s.len(),
{
    if s.len() > 0 && p(s.last()) {
        trim_end_by(s.drop_last(), p)
    } else {
        s
    }
}

pub open spec fn not_alpha() -> spec_fn(char) -> bool {
    |c: char| !is_alpha(c)
}

pub open spec fn first_index_of(s: Seq<char>, c: char) -> Option<int> {
    first_index(s, is_char(c))
}

/// The longest prefix made of ASCII letters.
pub open spec fn alpha_prefix(s: Seq<char>) -> Seq<char> {
    match first_index(s, not_alpha()) {
        Some(i) => s.take(i),
        None => s,
    }
}

/// The text after the leading ASCII digits.
pub open spec fn skip_digits(s: Seq<char>) -> Seq<char>
    decreases s.len(),
{
    if s.len() > 0 && is_digit(s[0]) {
        skip_digits(s.drop_first())
    } else {
        s
    }
}

pub open spec fn digit_char(d: int) -> char {
    if d == 0 { '0' }
    else if d == 1 { '1' }
    else if d == 2 { '2' }
    else if d == 3 { '3' }
    else if d == 4 { '4' }
    else if d == 5 { '5' }
    else if d == 6 { '6' }
    else if d == 7 { '7' }
    else if d == 8 { '8' }
    else { '9' }
}

/// Decimal digits of `n`, without leading zeros.
pub open spec fn decimal(n: nat) -> Seq<char>
    decreases n,
{
    if n < 10 {
        seq![digit_char(n as int)]
    } else {
        decimal(n / 10).push(digit_char((n % 10) as int))
    }
}

pub fn is_ws_char(c: char) -> (b: bool)
    ensures
        b == is_ws(c),
{
    c == ' ' || c == '\t' || c == '\n' || c == '\u{0B}' || c == '\u{0C}' || c == '\r' || c
        == '\u{85}' || c == '\u{A0}' || c == '\u{1680}' || ('\u{2000}' <= c && c <= '\u{200A}')
        || c == '\u{2028}' || c == '\u{2029}' || c == '\u{202F}' || c == '\u{205F}' || c
        == '\u{3000}'
}

pub fn is_digit_char(c: char) -> (b: bool)
    ensures
        b == is_digit(c),
{
    '0' <= c && c <= '9'
}

pub fn is_alpha_char(c: char) -> (b: bool)
    ensures
        b == is_alpha(c),
{
    ('a' <= c && c <= 'z') || ('A' <= c && c <= 'Z')
}

pub fn is_alnum_char(c: char) -> (b: bool)
    ensures
        b == is_alnum(c),
{
    is_alpha_char(c) || is_digit_char(c)
}

/// Maps `A`..`Z` to `a`..`z` and keeps every other character, as
/// `char::to_ascii_lowercase` does.
pub(crate) fn lower_char(c: char) -> (r: char)
    ensures
        r == lower(c),
{
    if 'A' <= c && c <= 'Z' {
        let b: u8 = c as u8;
        assert(b as u32 == c as u32);
        ((b + 32) as u8) as char
    } else {
        c
    }
}

/// `String::push`: appends one character.
#[verifier::external_body]
pub(crate) fn push_char(s: &mut String, c: char)
    ensures
        final(s)@ == old(s)@.push(c),
{
    s.push(c)
}

/// The characters of a string slice, in order.
pub fn chars_of(s: &str) -> (v: Vec<char>)
    ensures
        v@ == s@,
{
    let n = s.unicode_len();
    let mut v: Vec<char> = Vec::new();
    let mut i: usize = 0;
    while i < n
        invariant
            n == s@.len(),
            i <= n,
            v@ == s@.take(i as int),
        decreases n - i,
    {
        let c = s.get_char(i);
        v.push(c);
        i = i + 1;
        assert(v@ =~= s@.take(i as int));
    }
    assert(v@ =~= s@);
    v
}

/// A `String` holding exactly the characters of `v`.
pub fn string_of(v: &[char]) -> (s: String)
    ensures
        s@ == v@,
{
    let mut s = String::new();
    let mut i: usize = 0;
    while i < v.len()
        invariant
            i <= v.len(),
            s@ == v@.take(i as int),
        decreases v.len() - i,
    {
        push_char(&mut s, v[i]);
        i = i + 1;
        assert(s@ =~= v@.take(i as int));
    }
    assert(s@ =~= v@);
    s
}

pub fn chars_eq(a: &[char], b: &[char]) -> (r: bool)
    ensures
        r == (a@ == b@),
{
    if a.len() != b.len() {
        return false;
    }
    let mut i: usize = 0;
    while i < a.len()
        invariant
            a.len() == b.len(),
            i <= a.len(),
            forall|j: int| 0 <= j < i ==> a@[j] == b@[j],
        decreases a.len() - i,
    {
        if a[i] != b[i] {
            return false;
        }
        i = i + 1;
    }
    assert(a@ =~= b@);
    true
}

/// Compares a character buffer with a string slice.
pub fn chars_eq_str(a: &[char], b: &str) -> (r: bool)
    ensures
        r == (a@ == b@),
{
    let bv = chars_of(b);
    chars_eq(a, bv.as_slice())
}

pub fn str_eq(a: &str, b: &str) -> (r: bool)
    ensures
        r == (a@ == b@),
{
    let av = chars_of(a);
    chars_eq_str(av.as_slice(), b)
}

pub fn blank(s: &[char]) -> (r: bool)
    ensures
        r == is_blank(s@),
{
    let mut i: usize = 0;
    while i < s.len()
        invariant
            i <= s.len(),
            forall|j: int| 0 <= j < i ==> is_ws(#[trigger] s@[j]),
        decreases s.len() - i,
    {
        if !is_ws_char(s[i]) {
            return false;
        }
        i = i + 1;
    }
    true
}

pub fn str_is_blank(s: &str) -> (r: bool)
    ensures
        r == is_blank(s@),
{
    let v = chars_of(s);
    blank(v.as_slice())
}

pub fn slice_chars(v: &[char], from: usize, to: usize) -> (r: Vec<char>)
    requires
        from <= to <= v.len(),
    ensures
        r@ == v@.subrange(from as int, to as int),
{
    let mut r: Vec<char> = Vec::new();
    let mut i = from;
    while i < to
        invariant
            from <= i <= to <= v.len(),
            r@ == v@.subrange(from as int, i as int),
        decreases to - i,
    {
        r.push(v[i]);
        i = i + 1;
        assert(r@ =~= v@.subrange(from as int, i as int));
    }
    r
}

proof fn lemma_trim_start_suffix(s: Seq<char>)
    ensures
        exists|k: int| 0 <= k <= s.len() && trim_start(s) == s.subrange(k, s.len() as int),
    decreases s.len(),
{
    if s.len() > 0 && is_ws(s[0]) {
        lemma_trim_start_suffix(s.drop_first());
        let k = choose|k: int|
            0 <= k <= s.drop_first().len() && trim_start(s.drop_first()) == s.drop_first().subrange(
                k,
                s.drop_first().len() as int,
            );
        assert(s.drop_first().subrange(k, s.drop_first().len() as int) =~= s.subrange(
            k + 1,
            s.len() as int,
        ));
    } else {
        assert(s.subrange(0, s.len() as int) =~= s);
    }
}

/// Start and end of the trimmed part of `v`.
pub fn trim_bounds(v: &[char]) -> (r: (usize, usize))
    ensures
        r.0 <= r.1 <= v.len(),
        v@.subrange(r.0 as int, r.1 as int) == trim(v@),
{
    let mut start: usize = 0;
    assert(v@.subrange(0, v.len() as int) =~= v@);
    while start < v.len() && is_ws_char(v[start])
        invariant
            start <= v.len(),
            trim_start(v@) == trim_start(v@.subrange(start as int, v.len() as int)),
        decreases v.len() - start,
    {
        let ghost rest = v@.subrange(start as int, v.len() as int);
        assert(rest.drop_first() =~= v@.subrange(start + 1, v.len() as int));
        start = start + 1;
    }
    let ghost ts = v@.subrange(start as int, v.len() as int);
    assert(trim_start(ts) == ts);
    let mut end: usize = v.len();
    while end > start && is_ws_char(v[end - 1])
        invariant
            start <= end <= v.len(),
            trim_start(v@) == v@.subrange(start as int, v.len() as int),
            trim_end(trim_start(v@)) == trim_end(v@.subrange(start as int, end as int)),
        decreases end,
    {
        let ghost cur = v@.subrange(start as int, end as int);
        assert(cur.drop_last() =~= v@.subrange(start as int, end - 1));
        end = end - 1;
    }
    (start, end)
}

/// Characters of `s` with surrounding whitespace removed.
pub fn trimmed_chars(s: &str) -> (r: Vec<char>)
    ensures
        r@ == trim(s@),
{
    let v = chars_of(s);
    let (a, b) = trim_bounds(v.as_slice());
    slice_chars(v.as_slice(), a, b)
}

pub fn digits(v: &[char]) -> (r: bool)
    ensures
        r == all_digits(v@),
{
    let mut i: usize = 0;
    while i < v.len()
        invariant
            i <= v.len(),
            forall|j: int| 0 <= j < i ==> is_digit(#[trigger] v@[j]),
        decreases v.len() - i,
    {
        if !is_digit_char(v[i]) {
            return false;
        }
        i = i + 1;
    }
    true
}

pub fn lower_vec(v: &[char]) -> (r: Vec<char>)
    ensures
        r@ == lower_all(v@),
{
    let mut r: Vec<char> = Vec::new();
    let mut i: usize = 0;
    while i < v.len()
        invariant
            i <= v.len(),
            r@ == lower_all(v@.take(i as int)),
        decreases v.len() - i,
    {
        r.push(lower_char(v[i]));
        i = i + 1;
        assert(r@ =~= lower_all(v@.take(i as int)));
    }
    assert(v@.take(v.len() as int) =~= v@);
    r
}

pub fn last_index_char(v: &[char], c: char) -> (r: Option<usize>)
    ensures
        match r {
            Some(i) => last_index_of(v@, c) == Some(i as int) && i < v.len(),
            None => last_index_of(v@, c) is None,
        },
{
    let mut i: usize = v.len();
    assert(v@.take(v.len() as int) =~= v@);
    while i > 0
        invariant
            i <= v.len(),
            last_index_of(v@, c) == last_index_of(v@.take(i as int), c),
        decreases i,
    {
        let ghost t = v@.take(i as int);
        assert(t.drop_last() =~= v@.take(i - 1));
        assert(t.last() == v@[i - 1]);
        if v[i - 1] == c {
            return Some(i - 1);
        }
        i = i - 1;
    }
    None
}

proof fn lemma_first_index_bounds(s: Seq<char>, p: spec_fn(char) -> bool)
    ensures
        match first_index(s, p) {
            Some(i) => 0 <= i < s.len() && p(s[i]) && forall|j: int| 0 <= j < i ==> !p(s[j]),
            None => forall|j: int| 0 <= j < s.len() ==> !p(s[j]),
        },
    decreases s.len(),
{
    if s.len() > 0 && !p(s[0]) {
        lemma_first_index_bounds(s.drop_first(), p);
        match first_index(s.drop_first(), p) {
            Some(i) => {
                assert forall|j: int| 0 <= j < i + 1 implies !p(s[j]) by {
                    if j > 0 {
                        assert(s[j] == s.drop_first()[j - 1]);
                    }
                }
            },
            None => {
                assert forall|j: int| 0 <= j < s.len() implies !p(s[j]) by {
                    if j > 0 {
                        assert(s[j] == s.drop_first()[j - 1]);
                    }
                }
            },
        }
    }
}

/// `first_index` is the first position accepted by `p`.
pub proof fn lemma_first_index_char(s: Seq<char>, p: spec_fn(char) -> bool, i: int)
    requires
        0 <= i <= s.len(),
        forall|j: int| 0 <= j < i ==> !p(s[j]),
        i == s.len() || p(s[i]),
    ensures
        first_index(s, p) == (if i == s.len() { None } else { Some(i) }),
    decreases s.len(),
{
    if s.len() > 0 && i > 0 {
        assert forall|j: int| 0 <= j < i - 1 implies !p(s.drop_first()[j]) by {
            assert(s.drop_first()[j] == s[j + 1]);
        }
        if i < s.len() {
            assert(s.drop_first()[i - 1] == s[i]);
        }
        lemma_first_index_char(s.drop_first(), p, i - 1);
    }
}

pub fn first_index_char(v: &[char], c: char) -> (r: Option<usize>)
    ensures
        match r {
            Some(i) => first_index_of(v@, c) == Some(i as int) && i < v.len(),
            None => first_index_of(v@, c) is None,
        },
{
    let mut i: usize = 0;
    while i < v.len()
        invariant
            i <= v.len(),
            forall|j: int| 0 <= j < i ==> v@[j] != c,
        decreases v.len() - i,
    {
        if v[i] == c {
            proof {
                lemma_first_index_char(v@, is_char(c), i as int);
            }
            return Some(i);
        }
        i = i + 1;
    }
    proof {
        lemma_first_index_char(v@, is_char(c), v.len() as int);
    }
    None
}

pub fn alpha_prefix_of(v: &[char]) -> (r: Vec<char>)
    ensures
        r@ == alpha_prefix(v@),
{
    let mut i: usize = 0;
    while i < v.len() && is_alpha_char(v[i])
        invariant
            i <= v.len(),
            forall|j: int| 0 <= j < i ==> is_alpha(v@[j]),
        decreases v.len() - i,
    {
        i = i + 1;
    }
    proof {
        lemma_first_index_char(v@, not_alpha(), i as int);
    }
    let r = slice_chars(v, 0, i);
    assert(v@.subrange(0, v.len() as int) =~= v@);
    assert(v@.take(i as int) =~= v@.subrange(0, i as int));
    r
}

pub fn skip_digits_of(v: &[char]) -> (r: Vec<char>)
    ensures
        r@ == skip_digits(v@),
{
    let mut i: usize = 0;
    assert(v@.subrange(0, v.len() as int) =~= v@);
    while i < v.len() && is_digit_char(v[i])
        invariant
            i <= v.len(),
            skip_digits(v@) == skip_digits(v@.subrange(i as int, v.len() as int)),
        decreases v.len() - i,
    {
        let ghost rest = v@.subrange(i as int, v.len() as int);
        assert(rest.drop_first() =~= v@.subrange(i + 1, v.len() as int));
        i = i + 1;
    }
    slice_chars(v, i, v.len())
}

pub fn member(set: &[char], c: char) -> (r: bool)
    ensures
        r == set@.contains(c),
        r == in_set(set@)(c),
{
    let mut k: usize = 0;
    while k < set.len()
        invariant
            k <= set.len(),
            forall|j: int| 0 <= j < k ==> set@[j] != c,
        decreases set.len() - k,
    {
        if set[k] == c {
            return true;
        }
        k = k + 1;
    }
    false
}

/// `v` without the leading and trailing characters of `set`.
pub fn trim_set(v: &[char], set: &[char]) -> (r: Vec<char>)
    ensures
        r@ == trim_end_by(trim_start_by(v@, in_set(set@)), in_set(set@)),
{
    let ghost p = in_set(set@);
    let mut start: usize = 0;
    assert(v@.subrange(0, v.len() as int) =~= v@);
    while start < v.len() && member(set, v[start])
        invariant
            start <= v.len(),
            p == in_set(set@),
            trim_start_by(v@, p) == trim_start_by(v@.subrange(start as int, v.len() as int), p),
        decreases v.len() - start,
    {
        let ghost rest = v@.subrange(start as int, v.len() as int);
        assert(rest.drop_first() =~= v@.subrange(start + 1, v.len() as int));
        start = start + 1;
    }
    let mut end: usize = v.len();
    while end > start && member(set, v[end - 1])
        invariant
            start <= end <= v.len(),
            p == in_set(set@),
            trim_start_by(v@, p) == v@.subrange(start as int, v.len() as int),
            trim_end_by(trim_start_by(v@, p), p) == trim_end_by(v@.subrange(start as int, end as int), p),
        decreases end,
    {
        let ghost cur = v@.subrange(start as int, end as int);
        assert(cur.drop_last() =~= v@.subrange(start as int, end - 1));
        end = end - 1;
    }
    slice_chars(v, start, end)
}

/// `v` without its leading `v`/`V` characters.
pub fn strip_v_all_of(v: &[char]) -> (r: Vec<char>)
    ensures
        r@ == strip_v_all(v@),
{
    let mut i: usize = 0;
    assert(v@.subrange(0, v.len() as int) =~= v@);
    while i < v.len() && (v[i] == 'v' || v[i] == 'V')
        invariant
            i <= v.len(),
            strip_v_all(v@) == strip_v_all(v@.subrange(i as int, v.len() as int)),
        decreases v.len() - i,
    {
        let ghost rest = v@.subrange(i as int, v.len() as int);
        assert(rest.drop_first() =~= v@.subrange(i + 1, v.len() as int));
        i = i + 1;
    }
    slice_chars(v, i, v.len())
}

/// `v` without one leading `v`/`V`.
pub fn strip_v_once_of(v: &[char]) -> (r: Vec<char>)
    ensures
        r@ == strip_v_once(v@),
{
    if v.len() > 0 && (v[0] == 'v' || v[0] == 'V') {
        let r = slice_chars(v, 1, v.len());
        assert(r@ =~= v@.drop_first());
        r
    } else {
        let r = slice_chars(v, 0, v.len());
        assert(r@ =~= v@);
        r
    }
}

/// Pieces of `v` between the characters that `is_sep` marks, as `str::split`.
pub fn split_chars(v: &[char], seps: &[char]) -> (r: Vec<Vec<char>>)
    ensures
        r@.len() == split_by(v@, in_set(seps@)).len(),
        forall|i: int| 0 <= i < r@.len() ==> #[trigger] r@[i]@ == split_by(v@, in_set(seps@))[i],
{
    let ghost sep = in_set(seps@);
    let mut done: Vec<Vec<char>> = Vec::new();
    let mut cur: Vec<char> = Vec::new();
    let mut i: usize = 0;
    while i < v.len()
        invariant
            i <= v.len(),
            sep == in_set(seps@),
            done@.len() + 1 == split_by(v@.take(i as int), sep).len(),
            forall|k: int|
                0 <= k < done@.len() ==> #[trigger] done@[k]@ == split_by(v@.take(i as int), sep)[k],
            cur@ == split_by(v@.take(i as int), sep).last(),
        decreases v.len() - i,
    {
        let ghost before = split_by(v@.take(i as int), sep);
        let c = v[i];
        let is_sep = member(seps, c);
        let ghost t = v@.take(i + 1);
        assert(t.drop_last() =~= v@.take(i as int));
        assert(t.last() == c);
        if is_sep {
            let piece = cur;
            done.push(piece);
            cur = Vec::new();
            assert(cur@ =~= Seq::<char>::empty());
        } else {
            cur.push(c);
        }
        i = i + 1;
        proof {
            let after = split_by(v@.take(i as int), sep);
            if is_sep {
                assert(after == before.push(Seq::<char>::empty()));
            } else {
                assert(after == before.update(before.len() - 1, before.last().push(c)));
            }
            assert forall|k: int| 0 <= k < done@.len() implies #[trigger] done@[k]@ == after[k] by {}
        }
    }
    assert(v@.take(v.len() as int) =~= v@);
    done.push(cur);
    done
}

/// Decimal representation of `n`, as `u64::to_string` gives it.
pub fn decimal_string(n: u64) -> (s: String)
    ensures
        s@ == decimal(n as nat),
    decreases n,
{
    if n < 10 {
        let mut s = String::new();
        push_char(&mut s, digit_of(n));
        assert(s@ =~= seq![digit_char(n as int)]);
        s
    } else {
        let mut s = decimal_string(n / 10);
        push_char(&mut s, digit_of(n % 10));
        s
    }
}

fn digit_of(d: u64) -> (c: char)
    requires
        d < 10,
    ensures
        c == digit_char(d as int),
{
    if d == 0 { '0' }
    else if d == 1 { '1' }
    else if d == 2 { '2' }
    else if d == 3 { '3' }
    else if d == 4 { '4' }
    else if d == 5 { '5' }
    else if d == 6 { '6' }
    else if d == 7 { '7' }
    else if d == 8 { '8' }
    else { '9' }
}

/// `a` followed by `b`.
pub fn concat(a: &str, b: &str) -> (s: String)
    ensures
        s@ == a@ + b@,
{
    let mut s = a.to_owned();
    s.append(b);
    s
}

/// Lexicographic order of character sequences, as `str` orders them (code
/// point by code point; a proper prefix comes first).
pub open spec fn seq_less(a: Seq<char>, b: Seq<char>) -> bool
    decreases a.len(),
{
    if a.len() == 0 {
        b.len() > 0
    } else if b.len() == 0 {
        false
    } else if a[0] != b[0] {
        (a[0] as int) < (b[0] as int)
    } else {
        seq_less(a.drop_first(), b.drop_first())
    }
}

pub proof fn lemma_seq_less_irreflexive(a: Seq<char>)
    ensures
        !seq_less(a, a),
    decreases a.len(),
{
    if a.len() > 0 {
        lemma_seq_less_irreflexive(a.drop_first());
    }
}

pub proof fn lemma_seq_less_transitive(a: Seq<char>, b: Seq<char>, c: Seq<char>)
    requires
        seq_less(a, b),
        seq_less(b, c),
    ensures
        seq_less(a, c),
    decreases a.len(),
{
    if a.len() > 0 && b.len() > 0 && c.len() > 0 && a[0] == b[0] && b[0] == c[0] {
        lemma_seq_less_transitive(a.drop_first(), b.drop_first(), c.drop_first());
    }
}

pub proof fn lemma_seq_less_total(a: Seq<char>, b: Seq<char>)
    ensures
        a == b || seq_less(a, b) || seq_less(b, a),
    decreases a.len(),
{
    if a.len() > 0 && b.len() > 0 && a[0] == b[0] {
        lemma_seq_less_total(a.drop_first(), b.drop_first());
        if a.drop_first() == b.drop_first() {
            assert(a =~= seq![a[0]] + a.drop_first());
            assert(b =~= seq![b[0]] + b.drop_first());
        }
    } else if a.len() > 0 && b.len() > 0 {
        assert((a[0] as int) != (b[0] as int));
    } else if a.len() == 0 && b.len() == 0 {
        assert(a =~= b);
    }
}

/// Whether `a` comes before `b` in the order of `str`.
pub fn text_less(a: &str, b: &str) -> (r: bool)
    ensures
        r == seq_less(a@, b@),
{
    let x = chars_of(a);
    let y = chars_of(b);
    let mut i: usize = 0;
    assert(a@.skip(0) =~= a@);
    assert(b@.skip(0) =~= b@);
    while i < x.len() && i < y.len()
        invariant
            x@ == a@,
            y@ == b@,
            i <= x@.len(),
            i <= y@.len(),
            seq_less(a@, b@) == seq_less(a@.skip(i as int), b@.skip(i as int)),
        decreases x@.len() - i,
    {
        let ghost sa = a@.skip(i as int);
        let ghost sb = b@.skip(i as int);
        assert(sa[0] == x@[i as int]);
        assert(sb[0] == y@[i as int]);
        if x[i] != y[i] {
            return x[i] < y[i];
        }
        assert(sa.drop_first() =~= a@.skip(i + 1));
        assert(sb.drop_first() =~= b@.skip(i + 1));
        i = i + 1;
    }
    let ghost sa = a@.skip(i as int);
    let ghost sb = b@.skip(i as int);
    assert(sa.len() == 0 || sb.len() == 0);
    x.len() - i < y.len() - i
}


/// Whether `s` starts with `p`.
pub open spec fn has_prefix(s: Seq<char>, p: Seq<char>) -> bool {
    p.len() <= s.len() && s.take(p.len() as int) == p
}

/// What follows `prefix` in `t`, when `t` starts with it.
pub fn strip_prefix_of(t: &[char], prefix: &str) -> (r: Option<Vec<char>>)
    ensures
        match r {
            Some(rest) => has_prefix(t@, prefix@) && rest@ == t@.skip(prefix@.len() as int),
            None => !has_prefix(t@, prefix@),
        },
{
    let p = chars_of(prefix);
    if p.len() > t.len() {
        return None;
    }
    let mut i: usize = 0;
    while i < p.len()
        invariant
            p@ == prefix@,
            p@.len() <= t@.len(),
            i <= p@.len(),
            forall|j: int| 0 <= j < i ==> #[trigger] t@[j] == p@[j],
        decreases p@.len() - i,
    {
        if t[i] != p[i] {
            assert(t@.take(p@.len() as int)[i as int] != p@[i as int]);
            return None;
        }
        i = i + 1;
    }
    assert(t@.take(p@.len() as int) =~= p@);
    let rest = slice_chars(t, p.len(), t.len());
    assert(rest@ =~= t@.skip(prefix@.len() as int));
    Some(rest)
}


} // verus!
