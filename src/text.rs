//! Character-level helpers shared by every decoder: splitting, trimming and the
//! textual forms of integers and booleans.
use vstd::prelude::*;

verus! {

/// `char::is_whitespace`: the characters with Unicode's White_Space property.
pub open spec fn is_space(c: char) -> bool {
    ('\u{9}' <= c && c <= '\u{d}') || c == ' ' || c == '\u{85}' || c == '\u{a0}'
        || c == '\u{1680}' || ('\u{2000}' <= c && c <= '\u{200a}') || c == '\u{2028}'
        || c == '\u{2029}' || c == '\u{202f}' || c == '\u{205f}' || c == '\u{3000}'
}

pub fn space(c: char) -> (r: bool)
    ensures
        r == is_space(c),
{
    ('\u{9}' <= c && c <= '\u{d}') || c == ' ' || c == '\u{85}' || c == '\u{a0}'
        || c == '\u{1680}' || ('\u{2000}' <= c && c <= '\u{200a}') || c == '\u{2028}'
        || c == '\u{2029}' || c == '\u{202f}' || c == '\u{205f}' || c == '\u{3000}'
}

/// `s` without its leading white space.
pub open spec fn trim_start(s: Seq<char>) -> Seq<char>
    decreases s.len(),
{
    if s.len() > 0 && is_space(s[0]) {
        trim_start(s.skip(1))
    } else {
        s
    }
}

/// `s` without its trailing white space.
pub open spec fn trim_end(s: Seq<char>) -> Seq<char>
    decreases s.len(),
{
    if s.len() > 0 && is_space(s.last()) {
        trim_end(s.drop_last())
    } else {
        s
    }
}

/// `s` without white space at either end.
pub open spec fn trim(s: Seq<char>) -> Seq<char> {
    trim_end(trim_start(s))
}

/// The pieces of `s` between occurrences of `d`; an empty `s` gives one empty piece.
pub open spec fn split(s: Seq<char>, d: char) -> Seq<Seq<char>>
    decreases s.len(),
{
    if s.len() == 0 {
        seq![Seq::empty()]
    } else {
        let p = split(s.drop_last(), d);
        if s.last() == d {
            p.push(Seq::empty())
        } else {
            p.update(p.len() - 1, p.last().push(s.last()))
        }
    }
}

/// `i` is the position of the first `d` in `s`.
pub open spec fn first_at(s: Seq<char>, d: char, i: int) -> bool {
    0 <= i < s.len() && s[i] == d && forall|j: int| 0 <= j < i ==> s[j] != d
}

/// The text before and after the first `d` in `s`, if there is one.
pub open spec fn split_once(s: Seq<char>, d: char) -> Option<(Seq<char>, Seq<char>)> {
    if exists|i: int| first_at(s, d, i) {
        let i = choose|i: int| first_at(s, d, i);
        Some((s.take(i), s.skip(i + 1)))
    } else {
        None
    }
}

/// The views of a sequence of character vectors.
pub open spec fn views(v: Seq<Vec<char>>) -> Seq<Seq<char>> {
    v.map_values(|x: Vec<char>| x@)
}

pub open spec fn is_digit(c: char) -> bool {
    '0' <= c && c <= '9'
}

pub open spec fn all_digits(s: Seq<char>) -> bool {
    forall|i: int| 0 <= i < s.len() ==> is_digit(#[trigger] s[i])
}

/// The number written by the decimal digits `s`, most significant first.
pub open spec fn digits_value(s: Seq<char>) -> int
    decreases s.len(),
{
    if s.len() == 0 {
        0
    } else {
        digits_value(s.drop_last()) * 10 + (s.last() as int - '0' as int)
    }
}

/// What `str::parse` accepts for a signed integer type: an optional sign, then digits.
pub open spec fn signed_literal(s: Seq<char>) -> bool {
    if s.len() > 0 && (s[0] == '+' || s[0] == '-') {
        s.len() > 1 && all_digits(s.skip(1))
    } else {
        s.len() > 0 && all_digits(s)
    }
}

pub open spec fn signed_value(s: Seq<char>) -> int {
    if s.len() > 0 && s[0] == '-' {
        -digits_value(s.skip(1))
    } else if s.len() > 0 && s[0] == '+' {
        digits_value(s.skip(1))
    } else {
        digits_value(s)
    }
}

/// The `i64` that `s` denotes, if it is one.
pub open spec fn int_of(s: Seq<char>) -> Option<i64> {
    if signed_literal(s) && i64::MIN <= signed_value(s) <= i64::MAX {
        Some(signed_value(s) as i64)
    } else {
        None
    }
}

/// What `str::parse` accepts for an unsigned integer type: an optional `+`, then digits.
pub open spec fn unsigned_literal(s: Seq<char>) -> bool {
    if s.len() > 0 && s[0] == '+' {
        s.len() > 1 && all_digits(s.skip(1))
    } else {
        s.len() > 0 && all_digits(s)
    }
}

pub open spec fn unsigned_value(s: Seq<char>) -> int {
    if s.len() > 0 && s[0] == '+' {
        digits_value(s.skip(1))
    } else {
        digits_value(s)
    }
}

/// The byte that `s` denotes, if it is one.
pub open spec fn byte_of(s: Seq<char>) -> Option<u8> {
    if unsigned_literal(s) && unsigned_value(s) <= 255 {
        Some(unsigned_value(s) as u8)
    } else {
        None
    }
}

/// The boolean that `s` spells, if it spells one.
pub open spec fn bool_of(s: Seq<char>) -> Option<bool> {
    if s == "true"@ {
        Some(true)
    } else if s == "false"@ {
        Some(false)
    } else {
        None
    }
}

/// The characters of `s`, in order.
pub fn chars_of(s: &str) -> (r: Vec<char>)
    ensures
        r@ == s@,
{
    let mut r: Vec<char> = Vec::new();
    for c in it: s.chars()
        invariant
            r@ == it.seq().take(it.index() as int),
    {
        r.push(c);
    }
    r
}

/// Relies on `String::push`: the character is appended at the end.
#[verifier::external_body]
fn push_char(s: &mut String, c: char)
    ensures
        final(s)@ == old(s)@.push(c),
{
    s.push(c)
}

/// A string holding the characters of `v`, in order.
pub fn string_of(v: &[char]) -> (r: String)
    ensures
        r@ == v@,
{
    let mut r = String::new();
    let mut i: usize = 0;
    while i < v.len()
        invariant
            i <= v@.len(),
            r@ == v@.take(i as int),
        decreases v@.len() - i,
    {
        push_char(&mut r, v[i]);
        assert(v@.take(i + 1) =~= v@.take(i as int).push(v@[i as int]));
        i = i + 1;
    }
    assert(v@.take(i as int) =~= v@);
    r
}

/// A copy of `s[from..to]`.
pub fn copy_range(s: &[char], from: usize, to: usize) -> (r: Vec<char>)
    requires
        from <= to <= s@.len(),
    ensures
        r@ == s@.subrange(from as int, to as int),
{
    let mut r: Vec<char> = Vec::new();
    let mut i = from;
    while i < to
        invariant
            from <= i <= to <= s@.len(),
            r@ == s@.subrange(from as int, i as int),
        decreases to - i,
    {
        r.push(s[i]);
        i = i + 1;
    }
    r
}

/// Whether `a` and `b` hold the same characters.
pub fn same(a: &[char], b: &[char]) -> (r: bool)
    ensures
        r == (a@ == b@),
{
    if a.len() != b.len() {
        return false;
    }
    let mut i: usize = 0;
    while i < a.len()
        invariant
            a@.len() == b@.len(),
            i <= a@.len(),
            forall|j: int| 0 <= j < i ==> a@[j] == b@[j],
        decreases a@.len() - i,
    {
        if a[i] != b[i] {
            return false;
        }
        i = i + 1;
    }
    assert(a@ =~= b@);
    true
}

/// Whether `a` holds exactly the characters of the literal `lit`.
pub fn is(a: &[char], lit: &str) -> (r: bool)
    ensures
        r == (a@ == lit@),
{
    let l = chars_of(lit);
    same(a, l.as_slice())
}

/// `s` without white space at either end.
pub fn trimmed(s: &[char]) -> (r: Vec<char>)
    ensures
        r@ == trim(s@),
{
    let mut i: usize = 0;
    assert(s@.skip(0) =~= s@);
    while i < s.len() && space(s[i])
        invariant
            i <= s@.len(),
            trim_start(s@) == trim_start(s@.skip(i as int)),
        decreases s@.len() - i,
    {
        assert(s@.skip(i as int).skip(1) =~= s@.skip(i + 1));
        i = i + 1;
    }
    let mut j: usize = s.len();
    assert(s@.skip(i as int) =~= s@.subrange(i as int, j as int));
    while j > i && space(s[j - 1])
        invariant
            i <= j <= s@.len(),
            trim(s@) == trim_end(s@.subrange(i as int, j as int)),
        decreases j - i,
    {
        assert(s@.subrange(i as int, j as int).drop_last() =~= s@.subrange(i as int, j - 1));
        j = j - 1;
    }
    copy_range(s, i, j)
}

/// The pieces of `s` between occurrences of `d`.
pub fn split_on(s: &[char], d: char) -> (r: Vec<Vec<char>>)
    ensures
        views(r@) == split(s@, d),
{
    let mut parts: Vec<Vec<char>> = Vec::new();
    let mut cur: Vec<char> = Vec::new();
    let mut i: usize = 0;
    assert(s@.take(0) =~= Seq::<char>::empty());
    assert(views(parts@).push(cur@) =~= split(Seq::<char>::empty(), d));
    while i < s.len()
        invariant
            i <= s@.len(),
            views(parts@).push(cur@) == split(s@.take(i as int), d),
        decreases s@.len() - i,
    {
        let c = s[i];
        assert(s@.take(i + 1).drop_last() =~= s@.take(i as int));
        if c == d {
            let done = cur;
            parts.push(done);
            cur = Vec::new();
            assert(views(parts@).push(cur@) =~= split(s@.take(i + 1), d));
        } else {
            cur.push(c);
            assert(views(parts@).push(cur@) =~= split(s@.take(i + 1), d));
        }
        i = i + 1;
    }
    assert(s@.take(i as int) =~= s@);
    parts.push(cur);
    assert(views(parts@) =~= split(s@, d));
    parts
}

/// The position of the first `d` in `s`, if there is one.
pub fn find(s: &[char], d: char) -> (r: Option<usize>)
    ensures
        match r {
            Some(i) => first_at(s@, d, i as int),
            None => forall|j: int| 0 <= j < s@.len() ==> s@[j] != d,
        },
{
    let mut i: usize = 0;
    while i < s.len()
        invariant
            i <= s@.len(),
            forall|j: int| 0 <= j < i ==> s@[j] != d,
        decreases s@.len() - i,
    {
        if s[i] == d {
            return Some(i);
        }
        i = i + 1;
    }
    None
}

/// The text before and after the first `d` in `s`, if there is one.
pub fn split_once_on(s: &[char], d: char) -> (r: Option<(Vec<char>, Vec<char>)>)
    ensures
        match r {
            Some((a, b)) => split_once(s@, d) == Some((a@, b@)),
            None => split_once(s@, d) is None,
        },
{
    match find(s, d) {
        Some(i) => {
            let n = s.len();
            assert(i < n);
            let a = copy_range(s, 0, i);
            let b = copy_range(s, i + 1, n);
            assert(first_at(s@, d, i as int));
            assert(split_once(s@, d) == Some((s@.take(i as int), s@.skip(i + 1)))) by {
                let k = choose|k: int| first_at(s@, d, k);
                assert(k == i as int);
            }
            assert(a@ =~= s@.take(i as int));
            assert(b@ =~= s@.skip(i + 1));
            Some((a, b))
        },
        None => None,
    }
}

/// `v`, or `cap + 1` where `v` exceeds `cap`.
pub open spec fn capped(v: int, cap: int) -> int {
    if v <= cap {
        v
    } else {
        cap + 1
    }
}

/// The number written by `s[start..]`, capped at `cap + 1`; `None` where one of
/// those characters is no digit.
pub(crate) fn digits_capped(s: &[char], start: usize, cap: u64) -> (r: Option<u64>)
    requires
        start <= s@.len(),
        cap < u64::MAX,
    ensures
        match r {
            Some(v) => all_digits(s@.skip(start as int)) && v == capped(
                digits_value(s@.skip(start as int)),
                cap as int,
            ),
            None => !all_digits(s@.skip(start as int)),
        },
{
    let n = s.len();
    let mut acc: u64 = 0;
    let mut i = start;
    assert(s@.subrange(start as int, start as int) =~= Seq::<char>::empty());
    while i < n
        invariant
            n == s@.len(),
            start <= i <= n,
            cap < u64::MAX,
            all_digits(s@.subrange(start as int, i as int)),
            acc as int == capped(digits_value(s@.subrange(start as int, i as int)), cap as int),
            digits_value(s@.subrange(start as int, i as int)) >= 0,
        decreases n - i,
    {
        let c = s[i];
        if !('0' <= c && c <= '9') {
            assert(s@.skip(start as int)[i - start] == c);
            return None;
        }
        let d = (c as u32 - '0' as u32) as u64;
        let ghost prev = s@.subrange(start as int, i as int);
        let ghost next = s@.subrange(start as int, i + 1);
        assert(next.drop_last() =~= prev);
        assert(digits_value(next) == digits_value(prev) * 10 + d);
        if acc > cap {
            acc = cap + 1;
        } else {
            let v: u128 = acc as u128 * 10 + d as u128;
            if v > cap as u128 {
                acc = cap + 1;
            } else {
                acc = v as u64;
            }
        }
        assert(all_digits(next)) by {
            assert forall|k: int| 0 <= k < next.len() implies is_digit(#[trigger] next[k]) by {
                if k < prev.len() {
                    assert(next[k] == prev[k]);
                }
            }
        }
        i = i + 1;
    }
    assert(s@.subrange(start as int, n as int) =~= s@.skip(start as int));
    Some(acc)
}

/// `str::parse::<i64>` on the characters `s`.
pub fn parse_i64(s: &[char]) -> (r: Option<i64>)
    ensures
        r == int_of(s@),
{
    let n = s.len();
    if n == 0 {
        return None;
    }
    let signed = s[0] == '+' || s[0] == '-';
    let neg = s[0] == '-';
    if signed && n == 1 {
        return None;
    }
    let start: usize = if signed { 1 } else { 0 };
    assert(s@.skip(0) =~= s@);
    let cap: u64 = if neg { 9223372036854775808 } else { 9223372036854775807 };
    match digits_capped(s, start, cap) {
        None => None,
        Some(v) => {
            if v > cap {
                None
            } else if neg {
                if v == 9223372036854775808 {
                    Some(i64::MIN)
                } else {
                    Some(-(v as i64))
                }
            } else {
                Some(v as i64)
            }
        },
    }
}

/// `str::parse::<u8>` on the characters `s`.
pub fn parse_u8(s: &[char]) -> (r: Option<u8>)
    ensures
        r == byte_of(s@),
{
    let n = s.len();
    if n == 0 {
        return None;
    }
    let signed = s[0] == '+';
    if signed && n == 1 {
        return None;
    }
    let start: usize = if signed { 1 } else { 0 };
    assert(s@.skip(0) =~= s@);
    match digits_capped(s, start, 255) {
        None => None,
        Some(v) => {
            if v > 255 {
                None
            } else {
                Some(v as u8)
            }
        },
    }
}

/// `str::parse::<bool>` on the characters `s`.
pub fn parse_bool(s: &[char]) -> (r: Option<bool>)
    ensures
        r == bool_of(s@),
{
    if is(s, "true") {
        Some(true)
    } else if is(s, "false") {
        Some(false)
    } else {
        None
    }
}

/// `i` is the position of the last `d` in `s`.
pub open spec fn last_at(s: Seq<char>, d: char, i: int) -> bool {
    0 <= i < s.len() && s[i] == d && forall|j: int| i < j < s.len() ==> s[j] != d
}

/// The position of the last `d` in `s`, if there is one.
pub fn rfind(s: &[char], d: char) -> (r: Option<usize>)
    ensures
        match r {
            Some(i) => last_at(s@, d, i as int),
            None => forall|j: int| 0 <= j < s@.len() ==> s@[j] != d,
        },
{
    let mut i: usize = s.len();
    while i > 0
        invariant
            i <= s@.len(),
            forall|j: int| i <= j < s@.len() ==> s@[j] != d,
        decreases i,
    {
        if s[i - 1] == d {
            return Some(i - 1);
        }
        i = i - 1;
    }
    None
}

/// Each piece decoded by `f`, or `None` where one of them fails.
pub open spec fn each<T>(parts: Seq<Seq<char>>, f: spec_fn(Seq<char>) -> Option<T>) -> Option<
    Seq<T>,
>
    decreases parts.len(),
{
    if parts.len() == 0 {
        Some(Seq::empty())
    } else {
        match each(parts.drop_last(), f) {
            Some(xs) => match f(parts.last()) {
                Some(x) => Some(xs.push(x)),
                None => None,
            },
            None => None,
        }
    }
}

/// Once a prefix fails to decode, so does the whole.
pub proof fn lemma_each_fails<T>(parts: Seq<Seq<char>>, i: int, f: spec_fn(Seq<char>) -> Option<T>)
    requires
        0 <= i <= parts.len(),
        each(parts.take(i), f) is None,
    ensures
        each(parts, f) is None,
    decreases parts.len() - i,
{
    if i < parts.len() {
        assert(parts.take(i + 1).drop_last() =~= parts.take(i));
        lemma_each_fails(parts, i + 1, f);
    } else {
        assert(parts.take(i) =~= parts);
    }
}

/// The trimmed pieces' views.
pub open spec fn trim_all(parts: Seq<Seq<char>>) -> Seq<Seq<char>> {
    parts.map_values(|p: Seq<char>| trim(p))
}

/// The pieces of `s` between occurrences of `d`, each without white space at its ends.
pub fn split_trimmed(s: &[char], d: char) -> (r: Vec<Vec<char>>)
    ensures
        views(r@) == trim_all(split(s@, d)),
{
    let parts = split_on(s, d);
    let mut r: Vec<Vec<char>> = Vec::new();
    let mut i: usize = 0;
    while i < parts.len()
        invariant
            i <= parts@.len(),
            views(parts@) == split(s@, d),
            views(r@) == trim_all(views(parts@).take(i as int)),
        decreases parts@.len() - i,
    {
        let t = trimmed(parts[i].as_slice());
        let ghost before = r@;
        r.push(t);
        assert(views(parts@)[i as int] == parts@[i as int]@);
        assert(r@ =~= before.push(t));
        assert(views(r@) =~= views(before).push(t@));
        assert(views(parts@).take(i + 1) =~= views(parts@).take(i as int).push(parts@[i as int]@));
        assert(trim_all(views(parts@).take(i + 1)) =~= trim_all(views(parts@).take(i as int)).push(
            t@,
        ));
        assert(views(r@) =~= trim_all(views(parts@).take(i + 1)));
        i = i + 1;
    }
    assert(views(parts@).take(i as int) =~= views(parts@));
    r
}

/// The text before and after the last `d` in `s`, if there is one.
pub open spec fn rsplit_once(s: Seq<char>, d: char) -> Option<(Seq<char>, Seq<char>)> {
    if exists|i: int| last_at(s, d, i) {
        let i = choose|i: int| last_at(s, d, i);
        Some((s.take(i), s.skip(i + 1)))
    } else {
        None
    }
}

/// The text before and after the last `d` in `s`, if there is one.
pub fn rsplit_once_on(s: &[char], d: char) -> (r: Option<(Vec<char>, Vec<char>)>)
    ensures
        match r {
            Some((a, b)) => rsplit_once(s@, d) == Some((a@, b@)),
            None => rsplit_once(s@, d) is None,
        },
{
    match rfind(s, d) {
        Some(i) => {
            let n = s.len();
            assert(i < n);
            let a = copy_range(s, 0, i);
            let b = copy_range(s, i + 1, n);
            assert(rsplit_once(s@, d) == Some((s@.take(i as int), s@.skip(i + 1)))) by {
                let k = choose|k: int| last_at(s@, d, k);
                assert(k == i as int);
            }
            assert(a@ =~= s@.take(i as int));
            assert(b@ =~= s@.skip(i + 1));
            Some((a, b))
        },
        None => None,
    }
}

/// Splitting gives at least one piece.
pub proof fn lemma_split_nonempty(s: Seq<char>, d: char)
    ensures
        split(s, d).len() >= 1,
    decreases s.len(),
{
    if s.len() > 0 {
        lemma_split_nonempty(s.drop_last(), d);
    }
}

/// Digits around at most one point, with a digit on at least one side.
pub open spec fn unsigned_decimal(t: Seq<char>) -> bool {
    match split_once(t, '.') {
        None => t.len() > 0 && all_digits(t),
        Some((a, b)) => all_digits(a) && all_digits(b) && a.len() + b.len() > 0,
    }
}

/// An unsigned decimal with an optional sign.
pub open spec fn signed_decimal(t: Seq<char>) -> bool {
    if t.len() > 0 && (t[0] == '+' || t[0] == '-') {
        unsigned_decimal(t.skip(1))
    } else {
        unsigned_decimal(t)
    }
}

pub open spec fn is_exp_mark(c: char) -> bool {
    c == 'e' || c == 'E'
}

/// The text of a real number: a signed decimal, then optionally `e` or `E` and a
/// signed integer exponent (`500`, `-100`, `0.5`, `1.5E+308`).
pub open spec fn real_literal(s: Seq<char>) -> bool {
    signed_decimal(s) || exists|i: int|
        0 <= i < s.len() && is_exp_mark(s[i]) && signed_decimal(#[trigger] s.take(i))
            && signed_literal(s.skip(i + 1))
}

/// A signed decimal holds no exponent mark.
proof fn lemma_decimal_no_mark(t: Seq<char>, k: int)
    requires
        signed_decimal(t),
        0 <= k < t.len(),
    ensures
        !is_exp_mark(t[k]),
{
    let u = if t.len() > 0 && (t[0] == '+' || t[0] == '-') {
        t.skip(1)
    } else {
        t
    };
    if k > 0 || !(t[0] == '+' || t[0] == '-') {
        let j = if t.len() > 0 && (t[0] == '+' || t[0] == '-') {
            k - 1
        } else {
            k
        };
        assert(u[j] == t[k]);
        match split_once(u, '.') {
            None => {
                assert(is_digit(u[j]));
            },
            Some((a, b)) => {
                let i = choose|i: int| first_at(u, '.', i);
                assert(a == u.take(i) && b == u.skip(i + 1));
                if j < i {
                    assert(a[j] == u[j]);
                    assert(is_digit(a[j]));
                } else if j > i {
                    assert(b[j - i - 1] == u[j]);
                    assert(is_digit(b[j - i - 1]));
                }
            },
        }
    }
}

/// Whether every character of `s[start..]` is a decimal digit.
pub fn digits_only(s: &[char], start: usize) -> (r: bool)
    requires
        start <= s@.len(),
    ensures
        r == all_digits(s@.skip(start as int)),
{
    let mut i = start;
    while i < s.len()
        invariant
            start <= i <= s@.len(),
            forall|j: int| start <= j < i ==> is_digit(s@[j]),
        decreases s@.len() - i,
    {
        if !('0' <= s[i] && s[i] <= '9') {
            assert(s@.skip(start as int)[i - start] == s@[i as int]);
            return false;
        }
        i = i + 1;
    }
    assert forall|k: int| 0 <= k < s@.skip(start as int).len() implies is_digit(
        #[trigger] s@.skip(start as int)[k],
    ) by {
        assert(s@.skip(start as int)[k] == s@[start + k]);
    }
    true
}

fn unsigned_decimal_exec(t: &[char]) -> (r: bool)
    ensures
        r == unsigned_decimal(t@),
{
    assert(t@.skip(0) =~= t@);
    match split_once_on(t, '.') {
        None => t.len() > 0 && digits_only(t, 0),
        Some((a, b)) => {
            assert(a@.skip(0) =~= a@);
            assert(b@.skip(0) =~= b@);
            digits_only(a.as_slice(), 0) && digits_only(b.as_slice(), 0) && (a.len() > 0
                || b.len() > 0)
        },
    }
}

fn signed_decimal_exec(t: &[char]) -> (r: bool)
    ensures
        r == signed_decimal(t@),
{
    if t.len() > 0 && (t[0] == '+' || t[0] == '-') {
        let rest = copy_range(t, 1, t.len());
        assert(rest@ =~= t@.skip(1));
        unsigned_decimal_exec(rest.as_slice())
    } else {
        unsigned_decimal_exec(t)
    }
}

fn signed_literal_exec(t: &[char]) -> (r: bool)
    ensures
        r == signed_literal(t@),
{
    if t.len() > 0 && (t[0] == '+' || t[0] == '-') {
        t.len() > 1 && digits_only(t, 1)
    } else {
        assert(t@.skip(0) =~= t@);
        t.len() > 0 && digits_only(t, 0)
    }
}

/// Whether `s` is the text of a real number.
pub fn is_real(s: &[char]) -> (r: bool)
    ensures
        r == real_literal(s@),
{
    let n = s.len();
    let mut i: usize = 0;
    while i < n && !(s[i] == 'e' || s[i] == 'E')
        invariant
            n == s@.len(),
            i <= n,
            forall|j: int| 0 <= j < i ==> !is_exp_mark(s@[j]),
        decreases n - i,
    {
        i = i + 1;
    }
    if signed_decimal_exec(s) {
        return true;
    }
    if i == n {
        assert(!exists|k: int|
            0 <= k < s@.len() && is_exp_mark(s@[k]) && signed_decimal(#[trigger] s@.take(k))
                && signed_literal(s@.skip(k + 1)));
        return false;
    }
    let head = copy_range(s, 0, i);
    let tail = copy_range(s, i + 1, n);
    assert(head@ =~= s@.take(i as int));
    assert(tail@ =~= s@.skip(i + 1));
    let ok = signed_decimal_exec(head.as_slice()) && signed_literal_exec(tail.as_slice());
    if !ok {
        assert forall|k: int|
            0 <= k < s@.len() && is_exp_mark(s@[k]) implies !(signed_decimal(
            #[trigger] s@.take(k),
        ) && signed_literal(s@.skip(k + 1))) by {
            if k > i && signed_decimal(s@.take(k)) {
                assert(s@.take(k)[i as int] == s@[i as int]);
                lemma_decimal_no_mark(s@.take(k), i as int);
            }
        }
    }
    ok
}

} // verus!
