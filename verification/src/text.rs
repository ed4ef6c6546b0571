//! Character-level text utilities shared by every service: prefix and suffix
//! tests, ordering of names, decimal rendering and parsing, and XML escaping.
use vstd::prelude::*;
use vstd::string::*;

verus! {

/// `p` is a prefix of `s`.
pub open spec fn is_prefix(p: Seq<char>, s: Seq<char>) -> bool {
    p.len() <= s.len() && s.subrange(0, p.len() as int) == p
}

/// `p` is a suffix of `s`.
pub open spec fn is_suffix(p: Seq<char>, s: Seq<char>) -> bool {
    p.len() <= s.len() && s.subrange(s.len() - p.len(), s.len() as int) == p
}

/// Lexicographic order on character sequences, by code point. UTF-8 preserves
/// code-point order, so this is the order of Rust's `Ord` on `String`.
pub open spec fn seq_lt(a: Seq<char>, b: Seq<char>) -> bool
    decreases a.len(),
{
    if b.len() == 0 {
        false
    } else if a.len() == 0 {
        true
    } else if a[0] != b[0] {
        a[0] < b[0]
    } else {
        seq_lt(a.drop_first(), b.drop_first())
    }
}

pub proof fn lemma_seq_lt_irreflexive(a: Seq<char>)
    ensures
        !seq_lt(a, a),
    decreases a.len(),
{
    if a.len() > 0 {
        lemma_seq_lt_irreflexive(a.drop_first());
    }
}

pub proof fn lemma_seq_lt_transitive(a: Seq<char>, b: Seq<char>, c: Seq<char>)
    requires
        seq_lt(a, b),
        seq_lt(b, c),
    ensures
        seq_lt(a, c),
    decreases a.len(),
{
    if a.len() > 0 && b.len() > 0 && c.len() > 0 {
        if a[0] == b[0] && b[0] == c[0] {
            lemma_seq_lt_transitive(a.drop_first(), b.drop_first(), c.drop_first());
        }
    }
}

pub proof fn lemma_seq_lt_trichotomy(a: Seq<char>, b: Seq<char>)
    ensures
        seq_lt(a, b) || a == b || seq_lt(b, a),
    decreases a.len(),
{
    if a.len() > 0 && b.len() > 0 {
        if a[0] == b[0] {
            lemma_seq_lt_trichotomy(a.drop_first(), b.drop_first());
            if a.drop_first() == b.drop_first() {
                assert(a == seq![a[0]] + a.drop_first());
                assert(b == seq![b[0]] + b.drop_first());
            }
        } else {
        }
    } else if a.len() == 0 && b.len() == 0 {
        assert(a == b);
    }
}

pub proof fn lemma_seq_lt_asymmetric(a: Seq<char>, b: Seq<char>)
    requires
        seq_lt(a, b),
    ensures
        !seq_lt(b, a),
{
    if seq_lt(b, a) {
        lemma_seq_lt_transitive(a, b, a);
        lemma_seq_lt_irreflexive(a);
    }
}

/// Appends one character to a string (std's `String::push`).
#[verifier::external_body]
pub fn push_char(s: &mut String, c: char)
    ensures
        final(s)@ == old(s)@.push(c),
{
    s.push(c)
}

/// The characters of a string, in order.
pub fn to_chars(s: &str) -> (v: Vec<char>)
    ensures
        v@ == s@,
{
    let n = s.unicode_len();
    let mut v: Vec<char> = Vec::new();
    let mut i: usize = 0;
    while i < n
        invariant
            n == s@.len(),
            i <= n,
            v@ == s@.subrange(0, i as int),
        decreases n - i,
    {
        let c = s.get_char(i);
        v.push(c);
        i = i + 1;
        assert(v@ == s@.subrange(0, i as int));
    }
    v
}

/// A string made of the characters `v[from..to]`.
pub fn chars_to_string(v: &[char], from: usize, to: usize) -> (s: String)
    requires
        from <= to <= v@.len(),
    ensures
        s@ == v@.subrange(from as int, to as int),
{
    let mut s = String::new();
    let mut i: usize = from;
    while i < to
        invariant
            from <= i <= to <= v@.len(),
            s@ == v@.subrange(from as int, i as int),
        decreases to - i,
    {
        push_char(&mut s, v[i]);
        i = i + 1;
        assert(s@ == v@.subrange(from as int, i as int));
    }
    s
}

/// A copy of a string.
pub fn copy_str(s: &str) -> (r: String)
    ensures
        r@ == s@,
{
    s.to_owned()
}

/// Appends `t` at the end of `s`.
pub fn append(s: &mut String, t: &str)
    ensures
        final(s)@ == old(s)@ + t@,
{
    s.append(t);
}

/// Equality of two strings.
pub fn str_eq(a: &str, b: &str) -> (r: bool)
    ensures
        r == (a@ == b@),
{
    let x = to_chars(a);
    let y = to_chars(b);
    if x.len() != y.len() {
        return false;
    }
    let mut i: usize = 0;
    while i < x.len()
        invariant
            x@ == a@,
            y@ == b@,
            x@.len() == y@.len(),
            i <= x@.len(),
            forall|j: int| 0 <= j < i ==> x@[j] == y@[j],
        decreases x.len() - i,
    {
        if x[i] != y[i] {
            return false;
        }
        i = i + 1;
    }
    assert(x@ =~= y@);
    true
}

/// Whether `p` is a prefix of `s` (std's `str::starts_with`).
pub fn starts_with(s: &str, p: &str) -> (r: bool)
    ensures
        r == is_prefix(p@, s@),
{
    let x = to_chars(s);
    let y = to_chars(p);
    if y.len() > x.len() {
        return false;
    }
    let mut i: usize = 0;
    while i < y.len()
        invariant
            x@ == s@,
            y@ == p@,
            y@.len() <= x@.len(),
            i <= y@.len(),
            forall|j: int| 0 <= j < i ==> x@[j] == y@[j],
        decreases y.len() - i,
    {
        if x[i] != y[i] {
            assert(s@.subrange(0, p@.len() as int)[i as int] != p@[i as int]);
            return false;
        }
        i = i + 1;
    }
    assert(s@.subrange(0, p@.len() as int) =~= p@);
    true
}

/// Whether `p` is a suffix of `s` (std's `str::ends_with`).
pub fn ends_with(s: &str, p: &str) -> (r: bool)
    ensures
        r == is_suffix(p@, s@),
{
    let x = to_chars(s);
    let y = to_chars(p);
    if y.len() > x.len() {
        return false;
    }
    let off = x.len() - y.len();
    let mut k: usize = off;
    while k < x.len()
        invariant
            x@ == s@,
            y@ == p@,
            off + y@.len() == x@.len(),
            off <= k <= x@.len(),
            forall|j: int| 0 <= j < k - off ==> x@[off + j] == y@[j],
        decreases x.len() - k,
    {
        if x[k] != y[k - off] {
            assert(s@.subrange(off as int, s@.len() as int)[k - off] != p@[k - off]);
            return false;
        }
        k = k + 1;
    }
    assert(s@.subrange(off as int, s@.len() as int) =~= p@);
    true
}

/// Lexicographic comparison of two strings: `a < b`.
pub fn str_lt(a: &str, b: &str) -> (r: bool)
    ensures
        r == seq_lt(a@, b@),
{
    let x = to_chars(a);
    let y = to_chars(b);
    let mut i: usize = 0;
    assert(a@.subrange(0, a@.len() as int) =~= a@);
    assert(b@.subrange(0, b@.len() as int) =~= b@);
    while i < x.len() && i < y.len()
        invariant
            x@ == a@,
            y@ == b@,
            i <= x@.len(),
            i <= y@.len(),
            seq_lt(a@, b@) == seq_lt(a@.subrange(i as int, a@.len() as int), b@.subrange(i as int, b@.len() as int)),
        decreases x.len() - i,
    {
        let c = x[i];
        let d = y[i];
        if c != d {
            let ghost sa = a@.subrange(i as int, a@.len() as int);
            let ghost sb = b@.subrange(i as int, b@.len() as int);
            assert(sa[0] == c && sb[0] == d);
            return c < d;
        }
        proof {
            let sa = a@.subrange(i as int, a@.len() as int);
            let sb = b@.subrange(i as int, b@.len() as int);
            assert(sa.drop_first() =~= a@.subrange(i + 1, a@.len() as int));
            assert(sb.drop_first() =~= b@.subrange(i + 1, b@.len() as int));
        }
        i = i + 1;
    }
    i < y.len()
}

/// Whether the character `c` occurs in `s`.
pub fn contains_char(s: &str, c: char) -> (r: bool)
    ensures
        r == s@.contains(c),
{
    let x = to_chars(s);
    let mut i: usize = 0;
    while i < x.len()
        invariant
            x@ == s@,
            i <= x@.len(),
            forall|j: int| 0 <= j < i ==> x@[j] != c,
        decreases x.len() - i,
    {
        if x[i] == c {
            assert(s@[i as int] == c);
            return true;
        }
        i = i + 1;
    }
    false
}

/// The character of an ASCII decimal digit.
pub open spec fn digit_char(d: nat) -> char {
    (48 + d) as char
}

/// Decimal rendering of a natural number, as `u64::to_string` writes it.
pub open spec fn decimal(n: nat) -> Seq<char>
    decreases n,
{
    if n < 10 {
        seq![digit_char(n)]
    } else {
        decimal(n / 10).push(digit_char(n % 10))
    }
}

/// Decimal rendering of a signed integer, with a leading `-` when negative.
pub open spec fn signed_decimal(n: int) -> Seq<char> {
    if n < 0 {
        seq!['-'] + decimal((-n) as nat)
    } else {
        decimal(n as nat)
    }
}

/// Appends the decimal rendering of `n` to `s`.
pub fn append_u64(s: &mut String, n: u64)
    ensures
        final(s)@ == old(s)@ + decimal(n as nat),
    decreases n,
{
    if n < 10 {
        let c = ((48 + n) as u8) as char;
        push_char(s, c);
        assert(seq![c] == decimal(n as nat));
    } else {
        append_u64(s, n / 10);
        let d = n % 10;
        let c = ((48 + d) as u8) as char;
        push_char(s, c);
        assert(decimal(n as nat) == decimal((n / 10) as nat).push(c));
    }
}

/// Appends the decimal rendering of a signed `n` to `s`.
pub fn append_i64(s: &mut String, n: i64)
    ensures
        final(s)@ == old(s)@ + signed_decimal(n as int),
{
    if n < 0 {
        push_char(s, '-');
        let m: u64 = if n == i64::MIN {
            9223372036854775808u64
        } else {
            (-n) as u64
        };
        append_u64(s, m);
        assert(old(s)@.push('-') + decimal(m as nat) == old(s)@ + (seq!['-'] + decimal(m as nat)));
    } else {
        append_u64(s, n as u64);
    }
}

/// Decimal rendering of `n` (std's `u64::to_string`).
pub fn u64_to_string(n: u64) -> (s: String)
    ensures
        s@ == decimal(n as nat),
{
    let mut s = String::new();
    append_u64(&mut s, n);
    assert(s@ =~= decimal(n as nat));
    s
}

/// Decimal rendering of a signed `n` (std's `i64::to_string`).
pub fn i64_to_string(n: i64) -> (s: String)
    ensures
        s@ == signed_decimal(n as int),
{
    let mut s = String::new();
    append_i64(&mut s, n);
    assert(s@ =~= signed_decimal(n as int));
    s
}

/// Whether `c` is an ASCII decimal digit.
pub open spec fn is_digit(c: char) -> bool {
    '0' <= c <= '9'
}

/// The value of a sequence of decimal digits.
pub open spec fn digits_value(s: Seq<char>) -> nat
    decreases s.len(),
{
    if s.len() == 0 {
        0
    } else {
        digits_value(s.drop_last()) * 10 + ((s.last() as int) - 48) as nat
    }
}

/// The digits of an unsigned number: `s` without one leading `+`.
pub open spec fn unsigned_digits(s: Seq<char>) -> Seq<char> {
    if s.len() > 0 && s[0] == '+' {
        s.drop_first()
    } else {
        s
    }
}

/// Every character of `d` is a decimal digit.
pub open spec fn all_digits(d: Seq<char>) -> bool {
    forall|i: int| 0 <= i < d.len() ==> is_digit(#[trigger] d[i])
}

/// The unsigned integer that `str::parse` reads from `s`: an optional `+`,
/// then at least one decimal digit, and nothing else.
pub open spec fn parse_unsigned(s: Seq<char>) -> Option<nat> {
    let d = unsigned_digits(s);
    if d.len() > 0 && all_digits(d) {
        Some(digits_value(d))
    } else {
        None
    }
}

/// What `str::parse::<u64>` gives: the value read, or `None` when `s` is not a
/// number or the value does not fit in 64 bits.
pub open spec fn parse_u64_spec(s: Seq<char>) -> Option<u64> {
    match parse_unsigned(s) {
        Some(v) => if v <= u64::MAX { Some(v as u64) } else { None },
        None => None,
    }
}

/// `str::parse::<u64>`.
pub fn parse_u64(s: &str) -> (r: Option<u64>)
    ensures
        r == parse_u64_spec(s@),
{
    let x = to_chars(s);
    let start: usize = if x.len() > 0 && x[0] == '+' { 1 } else { 0 };
    let ghost d = unsigned_digits(s@);
    assert(d =~= x@.subrange(start as int, x@.len() as int));
    if start == x.len() {
        return None;
    }
    let mut acc: u64 = 0;
    let mut i: usize = start;
    let mut overflow = false;
    while i < x.len()
        invariant
            x@ == s@,
            start <= i <= x@.len(),
            d == x@.subrange(start as int, x@.len() as int),
            d == unsigned_digits(s@),
            forall|j: int| start <= j < i ==> is_digit(#[trigger] x@[j]),
            !overflow ==> acc as nat == digits_value(x@.subrange(start as int, i as int)),
            overflow ==> digits_value(x@.subrange(start as int, i as int)) > u64::MAX,
        decreases x.len() - i,
    {
        let c = x[i];
        if !(c >= '0' && c <= '9') {
            assert(d[i - start] == c);
            assert(!is_digit(d[i - start]));
            assert(!all_digits(d));
            assert(parse_unsigned(s@).is_none());
            return None;
        }
        let dv: u64 = ((c as u32) - 48) as u64;
        let ghost prev = x@.subrange(start as int, i as int);
        let ghost next = x@.subrange(start as int, i + 1);
        assert(next.drop_last() =~= prev);
        assert(digits_value(next) == digits_value(prev) * 10 + dv);
        if !overflow {
            if acc > (u64::MAX - dv) / 10 {
                overflow = true;
                assert(digits_value(prev) * 10 + dv > u64::MAX) by (nonlinear_arith)
                    requires
                        digits_value(prev) > (u64::MAX - dv) / 10,
                        dv <= 9,
                ;
            } else {
                assert(acc * 10 + dv <= u64::MAX) by (nonlinear_arith)
                    requires
                        acc <= (u64::MAX - dv) / 10,
                        dv <= 9,
                ;
                acc = acc * 10 + dv;
            }
        } else {
            assert(digits_value(prev) * 10 + dv > u64::MAX) by (nonlinear_arith)
                requires
                    digits_value(prev) > u64::MAX,
            ;
        }
        i = i + 1;
    }
    assert(x@.subrange(start as int, x@.len() as int) == d);
    assert forall|j: int| 0 <= j < d.len() implies is_digit(#[trigger] d[j]) by {
        assert(d[j] == x@[start + j]);
    }
    if overflow {
        None
    } else {
        Some(acc)
    }
}

/// ASCII lower-casing of one character.
pub open spec fn ascii_lower(c: char) -> char {
    if 'A' <= c <= 'Z' {
        ((c as u32) + 32) as char
    } else {
        c
    }
}

/// ASCII upper-casing of one character.
pub open spec fn ascii_upper(c: char) -> char {
    if 'a' <= c <= 'z' {
        ((c as u32) - 32) as char
    } else {
        c
    }
}

/// `a` and `b` are equal when ASCII letters are compared without case.
pub open spec fn eq_ignore_case(a: Seq<char>, b: Seq<char>) -> bool {
    a.len() == b.len() && forall|i: int| 0 <= i < a.len() ==> ascii_lower(#[trigger] a[i]) == ascii_lower(b[i])
}

/// ASCII lower-casing of a character sequence.
pub open spec fn lower_seq(s: Seq<char>) -> Seq<char> {
    s.map_values(|c: char| ascii_lower(c))
}

/// ASCII lower-casing of one character.
pub fn lower_char(c: char) -> (r: char)
    ensures
        r == ascii_lower(c),
{
    if c >= 'A' && c <= 'Z' {
        (((c as u32) + 32) as u8) as char
    } else {
        c
    }
}

/// ASCII upper-casing of one character.
pub fn upper_char(c: char) -> (r: char)
    ensures
        r == ascii_upper(c),
{
    if c >= 'a' && c <= 'z' {
        (((c as u32) - 32) as u8) as char
    } else {
        c
    }
}

/// std's `str::eq_ignore_ascii_case`.
pub fn eq_ignore_ascii_case(a: &str, b: &str) -> (r: bool)
    ensures
        r == eq_ignore_case(a@, b@),
{
    let x = to_chars(a);
    let y = to_chars(b);
    if x.len() != y.len() {
        return false;
    }
    let mut i: usize = 0;
    while i < x.len()
        invariant
            x@ == a@,
            y@ == b@,
            x@.len() == y@.len(),
            i <= x@.len(),
            forall|j: int| 0 <= j < i ==> ascii_lower(#[trigger] x@[j]) == ascii_lower(y@[j]),
        decreases x.len() - i,
    {
        if lower_char(x[i]) != lower_char(y[i]) {
            return false;
        }
        i = i + 1;
    }
    true
}

/// std's `str::to_ascii_lowercase`.
pub fn to_ascii_lowercase(s: &str) -> (r: String)
    ensures
        r@ == lower_seq(s@),
{
    let x = to_chars(s);
    let mut r = String::new();
    let mut i: usize = 0;
    while i < x.len()
        invariant
            x@ == s@,
            i <= x@.len(),
            r@ == lower_seq(s@.subrange(0, i as int)),
        decreases x.len() - i,
    {
        push_char(&mut r, lower_char(x[i]));
        i = i + 1;
        assert(lower_seq(s@.subrange(0, i as int)) =~= lower_seq(s@.subrange(0, i - 1)).push(ascii_lower(x@[i - 1])));
    }
    assert(s@.subrange(0, x@.len() as int) =~= s@);
    r
}

/// The position of the first occurrence of `c` in `s`.
pub open spec fn first_index(s: Seq<char>, c: char) -> Option<int> {
    if s.contains(c) {
        Some(choose|i: int| 0 <= i < s.len() && s[i] == c && forall|j: int| 0 <= j < i ==> s[j] != c)
    } else {
        None
    }
}

/// The position of the first occurrence of `c` in `v[from..]`.
pub fn find_char(v: &Vec<char>, from: usize, c: char) -> (r: Option<usize>)
    requires
        from <= v@.len(),
    ensures
        match r {
            Some(i) => from <= i < v@.len() && v@[i as int] == c && forall|j: int| from <= j < i ==> v@[j] != c,
            None => forall|j: int| from <= j < v@.len() ==> v@[j] != c,
        },
{
    let mut i = from;
    while i < v.len()
        invariant
            from <= i <= v@.len(),
            forall|j: int| from <= j < i ==> v@[j] != c,
        decreases v.len() - i,
    {
        if v[i] == c {
            return Some(i);
        }
        i = i + 1;
    }
    None
}

/// The number of occurrences of `c` in `s`.
pub open spec fn count_char(s: Seq<char>, c: char) -> nat
    decreases s.len(),
{
    if s.len() == 0 {
        0
    } else {
        count_char(s.drop_last(), c) + if s.last() == c { 1nat } else { 0nat }
    }
}

/// The views of a sequence of strings.
pub open spec fn views(v: Seq<String>) -> Seq<Seq<char>> {
    v.map_values(|s: String| s@)
}

/// The pieces of `s` between occurrences of `c`, as std's `str::split` yields them.
pub open spec fn split_on(s: Seq<char>, c: char) -> Seq<Seq<char>>
    decreases s.len(),
{
    if s.len() == 0 {
        seq![Seq::<char>::empty()]
    } else {
        let prev = split_on(s.drop_last(), c);
        if s.last() == c {
            prev.push(Seq::<char>::empty())
        } else {
            prev.update(prev.len() - 1, prev.last().push(s.last()))
        }
    }
}

pub proof fn lemma_split_on_nonempty(s: Seq<char>, c: char)
    ensures
        split_on(s, c).len() >= 1,
    decreases s.len(),
{
    if s.len() > 0 {
        lemma_split_on_nonempty(s.drop_last(), c);
    }
}

/// Splitting a text free of `c` gives that text alone.
pub proof fn lemma_split_on_no_separator(s: Seq<char>, c: char)
    requires
        forall|i: int| 0 <= i < s.len() ==> s[i] != c,
    ensures
        split_on(s, c) == seq![s],
    decreases s.len(),
{
    if s.len() == 0 {
        assert(s =~= Seq::<char>::empty());
        assert(split_on(s, c) =~= seq![s]);
    } else {
        lemma_split_on_no_separator(s.drop_last(), c);
        assert(s.drop_last().push(s.last()) =~= s);
        assert(split_on(s, c) =~= seq![s]);
    }
}

/// Splitting `x`, `c`, `y`, where neither text holds `c`, gives `x` and `y`.
pub proof fn lemma_split_on_one_separator(x: Seq<char>, y: Seq<char>, c: char)
    requires
        forall|i: int| 0 <= i < x.len() ==> x[i] != c,
        forall|i: int| 0 <= i < y.len() ==> y[i] != c,
    ensures
        split_on(x + seq![c] + y, c) == seq![x, y],
    decreases y.len(),
{
    let t = x + seq![c] + y;
    if y.len() == 0 {
        lemma_split_on_no_separator(x, c);
        assert(t =~= x.push(c));
        assert(t.drop_last() =~= x);
        assert(t.last() == c);
        assert(y =~= Seq::<char>::empty());
        assert(split_on(t, c) == seq![x].push(Seq::<char>::empty()));
        assert(split_on(t, c) =~= seq![x, y]);
    } else {
        lemma_split_on_one_separator(x, y.drop_last(), c);
        assert(t.drop_last() =~= x + seq![c] + y.drop_last());
        assert(t.last() == y.last());
        assert(y.drop_last().push(y.last()) =~= y);
        assert(split_on(t, c) =~= seq![x, y]);
    }
}

/// A text that reads as an unsigned number holds no `-`.
pub proof fn lemma_parsed_has_no_dash(s: Seq<char>)
    requires
        parse_unsigned(s) is Some,
    ensures
        forall|i: int| 0 <= i < s.len() ==> s[i] != '-',
{
    assert forall|i: int| 0 <= i < s.len() implies s[i] != '-' by {
        let d = unsigned_digits(s);
        if s.len() > 0 && s[0] == '+' {
            if i > 0 {
                assert(d[i - 1] == s[i]);
                assert(is_digit(d[i - 1]));
            }
        } else {
            assert(is_digit(d[i]));
        }
    }
}

/// Splitting `c` followed by a text free of `c` gives an empty piece, then that text.
pub proof fn lemma_split_on_leading_separator(s: Seq<char>, c: char)
    requires
        forall|i: int| 0 <= i < s.len() ==> s[i] != c,
    ensures
        split_on(seq![c] + s, c) == seq![Seq::<char>::empty(), s],
    decreases s.len(),
{
    let t = seq![c] + s;
    if s.len() == 0 {
        assert(t =~= seq![c]);
        assert(t.drop_last() =~= Seq::<char>::empty());
        assert(split_on(Seq::<char>::empty(), c) == seq![Seq::<char>::empty()]);
        assert(t.last() == c);
        assert(split_on(t, c) == seq![Seq::<char>::empty()].push(Seq::<char>::empty()));
        assert(s =~= Seq::<char>::empty());
        assert(split_on(t, c) =~= seq![Seq::<char>::empty(), s]);
    } else {
        lemma_split_on_leading_separator(s.drop_last(), c);
        assert(t.drop_last() =~= seq![c] + s.drop_last());
        assert(t.last() == s.last());
        assert(s.drop_last().push(s.last()) =~= s);
        assert(split_on(t, c) =~= seq![Seq::<char>::empty(), s]);
    }
}

/// std's `str::split` on one character, collected.
pub fn split_char(s: &str, c: char) -> (parts: Vec<String>)
    ensures
        views(parts@) == split_on(s@, c),
{
    let x = to_chars(s);
    let mut done: Vec<String> = Vec::new();
    let mut cur = String::new();
    let mut i: usize = 0;
    assert(s@.subrange(0, 0) =~= Seq::<char>::empty());
    assert(views(done@).push(cur@) =~= split_on(s@.subrange(0, 0), c));
    while i < x.len()
        invariant
            x@ == s@,
            i <= x@.len(),
            views(done@).push(cur@) == split_on(s@.subrange(0, i as int), c),
        decreases x.len() - i,
    {
        let ghost pre = s@.subrange(0, i as int);
        let ghost post = s@.subrange(0, i + 1);
        assert(post.drop_last() =~= pre);
        proof { lemma_split_on_nonempty(pre, c); }
        if x[i] == c {
            let ghost old_done = done@;
            let ghost old_cur = cur@;
            done.push(cur);
            cur = String::new();
            assert(views(done@) =~= views(old_done).push(old_cur));
            assert(views(done@).push(cur@) =~= split_on(post, c));
        } else {
            let ghost old_cur = cur@;
            push_char(&mut cur, x[i]);
            assert(views(done@).push(cur@) =~= views(done@).push(old_cur).update(
                views(done@).len() as int,
                old_cur.push(x@[i as int]),
            ));
        }
        i = i + 1;
    }
    assert(s@.subrange(0, x@.len() as int) =~= s@);
    let ghost old_done = done@;
    done.push(cur);
    assert(views(done@) =~= views(old_done).push(cur@));
    done
}

/// The XML entity that `quick_xml::escape::escape` writes for one character.
pub open spec fn xml_escape_char(c: char) -> Seq<char> {
    if c == '<' {
        seq!['&', 'l', 't', ';']
    } else if c == '>' {
        seq!['&', 'g', 't', ';']
    } else if c == '&' {
        seq!['&', 'a', 'm', 'p', ';']
    } else if c == '\'' {
        seq!['&', 'a', 'p', 'o', 's', ';']
    } else if c == '"' {
        seq!['&', 'q', 'u', 'o', 't', ';']
    } else {
        seq![c]
    }
}

/// `s` with the five XML special characters replaced by their entities.
pub open spec fn xml_escaped(s: Seq<char>) -> Seq<char>
    decreases s.len(),
{
    if s.len() == 0 {
        Seq::empty()
    } else {
        xml_escaped(s.drop_last()) + xml_escape_char(s.last())
    }
}

/// `quick_xml::escape::escape`: replaces `<`, `>`, `&`, `'` and `"` by `&lt;`,
/// `&gt;`, `&amp;`, `&apos;` and `&quot;`, and leaves every other character.
#[verifier::external_body]
pub fn xml_escape(raw: &str) -> (r: String)
    ensures
        r@ == xml_escaped(raw@),
{
    quick_xml::escape::escape(raw).into_owned()
}

/// Appends `t`, XML-escaped, to `s`.
pub fn append_escaped(s: &mut String, t: &str)
    ensures
        final(s)@ == old(s)@ + xml_escaped(t@),
{
    let e = xml_escape(t);
    s.append(e.as_str());
}

/// The position of the first occurrence of `d` in `s` (std's `str::find`).
pub open spec fn find_sub(s: Seq<char>, d: Seq<char>) -> Option<nat>
    decreases s.len(),
{
    if is_prefix(d, s) {
        Some(0)
    } else if s.len() == 0 {
        None
    } else {
        match find_sub(s.drop_first(), d) {
            Some(j) => Some(j + 1),
            None => None,
        }
    }
}

/// An occurrence found by `find_sub` lies inside the sequence.
pub proof fn lemma_find_sub_bound(s: Seq<char>, d: Seq<char>)
    ensures
        find_sub(s, d) matches Some(j) ==> j + d.len() <= s.len(),
    decreases s.len(),
{
    if !is_prefix(d, s) && s.len() > 0 {
        lemma_find_sub_bound(s.drop_first(), d);
    }
}

/// An occurrence that `find_sub` reports is one: `d` stands in `s` at that position.
pub proof fn lemma_find_sub_found(s: Seq<char>, d: Seq<char>)
    ensures
        find_sub(s, d) matches Some(j) ==> j + d.len() <= s.len() && s.subrange(j as int, (j + d.len()) as int) == d,
        find_sub(s, d) matches Some(j) ==> forall|q: int| 0 <= q < j ==> !is_prefix(d, #[trigger] s.subrange(q, s.len() as int)),
        find_sub(s, d) is None ==> forall|q: int| 0 <= q <= s.len() ==> !is_prefix(d, #[trigger] s.subrange(q, s.len() as int)),
    decreases s.len(),
{
    assert(s.subrange(0, s.len() as int) =~= s);
    if !is_prefix(d, s) && s.len() > 0 {
        lemma_find_sub_found(s.drop_first(), d);
        if find_sub(s.drop_first(), d) is None {
            assert forall|q: int| 0 <= q <= s.len() implies !is_prefix(d, #[trigger] s.subrange(q, s.len() as int)) by {
                if q > 0 {
                    assert(s.subrange(q, s.len() as int) =~= s.drop_first().subrange(q - 1, s.drop_first().len() as int));
                }
            }
        }
        if let Some(j) = find_sub(s.drop_first(), d) {
            assert(s.subrange((j + 1) as int, (j + 1 + d.len()) as int) =~= s.drop_first().subrange(j as int, (j + d.len()) as int));
            assert forall|q: int| 0 <= q < j + 1 implies !is_prefix(d, #[trigger] s.subrange(q, s.len() as int)) by {
                if q == 0 {
                    assert(s.subrange(0, s.len() as int) =~= s);
                } else {
                    assert(s.subrange(q, s.len() as int) =~= s.drop_first().subrange(q - 1, s.drop_first().len() as int));
                }
            }
        }
    }
}

/// Whether `d` occurs in `v` at position `i`.
pub fn occurs_at(v: &Vec<char>, i: usize, d: &Vec<char>) -> (r: bool)
    requires
        i <= v@.len(),
    ensures
        r == is_prefix(d@, v@.subrange(i as int, v@.len() as int)),
{
    let n = v.len();
    if d.len() > n - i {
        return false;
    }
    let mut j: usize = 0;
    while j < d.len()
        invariant
            n == v@.len(),
            i + d@.len() <= v@.len(),
            j <= d@.len(),
            forall|m: int| 0 <= m < j ==> v@[i + m] == d@[m],
        decreases d.len() - j,
    {
        if v[i + j] != d[j] {
            assert(v@.subrange(i as int, v@.len() as int).subrange(0, d@.len() as int)[j as int] != d@[j as int]);
            return false;
        }
        j = j + 1;
    }
    assert(v@.subrange(i as int, v@.len() as int).subrange(0, d@.len() as int) =~= d@);
    true
}

/// The first occurrence of `d` in `v[from..]`, counted from `from`.
pub fn find_sub_exec(v: &Vec<char>, from: usize, d: &Vec<char>) -> (r: Option<usize>)
    requires
        from <= v@.len(),
    ensures
        match find_sub(v@.subrange(from as int, v@.len() as int), d@) {
            Some(j) => r == Some(j as usize),
            None => r.is_none(),
        },
{
    let mut i = from;
    while i <= v.len()
        invariant
            from <= i <= v@.len(),
            find_sub(v@.subrange(from as int, v@.len() as int), d@) == match find_sub(v@.subrange(i as int, v@.len() as int), d@) {
                Some(j) => Some((j + (i - from)) as nat),
                None => None::<nat>,
            },
        decreases v@.len() + 1 - i,
    {
        let ghost sub = v@.subrange(i as int, v@.len() as int);
        if occurs_at(v, i, d) {
            return Some(i - from);
        }
        if i == v.len() {
            return None;
        }
        assert(sub.drop_first() =~= v@.subrange(i + 1, v@.len() as int));
        i = i + 1;
    }
    None
}

/// Whether `c` has the Unicode `White_Space` property (std's `char::is_whitespace`).
pub open spec fn is_ws(c: char) -> bool {
    ||| '\t' <= c <= '\r'
    ||| c == ' '
    ||| c == '\u{85}'
    ||| c == '\u{a0}'
    ||| c == '\u{1680}'
    ||| '\u{2000}' <= c <= '\u{200a}'
    ||| c == '\u{2028}'
    ||| c == '\u{2029}'
    ||| c == '\u{202f}'
    ||| c == '\u{205f}'
    ||| c == '\u{3000}'
}

/// Whether `c` is a white-space character.
pub fn char_is_ws(c: char) -> (r: bool)
    ensures
        r == is_ws(c),
{
    ('\t' <= c && c <= '\r') || c == ' ' || c == '\u{85}' || c == '\u{a0}' || c == '\u{1680}'
        || ('\u{2000}' <= c && c <= '\u{200a}') || c == '\u{2028}' || c == '\u{2029}' || c == '\u{202f}'
        || c == '\u{205f}' || c == '\u{3000}'
}

/// What a trim removes: white space, or the angle brackets `<` and `>`.
pub open spec fn trimmed_char(c: char, brackets: bool) -> bool {
    if brackets { c == '<' || c == '>' } else { is_ws(c) }
}

/// `s` without its leading characters of the trimmed kind.
pub open spec fn trim_start_of(s: Seq<char>, brackets: bool) -> Seq<char>
    decreases s.len(),
{
    if s.len() > 0 && trimmed_char(s[0], brackets) {
        trim_start_of(s.drop_first(), brackets)
    } else {
        s
    }
}

/// `s` without its trailing characters of the trimmed kind.
pub open spec fn trim_end_of(s: Seq<char>, brackets: bool) -> Seq<char>
    decreases s.len(),
{
    if s.len() > 0 && trimmed_char(s.last(), brackets) {
        trim_end_of(s.drop_last(), brackets)
    } else {
        s
    }
}

/// `s` without leading and trailing white space (std's `str::trim`).
pub open spec fn trim_ws(s: Seq<char>) -> Seq<char> {
    trim_end_of(trim_start_of(s, false), false)
}

/// `s` without leading and trailing `<` and `>` (`str::trim_matches` with those two).
pub open spec fn trim_angles(s: Seq<char>) -> Seq<char> {
    trim_end_of(trim_start_of(s, true), true)
}

/// Whether `c` is of the trimmed kind.
fn is_trimmed_char(c: char, brackets: bool) -> (r: bool)
    ensures
        r == trimmed_char(c, brackets),
{
    if brackets { c == '<' || c == '>' } else { char_is_ws(c) }
}

/// Trimming from the start at `i` gives what trimming from 0 gives, when
/// everything before `i` is of the trimmed kind.
proof fn lemma_trim_start_skip(s: Seq<char>, brackets: bool, i: int)
    requires
        0 <= i <= s.len(),
        forall|j: int| 0 <= j < i ==> trimmed_char(#[trigger] s[j], brackets),
    ensures
        trim_start_of(s, brackets) == trim_start_of(s.subrange(i, s.len() as int), brackets),
    decreases i,
{
    if i == 0 {
        assert(s.subrange(0, s.len() as int) =~= s);
    } else {
        assert(s.drop_first().subrange(i - 1, s.drop_first().len() as int) =~= s.subrange(i, s.len() as int));
        lemma_trim_start_skip(s.drop_first(), brackets, i - 1);
    }
}

/// Trimming from the end at `k` gives what trimming the whole gives, when
/// everything from `k` on is of the trimmed kind.
proof fn lemma_trim_end_skip(s: Seq<char>, brackets: bool, k: int)
    requires
        0 <= k <= s.len(),
        forall|j: int| k <= j < s.len() ==> trimmed_char(#[trigger] s[j], brackets),
    ensures
        trim_end_of(s, brackets) == trim_end_of(s.subrange(0, k), brackets),
    decreases s.len() - k,
{
    if k == s.len() {
        assert(s.subrange(0, k) =~= s);
    } else {
        assert(s.drop_last().subrange(0, k) =~= s.subrange(0, k));
        lemma_trim_end_skip(s.drop_last(), brackets, k);
    }
}

/// `s` without leading and trailing characters of the trimmed kind.
fn trim_kind(s: &str, brackets: bool) -> (r: String)
    ensures
        r@ == trim_end_of(trim_start_of(s@, brackets), brackets),
{
    let v = to_chars(s);
    let n = v.len();
    let mut i: usize = 0;
    while i < n && is_trimmed_char(v[i], brackets)
        invariant
            n == v@.len(),
            v@ == s@,
            i <= n,
            forall|j: int| 0 <= j < i ==> trimmed_char(#[trigger] v@[j], brackets),
        decreases n - i,
    {
        i = i + 1;
    }
    proof { lemma_trim_start_skip(v@, brackets, i as int); }
    let ghost rest = v@.subrange(i as int, n as int);
    assert(i == n || !trimmed_char(rest[0], brackets));
    assert(trim_start_of(rest, brackets) == rest);
    let mut k: usize = n;
    while k > i && is_trimmed_char(v[k - 1], brackets)
        invariant
            n == v@.len(),
            i <= k <= n,
            forall|j: int| k <= j < n ==> trimmed_char(#[trigger] v@[j], brackets),
        decreases k,
    {
        k = k - 1;
    }
    proof {
        assert forall|j: int| k - i <= j < rest.len() implies trimmed_char(#[trigger] rest[j], brackets) by {
            assert(rest[j] == v@[i + j]);
        }
        lemma_trim_end_skip(rest, brackets, k - i);
        let core = rest.subrange(0, k - i);
        assert(core =~= v@.subrange(i as int, k as int));
        assert(core.len() == 0 || !trimmed_char(core.last(), brackets));
        assert(trim_end_of(core, brackets) == core);
    }
    chars_to_string(v.as_slice(), i, k)
}

/// `s` without leading and trailing white space (std's `str::trim`).
pub fn trim(s: &str) -> (r: String)
    ensures
        r@ == trim_ws(s@),
{
    trim_kind(s, false)
}

/// `s` without leading and trailing `<` and `>`.
pub fn trim_angle_brackets(s: &str) -> (r: String)
    ensures
        r@ == trim_angles(s@),
{
    trim_kind(s, true)
}

/// The rest of `s` after the prefix `p`, if `s` starts with it (std's `str::strip_prefix`).
pub fn strip_prefix(s: &str, p: &str) -> (r: Option<String>)
    ensures
        match r {
            Some(t) => is_prefix(p@, s@) && t@ == s@.subrange(p@.len() as int, s@.len() as int),
            None => !is_prefix(p@, s@),
        },
{
    if starts_with(s, p) {
        let v = to_chars(s);
        let q = to_chars(p);
        Some(chars_to_string(v.as_slice(), q.len(), v.len()))
    } else {
        None
    }
}

/// Whether `d` occurs anywhere in `s` (std's `str::contains` with a string).
pub fn contains_str(s: &str, d: &str) -> (r: bool)
    ensures
        r == find_sub(s@, d@).is_some(),
{
    let v = to_chars(s);
    let w = to_chars(d);
    assert(v@.subrange(0, v@.len() as int) =~= v@);
    find_sub_exec(&v, 0, &w).is_some()
}

/// The decimal rendering of `n` is a non-empty run of digits worth `n`.
pub proof fn lemma_decimal_value(n: nat)
    ensures
        decimal(n).len() >= 1,
        all_digits(decimal(n)),
        digits_value(decimal(n)) == n,
    decreases n,
{
    if n >= 10 {
        lemma_decimal_value(n / 10);
        let d = decimal(n / 10);
        assert(decimal(n) == d.push(digit_char(n % 10)));
        assert(decimal(n).drop_last() =~= d);
        assert forall|i: int| 0 <= i < decimal(n).len() implies is_digit(#[trigger] decimal(n)[i]) by {
            if i < d.len() {
                assert(decimal(n)[i] == d[i]);
            }
        }
        assert(decimal(n).last() == digit_char((n % 10) as nat));
        assert(digits_value(decimal(n)) == digits_value(decimal(n).drop_last()) * 10 + ((decimal(n).last() as int) - 48) as nat);
        assert(digits_value(decimal(n)) == digits_value(d) * 10 + (n % 10));
        assert((n / 10) * 10 + n % 10 == n) by (nonlinear_arith);
        assert(digit_char((n % 10) as nat) as int == 48 + n % 10);
    } else {
        assert(decimal(n).drop_last() =~= Seq::<char>::empty());
        assert(digit_char(n) as int == 48 + n);
        assert(decimal(n).last() == digit_char(n));
        assert(digits_value(Seq::<char>::empty()) == 0);
        assert(digits_value(decimal(n)) == digits_value(decimal(n).drop_last()) * 10 + ((decimal(n).last() as int) - 48) as nat);
    }
}

/// Different numbers have different decimal renderings.
pub proof fn lemma_decimal_injective(a: nat, b: nat)
    requires
        decimal(a) == decimal(b),
    ensures
        a == b,
{
    lemma_decimal_value(a);
    lemma_decimal_value(b);
}

/// The position of the last occurrence of `c` in `s` (std's `str::rfind`).
pub open spec fn last_index_of(s: Seq<char>, c: char) -> Option<int>
    decreases s.len(),
{
    if s.len() == 0 {
        None
    } else if s.last() == c {
        Some(s.len() - 1)
    } else {
        last_index_of(s.drop_last(), c)
    }
}

/// The position of the last `c` in `v`.
pub fn rfind_char(v: &Vec<char>, c: char) -> (r: Option<usize>)
    ensures
        match last_index_of(v@, c) {
            Some(p) => r == Some(p as usize) && 0 <= p < v@.len(),
            None => r is None,
        },
{
    let mut k: usize = v.len();
    assert(v@.subrange(0, v@.len() as int) =~= v@);
    while k > 0
        invariant
            k <= v@.len(),
            last_index_of(v@, c) == last_index_of(v@.subrange(0, k as int), c),
        decreases k,
    {
        let ghost pre = v@.subrange(0, k as int);
        assert(pre.drop_last() =~= v@.subrange(0, k - 1));
        if v[k - 1] == c {
            proof { lemma_last_index_bound(v@.subrange(0, k as int), c); }
            return Some(k - 1);
        }
        k = k - 1;
    }
    None
}

/// The last occurrence lies inside the sequence.
pub proof fn lemma_last_index_bound(s: Seq<char>, c: char)
    ensures
        last_index_of(s, c) matches Some(p) ==> 0 <= p < s.len() && s[p] == c,
    decreases s.len(),
{
    if s.len() > 0 && s.last() != c {
        lemma_last_index_bound(s.drop_last(), c);
    }
}

/// What `str::parse::<i64>` gives: an optional sign, at least one digit and
/// nothing else, in the range of `i64`.
pub open spec fn parse_i64_spec(s: Seq<char>) -> Option<i64> {
    if s.len() > 0 && s[0] == '-' {
        let d = s.drop_first();
        if d.len() > 0 && all_digits(d) && digits_value(d) <= 9223372036854775808 {
            Some((0 - digits_value(d)) as i64)
        } else {
            None
        }
    } else {
        match parse_unsigned(s) {
            Some(v) => if v <= i64::MAX { Some(v as i64) } else { None },
            None => None,
        }
    }
}

/// `str::parse::<i64>`.
pub fn parse_i64(s: &str) -> (r: Option<i64>)
    ensures
        r == parse_i64_spec(s@),
{
    let v = to_chars(s);
    if v.len() > 0 && v[0] == '-' {
        let rest = chars_to_string(v.as_slice(), 1, v.len());
        assert(rest@ =~= s@.drop_first());
        if v.len() > 1 && v[1] == '+' {
            assert(!is_digit(rest@[0]));
            return None;
        }
        match parse_u64(rest.as_str()) {
            Some(u) => {
                assert(unsigned_digits(rest@) == rest@);
                if u <= 9223372036854775808u64 {
                    let w: i128 = 0i128 - (u as i128);
                    Some(w as i64)
                } else {
                    None
                }
            },
            None => {
                assert(v.len() == 1 || unsigned_digits(rest@) == rest@);
                None
            },
        }
    } else {
        match parse_u64(s) {
            Some(u) => if u <= 9223372036854775807u64 { Some(u as i64) } else { None },
            None => None,
        }
    }
}

/// `s` without its leading `c`s (std's `str::trim_start_matches` with a character).
pub open spec fn trim_start_char(s: Seq<char>, c: char) -> Seq<char>
    decreases s.len(),
{
    if s.len() > 0 && s[0] == c { trim_start_char(s.drop_first(), c) } else { s }
}

/// `s` without its trailing `c`s (std's `str::trim_end_matches` with a character).
pub open spec fn trim_end_char(s: Seq<char>, c: char) -> Seq<char>
    decreases s.len(),
{
    if s.len() > 0 && s.last() == c { trim_end_char(s.drop_last(), c) } else { s }
}

/// `s` without its leading `c`s.
pub fn trim_start_matches_char(s: &str, c: char) -> (r: String)
    ensures
        r@ == trim_start_char(s@, c),
{
    let v = to_chars(s);
    let mut i: usize = 0;
    assert(v@.subrange(0, v@.len() as int) =~= v@);
    while i < v.len() && v[i] == c
        invariant
            v@ == s@,
            i <= v@.len(),
            trim_start_char(s@, c) == trim_start_char(v@.subrange(i as int, v@.len() as int), c),
        decreases v@.len() - i,
    {
        assert(v@.subrange(i as int, v@.len() as int).drop_first() =~= v@.subrange(i + 1, v@.len() as int));
        i = i + 1;
    }
    chars_to_string(v.as_slice(), i, v.len())
}

/// `s` without its trailing `c`s.
pub fn trim_end_matches_char(s: &str, c: char) -> (r: String)
    ensures
        r@ == trim_end_char(s@, c),
{
    let v = to_chars(s);
    let mut k: usize = v.len();
    assert(v@.subrange(0, v@.len() as int) =~= v@);
    while k > 0 && v[k - 1] == c
        invariant
            v@ == s@,
            k <= v@.len(),
            trim_end_char(s@, c) == trim_end_char(v@.subrange(0, k as int), c),
        decreases k,
    {
        assert(v@.subrange(0, k as int).drop_last() =~= v@.subrange(0, k - 1));
        k = k - 1;
    }
    chars_to_string(v.as_slice(), 0, k)
}

/// Two strictly ascending sequences with the same elements are equal.
pub proof fn lemma_sorted_unique(a: Seq<Seq<char>>, b: Seq<Seq<char>>)
    requires
        forall|i: int, j: int| 0 <= i < j < a.len() ==> seq_lt(#[trigger] a[i], #[trigger] a[j]),
        forall|i: int, j: int| 0 <= i < j < b.len() ==> seq_lt(#[trigger] b[i], #[trigger] b[j]),
        forall|x: Seq<char>| a.contains(x) <==> b.contains(x),
    ensures
        a == b,
    decreases a.len(),
{
    if a.len() == 0 {
        if b.len() > 0 {
            assert(b.contains(b[0]));
        }
        assert(a =~= b);
    } else {
        assert(a.contains(a[0]));
        assert(b.contains(a[0]));
        let j = choose|j: int| 0 <= j < b.len() && b[j] == a[0];
        assert(b.contains(b[0]));
        let k = choose|k: int| 0 <= k < a.len() && a[k] == b[0];
        if j > 0 {
            assert(seq_lt(b[0], b[j]));
            if k > 0 {
                assert(seq_lt(a[0], a[k]));
                lemma_seq_lt_asymmetric(a[0], a[k]);
            } else {
                lemma_seq_lt_irreflexive(a[0]);
            }
        }
        let a1 = a.drop_first();
        let b1 = b.drop_first();
        assert forall|x: Seq<char>| a1.contains(x) <==> b1.contains(x) by {
            if a1.contains(x) {
                let i = choose|i: int| 0 <= i < a1.len() && a1[i] == x;
                assert(a[i + 1] == x);
                assert(seq_lt(a[0], a[i + 1]));
                lemma_seq_lt_irreflexive(x);
                assert(b.contains(x));
                let m = choose|m: int| 0 <= m < b.len() && b[m] == x;
                assert(m != 0);
                assert(b1[m - 1] == x);
            }
            if b1.contains(x) {
                let i = choose|i: int| 0 <= i < b1.len() && b1[i] == x;
                assert(b[i + 1] == x);
                assert(seq_lt(b[0], b[i + 1]));
                lemma_seq_lt_irreflexive(x);
                assert(a.contains(x));
                let m = choose|m: int| 0 <= m < a.len() && a[m] == x;
                assert(m != 0);
                assert(a1[m - 1] == x);
            }
        }
        assert forall|i: int, j2: int| 0 <= i < j2 < a1.len() implies seq_lt(#[trigger] a1[i], #[trigger] a1[j2]) by {
            assert(a1[i] == a[i + 1] && a1[j2] == a[j2 + 1]);
        }
        assert forall|i: int, j2: int| 0 <= i < j2 < b1.len() implies seq_lt(#[trigger] b1[i], #[trigger] b1[j2]) by {
            assert(b1[i] == b[i + 1] && b1[j2] == b[j2 + 1]);
        }
        lemma_sorted_unique(a1, b1);
        assert(a =~= seq![a[0]] + a1);
        assert(b =~= seq![b[0]] + b1);
    }
}


/// What `str::parse::<u32>` gives: the value read, or `None` when `s` is not a
/// number or the value does not fit in 32 bits.
pub open spec fn parse_u32_spec(s: Seq<char>) -> Option<u32> {
    match parse_unsigned(s) {
        Some(v) => if v <= u32::MAX { Some(v as u32) } else { None },
        None => None,
    }
}

/// `str::parse::<u32>`.
pub fn parse_u32(s: &str) -> (r: Option<u32>)
    ensures
        r == parse_u32_spec(s@),
{
    match parse_u64(s) {
        Some(v) => if v <= 4294967295u64 { Some(v as u32) } else { None },
        None => None,
    }
}


/// The part of `s` after its last `c`, or all of `s` when there is none.
pub open spec fn after_last(s: Seq<char>, c: char) -> Seq<char> {
    match last_index_of(s, c) {
        Some(p) => s.subrange(p + 1, s.len() as int),
        None => s,
    }
}

/// The part of `s` after its last `c` (std's `rsplit` / `rfind` idiom).
pub fn after_last_char(s: &str, c: char) -> (r: String)
    ensures
        r@ == after_last(s@, c),
{
    let v = to_chars(s);
    proof {
        lemma_last_index_bound(v@, c);
    }
    match rfind_char(&v, c) {
        Some(p) => {
            assert(p < v.len());
            chars_to_string(v.as_slice(), p + 1, v.len())
        },
        None => copy_str(s),
    }
}

} // verus!
