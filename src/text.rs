use vstd::prelude::*;
use vstd::std_specs::iter::IteratorSpec;

verus! {

/// Whether `c` has the Unicode `White_Space` property: tab, LF, vertical
/// tab, form feed, CR, space, next line, no-break space, ogham space mark,
/// the spaces from en quad to hair space, line and paragraph separators,
/// narrow no-break space, medium mathematical space and ideographic space.
pub open spec fn white_space(c: char) -> bool {
    let n = c as nat;
    (0x09 <= n <= 0x0d) || n == 0x20 || n == 0x85 || n == 0xa0 || n == 0x1680 || (0x2000 <= n
        <= 0x200a) || n == 0x2028 || n == 0x2029 || n == 0x202f || n == 0x205f || n == 0x3000
}

/// Relies on `char::is_whitespace`: true exactly for the characters with the
/// Unicode `White_Space` property.
#[verifier::external_body]
fn is_white_space(c: char) -> (r: bool)
    ensures
        r == white_space(c),
{
    c.is_whitespace()
}

/// Relies on `String::push`: appends `c` at the end of `s`.
#[verifier::external_body]
fn push_char(s: &mut String, c: char)
    ensures
        final(s)@ == old(s)@.push(c),
{
    s.push(c)
}

/// The canonical line terminator, CR LF.
pub open spec fn crlf() -> Seq<char> {
    seq!['\r', '\n']
}

/// `s` ends with CR LF.
pub open spec fn ends_with_crlf(s: Seq<char>) -> bool {
    s.len() >= 2 && s[s.len() - 2] == '\r' && s[s.len() - 1] == '\n'
}

/// `i` is the position of the first `c` in `s`.
pub open spec fn first_at(s: Seq<char>, c: char, i: int) -> bool {
    0 <= i < s.len() && s[i] == c && forall|j: int| 0 <= j < i ==> s[j] != c
}

/// The text before the first `c` in `s` and the text after it, or `None`
/// where `s` holds no `c`.
pub open spec fn split_once(s: Seq<char>, c: char) -> Option<(Seq<char>, Seq<char>)> {
    if s.contains(c) {
        let i = choose|i: int| first_at(s, c, i);
        Some((s.take(i), s.skip(i + 1)))
    } else {
        None
    }
}

/// `d` occurs in `s` at position `i`.
pub open spec fn occurs_at(s: Seq<char>, d: Seq<char>, i: int) -> bool {
    0 <= i && i + d.len() <= s.len() && s.subrange(i, i + d.len()) == d
}

/// `i` is the position of the first occurrence of `d` in `s`.
pub open spec fn first_occurrence(s: Seq<char>, d: Seq<char>, i: int) -> bool {
    occurs_at(s, d, i) && forall|j: int| 0 <= j < i ==> !occurs_at(s, d, j)
}

/// The text of `s` before the first occurrence of `d`, or all of `s` where
/// `d` does not occur.
pub open spec fn before(s: Seq<char>, d: Seq<char>) -> Seq<char> {
    if exists|i: int| occurs_at(s, d, i) {
        s.take(choose|i: int| first_occurrence(s, d, i))
    } else {
        s
    }
}

/// `s` without its leading white space.
pub open spec fn trim_start(s: Seq<char>) -> Seq<char>
    decreases s.len(),
{
    if s.len() > 0 && white_space(s[0]) {
        trim_start(s.drop_first())
    } else {
        s
    }
}

/// `s` without its trailing white space.
pub open spec fn trim_end(s: Seq<char>) -> Seq<char>
    decreases s.len(),
{
    if s.len() > 0 && white_space(s.last()) {
        trim_end(s.drop_last())
    } else {
        s
    }
}

/// `s` without its leading and trailing white space.
pub open spec fn trim(s: Seq<char>) -> Seq<char> {
    trim_end(trim_start(s))
}

/// The lowercase hexadecimal digit of `d`, for `d < 16`.
pub open spec fn hex_digit(d: nat) -> char {
    if d < 10 {
        (('0' as nat) + d) as char
    } else {
        (('a' as nat) + (d - 10)) as char
    }
}

/// The shortest lowercase hexadecimal numeral of `n`.
pub open spec fn hex(n: nat) -> Seq<char>
    decreases n,
{
    if n < 16 {
        seq![hex_digit(n)]
    } else {
        hex(n / 16) + seq![hex_digit(n % 16)]
    }
}

/// How one character is written in a diagnostic: printable ASCII as it is,
/// tab, CR, LF, quotes and backslash as their backslash escapes, and every
/// other character as `\u{...}` with its code in hexadecimal.
pub open spec fn escape_char(c: char) -> Seq<char> {
    if c == '\t' {
        seq!['\\', 't']
    } else if c == '\r' {
        seq!['\\', 'r']
    } else if c == '\n' {
        seq!['\\', 'n']
    } else if c == '\\' || c == '\'' || c == '"' {
        seq!['\\', c]
    } else if 0x20 <= (c as nat) <= 0x7e {
        seq![c]
    } else {
        seq!['\\', 'u', '{'] + hex(c as nat) + seq!['}']
    }
}

/// `s` with every character escaped.
pub open spec fn escape(s: Seq<char>) -> Seq<char>
    decreases s.len(),
{
    if s.len() == 0 {
        Seq::empty()
    } else {
        escape(s.drop_last()) + escape_char(s.last())
    }
}

/// The characters of `s`, in order.
pub fn chars_of(s: &str) -> (r: Vec<char>)
    ensures
        r@ == s@,
{
    let mut it = s.chars();
    let mut out: Vec<char> = Vec::new();
    loop
        invariant
            out@ + it.remaining() == s@,
        ensures
            out@ == s@,
        decreases s@.len() - out@.len(),
    {
        match it.next() {
            Some(c) => {
                out.push(c);
            },
            None => {
                assert(out@ + it.remaining() =~= out@);
                break;
            },
        }
    }
    out
}

/// Position of the first `c` in `s`, or `None` where there is none.
pub fn find_char(s: &str, c: char) -> (r: Option<usize>)
    ensures
        match r {
            Some(i) => first_at(s@, c, i as int),
            None => !s@.contains(c),
        },
{
    let cs = chars_of(s);
    let n = cs.len();
    let mut i: usize = 0;
    while i < n
        invariant
            cs@ == s@,
            n == s@.len(),
            i <= n,
            forall|j: int| 0 <= j < i ==> s@[j] != c,
        decreases n - i,
    {
        if cs[i] == c {
            return Some(i);
        }
        i = i + 1;
    }
    None
}

/// `split_once` on executable text: the parts around the first `c`.
pub fn split_once_char(s: &str, c: char) -> (r: Option<(&str, &str)>)
    ensures
        match r {
            Some((a, b)) => split_once(s@, c) == Some((a@, b@)),
            None => split_once(s@, c) is None,
        },
{
    match find_char(s, c) {
        Some(i) => {
            let n = s.unicode_len();
            let a = s.substring_char(0, i);
            let b = s.substring_char(i + 1, n);
            proof {
                lemma_split_once_at(s@, c, i as int);
                assert(a@ =~= s@.take(i as int));
                assert(b@ =~= s@.skip(i + 1));
            }
            Some((a, b))
        },
        None => None,
    }
}

/// Whether two pieces of text are equal.
pub fn str_eq(a: &str, b: &str) -> (r: bool)
    ensures
        r == (a@ == b@),
{
    let ca = chars_of(a);
    let cb = chars_of(b);
    let n = ca.len();
    if n != cb.len() {
        return false;
    }
    let mut i: usize = 0;
    while i < n
        invariant
            ca@ == a@,
            cb@ == b@,
            n == a@.len(),
            n == b@.len(),
            i <= n,
            forall|j: int| 0 <= j < i ==> a@[j] == b@[j],
        decreases n - i,
    {
        if ca[i] != cb[i] {
            return false;
        }
        i = i + 1;
    }
    assert(a@ =~= b@);
    true
}

/// Whether the text ends with CR LF.
pub fn ends_with_crlf_str(s: &str) -> (r: bool)
    ensures
        r == ends_with_crlf(s@),
{
    let cs = chars_of(s);
    let n = cs.len();
    n >= 2 && cs[n - 2] == '\r' && cs[n - 1] == '\n'
}

/// Whether the text is exactly CR LF.
pub fn is_crlf(s: &str) -> (r: bool)
    ensures
        r == (s@ == crlf()),
{
    let cs = chars_of(s);
    let n = cs.len();
    let r = n == 2 && cs[0] == '\r' && cs[1] == '\n';
    if r {
        assert(s@ =~= crlf());
    }
    r
}

/// `s` without its leading and trailing white space.
pub fn trim_str(s: &str) -> (r: &str)
    ensures
        r@ == trim(s@),
{
    let cs = chars_of(s);
    let n = cs.len();
    let mut i: usize = 0;
    assert(s@.skip(0) =~= s@);
    while i < n && is_white_space(cs[i])
        invariant
            cs@ == s@,
            n == s@.len(),
            i <= n,
            trim_start(s@) == trim_start(s@.skip(i as int)),
        decreases n - i,
    {
        assert(s@.skip(i as int).drop_first() =~= s@.skip(i + 1));
        i = i + 1;
    }
    assert(trim_start(s@.skip(i as int)) == s@.skip(i as int));
    let mut j: usize = n;
    while j > i && is_white_space(cs[j - 1])
        invariant
            cs@ == s@,
            n == s@.len(),
            i <= j <= n,
            trim_start(s@) == s@.subrange(i as int, n as int),
            trim(s@) == trim_end(s@.subrange(i as int, j as int)),
        decreases j,
    {
        assert(s@.subrange(i as int, j as int).drop_last() =~= s@.subrange(i as int, j - 1));
        j = j - 1;
    }
    s.substring_char(i, j)
}

/// Whether `d` occurs in `s` at position `i`.
fn occurs_at_exec(s: &Vec<char>, d: &Vec<char>, i: usize) -> (r: bool)
    ensures
        r == occurs_at(s@, d@, i as int),
{
    let n = s.len();
    let m = d.len();
    if i > n || m > n - i {
        return false;
    }
    let mut k: usize = 0;
    while k < m
        invariant
            n == s@.len(),
            m == d@.len(),
            i + m <= n,
            k <= m,
            forall|t: int| 0 <= t < k ==> s@[i + t] == d@[t],
        decreases m - k,
    {
        if s[i + k] != d[k] {
            assert(s@.subrange(i as int, i + m)[k as int] != d@[k as int]);
            return false;
        }
        k = k + 1;
    }
    assert(s@.subrange(i as int, i + m) =~= d@);
    true
}

/// The text of `s` before the first occurrence of `delim`, or all of `s`
/// where `delim` does not occur.
pub fn split_once_no_error<'a>(s: &'a str, delim: &str) -> (r: &'a str)
    ensures
        r@ == before(s@, delim@),
{
    let cs = chars_of(s);
    let cd = chars_of(delim);
    let n = cs.len();
    let m = cd.len();
    if m <= n {
        let mut i: usize = 0;
        loop
            invariant
                cs@ == s@,
                cd@ == delim@,
                n == s@.len(),
                m == delim@.len(),
                m <= n,
                i <= n - m,
                forall|j: int| 0 <= j < i ==> !occurs_at(s@, delim@, j),
            ensures
                forall|j: int| 0 <= j <= n - m ==> !occurs_at(s@, delim@, j),
            decreases n - m - i,
        {
            if occurs_at_exec(&cs, &cd, i) {
                proof {
                    assert(first_occurrence(s@, delim@, i as int));
                    let k = choose|k: int| first_occurrence(s@, delim@, k);
                    if k < i {
                        assert(!occurs_at(s@, delim@, k));
                    } else if k > i {
                        assert(!occurs_at(s@, delim@, i as int));
                    }
                    assert(s@.take(i as int) =~= s@.subrange(0, i as int));
                }
                return s.substring_char(0, i);
            }
            if i == n - m {
                break;
            }
            i = i + 1;
        }
    }
    assert forall|j: int| !occurs_at(s@, delim@, j) by {
        if 0 <= j && j + delim@.len() <= s@.len() {
            assert(!occurs_at(s@, delim@, j));
        }
    }
    s
}

/// The hexadecimal digit of `d`.
fn hex_digit_exec(d: u32) -> (c: char)
    requires
        d < 16,
    ensures
        c == hex_digit(d as nat),
{
    match d {
        0 => '0',
        1 => '1',
        2 => '2',
        3 => '3',
        4 => '4',
        5 => '5',
        6 => '6',
        7 => '7',
        8 => '8',
        9 => '9',
        10 => 'a',
        11 => 'b',
        12 => 'c',
        13 => 'd',
        14 => 'e',
        _ => 'f',
    }
}

/// Appends the hexadecimal numeral of `n` to `out`.
fn push_hex(out: &mut String, n: u32)
    ensures
        final(out)@ == old(out)@ + hex(n as nat),
    decreases n,
{
    if n >= 16 {
        push_hex(out, n / 16);
    }
    push_char(out, hex_digit_exec(n % 16));
    assert(n < 16 ==> n % 16 == n);
}

/// Appends the escaped form of `c` to `out`.
fn push_escaped_char(out: &mut String, c: char)
    ensures
        final(out)@ == old(out)@ + escape_char(c),
{
    let code = c as u32;
    if c == '\t' {
        push_char(out, '\\');
        push_char(out, 't');
    } else if c == '\r' {
        push_char(out, '\\');
        push_char(out, 'r');
    } else if c == '\n' {
        push_char(out, '\\');
        push_char(out, 'n');
    } else if c == '\\' || c == '\'' || c == '"' {
        push_char(out, '\\');
        push_char(out, c);
    } else if 0x20 <= code && code <= 0x7e {
        push_char(out, c);
    } else {
        push_char(out, '\\');
        push_char(out, 'u');
        push_char(out, '{');
        push_hex(out, code);
        push_char(out, '}');
    }
    assert(final(out)@ =~= old(out)@ + escape_char(c));
}

/// Appends the escaped form of `s` to `out`.
pub fn push_escaped(out: &mut String, s: &str)
    ensures
        final(out)@ == old(out)@ + escape(s@),
{
    let cs = chars_of(s);
    let n = cs.len();
    let ghost start = out@;
    let mut i: usize = 0;
    while i < n
        invariant
            cs@ == s@,
            n == s@.len(),
            i <= n,
            out@ == start + escape(s@.take(i as int)),
        decreases n - i,
    {
        let c = cs[i];
        push_escaped_char(out, c);
        assert(s@.take(i + 1).drop_last() =~= s@.take(i as int));
        i = i + 1;
    }
    assert(s@.take(n as int) =~= s@);
}

/// A text that holds `c` has a first `c`.
pub proof fn lemma_first_exists(s: Seq<char>, c: char)
    requires
        s.contains(c),
    ensures
        exists|i: int| first_at(s, c, i),
    decreases s.len(),
{
    if s[0] == c {
        assert(first_at(s, c, 0));
    } else {
        let t = s.drop_first();
        let k = choose|k: int| 0 <= k < s.len() && s[k] == c;
        assert(t[k - 1] == c);
        lemma_first_exists(t, c);
        let i = choose|i: int| first_at(t, c, i);
        assert forall|j: int| 0 <= j < i + 1 implies s[j] != c by {
            if j > 0 {
                assert(s[j] == t[j - 1]);
            }
        }
        assert(first_at(s, c, i + 1));
    }
}

/// Splitting `a c b` at its first `c`, where `a` holds none, gives `a` and `b`.
pub proof fn lemma_split_once_concat(a: Seq<char>, c: char, b: Seq<char>)
    requires
        !a.contains(c),
    ensures
        split_once(a + seq![c] + b, c) == Some((a, b)),
{
    let s = a + seq![c] + b;
    let n = a.len() as int;
    assert(s[n] == c);
    assert forall|j: int| 0 <= j < n implies s[j] != c by {
        assert(s[j] == a[j]);
    }
    assert(first_at(s, c, n));
    let k = choose|k: int| first_at(s, c, k);
    if k < n {
        assert(s[k] == a[k]);
        assert(a[k] == c);
    } else if k > n {
        assert(s[n] != c);
    }
    assert(s.take(n) =~= a);
    assert(s.skip(n + 1) =~= b);
}

/// Where `s` holds `c`, what follows its first `c` is `s` from there on.
pub proof fn lemma_split_once_at(s: Seq<char>, c: char, i: int)
    requires
        first_at(s, c, i),
    ensures
        split_once(s, c) == Some((s.take(i), s.skip(i + 1))),
{
    assert(s.contains(c));
    let k = choose|k: int| first_at(s, c, k);
    if k < i {
        assert(s[k] != c);
    } else if k > i {
        assert(s[i] != c);
    }
}

/// `trim_start` drops a prefix of white space and stops at a character that
/// is not white space.
pub proof fn lemma_trim_start(s: Seq<char>) -> (a: int)
    ensures
        0 <= a <= s.len(),
        trim_start(s) == s.skip(a),
        forall|i: int| 0 <= i < a ==> white_space(s[i]),
        a < s.len() ==> !white_space(s[a]),
    decreases s.len(),
{
    if s.len() > 0 && white_space(s[0]) {
        let t = s.drop_first();
        let b = lemma_trim_start(t);
        assert(t.skip(b) =~= s.skip(b + 1));
        assert forall|i: int| 0 <= i < b + 1 implies white_space(s[i]) by {
            if i > 0 {
                assert(s[i] == t[i - 1]);
            }
        }
        b + 1
    } else {
        assert(s.skip(0) =~= s);
        0
    }
}

/// `trim_end` drops a suffix of white space and stops at a character that
/// is not white space.
pub proof fn lemma_trim_end(s: Seq<char>) -> (b: int)
    ensures
        0 <= b <= s.len(),
        trim_end(s) == s.take(b),
        forall|i: int| b <= i < s.len() ==> white_space(s[i]),
        b > 0 ==> !white_space(s[b - 1]),
    decreases s.len(),
{
    if s.len() > 0 && white_space(s.last()) {
        let t = s.drop_last();
        let b = lemma_trim_end(t);
        assert(t.take(b) =~= s.take(b));
        assert forall|i: int| b <= i < s.len() implies white_space(s[i]) by {
            if i < s.len() - 1 {
                assert(s[i] == t[i]);
            }
        }
        b
    } else {
        assert(s.take(s.len() as int) =~= s);
        s.len() as int
    }
}

/// Leading white space is dropped from `s + t` as from `s`, and only reaches
/// into `t` where `s` is all white space.
pub proof fn lemma_trim_start_append(s: Seq<char>, t: Seq<char>)
    ensures
        trim_start(s).len() > 0 ==> trim_start(s + t) == trim_start(s) + t,
        trim_start(s).len() == 0 ==> trim_start(s + t) == trim_start(t),
    decreases s.len(),
{
    if s.len() == 0 {
        assert(s + t =~= t);
    } else if white_space(s[0]) {
        assert((s + t).drop_first() =~= s.drop_first() + t);
        lemma_trim_start_append(s.drop_first(), t);
    } else {
        assert((s + t)[0] == s[0]);
    }
}

/// Trailing white space `t` does not change what `trim_end` keeps.
pub proof fn lemma_trim_end_white_suffix(s: Seq<char>, t: Seq<char>)
    requires
        forall|i: int| 0 <= i < t.len() ==> white_space(t[i]),
    ensures
        trim_end(s + t) == trim_end(s),
    decreases t.len(),
{
    if t.len() == 0 {
        assert(s + t =~= s);
    } else {
        assert((s + t).last() == t.last());
        assert((s + t).drop_last() =~= s + t.drop_last());
        lemma_trim_end_white_suffix(s, t.drop_last());
    }
}

/// A value followed by CR LF trims to what the value alone trims to.
pub proof fn lemma_trim_crlf(v: Seq<char>)
    ensures
        trim(v + crlf()) == trim(v),
{
    lemma_trim_start_append(v, crlf());
    let s = trim_start(v);
    if s.len() > 0 {
        lemma_trim_end_white_suffix(s, crlf());
    } else {
        let c1 = crlf().drop_first();
        assert(c1 =~= seq!['\n']);
        assert(c1.drop_first() =~= Seq::<char>::empty());
        assert(trim_start(c1.drop_first()) == Seq::<char>::empty());
        assert(trim_start(c1) == trim_start(c1.drop_first()));
        assert(trim_start(crlf()) == trim_start(c1));
    }
}

} // verus!
