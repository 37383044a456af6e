//! Plain text helpers: decimal numbers, port numbers and path components.

use vstd::prelude::*;
use vstd::utf8::{decode_utf8, valid_utf8};

verus! {

/// The character that writes the decimal digit `d` (for `0 <= d <= 9`).
pub open spec fn digit_char(d: int) -> char {
    (d + 48) as char
}

/// Whether `c` is an ASCII decimal digit.
pub open spec fn is_digit(c: char) -> bool {
    48 <= (c as int) && (c as int) <= 57
}

/// The value of the ASCII decimal digit `c`.
pub open spec fn digit_value(c: char) -> int {
    c as int - 48
}

/// Whether every character of `s` is an ASCII decimal digit.
pub open spec fn all_digits(s: Seq<char>) -> bool {
    forall|i: int| 0 <= i < s.len() ==> is_digit(#[trigger] s[i])
}

/// The number written by a string of decimal digits, most significant first.
pub open spec fn digits_value(s: Seq<char>) -> int
    decreases s.len(),
{
    if s.len() == 0 {
        0
    } else {
        digits_value(s.drop_last()) * 10 + digit_value(s.last())
    }
}

/// The decimal text of `n`: most significant digit first, without leading zeros.
pub open spec fn decimal(n: nat) -> Seq<char>
    decreases n,
{
    if n < 10 {
        seq![digit_char(n as int)]
    } else {
        decimal(n / 10).push(digit_char((n % 10) as int))
    }
}

/// What `u16::from_str` gives for the text `s`: one optional leading `+`,
/// then at least one ASCII digit, and a value that fits in 16 bits.
pub open spec fn port_value(s: Seq<char>) -> Option<u16> {
    let body = if s.len() > 0 && s[0] == '+' { s.drop_first() } else { s };
    if body.len() > 0 && all_digits(body) && digits_value(body) <= 65535 {
        Some(digits_value(body) as u16)
    } else {
        None
    }
}

/// Appends one character to a string.
#[verifier::external_body]
pub(crate) fn push_char(s: &mut String, c: char)
    ensures
        final(s)@ == old(s)@.push(c),
{
    s.push(c)
}

fn digit_to_char(d: u32) -> (c: char)
    requires
        d < 10,
    ensures
        c == digit_char(d as int),
{
    if d == 0 {
        '0'
    } else if d == 1 {
        '1'
    } else if d == 2 {
        '2'
    } else if d == 3 {
        '3'
    } else if d == 4 {
        '4'
    } else if d == 5 {
        '5'
    } else if d == 6 {
        '6'
    } else if d == 7 {
        '7'
    } else if d == 8 {
        '8'
    } else {
        '9'
    }
}

/// Appends the decimal text of `n` to `out`.
pub fn write_decimal(out: &mut String, n: u64)
    ensures
        final(out)@ == old(out)@ + decimal(n as nat),
    decreases n,
{
    if n >= 10 {
        write_decimal(out, n / 10);
    }
    let c = digit_to_char((n % 10) as u32);
    push_char(out, c);
    proof {
        assert((n / 10) as nat == (n as nat) / 10);
    }
}

/// The decimal text of `n`, as `n.to_string()` writes it.
pub fn decimal_text(n: u32) -> (s: String)
    ensures
        s@ == decimal(n as nat),
{
    let mut s = String::new();
    write_decimal(&mut s, n as u64);
    assert(s@ =~= decimal(n as nat));
    s
}


/// A string of digits is worth at least as much as any of its prefixes.
proof fn lemma_digits_value_prefix(s: Seq<char>, k: int)
    requires
        all_digits(s),
        0 <= k <= s.len(),
    ensures
        digits_value(s.take(k)) <= digits_value(s),
        0 <= digits_value(s.take(k)),
    decreases s.len(),
{
    if k == s.len() {
        assert(s.take(k) =~= s);
        lemma_digits_value_nonneg(s);
    } else {
        assert(all_digits(s.drop_last()));
        lemma_digits_value_prefix(s.drop_last(), k);
        assert(s.drop_last().take(k) =~= s.take(k));
        lemma_digits_value_nonneg(s.drop_last());
        assert(is_digit(s[s.len() - 1]));
    }
}

proof fn lemma_digits_value_nonneg(s: Seq<char>)
    requires
        all_digits(s),
    ensures
        0 <= digits_value(s),
    decreases s.len(),
{
    if s.len() > 0 {
        assert(all_digits(s.drop_last()));
        lemma_digits_value_nonneg(s.drop_last());
        assert(is_digit(s[s.len() - 1]));
    }
}

/// Parses a port number the way `u16::from_str` does.
pub fn parse_port(s: &str) -> (r: Option<u16>)
    ensures
        r == port_value(s@),
{
    let len = s.unicode_len();
    let mut start: usize = 0;
    if len > 0 && s.get_char(0) == '+' {
        start = 1;
    }
    let ghost body = if s@.len() > 0 && s@[0] == '+' { s@.drop_first() } else { s@ };
    assert(body =~= s@.subrange(start as int, len as int));
    if start == len {
        return None;
    }
    let mut acc: u32 = 0;
    let mut i: usize = start;
    while i < len
        invariant
            start <= i <= len,
            len == s@.len(),
            body =~= s@.subrange(start as int, len as int),
            body == (if s@.len() > 0 && s@[0] == '+' { s@.drop_first() } else { s@ }),
            all_digits(s@.subrange(start as int, i as int)),
            acc as int == digits_value(s@.subrange(start as int, i as int)),
            acc <= 65535,
        decreases len - i,
    {
        let c = s.get_char(i);
        if !('0' <= c && c <= '9') {
            assert(body[i - start] == c);
            assert(!is_digit(c));
            assert(!all_digits(body));
            return None;
        }
        let d: u32 = (c as u32) - 48;
        let ghost prev = s@.subrange(start as int, i as int);
        let ghost next = s@.subrange(start as int, i + 1);
        assert(next.drop_last() =~= prev);
        assert(next.last() == c);
        assert(d as int == digit_value(c));
        acc = acc * 10 + d;
        i = i + 1;
        assert(acc as int == digits_value(next));
        assert(all_digits(next));
        if acc > 65535 {
            proof {
                if all_digits(body) {
                    lemma_digits_value_prefix(body, i - start);
                    assert(body.take(i - start) =~= next);
                }
            }
            return None;
        }
    }
    assert(s@.subrange(start as int, len as int) =~= body);
    Some(acc as u16)
}


pub(crate) proof fn lemma_decimal_digits(n: nat)
    ensures
        decimal(n).len() > 0,
        all_digits(decimal(n)),
        digits_value(decimal(n)) == n,
    decreases n,
{
    if n >= 10 {
        lemma_decimal_digits(n / 10);
        let d = decimal(n);
        assert(d.drop_last() =~= decimal(n / 10));
        assert(digit_value(digit_char((n % 10) as int)) == n % 10);
        assert(d.last() == digit_char((n % 10) as int));
        assert((n / 10) * 10 + n % 10 == n) by (nonlinear_arith);
        assert(digits_value(d) == digits_value(d.drop_last()) * 10 + digit_value(d.last()));
        assert(digits_value(d) == (n / 10) * 10 + n % 10);
        assert forall|i: int| 0 <= i < d.len() implies is_digit(#[trigger] d[i]) by {
            if i < d.len() - 1 {
                assert(d[i] == decimal(n / 10)[i]);
            }
        }
    } else {
        assert(decimal(n).drop_last() =~= Seq::<char>::empty());
        assert(digit_value(digit_char(n as int)) == n);
        assert(digits_value(decimal(n)) == digits_value(decimal(n).drop_last()) * 10 + digit_value(decimal(n).last()));
    }
}

/// The port text that `Config::host` writes is read back by `parse_port`:
/// for every port `p`, `port_value(decimal(p)) == Some(p)`.
pub proof fn law_port_text_round_trip(p: u16)
    ensures
        port_value(decimal(p as nat)) == Some(p),
{
    lemma_decimal_digits(p as nat);
    let d = decimal(p as nat);
    assert(is_digit(d[0]));
}

/// The part of `s` after its last `/` (all of `s` when it holds none).
pub open spec fn last_segment(s: Seq<char>) -> Seq<char>
    decreases s.len(),
{
    if s.len() == 0 {
        s
    } else if s.last() == '/' {
        Seq::empty()
    } else {
        last_segment(s.drop_last()).push(s.last())
    }
}

/// `s` without its trailing separators and trailing `.` components, which
/// `Path::components` skips.
pub open spec fn trim_path_end(s: Seq<char>) -> Seq<char>
    decreases s.len(),
{
    if s.len() == 0 {
        s
    } else if s.last() == '/' {
        trim_path_end(s.drop_last())
    } else if s.last() == '.' && (s.len() == 1 || s[s.len() - 2] == '/') {
        trim_path_end(s.drop_last())
    } else {
        s
    }
}

/// What `Path::file_name` gives: the last component of the path, unless the
/// path has none or it is `..`.
pub open spec fn file_name_of(path: Seq<char>) -> Option<Seq<char>> {
    let trimmed = trim_path_end(path);
    let seg = last_segment(trimmed);
    if trimmed.len() == 0 || seg == seq!['.', '.'] {
        None
    } else {
        Some(seg)
    }
}

/// What `PathBuf::push` (and so `Path::join`) makes of `base` and `name` on
/// Unix: an absolute `name` replaces `base`; otherwise a `/` is put between
/// them unless `base` is empty or already ends with one.
pub open spec fn join_path(base: Seq<char>, name: Seq<char>) -> Seq<char> {
    if name.len() > 0 && name[0] == '/' {
        name
    } else if base.len() == 0 || base.last() == '/' {
        base + name
    } else {
        base + seq!['/'] + name
    }
}

/// The last component of `path`, as `Path::file_name` finds it.
pub fn file_name(path: &str) -> (r: Option<String>)
    ensures
        r matches Some(name) ==> file_name_of(path@) == Some(name@),
        r is None ==> file_name_of(path@) is None,
{
    let len = path.unicode_len();
    let mut end: usize = len;
    assert(path@.take(len as int) =~= path@);
    while end > 0
        invariant
            end <= len,
            len == path@.len(),
            trim_path_end(path@) == trim_path_end(path@.take(end as int)),
        ensures
            end <= len,
            trim_path_end(path@) == path@.take(end as int),
        decreases end,
    {
        let ghost cur = path@.take(end as int);
        let c = path.get_char(end - 1);
        assert(cur.drop_last() =~= path@.take(end - 1));
        if c == '/' {
            end = end - 1;
        } else if c == '.' && (end == 1 || path.get_char(end - 2) == '/') {
            end = end - 1;
        } else {
            assert(trim_path_end(cur) == cur);
            break;
        }
    }
    proof {
        if end == 0 {
            assert(path@.take(0) =~= Seq::<char>::empty());
        }
    }
    let ghost trimmed = path@.take(end as int);
    assert(trim_path_end(trimmed) == trimmed);
    let mut start: usize = end;
    while start > 0
        invariant
            start <= end <= len,
            len == path@.len(),
            last_segment(trimmed) == last_segment(path@.take(start as int)) + path@.subrange(
                start as int,
                end as int,
            ),
            trimmed == path@.take(end as int),
            trim_path_end(path@) == trimmed,
        ensures
            start <= end <= len,
            last_segment(trimmed) == path@.subrange(start as int, end as int),
        decreases start,
    {
        let c = path.get_char(start - 1);
        let ghost cur = path@.take(start as int);
        assert(cur.drop_last() =~= path@.take(start - 1));
        if c == '/' {
            assert(last_segment(cur) =~= Seq::<char>::empty());
            assert(last_segment(trimmed) =~= path@.subrange(start as int, end as int));
            break;
        }
        assert(last_segment(cur) =~= last_segment(path@.take(start - 1)).push(c));
        assert(path@.subrange(start - 1, end as int) =~= seq![c] + path@.subrange(
            start as int,
            end as int,
        ));
        start = start - 1;
    }
    let seg = path.substring_char(start, end);
    assert(last_segment(trimmed) =~= seg@);
    if end == 0 {
        return None;
    }
    if end - start == 2 && path.get_char(start) == '.' && path.get_char(start + 1) == '.' {
        assert(seg@ =~= seq!['.', '.']);
        return None;
    }
    proof {
        if seg@ == seq!['.', '.'] {
            assert(seg@[0] == path@[start as int]);
            assert(seg@[1] == path@[start + 1]);
        }
    }
    Some(seg.to_owned())
}

/// Joins a path component onto a base path, as `Path::join` does on Unix.
pub fn join_path_text(base: &str, name: &str) -> (r: String)
    ensures
        r@ == join_path(base@, name@),
{
    let blen = base.unicode_len();
    let nlen = name.unicode_len();
    let mut r = base.to_owned();
    if nlen > 0 && name.get_char(0) == '/' {
        return name.to_owned();
    }
    if !(blen == 0 || base.get_char(blen - 1) == '/') {
        push_char(&mut r, '/');
    }
    r.append(name);
    r
}


/// Whether two texts hold the same characters.
pub fn same_text(a: &str, b: &str) -> (r: bool)
    ensures
        r == (a@ == b@),
{
    let n = a.unicode_len();
    let m = b.unicode_len();
    if n != m {
        return false;
    }
    let mut i: usize = 0;
    while i < n
        invariant
            n == a@.len(),
            m == b@.len(),
            n == m,
            i <= n,
            forall|j: int| 0 <= j < i ==> a@[j] == b@[j],
        decreases n - i,
    {
        if a.get_char(i) != b.get_char(i) {
            return false;
        }
        i = i + 1;
    }
    assert(a@ =~= b@);
    true
}


/// Decodes UTF-8 bytes with `String::from_utf8`.
/// Contract: the bytes are accepted exactly when they are valid UTF-8, and
/// then the text holds the characters they encode.
#[verifier::external_body]
pub(crate) fn utf8_text(bytes: &[u8]) -> (r: Option<String>)
    ensures
        r is Some <==> valid_utf8(bytes@),
        r matches Some(t) ==> t@ == decode_utf8(bytes@),
{
    String::from_utf8(bytes.to_vec()).ok()
}


/// Whether `s` writes one octet of an IPv4 address: one to three ASCII
/// digits, no leading zero unless it is the only digit, at most 255.
pub open spec fn is_octet(s: Seq<char>) -> bool {
    &&& 1 <= s.len() <= 3
    &&& all_digits(s)
    &&& !(s.len() > 1 && s[0] == '0')
    &&& digits_value(s) <= 255
}

/// Reading `s` from the left, split at dots: how many dots were passed,
/// the text after the last dot, and whether every part before it was an octet.
pub open spec fn dot_scan(s: Seq<char>) -> (int, Seq<char>, bool)
    decreases s.len(),
{
    if s.len() == 0 {
        (0, Seq::empty(), true)
    } else {
        let (n, cur, ok) = dot_scan(s.drop_last());
        if s.last() == '.' {
            (n + 1, Seq::empty(), ok && is_octet(cur))
        } else {
            (n, cur.push(s.last()), ok)
        }
    }
}

/// What `Ipv4Addr::from_str` accepts: four octets separated by dots.
pub open spec fn is_ipv4_text(s: Seq<char>) -> bool {
    let (n, cur, ok) = dot_scan(s);
    ok && n == 3 && is_octet(cur)
}

fn octet_ok(cur: &Vec<char>) -> (r: bool)
    ensures
        r == is_octet(cur@),
{
    let n = cur.len();
    if n < 1 || n > 3 {
        return false;
    }
    let mut value: u32 = 0;
    let mut i: usize = 0;
    while i < n
        invariant
            n == cur@.len(),
            1 <= n <= 3,
            i <= n,
            all_digits(cur@.take(i as int)),
            value as int == digits_value(cur@.take(i as int)),
            value < (if i == 0 {
                1u32
            } else if i == 1 {
                10u32
            } else if i == 2 {
                100u32
            } else {
                1000u32
            }),
        decreases n - i,
    {
        let c = cur[i];
        if !('0' <= c && c <= '9') {
            assert(!is_digit(cur@[i as int]));
            return false;
        }
        let ghost next = cur@.take(i + 1);
        assert(next.drop_last() =~= cur@.take(i as int));
        assert((c as u32 - 48) as int == digit_value(c));
        value = value * 10 + (c as u32 - 48);
        i = i + 1;
        assert(all_digits(next));
    }
    assert(cur@.take(n as int) =~= cur@);
    if n > 1 && cur[0] == '0' {
        return false;
    }
    value <= 255
}

/// Whether `s` is an IPv4 address as `Ipv4Addr::from_str` reads one.
pub fn is_ipv4(s: &str) -> (r: bool)
    ensures
        r == is_ipv4_text(s@),
{
    let len = s.unicode_len();
    let mut dots: usize = 0;
    let mut ok = true;
    let mut cur: Vec<char> = Vec::new();
    let mut i: usize = 0;
    assert(s@.take(0) =~= Seq::<char>::empty());
    while i < len
        invariant
            len == s@.len(),
            i <= len,
            dots <= i,
            dot_scan(s@.take(i as int)) == (dots as int, cur@, ok),
        decreases len - i,
    {
        let c = s.get_char(i);
        let ghost prev = s@.take(i as int);
        assert(s@.take(i + 1).drop_last() =~= prev);
        assert(s@.take(i + 1).last() == c);
        if c == '.' {
            let good = octet_ok(&cur);
            ok = ok && good;
            dots = dots + 1;
            cur = Vec::new();
            assert(cur@ =~= Seq::<char>::empty());
        } else {
            cur.push(c);
        }
        i = i + 1;
    }
    assert(s@.take(len as int) =~= s@);
    ok && dots == 3 && octet_ok(&cur)
}

} // verus!
