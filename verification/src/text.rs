//! Pure text transformations on paths, URLs, host names, object keys and file names.

use vstd::prelude::*;

verus! {

// ---------------------------------------------------------------------------
// Searching

/// `k` is the first position at or after `from` that holds `c`, or the length of `s`.
pub open spec fn is_first_at_or_after(s: Seq<char>, c: char, from: int, k: int) -> bool {
    &&& from <= k <= s.len()
    &&& forall|j: int| from <= j < k ==> s[j] != c
    &&& k < s.len() ==> s[k] == c
}

/// The first position of `c` at or after `from` (the length of `s` when there is none).
pub fn find_char(s: &str, c: char, from: usize) -> (k: usize)
    requires
        from <= s@.len(),
    ensures
        is_first_at_or_after(s@, c, from as int, k as int),
{
    let n = s.unicode_len();
    let mut k: usize = from;
    while k < n && s.get_char(k) != c
        invariant
            n == s@.len(),
            from <= k <= n,
            forall|j: int| from <= j < k ==> s@[j] != c,
        decreases n - k,
    {
        k = k + 1;
    }
    k
}

// ---------------------------------------------------------------------------
// Request paths

/// The index of the first `?` in `p`, or `p.len()` when there is none.
pub open spec fn first_query_index(p: Seq<char>) -> int {
    if exists|i: int| 0 <= i < p.len() && p[i] == '?' {
        choose|i: int| 0 <= i < p.len() && p[i] == '?' && forall|j: int| 0 <= j < i ==> p[j] != '?'
    } else {
        p.len() as int
    }
}

/// The canonical request path: everything before the first `?`.
pub open spec fn spec_canonical_path(p: Seq<char>) -> Seq<char> {
    p.take(first_query_index(p))
}

/// The first position of `c` in `p` (its length when there is none) exists.
pub proof fn first_position(p: Seq<char>, c: char, from: int) -> (k: int)
    requires
        0 <= from <= p.len(),
        forall|j: int| 0 <= j < from ==> p[j] != c,
    ensures
        is_first_at_or_after(p, c, 0, k),
    decreases p.len() - from,
{
    if from == p.len() || p[from] == c {
        from
    } else {
        first_position(p, c, from + 1)
    }
}

/// `k` is the first query position of `p` (or its length when `p` has no `?`).
pub proof fn lemma_first_query_index(p: Seq<char>, k: int)
    requires
        is_first_at_or_after(p, '?', 0, k),
    ensures
        first_query_index(p) == k,
{
    if k < p.len() {
        assert(0 <= k < p.len() && p[k] == '?' && forall|j: int| 0 <= j < k ==> p[j] != '?');
        let i = choose|i: int|
            0 <= i < p.len() && p[i] == '?' && forall|j: int| 0 <= j < i ==> p[j] != '?';
        if i < k {
            assert(p[i] != '?');
        }
        if k < i {
            assert(p[k] != '?');
        }
    }
}

/// Removes the transport query from the path bound into a user-action challenge.
/// Query parameters travel on the real request but are not part of the canonical
/// path the challenge is bound to.
pub fn canonical_request_path(path: &str) -> (res: String)
    ensures
        res@ == spec_canonical_path(path@),
{
    let k = find_char(path, '?', 0);
    proof {
        lemma_first_query_index(path@, k as int);
    }
    path.substring_char(0, k).to_owned()
}

/// The canonical path holds no `?`, is a prefix of the path, and canonicalizing it
/// again changes nothing; a path without `?` is its own canonical path.
pub proof fn law_canonical_path(p: Seq<char>)
    ensures
        !spec_canonical_path(p).contains('?'),
        p.take(spec_canonical_path(p).len() as int) == spec_canonical_path(p),
        spec_canonical_path(spec_canonical_path(p)) == spec_canonical_path(p),
        !p.contains('?') ==> spec_canonical_path(p) == p,
        p.contains('?') ==> spec_canonical_path(p).len() < p.len() && p[spec_canonical_path(p).len() as int] == '?',
{
    let m = first_position(p, '?', 0);
    lemma_first_query_index(p, m);
    let c = spec_canonical_path(p);
    assert forall|i: int| 0 <= i < c.len() implies c[i] != '?' by {
        assert(c[i] == p[i]);
    }
    lemma_first_query_index(c, c.len() as int);
    assert(c.take(c.len() as int) =~= c);
    if !p.contains('?') {
        assert forall|i: int| 0 <= i < p.len() implies p[i] != '?' by {
            if p[i] == '?' {
                assert(p.contains('?'));
            }
        }
        lemma_first_query_index(p, p.len() as int);
        assert(p.take(p.len() as int) =~= p);
    }
}

// ---------------------------------------------------------------------------
// Base URLs

/// The text with every trailing `/` removed.
pub open spec fn spec_trim_end_slashes(s: Seq<char>) -> Seq<char>
    decreases s.len(),
{
    if s.len() > 0 && s.last() == '/' {
        spec_trim_end_slashes(s.drop_last())
    } else {
        s
    }
}

/// Removes every trailing `/`, as `str::trim_end_matches('/')` does.
pub fn trim_end_slashes(s: &str) -> (res: String)
    ensures
        res@ == spec_trim_end_slashes(s@),
{
    let mut k = s.unicode_len();
    assert(s@.take(k as int) =~= s@);
    while k > 0 && s.get_char(k - 1) == '/'
        invariant
            k <= s@.len(),
            spec_trim_end_slashes(s@.take(k as int)) == spec_trim_end_slashes(s@),
        decreases k,
    {
        assert(s@.take(k as int).drop_last() =~= s@.take(k - 1));
        k = k - 1;
    }
    s.substring_char(0, k).to_owned()
}

/// Trimming leaves no trailing `/`, keeps a prefix and removes only `/` after it,
/// and a second trim changes nothing.
pub proof fn law_trim_end_slashes(s: Seq<char>)
    ensures
        spec_trim_end_slashes(s).len() <= s.len(),
        spec_trim_end_slashes(s).len() > 0 ==> spec_trim_end_slashes(s).last() != '/',
        spec_trim_end_slashes(s) == s.take(spec_trim_end_slashes(s).len() as int),
        spec_trim_end_slashes(spec_trim_end_slashes(s)) == spec_trim_end_slashes(s),
        forall|i: int| spec_trim_end_slashes(s).len() <= i < s.len() ==> #[trigger] s[i] == '/',
    decreases s.len(),
{
    if s.len() > 0 && s.last() == '/' {
        law_trim_end_slashes(s.drop_last());
        let t = spec_trim_end_slashes(s.drop_last());
        assert(s.drop_last().take(t.len() as int) =~= s.take(t.len() as int));
        assert forall|i: int| t.len() <= i < s.len() implies #[trigger] s[i] == '/' by {
            if i < s.len() - 1 {
                assert(s.drop_last()[i] == s[i]);
            }
        }
    } else {
        assert(s.take(s.len() as int) =~= s);
    }
}

// ---------------------------------------------------------------------------
// Loopback hosts

/// A decimal digit character.
pub open spec fn is_digit(c: char) -> bool {
    48 <= (c as u32) <= 57
}

/// The value of a string of decimal digits.
pub open spec fn decimal_value(t: Seq<char>) -> int
    decreases t.len(),
{
    if t.len() == 0 {
        0
    } else {
        decimal_value(t.drop_last()) * 10 + ((t.last() as u32) - 48)
    }
}

/// One part of a dotted-decimal IPv4 address as `std` reads it: one to three
/// digits, no leading zero, at most 255.
pub open spec fn is_octet_text(t: Seq<char>) -> bool {
    &&& 1 <= t.len() <= 3
    &&& forall|i: int| 0 <= i < t.len() ==> is_digit(#[trigger] t[i])
    &&& (t.len() == 1 || t[0] != '0')
    &&& decimal_value(t) <= 255
}

/// `i`, `j` and `k` are the dots of a dotted-decimal IPv4 address `s`.
pub open spec fn ipv4_dots(s: Seq<char>, i: int, j: int, k: int) -> bool {
    &&& 0 <= i < j < k < s.len()
    &&& s[i] == '.' && s[j] == '.' && s[k] == '.'
    &&& is_octet_text(s.subrange(0, i))
    &&& is_octet_text(s.subrange(i + 1, j))
    &&& is_octet_text(s.subrange(j + 1, k))
    &&& is_octet_text(s.subrange(k + 1, s.len() as int))
}

/// A dotted-decimal IPv4 address whose first octet is 127 (the loopback network).
pub open spec fn is_ipv4_loopback_text(s: Seq<char>) -> bool {
    exists|i: int, j: int, k: int|
        #![trigger ipv4_dots(s, i, j, k)]
        ipv4_dots(s, i, j, k) && s.subrange(0, i) == seq!['1', '2', '7']
}

/// A host text that names a loopback host by itself: `localhost`, or a
/// dotted-decimal IPv4 address in the loopback network 127.0.0.0/8, read as `std`
/// reads IPv4 addresses. (An IPv6 host is recognized by its address, which `url`
/// parses out of the bracketed host text.)
pub open spec fn spec_is_loopback_name(host: Seq<char>) -> bool {
    host == seq!['l', 'o', 'c', 'a', 'l', 'h', 'o', 's', 't'] || is_ipv4_loopback_text(host)
}

/// Whether `s[from..to]` is one part of a dotted-decimal IPv4 address.
fn is_octet_at(s: &str, from: usize, to: usize) -> (res: bool)
    requires
        from <= to <= s@.len(),
    ensures
        res == is_octet_text(s@.subrange(from as int, to as int)),
{
    let ghost t = s@.subrange(from as int, to as int);
    if to - from < 1 || to - from > 3 {
        return false;
    }
    if to - from > 1 && s.get_char(from) == '0' {
        return false;
    }
    let mut value: u32 = 0;
    let mut i: usize = from;
    while i < to
        invariant
            from <= i <= to <= s@.len(),
            to - from <= 3,
            t == s@.subrange(from as int, to as int),
            forall|p: int| 0 <= p < i - from ==> is_digit(#[trigger] t[p]),
            value == decimal_value(t.take(i - from)),
            i - from == 0 ==> value == 0,
            i - from <= 1 ==> value <= 9,
            i - from <= 2 ==> value <= 99,
            value <= 999,
        decreases to - i,
    {
        let c = s.get_char(i);
        if !('0' <= c && c <= '9') {
            assert(!is_digit(t[i - from]));
            return false;
        }
        proof {
            assert(t.take(i - from + 1).drop_last() =~= t.take(i - from));
            assert(t[i - from] == c);
        }
        value = value * 10 + (c as u32 - 48);
        i = i + 1;
    }
    assert(t.take(to - from) =~= t);
    value <= 255
}

/// Whether the host text is `localhost` or an IPv4 address in 127.0.0.0/8.
pub fn is_loopback_name(host: &str) -> (res: bool)
    ensures
        res == spec_is_loopback_name(host@),
{
    let ghost h = host@;
    let n = host.unicode_len();
    let localhost = "localhost";
    proof {
        reveal_strlit("localhost");
    }
    if n == 9 {
        let mut m: usize = 0;
        while m < 9 && host.get_char(m) == localhost.get_char(m)
            invariant
                m <= 9,
                n == 9 == h.len(),
                h == host@,
                localhost@ == seq!['l', 'o', 'c', 'a', 'l', 'h', 'o', 's', 't'],
                localhost@.len() == 9,
                forall|p: int| 0 <= p < m ==> h[p] == localhost@[p],
            decreases 9 - m,
        {
            m = m + 1;
        }
        if m == 9 {
            assert(h =~= seq!['l', 'o', 'c', 'a', 'l', 'h', 'o', 's', 't']);
            return true;
        }
        assert(h[m as int] != localhost@[m as int]);
    }
    assert(h != seq!['l', 'o', 'c', 'a', 'l', 'h', 'o', 's', 't']);
    let i = find_char(host, '.', 0);
    if i == n {
        proof { lemma_not_loopback_unless(h, i as int, i as int, i as int, i as int); }
        return false;
    }
    let j = find_char(host, '.', i + 1);
    if j == n {
        proof { lemma_not_loopback_unless(h, i as int, j as int, j as int, j as int); }
        return false;
    }
    let k = find_char(host, '.', j + 1);
    if k == n {
        proof { lemma_not_loopback_unless(h, i as int, j as int, k as int, k as int); }
        return false;
    }
    let l = find_char(host, '.', k + 1);
    proof { lemma_not_loopback_unless(h, i as int, j as int, k as int, l as int); }
    if l != n {
        return false;
    }
    let ok = is_octet_at(host, 0, i) && is_octet_at(host, i + 1, j) && is_octet_at(host, j + 1, k)
        && is_octet_at(host, k + 1, n);
    if !ok {
        return false;
    }
    let first = i == 3 && host.get_char(0) == '1' && host.get_char(1) == '2' && host.get_char(2) == '7';
    if first {
        assert(h.subrange(0, i as int) =~= seq!['1', '2', '7']);
        assert(ipv4_dots(h, i as int, j as int, k as int));
    } else {
        assert(h.subrange(0, i as int) != seq!['1', '2', '7']) by {
            if i == 3 {
                let t = h.subrange(0, 3);
                assert(t[0] == h[0] && t[1] == h[1] && t[2] == h[2]);
            }
        }
    }
    first
}

/// There is one first position of a character at or after a point.
proof fn lemma_first_unique(s: Seq<char>, c: char, from: int, k1: int, k2: int)
    requires
        is_first_at_or_after(s, c, from, k1),
        is_first_at_or_after(s, c, from, k2),
    ensures
        k1 == k2,
{
    if k1 < k2 {
        assert(s[k1] == c);
    }
    if k2 < k1 {
        assert(s[k2] == c);
    }
}

/// The dots of a dotted address are the first dot, the next one, and the one after,
/// and no dot follows them.
proof fn lemma_ipv4_dots_are_first(s: Seq<char>, a: int, b: int, c: int)
    requires
        ipv4_dots(s, a, b, c),
    ensures
        is_first_at_or_after(s, '.', 0, a),
        is_first_at_or_after(s, '.', a + 1, b),
        is_first_at_or_after(s, '.', b + 1, c),
        is_first_at_or_after(s, '.', c + 1, s.len() as int),
{
    assert forall|p: int| 0 <= p < a implies s[p] != '.' by {
        lemma_octet_has_no_dot(s.subrange(0, a), p);
    }
    assert forall|p: int| a + 1 <= p < b implies s[p] != '.' by {
        lemma_octet_has_no_dot(s.subrange(a + 1, b), p - (a + 1));
    }
    assert forall|p: int| b + 1 <= p < c implies s[p] != '.' by {
        lemma_octet_has_no_dot(s.subrange(b + 1, c), p - (b + 1));
    }
    assert forall|p: int| c + 1 <= p < s.len() implies s[p] != '.' by {
        lemma_octet_has_no_dot(s.subrange(c + 1, s.len() as int), p - (c + 1));
    }
}

/// A loopback address has its dots where the successive dot searches found them.
proof fn lemma_not_loopback_unless(s: Seq<char>, i: int, j: int, k: int, l: int)
    requires
        is_first_at_or_after(s, '.', 0, i),
        i < s.len() ==> is_first_at_or_after(s, '.', i + 1, j),
        i == s.len() ==> j == i,
        j < s.len() ==> is_first_at_or_after(s, '.', j + 1, k),
        j == s.len() ==> k == j,
        k < s.len() ==> is_first_at_or_after(s, '.', k + 1, l),
        k == s.len() ==> l == k,
    ensures
        is_ipv4_loopback_text(s) ==> i < j < k < s.len() && l == s.len() && ipv4_dots(s, i, j, k)
            && s.subrange(0, i) == seq!['1', '2', '7'],
{
    if is_ipv4_loopback_text(s) {
        let (a, b, c) = choose|a: int, b: int, c: int|
            #![trigger ipv4_dots(s, a, b, c)]
            ipv4_dots(s, a, b, c) && s.subrange(0, a) == seq!['1', '2', '7'];
        lemma_ipv4_dots_are_first(s, a, b, c);
        lemma_first_unique(s, '.', 0, i, a);
        lemma_first_unique(s, '.', a + 1, j, b);
        lemma_first_unique(s, '.', b + 1, k, c);
        lemma_first_unique(s, '.', c + 1, l, s.len() as int);
    }
}

/// Octet texts hold no dot.
proof fn lemma_octet_has_no_dot(t: Seq<char>, p: int)
    requires
        is_octet_text(t),
        0 <= p < t.len(),
    ensures
        t[p] != '.',
{
    assert(is_digit(t[p]));
}


// ---------------------------------------------------------------------------
// Upload file names

/// The text with every carriage return and line feed removed.
pub open spec fn spec_strip_crlf(s: Seq<char>) -> Seq<char>
    decreases s.len(),
{
    if s.len() == 0 {
        s
    } else if s.last() == '\r' || s.last() == '\n' {
        spec_strip_crlf(s.drop_last())
    } else {
        spec_strip_crlf(s.drop_last()).push(s.last())
    }
}

/// The file name sent with an upload: the caller's name without CR/LF (which could
/// inject headers), or `upload.bin` when nothing is left.
pub open spec fn spec_upload_file_name(name: Seq<char>) -> Seq<char> {
    if spec_strip_crlf(name).len() == 0 {
        "upload.bin"@
    } else {
        spec_strip_crlf(name)
    }
}

/// Removes every carriage return and line feed from `s`.
pub fn strip_crlf(s: &str) -> (res: String)
    ensures
        res@ == spec_strip_crlf(s@),
{
    let n = s.unicode_len();
    let mut res = String::new();
    let mut i: usize = 0;
    assert(s@.take(0) =~= Seq::<char>::empty());
    while i < n
        invariant
            n == s@.len(),
            i <= n,
            res@ == spec_strip_crlf(s@.take(i as int)),
        decreases n - i,
    {
        let c = s.get_char(i);
        assert(s@.take(i + 1).drop_last() =~= s@.take(i as int));
        if c != '\r' && c != '\n' {
            let piece = s.substring_char(i, i + 1);
            assert(piece@ =~= seq![c]);
            res.append(piece);
        }
        i = i + 1;
    }
    assert(s@.take(n as int) =~= s@);
    res
}

/// The file name an upload is sent under.
pub fn upload_file_name(name: &str) -> (res: String)
    ensures
        res@ == spec_upload_file_name(name@),
{
    let stripped = strip_crlf(name);
    if stripped.as_str().unicode_len() == 0 {
        "upload.bin".to_owned()
    } else {
        stripped
    }
}

/// Stripping keeps exactly the characters other than CR and LF, in order: it
/// leaves neither, and changes nothing in a name without them.
pub proof fn law_strip_crlf(s: Seq<char>)
    ensures
        forall|i: int| 0 <= i < spec_strip_crlf(s).len() ==>
            #[trigger] spec_strip_crlf(s)[i] != '\r' && spec_strip_crlf(s)[i] != '\n',
        spec_strip_crlf(s).len() <= s.len(),
        (forall|i: int| 0 <= i < s.len() ==> #[trigger] s[i] != '\r' && s[i] != '\n')
            ==> spec_strip_crlf(s) == s,
        spec_strip_crlf(s) == s.filter(|c: char| c != '\r' && c != '\n'),
    decreases s.len(),
{
    reveal(Seq::filter);
    if s.len() > 0 {
        law_strip_crlf(s.drop_last());
        if forall|i: int| 0 <= i < s.len() ==> #[trigger] s[i] != '\r' && s[i] != '\n' {
            assert forall|i: int| 0 <= i < s.drop_last().len() implies #[trigger] s.drop_last()[i] != '\r'
                && s.drop_last()[i] != '\n' by {
                assert(s.drop_last()[i] == s[i]);
            }
            assert(s.drop_last().push(s.last()) =~= s);
        }
    }
}

/// An upload's file name is the caller's name without its CR and LF characters, or
/// `upload.bin` when nothing else is left; it is never empty and holds neither.
pub proof fn law_upload_file_name(name: Seq<char>)
    ensures
        spec_upload_file_name(name).len() > 0,
        spec_strip_crlf(name).len() == 0 ==> spec_upload_file_name(name) == "upload.bin"@,
        spec_strip_crlf(name).len() > 0 ==> spec_upload_file_name(name) == name.filter(|c: char| c != '\r' && c != '\n'),
        forall|i: int| 0 <= i < spec_upload_file_name(name).len() ==>
            #[trigger] spec_upload_file_name(name)[i] != '\r' && spec_upload_file_name(name)[i] != '\n',
{
    law_strip_crlf(name);
    reveal_strlit("upload.bin");
}

// ---------------------------------------------------------------------------
// Object keys

/// Strict lexicographic order on character sequences (for the UTF-8 text of
/// `String`s this is the byte order that `String`'s `Ord` uses).
pub open spec fn key_lt(a: Seq<char>, b: Seq<char>) -> bool {
    exists|k: int|
        #![trigger a.take(k), b.take(k)]
        0 <= k <= a.len() && k <= b.len() && a.take(k) == b.take(k) && ((k < a.len() && k < b.len()
            && (a[k] as u32) < (b[k] as u32)) || (k == a.len() && k < b.len()))
}

/// Whether `a` sorts strictly before `b`.
pub fn key_less(a: &str, b: &str) -> (res: bool)
    ensures
        res == key_lt(a@, b@),
{
    let la = a.unicode_len();
    let lb = b.unicode_len();
    let mut k: usize = 0;
    while k < la && k < lb && a.get_char(k) == b.get_char(k)
        invariant
            la == a@.len(),
            lb == b@.len(),
            k <= la,
            k <= lb,
            a@.take(k as int) == b@.take(k as int),
        decreases la - k,
    {
        assert(a@.take(k + 1) =~= a@.take(k as int).push(a@[k as int]));
        assert(b@.take(k + 1) =~= b@.take(k as int).push(b@[k as int]));
        k = k + 1;
    }
    let res = if k < la && k < lb {
        (a.get_char(k) as u32) < (b.get_char(k) as u32)
    } else {
        k == la && k < lb
    };
    proof {
        if res {
            assert(a@.take(k as int) == b@.take(k as int));
        } else {
            if key_lt(a@, b@) {
                let w = choose|w: int|
                    #![trigger a@.take(w), b@.take(w)]
                    0 <= w <= a@.len() && w <= b@.len() && a@.take(w) == b@.take(w) && ((w < a@.len()
                        && w < b@.len() && (a@[w] as u32) < (b@[w] as u32)) || (w == a@.len() && w
                        < b@.len()));
                if w < k {
                    assert(a@[w] == a@.take(k as int)[w]);
                    assert(b@[w] == b@.take(k as int)[w]);
                } else if w > k {
                    assert(a@[k as int] == a@.take(w)[k as int]);
                    assert(b@[k as int] == b@.take(w)[k as int]);
                }
            }
        }
    }
    res
}

/// The key order is irreflexive and transitive.
pub proof fn law_key_order(a: Seq<char>, b: Seq<char>, c: Seq<char>)
    ensures
        !key_lt(a, a),
        key_lt(a, b) && key_lt(b, c) ==> key_lt(a, c),
        key_lt(a, b) ==> !key_lt(b, a),
{
    if key_lt(a, a) {
        let k = choose|k: int|
            #![trigger a.take(k), a.take(k)]
            0 <= k <= a.len() && k <= a.len() && a.take(k) == a.take(k) && ((k < a.len() && k < a.len()
                && (a[k] as u32) < (a[k] as u32)) || (k == a.len() && k < a.len()));
    }
    if key_lt(a, b) && key_lt(b, c) {
        let i = choose|k: int|
            #![trigger a.take(k), b.take(k)]
            0 <= k <= a.len() && k <= b.len() && a.take(k) == b.take(k) && ((k < a.len() && k < b.len()
                && (a[k] as u32) < (b[k] as u32)) || (k == a.len() && k < b.len()));
        let j = choose|k: int|
            #![trigger b.take(k), c.take(k)]
            0 <= k <= b.len() && k <= c.len() && b.take(k) == c.take(k) && ((k < b.len() && k < c.len()
                && (b[k] as u32) < (c[k] as u32)) || (k == b.len() && k < c.len()));
        let m = if i < j { i } else { j };
        assert forall|p: int| 0 <= p < m implies a[p] == c[p] by {
            assert(a[p] == a.take(i)[p]);
            assert(b[p] == b.take(i)[p]);
            assert(b[p] == b.take(j)[p]);
            assert(c[p] == c.take(j)[p]);
        }
        assert(a.take(m) =~= c.take(m));
        if i < j {
            assert(b[i] == b.take(j)[i]);
            assert(c[i] == c.take(j)[i]);
        } else if j < i {
            assert(a[j] == a.take(i)[j]);
            assert(b[j] == b.take(i)[j]);
        }
        assert(a.take(m) == c.take(m));
    }
    if key_lt(a, b) && key_lt(b, a) {
        let i = choose|k: int|
            #![trigger a.take(k), b.take(k)]
            0 <= k <= a.len() && k <= b.len() && a.take(k) == b.take(k) && ((k < a.len() && k < b.len()
                && (a[k] as u32) < (b[k] as u32)) || (k == a.len() && k < b.len()));
        let j = choose|k: int|
            #![trigger b.take(k), a.take(k)]
            0 <= k <= b.len() && k <= a.len() && b.take(k) == a.take(k) && ((k < b.len() && k < a.len()
                && (b[k] as u32) < (a[k] as u32)) || (k == b.len() && k < a.len()));
        if i < j {
            assert(a[i] == a.take(j)[i]);
            assert(b[i] == b.take(j)[i]);
        } else if j < i {
            assert(a[j] == a.take(i)[j]);
            assert(b[j] == b.take(i)[j]);
        }
    }
}

/// Two different keys are ordered one way or the other.
pub proof fn lemma_key_total(a: Seq<char>, b: Seq<char>)
    requires
        a != b,
    ensures
        key_lt(a, b) || key_lt(b, a),
{
    assert(a.take(0) =~= b.take(0));
    let k = common_prefix(a, b, 0);
    if k < a.len() && k < b.len() {
        let x = a[k];
        let y = b[k];
        assert(x != y);
        vstd::utf8::char_u32_cast(x, x as u32);
        vstd::utf8::char_u32_cast(y, y as u32);
        assert((x as u32) != (y as u32));
    } else if k == a.len() && k == b.len() {
        assert(a =~= a.take(k));
        assert(b =~= b.take(k));
    }
    assert(a.take(k) == b.take(k));
}

/// The length of the longest common prefix of `a` and `b`, found from `from` on.
proof fn common_prefix(a: Seq<char>, b: Seq<char>, from: int) -> (k: int)
    requires
        0 <= from <= a.len(),
        from <= b.len(),
        a.take(from) == b.take(from),
    ensures
        from <= k <= a.len(),
        k <= b.len(),
        a.take(k) == b.take(k),
        k < a.len() && k < b.len() ==> a[k] != b[k],
    decreases a.len() - from,
{
    if from < a.len() && from < b.len() && a[from] == b[from] {
        assert(a.take(from + 1) =~= a.take(from).push(a[from]));
        assert(b.take(from + 1) =~= b.take(from).push(b[from]));
        common_prefix(a, b, from + 1)
    } else {
        from
    }
}

} // verus!
