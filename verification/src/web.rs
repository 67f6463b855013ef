use vstd::prelude::*;
use vstd::utf8::encode_utf8;
use crate::text::{char_vec, string_of, slice_range, trimmed, trim_bounds};

verus! {

broadcast use vstd::string::group_string_axioms;

/// The index of the first `c` in `s`; `s.len()` when there is none.
pub open spec fn index_of(s: Seq<char>, c: char) -> nat
    decreases s.len(),
{
    if s.len() == 0 {
        0
    } else if s[0] == c {
        0
    } else {
        1 + index_of(s.drop_first(), c)
    }
}

pub proof fn lemma_index_of(s: Seq<char>, c: char)
    ensures
        index_of(s, c) <= s.len(),
        forall|i: int| 0 <= i < index_of(s, c) ==> #[trigger] s[i] != c,
        index_of(s, c) < s.len() ==> s[index_of(s, c) as int] == c,
    decreases s.len(),
{
    if s.len() > 0 && s[0] != c {
        let t = s.drop_first();
        lemma_index_of(t, c);
        assert forall|i: int| 0 < i < index_of(s, c) implies #[trigger] s[i] != c by {
            assert(s[i] == t[i - 1]);
        }
    }
}

proof fn lemma_index_of_at(s: Seq<char>, c: char, k: int)
    requires
        0 <= k <= s.len(),
        forall|i: int| 0 <= i < k ==> #[trigger] s[i] != c,
        k < s.len() ==> s[k] == c,
    ensures
        index_of(s, c) == k,
    decreases k,
{
    if k > 0 {
        let t = s.drop_first();
        assert forall|i: int| 0 <= i < k - 1 implies #[trigger] t[i] != c by {
            assert(t[i] == s[i + 1]);
        }
        if k < s.len() {
            assert(t[k - 1] == s[k]);
        }
        lemma_index_of_at(t, c, k - 1);
    }
}

/// The index of the first `c` in `v[from..]`, or `v.len()`.
fn find_char(v: &[char], from: usize, c: char) -> (k: usize)
    requires
        from <= v@.len(),
    ensures
        k == from + index_of(v@.subrange(from as int, v@.len() as int), c),
        from <= k <= v@.len(),
{
    let mut k = from;
    while k < v.len() && v[k] != c
        invariant
            from <= k <= v@.len(),
            forall|i: int| from <= i < k ==> #[trigger] v@[i] != c,
        decreases v@.len() - k,
    {
        k = k + 1;
    }
    proof {
        let t = v@.subrange(from as int, v@.len() as int);
        assert forall|i: int| 0 <= i < k - from implies #[trigger] t[i] != c by {
            assert(t[i] == v@[from + i]);
        }
        if k < v@.len() {
            assert(t[k - from] == v@[k as int]);
        }
        lemma_index_of_at(t, c, k - from);
    }
    k
}

/// The place a login flow returns to: a path on this site ("/" unless `c` starts with a
/// single '/' and is at most 2048 bytes long), without its fragment.
pub open spec fn sanitized_return_to(c: Seq<char>) -> Seq<char> {
    if (encode_utf8(c).len() as usize) > 2048 || !(c.len() > 0 && c[0] == '/') || (c.len() > 1 && c[1] == '/') {
        seq!['/']
    } else {
        let p = c.take(index_of(c, '#') as int);
        if p.len() == 0 { seq!['/'] } else { p }
    }
}

/// The return path of a login flow, from the client's optional `return_to`.
pub fn sanitize_return_to(raw: Option<&str>) -> (r: String)
    ensures
        r@ == sanitized_return_to(
            match raw {
                Some(s) => s@,
                None => seq!['/'],
            },
        ),
{
    proof {
        reveal_strlit("/");
    }
    let candidate: &str = match raw {
        Some(s) => s,
        None => "/",
    };
    assert(candidate@ == match raw {
        Some(s) => s@,
        None => seq!['/'],
    });
    if candidate.len() > 2048 {
        return "/".to_owned();
    }
    let v = char_vec(candidate);
    if !(v.len() > 0 && v[0] == '/') || (v.len() > 1 && v[1] == '/') {
        return "/".to_owned();
    }
    let k = find_char(v.as_slice(), 0, '#');
    assert(v@.subrange(0, v@.len() as int) =~= v@);
    if k == 0 {
        return "/".to_owned();
    }
    let p = slice_range(v.as_slice(), 0, k);
    string_of(p.as_slice())
}

proof fn lemma_encode_take_len(s: Seq<char>, k: int)
    requires
        0 <= k <= s.len(),
    ensures
        encode_utf8(s.take(k)).len() <= encode_utf8(s).len(),
    decreases s.len(),
{
    if k > 0 {
        let t = s.take(k);
        assert(t.drop_first() =~= s.drop_first().take(k - 1));
        lemma_encode_take_len(s.drop_first(), k - 1);
    } else {
        assert(s.take(k) =~= Seq::<char>::empty());
    }
}

/// A sanitized return path is a path on this site and never another site's address: it
/// starts with '/', not with "//", holds no '#' and at most 2048 bytes; and sanitizing it
/// again leaves it as it is, so a redirect that sanitizes what a login flow stored goes
/// where the flow said.
pub proof fn lemma_sanitize_idempotent(c: Seq<char>)
    requires
        encode_utf8(c).len() <= usize::MAX,
    ensures
        sanitized_return_to(sanitized_return_to(c)) == sanitized_return_to(c),
        sanitized_return_to(c).len() > 0,
        sanitized_return_to(c)[0] == '/',
        !(sanitized_return_to(c).len() > 1 && sanitized_return_to(c)[1] == '/'),
        !sanitized_return_to(c).contains('#'),
        encode_utf8(sanitized_return_to(c)).len() <= 2048,
{
    let slash = seq!['/'];
    assert(encode_utf8(slash.drop_first()) =~= Seq::<u8>::empty()) by {
        assert(slash.drop_first() =~= Seq::<char>::empty());
    }
    assert(encode_utf8(slash).len() <= 4);
    lemma_index_of_at(slash, '#', 1);
    assert(slash.take(1) =~= slash);
    let r = sanitized_return_to(c);
    if r != slash {
        lemma_index_of(c, '#');
        let k = index_of(c, '#') as int;
        assert(r == c.take(k));
        lemma_encode_take_len(c, k);
        assert forall|i: int| 0 <= i < r.len() implies #[trigger] r[i] != '#' by {
            assert(r[i] == c[i]);
        }
        lemma_index_of_at(r, '#', r.len() as int);
        assert(r.take(r.len() as int) =~= r);
        if r.len() > 1 {
            assert(r[1] == c[1]);
        }
        assert(r[0] == c[0]);
    }
}


/// The non-empty '/'-separated segments of a path.
pub open spec fn segments(s: Seq<char>) -> Seq<Seq<char>>
    decreases s.len(),
{
    if s.len() == 0 {
        Seq::empty()
    } else if s[0] == '/' {
        segments(s.drop_first())
    } else {
        let k = index_of(s, '/') as int;
        proof {
            lemma_index_of(s, '/');
        }
        seq![s.take(k)] + segments(s.skip(k))
    }
}

/// A character allowed in a session code.
pub open spec fn code_char(c: char) -> bool {
    ('0' <= c && c <= '9') || ('a' <= c && c <= 'z') || ('A' <= c && c <= 'Z') || c == '_' || c == '-'
}

/// The session code that a return path names: the second segment of a path whose first
/// segment is "s", when the code holds only ASCII letters, digits, '_' and '-'.
pub open spec fn return_to_session_code(return_to: Seq<char>) -> Option<Seq<char>> {
    let path = return_to.take(index_of(return_to, '?') as int);
    let segs = segments(path);
    if segs.len() >= 2 && segs[0] == seq!['s'] && (forall|i: int| 0 <= i < segs[1].len() ==> code_char(#[trigger] segs[1][i])) {
        Some(segs[1])
    } else {
        None
    }
}

/// The first segment of `v[from..]`: its bounds, or `start == v.len()` when none is left.
fn next_segment(v: &[char], from: usize) -> (r: (usize, usize))
    requires
        from <= v@.len(),
    ensures
        from <= r.0 <= r.1 <= v@.len(),
        segments(v@.subrange(from as int, v@.len() as int)) == if r.0 == v@.len() {
            Seq::<Seq<char>>::empty()
        } else {
            seq![v@.subrange(r.0 as int, r.1 as int)] + segments(v@.subrange(r.1 as int, v@.len() as int))
        },
        r.0 < v@.len() ==> r.0 < r.1,
{
    let mut i = from;
    while i < v.len() && v[i] == '/'
        invariant
            from <= i <= v@.len(),
            segments(v@.subrange(from as int, v@.len() as int)) == segments(v@.subrange(i as int, v@.len() as int)),
        decreases v@.len() - i,
    {
        assert(v@.subrange(i as int, v@.len() as int).drop_first() =~= v@.subrange(i + 1, v@.len() as int));
        i = i + 1;
    }
    if i == v.len() {
        assert(v@.subrange(i as int, v@.len() as int) =~= Seq::<char>::empty());
        return (i, i);
    }
    let j = find_char(v, i, '/');
    proof {
        let t = v@.subrange(i as int, v@.len() as int);
        assert(t[0] == v@[i as int]);
        assert(t.take((j - i) as int) =~= v@.subrange(i as int, j as int));
        assert(t.skip((j - i) as int) =~= v@.subrange(j as int, v@.len() as int));
        lemma_index_of(t, '/');
    }
    (i, j)
}

/// The session code named by a return path, as `session_code_from_return_to` gives it.
pub fn session_code_from_return_to(return_to: &str) -> (r: Option<String>)
    ensures
        match r {
            Some(code) => return_to_session_code(return_to@) == Some(code@),
            None => return_to_session_code(return_to@) is None,
        },
{
    let all = char_vec(return_to);
    let q = find_char(all.as_slice(), 0, '?');
    assert(all@.subrange(0, all@.len() as int) =~= all@);
    let v = slice_range(all.as_slice(), 0, q);
    assert(v@.subrange(0, v@.len() as int) =~= v@);
    let (a0, b0) = next_segment(v.as_slice(), 0);
    if a0 == v.len() {
        return None;
    }
    // the first segment must be exactly "s"
    if !(b0 == a0 + 1 && v[a0] == 's') {
        proof {
            let s0 = v@.subrange(a0 as int, b0 as int);
            if s0 == seq!['s'] {
                assert(s0.len() == 1 && s0[0] == 's');
                assert(v@[a0 as int] == s0[0]);
            }
        }
        return None;
    }
    assert(v@.subrange(a0 as int, b0 as int) =~= seq!['s']);
    let (a1, b1) = next_segment(v.as_slice(), b0);
    if a1 == v.len() {
        return None;
    }
    let ghost code = v@.subrange(a1 as int, b1 as int);
    proof {
        let segs = segments(v@);
        assert(v@.subrange(b0 as int, v@.len() as int) == v@.subrange(b0 as int, v@.len() as int));
        assert(segs[0] == seq!['s']);
        assert(segs.len() >= 2);
        assert(segs[1] == code);
        assert(return_to@.take(index_of(return_to@, '?') as int) =~= v@);
    }
    let ghost expected = return_to_session_code(return_to@);
    assert(expected == if (forall|i: int| 0 <= i < code.len() ==> code_char(#[trigger] code[i])) {
        Some(code)
    } else {
        None
    });
    let mut k = a1;
    while k < b1
        invariant
            a1 <= k <= b1 <= v@.len(),
            code == v@.subrange(a1 as int, b1 as int),
            expected == return_to_session_code(return_to@),
            expected == if (forall|i: int| 0 <= i < code.len() ==> code_char(#[trigger] code[i])) {
                Some(code)
            } else {
                None
            },
            forall|i: int| 0 <= i < k - a1 ==> code_char(#[trigger] code[i]),
        decreases b1 - k,
    {
        let c = v[k];
        assert(code[k - a1] == c);
        if !(('0' <= c && c <= '9') || ('a' <= c && c <= 'z') || ('A' <= c && c <= 'Z') || c == '_' || c == '-') {
            return None;
        }
        k = k + 1;
    }
    let out = slice_range(v.as_slice(), a1, b1);
    Some(string_of(out.as_slice()))
}

/// `s` without the trailing `c` characters.
pub open spec fn strip_trailing(s: Seq<char>, c: char) -> Seq<char>
    decreases s.len(),
{
    if s.len() > 0 && s.last() == c {
        strip_trailing(s.drop_last(), c)
    } else {
        s
    }
}

pub(crate) proof fn lemma_strip_trailing_at(s: Seq<char>, c: char, j: int)
    requires
        0 <= j <= s.len(),
        forall|k: int| j <= k < s.len() ==> #[trigger] s[k] == c,
        j == 0 || s[j - 1] != c,
    ensures
        strip_trailing(s, c) == s.take(j),
    decreases s.len() - j,
{
    if j == s.len() {
        assert(s.take(j) =~= s);
    } else {
        let t = s.drop_last();
        assert forall|k: int| j <= k < t.len() implies #[trigger] t[k] == c by {
            assert(t[k] == s[k]);
        }
        lemma_strip_trailing_at(t, c, j);
        assert(t.take(j) =~= s.take(j));
    }
}

/// The public page of a session: the base URL without trailing slashes, then "/s/" and
/// the session code.
pub fn build_public_session_url(base: &str, code: &str) -> (url: String)
    ensures
        url@ == strip_trailing(base@, '/') + seq!['/', 's', '/'] + code@,
{
    let v = char_vec(base);
    let mut j = v.len();
    while j > 0 && v[j - 1] == '/'
        invariant
            j <= v@.len(),
            forall|k: int| j <= k < v@.len() ==> #[trigger] v@[k] == '/',
        decreases j,
    {
        j = j - 1;
    }
    proof {
        lemma_strip_trailing_at(v@, '/', j as int);
        reveal_strlit("/s/");
    }
    let head = slice_range(v.as_slice(), 0, j);
    let mut url = string_of(head.as_slice());
    url.append("/s/");
    url.append(code);
    url
}

/// The target of a redirect back to a return path, carrying `key` (and `value`) in the
/// URL fragment: "{path}#{key}={value}", or "{path}#auth_error={key}" without a value.
pub fn fragment_redirect_target(return_to: &str, key: &str, value: Option<&str>) -> (t: String)
    ensures
        t@ == match value {
            Some(v) => sanitized_return_to(return_to@) + seq!['#'] + key@ + seq!['='] + v@,
            None => sanitized_return_to(return_to@) + "#auth_error="@ + key@,
        },
{
    proof {
        reveal_strlit("#");
        reveal_strlit("=");
    }
    let mut t = sanitize_return_to(Some(return_to));
    match value {
        Some(v) => {
            t.append("#");
            t.append(key);
            t.append("=");
            t.append(v);
        },
        None => {
            t.append("#auth_error=");
            t.append(key);
        },
    }
    t
}

/// `p` is a prefix of `s`.
pub open spec fn has_prefix(s: Seq<char>, p: Seq<char>) -> bool {
    p.len() <= s.len() && s.take(p.len() as int) == p
}

pub(crate) fn starts_with_chars(v: &[char], p: &[char]) -> (b: bool)
    ensures
        b == has_prefix(v@, p@),
{
    if p.len() > v.len() {
        return false;
    }
    let mut i: usize = 0;
    while i < p.len()
        invariant
            p@.len() <= v@.len(),
            i <= p@.len(),
            forall|k: int| 0 <= k < i ==> v@[k] == p@[k],
        decreases p@.len() - i,
    {
        if v[i] != p[i] {
            assert(v@.take(p@.len() as int)[i as int] != p@[i as int]);
            return false;
        }
        i = i + 1;
    }
    assert(v@.take(p@.len() as int) =~= p@);
    true
}

/// The token of an `Authorization` header value: what follows "Bearer " (or "bearer "),
/// when it is not empty.
pub open spec fn bearer_token(h: Seq<char>) -> Option<Seq<char>> {
    let rest = if has_prefix(h, "Bearer "@) {
        Some(h.skip(7))
    } else if has_prefix(h, "bearer "@) {
        Some(h.skip(7))
    } else {
        None
    };
    match rest {
        Some(t) => if t.len() == 0 { None } else { Some(t) },
        None => None,
    }
}

/// The bearer token of an `Authorization` header value.
pub fn extract_bearer_token(header_value: &str) -> (r: Option<String>)
    ensures
        match r {
            Some(t) => bearer_token(header_value@) == Some(t@),
            None => bearer_token(header_value@) is None,
        },
{
    proof {
        reveal_strlit("Bearer ");
        reveal_strlit("bearer ");
    }
    let v = char_vec(header_value);
    let upper = char_vec("Bearer ");
    let lower = char_vec("bearer ");
    if !starts_with_chars(v.as_slice(), upper.as_slice()) && !starts_with_chars(v.as_slice(), lower.as_slice()) {
        return None;
    }
    if v.len() == 7 {
        return None;
    }
    let rest = slice_range(v.as_slice(), 7, v.len());
    Some(string_of(rest.as_slice()))
}

/// The pieces of `s` between commas, empty pieces included.
pub open spec fn comma_pieces(s: Seq<char>) -> Seq<Seq<char>>
    decreases s.len(),
{
    let k = index_of(s, ',') as int;
    proof {
        lemma_index_of(s, ',');
    }
    if k >= s.len() {
        seq![s]
    } else {
        seq![s.take(k)] + comma_pieces(s.skip(k + 1))
    }
}

/// The last of `pieces` that is not empty once trimmed, trimmed.
pub open spec fn last_nonblank(pieces: Seq<Seq<char>>) -> Option<Seq<char>>
    decreases pieces.len(),
{
    if pieces.len() == 0 {
        None
    } else if trimmed(pieces.last()).len() > 0 {
        Some(trimmed(pieces.last()))
    } else {
        last_nonblank(pieces.drop_last())
    }
}

/// The client address named last in an `X-Forwarded-For` header value: the last
/// comma-separated entry that is not blank, trimmed.
pub fn forwarded_for_last_entry(header_value: &str) -> (r: Option<String>)
    ensures
        match r {
            Some(t) => last_nonblank(comma_pieces(header_value@)) == Some(t@),
            None => last_nonblank(comma_pieces(header_value@)) is None,
        },
{
    let v = char_vec(header_value);
    let n = v.len();
    let mut start: usize = 0;
    let mut best: Option<Vec<char>> = None;
    let ghost mut done: Seq<Seq<char>> = Seq::empty();
    proof {
        assert(v@.subrange(0, n as int) =~= v@);
    }
    loop
        invariant_except_break
            start <= n,
            comma_pieces(v@) == done + comma_pieces(v@.subrange(start as int, n as int)),
        invariant
            n == v@.len(),
            match best {
                Some(b) => last_nonblank(done) == Some(b@),
                None => last_nonblank(done) is None,
            },
        ensures
            comma_pieces(v@) == done,
        decreases n - start,
    {
        let k = find_char(v.as_slice(), start, ',');
        let piece = slice_range(v.as_slice(), start, k);
        let (a, b) = trim_bounds(piece.as_slice());
        let ghost rest = v@.subrange(start as int, n as int);
        proof {
            lemma_index_of(rest, ',');
            assert(rest.take((k - start) as int) =~= piece@);
            let d2 = done.push(piece@);
            assert(d2.drop_last() =~= done);
            assert(d2.last() == piece@);
        }
        if a < b {
            best = Some(slice_range(piece.as_slice(), a, b));
        }
        if k == n {
            proof {
                assert(comma_pieces(rest) == seq![rest]);
                assert(rest =~= piece@);
                assert(comma_pieces(v@) =~= done.push(piece@));
                done = done.push(piece@);
            }
            break;
        }
        proof {
            assert(rest.skip((k - start) + 1) =~= v@.subrange(k + 1, n as int));
            assert(comma_pieces(rest) == seq![piece@] + comma_pieces(v@.subrange(k + 1, n as int)));
            assert(done + (seq![piece@] + comma_pieces(v@.subrange(k + 1, n as int)))
                =~= done.push(piece@) + comma_pieces(v@.subrange(k + 1, n as int)));
            done = done.push(piece@);
        }
        start = k + 1;
    }
    match best {
        Some(b) => Some(string_of(b.as_slice())),
        None => None,
    }
}


/// A session code survives the trip through its public page: the return path "/s/{code}"
/// of a code made of letters, digits, '_' and '-' names that code again.
pub proof fn lemma_session_code_round_trip(code: Seq<char>)
    requires
        code.len() > 0,
        forall|i: int| 0 <= i < code.len() ==> code_char(#[trigger] code[i]),
    ensures
        return_to_session_code(seq!['/', 's', '/'] + code) == Some(code),
{
    let p = seq!['/', 's', '/'] + code;
    assert forall|i: int| 0 <= i < p.len() implies #[trigger] p[i] != '?' by {
        if i >= 3 {
            assert(p[i] == code[i - 3]);
            assert(code_char(code[i - 3]));
        }
    }
    lemma_index_of_at(p, '?', p.len() as int);
    assert(p.take(p.len() as int) =~= p);
    // the code has no slash
    assert forall|i: int| 0 <= i < code.len() implies #[trigger] code[i] != '/' by {
        assert(code_char(code[i]));
    }
    lemma_index_of_at(code, '/', code.len() as int);
    assert(code.take(code.len() as int) =~= code);
    assert(code.skip(code.len() as int) =~= Seq::<char>::empty());
    assert(segments(code) == seq![code] + segments(Seq::<char>::empty()));
    assert(segments(code) =~= seq![code]);
    let q = seq!['/'] + code;
    assert(q.drop_first() =~= code);
    assert(segments(q) == segments(code));
    let r = seq!['s', '/'] + code;
    lemma_index_of_at(r, '/', 1);
    assert(r.take(1) =~= seq!['s']);
    assert(r.skip(1) =~= q);
    assert(segments(r) == seq![seq!['s']] + segments(q));
    assert(p.drop_first() =~= r);
    assert(segments(p) == segments(r));
    assert(segments(p) =~= seq![seq!['s'], code]);
}

} // verus!
