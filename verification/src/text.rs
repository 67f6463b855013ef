use vstd::prelude::*;

verus! {

broadcast use vstd::string::group_string_axioms;

/// The Unicode White_Space property: U+0009..=U+000D, U+0020, U+0085, U+00A0, U+1680,
/// U+2000..=U+200A, U+2028, U+2029, U+202F, U+205F and U+3000.
pub open spec fn unicode_whitespace(c: char) -> bool {
    let u = c as u32;
    ||| 0x9 <= u <= 0xD
    ||| u == 0x20
    ||| u == 0x85
    ||| u == 0xA0
    ||| u == 0x1680
    ||| 0x2000 <= u <= 0x200A
    ||| u == 0x2028
    ||| u == 0x2029
    ||| u == 0x202F
    ||| u == 0x205F
    ||| u == 0x3000
}

/// The Unicode general category Cc: U+0000..=U+001F and U+007F..=U+009F.
pub open spec fn is_control_char(c: char) -> bool {
    (c as u32) <= 0x1F || (0x7F <= (c as u32) && (c as u32) <= 0x9F)
}

/// Whether `c` has the Unicode White_Space property (what `char::is_whitespace` tells).
pub(crate) fn char_is_whitespace(c: char) -> (b: bool)
    ensures
        b == unicode_whitespace(c),
{
    let u = c as u32;
    (0x9 <= u && u <= 0xD) || u == 0x20 || u == 0x85 || u == 0xA0 || u == 0x1680
        || (0x2000 <= u && u <= 0x200A) || u == 0x2028 || u == 0x2029 || u == 0x202F
        || u == 0x205F || u == 0x3000
}

/// Whether `c` is in the Unicode general category Cc (what `char::is_control` tells).
pub(crate) fn char_is_control(c: char) -> (b: bool)
    ensures
        b == is_control_char(c),
{
    let u = c as u32;
    u <= 0x1F || (0x7F <= u && u <= 0x9F)
}

/// `String::push`: appends one character.
#[verifier::external_body]
pub(crate) fn push_char(s: &mut String, c: char)
    ensures
        final(s)@ == old(s)@.push(c),
{
    s.push(c)
}

/// The characters of `s`, in order.
pub fn char_vec(s: &str) -> (v: Vec<char>)
    ensures
        v@ == s@,
{
    let mut v: Vec<char> = Vec::new();
    for c in it: s.chars()
        invariant
            it.seq() == s@,
            v@ == s@.take(it.index()),
    {
        v.push(c);
    }
    v
}


/// The string whose characters are `v`.
pub fn string_of(v: &[char]) -> (s: String)
    ensures
        s@ == v@,
{
    let mut s = String::new();
    let mut i: usize = 0;
    while i < v.len()
        invariant
            i <= v@.len(),
            s@ == v@.take(i as int),
        decreases v@.len() - i,
    {
        push_char(&mut s, v[i]);
        assert(v@.take(i + 1) =~= v@.take(i as int).push(v@[i as int]));
        i = i + 1;
    }
    assert(v@.take(v@.len() as int) =~= v@);
    s
}

/// `s` without its leading whitespace.
pub open spec fn trim_start(s: Seq<char>) -> Seq<char>
    decreases s.len(),
{
    if s.len() > 0 && unicode_whitespace(s[0]) {
        trim_start(s.drop_first())
    } else {
        s
    }
}

/// `s` without its trailing whitespace.
pub open spec fn trim_end(s: Seq<char>) -> Seq<char>
    decreases s.len(),
{
    if s.len() > 0 && unicode_whitespace(s.last()) {
        trim_end(s.drop_last())
    } else {
        s
    }
}

/// `s` without leading and trailing whitespace, as `str::trim` gives it.
pub open spec fn trimmed(s: Seq<char>) -> Seq<char> {
    trim_end(trim_start(s))
}

proof fn lemma_trim_start_at(s: Seq<char>, i: int)
    requires
        0 <= i <= s.len(),
        forall|k: int| 0 <= k < i ==> unicode_whitespace(#[trigger] s[k]),
        i == s.len() || !unicode_whitespace(s[i]),
    ensures
        trim_start(s) == s.subrange(i, s.len() as int),
    decreases i,
{
    if i == 0 {
        assert(s.subrange(0, s.len() as int) =~= s);
    } else {
        let t = s.drop_first();
        assert forall|k: int| 0 <= k < i - 1 implies unicode_whitespace(#[trigger] t[k]) by {
            assert(t[k] == s[k + 1]);
        }
        lemma_trim_start_at(t, i - 1);
        assert(t.subrange(i - 1, t.len() as int) =~= s.subrange(i, s.len() as int));
    }
}

proof fn lemma_trim_end_at(s: Seq<char>, j: int)
    requires
        0 <= j <= s.len(),
        forall|k: int| j <= k < s.len() ==> unicode_whitespace(#[trigger] s[k]),
        j == 0 || !unicode_whitespace(s[j - 1]),
    ensures
        trim_end(s) == s.subrange(0, j),
    decreases s.len() - j,
{
    if j == s.len() {
        assert(s.subrange(0, j) =~= s);
    } else {
        let t = s.drop_last();
        assert(unicode_whitespace(s.last()));
        assert forall|k: int| j <= k < t.len() implies unicode_whitespace(#[trigger] t[k]) by {
            assert(t[k] == s[k]);
        }
        lemma_trim_end_at(t, j);
        assert(t.subrange(0, j) =~= s.subrange(0, j));
    }
}

/// The bounds `(start, end)` of the trimmed part of `v`.
pub fn trim_bounds(v: &[char]) -> (r: (usize, usize))
    ensures
        r.0 <= r.1 <= v@.len(),
        trimmed(v@) == v@.subrange(r.0 as int, r.1 as int),
{
    let mut i: usize = 0;
    while i < v.len() && char_is_whitespace(v[i])
        invariant
            i <= v@.len(),
            forall|k: int| 0 <= k < i ==> unicode_whitespace(#[trigger] v@[k]),
        decreases v@.len() - i,
    {
        i = i + 1;
    }
    proof {
        lemma_trim_start_at(v@, i as int);
    }
    let ghost t = v@.subrange(i as int, v@.len() as int);
    let mut j: usize = v.len();
    while j > i && char_is_whitespace(v[j - 1])
        invariant
            i <= j <= v@.len(),
            t == v@.subrange(i as int, v@.len() as int),
            forall|k: int| j <= k < v@.len() ==> unicode_whitespace(#[trigger] v@[k]),
        decreases j,
    {
        j = j - 1;
    }
    proof {
        assert forall|k: int| j - i <= k < t.len() implies unicode_whitespace(#[trigger] t[k]) by {
            assert(t[k] == v@[k + i]);
        }
        if j > i {
            assert(t[j - i - 1] == v@[j - 1]);
        }
        lemma_trim_end_at(t, j - i);
        assert(t.subrange(0, j - i) =~= v@.subrange(i as int, j as int));
    }
    (i, j)
}

/// `str::trim`, as the characters of the result.
pub fn trim_chars(s: &str) -> (r: Vec<char>)
    ensures
        r@ == trimmed(s@),
{
    let v = char_vec(s);
    let (i, j) = trim_bounds(v.as_slice());
    slice_range(v.as_slice(), i, j)
}

/// The characters `v[from..to]`.
pub fn slice_range(v: &[char], from: usize, to: usize) -> (r: Vec<char>)
    requires
        from <= to <= v@.len(),
    ensures
        r@ == v@.subrange(from as int, to as int),
{
    let mut r: Vec<char> = Vec::new();
    let mut k = from;
    while k < to
        invariant
            from <= k <= to <= v@.len(),
            r@ == v@.subrange(from as int, k as int),
        decreases to - k,
    {
        r.push(v[k]);
        assert(v@.subrange(from as int, k + 1) =~= v@.subrange(from as int, k as int).push(v@[k as int]));
        k = k + 1;
    }
    r
}

/// `str::trim`.
pub fn trim_string(s: &str) -> (r: String)
    ensures
        r@ == trimmed(s@),
{
    let v = trim_chars(s);
    string_of(v.as_slice())
}


/// Filtering a sequence that grew by one item.
pub proof fn lemma_filter_push<A>(s: Seq<A>, x: A, p: spec_fn(A) -> bool)
    ensures
        s.push(x).filter(p) == (if p(x) { s.filter(p).push(x) } else { s.filter(p) }),
{
    reveal(Seq::filter);
    assert(s.push(x).drop_last() =~= s);
}

/// The number of line breaks in `s`, where "\r\n" counts as one.
pub open spec fn line_breaks(s: Seq<char>) -> nat
    decreases s.len(),
{
    if s.len() == 0 {
        0
    } else if s[0] == '\n' {
        1 + line_breaks(s.drop_first())
    } else if s[0] == '\r' {
        if s.len() > 1 && s[1] == '\n' {
            1 + line_breaks(s.subrange(2, s.len() as int))
        } else {
            1 + line_breaks(s.drop_first())
        }
    } else {
        line_breaks(s.drop_first())
    }
}

/// The number of line breaks in `text`: "\n", "\r" and "\r\n" each count once.
pub fn count_line_breaks(text: &str) -> (count: usize)
    ensures
        count == line_breaks(text@),
{
    let v = char_vec(text);
    let n = v.len();
    let mut count: usize = 0;
    let mut i: usize = 0;
    proof {
        assert(v@.subrange(0, n as int) =~= v@);
    }
    while i < n
        invariant
            n == v@.len(),
            i <= n,
            v@ == text@,
            count <= i,
            count + line_breaks(v@.subrange(i as int, n as int)) == line_breaks(v@),
        decreases n - i,
    {
        let ghost t = v@.subrange(i as int, n as int);
        assert(t[0] == v@[i as int]);
        assert(t.drop_first() =~= v@.subrange(i + 1, n as int));
        if v[i] == '\n' {
            count = count + 1;
            i = i + 1;
        } else if v[i] == '\r' {
            count = count + 1;
            if i + 1 < n && v[i + 1] == '\n' {
                assert(t[1] == v@[i + 1]);
                assert(t.subrange(2, t.len() as int) =~= v@.subrange(i + 2, n as int));
                i = i + 2;
            } else {
                i = i + 1;
            }
        } else {
            i = i + 1;
        }
    }
    count
}

/// The characters kept from a display name: all but control characters.
pub open spec fn name_char(c: char) -> bool {
    !is_control_char(c)
}

/// At most the first `n` items of `s`.
pub open spec fn prefix_of_len<A>(s: Seq<A>, n: int) -> Seq<A> {
    if s.len() > n { s.take(n) } else { s }
}

/// A display name as it is stored: trimmed, cut to 64 characters, without control
/// characters, trimmed again; `fallback` when nothing is left.
pub open spec fn normalized_name(raw: Seq<char>, fallback: Seq<char>) -> Seq<char> {
    let t = trimmed(raw);
    if t.len() == 0 {
        fallback
    } else {
        let kept = trimmed(prefix_of_len(t, 64).filter(|c: char| name_char(c)));
        if kept.len() == 0 { fallback } else { kept }
    }
}

/// The characters of the first `limit` characters of `v` (all of `v` when shorter) that are
/// not control characters.
fn keep_name_chars(v: &Vec<char>, limit: usize) -> (out: Vec<char>)
    ensures
        out@ == prefix_of_len(v@, limit as int).filter(|c: char| name_char(c)),
{
    let n = if v.len() > limit { limit } else { v.len() };
    let ghost p = prefix_of_len(v@, limit as int);
    let ghost f = |c: char| name_char(c);
    let mut out: Vec<char> = Vec::new();
    let mut i: usize = 0;
    proof {
        assert(p.take(0) =~= Seq::<char>::empty());
        reveal(Seq::filter);
    }
    while i < n
        invariant
            n == p.len(),
            n <= v@.len(),
            p == prefix_of_len(v@, limit as int),
            f == (|c: char| name_char(c)),
            i <= n,
            out@ == p.take(i as int).filter(f),
        decreases n - i,
    {
        let c = v[i];
        assert(p[i as int] == c);
        assert(p.take(i + 1) =~= p.take(i as int).push(c));
        proof {
            lemma_filter_push(p.take(i as int), c, f);
        }
        if !char_is_control(c) {
            out.push(c);
        }
        i = i + 1;
    }
    assert(p.take(n as int) =~= p);
    out
}

fn normalize_name_with(raw: Option<&str>, fallback: &str) -> (name: String)
    ensures
        name@ == normalized_name(
            match raw {
                Some(r) => r@,
                None => Seq::<char>::empty(),
            },
            fallback@,
        ),
{
    let r: &str = match raw {
        Some(r) => r,
        None => "",
    };
    proof {
        reveal_strlit("");
    }
    let t = trim_chars(r);
    if t.len() == 0 {
        return fallback.to_owned();
    }
    let kept = keep_name_chars(&t, 64);
    let (i, j) = trim_bounds(kept.as_slice());
    if i == j {
        return fallback.to_owned();
    }
    let f = slice_range(kept.as_slice(), i, j);
    string_of(f.as_slice())
}

/// The nickname stored for a Google profile name.
pub fn normalize_google_name(raw: Option<&str>) -> (name: String)
    ensures
        name@ == normalized_name(
            match raw {
                Some(r) => r@,
                None => Seq::<char>::empty(),
            },
            "google_user"@,
        ),
{
    normalize_name_with(raw, "google_user")
}

/// The donor name stored for a donation.
pub fn normalize_donation_name(raw: Option<&str>) -> (name: String)
    ensures
        name@ == normalized_name(
            match raw {
                Some(r) => r@,
                None => Seq::<char>::empty(),
            },
            "donor"@,
        ),
{
    normalize_name_with(raw, "donor")
}

/// The characters kept from a donation message: all but control characters, except that
/// line feeds, carriage returns and tabs stay.
pub open spec fn body_char(c: char) -> bool {
    !is_control_char(c) || c == '\n' || c == '\r' || c == '\t'
}

/// A donation message as it is stored: its first 300 kept characters, trimmed.
pub open spec fn normalized_body(raw: Seq<char>) -> Seq<char> {
    trimmed(prefix_of_len(raw.filter(|c: char| body_char(c)), 300))
}

/// The message stored for a donation.
pub fn normalize_donation_body(raw: Option<&str>) -> (body: String)
    ensures
        body@ == normalized_body(
            match raw {
                Some(r) => r@,
                None => Seq::<char>::empty(),
            },
        ),
{
    let r: &str = match raw {
        Some(r) => r,
        None => "",
    };
    proof {
        reveal_strlit("");
    }
    let v = char_vec(r);
    let ghost f = |c: char| body_char(c);
    let mut out: Vec<char> = Vec::new();
    let mut i: usize = 0;
    proof {
        reveal(Seq::filter);
        assert(v@.take(0) =~= Seq::<char>::empty());
    }
    while i < v.len() && out.len() < 300
        invariant
            i <= v@.len(),
            f == (|c: char| body_char(c)),
            out@ == v@.take(i as int).filter(f),
            out@.len() <= 300,
        decreases v@.len() - i,
    {
        let c = v[i];
        assert(v@.take(i + 1) =~= v@.take(i as int).push(c));
        proof {
            lemma_filter_push(v@.take(i as int), c, f);
        }
        if !char_is_control(c) || c == '\n' || c == '\r' || c == '\t' {
            out.push(c);
        }
        i = i + 1;
    }
    proof {
        let full = v@.filter(f);
        if i == v@.len() {
            assert(v@.take(i as int) =~= v@);
        } else {
            // the first 300 kept characters are already taken: the rest only adds after them
            lemma_filter_take_prefix(v@, i as int, f);
            assert(full.take(300) =~= out@);
        }
        assert(prefix_of_len(full, 300) == out@);
    }
    let (a, b) = trim_bounds(out.as_slice());
    let res = slice_range(out.as_slice(), a, b);
    string_of(res.as_slice())
}

/// The filter of a prefix is a prefix of the filter.
proof fn lemma_filter_take_prefix<A>(s: Seq<A>, i: int, p: spec_fn(A) -> bool)
    requires
        0 <= i <= s.len(),
    ensures
        s.filter(p).len() >= s.take(i).filter(p).len(),
        s.filter(p).take(s.take(i).filter(p).len() as int) == s.take(i).filter(p),
{
    assert(s =~= s.take(i) + s.skip(i));
    Seq::filter_distributes_over_add(s.take(i), s.skip(i), p);
    let a = s.take(i).filter(p);
    let b = s.skip(i).filter(p);
    assert((a + b).take(a.len() as int) =~= a);
}


/// `c` with ASCII lowercase letters made uppercase.
pub open spec fn ascii_upper_char(c: char) -> char {
    if 'a' <= c && c <= 'z' { ((c as u32) - 32) as char } else { c }
}

/// `c` with ASCII uppercase letters made lowercase.
pub open spec fn ascii_lower_char(c: char) -> char {
    if 'A' <= c && c <= 'Z' { ((c as u32) + 32) as char } else { c }
}

/// `str::to_ascii_uppercase`.
pub fn to_ascii_uppercase(s: &str) -> (r: String)
    ensures
        r@ == s@.map_values(|c: char| ascii_upper_char(c)),
{
    let v = char_vec(s);
    let mut out: Vec<char> = Vec::new();
    let mut i: usize = 0;
    while i < v.len()
        invariant
            i <= v@.len(),
            out@ == v@.take(i as int).map_values(|c: char| ascii_upper_char(c)),
        decreases v@.len() - i,
    {
        let c = v[i];
        let u = if 'a' <= c && c <= 'z' { ((c as u32) - 32) as u8 as char } else { c };
        assert(u == ascii_upper_char(c)) by {
            if 'a' <= c && c <= 'z' {
                assert(((c as u32) - 32) as u8 as char == ((c as u32) - 32) as char);
            }
        }
        out.push(u);
        assert(v@.take(i + 1).map_values(|c: char| ascii_upper_char(c))
            =~= v@.take(i as int).map_values(|c: char| ascii_upper_char(c)).push(u));
        i = i + 1;
    }
    assert(v@.take(i as int) =~= v@);
    string_of(out.as_slice())
}

/// `str::to_ascii_lowercase`.
pub fn to_ascii_lowercase(s: &str) -> (r: String)
    ensures
        r@ == s@.map_values(|c: char| ascii_lower_char(c)),
{
    let v = char_vec(s);
    let mut out: Vec<char> = Vec::new();
    let mut i: usize = 0;
    while i < v.len()
        invariant
            i <= v@.len(),
            out@ == v@.take(i as int).map_values(|c: char| ascii_lower_char(c)),
        decreases v@.len() - i,
    {
        let c = v[i];
        let u = if 'A' <= c && c <= 'Z' { ((c as u32) + 32) as u8 as char } else { c };
        assert(u == ascii_lower_char(c)) by {
            if 'A' <= c && c <= 'Z' {
                assert(((c as u32) + 32) as u8 as char == ((c as u32) + 32) as char);
            }
        }
        out.push(u);
        assert(v@.take(i + 1).map_values(|c: char| ascii_lower_char(c))
            =~= v@.take(i as int).map_values(|c: char| ascii_lower_char(c)).push(u));
        i = i + 1;
    }
    assert(v@.take(i as int) =~= v@);
    string_of(out.as_slice())
}


proof fn lemma_trim_start_props(s: Seq<char>)
    ensures
        trim_start(s).len() <= s.len(),
        trim_start(s) == s.subrange(s.len() - trim_start(s).len(), s.len() as int),
        trim_start(s).len() > 0 ==> !unicode_whitespace(trim_start(s)[0]),
    decreases s.len(),
{
    if s.len() > 0 && unicode_whitespace(s[0]) {
        let t = s.drop_first();
        lemma_trim_start_props(t);
        assert(t.subrange(t.len() - trim_start(t).len(), t.len() as int)
            =~= s.subrange(s.len() - trim_start(t).len(), s.len() as int));
    } else {
        assert(s.subrange(0, s.len() as int) =~= s);
    }
}

proof fn lemma_trim_end_props(s: Seq<char>)
    ensures
        trim_end(s).len() <= s.len(),
        trim_end(s) == s.subrange(0, trim_end(s).len() as int),
        trim_end(s).len() > 0 ==> !unicode_whitespace(trim_end(s).last()),
    decreases s.len(),
{
    if s.len() > 0 && unicode_whitespace(s.last()) {
        let t = s.drop_last();
        lemma_trim_end_props(t);
        assert(t.subrange(0, trim_end(t).len() as int) =~= s.subrange(0, trim_end(t).len() as int));
    } else {
        assert(s.subrange(0, s.len() as int) =~= s);
    }
}

/// Trimming keeps a contiguous part of the text and leaves no whitespace at either end.
pub proof fn lemma_trimmed(s: Seq<char>)
    ensures
        trimmed(s).len() <= s.len(),
        exists|i: int| 0 <= i && i + trimmed(s).len() <= s.len() && trimmed(s) == #[trigger] s.subrange(i, i + trimmed(s).len()),
        trimmed(s).len() > 0 ==> !unicode_whitespace(trimmed(s)[0]) && !unicode_whitespace(trimmed(s).last()),
{
    let a = trim_start(s);
    lemma_trim_start_props(s);
    lemma_trim_end_props(a);
    let b = trim_end(a);
    let i = s.len() - a.len();
    assert(b == s.subrange(i, i + b.len())) by {
        assert(a.subrange(0, b.len() as int) =~= s.subrange(i, i + b.len()));
    }
    if b.len() > 0 {
        assert(b[0] == a[0]);
    }
    assert(trimmed(s) == s.subrange(i, i + trimmed(s).len()));
}

/// A stored display name is never empty, holds at most 64 characters, has no control
/// characters and no whitespace at either end (the fallbacks "google_user" and "donor"
/// meet all of this too).
pub proof fn lemma_normalized_name(raw: Seq<char>)
    ensures
        forall|fallback: Seq<char>| (fallback == "google_user"@ || fallback == "donor"@) ==> {
            let n = #[trigger] normalized_name(raw, fallback);
            &&& 1 <= n.len() <= 64
            &&& forall|i: int| 0 <= i < n.len() ==> name_char(#[trigger] n[i])
            &&& n == fallback || (!unicode_whitespace(n[0]) && !unicode_whitespace(n.last()))
        },
{
    reveal_strlit("google_user");
    reveal_strlit("donor");
    let t = trimmed(raw);
    if t.len() > 0 {
        let p = prefix_of_len(t, 64);
        let f = p.filter(|c: char| name_char(c));
        let k = trimmed(f);
        p.lemma_filter_len(|c: char| name_char(c));
        lemma_trimmed(f);
        if k.len() > 0 {
            let i = choose|i: int| 0 <= i && i + k.len() <= f.len() && k == #[trigger] f.subrange(i, i + k.len());
            assert forall|j: int| 0 <= j < k.len() implies name_char(#[trigger] k[j]) by {
                assert(k[j] == f[i + j]);
                p.lemma_filter_pred(|c: char| name_char(c), i + j);
            }
        }
    }
    assert forall|fallback: Seq<char>| (fallback == "google_user"@ || fallback == "donor"@) implies {
        let n = #[trigger] normalized_name(raw, fallback);
        &&& 1 <= n.len() <= 64
        &&& forall|i: int| 0 <= i < n.len() ==> name_char(#[trigger] n[i])
        &&& n == fallback || (!unicode_whitespace(n[0]) && !unicode_whitespace(n.last()))
    } by {
        let n = normalized_name(raw, fallback);
        if n == fallback {
            assert forall|i: int| 0 <= i < n.len() implies name_char(#[trigger] n[i]) by {
                assert(!is_control_char(n[i]));
            }
        }
    }
}

/// A stored donation message holds at most 300 characters, none of them a control
/// character other than a line feed, carriage return or tab.
pub proof fn lemma_normalized_body(raw: Seq<char>)
    ensures
        normalized_body(raw).len() <= 300,
        forall|i: int| 0 <= i < normalized_body(raw).len() ==> body_char(#[trigger] normalized_body(raw)[i]),
{
    let f = raw.filter(|c: char| body_char(c));
    let p = prefix_of_len(f, 300);
    let k = trimmed(p);
    lemma_trimmed(p);
    if k.len() > 0 {
        let i = choose|i: int| 0 <= i && i + k.len() <= p.len() && k == #[trigger] p.subrange(i, i + k.len());
        assert forall|j: int| 0 <= j < k.len() implies body_char(#[trigger] k[j]) by {
            assert(k[j] == p[i + j]);
            assert(p[i + j] == f[i + j]);
            raw.lemma_filter_pred(|c: char| body_char(c), i + j);
        }
    }
}

} // verus!
