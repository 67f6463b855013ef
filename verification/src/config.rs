use vstd::prelude::*;
use crate::text::{char_vec, ascii_lower_char, to_ascii_lowercase};
use crate::web::{has_prefix, starts_with_chars, strip_trailing};

verus! {

broadcast use vstd::string::group_string_axioms;

/// `p` occurs in `s`.
pub open spec fn contains_text(s: Seq<char>, p: Seq<char>) -> bool {
    exists|i: int| 0 <= i && i + p.len() <= s.len() && #[trigger] s.subrange(i, i + p.len()) == p
}

fn matches_at(v: &Vec<char>, p: &Vec<char>, at: usize) -> (b: bool)
    requires
        at + p@.len() <= v@.len(),
    ensures
        b == (v@.subrange(at as int, at + p@.len()) == p@),
{
    let n = v.len();
    let mut k: usize = 0;
    while k < p.len()
        invariant
            n == v@.len(),
            at + p@.len() <= v@.len(),
            k <= p@.len(),
            forall|j: int| 0 <= j < k ==> v@[at + j] == p@[j],
        decreases p@.len() - k,
    {
        if v[at + k] != p[k] {
            assert(v@.subrange(at as int, at + p@.len())[k as int] != p@[k as int]);
            return false;
        }
        k = k + 1;
    }
    assert(v@.subrange(at as int, at + p@.len()) =~= p@);
    true
}

/// `str::contains` with a string pattern.
pub fn contains_str(s: &str, pattern: &str) -> (b: bool)
    ensures
        b == contains_text(s@, pattern@),
{
    let v = char_vec(s);
    let p = char_vec(pattern);
    if p.len() > v.len() {
        assert(!contains_text(s@, pattern@));
        return false;
    }
    let n = v.len();
    let last = n - p.len();
    let mut at: usize = 0;
    loop
        invariant
            n == v@.len(),
            last + p@.len() == v@.len(),
            at <= last,
            v@ == s@,
            p@ == pattern@,
            forall|j: int| 0 <= j < at ==> #[trigger] v@.subrange(j, j + p@.len()) != p@,
        decreases last - at,
    {
        if matches_at(&v, &p, at) {
            return true;
        }
        if at == last {
            return false;
        }
        at = at + 1;
    }
}

/// The SQLite result code of a busy database.
pub open spec fn is_busy_code(code: Option<Seq<char>>) -> bool {
    code == Some("5"@)
}

/// Whether a database error means the database was busy: its code is "5", or its
/// message says the database is locked or busy.
pub fn is_sqlite_busy_error(code: Option<&str>, message: &str) -> (b: bool)
    ensures
        b == (match code { Some(c) => c@ == "5"@, None => false } || contains_text(message@, "database is locked"@)
            || contains_text(message@, "database is busy"@)),
{
    proof {
        reveal_strlit("5");
    }
    let busy_code = match code {
        Some(c) => {
            let v = char_vec(c);
            v.len() == 1 && v[0] == '5'
        },
        None => false,
    };
    proof {
        if let Some(c) = code {
            if c@.len() == 1 && c@[0] == '5' {
                assert(c@ =~= "5"@);
            }
        }
    }
    busy_code || contains_str(message, "database is locked") || contains_str(message, "database is busy")
}

/// How many times a busy write is retried.
pub const SQLITE_BUSY_RETRY_ATTEMPTS: usize = 3;

/// The pause before the first retry of a busy write, in milliseconds; it grows with each
/// retry.
pub const SQLITE_BUSY_RETRY_DELAY_MS: u64 = 250;

/// After a failed write attempt (`attempt` retries made so far): the retry to make and the
/// milliseconds to wait first, or `None` to give up.
pub fn busy_retry(attempt: usize, busy: bool) -> (r: Option<(usize, u64)>)
    ensures
        r == if attempt < SQLITE_BUSY_RETRY_ATTEMPTS && busy {
            Some(((attempt + 1) as usize, (SQLITE_BUSY_RETRY_DELAY_MS * (attempt + 1)) as u64))
        } else {
            None::<(usize, u64)>
        },
{
    if attempt < SQLITE_BUSY_RETRY_ATTEMPTS && busy {
        let next = attempt + 1;
        Some((next, SQLITE_BUSY_RETRY_DELAY_MS * (next as u64)))
    } else {
        None
    }
}

/// The database URL actually opened: a SQLite URL that names no mode is opened in
/// read-write-create mode.
pub open spec fn database_url_with_mode(url: Seq<char>) -> Seq<char> {
    if has_prefix(url, "sqlite://"@) && !contains_text(url, "mode="@) {
        if url.contains('?') { url + "&mode=rwc"@ } else { url + "?mode=rwc"@ }
    } else {
        url
    }
}

pub fn database_url(url: &str) -> (r: String)
    ensures
        r@ == database_url_with_mode(url@),
{
    proof {
        reveal_strlit("sqlite://");
        reveal_strlit("?");
    }
    let v = char_vec(url);
    let scheme = char_vec("sqlite://");
    let mut r = url.to_owned();
    if starts_with_chars(v.as_slice(), scheme.as_slice()) && !contains_str(url, "mode=") {
        if contains_str(url, "?") {
            proof {
                let i = choose|i: int| 0 <= i && i + 1 <= url@.len() && #[trigger] url@.subrange(i, i + 1) == "?"@;
                assert(url@[i] == url@.subrange(i, i + 1)[0]);
            }
            r.append("&mode=rwc");
        } else {
            proof {
                if url@.contains('?') {
                    let i = choose|i: int| 0 <= i < url@.len() && url@[i] == '?';
                    assert(url@.subrange(i, i + 1) =~= "?"@);
                }
            }
            r.append("?mode=rwc");
        }
    }
    r
}

/// Whether a setting spells "on": "1", "true", "yes" or "on", in any ASCII case.
pub open spec fn flag_on(v: Seq<char>) -> bool {
    let l = v.map_values(|c: char| ascii_lower_char(c));
    l == "1"@ || l == "true"@ || l == "yes"@ || l == "on"@
}

fn chars_eq(a: &Vec<char>, b: &str) -> (r: bool)
    ensures
        r == (a@ == b@),
{
    let bv = char_vec(b);
    if a.len() != bv.len() {
        return false;
    }
    let mut i: usize = 0;
    while i < a.len()
        invariant
            a@.len() == bv@.len(),
            bv@ == b@,
            i <= a@.len(),
            forall|k: int| 0 <= k < i ==> a@[k] == bv@[k],
        decreases a@.len() - i,
    {
        if a[i] != bv[i] {
            assert(a@[i as int] != bv@[i as int]);
            return false;
        }
        i = i + 1;
    }
    assert(a@ =~= bv@);
    true
}

/// Reads a boolean setting such as the one that resets the database at start.
pub fn parse_flag(v: &str) -> (b: bool)
    ensures
        b == flag_on(v@),
{
    let l = to_ascii_lowercase(v);
    let c = char_vec(l.as_str());
    chars_eq(&c, "1") || chars_eq(&c, "true") || chars_eq(&c, "yes") || chars_eq(&c, "on")
}

/// Where the donation service sends its OAuth answers when no address is configured: the
/// public base URL without trailing slashes, then "/api/da/oauth/callback".
pub fn default_da_redirect_uri(public_base_url: &str) -> (r: String)
    ensures
        r@ == strip_trailing(public_base_url@, '/') + "/api/da/oauth/callback"@,
{
    let v = char_vec(public_base_url);
    let mut j = v.len();
    while j > 0 && v[j - 1] == '/'
        invariant
            j <= v@.len(),
            forall|k: int| j <= k < v@.len() ==> #[trigger] v@[k] == '/',
        decreases j,
    {
        j = j - 1;
    }
    proof {
        crate::web::lemma_strip_trailing_at(v@, '/', j as int);
    }
    let head = crate::text::slice_range(v.as_slice(), 0, j);
    let mut r = crate::text::string_of(head.as_slice());
    r.append("/api/da/oauth/callback");
    r
}

} // verus!
