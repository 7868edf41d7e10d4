//! The cache of fetched pages: one entry per year and country.
use vstd::prelude::*;
use vstd::string::StringExecFns;

use crate::holiday::Holiday;
use crate::text::{decimal, hex6, push_decimal, push_hex6};

verus! {

/// How long, in seconds, a cached page is served before it is fetched again.
pub const CACHE_FADEOUT_SECS: i64 = 86400;

pub uninterp spec fn lower_of(s: Seq<char>) -> Seq<char>;

/// Relies on str::to_lowercase: the result depends on the characters alone.
#[verifier::external_body]
fn lowercase(s: &str) -> (r: String)
    ensures
        r@ == lower_of(s@),
{
    s.to_lowercase()
}

/// The form of a country code under which pages are requested and cached.
pub fn normalize_country(code: &str) -> (r: String)
    ensures
        r@ == lower_of(code@),
{
    lowercase(code)
}

/// One year's holidays for one country, as fetched at `fetched_at`.
#[derive(Debug)]
pub struct CacheEntry {
    /// Seconds since the Unix epoch, UTC.
    pub fetched_at: i64,
    pub year: i32,
    /// Always lower case.
    pub country_code: String,
    pub holidays: Vec<Holiday>,
}

/// A page fetched at `fetched_at` may still be served at `now`.
pub open spec fn is_fresh(fetched_at: int, now: int) -> bool {
    now <= fetched_at + CACHE_FADEOUT_SECS
}

/// `entry` may answer a request for `year` and `country_code` at `now`.
pub open spec fn serves(entry: CacheEntry, year: int, country_code: Seq<char>, now: int) -> bool {
    &&& entry.year == year
    &&& entry.country_code@ == country_code
    &&& is_fresh(entry.fetched_at as int, now)
}

/// Whether `entry` may answer a request for `year` and `country_code` at
/// `now` (seconds since the Unix epoch).
pub fn entry_serves(entry: &CacheEntry, year: i32, country_code: &str, now: i64) -> (r: bool)
    ensures
        r == serves(*entry, year as int, country_code@, now as int),
{
    entry.year == year && entry.country_code == String::from_str(country_code)
        && (now as i128) <= (entry.fetched_at as i128) + (CACHE_FADEOUT_SECS as i128)
}

pub open spec fn spec_cached_holidays(
    entry: Option<CacheEntry>,
    year: int,
    country_code: Seq<char>,
    now: int,
) -> Option<Vec<Holiday>> {
    match entry {
        Some(e) => if serves(e, year, country_code, now) { Some(e.holidays) } else { None },
        None => None,
    }
}

/// The holidays of a stored entry, if it may answer the request. An entry
/// that was missing or could not be read is passed as `None`.
pub fn cached_holidays(
    entry: Option<CacheEntry>,
    year: i32,
    country_code: &str,
    now: i64,
) -> (r: Option<Vec<Holiday>>)
    ensures
        r == spec_cached_holidays(entry, year as int, country_code@, now as int),
{
    match entry {
        Some(e) => {
            if entry_serves(&e, year, country_code, now) {
                Some(e.holidays)
            } else {
                None
            }
        },
        None => None,
    }
}

/// A stored entry, read back for its own year and country before a day has
/// passed since it was fetched, gives back exactly the holidays stored.
pub proof fn lemma_cache_round_trip(entry: CacheEntry, now: int)
    requires
        now <= entry.fetched_at + CACHE_FADEOUT_SECS,
    ensures
        spec_cached_holidays(Some(entry), entry.year as int, entry.country_code@, now)
            == Some(entry.holidays),
{
}

/// An entry fetched a day and a second ago is stale; one fetched 23 hours
/// ago is fresh.
pub proof fn lemma_freshness_boundary(now: int)
    ensures
        !is_fresh(now - CACHE_FADEOUT_SECS - 1, now),
        is_fresh(now - 23 * 3600, now),
{
}

/// A missing or unreadable entry, a stale one, and one for another year or
/// country all count as a miss, never as a failure.
pub proof fn lemma_unusable_entry_is_miss(
    entry: Option<CacheEntry>,
    year: int,
    country_code: Seq<char>,
    now: int,
)
    requires
        entry matches Some(e) ==> !serves(e, year, country_code, now),
    ensures
        spec_cached_holidays(entry, year, country_code, now) is None,
{
}

/// A character that stands for itself in a cache path.
pub open spec fn is_plain(c: char) -> bool {
    ('a' <= c && c <= 'z') || ('0' <= c && c <= '9') || c == '_' || c == '-'
}

/// How `c` is written in a cache path: itself where it is plain, otherwise
/// `%` and its code point in six hexadecimal digits.
pub open spec fn escape_char(c: char) -> Seq<char> {
    if is_plain(c) { seq![c] } else { seq!['%'] + hex6(c as int) }
}

pub open spec fn escaped(s: Seq<char>) -> Seq<char>
    decreases s.len(),
{
    if s.len() == 0 { Seq::empty() } else { escaped(s.drop_last()) + escape_char(s.last()) }
}

/// The directory name under which the pages of `country_code` are kept:
/// the code with every character but `a`-`z`, `0`-`9`, `_` and `-` escaped,
/// and `%` alone for the empty code.
pub open spec fn key_component(country_code: Seq<char>) -> Seq<char> {
    if country_code.len() == 0 { seq!['%'] } else { escaped(country_code) }
}

proof fn lemma_escaped_safe(s: Seq<char>)
    ensures
        escaped(s).len() >= s.len(),
        forall|i: int| 0 <= i < escaped(s).len() ==> {
            let c = #[trigger] escaped(s)[i];
            c != '/' && c != '.'
        },
    decreases s.len(),
{
    if s.len() > 0 {
        lemma_escaped_safe(s.drop_last());
        let a = escaped(s.drop_last());
        let b = escape_char(s.last());
        assert(escaped(s) == a + b);
        assert forall|i: int| 0 <= i < escaped(s).len() implies {
            let c = #[trigger] escaped(s)[i];
            c != '/' && c != '.'
        } by {
            if i >= a.len() {
                assert(escaped(s)[i] == b[i - a.len()]);
            } else {
                assert(escaped(s)[i] == a[i]);
            }
        }
    }
}

proof fn lemma_escaped_concat(a: Seq<char>, b: Seq<char>)
    ensures
        escaped(a + b) == escaped(a) + escaped(b),
    decreases b.len(),
{
    if b.len() == 0 {
        assert(a + b =~= a);
        assert(escaped(a) + escaped(b) =~= escaped(a));
    } else {
        assert((a + b).drop_last() =~= a + b.drop_last());
        assert((a + b).last() == b.last());
        lemma_escaped_concat(a, b.drop_last());
        assert(escaped(a + b) =~= escaped(a) + escaped(b));
    }
}

proof fn lemma_escaped_front(s: Seq<char>)
    requires
        s.len() > 0,
    ensures
        escaped(s) == escape_char(s[0]) + escaped(s.drop_first()),
{
    assert(s =~= seq![s[0]] + s.drop_first());
    lemma_escaped_concat(seq![s[0]], s.drop_first());
    let one = seq![s[0]];
    assert(one.drop_last() =~= Seq::<char>::empty());
    assert(escaped(one.drop_last()) == Seq::<char>::empty());
    assert(one.last() == s[0]);
    assert(escaped(one) == escaped(one.drop_last()) + escape_char(one.last()));
    assert(escaped(one) =~= escape_char(s[0]));
}

/// Two escaped characters followed by the rest agree only where the
/// characters and the rests do.
proof fn lemma_escape_char_prefix(x: char, y: char, rx: Seq<char>, ry: Seq<char>)
    requires
        escape_char(x) + rx == escape_char(y) + ry,
    ensures
        x == y,
        rx == ry,
{
    let e = escape_char(x) + rx;
    let ex = escape_char(x);
    let ey = escape_char(y);
    assert(e[0] == ex[0] && e[0] == ey[0]);
    assert(is_plain(x) == is_plain(y));
    if !is_plain(x) {
        assert(ex =~= e.subrange(0, 7));
        assert(ey =~= e.subrange(0, 7));
        assert(hex6(x as int) =~= ex.subrange(1, 7));
        assert(hex6(y as int) =~= ey.subrange(1, 7));
        lemma_hex6_injective(x as int, y as int);
        assert(x as u32 == y as u32);
    }
    assert(ex == ey);
    assert(rx =~= e.subrange(ex.len() as int, e.len() as int));
    assert(ry =~= e.subrange(ex.len() as int, e.len() as int));
}

proof fn lemma_escaped_injective(a: Seq<char>, b: Seq<char>)
    requires
        escaped(a) == escaped(b),
    ensures
        a == b,
    decreases a.len(),
{
    lemma_escaped_safe(a);
    lemma_escaped_safe(b);
    if a.len() == 0 {
        assert(b.len() == 0);
        assert(a =~= b);
    } else {
        assert(b.len() > 0);
        lemma_escaped_front(a);
        lemma_escaped_front(b);
        lemma_escape_char_prefix(a[0], b[0], escaped(a.drop_first()), escaped(b.drop_first()));
        lemma_escaped_injective(a.drop_first(), b.drop_first());
        assert(a =~= seq![a[0]] + a.drop_first());
        assert(b =~= seq![b[0]] + b.drop_first());
    }
}

/// Distinct country codes are kept in distinct directories.
pub proof fn lemma_key_component_injective(a: Seq<char>, b: Seq<char>)
    requires
        key_component(a) == key_component(b),
    ensures
        a == b,
{
    if a.len() > 0 && b.len() > 0 {
        lemma_escaped_injective(a, b);
    } else if a.len() > 0 {
        lemma_escaped_safe(a);
        assert(key_component(b)[0] == '%');
        lemma_escaped_front(a);
        if is_plain(a[0]) {
            assert(key_component(a)[0] == a[0]);
        } else {
            assert(key_component(a).len() >= 7);
        }
    } else if b.len() > 0 {
        lemma_escaped_safe(b);
        lemma_escaped_front(b);
        if is_plain(b[0]) {
            assert(key_component(b)[0] == b[0]);
        } else {
            assert(key_component(b).len() >= 7);
        }
    } else {
        assert(a =~= b);
    }
}

/// The directory of any country code is a single safe path component: not
/// empty, with no `/` and no `.` (so neither `.` nor `..`).
pub proof fn lemma_key_component_path_safe(country_code: Seq<char>)
    ensures
        key_component(country_code).len() > 0,
        forall|i: int| 0 <= i < key_component(country_code).len() ==> {
            let c = #[trigger] key_component(country_code)[i];
            c != '/' && c != '.'
        },
{
    if country_code.len() > 0 {
        lemma_escaped_safe(country_code);
    }
}

/// The directory name for `country_code`.
pub fn country_key(country_code: &str) -> (r: String)
    ensures
        r@ == key_component(country_code@),
{
    let n = country_code.unicode_len();
    if n == 0 {
        proof { reveal_strlit("%"); }
        return String::from_str("%");
    }
    let mut r = String::new();
    let mut i: usize = 0;
    while i < n
        invariant
            n == country_code@.len(),
            i <= n,
            r@ == escaped(country_code@.take(i as int)),
        decreases n - i,
    {
        let c = country_code.get_char(i);
        let plain = ('a' <= c && c <= 'z') || ('0' <= c && c <= '9') || c == '_' || c == '-';
        if plain {
            r.append(country_code.substring_char(i, i + 1));
        } else {
            proof { reveal_strlit("%"); }
            r.append("%");
            push_hex6(&mut r, c as u32);
        }
        i = i + 1;
        assert(country_code@.take(i as int).drop_last() =~= country_code@.take(i - 1));
        assert(r@ =~= escaped(country_code@.take(i as int)));
    }
    assert(country_code@.take(n as int) =~= country_code@);
    r
}

proof fn lemma_hex6_injective(n: int, m: int)
    requires 0 <= n < 0x1000000, 0 <= m < 0x1000000, hex6(n) == hex6(m),
    ensures n == m,
{
    assert(hex6(n)[0] == hex6(m)[0]);
    assert(hex6(n)[1] == hex6(m)[1]);
    assert(hex6(n)[2] == hex6(m)[2]);
    assert(hex6(n)[3] == hex6(m)[3]);
    assert(hex6(n)[4] == hex6(m)[4]);
    assert(hex6(n)[5] == hex6(m)[5]);
    assert(n / 0x100000 % 16 == m / 0x100000 % 16);
    assert(n / 0x10000 % 16 == m / 0x10000 % 16);
    assert(n / 0x1000 % 16 == m / 0x1000 % 16);
    assert(n / 0x100 % 16 == m / 0x100 % 16);
    assert(n / 0x10 % 16 == m / 0x10 % 16);
    assert(n % 16 == m % 16);
    assert(n == m) by (nonlinear_arith)
        requires
            0 <= n < 0x1000000, 0 <= m < 0x1000000,
            n / 0x100000 % 16 == m / 0x100000 % 16,
            n / 0x10000 % 16 == m / 0x10000 % 16,
            n / 0x1000 % 16 == m / 0x1000 % 16,
            n / 0x100 % 16 == m / 0x100 % 16,
            n / 0x10 % 16 == m / 0x10 % 16,
            n % 16 == m % 16;
}
/// The file name of a year's page.
pub open spec fn spec_file_name(year: int) -> Seq<char> {
    decimal(year) + ".json"@
}

/// `file` names, as path components below the user's cache directory, where
/// the page of `year` and `country_code` is stored.
pub open spec fn is_cache_file(file: Seq<String>, year: int, country_code: Seq<char>) -> bool {
    &&& file.len() == 3
    &&& file[0]@ == "holidate"@
    &&& file[1]@ == key_component(country_code)
    &&& file[2]@ == spec_file_name(year)
}

/// Where the page of `year` and `country_code` is stored; the country code
/// is escaped into a single safe directory name.
pub fn cache_file(year: i32, country_code: &str) -> (r: Vec<String>)
    ensures
        is_cache_file(r@, year as int, country_code@),
{
    let mut name = String::new();
    push_decimal(&mut name, year);
    name.append(".json");
    let mut r: Vec<String> = Vec::new();
    r.push(String::from_str("holidate"));
    r.push(country_key(country_code));
    r.push(name);
    r
}

} // verus!
