//! Paging through successive years until enough holidays are gathered.
//!
//! A [`Lookup`] decides; its caller acts. Each [`Step`] names the one thing
//! to do next (read a cache file, send a request, decode a body, write a
//! cache file), and the caller reports what came of it as an [`Event`].
use vstd::prelude::*;

use crate::cache::{cache_file, cached_holidays, is_cache_file, normalize_country, lower_of,
    spec_cached_holidays, CacheEntry};
use crate::date::{Date, MAX_YEAR};
use crate::error::Error;
use crate::fetch::{classify_response, spec_classify, spec_uri_for, uri_for};
use crate::holiday::Holiday;

verus! {

/// The holidays of `page` that fall on or after `d`, in their order.
pub open spec fn on_or_after(page: Seq<Holiday>, d: Date) -> Seq<Holiday>
    decreases page.len(),
{
    if page.len() == 0 {
        Seq::empty()
    } else {
        let rest = on_or_after(page.drop_first(), d);
        if page[0].date.spec_before(d) {
            rest
        } else {
            seq![page[0]] + rest
        }
    }
}

pub open spec fn all_on_or_after(s: Seq<Holiday>, d: Date) -> bool {
    forall|i: int| 0 <= i < s.len() ==> !(#[trigger] s[i].date).spec_before(d)
}

/// No holiday of `s` comes before one that precedes it.
pub open spec fn in_date_order(s: Seq<Holiday>) -> bool {
    forall|i: int, j: int| 0 <= i < j < s.len() ==> !(#[trigger] s[j].date).spec_before(#[trigger] s[i].date)
}

/// A page as the API is expected to give it for `year`: dated within that
/// year, in date order.
pub open spec fn page_in_order(page: Seq<Holiday>, year: int) -> bool {
    &&& in_date_order(page)
    &&& forall|i: int| 0 <= i < page.len() ==> (#[trigger] page[i].date).year == year
}

proof fn lemma_on_or_after(s: Seq<Holiday>, d: Date)
    ensures
        all_on_or_after(on_or_after(s, d), d),
        forall|k: int| 0 <= k < on_or_after(s, d).len() ==> s.contains(#[trigger] on_or_after(s, d)[k]),
        in_date_order(s) ==> in_date_order(on_or_after(s, d)),
    decreases s.len(),
{
    if s.len() > 0 {
        let t = s.drop_first();
        lemma_on_or_after(t, d);
        let rest = on_or_after(t, d);
        assert forall|k: int| 0 <= k < rest.len() implies s.contains(#[trigger] rest[k]) by {
            let i = choose|i: int| 0 <= i < t.len() && t[i] == rest[k];
            assert(s[i + 1] == rest[k]);
        }
        if in_date_order(s) {
            assert forall|k: int| 0 <= k < rest.len() implies !(#[trigger] rest[k].date).spec_before(s[0].date) by {
                let i = choose|i: int| 0 <= i < t.len() && t[i] == rest[k];
                assert(s[i + 1] == rest[k]);
            }
            assert(in_date_order(t)) by {
                assert forall|i: int, j: int| 0 <= i < j < t.len() implies !(#[trigger] t[j].date).spec_before(#[trigger] t[i].date) by {
                    assert(t[i] == s[i + 1] && t[j] == s[j + 1]);
                }
            }
        }
        if !s[0].date.spec_before(d) {
            let r = seq![s[0]] + rest;
            assert(r == on_or_after(s, d));
            assert forall|k: int| 0 <= k < r.len() implies s.contains(#[trigger] r[k]) by {
                if k == 0 {
                    assert(s[0] == r[0]);
                } else {
                    assert(r[k] == rest[k - 1]);
                }
            }
            if in_date_order(s) {
                assert forall|i: int, j: int| 0 <= i < j < r.len() implies !(#[trigger] r[j].date).spec_before(#[trigger] r[i].date) by {
                    assert(r[j] == rest[j - 1]);
                    if i > 0 {
                        assert(r[i] == rest[i - 1]);
                    }
                }
            }
        }
    }
}

/// Paging across a year boundary: when the pages of a year leave fewer
/// holidays on or after the reference date than asked for, and the next
/// year's page makes up the rest, the result is every kept holiday of the
/// first year followed by the first kept holidays of the next, in the
/// pages' order.
pub proof fn lemma_pagination_into_next_year(
    first: Lookup,
    between: Lookup,
    last: Lookup,
    page: Seq<Holiday>,
    next_page: Seq<Holiday>,
    step: Step,
    next_step: Step,
)
    requires
        first.spec_collected().len() == 0,
        first.spec_year() < MAX_YEAR,
        first.spec_after_page(between, page, step),
        between.spec_after_page(last, next_page, next_step),
        on_or_after(page, first.spec_relative_to()).len() < first.spec_quantity(),
        first.spec_quantity() <= on_or_after(page, first.spec_relative_to()).len()
            + on_or_after(next_page, first.spec_relative_to()).len(),
    ensures
        step is ReadCache,
        between.spec_year() == first.spec_year() + 1,
        next_step matches Step::Done { holidays } && holidays@ == on_or_after(page, first.spec_relative_to())
            + on_or_after(next_page, first.spec_relative_to()).take(
                first.spec_quantity() - on_or_after(page, first.spec_relative_to()).len(),
            ),
{
    let d = first.spec_relative_to();
    let kept = on_or_after(page, d);
    let more = on_or_after(next_page, d);
    let n = first.spec_quantity() as int;
    assert(first.spec_collected() + kept =~= kept);
    assert((kept + more).take(n) =~= kept + more.take(n - kept.len()));
}

/// Appends to `out` the holidays of `page` that fall on or after `d`.
fn keep_on_or_after(page: Vec<Holiday>, d: Date, out: &mut Vec<Holiday>)
    ensures
        final(out)@ == old(out)@ + on_or_after(page@, d),
{
    let ghost start = out@;
    let ghost whole = page@;
    let mut page = page;
    while page.len() > 0
        invariant
            out@ + on_or_after(page@, d) == start + on_or_after(whole, d),
        decreases page.len(),
    {
        let ghost before = page@;
        let h = page.remove(0);
        assert(page@ =~= before.drop_first());
        if !h.date.is_before(&d) {
            out.push(h);
            assert(out@ + on_or_after(page@, d) =~= start + on_or_after(whole, d));
        }
    }
}

/// Where a lookup stands.
#[derive(Clone, Copy, Debug, PartialEq, Eq, Structural)]
pub enum Phase {
    /// Waits for the cache entry of the current year.
    AwaitCache,
    /// Waits for the API's answer for the current year.
    AwaitResponse,
    /// Waits for the answer's body to be decoded.
    AwaitDecode,
    /// Waits for the fetched page to be written to the cache.
    AwaitStored,
    /// Has handed out its result or its error.
    Finished,
}

/// What the caller is to do next.
#[derive(Debug)]
pub enum Step {
    /// Read and decode the cache file at these path components below the
    /// cache directory; report `Event::CacheRead`, with `None` where the file
    /// is missing or cannot be read or decoded.
    ReadCache { file: Vec<String> },
    /// Send a GET request to `uri`; report `Event::Received`.
    Fetch { uri: String },
    /// Decode `body` as a JSON list of holidays; report `Event::Decoded`.
    Decode { body: Vec<u8> },
    /// Write `entry` to the cache file at `file`; report `Event::Stored`,
    /// whether or not the write succeeded.
    Store { file: Vec<String>, entry: CacheEntry },
    /// The lookup is over: these are the holidays asked for.
    Done { holidays: Vec<Holiday> },
    /// The lookup is over: it failed.
    Failed { error: Error },
}

/// What came of the last step.
#[derive(Debug)]
pub enum Event {
    /// The cache entry that was read, and the time now in seconds since the
    /// Unix epoch.
    CacheRead { cached: Option<CacheEntry>, now: i64 },
    /// The status and body of the API's answer.
    Received { status: u16, body: Vec<u8> },
    /// The decoded holidays, and the time now in seconds since the Unix epoch.
    Decoded { holidays: Vec<Holiday>, now: i64 },
    /// The entry handed out by `Step::Store`, handed back.
    Stored { entry: CacheEntry },
}

/// A lookup of the holidays on or after a date, for one country.
pub struct Lookup {
    country_code: String,
    relative_to: Date,
    quantity: usize,
    year: i32,
    collected: Vec<Holiday>,
    phase: Phase,
    /// Every page accepted so far was in order for its year.
    pages_in_order: Ghost<bool>,
}

impl Lookup {
    /// The country code, in lower case.
    pub closed spec fn spec_country_code(self) -> Seq<char> {
        self.country_code@
    }

    pub closed spec fn spec_relative_to(self) -> Date {
        self.relative_to
    }

    pub closed spec fn spec_quantity(self) -> nat {
        self.quantity as nat
    }

    /// The year whose page is being looked up.
    pub closed spec fn spec_year(self) -> int {
        self.year as int
    }

    /// The holidays gathered so far.
    pub closed spec fn spec_collected(self) -> Seq<Holiday> {
        self.collected@
    }

    pub closed spec fn spec_phase(self) -> Phase {
        self.phase
    }

    pub closed spec fn spec_pages_in_order(self) -> bool {
        self.pages_in_order@
    }

    pub closed spec fn wf(self) -> bool {
        &&& all_on_or_after(self.collected@, self.relative_to)
        &&& self.pages_in_order@ ==> {
            &&& in_date_order(self.collected@)
            &&& forall|i: int| 0 <= i < self.collected@.len()
                ==> (#[trigger] self.collected@[i].date).year < self.year
        }
    }

    /// What accepting `page` for the current year leads to: `new` is the
    /// lookup afterwards and `r` the step it asks for.
    pub open spec fn spec_after_page(self, new: Lookup, page: Seq<Holiday>, r: Step) -> bool {
        let gathered = self.spec_collected() + on_or_after(page, self.spec_relative_to());
        &&& new.spec_country_code() == self.spec_country_code()
        &&& new.spec_relative_to() == self.spec_relative_to()
        &&& new.spec_quantity() == self.spec_quantity()
        &&& new.spec_pages_in_order() == (self.spec_pages_in_order() && page_in_order(page, self.spec_year()))
        &&& if gathered.len() >= self.spec_quantity() {
            &&& new.spec_phase() == Phase::Finished
            &&& r matches Step::Done { holidays } && holidays@ == gathered.take(self.spec_quantity() as int)
        } else if self.spec_year() >= MAX_YEAR {
            &&& new.spec_phase() == Phase::Finished
            &&& r matches Step::Failed { error } && error == Error::Exhausted
        } else {
            &&& new.spec_phase() == Phase::AwaitCache
            &&& new.spec_year() == self.spec_year() + 1
            &&& new.spec_collected() == gathered
            &&& r matches Step::ReadCache { file } && is_cache_file(file@, self.spec_year() + 1, self.spec_country_code())
        }
    }

    /// A finished lookup's result: `quantity` holidays, none before the
    /// reference date, and in date order wherever the pages were.
    pub open spec fn spec_result_ok(self, holidays: Seq<Holiday>) -> bool {
        &&& holidays.len() == self.spec_quantity()
        &&& all_on_or_after(holidays, self.spec_relative_to())
        &&& self.spec_pages_in_order() ==> in_date_order(holidays)
    }

    /// Starts a lookup of `quantity` holidays on or after `relative_to` in
    /// the country `country` (in any case), and gives its first step.
    pub fn new(country: &str, relative_to: Date, quantity: usize) -> (r: (Lookup, Step))
        ensures
            r.0.wf(),
            r.0.spec_country_code() == lower_of(country@),
            r.0.spec_relative_to() == relative_to,
            r.0.spec_quantity() == quantity,
            r.0.spec_year() == relative_to.year,
            r.0.spec_collected().len() == 0,
            r.0.spec_pages_in_order(),
            quantity == 0 ==> r.0.spec_phase() == Phase::Finished,
            quantity == 0 ==> (r.1 matches Step::Done { holidays } && holidays@.len() == 0),
            quantity > 0 ==> r.0.spec_phase() == Phase::AwaitCache,
            quantity > 0 ==> (r.1 matches Step::ReadCache { file }
                && is_cache_file(file@, relative_to.year as int, lower_of(country@))),
    {
        let country_code = normalize_country(country);
        let year = relative_to.year;
        if quantity == 0 {
            let lookup = Lookup {
                country_code,
                relative_to,
                quantity,
                year,
                collected: Vec::new(),
                phase: Phase::Finished,
                pages_in_order: Ghost(true),
            };
            (lookup, Step::Done { holidays: Vec::new() })
        } else {
            let file = cache_file(year, country_code.as_str());
            let lookup = Lookup {
                country_code,
                relative_to,
                quantity,
                year,
                collected: Vec::new(),
                phase: Phase::AwaitCache,
                pages_in_order: Ghost(true),
            };
            (lookup, Step::ReadCache { file })
        }
    }

    fn accept_page(&mut self, page: Vec<Holiday>) -> (r: Step)
        requires
            old(self).wf(),
        ensures
            final(self).wf(),
            old(self).spec_after_page(*final(self), page@, r),
            r matches Step::Done { holidays } ==> final(self).spec_result_ok(holidays@),
    {
        let ghost old_self = *self;
        let ghost filtered = on_or_after(page@, self.relative_to);
        proof {
            lemma_on_or_after(page@, self.relative_to);
        }
        keep_on_or_after(page, self.relative_to, &mut self.collected);
        let ghost in_order = self.pages_in_order@ && page_in_order(page@, self.year as int);
        self.pages_in_order = Ghost(in_order);
        proof {
            let c = self.collected@;
            let n = old_self.collected@.len();
            assert(c == old_self.collected@ + filtered);
            assert forall|i: int| 0 <= i < c.len() implies !(#[trigger] c[i].date).spec_before(self.relative_to) by {
                if i >= n {
                    assert(c[i] == filtered[i - n]);
                }
            }
            if in_order {
                assert forall|i: int| 0 <= i < filtered.len() implies (#[trigger] filtered[i].date).year == self.year by {
                    assert(page@.contains(filtered[i]));
                }
                assert forall|i: int, j: int| 0 <= i < j < c.len() implies !(#[trigger] c[j].date).spec_before(#[trigger] c[i].date) by {
                    if j >= n {
                        assert(c[j] == filtered[j - n]);
                    }
                    if i >= n {
                        assert(c[i] == filtered[i - n]);
                    }
                }
                assert forall|i: int| 0 <= i < c.len() implies (#[trigger] c[i].date).year <= self.year by {
                    if i >= n {
                        assert(c[i] == filtered[i - n]);
                    }
                }
            }
        }
        if self.collected.len() >= self.quantity {
            let mut holidays: Vec<Holiday> = Vec::new();
            std::mem::swap(&mut holidays, &mut self.collected);
            holidays.truncate(self.quantity);
            self.phase = Phase::Finished;
            Step::Done { holidays }
        } else if self.year >= MAX_YEAR {
            self.collected = Vec::new();
            self.phase = Phase::Finished;
            Step::Failed { error: Error::Exhausted }
        } else {
            self.year = self.year + 1;
            self.phase = Phase::AwaitCache;
            let file = cache_file(self.year, self.country_code.as_str());
            Step::ReadCache { file }
        }
    }

    /// `new` is `self` in phase `phase`, with nothing else changed.
    pub open spec fn spec_moves_to(self, new: Lookup, phase: Phase) -> bool {
        &&& new.spec_country_code() == self.spec_country_code()
        &&& new.spec_relative_to() == self.spec_relative_to()
        &&& new.spec_quantity() == self.spec_quantity()
        &&& new.spec_year() == self.spec_year()
        &&& new.spec_collected() == self.spec_collected()
        &&& new.spec_pages_in_order() == self.spec_pages_in_order()
        &&& new.spec_phase() == phase
    }

    /// Takes in what came of the last step, and gives the next one.
    ///
    /// A cache entry serves the request when it is for the current year and
    /// country and at most a day old; otherwise, or where there is none, the
    /// page is fetched. A fetched page is stored, then handed back to be
    /// used like a cached one. Each page's holidays before the reference
    /// date are dropped and the rest gathered, until there are enough.
    pub fn step(&mut self, event: Event) -> (r: Step)
        requires
            old(self).wf(),
            old(self).spec_accepts(event),
        ensures
            final(self).wf(),
            r matches Step::Done { holidays } ==> final(self).spec_result_ok(holidays@),
            match event {
                Event::CacheRead { cached, now } => match spec_cached_holidays(
                    cached,
                    old(self).spec_year(),
                    old(self).spec_country_code(),
                    now as int,
                ) {
                    Some(page) => old(self).spec_after_page(*final(self), page@, r),
                    None => {
                        &&& old(self).spec_moves_to(*final(self), Phase::AwaitResponse)
                        &&& r matches Step::Fetch { uri }
                            && uri@ == spec_uri_for(old(self).spec_year(), old(self).spec_country_code())
                    },
                },
                Event::Received { status, body } => match spec_classify(status, body@.len()) {
                    Ok(_) => {
                        &&& old(self).spec_moves_to(*final(self), Phase::AwaitDecode)
                        &&& r matches Step::Decode { body: b } && b == body
                    },
                    Err(e) => {
                        &&& final(self).spec_phase() == Phase::Finished
                        &&& r matches Step::Failed { error } && error == e
                    },
                },
                Event::Decoded { holidays, now } => {
                    &&& old(self).spec_moves_to(*final(self), Phase::AwaitStored)
                    &&& r matches Step::Store { file, entry } && {
                        &&& is_cache_file(file@, old(self).spec_year(), old(self).spec_country_code())
                        &&& entry.fetched_at == now
                        &&& entry.year == old(self).spec_year()
                        &&& entry.country_code@ == old(self).spec_country_code()
                        &&& entry.holidays == holidays
                    }
                },
                Event::Stored { entry } => old(self).spec_after_page(*final(self), entry.holidays@, r),
            },
    {
        match event {
            Event::CacheRead { cached, now } => {
                match cached_holidays(cached, self.year, self.country_code.as_str(), now) {
                    Some(page) => self.accept_page(page),
                    None => {
                        self.phase = Phase::AwaitResponse;
                        Step::Fetch { uri: uri_for(self.year, self.country_code.as_str()) }
                    },
                }
            },
            Event::Received { status, body } => {
                match classify_response(status, body.as_slice()) {
                    Ok(()) => {
                        self.phase = Phase::AwaitDecode;
                        Step::Decode { body }
                    },
                    Err(error) => {
                        self.phase = Phase::Finished;
                        Step::Failed { error }
                    },
                }
            },
            Event::Decoded { holidays, now } => {
                let entry = CacheEntry {
                    fetched_at: now,
                    year: self.year,
                    country_code: self.country_code.clone(),
                    holidays,
                };
                self.phase = Phase::AwaitStored;
                Step::Store { file: cache_file(self.year, self.country_code.as_str()), entry }
            },
            Event::Stored { entry } => self.accept_page(entry.holidays),
        }
    }

    /// `event` is the kind of event that the last step asked for.
    pub open spec fn spec_accepts(self, event: Event) -> bool {
        match event {
            Event::CacheRead { .. } => self.spec_phase() == Phase::AwaitCache,
            Event::Received { .. } => self.spec_phase() == Phase::AwaitResponse,
            Event::Decoded { .. } => self.spec_phase() == Phase::AwaitDecode,
            Event::Stored { .. } => self.spec_phase() == Phase::AwaitStored,
        }
    }

    /// Whether `event` is the kind of event that the last step asked for.
    pub fn accepts(&self, event: &Event) -> (r: bool)
        ensures
            r == self.spec_accepts(*event),
    {
        match event {
            Event::CacheRead { .. } => self.phase == Phase::AwaitCache,
            Event::Received { .. } => self.phase == Phase::AwaitResponse,
            Event::Decoded { .. } => self.phase == Phase::AwaitDecode,
            Event::Stored { .. } => self.phase == Phase::AwaitStored,
        }
    }
}

} // verus!
