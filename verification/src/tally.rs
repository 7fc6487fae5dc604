//! The aggregators the library keeps for a parser's parts: counters, date
//! aggregators and disabled parts. Means and sums are kept in floating
//! point, outside the library.
use vstd::prelude::*;
use crate::aggregators::{counts_after_increment, AggregationMethod, Counter, NoneAg};
use crate::date::{stamp_max, stamp_min, stamp_of, Date, DateParserType, DateView};
use crate::error::{ErrorView, LogriaError};

verus! {

/// An aggregator of the library.
pub enum Tally {
    /// Counts of each part (`Count`), or only the most common one (`Mode`).
    Count(Counter),
    /// Dates, times or both, in a format.
    Dates(Date),
    /// A part that is not aggregated.
    Disabled(NoneAg),
}

/// The aggregator a method asks for, when the library keeps it: `None` for
/// means and sums.
pub open spec fn tally_kind(method: AggregationMethod) -> Option<(bool, Option<(DateParserType, Seq<char>)>)> {
    match method {
        AggregationMethod::Count => Some((false, None)),
        AggregationMethod::Mode => Some((true, None)),
        AggregationMethod::Date(f) => Some((false, Some((DateParserType::Date, f@)))),
        AggregationMethod::Time(f) => Some((false, Some((DateParserType::Time, f@)))),
        AggregationMethod::DateTime(f) => Some((false, Some((DateParserType::DateTime, f@)))),
        AggregationMethod::Disabled => Some((false, None)),
        AggregationMethod::Mean | AggregationMethod::Sum => None,
    }
}

impl Tally {
    /// The aggregator is well formed.
    pub open spec fn wf(&self) -> bool {
        match self {
            Tally::Count(c) => c.wf(),
            Tally::Dates(d) => d.wf(),
            Tally::Disabled(_) => true,
        }
    }

    /// One more part can be taken without a count overflowing.
    pub open spec fn has_room(&self) -> bool {
        match self {
            Tally::Count(c) => c@.total_count < u64::MAX,
            Tally::Dates(d) => d@.count < i64::MAX,
            Tally::Disabled(_) => true,
        }
    }

    /// The aggregator for `method`, empty; `None` for a mean or a sum.
    pub fn of(method: &AggregationMethod) -> (r: Option<Tally>)
        ensures
            r is None <==> (*method == AggregationMethod::Mean || *method == AggregationMethod::Sum),
            r matches Some(t) ==> t.wf(),
            r matches Some(Tally::Count(c)) ==> {
                &&& c@.entries.len() == 0
                &&& c@.total_count == 0
                &&& c@.frozen_n == (if *method == AggregationMethod::Mode { Some(1usize) } else { None })
                &&& (*method == AggregationMethod::Count || *method == AggregationMethod::Mode)
            },
            r matches Some(Tally::Dates(d)) ==> match tally_kind(*method) {
                Some((_, Some((t, f)))) => d@.parser_type == t && d@.count == 0
                    && d@.format == (if crate::date::date_format_valid(f) { Some(f) } else { None })
                    && (d@.earliest, d@.latest) == crate::date::initial_stamps(t),
                _ => false,
            },
            r matches Some(Tally::Disabled(_)) ==> *method == AggregationMethod::Disabled,
    {
        match method {
            AggregationMethod::Count => Some(Tally::Count(Counter::new())),
            AggregationMethod::Mode => Some(Tally::Count(Counter::mean())),
            AggregationMethod::Date(f) => Some(Tally::Dates(Date::new(f.as_str(), DateParserType::Date))),
            AggregationMethod::Time(f) => Some(Tally::Dates(Date::new(f.as_str(), DateParserType::Time))),
            AggregationMethod::DateTime(f) => Some(Tally::Dates(Date::new(f.as_str(), DateParserType::DateTime))),
            AggregationMethod::Disabled => Some(Tally::Disabled(NoneAg::new())),
            AggregationMethod::Mean | AggregationMethod::Sum => None,
        }
    }

    /// Whether one more part can be taken (see `has_room`).
    pub fn room(&self) -> (r: bool)
        ensures
            r == self.has_room(),
    {
        match self {
            Tally::Count(c) => c.total_count() < u64::MAX,
            Tally::Dates(d) => d.count < i64::MAX,
            Tally::Disabled(_) => true,
        }
    }

    /// Take one part of a message: a counter counts it, a date aggregator
    /// reads its stamp (or says why it cannot), a disabled part ignores it.
    pub fn update(&mut self, part: &str) -> (r: Result<(), LogriaError>)
        requires
            old(self).wf(),
            old(self).has_room(),
        ensures
            final(self).wf(),
            match (*old(self), *final(self)) {
                (Tally::Count(c0), Tally::Count(c1)) => {
                    &&& r is Ok
                    &&& c1@.counts() == counts_after_increment(c0@.counts(), part@)
                    &&& c1@.total_count == c0@.total_count + 1
                    &&& c1@.frozen_n == c0@.frozen_n
                },
                (Tally::Dates(d0), Tally::Dates(d1)) => match d0@.format {
                    None => r matches Err(e) && e@ == ErrorView::CannotParseDate("No date format string specified!"@) && d1@ == d0@,
                    Some(f) => match stamp_of(d0@.parser_type, f, part@) {
                        Ok(s) => r is Ok && d1@ == (DateView {
                            earliest: stamp_min(s, d0@.earliest),
                            latest: stamp_max(s, d0@.latest),
                            count: (d0@.count + 1) as i64,
                            ..d0@
                        }),
                        Err(why) => r matches Err(e) && e@ == ErrorView::CannotParseDate(why) && d1@ == d0@,
                    },
                },
                (Tally::Disabled(_), Tally::Disabled(_)) => r is Ok,
                _ => false,
            },
    {
        match self {
            Tally::Count(c) => c.update(part),
            Tally::Dates(d) => d.update(part),
            Tally::Disabled(a) => {
                a.update(part);
                Ok(())
            },
        }
    }
}

} // verus!
