use vstd::prelude::*;

use crate::timestamp::{
    chrono_hour_parse, civil_after, civil_gt, normalized_stamp, parse_stamp, CivilDateTime,
};

verus! {

/// The ways a fetch of one series can fail. `Transport`, `Status` and
/// `Parse` are raised at the network edge by the caller that performs the
/// request; `Empty` is raised here when a reply carries no series or no
/// samples. Every one of them is fatal to the run.
#[derive(Clone, Copy, PartialEq, Eq, Structural, Debug)]
pub enum FetchError {
    /// A network error reaching the service.
    Transport,
    /// A non-success HTTP status.
    Status,
    /// A malformed reply body, or samples that are not ordered
    /// newest-first.
    Parse,
    /// An empty `series` array, or a series with no samples.
    Empty,
}

/// The echo of the request inside the service's reply envelope.
pub struct Request {
    pub command: String,
    pub series_id: String,
}

/// One series of the service's catalog: identification strings and the
/// ordered samples, delivered newest-first.
///
/// A sample is a pair of the compact stamp string and the reading in
/// milli-units (thousandths of the reported value), so that readings stay
/// exact integers. A negative reading marks a missing sample; it is clamped
/// to zero in every aggregate but shown unchanged as the current actual.
pub struct Series {
    pub series_id: String,
    pub name: String,
    pub units: String,
    pub f: String,
    pub description: String,
    pub data: Vec<(String, i64)>,
}

/// The service's reply envelope for one request.
pub struct Response {
    pub request: Request,
    pub series: Vec<Series>,
}

impl Response {
    /// The reply carries at least one series, and that series at least one
    /// sample. Everything that reads the newest sample needs this.
    pub open spec fn has_data(self) -> bool {
        self.series@.len() >= 1 && self.series@[0].data@.len() >= 1
    }

    /// The first series' samples run newest-first, as far as their stamps
    /// show it: with at least two samples whose first and last stamps both
    /// parse, the first stands strictly after the last. Every aggregate
    /// reads the samples newest-first, so a reply that breaks this is
    /// rejected at ingest; a stamp that fails to parse is advisory only and
    /// cannot be held to the ordering.
    pub open spec fn newest_first_spec(self) -> bool {
        let data = self.series@[0].data@;
        data.len() < 2 || match (
            chrono_hour_parse(normalized_stamp(data[0].0@)),
            chrono_hour_parse(normalized_stamp(data[data.len() - 1].0@)),
        ) {
            (Some(a), Some(b)) => civil_gt(a, b),
            _ => true,
        }
    }

    /// Checks that the first series' samples run newest-first, as far as
    /// their stamps show it.
    pub fn newest_first(&self) -> (b: bool)
        requires
            self.series@.len() >= 1,
        ensures
            b == self.newest_first_spec(),
    {
        let data = &self.series[0].data;
        if data.len() < 2 {
            return true;
        }
        let first = parse_stamp(data[0].0.as_str());
        let last = parse_stamp(data[data.len() - 1].0.as_str());
        match (first, last) {
            (Some(a), Some(b)) => civil_after(&a, &b),
            _ => true,
        }
    }

    /// Assembles a reply from already-decoded parts. The network fetch and
    /// the JSON decoding live outside the library and hand their result in
    /// through here.
    pub fn new(request: Request, series: Vec<Series>) -> (r: Response)
        ensures
            r.request == request,
            r.series == series,
    {
        Response { request, series }
    }

    /// The samples of the first series with each stamp parsed, in order,
    /// newest-first. A stamp that fails to parse keeps its reading under an
    /// absent timestamp.
    pub fn get_dt_data(&self) -> (r: Vec<(Option<CivilDateTime>, i64)>)
        requires
            self.series@.len() >= 1,
        ensures
            r@.len() == self.series@[0].data@.len(),
            forall|i: int|
                0 <= i < r@.len() ==> r@[i].1 == self.series@[0].data@[i].1 && r@[i].0
                    == chrono_hour_parse(normalized_stamp(self.series@[0].data@[i].0@)),
    {
        let data = &self.series[0].data;
        let mut out: Vec<(Option<CivilDateTime>, i64)> = Vec::new();
        let mut i: usize = 0;
        while i < data.len()
            invariant
                self.series@.len() >= 1,
                data == self.series@[0].data,
                i <= data@.len(),
                out@.len() == i as int,
                forall|k: int|
                    0 <= k < i as int ==> out@[k].1 == data@[k].1 && out@[k].0
                        == chrono_hour_parse(normalized_stamp(data@[k].0@)),
            decreases data@.len() - i,
        {
            let stamp = parse_stamp(data[i].0.as_str());
            out.push((stamp, data[i].1));
            i += 1;
        }
        out
    }
}

} // verus!
