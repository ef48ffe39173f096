use vstd::prelude::*;

use crate::rat::Rat;
use crate::series::{FetchError, Response};
use crate::timestamp::{chrono_hour_parse, normalized_stamp, CivilDateTime};

verus! {

/// MWh -> BTU factor, in hundredths: 3_412_141.63 * 100.
pub const MWH_TO_BTU_HUNDREDTHS: i128 = 341_214_163;

/// Denominator of the carbon ratio. A generation reading in milli-MWh times
/// `MWH_TO_BTU_HUNDREDTHS` times a coefficient in milli-(kg/MMBTU) carries
/// the scale 10^3 * 10^2 * 10^3 on top of the unit conversions
/// BTU -> MMBTU (10^6) and kg -> metric ton (10^3), 10^17 in all.
pub const CARBON_DEN: i128 = 100_000_000_000_000_000;

/// Largest magnitude of a reading that the carbon product accepts without
/// overflowing its 128-bit numerator.
pub const CARBON_INPUT_BOUND: i64 = 10_000_000_000_000;

/// A reading clamped at zero: negative readings mark missing samples and
/// count as zero in every aggregate.
pub open spec fn clamped(v: i64) -> int {
    if v > 0 {
        v as int
    } else {
        0
    }
}

/// A reading clamped at zero, as executable code.
pub fn zero_or_more(x: &i64) -> (r: i64)
    ensures
        r as int == clamped(*x),
{
    if *x > 0 {
        *x
    } else {
        0
    }
}

/// The sum of the first `n` readings of `data`, each clamped at zero; a
/// missing tail counts as zero.
pub open spec fn sum_clamped(data: Seq<(String, i64)>, n: int) -> int
    decreases n,
{
    if n <= 0 {
        0
    } else {
        sum_clamped(data, n - 1) + if n - 1 < data.len() {
            clamped(data[n - 1].1)
        } else {
            0
        }
    }
}

/// A sum of clamped readings is never negative.
pub proof fn lemma_sum_clamped_nonneg(data: Seq<(String, i64)>, n: int)
    ensures
        sum_clamped(data, n) >= 0,
    decreases n,
{
    if n > 0 {
        lemma_sum_clamped_nonneg(data, n - 1);
    }
}

/// Each clamped reading is at most `i64::MAX`, so the sum of `n` of them is
/// at most `n` times that.
pub proof fn lemma_sum_clamped_bound(data: Seq<(String, i64)>, n: int)
    requires
        n >= 0,
    ensures
        sum_clamped(data, n) <= n * 0x7fff_ffff_ffff_ffff,
    decreases n,
{
    if n > 0 {
        lemma_sum_clamped_bound(data, n - 1);
    }
}

/// Beyond the end of the data every term is zero.
pub proof fn lemma_sum_clamped_tail(data: Seq<(String, i64)>, n: int)
    requires
        n >= data.len(),
    ensures
        sum_clamped(data, n) == sum_clamped(data, data.len() as int),
    decreases n,
{
    if n > data.len() {
        lemma_sum_clamped_tail(data, n - 1);
    }
}

/// One generation fuel: its display name, the identifier it was fetched
/// under, the service's reply, the share of the portfolio total (absent
/// until the portfolio assigns it), and the precomputed carbon-equivalent in
/// metric tons, as an exact ratio.
pub struct Source {
    pub name: String,
    pub series_id: String,
    pub api_response: Response,
    pub percent_of_total: Option<Rat>,
    pub carbon_equiv_metric_tons: Rat,
}

/// `s` with its share of the portfolio set from the given total: the share
/// is the clamped newest reading times 100 over the total, kept as an exact
/// ratio.
pub open spec fn set_share_spec(s: Source, total: i128) -> Source {
    Source {
        name: s.name,
        series_id: s.series_id,
        api_response: s.api_response,
        percent_of_total: Some(Rat { num: (100 * clamped(s.latest())) as i128, den: total }),
        carbon_equiv_metric_tons: s.carbon_equiv_metric_tons,
    }
}

impl Source {
    /// The reply behind this source carries a newest sample to read.
    pub open spec fn wf(self) -> bool {
        self.api_response.has_data()
    }

    /// The newest generation reading, in milli-units, unclamped.
    pub open spec fn latest(self) -> i64 {
        self.api_response.series@[0].data@[0].1
    }

    /// Builds one source from already-fetched replies: the generation reply,
    /// and the carbon-coefficient reply where one is configured. A reply
    /// without a series or without samples fails with `FetchError::Empty`;
    /// one whose samples do not run newest-first, as far as its stamps show
    /// it, fails with `FetchError::Parse`; no source is built from either.
    /// With a coefficient reply present, the carbon equivalent is the
    /// newest generation reading times the MWh->BTU factor times the newest
    /// coefficient, over `CARBON_DEN`, with each of the two readings
    /// clamped at zero first: a missing (negative) sample counts as zero,
    /// so the stored carbon is never negative. Without a coefficient reply
    /// it is zero.
    pub fn new(
        name: String,
        series_id: String,
        response: Response,
        carbon_response: Option<Response>,
    ) -> (r: Result<Source, FetchError>)
        requires
            carbon_response matches Some(cr) ==> (response.has_data() && cr.has_data() ==> {
                &&& response.series@[0].data@[0].1 <= CARBON_INPUT_BOUND
                &&& cr.series@[0].data@[0].1 <= CARBON_INPUT_BOUND
            }),
        ensures
            r is Ok <==> response.has_data() && response.newest_first_spec() && (
            carbon_response matches Some(cr) ==> cr.has_data() && cr.newest_first_spec()),
            r is Err ==> (r->Err_0 == FetchError::Empty || r->Err_0 == FetchError::Parse),
            r is Err ==> (r->Err_0 == FetchError::Empty <==> !(response.has_data() && (
            carbon_response matches Some(cr) ==> cr.has_data()))),
            r matches Ok(s) ==> {
                &&& s.name == name
                &&& s.series_id == series_id
                &&& s.api_response == response
                &&& s.percent_of_total is None
                &&& s.wf()
                &&& s.carbon_equiv_metric_tons.num >= 0
                &&& s.carbon_equiv_metric_tons.den > 0
                &&& carbon_response is None ==> s.carbon_equiv_metric_tons == (Rat {
                    num: 0,
                    den: 1,
                })
                &&& carbon_response matches Some(cr) ==> {
                    &&& s.carbon_equiv_metric_tons.num == clamped(s.latest())
                        * MWH_TO_BTU_HUNDREDTHS * clamped(cr.series@[0].data@[0].1)
                    &&& s.carbon_equiv_metric_tons.den == CARBON_DEN
                }
            },
    {
        if response.series.len() == 0 {
            return Err(FetchError::Empty);
        }
        if response.series[0].data.len() == 0 {
            return Err(FetchError::Empty);
        }
        match carbon_response {
            None => {
                if !response.newest_first() {
                    return Err(FetchError::Parse);
                }
                Ok(
                    Source {
                        name,
                        series_id,
                        api_response: response,
                        percent_of_total: None,
                        carbon_equiv_metric_tons: Rat { num: 0, den: 1 },
                    },
                )
            },
            Some(cr) => {
                if cr.series.len() == 0 {
                    return Err(FetchError::Empty);
                }
                if cr.series[0].data.len() == 0 {
                    return Err(FetchError::Empty);
                }
                if !response.newest_first() {
                    return Err(FetchError::Parse);
                }
                if !cr.newest_first() {
                    return Err(FetchError::Parse);
                }
                let coeff: i64 = zero_or_more(&cr.series[0].data[0].1);
                let g: i64 = zero_or_more(&response.series[0].data[0].1);
                proof {
                    lemma_carbon_product_bound(g, coeff);
                    lemma_carbon_nonneg(g, coeff);
                }
                let num: i128 = (g as i128) * MWH_TO_BTU_HUNDREDTHS * (coeff as i128);
                Ok(
                    Source {
                        name,
                        series_id,
                        api_response: response,
                        percent_of_total: None,
                        carbon_equiv_metric_tons: Rat { num, den: CARBON_DEN },
                    },
                )
            },
        }
    }

    /// The newest sample: its parsed stamp and its unclamped reading.
    pub fn get_last_data(&self) -> (r: (Option<CivilDateTime>, i64))
        requires
            self.wf(),
        ensures
            r.1 == self.latest(),
            r.0 == chrono_hour_parse(
                normalized_stamp(self.api_response.series@[0].data@[0].0@),
            ),
    {
        let data = self.api_response.get_dt_data();
        let first = &data[0];
        (first.0, first.1)
    }

    /// The newest reading alone, unclamped: a missing (negative) reading is
    /// shown as it came.
    pub fn get_last_val(&self) -> (r: i64)
        requires
            self.wf(),
        ensures
            r == self.latest(),
    {
        self.api_response.series[0].data[0].1
    }

    /// Stores this source's share of the given portfolio total. The clamp
    /// touches the numerator only: the denominator is the raw total.
    pub fn update_percent_of_total(&mut self, total: i128)
        requires
            old(self).wf(),
        ensures
            *final(self) == set_share_spec(*old(self), total),
    {
        let v = self.api_response.series[0].data[0].1;
        let last_val: i64 = zero_or_more(&v);
        self.percent_of_total = Some(Rat { num: 100 * (last_val as i128), den: total });
        proof {
            assert(*self =~= set_share_spec(*old(self), total));
        }
    }

    /// The stored share, if the portfolio has assigned one.
    pub fn percent_of_total(&self) -> (r: Option<Rat>)
        ensures
            r == self.percent_of_total,
    {
        self.percent_of_total
    }

    /// The sum of the newest `hours` readings, each clamped at zero, in
    /// milli-units; a history shorter than the window contributes zeros for
    /// the missing tail.
    pub fn total_over_n_hours(&self, hours: usize) -> (r: i128)
        requires
            self.wf(),
        ensures
            r == sum_clamped(self.api_response.series@[0].data@, hours as int),
    {
        let data = &self.api_response.series[0].data;
        let m: usize = if hours <= data.len() {
            hours
        } else {
            data.len()
        };
        let mut acc: i128 = 0;
        let mut i: usize = 0;
        while i < m
            invariant
                m <= data@.len(),
                i <= m,
                acc == sum_clamped(data@, i as int),
                0 <= acc <= i * 0x7fff_ffff_ffff_ffff,
            decreases m - i,
        {
            let v: i64 = data[i].1;
            let cv = zero_or_more(&v);
            acc = acc + cv as i128;
            i += 1;
        }
        proof {
            if hours > m {
                lemma_sum_clamped_tail(data@, hours as int);
            }
        }
        acc
    }

    /// The monthly-style average: the windowed total over the window length,
    /// as an exact ratio. `average_over(n)` equals `total_over(n) / n`
    /// exactly, numerator and denominator untouched.
    pub fn average_over_past_n_hours(&self, hours: usize) -> (r: Rat)
        requires
            self.wf(),
        ensures
            r.num == sum_clamped(self.api_response.series@[0].data@, hours as int),
            r.den == hours as int,
    {
        let total = self.total_over_n_hours(hours);
        Rat { num: total, den: hours as i128 }
    }

    /// The display name.
    pub fn name(&self) -> (r: &String)
        ensures
            r == self.name,
    {
        &self.name
    }

    /// The precomputed carbon equivalent, in metric tons, as an exact ratio.
    pub fn carbon_equiv(&self) -> (r: Rat)
        ensures
            r == self.carbon_equiv_metric_tons,
    {
        self.carbon_equiv_metric_tons
    }
}

/// The carbon numerator stays inside 128 bits when both inputs stay inside
/// `CARBON_INPUT_BOUND`.
proof fn lemma_carbon_product_bound(g: i64, c: i64)
    requires
        -CARBON_INPUT_BOUND <= g <= CARBON_INPUT_BOUND,
        -CARBON_INPUT_BOUND <= c <= CARBON_INPUT_BOUND,
    ensures
        -0x8000_0000_0000_0000_0000_0000_0000_0000 <= g * MWH_TO_BTU_HUNDREDTHS
            <= 0x7fff_ffff_ffff_ffff_ffff_ffff_ffff_ffff,
        -0x8000_0000_0000_0000_0000_0000_0000_0000 <= g * MWH_TO_BTU_HUNDREDTHS * c
            <= 0x7fff_ffff_ffff_ffff_ffff_ffff_ffff_ffff,
{
    assert(-3_412_141_630_000_000_000_000 <= g * 341214163 <= 3_412_141_630_000_000_000_000)
        by (nonlinear_arith)
        requires
            -10_000_000_000_000 <= g <= 10_000_000_000_000,
    ;
    assert(-34_121_416_300_000_000_000_000_000_000_000_000 <= g * 341214163 * c
        <= 34_121_416_300_000_000_000_000_000_000_000_000) by (nonlinear_arith)
        requires
            -3_412_141_630_000_000_000_000 <= g * 341214163 <= 3_412_141_630_000_000_000_000,
            -10_000_000_000_000 <= c <= 10_000_000_000_000,
    ;
}

/// A product of non-negative factors is non-negative: with both readings
/// clamped at zero before the product and the denominator positive, the
/// stored carbon equivalent is never below zero.
pub proof fn lemma_carbon_nonneg(g: i64, c: i64)
    requires
        g >= 0,
        c >= 0,
    ensures
        g * MWH_TO_BTU_HUNDREDTHS * c >= 0,
{
    assert(g * 341214163 * c >= 0) by (nonlinear_arith)
        requires
            g >= 0,
            c >= 0,
    ;
}

} // verus!
