use vstd::prelude::*;
use vstd::arithmetic::div_mod::{lemma_div_is_ordered, lemma_div_multiples_vanish};
use crate::backend::{Backend, ClientError, ResultShape};

verus! {

/// One measured execution: its wall-clock time and the rows it returned.
#[derive(Clone, Copy, Debug, PartialEq, Eq, Structural)]
pub struct IterationSample {
    pub nanos: u64,
    pub rows: u128,
}

/// The summary of a benchmark run.
#[derive(Clone, Copy, Debug, PartialEq, Eq, Structural)]
pub struct BenchmarkResult {
    pub client: Backend,
    pub iterations: u64,
    pub total_nanos: u128,
    pub avg_nanos: u128,
    pub min_nanos: u64,
    pub max_nanos: u64,
    /// The rows returned by one representative run: the last one.
    pub rows: Option<u128>,
}

pub open spec fn total_of(s: Seq<IterationSample>) -> int
    decreases s.len(),
{
    if s.len() == 0 {
        0
    } else {
        total_of(s.drop_last()) + s.last().nanos
    }
}

pub open spec fn min_of(s: Seq<IterationSample>) -> int
    decreases s.len(),
{
    if s.len() <= 1 {
        if s.len() == 0 { 0 } else { s[0].nanos as int }
    } else if s.last().nanos < min_of(s.drop_last()) {
        s.last().nanos as int
    } else {
        min_of(s.drop_last())
    }
}

pub open spec fn max_of(s: Seq<IterationSample>) -> int
    decreases s.len(),
{
    if s.len() <= 1 {
        if s.len() == 0 { 0 } else { s[0].nanos as int }
    } else if s.last().nanos > max_of(s.drop_last()) {
        s.last().nanos as int
    } else {
        max_of(s.drop_last())
    }
}

/// `r` summarises the non-empty run `s` of `client`: total, average (rounded down),
/// extrema, and the rows of the last iteration.
pub open spec fn summarises(r: BenchmarkResult, client: Backend, s: Seq<IterationSample>) -> bool {
    &&& r.client == client
    &&& r.iterations == s.len()
    &&& r.total_nanos == total_of(s)
    &&& r.avg_nanos == total_of(s) / (s.len() as int)
    &&& r.min_nanos == min_of(s)
    &&& r.max_nanos == max_of(s)
    &&& r.rows == Some(s.last().rows)
}

proof fn lemma_total_bounds(s: Seq<IterationSample>)
    ensures
        0 <= total_of(s) <= s.len() * 0xffff_ffff_ffff_ffffint,
        s.len() >= 1 ==> s.len() * min_of(s) <= total_of(s) <= s.len() * max_of(s),
        s.len() >= 1 ==> 0 <= min_of(s) <= max_of(s) <= 0xffff_ffff_ffff_ffffint,
    decreases s.len(),
{
    if s.len() > 0 {
        let t = s.drop_last();
        lemma_total_bounds(t);
        let n = t.len() as int;
        let x = s.last().nanos as int;
        assert(total_of(t) + x <= (n + 1) * 0xffff_ffff_ffff_ffffint) by (nonlinear_arith)
            requires
                total_of(t) <= n * 0xffff_ffff_ffff_ffffint,
                x <= 0xffff_ffff_ffff_ffffint,
        ;
        if s.len() > 1 {
            let lo = min_of(s);
            let hi = max_of(s);
            assert(lo <= min_of(t) && lo <= x);
            assert(hi >= max_of(t) && hi >= x);
            assert(n * lo <= n * min_of(t)) by (nonlinear_arith)
                requires
                    lo <= min_of(t),
                    n >= 0,
            ;
            assert(n * max_of(t) <= n * hi) by (nonlinear_arith)
                requires
                    hi >= max_of(t),
                    n >= 0,
            ;
            assert((n + 1) * lo == n * lo + lo) by (nonlinear_arith);
            assert((n + 1) * hi == n * hi + hi) by (nonlinear_arith);
        }
    }
}

/// The average of a non-empty run is its total divided by its iteration count,
/// rounded down, and lies between the shortest and the longest iteration.
pub proof fn lemma_average_within_extrema(client: Backend, s: Seq<IterationSample>, r: BenchmarkResult)
    requires
        s.len() >= 1,
        summarises(r, client, s),
    ensures
        r.avg_nanos == (r.total_nanos as int) / (r.iterations as int),
        r.min_nanos <= r.avg_nanos <= r.max_nanos,
{
    lemma_total_bounds(s);
    let n = s.len() as int;
    lemma_div_is_ordered(n * min_of(s), total_of(s), n);
    lemma_div_is_ordered(total_of(s), n * max_of(s), n);
    lemma_div_multiples_vanish(min_of(s), n);
    lemma_div_multiples_vanish(max_of(s), n);
}

/// Reduces the samples of a run to its summary. A run without samples has no
/// average, and is an error.
pub fn aggregate(client: Backend, samples: &Vec<IterationSample>) -> (r: Result<
    BenchmarkResult,
    ClientError,
>)
    ensures
        r is Err <==> samples@.len() == 0,
        r matches Err(e) ==> e is NoIterations,
        r matches Ok(res) ==> summarises(res, client, samples@),
{
    if samples.len() == 0 {
        return Err(ClientError::NoIterations);
    }
    let mut total: u128 = 0;
    let mut lo: u64 = samples[0].nanos;
    let mut hi: u64 = samples[0].nanos;
    let mut i: usize = 0;
    while i < samples.len()
        invariant
            samples@.len() >= 1,
            i <= samples@.len(),
            total == total_of(samples@.take(i as int)),
            i >= 1 ==> lo == min_of(samples@.take(i as int)),
            i >= 1 ==> hi == max_of(samples@.take(i as int)),
            i == 0 ==> lo == samples@[0].nanos && hi == samples@[0].nanos,
        decreases samples@.len() - i,
    {
        let ghost before = samples@.take(i as int);
        let ghost after = samples@.take(i + 1);
        assert(after.drop_last() =~= before);
        proof {
            lemma_total_bounds(after);
            assert(i + 1 <= 0xffff_ffff_ffff_ffffint);
            assert((i + 1) * 0xffff_ffff_ffff_ffffint <= 0xffff_ffff_ffff_ffff_ffff_ffff_ffff_ffffint)
                by (nonlinear_arith)
                requires
                    i + 1 <= 0xffff_ffff_ffff_ffffint,
            ;
        }
        let x = samples[i].nanos;
        total = total + x as u128;
        if i > 0 {
            if x < lo {
                lo = x;
            }
            if x > hi {
                hi = x;
            }
        }
        i = i + 1;
    }
    assert(samples@.take(i as int) =~= samples@);
    let n = samples.len() as u128;
    Ok(
        BenchmarkResult {
            client,
            iterations: samples.len() as u64,
            total_nanos: total,
            avg_nanos: total / n,
            min_nanos: lo,
            max_nanos: hi,
            rows: Some(samples[samples.len() - 1].rows),
        },
    )
}

/// What one query returned, as far as counting its rows is concerned.
#[derive(Debug)]
pub enum QueryOutcome {
    /// Columnar batches, given by their row counts.
    Columnar(Vec<u64>),
    /// A JSON array of this many records.
    JsonArray(u64),
    /// A JSON value that is not an array: one record.
    JsonValue,
    /// No result at all.
    Empty,
}

pub open spec fn sum_rows(s: Seq<u64>) -> int
    decreases s.len(),
{
    if s.len() == 0 {
        0
    } else {
        sum_rows(s.drop_last()) + s.last()
    }
}

proof fn lemma_sum_rows_bound(s: Seq<u64>)
    ensures
        0 <= sum_rows(s) <= s.len() * 0xffff_ffff_ffff_ffffint,
    decreases s.len(),
{
    if s.len() > 0 {
        lemma_sum_rows_bound(s.drop_last());
        let n = s.len() - 1;
        assert(sum_rows(s.drop_last()) + s.last() <= (n + 1) * 0xffff_ffff_ffff_ffffint)
            by (nonlinear_arith)
            requires
                sum_rows(s.drop_last()) <= n * 0xffff_ffff_ffff_ffffint,
                s.last() <= 0xffff_ffff_ffff_ffffint,
        ;
    }
}

/// The rows of all batches together.
pub fn count_rows(batches: &Vec<u64>) -> (r: u128)
    ensures
        r == sum_rows(batches@),
{
    let mut total: u128 = 0;
    let mut i: usize = 0;
    while i < batches.len()
        invariant
            i <= batches@.len(),
            total == sum_rows(batches@.take(i as int)),
        decreases batches@.len() - i,
    {
        let ghost after = batches@.take(i + 1);
        assert(after.drop_last() =~= batches@.take(i as int));
        proof {
            lemma_sum_rows_bound(after);
            assert((i + 1) * 0xffff_ffff_ffff_ffffint <= 0xffff_ffff_ffff_ffff_ffff_ffff_ffff_ffffint)
                by (nonlinear_arith)
                requires
                    i + 1 <= 0xffff_ffff_ffff_ffffint,
            ;
        }
        total = total + batches[i] as u128;
        i = i + 1;
    }
    assert(batches@.take(i as int) =~= batches@);
    total
}

/// The rows of a result read as columnar batches. A JSON result is the wrong shape,
/// and the error names the JSON backend.
pub fn columnar_row_count(o: &QueryOutcome) -> (r: Result<u128, ClientError>)
    ensures
        match *o {
            QueryOutcome::Columnar(b) => r == Ok::<u128, ClientError>(sum_rows(b@) as u128),
            QueryOutcome::Empty => r == Ok::<u128, ClientError>(0),
            _ => r matches Err(e) && e matches ClientError::ResultShapeMismatch { expected }
                && expected == ResultShape::Columnar,
        },
{
    match o {
        QueryOutcome::Columnar(b) => Ok(count_rows(b)),
        QueryOutcome::Empty => Ok(0),
        _ => Err(ClientError::ResultShapeMismatch { expected: ResultShape::Columnar }),
    }
}

/// The records of a result read as JSON: the length of an array, or one for any other
/// value. A columnar result is the wrong shape, and the error names the columnar backend.
pub fn json_record_count(o: &QueryOutcome) -> (r: Result<u128, ClientError>)
    ensures
        match *o {
            QueryOutcome::JsonArray(n) => r == Ok::<u128, ClientError>(n as u128),
            QueryOutcome::JsonValue => r == Ok::<u128, ClientError>(1),
            QueryOutcome::Empty => r == Ok::<u128, ClientError>(0),
            QueryOutcome::Columnar(_) => r matches Err(e) && e matches ClientError::ResultShapeMismatch {
                expected,
            } && expected == ResultShape::Json,
        },
{
    match o {
        QueryOutcome::JsonArray(n) => Ok(*n as u128),
        QueryOutcome::JsonValue => Ok(1),
        QueryOutcome::Empty => Ok(0),
        QueryOutcome::Columnar(_) => Err(ClientError::ResultShapeMismatch { expected: ResultShape::Json }),
    }
}

/// What to tell the operator after an iteration: its number, counted from one, its
/// time, and the rows it returned, which only the first iteration reports.
#[derive(Clone, Copy, Debug, PartialEq, Eq, Structural)]
pub struct Progress {
    pub iteration: u64,
    pub nanos: u64,
    pub rows: Option<u128>,
}

/// What a benchmark run does next.
#[derive(Debug)]
pub enum RunStep {
    /// Open a fresh connection and execute the query once more; `index` counts from zero.
    Execute { index: u32 },
    /// Every iteration has run: report the summary.
    Finished(BenchmarkResult),
}

/// A benchmark run in progress: iterations run one after another, each measured.
/// A failed iteration ends the run; no iteration is retried or skipped.
#[derive(Debug)]
pub struct BenchmarkRun {
    pub client: Backend,
    pub iterations: u32,
    pub samples: Vec<IterationSample>,
}

impl BenchmarkRun {
    pub open spec fn wf(&self) -> bool {
        1 <= self.iterations && self.samples@.len() <= self.iterations
    }

    /// A run of `iterations` executions through `client`; none is an error.
    pub fn new(client: Backend, iterations: u32) -> (r: Result<BenchmarkRun, ClientError>)
        ensures
            r is Err <==> iterations == 0,
            r matches Err(e) ==> e is NoIterations,
            r matches Ok(run) ==> run.wf() && run.client == client && run.iterations == iterations
                && run.samples@.len() == 0,
    {
        if iterations == 0 {
            Err(ClientError::NoIterations)
        } else {
            Ok(BenchmarkRun { client, iterations, samples: Vec::new() })
        }
    }

    /// The next iteration to run, or the summary once all have run.
    pub fn next_step(&self) -> (r: RunStep)
        requires
            self.wf(),
        ensures
            self.samples@.len() < self.iterations ==> (r matches RunStep::Execute { index }
                && index == self.samples@.len()),
            self.samples@.len() == self.iterations ==> (r matches RunStep::Finished(res)
                && summarises(res, self.client, self.samples@)),
    {
        if self.samples.len() < self.iterations as usize {
            RunStep::Execute { index: self.samples.len() as u32 }
        } else {
            match aggregate(self.client, &self.samples) {
                Ok(res) => RunStep::Finished(res),
                Err(_) => RunStep::Execute { index: 0 },
            }
        }
    }

    /// Records a completed iteration.
    pub fn record(&mut self, sample: IterationSample) -> (p: Progress)
        requires
            old(self).wf(),
            old(self).samples@.len() < old(self).iterations,
        ensures
            final(self).wf(),
            final(self).client == old(self).client,
            final(self).iterations == old(self).iterations,
            final(self).samples@ == old(self).samples@.push(sample),
            p.iteration == old(self).samples@.len() + 1,
            p.nanos == sample.nanos,
            p.rows == if old(self).samples@.len() == 0 {
                Some(sample.rows)
            } else {
                None
            },
    {
        let first = self.samples.len() == 0;
        let iteration = self.samples.len() as u64 + 1;
        self.samples.push(sample);
        Progress { iteration, nanos: sample.nanos, rows: if first { Some(sample.rows) } else { None } }
    }
}

} // verus!
