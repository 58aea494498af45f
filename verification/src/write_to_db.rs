//! The strategies for inserting metrics into the database.
//!
//! Each strategy turns a batch into the requests that carry it to the
//! store. Sending them is the caller's part: this module only says what is
//! sent.

use vstd::prelude::*;
use vstd::string::*;

use crate::batch::views;
use crate::parse::{
    is_token, lemma_tokens_after_blank, lemma_tokens_after_word, lemma_tokens_of_blank,
    tokens, Metric, MetricView,
};
use crate::text::{
    decimal, decimal_string, i32_of, is_whitespace, lemma_decimal_denotes,
    lemma_signed_decimal_round_trip, signed_decimal, signed_decimal_string,
};

verus! {

/// The most value tuples that one statement may carry: the store takes no
/// more arguments in one call.
pub const MAX_TUPLES: usize = 100;

/// A value bound to a placeholder of a statement.
#[derive(Clone, Debug, PartialEq, Eq)]
pub enum Param {
    /// A text value.
    Text(String),
    /// A double-precision value, as its IEEE 754 binary64 bit pattern.
    Double(u64),
    /// A 32-bit integer value.
    Int(i32),
}

/// A [`Param`] as plain values.
pub enum ParamView {
    Text(Seq<char>),
    Double(u64),
    Int(i32),
}

impl View for Param {
    type V = ParamView;

    open spec fn view(&self) -> ParamView {
        match self {
            Param::Text(text) => ParamView::Text(text@),
            Param::Double(bits) => ParamView::Double(*bits),
            Param::Int(n) => ParamView::Int(*n),
        }
    }
}

/// What a sequence of parameters holds, as plain values.
pub open spec fn param_views(params: Seq<Param>) -> Seq<ParamView> {
    params.map_values(|p: Param| p@)
}

/// What a sequence of strings holds, as plain values.
pub open spec fn string_views(strings: Seq<String>) -> Seq<Seq<char>> {
    strings.map_values(|s: String| s@)
}

/// The placeholder of parameter `k`, counted from one: `$k`.
pub open spec fn placeholder(k: nat) -> Seq<char> {
    "$"@ + decimal(k)
}

/// The value tuple of row `i`, counted from zero: it names the three
/// parameters `3i + 1`, `3i + 2` and `3i + 3`.
pub open spec fn tuple(i: nat) -> Seq<char> {
    "("@ + placeholder(3 * i + 1) + ", "@ + placeholder(3 * i + 2) + ", "@ + placeholder(3 * i + 3)
        + ")"@
}

/// The value tuples of rows zero to `n - 1`.
pub open spec fn tuples(n: nat) -> Seq<Seq<char>> {
    Seq::new(n, |i: int| tuple(i as nat))
}

/// The parts one after the other, with `separator` between each two.
pub open spec fn joined(parts: Seq<Seq<char>>, separator: Seq<char>) -> Seq<char>
    decreases parts.len(),
{
    if parts.len() == 0 {
        Seq::empty()
    } else if parts.len() == 1 {
        parts[0]
    } else {
        joined(parts.drop_last(), separator) + separator + parts.last()
    }
}

/// The three parameters of one row: path, value, timestamp.
pub open spec fn row_params(metric: MetricView) -> Seq<ParamView> {
    seq![
        ParamView::Text(metric.path),
        ParamView::Double(metric.value),
        ParamView::Int(metric.timestamp),
    ]
}

/// The parameters of a sequence of rows: those of the first row, then those
/// of the second, and so on.
pub open spec fn params_of(metrics: Seq<MetricView>) -> Seq<ParamView>
    decreases metrics.len(),
{
    if metrics.len() == 0 {
        Seq::empty()
    } else {
        params_of(metrics.drop_last()) + row_params(metrics.last())
    }
}

/// Writes the placeholder of parameter `k`.
fn placeholder_string(k: usize) -> (r: String)
    ensures
        r@ == placeholder(k as nat),
{
    let mut r = "$".to_owned();
    let digits = decimal_string(k as u64);
    r.append(digits.as_str());
    r
}

/// Writes the value tuple of row `i`.
fn tuple_string(i: usize) -> (r: String)
    requires
        i < MAX_TUPLES,
    ensures
        r@ == tuple(i as nat),
{
    let base: usize = i * 3;
    let first = placeholder_string(base + 1);
    let second = placeholder_string(base + 2);
    let third = placeholder_string(base + 3);
    let mut r = "(".to_owned();
    r.append(first.as_str());
    r.append(", ");
    r.append(second.as_str());
    r.append(", ");
    r.append(third.as_str());
    r.append(")");
    r
}

/// Joins `parts` with `separator` between each two.
fn join(parts: &Vec<String>, separator: &str) -> (r: String)
    ensures
        r@ == joined(string_views(parts@), separator@),
{
    let ghost all = string_views(parts@);
    let mut r = String::new();
    let mut i: usize = 0;
    while i < parts.len()
        invariant
            i <= parts.len(),
            all == string_views(parts@),
            r@ == joined(all.take(i as int), separator@),
        decreases parts.len() - i,
    {
        if i > 0 {
            r.append(separator);
        }
        r.append(parts[i].as_str());
        proof {
            assert(all.take(i + 1).drop_last() == all.take(i as int));
        }
        i += 1;
    }
    assert(all.take(parts.len() as int) == all);
    r
}

/// What is sent to the store in one round trip.
#[derive(Clone, Debug, PartialEq, Eq)]
pub enum Request {
    /// Start the bulk load that `statement` names and stream `input` into
    /// it.
    Copy { statement: String, input: String },
    /// Execute `query` with `params` bound to `$1`, `$2` and so on, in
    /// their order.
    Execute { query: String, params: Vec<Param> },
}

/// A [`Request`] as plain values.
pub enum RequestView {
    Copy { statement: Seq<char>, input: Seq<char> },
    Execute { query: Seq<char>, params: Seq<ParamView> },
}

impl View for Request {
    type V = RequestView;

    open spec fn view(&self) -> RequestView {
        match self {
            Request::Copy { statement, input } => RequestView::Copy {
                statement: statement@,
                input: input@,
            },
            Request::Execute { query, params } => RequestView::Execute {
                query: query@,
                params: param_views(params@),
            },
        }
    }
}

/// What a sequence of requests holds, as plain values.
pub open spec fn request_views(requests: Seq<Request>) -> Seq<RequestView> {
    requests.map_values(|r: Request| r@)
}

/// The `INSERT` statement for `n` rows.
pub open spec fn insert_query(n: nat) -> Seq<char> {
    "INSERT INTO metrics_view (path, value, \"timestamp\") VALUES "@ + joined(tuples(n), ","@)
}

/// The call of the stored procedure `insert_metrics` with `n` rows.
pub open spec fn call_query(n: nat) -> Seq<char> {
    "SELECT insert_metrics("@ + joined(tuples(n), ","@) + ")"@
}

/// The request that inserts `metrics` with one `INSERT` statement.
pub open spec fn insert_request(metrics: Seq<MetricView>) -> RequestView {
    RequestView::Execute { query: insert_query(metrics.len()), params: params_of(metrics) }
}

/// The request that inserts `metrics` with one call of `insert_metrics`.
pub open spec fn call_request(metrics: Seq<MetricView>) -> RequestView {
    RequestView::Execute { query: call_query(metrics.len()), params: params_of(metrics) }
}

/// The request that inserts one metric with a call of `insert_metric`.
pub open spec fn single_request(metric: MetricView) -> RequestView {
    RequestView::Execute { query: "SELECT insert_metric($1, $2, $3)"@, params: row_params(metric) }
}

/// The value tuples and the parameters of at most [`MAX_TUPLES`] rows.
fn prepare_multi_params(metrics: &[Metric]) -> (r: (Vec<String>, Vec<Param>))
    requires
        metrics.len() <= MAX_TUPLES,
    ensures
        string_views(r.0@) == tuples(metrics.len() as nat),
        param_views(r.1@) == params_of(views(metrics@)),
{
    let ghost rows = views(metrics@);
    let mut tuples: Vec<String> = Vec::new();
    let mut params: Vec<Param> = Vec::new();
    let mut index: usize = 0;
    while index < metrics.len()
        invariant
            index <= metrics.len() <= MAX_TUPLES,
            rows == views(metrics@),
            string_views(tuples@) == self::tuples(index as nat),
            param_views(params@) == params_of(rows.take(index as int)),
        decreases metrics.len() - index,
    {
        let metric = &metrics[index];
        let ghost tuples_before = tuples@;
        let text = tuple_string(index);
        tuples.push(text);
        let path = metric.path.clone();
        params.push(Param::Text(path));
        params.push(Param::Double(metric.value));
        params.push(Param::Int(metric.timestamp));
        proof {
            assert(string_views(tuples@) == string_views(tuples_before).push(text@));
            assert(rows.take(index + 1).drop_last() == rows.take(index as int));
        }
        index += 1;
    }
    assert(rows.take(metrics.len() as int) == rows);
    (tuples, params)
}

/// The `INSERT` statement for at most [`MAX_TUPLES`] rows, and its
/// parameters.
fn prepare_multi_insert(metrics: &[Metric]) -> (r: Request)
    requires
        metrics.len() <= MAX_TUPLES,
    ensures
        r@ == insert_request(views(metrics@)),
{
    let (tuples, params) = prepare_multi_params(metrics);
    let mut query = "INSERT INTO metrics_view (path, value, \"timestamp\") VALUES ".to_owned();
    let list = join(&tuples, ",");
    query.append(list.as_str());
    Request::Execute { query, params }
}

/// The call of `insert_metrics` for at most [`MAX_TUPLES`] rows, and its
/// parameters.
fn prepare_multi_sp(metrics: &[Metric]) -> (r: Request)
    requires
        metrics.len() <= MAX_TUPLES,
    ensures
        r@ == call_request(views(metrics@)),
{
    let (tuples, params) = prepare_multi_params(metrics);
    let mut query = "SELECT insert_metrics(".to_owned();
    let list = join(&tuples, ",");
    query.append(list.as_str());
    query.append(")");
    Request::Execute { query, params }
}

/// The number of statements that carry `n` rows, with at most
/// [`MAX_TUPLES`] rows in each.
pub open spec fn chunk_count(n: nat) -> nat {
    (n + MAX_TUPLES - 1) as nat / MAX_TUPLES as nat
}

/// The rows that statement `j` carries, counted from zero: rows
/// `j * MAX_TUPLES` up to `(j + 1) * MAX_TUPLES`, or up to the last row
/// where there are fewer.
pub open spec fn chunk(metrics: Seq<MetricView>, j: int) -> Seq<MetricView> {
    metrics.subrange(
        j * MAX_TUPLES,
        if (j + 1) * MAX_TUPLES <= metrics.len() {
            (j + 1) * MAX_TUPLES
        } else {
            metrics.len() as int
        },
    )
}

/// The rows of each statement, statement by statement.
pub open spec fn chunks(metrics: Seq<MetricView>) -> Seq<Seq<MetricView>> {
    Seq::new(chunk_count(metrics.len()), |j: int| chunk(metrics, j))
}

/// The request that carries `rows` as one statement: a call of
/// `insert_metrics` under the stored-procedure strategy, an `INSERT`
/// otherwise.
pub open spec fn statement_request(strategy: Strategy, rows: Seq<MetricView>) -> RequestView {
    match strategy {
        Strategy::StoredProcedure => call_request(rows),
        _ => insert_request(rows),
    }
}

/// Cuts a batch into statements of at most [`MAX_TUPLES`] rows each, in the
/// order of the batch, and writes each as `strategy` has it.
fn cut(strategy: Strategy, metrics: &[Metric]) -> (requests: Vec<Request>)
    ensures
        request_views(requests@) == chunks(views(metrics@)).map_values(
            |rows: Seq<MetricView>| statement_request(strategy, rows),
        ),
{
    let ghost rows = views(metrics@);
    let n = metrics.len();
    let mut requests: Vec<Request> = Vec::new();
    let mut start: usize = 0;
    while start < n
        invariant
            n == metrics.len(),
            rows == views(metrics@),
            start <= n,
            start < n ==> start == requests.len() * MAX_TUPLES,
            requests.len() == chunk_count(start as nat),
            forall|j: int|
                0 <= j < requests.len() ==> (#[trigger] requests[j])@ == statement_request(
                    strategy,
                    chunk(rows, j),
                ),
        decreases n - start,
    {
        let end: usize = if n - start > MAX_TUPLES {
            start + MAX_TUPLES
        } else {
            n
        };
        let part = vstd::slice::slice_subrange(metrics, start, end);
        assert(views(part@) == chunk(rows, requests.len() as int));
        let request = match strategy {
            Strategy::StoredProcedure => prepare_multi_sp(part),
            _ => prepare_multi_insert(part),
        };
        requests.push(request);
        start = end;
    }
    assert(request_views(requests@) =~= chunks(rows).map_values(
        |rows: Seq<MetricView>| statement_request(strategy, rows),
    ));
    requests
}

/// Batch-write metrics with `INSERT` statements.
///
/// A batch of at most [`MAX_TUPLES`] metrics goes out as one statement. A
/// larger one is cut into as many statements as it takes, each but the
/// last with [`MAX_TUPLES`] rows, in the order of the batch. An empty batch
/// takes no statement.
pub fn multi_insert(metrics: &[Metric]) -> (requests: Vec<Request>)
    ensures
        request_views(requests@) == chunks(views(metrics@)).map_values(
            |rows: Seq<MetricView>| insert_request(rows),
        ),
{
    let requests = cut(Strategy::MultiRow, metrics);
    assert(request_views(requests@) =~= chunks(views(metrics@)).map_values(
        |rows: Seq<MetricView>| insert_request(rows),
    ));
    requests
}

/// Batch-write metrics with calls of the variadic stored procedure
/// `insert_metrics`.
///
/// A batch of at most [`MAX_TUPLES`] metrics goes out as one call. A larger
/// one is cut into as many calls as it takes, each but the last with
/// [`MAX_TUPLES`] rows, in the order of the batch. An empty batch takes no
/// call.
pub fn multi_sp(metrics: &[Metric]) -> (requests: Vec<Request>)
    ensures
        request_views(requests@) == chunks(views(metrics@)).map_values(
            |rows: Seq<MetricView>| call_request(rows),
        ),
{
    let requests = cut(Strategy::StoredProcedure, metrics);
    assert(request_views(requests@) =~= chunks(views(metrics@)).map_values(
        |rows: Seq<MetricView>| call_request(rows),
    ));
    requests
}

/// Write metrics with the stored procedure `insert_metric`, one call for
/// each metric, in the order of the batch.
pub fn single(metrics: &[Metric]) -> (requests: Vec<Request>)
    ensures
        request_views(requests@) == views(metrics@).map_values(
            |row: MetricView| single_request(row),
        ),
{
    let mut requests: Vec<Request> = Vec::new();
    let mut index: usize = 0;
    while index < metrics.len()
        invariant
            index <= metrics.len(),
            requests.len() == index,
            forall|j: int|
                0 <= j < index ==> (#[trigger] requests[j])@ == single_request(metrics[j]@),
        decreases metrics.len() - index,
    {
        let metric = &metrics[index];
        let mut params: Vec<Param> = Vec::new();
        params.push(Param::Text(metric.path.clone()));
        params.push(Param::Double(metric.value));
        params.push(Param::Int(metric.timestamp));
        assert(param_views(params@) == row_params(metric@));
        let query = "SELECT insert_metric($1, $2, $3)".to_owned();
        requests.push(Request::Execute { query, params });
        index += 1;
    }
    assert(request_views(requests@) =~= views(metrics@).map_values(
        |row: MetricView| single_request(row),
    ));
    requests
}

/// One line of bulk-load input: path, timestamp and value with a tab
/// between them and a line feed at the end. The value stands as its
/// numeral.
pub open spec fn copy_line(metric: MetricView) -> Seq<char> {
    metric.path + "\t"@ + signed_decimal(metric.timestamp as int) + "\t"@ + metric.numeral + "\n"@
}

/// The bulk-load input for a batch: one line for each metric, in the order
/// of the batch.
pub open spec fn copy_input(metrics: Seq<MetricView>) -> Seq<char>
    decreases metrics.len(),
{
    if metrics.len() == 0 {
        Seq::empty()
    } else {
        copy_input(metrics.drop_last()) + copy_line(metrics.last())
    }
}

/// A line of bulk-load input has exactly three fields: the path, a numeral
/// that denotes the timestamp, and the numeral of the value. So
/// nothing of a metric runs into its neighbour on the way into the input.
pub proof fn lemma_copy_line_fields(metric: MetricView)
    requires
        metric.wf(),
    ensures
        tokens(copy_line(metric)) == seq![
            metric.path,
            signed_decimal(metric.timestamp as int),
            metric.numeral,
        ],
        i32_of(signed_decimal(metric.timestamp as int)) == Some(metric.timestamp),
{
    reveal_strlit("\t");
    reveal_strlit("\n");
    let tab = "\t"@;
    let feed = "\n"@;
    let stamp = signed_decimal(metric.timestamp as int);
    assert(is_token(stamp)) by {
        if metric.timestamp < 0 {
            let digits = decimal((-(metric.timestamp as int)) as nat);
            lemma_decimal_denotes((-(metric.timestamp as int)) as nat);
            assert forall|i: int| 0 <= i < stamp.len() implies !is_whitespace(
                #[trigger] stamp[i],
            ) by {
                if i > 0 {
                    assert(stamp[i] == digits[i - 1]);
                }
            }
        } else {
            lemma_decimal_denotes(metric.timestamp as nat);
        }
    }
    lemma_signed_decimal_round_trip(metric.timestamp as int);
    let r3 = metric.numeral + feed;
    let r2 = tab + r3;
    let r1 = stamp + r2;
    let r0 = tab + r1;
    let line = metric.path + r0;
    assert(copy_line(metric) == line);
    lemma_tokens_of_blank(feed);
    lemma_tokens_after_word(metric.numeral, feed);
    lemma_tokens_after_blank(tab, r3);
    lemma_tokens_after_word(stamp, r2);
    lemma_tokens_after_blank(tab, r1);
    lemma_tokens_after_word(metric.path, r0);
}

/// The request that loads `metrics` in bulk.
pub open spec fn copy_request(metrics: Seq<MetricView>) -> RequestView {
    RequestView::Copy { statement: "COPY metrics_view FROM STDIN"@, input: copy_input(metrics) }
}

/// Batch-write metrics with one `COPY ... FROM STDIN`: the whole batch goes
/// out as one request, whatever its size.
pub fn copy_in(metrics: &[Metric]) -> (requests: Vec<Request>)
    ensures
        request_views(requests@) == seq![copy_request(views(metrics@))],
{
    let ghost rows = views(metrics@);
    let mut input = String::new();
    let mut index: usize = 0;
    while index < metrics.len()
        invariant
            index <= metrics.len(),
            rows == views(metrics@),
            input@ == copy_input(rows.take(index as int)),
        decreases metrics.len() - index,
    {
        let metric = &metrics[index];
        let stamp = signed_decimal_string(metric.timestamp as i64);
        input.append(metric.path.as_str());
        input.append("\t");
        input.append(stamp.as_str());
        input.append("\t");
        input.append(metric.numeral.as_str());
        input.append("\n");
        proof {
            let now = rows.take(index + 1);
            assert(now.drop_last() == rows.take(index as int));
        }
        index += 1;
    }
    assert(rows.take(metrics.len() as int) == rows);
    let statement = "COPY metrics_view FROM STDIN".to_owned();
    let mut requests: Vec<Request> = Vec::new();
    requests.push(Request::Copy { statement, input });
    requests
}

/// How a batch is written to the store.
#[derive(Clone, Copy, Debug, PartialEq, Eq, Structural)]
pub enum Strategy {
    /// One bulk load for the whole batch: see [`copy_in`].
    BulkLoad,
    /// `INSERT` statements with many rows each: see [`multi_insert`].
    MultiRow,
    /// Calls of a variadic stored procedure: see [`multi_sp`].
    StoredProcedure,
    /// One call for each metric: see [`single`].
    RowAtATime,
}

impl Strategy {
    /// The requests that carry `metrics` to the store under this strategy.
    pub open spec fn plan(self, metrics: Seq<MetricView>) -> Seq<RequestView> {
        match self {
            Strategy::BulkLoad => seq![copy_request(metrics)],
            Strategy::MultiRow => chunks(metrics).map_values(
                |rows: Seq<MetricView>| insert_request(rows),
            ),
            Strategy::StoredProcedure => chunks(metrics).map_values(
                |rows: Seq<MetricView>| call_request(rows),
            ),
            Strategy::RowAtATime => metrics.map_values(|row: MetricView| single_request(row)),
        }
    }

    /// Builds the requests that carry `metrics` to the store under this
    /// strategy, in the order in which they are to be sent.
    pub fn requests(self, metrics: &[Metric]) -> (requests: Vec<Request>)
        ensures
            request_views(requests@) == self.plan(views(metrics@)),
    {
        match self {
            Strategy::BulkLoad => copy_in(metrics),
            Strategy::MultiRow => multi_insert(metrics),
            Strategy::StoredProcedure => multi_sp(metrics),
            Strategy::RowAtATime => single(metrics),
        }
    }
}

/// Row `i` of a statement is bound to the parameters `3i + 1`, `3i + 2` and
/// `3i + 3`, which are its path, its value and its timestamp; and a
/// statement has no other parameters.
pub proof fn lemma_param_slots(metrics: Seq<MetricView>)
    ensures
        params_of(metrics).len() == 3 * metrics.len(),
        forall|i: int|
            0 <= i < metrics.len() ==> {
                &&& params_of(metrics)[3 * i] == ParamView::Text((#[trigger] metrics[i]).path)
                &&& params_of(metrics)[3 * i + 1] == ParamView::Double(metrics[i].value)
                &&& params_of(metrics)[3 * i + 2] == ParamView::Int(metrics[i].timestamp)
            },
    decreases metrics.len(),
{
    if metrics.len() > 0 {
        let front = metrics.drop_last();
        lemma_param_slots(front);
        assert forall|i: int| 0 <= i < metrics.len() implies {
            &&& params_of(metrics)[3 * i] == ParamView::Text((#[trigger] metrics[i]).path)
            &&& params_of(metrics)[3 * i + 1] == ParamView::Double(metrics[i].value)
            &&& params_of(metrics)[3 * i + 2] == ParamView::Int(metrics[i].timestamp)
        } by {
            if i < front.len() {
                assert(front[i] == metrics[i]);
            }
        }
    }
}

/// No statement carries more rows than the store takes, none is empty, and
/// together the statements carry every row of the batch once, in the order
/// of the batch: cutting a batch truncates nothing.
pub proof fn lemma_chunks_cover(metrics: Seq<MetricView>)
    ensures
        chunks(metrics).flatten() == metrics,
        forall|j: int|
            0 <= j < chunks(metrics).len() ==> 0 < (#[trigger] chunks(metrics)[j]).len()
                <= MAX_TUPLES,
    decreases metrics.len(),
{
    let all = chunks(metrics);
    if metrics.len() == 0 {
    } else if metrics.len() <= MAX_TUPLES {
        assert(all.first() == metrics);
        assert(all.drop_first().flatten() == Seq::<MetricView>::empty());
    } else {
        let rest = metrics.skip(MAX_TUPLES as int);
        lemma_chunks_cover(rest);
        assert(all.first() == metrics.take(MAX_TUPLES as int));
        assert(all.drop_first() =~= chunks(rest)) by {
            assert forall|j: int| 0 <= j < chunks(rest).len() implies all.drop_first()[j] == chunks(
                rest,
            )[j] by {
                assert(chunk(metrics, j + 1) == chunk(rest, j));
            }
        }
        assert forall|j: int| 0 <= j < all.len() implies 0 < (#[trigger] all[j]).len()
            <= MAX_TUPLES by {
            if j > 0 {
                assert(all[j] == chunks(rest)[j - 1]);
            }
        }
    }
}

/// Every request of the two multi-row strategies binds at most three times
/// [`MAX_TUPLES`] parameters, whatever the size of the batch.
pub proof fn lemma_parameter_bound(metrics: Seq<MetricView>, j: int)
    requires
        0 <= j < chunks(metrics).len(),
    ensures
        Strategy::MultiRow.plan(metrics)[j] == insert_request(chunks(metrics)[j]),
        Strategy::StoredProcedure.plan(metrics)[j] == call_request(chunks(metrics)[j]),
        params_of(chunks(metrics)[j]).len() <= 3 * MAX_TUPLES,
{
    lemma_chunks_cover(metrics);
    lemma_param_slots(chunks(metrics)[j]);
}

/// What became of the write of one batch.
#[derive(Clone, Copy, Debug, PartialEq, Eq, Structural)]
pub enum WriteOutcome {
    /// The store took every request and wrote as many rows as the batch
    /// holds.
    Complete,
    /// The store took every request but reports `written` rows, which is
    /// not the size of the batch. This is worth a warning and no more. A
    /// count beyond 64 bits is reported as the largest 64-bit number.
    Mismatch { written: u64 },
    /// The store refused or failed at least one request. The batch is
    /// dropped: it is neither written again nor put back.
    Failed,
}

/// Whether at least one request failed. A request that failed reports no
/// number of rows.
pub open spec fn any_failed(results: Seq<Option<u64>>) -> bool {
    exists|i: int| 0 <= i < results.len() && #[trigger] results[i] is None
}

/// The number of rows that the requests report together.
pub open spec fn rows_written(results: Seq<Option<u64>>) -> nat
    decreases results.len(),
{
    if results.len() == 0 {
        0
    } else {
        rows_written(results.drop_last()) + match results.last() {
            Some(rows) => rows as nat,
            None => 0,
        }
    }
}

/// What became of the write of a batch of `expected` metrics, given what
/// each of its requests reported.
pub open spec fn outcome_of(expected: nat, results: Seq<Option<u64>>) -> WriteOutcome {
    if any_failed(results) {
        WriteOutcome::Failed
    } else if rows_written(results) == expected {
        WriteOutcome::Complete
    } else if rows_written(results) <= u64::MAX {
        WriteOutcome::Mismatch { written: rows_written(results) as u64 }
    } else {
        WriteOutcome::Mismatch { written: u64::MAX }
    }
}

/// Judges the write of a batch of `expected` metrics from what the store
/// reported for each of its requests, in any order: `Some` of the number
/// of rows written, or `None` for a request that failed.
pub fn assess(expected: usize, results: &[Option<u64>]) -> (outcome: WriteOutcome)
    ensures
        outcome == outcome_of(expected as nat, results@),
{
    let mut written: u64 = 0;
    let mut overflow = false;
    let mut index: usize = 0;
    while index < results.len()
        invariant
            index <= results.len(),
            !any_failed(results@.take(index as int)),
            !overflow ==> written == rows_written(results@.take(index as int)),
            overflow ==> rows_written(results@.take(index as int)) > u64::MAX,
        decreases results.len() - index,
    {
        let ghost before = results@.take(index as int);
        let ghost now = results@.take(index + 1);
        assert(now.drop_last() == before);
        match results[index] {
            None => {
                assert(results@[index as int] is None);
                return WriteOutcome::Failed;
            },
            Some(rows) => {
                if rows > u64::MAX - written {
                    overflow = true;
                } else if !overflow {
                    written = written + rows;
                }
                assert forall|i: int| 0 <= i < now.len() implies !(#[trigger] now[i] is None) by {
                    if i < index {
                        assert(before[i] == now[i]);
                    }
                }
            },
        }
        index += 1;
    }
    assert(results@.take(results.len() as int) == results@);
    if overflow {
        WriteOutcome::Mismatch { written: u64::MAX }
    } else if written as u128 == expected as u128 {
        WriteOutcome::Complete
    } else {
        WriteOutcome::Mismatch { written }
    }
}

} // verus!
