use carbon_timescaledb::parse::Metric;
use carbon_timescaledb::write_to_db::{
    assess, copy_in, multi_insert, multi_sp, single, Param, Request, Strategy, WriteOutcome,
    MAX_TUPLES,
};

fn metric(index: usize) -> Metric {
    Metric {
        path: format!("series.{}", index),
        value: (index as f64 + 0.5).to_bits(),
        numeral: format!("{}.5", index),
        timestamp: 1514764800 + index as i32,
    }
}

fn metrics(count: usize) -> Vec<Metric> {
    (0..count).map(metric).collect()
}

fn row(index: usize) -> Vec<Param> {
    vec![
        Param::Text(format!("series.{}", index)),
        Param::Double((index as f64 + 0.5).to_bits()),
        Param::Int(1514764800 + index as i32),
    ]
}

fn rows(from: usize, to: usize) -> Vec<Param> {
    (from..to).flat_map(row).collect()
}

fn parts(request: &Request) -> (&str, &Vec<Param>) {
    match request {
        Request::Execute { query, params } => (query.as_str(), params),
        Request::Copy { .. } => panic!("a bulk load where a statement was expected"),
    }
}

fn tuple_list(count: usize) -> String {
    let tuples: Vec<String> = (0..count)
        .map(|i| format!("(${}, ${}, ${})", 3 * i + 1, 3 * i + 2, 3 * i + 3))
        .collect();
    tuples.join(",")
}

#[test]
fn multi_insert_writes_one_statement_for_a_small_batch() {
    let requests = multi_insert(&metrics(2));
    assert_eq!(
        requests,
        vec![Request::Execute {
            query: "INSERT INTO metrics_view (path, value, \"timestamp\") VALUES ($1, $2, $3),($4, $5, $6)"
                .to_string(),
            params: vec![
                Param::Text("series.0".to_string()),
                Param::Double(0.5f64.to_bits()),
                Param::Int(1514764800),
                Param::Text("series.1".to_string()),
                Param::Double(1.5f64.to_bits()),
                Param::Int(1514764801),
            ],
        }]
    );
}

#[test]
fn multi_insert_of_one_metric() {
    let requests = multi_insert(&metrics(1));
    assert_eq!(requests.len(), 1);
    let (query, params) = parts(&requests[0]);
    assert_eq!(query, "INSERT INTO metrics_view (path, value, \"timestamp\") VALUES ($1, $2, $3)");
    assert_eq!(params, &row(0));
}

#[test]
fn multi_sp_writes_one_call_for_a_small_batch() {
    let requests = multi_sp(&metrics(3));
    assert_eq!(
        requests,
        vec![Request::Execute {
            query: "SELECT insert_metrics(($1, $2, $3),($4, $5, $6),($7, $8, $9))".to_string(),
            params: rows(0, 3),
        }]
    );
}

#[test]
fn row_i_is_bound_to_the_three_slots_after_3i() {
    let requests = multi_insert(&metrics(40));
    let (query, params) = parts(&requests[0]);
    assert!(query.ends_with(",($112, $113, $114),($115, $116, $117),($118, $119, $120)"));
    assert_eq!(params.len(), 120);
    for i in 0..40 {
        assert_eq!(params[3 * i], Param::Text(format!("series.{}", i)));
        assert_eq!(params[3 * i + 1], Param::Double((i as f64 + 0.5).to_bits()));
        assert_eq!(params[3 * i + 2], Param::Int(1514764800 + i as i32));
    }
}

#[test]
fn an_empty_batch_takes_no_statement() {
    assert_eq!(multi_insert(&[]), vec![]);
    assert_eq!(multi_sp(&[]), vec![]);
    assert_eq!(single(&[]), vec![]);
}

#[test]
fn a_batch_at_the_limit_takes_one_statement() {
    assert_eq!(MAX_TUPLES, 100);
    let requests = multi_insert(&metrics(MAX_TUPLES));
    assert_eq!(requests.len(), 1);
    let (query, params) = parts(&requests[0]);
    assert_eq!(
        query,
        format!(
            "INSERT INTO metrics_view (path, value, \"timestamp\") VALUES {}",
            tuple_list(100)
        )
    );
    assert!(query.ends_with("($298, $299, $300)"));
    assert_eq!(params, &rows(0, 100));
}

#[test]
fn a_batch_over_the_limit_is_cut_and_nothing_is_lost() {
    for count in [101usize, 199, 200, 250, 1000, 1001] {
        let batch = metrics(count);
        for requests in [multi_insert(&batch), multi_sp(&batch)] {
            assert_eq!(requests.len(), (count + 99) / 100);
            let mut bound: Vec<Param> = Vec::new();
            for (j, request) in requests.iter().enumerate() {
                let (_, params) = parts(request);
                let expected = if (j + 1) * 100 <= count { 100 } else { count - j * 100 };
                assert_eq!(params.len(), 3 * expected);
                assert!(params.len() <= 3 * MAX_TUPLES);
                assert!(!params.is_empty());
                bound.extend(params.iter().cloned());
            }
            assert_eq!(bound, rows(0, count));
        }
    }
}

#[test]
fn every_statement_of_a_cut_batch_counts_its_slots_from_one() {
    let requests = multi_insert(&metrics(250));
    assert_eq!(requests.len(), 3);
    let (first, first_params) = parts(&requests[0]);
    let (second, second_params) = parts(&requests[1]);
    let (third, third_params) = parts(&requests[2]);
    let head = "INSERT INTO metrics_view (path, value, \"timestamp\") VALUES ";
    assert_eq!(first, format!("{}{}", head, tuple_list(100)));
    assert_eq!(second, format!("{}{}", head, tuple_list(100)));
    assert_eq!(third, format!("{}{}", head, tuple_list(50)));
    assert_eq!(first_params, &rows(0, 100));
    assert_eq!(second_params, &rows(100, 200));
    assert_eq!(third_params, &rows(200, 250));
}

#[test]
fn multi_sp_cuts_a_batch_over_the_limit() {
    let requests = multi_sp(&metrics(101));
    assert_eq!(requests.len(), 2);
    let (first, first_params) = parts(&requests[0]);
    let (second, second_params) = parts(&requests[1]);
    assert_eq!(first, format!("SELECT insert_metrics({})", tuple_list(100)));
    assert_eq!(second, "SELECT insert_metrics(($1, $2, $3))");
    assert_eq!(first_params, &rows(0, 100));
    assert_eq!(second_params, &rows(100, 101));
}

#[test]
fn single_writes_one_call_for_each_metric() {
    let requests = single(&metrics(3));
    assert_eq!(requests.len(), 3);
    for (i, request) in requests.iter().enumerate() {
        assert_eq!(
            request,
            &Request::Execute {
                query: "SELECT insert_metric($1, $2, $3)".to_string(),
                params: row(i),
            }
        );
    }
    assert_eq!(single(&metrics(250)).len(), 250);
}

#[test]
fn copy_in_writes_one_line_for_each_metric() {
    let requests = copy_in(&metrics(3));
    assert_eq!(
        requests,
        vec![Request::Copy {
            statement: "COPY metrics_view FROM STDIN".to_string(),
            input: "series.0\t1514764800\t0.5\nseries.1\t1514764801\t1.5\nseries.2\t1514764802\t2.5\n"
                .to_string(),
        }]
    );
}

fn convert(field: &str) -> Option<(u64, String)> {
    field.parse::<f64>().ok().map(|value| (value.to_bits(), value.to_string()))
}

fn input_of(batch: &[Metric]) -> String {
    match copy_in(batch).remove(0) {
        Request::Copy { input, .. } => input,
        _ => panic!("a statement where a bulk load was expected"),
    }
}

#[test]
fn copy_in_writes_the_numeral_of_the_value() {
    let batch = vec![
        Metric {
            path: "a.b".to_string(),
            value: 1.5f64.to_bits(),
            numeral: "1.5".to_string(),
            timestamp: 10,
        },
        Metric {
            path: "c".to_string(),
            value: 2.0f64.to_bits(),
            numeral: "2".to_string(),
            timestamp: 20,
        },
    ];
    assert_eq!(input_of(&batch), "a.b\t10\t1.5\nc\t20\t2\n");
}

#[test]
fn copy_in_writes_the_number_and_not_the_field_as_it_came() {
    let batch = vec![
        Metric::parse("a.b 1.50 10", convert).unwrap(),
        Metric::parse("c 2.0 20", convert).unwrap(),
        Metric::parse("d 1e3 -5", convert).unwrap(),
        Metric::parse("e -.25 -2147483648", convert).unwrap(),
        Metric::parse("f 1e-400 0", convert).unwrap(),
    ];
    assert_eq!(
        input_of(&batch),
        "a.b\t10\t1.5\nc\t20\t2\nd\t-5\t1000\ne\t-2147483648\t-0.25\nf\t0\t0\n"
    );
}

#[test]
fn the_bulk_load_and_the_statements_carry_the_same_number() {
    let batch = vec![Metric::parse("c 2.0 20", convert).unwrap()];
    let text = input_of(&batch);
    let written: f64 = text.trim_end().split('\t').nth(2).unwrap().parse().unwrap();
    match &multi_insert(&batch)[0] {
        Request::Execute { params, .. } => assert_eq!(params[1], Param::Double(written.to_bits())),
        _ => panic!("a bulk load where a statement was expected"),
    }
}

#[test]
fn copy_in_sends_the_whole_batch_in_one_request() {
    let requests = copy_in(&metrics(1000));
    assert_eq!(requests.len(), 1);
    match &requests[0] {
        Request::Copy { input, .. } => assert_eq!(input.lines().count(), 1000),
        _ => panic!("a statement where a bulk load was expected"),
    }
    assert_eq!(
        copy_in(&[]),
        vec![Request::Copy {
            statement: "COPY metrics_view FROM STDIN".to_string(),
            input: String::new(),
        }]
    );
}

#[test]
fn a_strategy_builds_the_requests_of_its_function() {
    let batch = metrics(150);
    assert_eq!(Strategy::BulkLoad.requests(&batch), copy_in(&batch));
    assert_eq!(Strategy::MultiRow.requests(&batch), multi_insert(&batch));
    assert_eq!(Strategy::StoredProcedure.requests(&batch), multi_sp(&batch));
    assert_eq!(Strategy::RowAtATime.requests(&batch), single(&batch));
    assert_eq!(Strategy::BulkLoad.requests(&batch).len(), 1);
    assert_eq!(Strategy::MultiRow.requests(&batch).len(), 2);
    assert_eq!(Strategy::StoredProcedure.requests(&batch).len(), 2);
    assert_eq!(Strategy::RowAtATime.requests(&batch).len(), 150);
}

#[test]
fn a_write_is_complete_when_every_row_is_reported() {
    assert_eq!(assess(3, &[Some(3)]), WriteOutcome::Complete);
    assert_eq!(assess(250, &[Some(100), Some(100), Some(50)]), WriteOutcome::Complete);
    assert_eq!(assess(3, &[Some(1), Some(1), Some(1)]), WriteOutcome::Complete);
    assert_eq!(assess(0, &[]), WriteOutcome::Complete);
    assert_eq!(assess(0, &[Some(0)]), WriteOutcome::Complete);
}

#[test]
fn a_write_with_another_count_is_a_mismatch() {
    assert_eq!(assess(3, &[Some(2)]), WriteOutcome::Mismatch { written: 2 });
    assert_eq!(assess(3, &[Some(4)]), WriteOutcome::Mismatch { written: 4 });
    assert_eq!(assess(3, &[]), WriteOutcome::Mismatch { written: 0 });
    assert_eq!(assess(250, &[Some(100), Some(99), Some(50)]), WriteOutcome::Mismatch { written: 249 });
}

#[test]
fn a_write_with_a_failed_request_has_failed() {
    assert_eq!(assess(3, &[None]), WriteOutcome::Failed);
    assert_eq!(assess(3, &[Some(3), None]), WriteOutcome::Failed);
    assert_eq!(assess(3, &[None, Some(3)]), WriteOutcome::Failed);
    assert_eq!(assess(0, &[None]), WriteOutcome::Failed);
    assert_eq!(assess(2, &[Some(u64::MAX), Some(1), None]), WriteOutcome::Failed);
}

#[test]
fn a_count_beyond_64_bits_is_a_mismatch() {
    assert_eq!(
        assess(3, &[Some(u64::MAX), Some(1)]),
        WriteOutcome::Mismatch { written: u64::MAX }
    );
    assert_eq!(
        assess(3, &[Some(u64::MAX), Some(4), Some(0)]),
        WriteOutcome::Mismatch { written: u64::MAX }
    );
    assert_eq!(
        assess(3, &[Some(u64::MAX - 1), Some(1)]),
        WriteOutcome::Mismatch { written: u64::MAX }
    );
}
