use copr_dag::deadline::{Clock, Deadline};
use copr_dag::errors::{BuildErrorKind, Error, EvalErrorKind};
use copr_dag::expr::{Expr, ScalarFuncSig};
use copr_dag::plan::{
    AggExpr, AggFunc, Aggregation, DagRequest, ExecDescriptor, IndexScan, KeyRange, Limit,
    OrderBy, Selection, TableScan, TopN,
};
use copr_dag::response::SelectResponse;
use copr_dag::runner::ExecutorsRunner;
use copr_dag::storage::{MemStorage, StorageEntry, StorageStats};
use copr_dag::value::Datum;

fn int_row_entries(values: &[i64]) -> Vec<StorageEntry> {
    values
        .iter()
        .enumerate()
        .map(|(i, v)| StorageEntry {
            key: vec![0x10, (i + 1) as u8],
            row: vec![Datum::Int(*v)],
        })
        .collect()
}

fn whole_range() -> KeyRange {
    KeyRange {
        start: vec![0x00],
        end: vec![0xff],
    }
}

fn far_deadline() -> Deadline {
    Deadline::new(u64::MAX)
}

fn fixed_clock() -> Clock {
    Clock::Manual { now: 0, step: 0 }
}

fn table_scan() -> ExecDescriptor {
    ExecDescriptor::TableScan(TableScan {})
}

fn gt_const(column: usize, bound: i64) -> Expr {
    Expr::call(
        ScalarFuncSig::GTInt,
        vec![Expr::column(column), Expr::constant(Datum::Int(bound))],
    )
}

fn request(executors: Vec<ExecDescriptor>, offsets: Vec<u32>) -> DagRequest {
    DagRequest {
        executors,
        output_offsets: offsets,
        collect_execution_summaries: false,
        max_warning_cnt: 64,
    }
}

fn run(
    values: &[i64],
    executors: Vec<ExecDescriptor>,
    batch_row_limit: usize,
) -> Result<SelectResponse, Error> {
    let storage = MemStorage::new(int_row_entries(values));
    let mut runner = ExecutorsRunner::from_request(
        request(executors, vec![0]),
        vec![whole_range()],
        storage,
        far_deadline(),
        fixed_clock(),
        batch_row_limit,
        false,
    )
    .unwrap();
    runner.handle_request()
}

fn encoded_int(v: i64) -> Vec<u8> {
    let mut out = vec![0x01];
    out.extend_from_slice(&(v as u64).to_le_bytes());
    out
}

#[test]
fn selection_limit_scenario() {
    // ten rows, six of which satisfy col0 > 5; a limit of three emits
    // exactly three rows while the scan touched the whole range
    let values = [1, 2, 3, 4, 6, 7, 8, 9, 10, 11];
    let plan = vec![
        table_scan(),
        ExecDescriptor::Selection(Selection {
            conditions: vec![gt_const(0, 5)],
        }),
        ExecDescriptor::Limit(Limit { limit: 3 }),
    ];
    let resp = run(&values, plan, 100).unwrap();
    assert!(resp.error.is_none());
    assert_eq!(resp.chunks.len(), 1);
    assert_eq!(resp.chunks[0].rows.len(), 3);
    assert_eq!(resp.chunks[0].rows[0], encoded_int(6));
    assert_eq!(resp.chunks[0].rows[1], encoded_int(7));
    assert_eq!(resp.chunks[0].rows[2], encoded_int(8));
    // all ten rows were touched by the scan, not just the matches
    assert_eq!(resp.output_counts, vec![10]);
}

#[test]
fn chunks_respect_batch_row_limit() {
    let values = [1, 2, 3, 4, 5, 6, 7, 8, 9, 10];
    let resp = run(&values, vec![table_scan()], 3).unwrap();
    assert_eq!(resp.chunks.len(), 4);
    assert_eq!(resp.chunks[0].rows.len(), 3);
    assert_eq!(resp.chunks[1].rows.len(), 3);
    assert_eq!(resp.chunks[2].rows.len(), 3);
    // the last chunk may hold fewer
    assert_eq!(resp.chunks[3].rows.len(), 1);
}

#[test]
fn statistics_reset_between_calls() {
    let values = [1, 2, 3];
    let storage = MemStorage::new(int_row_entries(&values));
    let mut runner = ExecutorsRunner::from_request(
        request(vec![table_scan()], vec![0]),
        vec![whole_range()],
        storage,
        far_deadline(),
        fixed_clock(),
        10,
        false,
    )
    .unwrap();
    let first = runner.handle_request().unwrap();
    assert_eq!(first.output_counts, vec![3]);
    assert_eq!(first.chunks.len(), 1);
    // the second run of the same runner starts from drained statistics
    let second = runner.handle_request().unwrap();
    assert_eq!(second.output_counts, Vec::<i64>::new());
    assert!(second.chunks.is_empty());
}

#[test]
fn deadline_cuts_off_between_rows() {
    let values = [1, 2, 3, 4, 5];
    let storage = MemStorage::new(int_row_entries(&values));
    let mut runner = ExecutorsRunner::from_request(
        request(vec![table_scan()], vec![0]),
        vec![whole_range()],
        storage,
        Deadline::new(25),
        Clock::Manual { now: 0, step: 10 },
        10,
        false,
    )
    .unwrap();
    // checks run at 0, 10, 20 and then 30, which lies past the bound
    let r = runner.handle_request();
    assert_eq!(r.unwrap_err(), Error::DeadlineExceeded);
}

#[test]
fn empty_plan_is_a_build_error() {
    let storage = MemStorage::new(vec![]);
    let r = ExecutorsRunner::from_request(
        request(vec![], vec![0]),
        vec![whole_range()],
        storage,
        far_deadline(),
        fixed_clock(),
        10,
        false,
    );
    assert_eq!(r.err().unwrap(), Error::Build(BuildErrorKind::NoExecutor));
}

#[test]
fn non_scan_first_is_a_build_error() {
    let storage = MemStorage::new(vec![]);
    let r = ExecutorsRunner::from_request(
        request(vec![ExecDescriptor::Limit(Limit { limit: 1 })], vec![0]),
        vec![whole_range()],
        storage,
        far_deadline(),
        fixed_clock(),
        10,
        false,
    );
    assert_eq!(
        r.err().unwrap(),
        Error::Build(BuildErrorKind::UnexpectedFirstScanner)
    );
}

#[test]
fn scan_after_first_is_a_build_error() {
    let storage = MemStorage::new(vec![]);
    let r = ExecutorsRunner::from_request(
        request(vec![table_scan(), table_scan()], vec![0]),
        vec![whole_range()],
        storage,
        far_deadline(),
        fixed_clock(),
        10,
        false,
    );
    assert_eq!(
        r.err().unwrap(),
        Error::Build(BuildErrorKind::UnexpectedNonFirstExecutor)
    );
}

#[test]
fn every_wrapping_stage_builds() {
    let plan = vec![
        table_scan(),
        ExecDescriptor::Selection(Selection {
            conditions: vec![gt_const(0, 0)],
        }),
        ExecDescriptor::Aggregation(Aggregation {
            group_by: vec![Expr::column(0)],
            agg_funcs: vec![AggExpr {
                func: AggFunc::Count,
                expr: Expr::column(0),
            }],
        }),
        ExecDescriptor::TopN(TopN {
            order_by: vec![OrderBy {
                expr: Expr::column(0),
                desc: false,
            }],
            limit: 5,
        }),
        ExecDescriptor::Limit(Limit { limit: 5 }),
    ];
    // output offset 0 addresses the aggregate column of the grouped rows
    let resp = run(&[2, 2, 3], plan, 10).unwrap();
    assert!(resp.error.is_none());
}

#[test]
fn index_scan_unique_serves_one_row_per_range() {
    let entries = int_row_entries(&[7, 8, 9]);
    let storage = MemStorage::new(entries);
    let plan = vec![ExecDescriptor::IndexScan(IndexScan { unique: true })];
    let mut runner = ExecutorsRunner::from_request(
        request(plan, vec![0]),
        vec![whole_range()],
        storage,
        far_deadline(),
        fixed_clock(),
        10,
        false,
    )
    .unwrap();
    let resp = runner.handle_request().unwrap();
    // one range, so the unique hint short-circuits after its first match
    assert_eq!(resp.chunks.len(), 1);
    assert_eq!(resp.chunks[0].rows.len(), 1);
    assert_eq!(resp.chunks[0].rows[0], encoded_int(7));
}

#[test]
fn hash_aggregation_groups_rows() {
    let values = [5, 5, 7, 5, 7];
    // grouped rows hold the aggregates first, then the group key
    let storage = MemStorage::new(int_row_entries(&values));
    let mut runner = ExecutorsRunner::from_request(
        request(
            vec![
                table_scan(),
                ExecDescriptor::Aggregation(Aggregation {
                    group_by: vec![Expr::column(0)],
                    agg_funcs: vec![AggExpr {
                        func: AggFunc::Count,
                        expr: Expr::column(0),
                    }],
                }),
            ],
            vec![0, 1],
        ),
        vec![whole_range()],
        storage,
        far_deadline(),
        fixed_clock(),
        10,
        false,
    )
    .unwrap();
    let resp = runner.handle_request().unwrap();
    assert_eq!(resp.chunks[0].rows.len(), 2);
    let mut expected_first = encoded_int(3);
    expected_first.extend_from_slice(&encoded_int(5));
    let mut expected_second = encoded_int(2);
    expected_second.extend_from_slice(&encoded_int(7));
    // groups come out in first-seen order
    assert_eq!(resp.chunks[0].rows[0], expected_first);
    assert_eq!(resp.chunks[0].rows[1], expected_second);
}

#[test]
fn stream_aggregation_needs_ordered_input() {
    // input already ordered by the group key
    let values = [1, 1, 2, 3, 3];
    let storage = MemStorage::new(int_row_entries(&values));
    let mut runner = ExecutorsRunner::from_request(
        request(
            vec![
                table_scan(),
                ExecDescriptor::StreamAgg(Aggregation {
                    group_by: vec![Expr::column(0)],
                    agg_funcs: vec![AggExpr {
                        func: AggFunc::Sum,
                        expr: Expr::column(0),
                    }],
                }),
            ],
            vec![0, 1],
        ),
        vec![whole_range()],
        storage,
        far_deadline(),
        fixed_clock(),
        10,
        false,
    )
    .unwrap();
    let resp = runner.handle_request().unwrap();
    assert_eq!(resp.chunks[0].rows.len(), 3);
    let mut g1 = encoded_int(2);
    g1.extend_from_slice(&encoded_int(1));
    let mut g2 = encoded_int(2);
    g2.extend_from_slice(&encoded_int(2));
    let mut g3 = encoded_int(6);
    g3.extend_from_slice(&encoded_int(3));
    assert_eq!(resp.chunks[0].rows[0], g1);
    assert_eq!(resp.chunks[0].rows[1], g2);
    assert_eq!(resp.chunks[0].rows[2], g3);
}

#[test]
fn top_n_keeps_the_best_rows_in_order() {
    let values = [9, 1, 7, 3, 5];
    let plan = vec![
        table_scan(),
        ExecDescriptor::TopN(TopN {
            order_by: vec![OrderBy {
                expr: Expr::column(0),
                desc: false,
            }],
            limit: 3,
        }),
    ];
    let resp = run(&values, plan, 10).unwrap();
    assert_eq!(resp.chunks[0].rows.len(), 3);
    assert_eq!(resp.chunks[0].rows[0], encoded_int(1));
    assert_eq!(resp.chunks[0].rows[1], encoded_int(3));
    assert_eq!(resp.chunks[0].rows[2], encoded_int(5));
    // the descending direction reverses what is kept
    let plan = vec![
        table_scan(),
        ExecDescriptor::TopN(TopN {
            order_by: vec![OrderBy {
                expr: Expr::column(0),
                desc: true,
            }],
            limit: 2,
        }),
    ];
    let resp = run(&values, plan, 10).unwrap();
    assert_eq!(resp.chunks[0].rows.len(), 2);
    assert_eq!(resp.chunks[0].rows[0], encoded_int(9));
    assert_eq!(resp.chunks[0].rows[1], encoded_int(7));
}

#[test]
fn evaluation_error_is_returned_as_evaluate() {
    // the predicate addresses a column outside the row
    let plan = vec![
        table_scan(),
        ExecDescriptor::Selection(Selection {
            conditions: vec![gt_const(9, 5)],
        }),
    ];
    let r = run(&[1], plan, 10);
    assert_eq!(
        r.err().unwrap(),
        Error::Evaluate(EvalErrorKind::ColumnOffset)
    );
}

#[test]
fn output_offset_out_of_range_is_an_evaluation_error() {
    let storage = MemStorage::new(int_row_entries(&[1]));
    let mut runner = ExecutorsRunner::from_request(
        request(vec![table_scan()], vec![4]),
        vec![whole_range()],
        storage,
        far_deadline(),
        fixed_clock(),
        10,
        false,
    )
    .unwrap();
    let r = runner.handle_request();
    assert_eq!(
        r.err().unwrap(),
        Error::Evaluate(EvalErrorKind::ColumnOffset)
    );
}

#[test]
fn storage_statistics_are_collected() {
    let values = [1, 2, 3];
    let storage = MemStorage::new(int_row_entries(&values));
    let mut runner = ExecutorsRunner::from_request(
        request(vec![table_scan()], vec![0]),
        vec![whole_range()],
        storage,
        far_deadline(),
        fixed_clock(),
        10,
        false,
    )
    .unwrap();
    runner.handle_request().unwrap();
    let mut dest = StorageStats::new();
    runner.collect_storage_stats(&mut dest);
    assert_eq!(dest.rows_fetched, 3);
    assert_eq!(dest.ranges_opened, 1);
}

#[test]
fn warnings_travel_with_the_response() {
    // a remainder by zero in the predicate notes a warning per row and
    // filters every row out, since its value is null
    let modulo = Expr::call(
        ScalarFuncSig::ModInt,
        vec![Expr::column(0), Expr::constant(Datum::Int(0))],
    );
    let plan = vec![
        table_scan(),
        ExecDescriptor::Selection(Selection {
            conditions: vec![modulo],
        }),
    ];
    let resp = run(&[1, 2], plan, 10).unwrap();
    assert!(resp.chunks.is_empty());
    assert_eq!(resp.warning_count, 2);
    assert_eq!(resp.warnings.len(), 2);
}

#[test]
fn execution_summaries_when_requested() {
    let values = [4, 5, 6];
    let storage = MemStorage::new(int_row_entries(&values));
    let mut req = request(
        vec![
            table_scan(),
            ExecDescriptor::Limit(Limit { limit: 2 }),
        ],
        vec![0],
    );
    req.collect_execution_summaries = true;
    let mut runner = ExecutorsRunner::from_request(
        req,
        vec![whole_range()],
        storage,
        far_deadline(),
        fixed_clock(),
        10,
        false,
    )
    .unwrap();
    let resp = runner.handle_request().unwrap();
    // one summary slot per descriptor
    assert_eq!(resp.execution_summaries.len(), 2);
    // the limit was pulled three times and produced two rows
    assert_eq!(resp.execution_summaries[1].num_iterations, 3);
    assert_eq!(resp.execution_summaries[1].num_produced_rows, 2);
    // the scan under it produced the same two rows
    assert_eq!(resp.execution_summaries[0].num_produced_rows, 2);
}

#[test]
fn scan_counts_every_range_it_opens() {
    let entries = int_row_entries(&[1, 2, 3, 4, 5]);
    let storage = MemStorage::new(entries);
    // keys run from [0x10, 1] to [0x10, 5]: split them two and three
    let ranges = vec![
        KeyRange {
            start: vec![0x10, 1],
            end: vec![0x10, 3],
        },
        KeyRange {
            start: vec![0x10, 3],
            end: vec![0x10, 6],
        },
    ];
    let mut runner = ExecutorsRunner::from_request(
        request(vec![table_scan()], vec![0]),
        ranges,
        storage,
        far_deadline(),
        fixed_clock(),
        10,
        false,
    )
    .unwrap();
    let resp = runner.handle_request().unwrap();
    assert_eq!(resp.output_counts, vec![2, 3]);
    assert_eq!(resp.chunks[0].rows.len(), 5);
}

#[test]
fn byte_string_columns_encode_with_length() {
    let entries = vec![StorageEntry {
        key: vec![0x10, 1],
        row: vec![Datum::Int(7), Datum::Bytes(b"ab".to_vec())],
    }];
    let storage = MemStorage::new(entries);
    let mut runner = ExecutorsRunner::from_request(
        request(vec![table_scan()], vec![1, 0]),
        vec![whole_range()],
        storage,
        far_deadline(),
        fixed_clock(),
        10,
        false,
    )
    .unwrap();
    let resp = runner.handle_request().unwrap();
    let mut expected = vec![0x02];
    expected.extend_from_slice(&2u64.to_le_bytes());
    expected.extend_from_slice(b"ab");
    expected.extend_from_slice(&encoded_int(7));
    assert_eq!(resp.chunks[0].rows[0], expected);
}
