use copr_dag::dag::{build_handler, RequestHandler};
use copr_dag::deadline::{Clock, Deadline};
use copr_dag::expr::{Expr, ScalarFuncSig};
use copr_dag::plan::{DagRequest, ExecDescriptor, KeyRange, Selection, TableScan};
use copr_dag::response::{Chunk, ResponsePayload};
use copr_dag::runner::ExecutorsRunner;
use copr_dag::storage::{MemStorage, StorageEntry};
use copr_dag::value::Datum;

fn int_row_entries(values: &[i64]) -> Vec<StorageEntry> {
    values
        .iter()
        .enumerate()
        .map(|(i, v)| StorageEntry {
            key: vec![0x10, (i + 1) as u8],
            row: vec![Datum::Int(*v)],
        })
        .collect()
}

fn whole_range() -> KeyRange {
    KeyRange {
        start: vec![0x00],
        end: vec![0xff],
    }
}

fn request(executors: Vec<ExecDescriptor>) -> DagRequest {
    DagRequest {
        executors,
        output_offsets: vec![0],
        collect_execution_summaries: false,
        max_warning_cnt: 64,
    }
}

fn streaming_runner(values: &[i64], batch_row_limit: usize) -> ExecutorsRunner {
    ExecutorsRunner::from_request(
        request(vec![ExecDescriptor::TableScan(TableScan {})]),
        vec![whole_range()],
        MemStorage::new(int_row_entries(values)),
        Deadline::new(u64::MAX),
        Clock::Manual { now: 0, step: 0 },
        batch_row_limit,
        true,
    )
    .unwrap()
}

fn chunk_rows(c: &Chunk) -> usize {
    c.rows.len()
}

#[test]
fn streaming_on_empty_source_finishes_at_once() {
    let mut runner = streaming_runner(&[], 2);
    let (resp, finished) = runner.handle_streaming_request().unwrap();
    assert!(resp.is_none());
    assert!(finished);
}

#[test]
fn streaming_pulls_bounded_batches() {
    let mut runner = streaming_runner(&[1, 2, 3, 4, 5], 2);

    let (resp, finished) = runner.handle_streaming_request().unwrap();
    let (resp, range) = resp.unwrap();
    assert_eq!(chunk_rows(&resp.data), 2);
    // the limit cut the pull short: more rows may follow
    assert!(!finished);
    // the unconsumed remainder starts at the next unserved key
    assert_eq!(range.lower_inclusive, vec![0x10, 3]);
    assert_eq!(range.upper_exclusive, vec![0xff]);
    assert_eq!(resp.output_counts, vec![5]);

    let (resp, finished) = runner.handle_streaming_request().unwrap();
    let (resp, _range) = resp.unwrap();
    assert_eq!(chunk_rows(&resp.data), 2);
    assert!(!finished);
    // the second batch carries no scan counts: they were drained already
    assert_eq!(resp.output_counts, Vec::<i64>::new());

    let (resp, finished) = runner.handle_streaming_request().unwrap();
    let (resp, _range) = resp.unwrap();
    assert_eq!(chunk_rows(&resp.data), 1);
    assert!(finished);

    let (resp, finished) = runner.handle_streaming_request().unwrap();
    assert!(resp.is_none());
    assert!(finished);
}

#[test]
fn streaming_batch_exactly_at_limit_reports_unfinished() {
    let mut runner = streaming_runner(&[1, 2], 2);
    let (resp, finished) = runner.handle_streaming_request().unwrap();
    assert_eq!(chunk_rows(&resp.unwrap().0.data), 2);
    // the limit was hit before exhaustion was observed
    assert!(!finished);
    let (resp, finished) = runner.handle_streaming_request().unwrap();
    assert!(resp.is_none());
    assert!(finished);
}

fn supported_plan() -> Vec<ExecDescriptor> {
    vec![
        ExecDescriptor::TableScan(TableScan {}),
        ExecDescriptor::Selection(Selection {
            conditions: vec![Expr::call(
                ScalarFuncSig::GTInt,
                vec![Expr::column(0), Expr::constant(Datum::Int(5))],
            )],
        }),
    ]
}

fn unsupported_plan() -> Vec<ExecDescriptor> {
    // bitwise-and has no routine on the vectorized path
    vec![
        ExecDescriptor::TableScan(TableScan {}),
        ExecDescriptor::Selection(Selection {
            conditions: vec![Expr::call(
                ScalarFuncSig::BitAndSig,
                vec![Expr::column(0), Expr::constant(Datum::Int(1))],
            )],
        }),
    ]
}

fn build(plan: Vec<ExecDescriptor>, enable_batch: bool, streaming: bool) -> RequestHandler {
    build_handler(
        request(plan),
        vec![whole_range()],
        MemStorage::new(int_row_entries(&[1, 2, 3, 6, 7, 8])),
        Deadline::new(u64::MAX),
        Clock::Manual { now: 0, step: 0 },
        10,
        streaming,
        enable_batch,
    )
    .unwrap()
}

#[test]
fn mode_selector_picks_batch_when_supported() {
    let handler = build(supported_plan(), true, false);
    assert!(matches!(handler, RequestHandler::Batch(_)));
}

#[test]
fn mode_selector_falls_back_on_unsupported_signature() {
    let handler = build(unsupported_plan(), true, false);
    assert!(matches!(handler, RequestHandler::Dag(_)));
}

#[test]
fn mode_selector_never_batches_streaming_or_disabled() {
    assert!(matches!(build(supported_plan(), true, true), RequestHandler::Dag(_)));
    assert!(matches!(build(supported_plan(), false, false), RequestHandler::Dag(_)));
}

fn select_chunks(handler: &mut RequestHandler) -> Vec<Vec<Vec<u8>>> {
    let resp = handler.handle_request().unwrap();
    match resp.payload {
        ResponsePayload::Select(sp) => {
            assert!(sp.error.is_none());
            sp.chunks.into_iter().map(|c| c.rows).collect()
        }
        ResponsePayload::Stream(_) => panic!("expected a select payload"),
    }
}

#[test]
fn fallback_produces_the_same_rows_as_batch() {
    // a plan both strategies take gives the same row set either way
    let mut batch_handler = build(supported_plan(), true, false);
    let mut normal_handler = build(supported_plan(), false, false);
    assert!(matches!(batch_handler, RequestHandler::Batch(_)));
    assert!(matches!(normal_handler, RequestHandler::Dag(_)));
    let batch_rows: Vec<Vec<u8>> = select_chunks(&mut batch_handler).concat();
    let normal_rows: Vec<Vec<u8>> = select_chunks(&mut normal_handler).concat();
    assert_eq!(batch_rows, normal_rows);
    assert_eq!(batch_rows.len(), 3);
}

#[test]
fn fallback_still_produces_correct_rows() {
    // the unsupported signature downgrades to normal execution and the
    // result is still right: values with the low bit set
    let mut handler = build(unsupported_plan(), true, false);
    let rows: Vec<Vec<u8>> = select_chunks(&mut handler).concat();
    let expected: Vec<Vec<u8>> = [1i64, 3, 7]
        .iter()
        .map(|v| {
            let mut out = vec![0x01];
            out.extend_from_slice(&(*v as u64).to_le_bytes());
            out
        })
        .collect();
    assert_eq!(rows, expected);
}

#[test]
fn chunk_data_flattens_rows_in_order() {
    let mut c = Chunk::new();
    c.append_row(vec![1, 2]);
    c.append_row(vec![]);
    c.append_row(vec![3]);
    assert_eq!(c.num_rows(), 3);
    assert_eq!(c.rows_data(), vec![1, 2, 3]);
}
