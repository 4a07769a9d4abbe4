use blockstm_logging::replay::{
    account_key, account_label, average, bench_runs, benchmark_logging_config, block_label,
    dataset_of, detailed_mapping_metrics, erc20_sequence_numbers, execution_results_data,
    hex_string, load_history, load_replay_records, mapping_lines, mapping_row, meta_figures,
    parse_history_row, parse_replay_row, replay_context, row_hash, sort_values, sweep_block_sizes,
    sweep_figures, sweep_grid, tps, transaction_mapping_metrics, AccountIds, BenchRun,
    TransactionData,
};
use blockstm_logging::config::LogLevel;
use sha2::{Digest, Sha256};

fn lines(v: &[&str]) -> Vec<Result<String, String>> {
    v.iter().map(|s| Ok(s.to_string())).collect()
}

#[test]
fn dataset_follows_the_path() {
    assert_eq!(dataset_of("data/ETH_2401_100000.csv"), "ETH");
    assert_eq!(dataset_of("../data/USDT_240101_240331_data_100000.csv"), "USDT");
    assert_eq!(dataset_of("ETH_USDT.csv"), "ETH");
    assert_eq!(dataset_of("other.csv"), "UNKNOWN");
    assert_eq!(dataset_of(""), "UNKNOWN");
}

#[test]
fn labels() {
    assert_eq!(account_label(0), "account_0");
    assert_eq!(account_label(4021), "account_4021");
    assert_eq!(block_label(0), "block_000");
    assert_eq!(block_label(7), "block_007");
    assert_eq!(block_label(42), "block_042");
    assert_eq!(block_label(123), "block_123");
    assert_eq!(block_label(12345), "block_12345");
    assert_eq!(account_key(77), "77");
}

#[test]
fn history_row_is_read() {
    let (f, t, d) = parse_history_row(3, "12,34,500,extra", 2).unwrap();
    assert_eq!((f, t), (12, 34));
    assert_eq!(d.from_address, "account_12");
    assert_eq!(d.to_address, "account_34");
    assert_eq!(d.amount, 500);
    assert_eq!(d.transaction_hash, "txn_3_12_to_34");
    assert_eq!(d.block_number, 2);
    assert_eq!(d.transaction_index, 2);
}

#[test]
fn history_row_defaults_and_refusals() {
    let (_, _, d) = parse_history_row(1, "1,2,lots", 0).unwrap();
    assert_eq!(d.amount, 1);
    let (f, _, _) = parse_history_row(1, "+5,2,3", 0).unwrap();
    assert_eq!(f, 5);
    assert!(parse_history_row(1, "1,2", 0).is_none());
    assert!(parse_history_row(1, " 1,2,3", 0).is_none());
    assert!(parse_history_row(1, "a,2,3", 0).is_none());
    assert!(parse_history_row(1, "1,,3", 0).is_none());
}

#[test]
fn history_is_loaded_and_accounts_numbered() {
    let input = lines(&["from,to,value", "5,7,10", "bad", "7,9,11", "5,5,1"]);
    let h = load_history(&input, 0).ok().unwrap();
    assert_eq!(h.graph, vec![(5, 7), (7, 9), (5, 5)]);
    assert_eq!(h.rows.len(), 3);
    assert_eq!(h.rows[1].transaction_index, 2);
    assert_eq!(h.rows[1].transaction_hash, "txn_3_7_to_9");
    assert_eq!(h.account_ids.len(), 3);
    assert_eq!(h.account_ids.id_of("5"), 1);
    assert_eq!(h.account_ids.id_of("7"), 2);
    assert_eq!(h.account_ids.id_of("9"), 3);
    assert_eq!(h.account_ids.id_of("8"), 0);
}

#[test]
fn history_header_is_skipped_and_read_errors_end_the_load() {
    let mut input = lines(&["1,2,3"]);
    input.push(Ok("3,4,5".to_string()));
    let h = load_history(&input, 0).ok().unwrap();
    assert_eq!(h.graph, vec![(3, 4)]);
    let input = vec![Err("header unreadable".to_string()), Ok("1,2,3".to_string())];
    assert_eq!(load_history(&input, 0).ok().unwrap().graph, vec![(1, 2)]);
    let input = vec![Ok("h".to_string()), Ok("1,2,3".to_string()), Err("disk error".to_string())];
    assert_eq!(load_history(&input, 0).err().unwrap(), "disk error");
    assert!(load_history(&Vec::new(), 0).ok().unwrap().graph.is_empty());
}

#[test]
fn account_ids_are_handed_out_once() {
    let mut ids = AccountIds::new();
    assert_eq!(ids.assign("a".to_string()), 1);
    assert_eq!(ids.assign("b".to_string()), 2);
    assert_eq!(ids.assign("a".to_string()), 1);
    assert_eq!(ids.len(), 2);
    assert_eq!(ids.id_of("b"), 2);
}

#[test]
fn replay_row_is_read() {
    let (s, r, c) = parse_replay_row(4, " 1 , 2 , 300 , 99 ", 10).unwrap().unwrap();
    assert_eq!((s, r), (1, 2));
    assert_eq!(c.csv_index, 3);
    assert_eq!(c.sender_address, "account_1");
    assert_eq!(c.receiver_address, "account_2");
    assert_eq!(c.amount, 300);
    assert_eq!(c.timestamp, 99);
    assert_eq!(c.transaction_hash, "csv_txn_3");
    let (_, _, c) = parse_replay_row(1, "1,2,x", 10).unwrap().unwrap();
    assert_eq!(c.amount, 1000000);
    assert_eq!(c.timestamp, 0);
    assert!(parse_replay_row(1, "1,2", 10).unwrap().is_none());
}

#[test]
fn replay_row_errors() {
    assert_eq!(
        parse_replay_row(2, "x,2,3", 10).err().unwrap(),
        "Invalid sender index at line 2: invalid digit found in string"
    );
    assert_eq!(
        parse_replay_row(5, "1,,3", 10).err().unwrap(),
        "Invalid receiver index at line 5: cannot parse integer from empty string"
    );
    assert_eq!(
        parse_replay_row(6, "1,99999999999999999999999,3", 10).err().unwrap(),
        "Invalid receiver index at line 6: number too large to fit in target type"
    );
    assert_eq!(
        parse_replay_row(3, "1,10,3", 10).err().unwrap(),
        "Account index out of range at line 3. Sender: 1, Receiver: 10, Available accounts: 10"
    );
}

#[test]
fn replay_records_respect_the_limit() {
    let input = lines(&["s,r,a", "0,1,5", "1,0,6", "9,9,9"]);
    let (g, rs) = load_replay_records(&input, Some(2), 3).ok().unwrap();
    assert_eq!(g, vec![(0, 1), (1, 0)]);
    assert_eq!(rs.len(), 2);
    assert_eq!(rs[1].csv_index, 1);
    assert_eq!(
        load_replay_records(&input, None, 3).err().unwrap(),
        "Account index out of range at line 3. Sender: 9, Receiver: 9, Available accounts: 3"
    );
    let input = vec![Ok("h".to_string()), Err("broken pipe".to_string())];
    assert_eq!(
        load_replay_records(&input, None, 3).err().unwrap(),
        "Failed to read line 1: broken pipe"
    );
    assert!(load_replay_records(&input, Some(0), 3).ok().unwrap().0.is_empty());
}

fn sha_hex(text: &str) -> String {
    let mut h = Sha256::new();
    h.update(text);
    format!("{:x}", h.finalize())
}

#[test]
fn row_hash_is_the_sha256_of_the_raw_columns() {
    assert_eq!(row_hash("1", "2", "3"), sha_hex("1|2|3"));
    assert_eq!(row_hash("1", "2", "3").len(), 64);
    assert_eq!(hex_string(&vec![0, 10, 255]), "000aff");
}

#[test]
fn mapping_row_columns() {
    let input = lines(&["h", "12,34,500"]);
    let h = load_history(&input, 4).ok().unwrap();
    let row = mapping_row(4, "ETH", "data/ETH.csv", 0, &h.rows[0], &h.account_ids);
    let expected = format!(
        "block_004,ETH,data/ETH.csv,1,1,12,34,500,12,34,1,2,1,2,true,,{}",
        sha_hex("12|34|500")
    );
    assert_eq!(row, expected);
    let file = mapping_lines(4, "ETH", "data/ETH.csv", &h.rows, &h.account_ids);
    assert_eq!(file.len(), 2);
    assert_eq!(file[0], "block_id,dataset,source_csv,row_number,tx_index,from_raw,to_raw,value_raw,from_norm,to_norm,from_account_id,to_account_id,key_from_id,key_to_id,included,skip_reason,row_hash");
    assert_eq!(file[1], expected);
}

#[test]
fn mapping_row_lowercases_keys() {
    let d = TransactionData {
        from_address: "account_ABC".to_string(),
        to_address: "account_x".to_string(),
        amount: 9,
        transaction_hash: "t".to_string(),
        block_number: 0,
        transaction_index: 0,
    };
    let mut ids = AccountIds::new();
    ids.assign("abc".to_string());
    let row = mapping_row(0, "UNKNOWN", "p", 0, &d, &ids);
    assert!(row.starts_with("block_000,UNKNOWN,p,1,1,ABC,x,9,abc,x,1,0,1,0,true,,"));
}

#[test]
fn mapping_metrics_cover_the_block() {
    let input = lines(&["h", "1,2,3", "3,4,5", "5,6,7"]);
    let h = load_history(&input, 9).ok().unwrap();
    let m = transaction_mapping_metrics(&h.rows, 2, 9);
    assert_eq!(m.len(), 2);
    assert_eq!(m[1].index, 1);
    assert_eq!(m[1].txn_id, 1);
    assert_eq!(
        m[1].data,
        vec![
            ("csv_index".to_string(), "1".to_string()),
            ("block_id".to_string(), "9".to_string()),
            ("mapping_type".to_string(), "CSV_to_BlockSTM".to_string()),
            ("transaction_hash".to_string(), "txn_2_3_to_4".to_string()),
            ("block_stm_index".to_string(), "1".to_string()),
        ]
    );
    let (_, recs) = load_replay_records(&input, None, 10).ok().unwrap();
    let d = detailed_mapping_metrics(&recs, 10, 9);
    assert_eq!(d.len(), 3);
    assert_eq!(d[2].data[5], ("amount".to_string(), "7".to_string()));
    assert_eq!(d[2].data[3], ("sender_address".to_string(), "account_5".to_string()));
}

#[test]
fn run_outcome_data() {
    let d = execution_results_data(8, 10, 3, 4);
    assert_eq!(
        d,
        vec![
            ("successful_count".to_string(), "8".to_string()),
            ("failed_count".to_string(), "2".to_string()),
            ("abort_count".to_string(), "3".to_string()),
            ("stall_count".to_string(), "4".to_string()),
        ]
    );
}

#[test]
fn throughput_figures() {
    assert_eq!(tps(1000, 250), 4000);
    assert_eq!(tps(3, 7), 428);
    assert_eq!(average(&vec![10, 20, 31]), 20);
    let mut v = vec![5, 1, 4, 1, 3];
    sort_values(&mut v);
    assert_eq!(v, vec![1, 1, 3, 4, 5]);
    let f = sweep_figures(&vec![300, 500], &vec![100, 100], true, true);
    assert_eq!(f.par_avg, Some(400));
    assert_eq!(f.seq_avg, Some(100));
    assert_eq!(f.speedup, Some(4));
    let f = sweep_figures(&vec![300], &vec![], true, false);
    assert_eq!(f.seq_avg, None);
    assert_eq!(f.speedup, None);
}

#[test]
fn sweep_points_and_runs() {
    assert_eq!(sweep_block_sizes(None), vec![1000, 10000, 50000]);
    assert_eq!(sweep_block_sizes(Some(vec![7])), vec![7]);
    assert_eq!(sweep_grid(&vec![1, 2], &vec![10, 20]), vec![(1, 10), (1, 20), (2, 10), (2, 20)]);
    assert_eq!(bench_runs(true, true, 8), vec![BenchRun::Parallel(8), BenchRun::Sequential]);
    assert_eq!(bench_runs(true, false, 1), vec![BenchRun::Sequential]);
    assert_eq!(bench_runs(false, false, 4), vec![]);
}

#[test]
fn erc20_sequence_numbers_count_up_per_sender() {
    let graph = vec![(0, 1), (1, 0), (0, 2), (0, 1), (2, 2)];
    let initial = vec![5, 0, 9];
    assert_eq!(erc20_sequence_numbers(&graph, &initial), vec![5, 0, 6, 7, 9]);
}

#[test]
fn benchmark_configuration_and_context() {
    let c = benchmark_logging_config(Some("/tmp/out"), None, None, None);
    assert!(c.enabled);
    assert_eq!(c.log_dir, "/tmp/out");
    assert_eq!(c.log_level, LogLevel::Debug);
    assert_eq!(c.max_file_size, 100 * 1024 * 1024);
    assert_eq!(c.buffer_size, 10000);
    let c = benchmark_logging_config(None, Some("ERROR"), Some("d"), None);
    assert_eq!(c.log_level, LogLevel::Error);
    assert_eq!(c.log_dir, "d");
    assert_eq!(c.buffer_size, 8192);
    let ctx = replay_context("x/USDT.csv", Some("25"), 3);
    assert_eq!(ctx.dataset, "USDT");
    assert_eq!(ctx.source_csv, "x/USDT.csv");
    assert_eq!(ctx.sample_period_ms, 25);
    let m = meta_figures(3, "ETH.csv", 21);
    assert_eq!(m.block_id, "block_003");
    assert_eq!(m.dataset, "ETH");
    assert_eq!(m.unique_accounts, 42);
    assert_eq!(m.fungible_store_keys, 42);
}
