use atomic_bomb_engine::data_pool::{DataPool, DataPoolMode};

#[test]
fn test_parse_csv() {
    let csv_content = "username,password,age\nuser1,pass1,20\nuser2,pass2,25\nuser3,pass3,30";
    let pool = DataPool::from_csv_content(csv_content, DataPoolMode::Sequential).unwrap();

    assert_eq!(pool.headers, vec!["username", "password", "age"]);
    assert_eq!(pool.rows.len(), 3);
    assert_eq!(pool.rows[0], vec!["user1", "pass1", "20"]);
}

#[test]
fn test_sequential_mode() {
    let csv_content = "name\na\nb\nc";
    let mut pool = DataPool::from_csv_content(csv_content, DataPoolMode::Sequential).unwrap();

    let row1 = pool.get_next_row();
    assert_eq!(row1[0].1, "a");

    let row2 = pool.get_next_row();
    assert_eq!(row2[0].1, "b");

    let row3 = pool.get_next_row();
    assert_eq!(row3[0].1, "c");

    let row4 = pool.get_next_row();
    assert_eq!(row4[0].1, "a");
}

#[test]
fn test_random_mode() {
    let csv_content = "name\na\nb\nc";
    let mut pool = DataPool::from_csv_content(csv_content, DataPoolMode::Random).unwrap();

    for _ in 0..10 {
        let row = pool.get_next_row();
        assert!(["a", "b", "c"].contains(&row[0].1.as_str()));
    }
}

#[test]
fn empty_text_is_an_error() {
    let r = DataPool::from_csv_content("", DataPoolMode::Sequential);
    assert_eq!(r.err().unwrap(), "CSV文件为空");
}

#[test]
fn header_only_has_no_rows() {
    let r = DataPool::from_csv_content("a,b\n\n   \n", DataPoolMode::Sequential);
    assert_eq!(r.err().unwrap(), "CSV文件没有数据行");
}

#[test]
fn width_mismatch_names_the_line() {
    let r = DataPool::from_csv_content("a,b,c\n1,2,3\n\n4,5\n6,7,8", DataPoolMode::Sequential);
    assert_eq!(r.err().unwrap(), "第4行的列数(2)与表头列数(3)不匹配");
}

#[test]
fn width_mismatch_on_second_line() {
    let r = DataPool::from_csv_content("a\n1,2", DataPoolMode::Sequential);
    assert_eq!(r.err().unwrap(), "第2行的列数(2)与表头列数(1)不匹配");
}

#[test]
fn fields_are_trimmed_and_blank_lines_skipped() {
    let pool = DataPool::from_csv_content(
        " id , name \r\n\r\n 1 , x y \r\n\t\n2,\u{3000}z\u{3000}\n",
        DataPoolMode::Sequential,
    )
    .unwrap();
    assert_eq!(pool.headers, vec!["id", "name"]);
    assert_eq!(pool.rows, vec![vec!["1", "x y"], vec!["2", "z"]]);
    assert_eq!(pool.total_rows(), 2);
}

#[test]
fn empty_fields_are_kept() {
    let pool = DataPool::from_csv_content("a,b\n,\nx,", DataPoolMode::Sequential).unwrap();
    assert_eq!(pool.rows, vec![vec!["", ""], vec!["x", ""]]);
}

#[test]
fn sequential_reads_count_cycles() {
    let mut pool = DataPool::from_csv_content("k,v\n1,a\n2,b", DataPoolMode::Sequential).unwrap();
    assert_eq!(pool.get_cycles(), 0);
    let got: Vec<String> = (0..5).map(|_| pool.get_next_row()[1].1.clone()).collect();
    assert_eq!(got, vec!["a", "b", "a", "b", "a"]);
    assert_eq!(pool.get_cycles(), 2);
    let row = pool.get_next_row();
    assert_eq!(row, vec![("k".to_string(), "2".to_string()), ("v".to_string(), "b".to_string())]);
    assert_eq!(pool.get_cycles(), 2);
}

#[test]
fn random_reads_leave_counters() {
    let mut pool = DataPool::from_csv_content("k\n1\n2", DataPoolMode::Random).unwrap();
    for _ in 0..20 {
        let row = pool.get_next_row();
        assert_eq!(row.len(), 1);
        assert!(row[0].1 == "1" || row[0].1 == "2");
    }
    assert_eq!(pool.get_cycles(), 0);
}

#[test]
fn row_pairs_stop_at_the_shorter_side() {
    let mut pool = DataPool::from_csv_content("a,b\n1,2", DataPoolMode::Sequential).unwrap();
    pool.headers.push("c".to_string());
    let row = pool.get_next_row();
    assert_eq!(row.len(), 2);
}

#[test]
fn stats_report_mode_rows_and_cycles() {
    let mut pool = DataPool::from_csv_content("h\nx", DataPoolMode::Sequential).unwrap();
    pool.get_next_row();
    pool.get_next_row();
    pool.get_next_row();
    let s = pool.get_stats();
    assert_eq!(s.total_rows, 1);
    assert_eq!(s.mode, "sequential");
    assert_eq!(s.cycles, 2);
    let r = DataPool::from_csv_content("h\nx", DataPoolMode::Random).unwrap();
    assert_eq!(r.get_stats().mode, "random");
}

#[test]
fn mode_words() {
    assert_eq!(DataPoolMode::from("random"), DataPoolMode::Random);
    assert_eq!(DataPoolMode::from("RaNdOm"), DataPoolMode::Random);
    assert_eq!(DataPoolMode::from("sequential"), DataPoolMode::Sequential);
    assert_eq!(DataPoolMode::from("loop"), DataPoolMode::Sequential);
    assert_eq!(DataPoolMode::from("whatever"), DataPoolMode::Sequential);
    assert_eq!(DataPoolMode::default(), DataPoolMode::Sequential);
}

#[test]
fn clone_keeps_the_read_position() {
    let mut pool = DataPool::from_csv_content("h\nx\ny", DataPoolMode::Sequential).unwrap();
    pool.get_next_row();
    let mut copy = pool.clone();
    assert_eq!(copy.get_next_row()[0].1, "y");
    assert_eq!(pool.get_next_row()[0].1, "y");
}
