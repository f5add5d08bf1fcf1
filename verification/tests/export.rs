use diff_harness::encoding::encode;
use diff_harness::error::EngineError;
use diff_harness::export::{export, export_records};
use diff_harness::outcome::{Done, RunResult, RunResults};

const PASS: RunResult = RunResult::Finished(true);
const FAIL: RunResult = RunResult::Finished(false);
const LATE: RunResult = RunResult::TimedOut;

const TITLES: [&str; 7] = [
    "Path",
    "Elm-test version",
    "Elm",
    "Lamdera stable no wire",
    "Lamdera stable",
    "Lamdera next no wire",
    "Lamdera next",
];

const TITLE_LINE: &str =
    "Path,Elm-test version,Elm,Lamdera stable no wire,Lamdera stable,Lamdera next no wire,Lamdera next\n";

fn of_three(path: &str, a: RunResult, b: RunResult, c: RunResult) -> Done {
    Done {
        path: path.to_string(),
        time: 1,
        results: RunResults::V1 {
            elm_result: a,
            lamdera_stable_no_wire_result: b,
            lamdera_stable_result: c,
        },
    }
}

fn of_five(path: &str, r: [RunResult; 5]) -> Done {
    Done {
        path: path.to_string(),
        time: 1,
        results: RunResults::V2 {
            elm_result: r[0],
            lamdera_stable_no_wire_result: r[1],
            lamdera_stable_result: r[2],
            lamdera_next_no_wire_result: r[3],
            lamdera_next_result: r[4],
        },
    }
}

#[test]
fn a_reference_failure_is_exported() {
    let dones = vec![of_five("pub/pkg/1.0.0", [FAIL, PASS, PASS, PASS, PASS])];
    let records = export_records(&dones);
    assert_eq!(records.len(), 2);
    assert_eq!(records[0], TITLES);
    assert_eq!(
        records[1],
        vec!["pub/pkg/1.0.0", "2", "\u{274c}", "\u{2705}", "\u{2705}", "\u{2705}", "\u{2705}"]
    );
}

#[test]
fn a_unanimous_pass_is_not_exported() {
    let dones = vec![of_three("pub/pkg2/2.0.0", PASS, PASS, PASS)];
    let records = export_records(&dones);
    assert_eq!(records, vec![TITLES.to_vec()]);
    let dones = vec![of_five("pub/pkg3/1.0.0", [PASS, PASS, PASS, PASS, PASS])];
    assert_eq!(export_records(&dones), vec![TITLES.to_vec()]);
}

#[test]
fn three_variants_leave_two_fields_empty() {
    let dones = vec![of_three("p", LATE, FAIL, PASS)];
    let records = export_records(&dones);
    assert_eq!(records[1], vec!["p", "1", "\u{23f0}", "\u{274c}", "\u{2705}", "", ""]);
}

#[test]
fn records_stay_in_the_order_of_completion() {
    let dones = vec![
        of_three("first", PASS, PASS, PASS),
        of_three("second", PASS, PASS, FAIL),
        of_five("third", [LATE, LATE, LATE, LATE, LATE]),
        of_five("fourth", [PASS, PASS, PASS, PASS, PASS]),
        of_three("fifth", FAIL, FAIL, FAIL),
    ];
    let records = export_records(&dones);
    let paths: Vec<&str> = records.iter().skip(1).map(|r| r[0].as_str()).collect();
    assert_eq!(paths, vec!["second", "third", "fifth"]);
}

#[test]
fn nothing_completed_exports_the_titles_only() {
    assert_eq!(export_records(&Vec::new()), vec![TITLES.to_vec()]);
    let bytes = export(&Vec::new()).unwrap();
    assert_eq!(String::from_utf8(bytes).unwrap(), TITLE_LINE);
}

#[test]
fn the_export_is_comma_separated() {
    let dones = vec![
        of_five("pub/pkg/1.0.0", [FAIL, PASS, PASS, PASS, PASS]),
        of_three("pub/pkg2/2.0.0", PASS, PASS, PASS),
        of_three("pub/pkg4/1.0.0", LATE, LATE, LATE),
    ];
    let text = String::from_utf8(export(&dones).unwrap()).unwrap();
    let expected = format!(
        "{}{}{}",
        TITLE_LINE,
        "pub/pkg/1.0.0,2,\u{274c},\u{2705},\u{2705},\u{2705},\u{2705}\n",
        "pub/pkg4/1.0.0,1,\u{23f0},\u{23f0},\u{23f0},,\n"
    );
    assert_eq!(text, expected);
}

#[test]
fn a_path_with_a_comma_is_quoted() {
    let dones = vec![of_three("odd,\"name\"", FAIL, FAIL, FAIL)];
    let text = String::from_utf8(export(&dones).unwrap()).unwrap();
    let expected = format!(
        "{}{}",
        TITLE_LINE, "\"odd,\"\"name\"\"\",1,\u{274c},\u{274c},\u{274c},,\n"
    );
    assert_eq!(text, expected);
}

#[test]
fn encoding_writes_one_line_per_record() {
    let records = vec![
        vec!["a".to_string(), "b".to_string()],
        vec!["c d".to_string(), "".to_string()],
    ];
    let bytes = encode(&records).unwrap();
    assert_eq!(String::from_utf8(bytes).unwrap(), "a,b\nc d,\n");
    assert_eq!(encode(&Vec::new()).unwrap(), Vec::<u8>::new());
}

#[test]
fn records_of_equal_length_are_always_taken() {
    let empty: Vec<String> = Vec::new();
    assert_eq!(encode(&vec![empty.clone(), empty.clone()]).unwrap(), b"\"\"\n\"\"\n".to_vec());
    let one = vec![vec!["".to_string()], vec!["x".to_string()], vec!["a,b".to_string()]];
    assert_eq!(String::from_utf8(encode(&one).unwrap()).unwrap(), "\"\"\nx\n\"a,b\"\n");
    let wide: Vec<Vec<String>> =
        (0..200).map(|r| (0..50).map(|c| format!("{}-{}", r, c)).collect()).collect();
    let text = String::from_utf8(encode(&wide).unwrap()).unwrap();
    assert_eq!(text.lines().count(), 200);
    assert!(text.starts_with("0-0,0-1,"));
    let long = vec![vec!["x".repeat(100_000), "y".to_string()], vec!["".to_string(), "z".repeat(70_000)]];
    assert_eq!(encode(&long).unwrap().len(), 100_000 + 1 + 1 + 1 + 1 + 70_000 + 1);
}

#[test]
fn the_first_record_of_another_length_is_refused() {
    let empty: Vec<String> = Vec::new();
    let cases = vec![
        vec![empty.clone(), vec!["a".to_string()]],
        vec![vec!["a".to_string()], empty.clone()],
        vec![vec!["a".to_string(), "b".to_string()], vec!["c".to_string(), "d".to_string()], vec!["e".to_string()]],
    ];
    for records in cases {
        assert!(matches!(encode(&records), Err(EngineError::CSV(_))));
    }
}

#[test]
fn the_export_always_succeeds() {
    let dones = vec![
        of_three("a", PASS, PASS, PASS),
        of_five("b", [LATE, FAIL, PASS, LATE, FAIL]),
        of_three("c,d", FAIL, LATE, PASS),
        of_five("", [PASS, PASS, PASS, PASS, PASS]),
        of_three("line\nbreak", LATE, LATE, LATE),
    ];
    for n in 0..=dones.len() {
        assert!(export(&dones[..n].to_vec()).is_ok());
    }
}

#[test]
fn records_of_unequal_length_are_refused() {
    let records = vec![
        vec!["a".to_string(), "b".to_string()],
        vec!["c".to_string()],
    ];
    assert!(matches!(encode(&records), Err(EngineError::CSV(_))));
}
