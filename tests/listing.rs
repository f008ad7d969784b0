use brotab::listing::{aggregate, client_letter, ListError, Reply};
use brotab::text::split_lines;

fn ok(port: u16, body: &str) -> Reply {
    (port, Ok(body.to_string()))
}

#[test]
fn merged_listing_follows_rank_order() {
    let replies = vec![ok(4625, "T1\nT2"), ok(4627, "T3"), ok(4630, "T4\nT5\nT6")];
    let text = aggregate(&replies).unwrap();
    assert_eq!(text, "a.T1\na.T2\nb.T3\nc.T4\nc.T5\nc.T6");
}

#[test]
fn merged_listing_is_the_same_on_every_run() {
    let replies = vec![ok(4625, "x\ny"), ok(4626, "z")];
    let first = aggregate(&replies).unwrap();
    let second = aggregate(&replies).unwrap();
    assert_eq!(first, second);
    assert_eq!(first, "a.x\na.y\nb.z");
}

#[test]
fn failed_fetch_fails_the_whole_listing() {
    let replies = vec![
        ok(4625, "T1"),
        (4627, Err("status 500".to_string())),
        ok(4630, "T4"),
    ];
    match aggregate(&replies) {
        Err(ListError::FetchFailed { index, port, reason }) => {
            assert_eq!(index, 1);
            assert_eq!(port, 4627);
            assert_eq!(reason, "status 500");
        }
        other => panic!("expected a fetch failure, got {:?}", other),
    }
}

#[test]
fn first_failure_in_rank_order_is_reported() {
    let replies = vec![
        (4625, Err("refused".to_string())),
        (4626, Err("timeout".to_string())),
    ];
    assert!(matches!(
        aggregate(&replies),
        Err(ListError::FetchFailed { index: 0, port: 4625, .. })
    ));
}

#[test]
fn empty_reply_contributes_no_line() {
    let replies = vec![ok(4625, ""), ok(4626, "only")];
    assert_eq!(aggregate(&replies).unwrap(), "b.only");
    let alone = vec![ok(4625, "")];
    assert_eq!(aggregate(&alone).unwrap(), "");
}

#[test]
fn no_replies_give_an_empty_listing() {
    assert_eq!(aggregate(&vec![]).unwrap(), "");
}

#[test]
fn trailing_newline_and_crlf_in_replies() {
    let replies = vec![ok(4625, "one\r\ntwo\n"), ok(4626, "\nthree")];
    assert_eq!(aggregate(&replies).unwrap(), "a.one\na.two\nb.\nb.three");
}

#[test]
fn more_clients_than_letters_is_an_error() {
    let replies: Vec<Reply> = (0..27u16).map(|i| ok(5000 + i, "t")).collect();
    assert!(matches!(
        aggregate(&replies),
        Err(ListError::TooManyClients { count: 27 })
    ));
}

#[test]
fn twenty_six_clients_use_every_letter() {
    let replies: Vec<Reply> = (0..26u16).map(|i| ok(5000 + i, "t")).collect();
    let text = aggregate(&replies).unwrap();
    let lines: Vec<&str> = text.split('\n').collect();
    assert_eq!(lines.len(), 26);
    assert_eq!(lines[0], "a.t");
    assert_eq!(lines[25], "z.t");
}

#[test]
fn letters_follow_rank() {
    assert_eq!(client_letter(0), Some('a'));
    assert_eq!(client_letter(1), Some('b'));
    assert_eq!(client_letter(25), Some('z'));
    assert_eq!(client_letter(26), None);
}

#[test]
fn lines_split_like_std() {
    for s in ["", "\n", "a", "a\n", "a\n\nb", "a\r\nb\r\n", "a\r", "\r\r\n", "x\ry\nz"] {
        let expected: Vec<String> = s.lines().map(|l| l.to_string()).collect();
        assert_eq!(split_lines(s), expected, "input {:?}", s);
    }
}

#[test]
fn lines_of_concrete_text() {
    assert_eq!(split_lines("T4\nT5\nT6"), vec!["T4", "T5", "T6"]);
    assert_eq!(split_lines(""), Vec::<String>::new());
    assert_eq!(split_lines("a\r\n"), vec!["a"]);
}
