use cosmos_proposal_watcher::decimal::u64_to_decimal;
use cosmos_proposal_watcher::id_list::{parse_stored_ids, store_text};

#[test]
fn decimal_text_of_numbers() {
    assert_eq!(u64_to_decimal(0), "0");
    assert_eq!(u64_to_decimal(7), "7");
    assert_eq!(u64_to_decimal(1234), "1234");
    assert_eq!(u64_to_decimal(u64::MAX), "18446744073709551615");
}

#[test]
fn store_text_joins_with_commas() {
    assert_eq!(store_text(&vec![]), "");
    assert_eq!(store_text(&vec![42]), "42");
    assert_eq!(store_text(&vec![3, 1, 20]), "3,1,20");
}

#[test]
fn parse_trims_and_skips_blank_pieces() {
    assert_eq!(parse_stored_ids(""), Some(vec![]));
    assert_eq!(parse_stored_ids("\n"), Some(vec![]));
    assert_eq!(parse_stored_ids(" 1, 2 ,,3\n"), Some(vec![1, 2, 3]));
    assert_eq!(parse_stored_ids("+5,007"), Some(vec![5, 7]));
    assert_eq!(parse_stored_ids("\u{3000}9\u{a0}"), Some(vec![9]));
    assert_eq!(parse_stored_ids("18446744073709551615"), Some(vec![u64::MAX]));
}

#[test]
fn parse_refuses_what_from_str_refuses() {
    assert_eq!(parse_stored_ids("abc"), None);
    assert_eq!(parse_stored_ids("1,x,2"), None);
    assert_eq!(parse_stored_ids("1 2"), None);
    assert_eq!(parse_stored_ids("+"), None);
    assert_eq!(parse_stored_ids("-1"), None);
    assert_eq!(parse_stored_ids("18446744073709551616"), None);
}

#[test]
fn store_round_trip_on_examples() {
    for ids in [vec![], vec![0], vec![5, 5, 1], vec![u64::MAX, 0, 123456789]] {
        assert_eq!(parse_stored_ids(&store_text(&ids)), Some(ids.clone()));
    }
}

fn std_reading(s: &str) -> Option<Vec<u64>> {
    s.split(',')
        .map(|p| p.trim())
        .filter(|p| !p.is_empty())
        .map(|p| p.parse::<u64>().ok())
        .collect()
}

#[test]
fn parse_agrees_with_std_split_trim_parse() {
    let samples = [
        "", ",", ",,", " ", "1", "1,", ",1", "01,+2, 3 ,\t4\n", "1 ,\u{2003}2\u{2028}", "\u{85}5",
        "+", "++1", "+-1", "1e3", "１", "99999999999999999999", "18446744073709551615,0",
        "4,\u{200b}5", "7\r\n", "a,1", "1,,,,2,,",
    ];
    for s in samples {
        assert_eq!(parse_stored_ids(s), std_reading(s), "on {:?}", s);
    }
}

#[test]
fn decimal_and_store_text_agree_with_display() {
    for n in [0u64, 9, 10, 99, 100, 4_294_967_296, u64::MAX - 1, u64::MAX] {
        assert_eq!(u64_to_decimal(n), n.to_string());
    }
    let ids = vec![10u64, 0, 7, u64::MAX];
    let expected: Vec<String> = ids.iter().map(|x| x.to_string()).collect();
    assert_eq!(store_text(&ids), expected.join(","));
}
