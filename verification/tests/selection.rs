use slugline::model::{RelayError, RuneEntry, Utxo};
use slugline::select::select_utxos;
use slugline::validate::{fetch_rune_utxos, filter_unspent, has_rune};

fn unit(outpoint: &str, value: u64) -> Utxo {
    Utxo {
        address: String::from("addr"),
        confirmations: 1,
        outpoint: String::from(outpoint),
        runes: Vec::new(),
        spent: false,
        value,
    }
}

fn rune_unit(outpoint: &str, value: u64, rune: &str) -> Utxo {
    let mut u = unit(outpoint, value);
    u.runes.push(RuneEntry {
        name: String::from(rune),
        amount: 500,
        divisibility: 0,
        symbol: String::from("R"),
    });
    u
}

#[test]
fn select_largest_first_prefix() {
    // a target of 150000 against [100000, 80000, 50000] takes the two
    // largest units, not all three
    let units = vec![unit("a", 100000), unit("b", 80000), unit("c", 50000)];
    let sel = select_utxos(units, 150000).unwrap();
    let values: Vec<u64> = sel.iter().map(|u| u.value).collect();
    assert_eq!(values, vec![100000, 80000]);
}

#[test]
fn select_sorts_descending_first() {
    let units = vec![unit("a", 50000), unit("b", 100000), unit("c", 80000)];
    let sel = select_utxos(units, 150000).unwrap();
    let values: Vec<u64> = sel.iter().map(|u| u.value).collect();
    assert_eq!(values, vec![100000, 80000]);
}

#[test]
fn select_single_unit_meets_target() {
    let units = vec![unit("a", 10), unit("b", 500)];
    let sel = select_utxos(units, 400).unwrap();
    let values: Vec<u64> = sel.iter().map(|u| u.value).collect();
    assert_eq!(values, vec![500]);
}

#[test]
fn select_empty_collection_fails() {
    let r = select_utxos(Vec::new(), 0);
    match r {
        Err(RelayError::InsufficientFunds { available, required }) => {
            assert_eq!(available, 0);
            assert_eq!(required, 0);
        },
        _ => panic!("expected insufficient funds"),
    }
}

#[test]
fn select_insufficient_reports_amounts() {
    let units = vec![unit("a", 100), unit("b", 200)];
    let r = select_utxos(units, 1000);
    match r {
        Err(RelayError::InsufficientFunds { available, required }) => {
            assert_eq!(available, 300);
            assert_eq!(required, 1000);
        },
        _ => panic!("expected insufficient funds"),
    }
}

#[test]
fn select_exact_sum_succeeds() {
    let units = vec![unit("a", 100), unit("b", 200)];
    let sel = select_utxos(units, 300).unwrap();
    let total: u64 = sel.iter().map(|u| u.value).sum();
    assert_eq!(total, 300);
    assert_eq!(sel.len(), 2);
}

#[test]
fn has_rune_finds_name() {
    let u = rune_unit("a", 1000, "TESTSLUGLINERUNE");
    assert!(has_rune(&u, &String::from("TESTSLUGLINERUNE")));
    assert!(!has_rune(&u, &String::from("OTHER")));
    let bare = unit("b", 1000);
    assert!(!has_rune(&bare, &String::from("TESTSLUGLINERUNE")));
}

#[test]
fn fetch_rune_utxos_filters_by_token() {
    let units = vec![
        rune_unit("a", 1000, "TESTSLUGLINERUNE"),
        unit("b", 2000),
        rune_unit("c", 3000, "OTHER"),
        rune_unit("d", 4000, "TESTSLUGLINERUNE"),
    ];
    let kept = fetch_rune_utxos(units);
    let outs: Vec<String> = kept.iter().map(|u| u.outpoint.clone()).collect();
    assert_eq!(outs, vec![String::from("a"), String::from("d")]);
}

#[test]
fn filter_unspent_drops_spent() {
    let mut spent = unit("a", 1000);
    spent.spent = true;
    let units = vec![spent, unit("b", 2000)];
    let kept = filter_unspent(units);
    assert_eq!(kept.len(), 1);
    assert_eq!(kept[0].outpoint, String::from("b"));
}
