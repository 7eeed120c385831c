use solana_games::key::{copy_keys, remove_first_key, remove_key, sweep_keys, Pubkey};
use solana_games::text::{
    chars_eq, chars_of, contains_text, copy_chars, copy_texts, join_chars, parse_index,
    split_chars,
};

fn key(b: u8) -> Pubkey {
    Pubkey { bytes: [b; 32] }
}

fn chars(s: &str) -> Vec<char> {
    s.chars().collect()
}

fn pieces(s: &str, sep: &str) -> Vec<String> {
    split_chars(&chars(s), &chars(sep)).iter().map(|p| p.iter().collect()).collect()
}

#[test]
fn text_split_matches_std_split() {
    let cases = [
        ("d(*)(*)o(*)(*)g", "(*)(*)"),
        ("", ","),
        (",", ","),
        ("a,,b,", ","),
        ("am2w3m2w3", "m2w3"),
        ("aaa", "aa"),
        ("no separator", "(*)"),
    ];
    for (s, sep) in cases.iter() {
        let expected: Vec<String> = s.split(sep).map(String::from).collect();
        assert_eq!(pieces(s, sep), expected, "splitting {:?} at {:?}", s, sep);
    }
}

#[test]
fn text_join_undoes_split() {
    let cases = [("d(*)(*)o(*)(*)g", "(*)(*)"), ("", ","), ("a,,b,", ","), ("xyx", "x")];
    for (s, sep) in cases.iter() {
        let parts = split_chars(&chars(s), &chars(sep));
        let joined: String = join_chars(&parts, &chars(sep)).iter().collect();
        assert_eq!(&joined, s);
    }
    let parts = vec![chars("c"), chars("a"), chars("t")];
    let joined: String = join_chars(&parts, &chars(",")).iter().collect();
    assert_eq!(joined, "c,a,t");
}

#[test]
fn text_parse_index_matches_std_parse() {
    let cases = [
        "0", "7", "+3", "042", "", "+", "-1", " 1", "1 ", "x", "12a",
        "18446744073709551615", "18446744073709551616", "99999999999999999999999",
    ];
    for s in cases.iter() {
        assert_eq!(parse_index(&chars(s)), s.parse::<usize>().ok(), "parsing {:?}", s);
    }
}

#[test]
fn text_helpers_compare_and_copy() {
    assert!(chars_eq(&chars("abc"), &chars("abc")));
    assert!(!chars_eq(&chars("abc"), &chars("abd")));
    assert!(!chars_eq(&chars("ab"), &chars("abc")));
    assert_eq!(chars_of("héllo"), chars("héllo"));
    assert_eq!(copy_chars(&chars("xy")), chars("xy"));
    let list = vec![String::from("a"), String::from("bc")];
    assert!(contains_text(&list, &String::from("bc")));
    assert!(!contains_text(&list, &String::from("b")));
    assert_eq!(copy_texts(&list), list);
}

#[test]
fn keys_remove_every_copy() {
    let list = vec![key(1), key(2), key(1), key(3), key(1)];
    let kept = remove_key(&list, &key(1));
    assert_eq!(kept, vec![key(2), key(3)]);
    assert!(!kept.contains(&key(1)));
    assert_eq!(remove_key(&list, &key(9)), list);
    assert_eq!(copy_keys(&list), list);
}

#[test]
fn keys_remove_first_copy_only() {
    let mut list = vec![key(1), key(2), key(1)];
    remove_first_key(&mut list, &key(1));
    assert_eq!(list, vec![key(2), key(1)]);
    remove_first_key(&mut list, &key(7));
    assert_eq!(list, vec![key(2), key(1)]);
}

#[test]
fn keys_sweep_goes_through_only_without_early_copies() {
    assert_eq!(sweep_keys(&vec![key(2), key(3)], &key(1)), Some(vec![key(2), key(3)]));
    assert_eq!(sweep_keys(&vec![key(2), key(1)], &key(1)), Some(vec![key(2)]));
    assert_eq!(sweep_keys(&vec![key(1), key(2)], &key(1)), None);
    assert_eq!(sweep_keys(&vec![key(1), key(1), key(3), key(1)], &key(1)), None);
    assert_eq!(sweep_keys(&vec![key(1)], &key(1)), Some(vec![]));
    assert_eq!(sweep_keys(&vec![], &key(1)), Some(vec![]));
}

#[test]
fn keys_zero_address() {
    assert!(Pubkey::zero().is_zero());
    assert!(!key(1).is_zero());
    let mut k = Pubkey::zero();
    k.bytes[31] = 1;
    assert!(!k.is_zero());
    assert_eq!(Pubkey::zero(), Pubkey { bytes: [0; 32] });
}
