use bunbuntype::loader::charize;
use bunbuntype::loader::randomizer;
use bunbuntype::loader::tokenize;
use bunbuntype::record::DateTime;
use bunbuntype::record::WpmResult;
use bunbuntype::shuffle::IdentityShuffler;
use bunbuntype::shuffle::Shuffler;
use bunbuntype::shuffle::ThreadShuffler;
use bunbuntype::store::ResultStore;

fn sample_record(wpm_milli: u64) -> WpmResult {
    let dt = DateTime {
        year: 2024,
        month: 5,
        day: 6,
        hour: 7,
        minute: 8,
        second: 9,
        offset_minutes: 0,
    };
    WpmResult::from_parts(wpm_milli, 500, 60000, wpm_milli / 2, dt)
}

#[test]
fn test_charize() {
    let word = String::from("test");
    let charized = charize(&word);
    assert_eq!(charized, vec!['t', 'e', 's', 't']);
}

#[test]
fn test_tokenize_splits_on_whitespace() {
    let toks = tokenize("cat dog\n bird\tfish  ");
    assert_eq!(toks, vec!["cat", "dog", "bird", "fish"]);
    assert!(tokenize("  \n \t ").is_empty());
}

#[test]
fn test_tokenize_splits_on_unicode_whitespace() {
    let toks = tokenize("cat\u{a0}dog\u{3000}bird\u{2028}fish\u{0b}owl");
    assert_eq!(toks, vec!["cat", "dog", "bird", "fish", "owl"]);
}

#[test]
fn test_randomizer_picks_from_list() {
    let list: Vec<String> = vec!["one".to_string(), "two".to_string(), "three".to_string()];
    for _ in 0..20 {
        let picked = randomizer(&list).unwrap();
        assert!(list.contains(&picked));
    }
}

#[test]
fn test_shuffle_keeps_contents() {
    let mut list: Vec<String> = (0..50).map(|n| format!("w{}", n)).collect();
    let original = list.clone();
    let mut source = ThreadShuffler;
    source.shuffle(&mut list);
    assert_eq!(list.len(), original.len());
    let mut a = list.clone();
    let mut b = original.clone();
    a.sort();
    b.sort();
    assert_eq!(a, b);
}

#[test]
fn test_identity_shuffler_keeps_order() {
    let mut list: Vec<String> = vec!["a".to_string(), "b".to_string()];
    let mut source = IdentityShuffler;
    source.shuffle(&mut list);
    assert_eq!(list, vec!["a".to_string(), "b".to_string()]);
}

#[test]
fn test_load_all_missing_file_is_empty() {
    let (store, warnings) = ResultStore::load_all(None);
    assert_eq!(store.len(), 0);
    assert!(warnings.is_empty());
}

#[test]
fn test_load_all_skips_malformed_line() {
    let good = sample_record(27000);
    let mut text = good.to_json();
    text.push('\n');
    text.push_str("this line is not a record\n");
    let (store, warnings) = ResultStore::load_all(Some(&text));
    assert_eq!(store.len(), 1);
    assert_eq!(*store.record_at(0), good);
    assert_eq!(warnings, vec![1]);
}

#[test]
fn test_load_all_tolerates_blank_lines() {
    let good = sample_record(31000);
    let mut text = String::from("\n\n");
    text.push_str(&good.to_json());
    text.push('\n');
    text.push('\n');
    let (store, warnings) = ResultStore::load_all(Some(&text));
    assert_eq!(store.len(), 1);
    assert_eq!(*store.record_at(0), good);
    assert!(warnings.is_empty());
}

#[test]
fn test_append_then_load_finds_record() {
    let first = sample_record(10000);
    let second = sample_record(20000);
    let mut store = ResultStore::empty();
    let mut text = store.append(first);
    text.push_str(&store.append(second));
    let (loaded, warnings) = ResultStore::load_all(Some(&text));
    assert!(warnings.is_empty());
    assert_eq!(loaded.len(), 2);
    assert_eq!(*loaded.record_at(0), first);
    assert_eq!(*loaded.record_at(1), second);
}

#[test]
fn test_chart_points() {
    let mut store = ResultStore::empty();
    store.append(sample_record(25333));
    let points = store.chart_points();
    assert_eq!(points.len(), 1);
    assert_eq!(points[0].0, "2024-05-06T07:08:09+00:00");
    assert_eq!(points[0].1, 12);
}
