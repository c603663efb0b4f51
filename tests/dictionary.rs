use fl_uid::{dedup_runs, filter, group_thousands, Dict, DictError};

fn words(ws: &[&str]) -> Vec<String> {
    ws.iter().map(|w| w.to_string()).collect()
}

#[test]
fn combinations_multiply_list_lengths() {
    let d = Dict {
        adjectives: words(&["a", "b"]),
        adverbs: words(&["c", "d", "e"]),
        verbs: words(&["f", "g", "h", "i"]),
        nouns: words(&["j", "k", "l", "m", "n"]),
    };
    assert_eq!(d.unique_combinations(), 120);
}

#[test]
fn combinations_of_an_empty_list_are_zero() {
    let d = Dict {
        adjectives: words(&["a", "b"]),
        adverbs: words(&[]),
        verbs: words(&["f"]),
        nouns: words(&["j"]),
    };
    assert_eq!(d.unique_combinations(), 0);
}

#[test]
fn run_collapse_drops_repeated_neighbours() {
    assert_eq!(dedup_runs("aabbbcab"), "abcab");
    assert_eq!(dedup_runs(""), "");
    assert_eq!(dedup_runs("x"), "x");
}

#[test]
fn filter_applies_every_rule() {
    let raw = "  Hello \nab\nbookkeep\nabcdefghij\ncat\nDog\r\nzzz\nMississ\n";
    let out = filter(raw, "the doghouse");
    assert_eq!(out, words(&["hello", "cat", "zzz", "mississ"]));
}

#[test]
fn filter_keeps_nine_and_three_characters() {
    assert_eq!(filter("abcdefghi\nabc", ""), words(&["abcdefghi", "abc"]));
    assert_eq!(filter("abcdefghij\nab", ""), words(&[]));
}

#[test]
fn filter_is_idempotent() {
    let blob = "strawberry jam";
    let first = filter("Apple\n pear\nberry\nBANANA\nkiwi\nplum\nfig\n", blob);
    assert_eq!(first, words(&["apple", "pear", "banana", "kiwi", "plum", "fig"]));
    let second = filter(&first.join("\n"), blob);
    assert_eq!(second, first);
}

#[test]
fn build_fails_on_an_empty_list() {
    assert!(Dict::build("cat\ndog", "slowly", "jumps", "ab\nxy", "").is_none());
}

#[test]
fn build_filters_each_list() {
    let d = Dict::build("Quick\nab", "slowly", "jumps\nruns", "fox", "").unwrap();
    assert_eq!(d.adjectives, words(&["quick"]));
    assert_eq!(d.adverbs, words(&["slowly"]));
    assert_eq!(d.verbs, words(&["jumps", "runs"]));
    assert_eq!(d.nouns, words(&["fox"]));
}

#[test]
fn round_trip_keeps_every_list() {
    let d = Dict {
        adjectives: words(&["quick", "größte", "日本語"]),
        adverbs: words(&["slowly"]),
        verbs: words(&["jumps", "runs"]),
        nouns: words(&["fox", "ñandú"]),
    };
    let bytes = d.encode();
    let back = Dict::decode(&bytes).unwrap();
    assert_eq!(back.adjectives, d.adjectives);
    assert_eq!(back.adverbs, d.adverbs);
    assert_eq!(back.verbs, d.verbs);
    assert_eq!(back.nouns, d.nouns);
}

#[test]
fn decode_refuses_an_empty_list() {
    let d = Dict {
        adjectives: words(&["quick"]),
        adverbs: words(&[]),
        verbs: words(&["jumps"]),
        nouns: words(&["fox"]),
    };
    let bytes = d.encode();
    assert_eq!(Dict::decode(&bytes).err(), Some(DictError::EmptyList));
}

#[test]
fn decode_refuses_truncated_bytes() {
    assert_eq!(Dict::decode(&[3u8, 1]).err(), Some(DictError::Corrupt));
    assert_eq!(Dict::decode(&[]).err(), Some(DictError::Corrupt));
}

#[test]
fn grouping_inserts_commas() {
    assert_eq!(group_thousands(0), "0");
    assert_eq!(group_thousands(999), "999");
    assert_eq!(group_thousands(1000), "1,000");
    assert_eq!(group_thousands(1234567), "1,234,567");
    assert_eq!(group_thousands(1000005), "1,000,005");
}

#[test]
fn decode_refuses_a_huge_length() {
    let bytes = [253u8, 255, 255, 255, 255, 255, 255, 255, 255];
    assert_eq!(Dict::decode(&bytes).err(), Some(DictError::Corrupt));
    let bytes = [253u8, 0, 0, 0, 0, 0, 0, 0, 1];
    assert_eq!(Dict::decode(&bytes).err(), Some(DictError::Corrupt));
}

#[test]
fn round_trip_of_one_word_lists() {
    let d = Dict {
        adjectives: words(&["café"]),
        adverbs: words(&["très"]),
        verbs: words(&["走る"]),
        nouns: words(&["🦊"]),
    };
    let back = Dict::decode(&d.encode()).unwrap();
    assert_eq!(back.adjectives, d.adjectives);
    assert_eq!(back.adverbs, d.adverbs);
    assert_eq!(back.verbs, d.verbs);
    assert_eq!(back.nouns, d.nouns);
}
