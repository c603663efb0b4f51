use std::collections::HashSet;

use fl_uid::{Dict, Fluid};

fn words(ws: &[&str]) -> Vec<String> {
    ws.iter().map(|w| w.to_string()).collect()
}

fn one_word_dict() -> Dict {
    Dict {
        adjectives: words(&["quick"]),
        adverbs: words(&["slowly"]),
        verbs: words(&["jumps"]),
        nouns: words(&["fox"]),
    }
}

fn numbered(prefix: &str, n: usize) -> Vec<String> {
    (0..n).map(|i| format!("{prefix}{i}")).collect()
}

fn large_dict() -> Dict {
    Dict {
        adjectives: numbered("a", 1000),
        adverbs: numbered("d", 1000),
        verbs: numbered("v", 1000),
        nouns: numbered("n", 1000),
    }
}

#[test]
fn masking_pins_two_nibbles() {
    assert_eq!(Fluid::from_random(0).value(), 0x40008000000000000000);
    let ones = Fluid::from_random(u128::MAX).value();
    assert_eq!(ones, 0xFFFFFFFFFFFF4FFFBFFFFFFFFFFFFFFF);
    assert_eq!((ones >> 76) & 0xF, 4);
    assert_eq!((ones >> 60) & 0xC, 8);
}

#[test]
fn new_identifiers_carry_the_mask() {
    for _ in 0..100 {
        let v = Fluid::new().value();
        assert_eq!((v >> 76) & 0xF, 4);
        assert_eq!((v >> 60) & 0xC, 8);
    }
}

#[test]
fn indices_reduce_each_field() {
    let d = Dict {
        adjectives: words(&["a", "b", "c"]),
        adverbs: words(&["d", "e"]),
        verbs: words(&["f", "g", "h", "i", "j"]),
        nouns: words(&["k", "l", "m", "n"]),
    };
    let f = Fluid::from_random((7u128 << 96) | (5u128 << 32) | 0xFFFFFFFF);
    // noun field 0x4000 = 16384, adverb field 0x80000005
    assert_eq!(f.indices(&d), (1, 0, 1, 0));
}

#[test]
fn concrete_phrase() {
    let d = one_word_dict();
    assert_eq!(Fluid::from_random(0).render(&d), "quick-fox-slowly-jumps");
    assert_eq!(Fluid::from_random(u128::MAX).render(&d), "quick-fox-slowly-jumps");
}

#[test]
fn render_picks_each_field() {
    let d = Dict {
        adjectives: words(&["red", "blue", "green"]),
        adverbs: words(&["fast", "late"]),
        verbs: words(&["go", "run", "hop", "sit", "eat"]),
        nouns: words(&["cat", "dog", "emu", "yak"]),
    };
    let f = Fluid::from_random((7u128 << 96) | (1u128 << 64) | (5u128 << 32) | 0xFFFFFFFF);
    // fields: 7 % 3 = 1, 0x4001 % 4 = 1, 0x80000005 % 2 = 1, 0xFFFFFFFF % 5 = 0
    assert_eq!(f.render(&d), "blue-dog-late-go");
    assert_eq!(f.render(&d), f.render(&d));
}

#[test]
fn generate() {
    let d = large_dict();
    let uids = (0..100).map(|_| Fluid::new()).collect::<Vec<_>>();
    for uid in &uids {
        let s = uid.render(&d);
        assert_eq!(s.split('-').count(), 4);
    }
}

#[test]
fn stress() {
    let d = large_dict();
    let count = 10_000;
    let mut seen: HashSet<String> = HashSet::with_capacity(count);
    let mut clashes = 0;
    for _ in 0..count {
        if !seen.insert(Fluid::new().render(&d)) {
            clashes += 1;
        }
    }
    assert_eq!(clashes, 0);
}

#[test]
fn decoded_dictionary_renders_unicode() {
    let d = Dict {
        adjectives: words(&["café", "naïve"]),
        adverbs: words(&["très"]),
        verbs: words(&["走る"]),
        nouns: words(&["Ünïcødé", "🦊"]),
    };
    let back = Dict::decode(&d.encode()).unwrap();
    // noun field 0x4001 is odd, adjective field 1
    let f = Fluid::from_random((1u128 << 96) | (1u128 << 64));
    assert_eq!(f.render(&back), "naïve-🦊-très-走る");
}
