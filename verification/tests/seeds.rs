use econ_bridge::random::{Random, SamplingConfig};
use econ_bridge::seed::{parse_u64, Seed};
use econ_bridge::text::chars_of;

fn engine(number: u64) -> Random {
    let config = SamplingConfig { shift_weights: vec![1, 1, 1, 1], inner_size_probs: vec![1] };
    Random::new(Seed::from_u64(number), &config).unwrap()
}

#[test]
fn a_numeric_seed_keeps_no_text() {
    let seed = Seed::from_u64(1337);
    assert_eq!(seed.seed_u64, 1337);
    assert_eq!(seed.seed_str, "");
}

#[test]
fn a_textual_seed_is_the_hash_of_its_bytes() {
    let text = String::from("my favourite map");
    let seed = Seed::from_string(&text);
    assert_eq!(seed.seed_u64, seahash::hash(text.as_bytes()));
    assert_eq!(seed.seed_str, text);
    assert_eq!(Seed::str_to_u64(&text), seahash::hash(b"my favourite map"));
    assert_ne!(Seed::str_to_u64(&text), 0);
}

#[test]
fn the_hash_of_a_text_is_stable() {
    assert_eq!(Seed::str_to_u64(&String::from("to be or not to be")), 1988685042348123509);
    assert_eq!(
        Seed::str_to_u64(&String::new()),
        seahash::hash(b"")
    );
    assert_eq!(
        Seed::str_to_u64(&String::from("größe ✓")),
        seahash::hash("größe ✓".as_bytes())
    );
}

#[test]
fn from_string_is_deterministic() {
    for text in ["", "a", "hello", "No reason", "42x", "größe ✓"] {
        let a = Seed::from_string(&String::from(text));
        let b = Seed::from_string(&String::from(text));
        assert_eq!(a.seed_u64, b.seed_u64);
        assert_eq!(a.seed_str, b.seed_str);
    }
}

#[test]
fn distinct_texts_give_distinct_numbers() {
    let corpus = [
        "", "a", "b", "ab", "ba", "hello", "Hello", "hello ", "gores", "easy", "hard", "insane",
        "seed", "seed1", "seed2", "1e3", "-1", "0x10", "one two", "two one",
    ];
    let mut seen: Vec<u64> = Vec::new();
    for text in corpus.iter() {
        let number = Seed::from_string(&String::from(*text)).seed_u64;
        assert!(!seen.contains(&number), "collision on {:?}", text);
        seen.push(number);
    }
}

#[test]
fn a_numeral_reason_is_the_seed() {
    for (reason, number) in [
        ("42", 42u64),
        ("0", 0),
        ("007", 7),
        ("+7", 7),
        ("18446744073709551615", u64::MAX),
        ("000018446744073709551615", u64::MAX),
    ] {
        let seed = Seed::from_reason(&String::from(reason));
        assert_eq!(seed.seed_u64, number, "reason {:?}", reason);
        assert_eq!(seed.seed_str, "");
    }
}

#[test]
fn any_other_reason_is_hashed() {
    for reason in
        ["", "+", "-1", "4 2", "42 ", " 42", "4_2", "0x2a", "18446744073709551616", "++1", "٤٢", "abc"]
    {
        let text = String::from(reason);
        let seed = Seed::from_reason(&text);
        assert_eq!(seed.seed_u64, seahash::hash(reason.as_bytes()), "reason {:?}", reason);
        assert_eq!(seed.seed_str, reason);
        let again = Seed::from_reason_with(&text, 99);
        assert_eq!(again.seed_u64, seed.seed_u64);
        assert_eq!(again.seed_str, seed.seed_str);
    }
}

#[test]
fn no_reason_takes_the_entropy() {
    let reason = String::from("No reason given");
    let seed = Seed::from_reason_with(&reason, 123456789);
    assert_eq!(seed.seed_u64, 123456789);
    assert_eq!(seed.seed_str, "");
    let drawn = Seed::from_reason(&reason);
    assert_eq!(drawn.seed_str, "");
    let close = Seed::from_reason_with(&String::from("No reason given "), 5);
    assert_eq!(close.seed_str, "No reason given ");
}

#[test]
fn fresh_seeds_keep_no_text() {
    let a = Seed::random();
    let b = Seed::random();
    assert_eq!(a.seed_str, "");
    assert_eq!(b.seed_str, "");
    let words = [Random::get_random_u64(), Random::get_random_u64(), Random::get_random_u64()];
    assert!(words[0] != words[1] || words[1] != words[2]);
}

#[test]
fn parsing_agrees_with_the_standard_library() {
    let corpus = [
        "", "+", "-", "0", "1", "9", "10", "+0", "+10", "-0", "-10", "00", "0123456789",
        "18446744073709551614", "18446744073709551615", "18446744073709551616",
        "18446744073709551625", "28446744073709551615", "99999999999999999999",
        "184467440737095516150", "1 ", " 1", "1+", "+-1", "1a", "a1", "١٢٣", "１２３", "1.0", "1e3",
        "0000000000000000000000000000000000000001",
    ];
    for text in corpus.iter() {
        let expected: Option<u64> = text.parse::<u64>().ok();
        assert_eq!(parse_u64(&chars_of(text)), expected, "text {:?}", text);
    }
}

#[test]
fn the_next_attempt_adds_one_and_wraps() {
    let first = Seed::from_string(&String::from("walk"));
    let second = first.next_attempt();
    assert_eq!(second.seed_u64, first.seed_u64.wrapping_add(1));
    assert_eq!(second.seed_str, "");
    let last = Seed::from_u64(u64::MAX).next_attempt();
    assert_eq!(last.seed_u64, 0);
    assert_eq!(Seed::from_u64(41).next_attempt().seed_u64, 42);
}

#[test]
fn a_seed_shows_as_its_debug_form() {
    for seed in [
        Seed::from_u64(0),
        Seed::from_u64(1337),
        Seed::from_u64(u64::MAX),
        Seed::from_string(&String::from("plain")),
        Seed::from_string(&String::from("quote \" slash \\ tab \t line \n done")),
        Seed::from_string(&String::from("größe ✓")),
    ] {
        assert_eq!(seed.to_text(), format!("{:?}", seed));
    }
    assert_eq!(Seed::from_u64(1337).to_text(), "Seed { seed_u64: 1337, seed_str: \"\" }");
}

#[test]
fn a_copy_holds_the_same() {
    let seed = Seed::from_string(&String::from("copy me"));
    let copy = seed.duplicate();
    assert_eq!(copy.seed_u64, seed.seed_u64);
    assert_eq!(copy.seed_str, seed.seed_str);
}

#[test]
fn a_seed_from_an_engine_is_its_next_word() {
    let mut a = engine(5);
    let mut b = engine(5);
    let seed = Seed::from_random(&mut a);
    assert_eq!(seed.seed_u64, b.random_u64());
    assert_eq!(seed.seed_str, "");
    assert_eq!(a.random_u64(), b.random_u64());
}
