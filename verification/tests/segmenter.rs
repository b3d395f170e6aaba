use nlp_dispatch::segment::{handle_split, split_text, trim_str};

#[test]
fn decimal_and_final_period_guard() {
    let chunks = split_text(String::from("Pi is 3.14 and e is 2.71."));
    assert_eq!(chunks, vec![String::from("Pi is 3.14 and e is 2.71.")]);
}

#[test]
fn ellipsis_is_not_three_boundaries() {
    let chunks = split_text(String::from("Wait... really?"));
    assert_eq!(chunks, vec![String::from("Wait..."), String::from("really?")]);
}

#[test]
fn empty_input_is_one_empty_chunk() {
    let chunks = split_text(String::new());
    assert_eq!(chunks, vec![String::new()]);
}

#[test]
fn no_punctuation_is_one_trimmed_chunk() {
    let chunks = split_text(String::from("  no punctuation here  "));
    assert_eq!(chunks, vec![String::from("no punctuation here")]);
}

#[test]
fn three_sentences_make_three_chunks() {
    let chunks = split_text(String::from("One is here. Two is there. Three ends."));
    assert_eq!(
        chunks,
        vec![
            String::from("One is here."),
            String::from("Two is there."),
            String::from("Three ends.")
        ]
    );
}

#[test]
fn multibyte_lookahead_is_by_character() {
    let chunks = split_text(String::from("Caf\u{e9} ferm\u{e9}. \u{c7}a va"));
    assert_eq!(
        chunks,
        vec![String::from("Caf\u{e9} ferm\u{e9}."), String::from("\u{c7}a va")]
    );
}

#[test]
fn input_ending_in_multibyte_character_keeps_its_tail() {
    let chunks = split_text(String::from("First part. d\u{e9}j\u{e0}"));
    assert_eq!(
        chunks,
        vec![String::from("First part."), String::from("d\u{e9}j\u{e0}")]
    );
}

#[test]
fn reconstruction_modulo_whitespace() {
    let input = String::from("Alpha beta. Gamma delta.  Epsilon.");
    let chunks = split_text(input.clone());
    let joined = chunks.join("");
    let squash = |s: &str| s.chars().filter(|c| !c.is_whitespace()).collect::<String>();
    assert_eq!(squash(&joined), squash(&input));
}

#[test]
fn segmentation_never_yields_nothing() {
    for input in ["", " ", ".", "...", "a", "one. two."] {
        assert!(split_text(String::from(input)).len() >= 1);
    }
}

#[test]
fn split_toggle_off_keeps_one_chunk() {
    let chunks = handle_split(String::from("One is here. Two is there."), false);
    assert_eq!(chunks, vec![String::from("One is here. Two is there.")]);
}

#[test]
fn split_toggle_on_segments() {
    let chunks = handle_split(String::from("One is here. Two is there."), true);
    assert_eq!(
        chunks,
        vec![String::from("One is here."), String::from("Two is there.")]
    );
}

#[test]
fn trimming_removes_only_edges() {
    assert_eq!(trim_str("\t two  words \n"), String::from("two  words"));
    assert_eq!(trim_str("   "), String::new());
    assert_eq!(trim_str("plain"), String::from("plain"));
}

#[test]
fn trimming_covers_unicode_whitespace() {
    assert_eq!(trim_str("\u{A0}padded\u{A0}"), String::from("padded"));
    assert_eq!(trim_str("\u{2003}wide\u{3000}"), String::from("wide"));
    assert_eq!(trim_str("\u{C}formfed\u{85}"), String::from("formfed"));
    // The same set str::trim removes, on a sampler of edges.
    for s in ["\u{A0}x\u{2028}", "\u{1680} y \u{202F}", "\u{205F}z"] {
        assert_eq!(trim_str(s), String::from(s.trim()));
    }
}

#[test]
fn lone_period_is_one_chunk() {
    let chunks = split_text(String::from("."));
    assert_eq!(chunks, vec![String::from(".")]);
}
