use laertes::lexicon::{is_listed, split_spaces, text_lines, wordlist_words, Lexicon};
use laertes::roman::decode_roman_numeral;
use laertes::text::{is_text, normalize_title_word, same_chars};

fn strings(v: &[&str]) -> Vec<String> {
    v.iter().map(|s| s.to_string()).collect()
}

#[test]
fn lines_drop_line_endings() {
    assert_eq!(text_lines("a\r\nb\n\nc"), strings(&["a", "b", "", "c"]));
    assert_eq!(text_lines("a\n"), strings(&["a"]));
    assert_eq!(text_lines("x\r"), strings(&["x\r"]));
    assert_eq!(text_lines(""), strings(&[]));
    assert_eq!(text_lines("\n"), strings(&[""]));
}

#[test]
fn lines_agree_with_std() {
    for text in ["one\ntwo\r\nthree", "\r\n\r\n", "last\n", "só\nnão\n"] {
        let expected: Vec<String> = text.lines().map(|l| l.to_string()).collect();
        assert_eq!(text_lines(text), expected);
    }
}

#[test]
fn pieces_between_spaces() {
    assert_eq!(split_spaces("a  b"), strings(&["a", "", "b"]));
    assert_eq!(split_spaces(""), strings(&[""]));
    assert_eq!(split_spaces(" x "), strings(&["", "x", ""]));
    assert_eq!(split_spaces("Lady Macbeth"), strings(&["Lady", "Macbeth"]));
}

#[test]
fn words_of_a_wordlist() {
    let lines = strings(&["Romeo Juliet", "Lady Macbeth", ""]);
    assert_eq!(wordlist_words(&lines), strings(&["Romeo", "Juliet", "Lady", "Macbeth", ""]));
}

#[test]
fn lexicon_from_wordlists() {
    let lex = Lexicon::from_wordlists("Romeo\nJuliet\n", "cat\npig", "pig", "better", "worse\r\n");
    assert_eq!(lex.characters, strings(&["Romeo", "Juliet"]));
    assert_eq!(lex.nouns, strings(&["cat", "pig"]));
    assert_eq!(lex.negative_comparatives, strings(&["worse"]));
    assert!(is_listed(&lex.nouns, &"pig".to_string()));
    assert!(!is_listed(&lex.nouns, &"dog".to_string()));
}

#[test]
fn roman_numerals() {
    assert_eq!(decode_roman_numeral("I"), Some(1));
    assert_eq!(decode_roman_numeral("III"), Some(3));
    assert_eq!(decode_roman_numeral("IV"), Some(4));
    assert_eq!(decode_roman_numeral("IX"), Some(9));
    assert_eq!(decode_roman_numeral("XLII"), Some(42));
    assert_eq!(decode_roman_numeral("MCMXCIV"), Some(1994));
    assert_eq!(decode_roman_numeral("MMMCMXCIX"), Some(3999));
    assert_eq!(decode_roman_numeral(""), Some(0));
}

#[test]
fn roman_numerals_read_greedily() {
    assert_eq!(decode_roman_numeral("IIII"), Some(4));
    assert_eq!(decode_roman_numeral("VX"), Some(15));
    assert_eq!(decode_roman_numeral("XIZ"), Some(11));
    assert_eq!(decode_roman_numeral("ABC"), Some(0));
    assert_eq!(decode_roman_numeral("iv"), Some(0));
}

#[test]
fn roman_numerals_stop_at_a_character_that_begins_none() {
    assert_eq!(decode_roman_numeral("XIV?XX"), decode_roman_numeral("XIV"));
    assert_eq!(decode_roman_numeral("XIV?XX"), Some(14));
    assert_eq!(decode_roman_numeral("I.V"), Some(1));
    assert_eq!(decode_roman_numeral("?MMX"), Some(0));
}

#[test]
fn roman_numeral_too_large() {
    let just_fits = "M".repeat(4_294_967);
    assert_eq!(decode_roman_numeral(&just_fits), Some(4_294_967_000));
    let too_large = "M".repeat(4_294_968);
    assert_eq!(decode_roman_numeral(&too_large), None);
}

#[test]
fn title_words_are_lowercased_letters() {
    assert_eq!(normalize_title_word(&"The".to_string()), vec!['t', 'h', 'e']);
    assert_eq!(normalize_title_word(&"Act_1".to_string()), vec!['a', 'c', 't']);
    assert_eq!(normalize_title_word(&"ÉTÉ".to_string()), vec!['é', 't', 'é']);
    assert_eq!(normalize_title_word(&"42".to_string()), Vec::<char>::new());
}

#[test]
fn texts_and_chars() {
    assert!(is_text(&"Act".to_string(), "Act"));
    assert!(!is_text(&"act".to_string(), "Act"));
    assert!(same_chars(&vec!['a', 'b'], &vec!['a', 'b']));
    assert!(!same_chars(&vec!['a', 'b'], &vec!['a']));
    assert!(!same_chars(&vec!['a', 'b'], &vec!['a', 'c']));
}
