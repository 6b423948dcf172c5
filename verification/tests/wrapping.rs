use boro::wrap::{split_char_chunks, wrap_finding_body, wrap_words};

#[test]
fn wrap_words_short_unsplit() {
    let l = wrap_words("hello world", 80, 80);
    assert_eq!(l, vec!["hello world"]);
}

#[test]
fn wrap_words_two_lines() {
    let l = wrap_words("aa bb cc dd ee", 8, 8);
    assert_eq!(l, vec!["aa bb cc", "dd ee"]);
}

#[test]
fn wrap_words_long_word_split() {
    let l = wrap_words("abcdefghij", 4, 4);
    assert_eq!(l, vec!["abcd", "efgh", "ij"]);
}

#[test]
fn wrap_finding_body_second_paragraph_uses_cont_width() {
    let t = "first words here\n\nmore after blank";
    let w = wrap_finding_body(t, 12, 12);
    assert!(w.len() >= 2);
}

#[test]
fn wrap_words_of_blank_text_is_empty() {
    assert_eq!(wrap_words("", 10, 10), Vec::<String>::new());
    assert_eq!(wrap_words(" \t\n ", 10, 10), Vec::<String>::new());
}

#[test]
fn wrap_words_uses_both_widths() {
    let l = wrap_words("aa bb cc dd ee ff", 5, 8);
    assert_eq!(l, vec!["aa bb", "cc dd ee", "ff"]);
    let l = wrap_words("aa bb cc dd ee ff", 8, 5);
    assert_eq!(l, vec!["aa bb cc", "dd ee", "ff"]);
}

#[test]
fn wrap_words_takes_zero_for_one() {
    assert_eq!(wrap_words("ab c", 0, 0), vec!["a", "b", "c"]);
}

#[test]
fn wrap_words_joins_words_with_one_space() {
    assert_eq!(wrap_words("  a \u{a0}\u{3000} b\nc  ", 80, 80), vec!["a b c"]);
}

#[test]
fn wrap_words_cuts_a_long_word_after_a_short_one() {
    let l = wrap_words("ab cdefghijk l", 4, 3);
    assert_eq!(l, vec!["ab", "cde", "fgh", "ijk", "l"]);
}

#[test]
fn wrap_words_cuts_a_first_word_to_the_narrower_width() {
    assert_eq!(wrap_words("abcdefghij", 3, 5), vec!["abc", "def", "ghi", "j"]);
    assert_eq!(wrap_words("abcdefghij", 5, 3), vec!["abcde", "fgh", "ij"]);
}

#[test]
fn wrap_words_counts_characters_not_bytes() {
    assert_eq!(wrap_words("äöü ßß €€€€", 6, 6), vec!["äöü ßß", "€€€€"]);
}

#[test]
fn no_line_is_wider_than_it_may_be() {
    let text = "the quick brown fox jumps over the extraordinarily lazy dog";
    for first in 1..20 {
        for cont in 1..20 {
            let ls = wrap_words(text, first, cont);
            for (i, l) in ls.iter().enumerate() {
                let width = if i == 0 { first } else { cont };
                assert!(l.chars().count() <= width);
                assert!(!l.is_empty());
            }
            let kept: String = ls.concat().split_whitespace().collect();
            let all: String = text.split_whitespace().collect();
            assert_eq!(kept, all);
        }
    }
}

#[test]
fn words_stay_whole_where_they_fit() {
    let l = wrap_words("to be or not to be that is", 8, 10);
    assert_eq!(l, vec!["to be or", "not to be", "that is"]);
}

#[test]
fn chunks_put_together_are_the_text() {
    assert_eq!(split_char_chunks("", 3), Vec::<String>::new());
    assert_eq!(split_char_chunks("abc", 3), vec!["abc"]);
    assert_eq!(split_char_chunks("abcd", 3), vec!["abc", "d"]);
    assert_eq!(split_char_chunks("äöüß", 0), vec!["ä", "ö", "ü", "ß"]);
    assert_eq!(split_char_chunks("abcdefgh", 3).concat(), "abcdefgh");
}

#[test]
fn bodies_wrap_each_paragraph_on_its_own() {
    let l = wrap_finding_body("  aa bb cc  \r\n\n \t \ndd ee\nff", 5, 8);
    assert_eq!(l, vec!["aa bb", "cc", "dd ee", "ff"]);
    let l = wrap_finding_body("aa\naa bb cc", 5, 8);
    assert_eq!(l, vec!["aa", "aa bb cc"]);
    assert_eq!(wrap_finding_body(" \n\t\n", 5, 8), Vec::<String>::new());
}
