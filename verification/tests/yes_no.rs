use rtl433_parser::yes_no::deserialize_yes_no;

#[test]
fn affirming_words_give_true() {
    for word in ["Yes", "yes", "YES", "true", "TRUE", "True", "1"] {
        assert_eq!(deserialize_yes_no(Some(word)), Some(true), "{:?}", word);
    }
}

#[test]
fn denying_words_give_false() {
    for word in ["No", "no", "NO", "false", "FALSE", "False", "0"] {
        assert_eq!(deserialize_yes_no(Some(word)), Some(false), "{:?}", word);
    }
}

#[test]
fn other_words_give_nothing() {
    for word in ["maybe", "", "y", "n", "yess", "ye", "tru", "truee", "11", "00", "10", " yes", "yes ", "on", "off", "2", "-1", "ja", "y\u{e9}s"] {
        assert_eq!(deserialize_yes_no(Some(word)), None, "{:?}", word);
    }
}

#[test]
fn an_absent_word_gives_nothing() {
    assert_eq!(deserialize_yes_no(None), None);
}

#[test]
fn words_count_in_any_mix_of_cases() {
    for word in ["yEs", "YeS", "yES", "tRuE", "TRue", "truE"] {
        assert_eq!(deserialize_yes_no(Some(word)), Some(true), "{:?}", word);
    }
    for word in ["nO", "fAlSe", "FALse", "falsE"] {
        assert_eq!(deserialize_yes_no(Some(word)), Some(false), "{:?}", word);
    }
}
