use furigana_fitter::exceptions::{handle_irregular, handle_kuru, handle_suru};

#[test]
fn kuru_dictionary_form_is_returned_as_it_is() {
    assert_eq!(handle_kuru("来る"), "[来|く]る");
}

#[test]
fn kuru_is_read_ki_before_masu_te_and_ta() {
    assert_eq!(handle_kuru("来ます"), "[来|き]ます");
    assert_eq!(handle_kuru("来ました"), "[来|き]ました");
    assert_eq!(handle_kuru("来て"), "[来|き]て");
    assert_eq!(handle_kuru("来ている"), "[来|き]ている");
    assert_eq!(handle_kuru("来た"), "[来|き]た");
}

#[test]
fn kuru_is_read_ko_in_every_other_form() {
    assert_eq!(handle_kuru("来い"), "[来|こ]い");
    assert_eq!(handle_kuru("来ない"), "[来|こ]ない");
    assert_eq!(handle_kuru("来られる"), "[来|こ]られる");
    assert_eq!(handle_kuru("来るな"), "[来|こ]るな");
}

#[test]
fn kuru_takes_any_word() {
    assert_eq!(handle_kuru(""), "[来|こ]");
    assert_eq!(handle_kuru("来"), "[来|こ]");
    assert_eq!(handle_kuru("行く"), "[来|こ]く");
    assert_eq!(handle_kuru("abc"), "[来|こ]bc");
    assert_eq!(handle_kuru("為た"), "[来|こ]た");
}

#[test]
fn suru_dictionary_form_is_returned_as_it_is() {
    assert_eq!(handle_suru("為る"), "[為|す]る");
}

#[test]
fn suru_is_read_shi_before_masu_te_ta_and_ro() {
    assert_eq!(handle_suru("為ます"), "[為|し]ます");
    assert_eq!(handle_suru("為て"), "[為|し]て");
    assert_eq!(handle_suru("為た"), "[為|し]た");
    assert_eq!(handle_suru("為ろ"), "[為|し]ろ");
}

#[test]
fn suru_is_read_sa_in_every_other_form() {
    assert_eq!(handle_suru("為れる"), "[為|さ]れる");
    assert_eq!(handle_suru("為せる"), "[為|さ]せる");
    assert_eq!(handle_suru("為ない"), "[為|さ]ない");
}

#[test]
fn suru_takes_any_word() {
    assert_eq!(handle_suru(""), "[為|さ]");
    assert_eq!(handle_suru("為"), "[為|さ]");
    assert_eq!(handle_suru("来た"), "[為|さ]た");
}

#[test]
fn only_the_two_dictionary_forms_are_irregular() {
    assert_eq!(handle_irregular("来た", "来る"), Some("[来|き]た".to_owned()));
    assert_eq!(handle_irregular("為ろ", "為る"), Some("[為|し]ろ".to_owned()));
    assert_eq!(handle_irregular("来た", "来"), None);
    assert_eq!(handle_irregular("来た", "来るな"), None);
    assert_eq!(handle_irregular("来た", "くる"), None);
    assert_eq!(handle_irregular("行った", "行く"), None);
    assert_eq!(handle_irregular("", ""), None);
}
