use vfio_benchmark::text::{chars_of, find_run, has_char};

fn chars(s: &str) -> Vec<char> {
    s.chars().collect()
}

#[test]
fn characters_come_out_in_order() {
    assert_eq!(chars_of("22:00.0"), vec!['2', '2', ':', '0', '0', '.', '0']);
    assert_eq!(chars_of(""), Vec::<char>::new());
    assert_eq!(chars_of("aé€😀"), vec!['a', 'é', '€', '😀']);
}

#[test]
fn single_character_is_found_anywhere() {
    assert!(has_char("0000:22:00.0", ':'));
    assert!(has_char("0000:22:00.0", '.'));
    assert!(has_char(".", '.'));
    assert!(has_char("abc", 'a'));
    assert!(has_char("abc", 'c'));
    assert!(!has_char("abc", 'd'));
    assert!(!has_char("", 'a'));
    assert!(has_char("naïve", 'ï'));
    assert!(!has_char("naive", 'ï'));
}

#[test]
fn run_is_found_at_the_start_in_the_middle_and_at_the_end() {
    assert!(find_run(&chars("0000:22:00.0"), &chars("0000:")));
    assert!(find_run(&chars("x0000:"), &chars("0000:")));
    assert!(find_run(&chars("a0000:b"), &chars("0000:")));
    assert!(find_run(&chars("00000:"), &chars("0000:")));
    assert!(find_run(&chars("abc"), &chars("abc")));
}

#[test]
fn run_must_be_consecutive_and_complete() {
    assert!(!find_run(&chars("000:0:"), &chars("0000:")));
    assert!(!find_run(&chars("0000"), &chars("0000:")));
    assert!(!find_run(&chars("0:0:0:0:"), &chars("0000:")));
    assert!(!find_run(&chars("ab"), &chars("abc")));
    assert!(!find_run(&chars(""), &chars("a")));
    assert!(!find_run(&chars("aab"), &chars("aba")));
}

#[test]
fn empty_run_occurs_everywhere() {
    assert!(find_run(&chars("abc"), &chars("")));
    assert!(find_run(&chars(""), &chars("")));
}

#[test]
fn repeated_prefixes_do_not_hide_a_run() {
    assert!(find_run(&chars("aaab"), &chars("aab")));
    assert!(find_run(&chars("abababc"), &chars("ababc")));
    assert!(!find_run(&chars("ababab"), &chars("ababc")));
}
