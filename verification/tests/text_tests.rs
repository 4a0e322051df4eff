use planeticon::errors::{
    CustomAlreadyExistsError, NoHomeDirError, NonUnicodeNameError, NonUnicodePathError,
    NotAFileError, NotExecutableError,
};
use planeticon::misspellings::{invert_letters, misspellings};
use planeticon::text::{best_effort_uppercase, str_eq, turn_to_title_case, AddManyThings, DoublePushLine};

#[test]
fn title_case_basic() {
    assert_eq!(turn_to_title_case("my-app".to_string()), "My App");
    assert_eq!(turn_to_title_case("hello_world".to_string()), "Hello World");
    assert_eq!(turn_to_title_case("x".to_string()), "X");
    assert_eq!(turn_to_title_case("".to_string()), "");
    assert_eq!(turn_to_title_case("already Upper".to_string()), "Already Upper");
    assert_eq!(turn_to_title_case("a-b_c".to_string()), "A B C");
}

#[test]
fn uppercase_best_effort() {
    assert_eq!(best_effort_uppercase('a'), 'A');
    assert_eq!(best_effort_uppercase('z'), 'Z');
    assert_eq!(best_effort_uppercase('Q'), 'Q');
    assert_eq!(best_effort_uppercase('7'), '7');
    assert_eq!(best_effort_uppercase(' '), ' ');
    // a character whose uppercase form has several characters keeps the first
    assert_eq!(best_effort_uppercase('\u{00df}'), 'S');
}

#[test]
fn misspellings_long_word() {
    let got = misspellings("carburetor");
    let expected = vec![
        "acrburetor".to_string(),
        "craburetor".to_string(),
        "cabruretor".to_string(),
        "carubretor".to_string(),
        "caburetor".to_string(),
        "crburetor".to_string(),
        "arburetor".to_string(),
    ];
    assert_eq!(got, expected);
}

#[test]
fn misspellings_short_words() {
    assert_eq!(misspellings("ab"), vec!["ba".to_string(), "b".to_string()]);
    assert_eq!(misspellings("a"), vec!["".to_string()]);
    assert_eq!(
        misspellings("abc"),
        vec!["bac".to_string(), "acb".to_string(), "ac".to_string(), "bc".to_string()],
    );
}

#[test]
fn invert_letters_swaps_and_ignores() {
    assert_eq!(invert_letters("abc", 0, 2), "cba");
    assert_eq!(invert_letters("abc", 0, 1), "bac");
    assert_eq!(invert_letters("abc", 1, 1), "abc");
    assert_eq!(invert_letters("abc", 5, 9), "abc");
    assert_eq!(invert_letters("planet", 2, 3), "plnaet");
}

#[test]
fn add_many_things_methods() {
    let mut s = String::new();
    s.manypush(&["a", "b", "c"]);
    assert_eq!(s, "abc");
    s.push_line("next");
    assert_eq!(s, "abcnext\n");
    let mut t = String::new();
    t.push_4(["w", "x", "y", "z"]);
    t.push_3(["1", "2", "3"]);
    t.push_2(["-", "-"]);
    assert_eq!(t, "wxyz123--");
    let mut e = String::new();
    e.manypush(&[]);
    assert_eq!(e, "");
}

#[test]
fn double_push_line_methods() {
    let mut s = String::new();
    s.pushln2("Key=", "value");
    s.pushln("# comment");
    assert_eq!(s, "Key=value\n# comment\n");
}

#[test]
fn str_eq_compares_contents() {
    assert!(str_eq("abc", "abc"));
    assert!(!str_eq("abc", "abd"));
    assert!(!str_eq("abc", "ab"));
    assert!(str_eq("", ""));
}

#[test]
fn error_messages() {
    assert_eq!(NotAFileError.message(), "Not a file");
    assert_eq!(
        NotExecutableError.message(),
        "Not an executable file, run \"chmod +x FILE\" first?"
    );
    assert_eq!(NoHomeDirError.message(), "Could not find the user's home directory");
    assert_eq!(
        CustomAlreadyExistsError.message(),
        "The target application file already exists. You can use \"-o\" to overwrite it."
    );
    assert_eq!(
        NonUnicodePathError.message(),
        "The path to the binary file is not valid Unicode, will not attempt to write it into the application file"
    );
    assert_eq!(
        NonUnicodeNameError.message(),
        "The name of the binary file is not valid Unicode, will not attempt to write it into the application file"
    );
}
