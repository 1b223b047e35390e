use wc_tool::modes::{flag_mode, is_requested};
use wc_tool::{
    count_all, count_one, format_counts, input_path, parse_contents, process, CountError, FlagSet,
    ProgArgs, ProgOption,
};

fn words(list: &[&str]) -> Vec<String> {
    list.iter().map(|word| word.to_string()).collect::<Vec<String>>()
}

fn bytes_of(text: &str) -> Vec<u8> {
    text.bytes().collect::<Vec<u8>>()
}

#[test]
fn lines_words_bytes_of_an_open_last_line() {
    let contents = bytes_of("hello world\nfoo");
    let modes = vec![ProgOption::CountLines, ProgOption::CountWords, ProgOption::CountBytes];
    assert_eq!(Ok(vec![2, 3, 15]), count_all(&modes, &contents));
    assert_eq!(Ok("2 3 15 ".to_string()), parse_contents(modes, &contents));
}

#[test]
fn count_one_gives_each_metric() {
    let contents = bytes_of("∂x ∂y\nz");
    assert_eq!(Ok(2), count_one(ProgOption::CountLines, &contents));
    assert_eq!(Ok(3), count_one(ProgOption::CountWords, &contents));
    assert_eq!(Ok(11), count_one(ProgOption::CountBytes, &contents));
    assert_eq!(Ok(7), count_one(ProgOption::CountChars, &contents));
}

#[test]
fn count_one_fails_only_where_text_is_needed() {
    let contents: Vec<u8> = vec![0xff, 0x0a];
    assert_eq!(Ok(1), count_one(ProgOption::CountLines, &contents));
    assert_eq!(Ok(2), count_one(ProgOption::CountBytes, &contents));
    assert_eq!(Err(CountError::Encoding), count_one(ProgOption::CountWords, &contents));
    assert_eq!(Err(CountError::Encoding), count_one(ProgOption::CountChars, &contents));
}

#[test]
fn count_all_keeps_the_order_asked_for() {
    let contents = bytes_of("one two\n");
    let modes = vec![
        ProgOption::CountChars,
        ProgOption::CountBytes,
        ProgOption::CountWords,
        ProgOption::CountLines,
        ProgOption::CountBytes,
    ];
    assert_eq!(Ok(vec![8, 8, 2, 1, 8]), count_all(&modes, &contents));
    assert_eq!(Ok(Vec::new()), count_all(&Vec::new(), &contents));
}

#[test]
fn count_all_gives_no_partial_result() {
    let contents: Vec<u8> = vec![b'a', 0x80];
    let modes = vec![ProgOption::CountLines, ProgOption::CountBytes, ProgOption::CountChars];
    assert_eq!(Err(CountError::Encoding), count_all(&modes, &contents));
    let raw = vec![ProgOption::CountLines, ProgOption::CountBytes];
    assert_eq!(Ok(vec![1, 2]), count_all(&raw, &contents));
}

#[test]
fn format_counts_writes_decimal_and_one_space() {
    assert_eq!("", format_counts(&Vec::new()));
    assert_eq!("0 ", format_counts(&vec![0]));
    assert_eq!("9 10 11 ", format_counts(&vec![9, 10, 11]));
    assert_eq!("100 1234567890 ", format_counts(&vec![100, 1234567890]));
    assert_eq!(format!("{} ", usize::MAX), format_counts(&vec![usize::MAX]));
}

#[test]
fn flag_mode_knows_the_four_flags_in_either_case() {
    assert_eq!(Some(ProgOption::CountBytes), flag_mode("-c"));
    assert_eq!(Some(ProgOption::CountBytes), flag_mode("-C"));
    assert_eq!(Some(ProgOption::CountLines), flag_mode("-l"));
    assert_eq!(Some(ProgOption::CountLines), flag_mode("-L"));
    assert_eq!(Some(ProgOption::CountWords), flag_mode("-w"));
    assert_eq!(Some(ProgOption::CountWords), flag_mode("-W"));
    assert_eq!(Some(ProgOption::CountChars), flag_mode("-m"));
    assert_eq!(Some(ProgOption::CountChars), flag_mode("-M"));
}

#[test]
fn flag_mode_knows_nothing_else() {
    assert_eq!(None, flag_mode(""));
    assert_eq!(None, flag_mode("-"));
    assert_eq!(None, flag_mode("c"));
    assert_eq!(None, flag_mode("-x"));
    assert_eq!(None, flag_mode("--c"));
    assert_eq!(None, flag_mode("-cl"));
    assert_eq!(None, flag_mode("-c "));
    assert_eq!(None, flag_mode("notes.txt"));
}

#[test]
fn is_requested_looks_at_every_argument() {
    let args = words(&["notes.txt", "-W", "other", "-c"]);
    assert!(is_requested(&args, ProgOption::CountWords));
    assert!(is_requested(&args, ProgOption::CountBytes));
    assert!(!is_requested(&args, ProgOption::CountLines));
    assert!(!is_requested(&args, ProgOption::CountChars));
    assert!(!is_requested(&Vec::new(), ProgOption::CountBytes));
}

#[test]
fn flags_are_read_in_any_order_and_number() {
    let flags = FlagSet::parse(&words(&["-m", "-c", "-C", "file", "-l"]));
    assert_eq!(FlagSet { lines: true, words: false, bytes: true, chars: true }, flags);
    assert_eq!(
        vec![ProgOption::CountLines, ProgOption::CountBytes, ProgOption::CountChars],
        flags.effective_modes()
    );
}

#[test]
fn modes_come_in_the_fixed_order() {
    let all = FlagSet::parse(&words(&["-m", "-c", "-w", "-l"]));
    assert_eq!(
        vec![
            ProgOption::CountLines,
            ProgOption::CountWords,
            ProgOption::CountBytes,
            ProgOption::CountChars,
        ],
        all.effective_modes()
    );
    let one = FlagSet { lines: false, words: true, bytes: false, chars: false };
    assert_eq!(vec![ProgOption::CountWords], one.effective_modes());
}

#[test]
fn no_flag_means_lines_words_bytes() {
    let none = FlagSet::parse(&words(&["notes.txt"]));
    let explicit = FlagSet::parse(&words(&["-c", "-w", "-l", "notes.txt"]));
    let expected = vec![ProgOption::CountLines, ProgOption::CountWords, ProgOption::CountBytes];
    assert_eq!(expected, none.effective_modes());
    assert_eq!(expected, explicit.effective_modes());
    assert_eq!(expected, FlagSet::parse(&Vec::new()).effective_modes());
}

#[test]
fn input_path_is_the_last_argument_that_is_no_flag() {
    assert_eq!(Some("b".to_string()), input_path(&words(&["a", "-l", "b", "-w"])));
    assert_eq!(Some("notes.txt".to_string()), input_path(&words(&["notes.txt"])));
    assert_eq!(Some("-x".to_string()), input_path(&words(&["-c", "-x"])));
    assert_eq!(None, input_path(&words(&["-l", "-W"])));
    assert_eq!(None, input_path(&Vec::new()));
}

#[test]
fn build_keeps_modes_input_and_name() {
    let request = ProgArgs::build(words(&["-w", "notes.txt", "-l"]), bytes_of("a b\n"));
    assert!(matches!(request, ProgArgs::File(_)));
    assert_eq!(&vec![ProgOption::CountLines, ProgOption::CountWords], request.flags());
    assert_eq!(&bytes_of("a b\n"), request.contents());
    assert_eq!(Some(&"notes.txt".to_string()), request.filename());

    let piped = ProgArgs::build(words(&["-m"]), bytes_of("∂"));
    assert!(matches!(piped, ProgArgs::StdIn(_)));
    assert_eq!(&vec![ProgOption::CountChars], piped.flags());
    assert_eq!(None, piped.filename());
}

#[test]
fn process_ends_the_line_with_the_file_name() {
    let request = ProgArgs::build(words(&["notes.txt"]), bytes_of("hello world\nfoo"));
    assert_eq!(Ok("2 3 15 notes.txt".to_string()), process(request));
}

#[test]
fn process_names_nothing_for_the_standard_input() {
    let request = ProgArgs::build(Vec::new(), bytes_of("hello world\nfoo"));
    assert_eq!(Ok("2 3 15 ".to_string()), process(request));
}

#[test]
fn process_reports_every_mode_once_in_the_fixed_order() {
    let request =
        ProgArgs::build(words(&["-m", "-M", "-c", "-l", "-w", "t"]), bytes_of("∂ b\nc d\n"));
    assert_eq!(Ok("2 4 10 8 t".to_string()), process(request));
}

#[test]
fn process_without_flags_equals_lines_words_bytes() {
    let contents = bytes_of("one\ntwo three\n");
    let plain = process(ProgArgs::build(words(&["f"]), contents.clone()));
    let explicit = process(ProgArgs::build(words(&["-l", "-w", "-c", "f"]), contents));
    assert_eq!(Ok("2 3 14 f".to_string()), plain);
    assert_eq!(plain, explicit);
}

#[test]
fn process_twice_gives_the_same_line() {
    let first = process(ProgArgs::build(words(&["-w", "-m", "f"]), bytes_of("a ∂\n")));
    let second = process(ProgArgs::build(words(&["-w", "-m", "f"]), bytes_of("a ∂\n")));
    assert_eq!(Ok("2 4 f".to_string()), first);
    assert_eq!(first, second);
}

#[test]
fn process_fails_where_text_is_needed_and_missing() {
    let broken: Vec<u8> = vec![0xff];
    assert_eq!(
        Err(CountError::Encoding),
        process(ProgArgs::build(words(&["-m", "f"]), broken.clone()))
    );
    assert_eq!(Err(CountError::Encoding), process(ProgArgs::build(words(&["f"]), broken.clone())));
    assert_eq!(
        Ok("1 1 f".to_string()),
        process(ProgArgs::build(words(&["-c", "-l", "f"]), broken))
    );
}
