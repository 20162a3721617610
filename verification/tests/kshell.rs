use reenix::base::errno::Errno;
use reenix::main::kshell::{
    bdwrite_fits, do_bdread, do_bdwrite, do_echo, do_exit, do_newkshell, do_parallel, do_prepeat,
    do_repeat, lex_less, parse_line, printable_prefix, split_words, BdWritePlan, ExitPlan,
    KFunction, KShell,
};

fn argv(words: &[&str]) -> Vec<Vec<u8>> {
    words.iter().map(|w| w.as_bytes().to_vec()).collect()
}

#[test]
fn words_of_a_line() {
    assert_eq!(split_words(b"  echo  hi there "), argv(&["echo", "hi", "there"]));
    assert_eq!(split_words(b""), Vec::<Vec<u8>>::new());
    assert_eq!(split_words(b"   "), Vec::<Vec<u8>>::new());
    assert_eq!(parse_line(b"help\n"), Some(argv(&["help"])));
    assert_eq!(parse_line(b"\n"), Some(Vec::new()));
    assert_eq!(parse_line(b"a\xff\n"), None);
}

#[test]
fn dictionary_order() {
    assert!(lex_less(b"abc", b"abd"));
    assert!(lex_less(b"ab", b"abc"));
    assert!(!lex_less(b"abc", b"ab"));
    assert!(!lex_less(b"x", b"x"));
    assert!(lex_less(b"", b"a"));
}

fn shell() -> KShell {
    let mut sh = KShell::new();
    assert!(sh.add_function(KFunction::new(b"help".to_vec(), b"Show this help message".to_vec(), 0)));
    assert!(sh.add_function(KFunction::new(b"echo".to_vec(), b"echos its arguments".to_vec(), 1)));
    assert!(sh.add_function(KFunction::create(b"ipl".to_vec(), 2)));
    sh
}

#[test]
fn command_table() {
    let mut sh = shell();
    assert_eq!(sh.len(), 3);
    assert_eq!(sh.get(0).name, b"echo".to_vec());
    assert_eq!(sh.get(1).name, b"help".to_vec());
    assert_eq!(sh.get(2).name, b"ipl".to_vec());
    assert_eq!(sh.get(2).description, b"ipl".to_vec());
    // A second command of the same name replaces the first.
    assert!(!sh.add_function(KFunction::create(b"ipl".to_vec(), 9)));
    assert_eq!(sh.len(), 3);
    assert_eq!(sh.find(b"ipl").map(|f| f.id), Some(9));
    assert!(sh.find(b"nope").is_none());
    assert_eq!(sh.resolve_command(&argv(&["echo", "x"])), Ok(1));
    assert_eq!(sh.resolve_command(&argv(&["what"])), Err(Errno::ENOMSG));
    assert_eq!(sh.resolve_command(&Vec::new()), Err(Errno::ENOMSG));
}

#[test]
fn help_listing() {
    let sh = shell();
    let lines = sh.help_lines();
    assert_eq!(lines.len(), 4);
    assert_eq!(lines[0], b"KSHELL COMMANDS".to_vec());
    assert_eq!(lines[1], b"echo - echos its arguments".to_vec());
    assert_eq!(lines[2], b"help - Show this help message".to_vec());
    assert_eq!(lines[3], b"ipl - ipl".to_vec());
}

#[test]
fn echo_output() {
    assert_eq!(do_echo(&argv(&["echo", "hello", "world"])), b"hello world\n".to_vec());
    assert_eq!(do_echo(&argv(&["echo"])), b"\n".to_vec());
}

#[test]
fn exit_plans() {
    assert_eq!(do_exit(&argv(&["exit"])), ExitPlan::Exit { status: 0, hard: false });
    assert_eq!(do_exit(&argv(&["exit", "3"])), ExitPlan::Exit { status: 3, hard: false });
    assert_eq!(do_exit(&argv(&["hard-exit", "0x10"])), ExitPlan::Exit { status: 16, hard: true });
    assert_eq!(do_exit(&argv(&["exit", "x"])), ExitPlan::Usage);
    assert_eq!(do_exit(&argv(&["exit", "1", "2"])), ExitPlan::Usage);
}

#[test]
fn newkshell_and_bdread_plans() {
    assert_eq!(do_newkshell(&argv(&["kshell"])), Ok(None));
    assert_eq!(do_newkshell(&argv(&["kshell", "2"])), Ok(Some(2)));
    assert_eq!(do_newkshell(&argv(&["kshell", "z"])), Err(Errno::EINVAL));
    assert_eq!(do_bdread(&argv(&["read-block"])), None);
    assert_eq!(do_bdread(&argv(&["read-block", "7"])), Some(7));
    assert_eq!(do_bdread(&argv(&["read-block", "q"])), None);
    assert_eq!(printable_prefix(b"hello\0world"), 5);
    assert_eq!(printable_prefix(b"ok\xc3\xa9"), 2);
    assert_eq!(printable_prefix(b"all"), 3);
}

#[test]
fn repeat_plans() {
    assert_eq!(do_repeat(&argv(&["repeat", "3"])), Err(Errno::EBADMSG));
    assert_eq!(do_repeat(&argv(&["repeat", "x", "echo"])), Err(Errno::EBADMSG));
    assert_eq!(do_repeat(&argv(&["repeat", "3", "echo", "a"])), Ok(3));
    assert_eq!(do_prepeat(&argv(&["prepeat", "2"])), None);
    assert_eq!(do_prepeat(&argv(&["prepeat", "n", "echo"])), None);
    assert_eq!(
        do_prepeat(&argv(&["prepeat", "2", "echo", "a"])),
        Some(argv(&["parallel", "echo", "a", "||", "echo", "a"]))
    );
    assert_eq!(do_prepeat(&argv(&["prepeat", "0", "echo"])), Some(argv(&["parallel"])));
}

#[test]
fn parallel_groups() {
    assert_eq!(do_parallel(&argv(&["parallel"])), None);
    assert_eq!(
        do_parallel(&argv(&["parallel", "echo", "a", "||", "||", "ipl", "||"])),
        Some(vec![argv(&["echo", "a"]), argv(&["ipl"])])
    );
    assert_eq!(do_parallel(&argv(&["parallel", "||"])), Some(Vec::new()));
}

#[test]
fn bdwrite_plans() {
    assert!(matches!(do_bdwrite(&argv(&["write-blocks", "1", "2"])), BdWritePlan::Usage));
    assert!(matches!(do_bdwrite(&argv(&["write-blocks", "x", "2", "t"])), BdWritePlan::BadBlock));
    assert!(matches!(do_bdwrite(&argv(&["write-blocks", "1", "y", "t"])), BdWritePlan::BadReps));
    assert!(matches!(do_bdwrite(&argv(&["write-blocks", "1", "9", "t"])), BdWritePlan::TooMany));
    match do_bdwrite(&argv(&["write-blocks", "5", "2", "hi", "there"])) {
        BdWritePlan::Write { start, blks, page } => {
            assert_eq!((start, blks), (5, 2));
            assert_eq!(page.len(), 4096);
            assert_eq!(&page[..10], b"hi\nthere\n\0");
            assert!(page[10..].iter().all(|&b| b == 0));
        },
        _ => panic!("expected a write"),
    }
}

#[test]
fn bdwrite_long_text() {
    let long = "x".repeat(5000);
    let args = argv(&["write-blocks", "0", "1", &long]);
    assert!(bdwrite_fits(&args));
    match do_bdwrite(&args) {
        BdWritePlan::Write { page, .. } => {
            assert!(page[..4095].iter().all(|&b| b == b'x'));
            assert_eq!(page[4095], 0);
        },
        _ => panic!("expected a write"),
    }
    // A text whose new line falls on the last byte of the block leaves no
    // room for the final zero byte.
    let edge = "y".repeat(4095);
    assert!(!bdwrite_fits(&argv(&["write-blocks", "0", "1", &edge])));
    assert!(bdwrite_fits(&argv(&["write-blocks", "0", "1", &"y".repeat(4094)])));
}

#[test]
fn echo_reparses_to_its_arguments() {
    let line = b"echo  hello   kernel world\n";
    let words = parse_line(line).unwrap();
    let out = do_echo(&words);
    assert_eq!(out, b"hello kernel world\n".to_vec());
    let again = parse_line(&out).unwrap();
    assert_eq!(again, argv(&["hello", "kernel", "world"]));
    assert_eq!(&again[..], &words[1..]);
}

#[test]
fn echo_without_arguments() {
    assert_eq!(do_echo(&Vec::new()), b"\n".to_vec());
    assert_eq!(do_echo(&argv(&["echo"])), b"\n".to_vec());
}
