use taskmaster::client::{cli_command, CliCommand};
use taskmaster::api::{ApiArgKind, ApiKind};
use taskmaster::shell::{parse_cli, split_ident};

fn strings(v: &[&str]) -> Vec<String> {
    v.iter().map(|s| s.to_string()).collect()
}

#[test]
fn shell_split_of_quotes_and_escapes() {
    assert_eq!(parse_cli("cmd \"a b\" c\\ d 'e'"), strings(&["cmd", "a b", "c d", "e"]));
}

#[test]
fn command_split_keeps_backslashes() {
    assert_eq!(split_ident("/bin/sh -c \"exit 1\""), strings(&["/bin/sh", "-c", "exit 1"]));
    assert_eq!(split_ident("a\\ b"), strings(&["a\\", "b"]));
    assert_eq!(split_ident("  x   y  "), strings(&["x", "y"]));
    assert_eq!(split_ident(""), Vec::<String>::new());
    assert_eq!(split_ident("say 'it \"is\"'"), strings(&["say", "it \"is\""]));
}

#[test]
fn cli_commands() {
    match cli_command(&strings(&["status"])) {
        CliCommand::Ask(q) => {
            assert_eq!(*q.kind(), ApiKind::Status);
            assert_eq!(q.args().len(), 0);
        }
        _ => panic!("status"),
    }
    match cli_command(&strings(&["kill", "a", "b"])) {
        CliCommand::Tell(q) => {
            assert_eq!(q.to_string(), "[kill]target=a,target=b");
            assert_eq!(*q.args()[1].kind(), ApiArgKind::Target);
        }
        _ => panic!("kill"),
    }
    match cli_command(&strings(&["fg", "echoer"])) {
        CliCommand::Foreground(q) => assert_eq!(q.to_string(), "[foreground]target=echoer"),
        _ => panic!("fg"),
    }
    match cli_command(&strings(&["log", "web"])) {
        CliCommand::Ask(q) => assert_eq!(q.to_string(), "[log]target=web"),
        _ => panic!("log"),
    }
    assert!(matches!(cli_command(&strings(&["log"])), CliCommand::Invalid));
    assert!(matches!(cli_command(&strings(&["shutdown"])), CliCommand::Tell(_)));
    assert!(matches!(cli_command(&strings(&["exit"])), CliCommand::Exit));
    assert!(matches!(cli_command(&strings(&[])), CliCommand::Empty));
    assert!(matches!(cli_command(&strings(&["dance"])), CliCommand::Invalid));
}
