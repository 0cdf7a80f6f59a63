use taskmaster::command::{merge_env, path_candidates, Command};
use taskmaster::config::{AutoRestartCondition, CtlConfig, DaemonConfig, OutputLog, ProcessConfig, StopSignal};
use taskmaster::config_parser::{signal_of_lower, signal_of_name, ConfigParser};
use taskmaster::log::{Level, LevelFilter, LogBuilder, Logger, Output};
use taskmaster::number::{from_human, letter_to_pow, parse_i32, parse_max, parse_u64, pow_to_letter, to_human, HumanError};
use taskmaster::parser::{trim, IniParser, IniValue, Parser};

const SAMPLE: &str = "[taskmasterd]\nloglevel = debug\numask = 18\nnodaemon = true\n\n[taskmasterctl]\nprompt = tm> \nhistory_file = none\n\n[program:web]\ncommand = /bin/sleep 60 ; comment\nstart_retries = 2\nexit_codes = 0 1 x 3\nstop_signal = SIGKILL\nauto_restart = false\nenvs = A=1,,B=2\nstdout_logfile = none\nstderr_logfile = /tmp/err.log\numask = 63\nstart_secs = nope\n\n[program:db]\ncommand = db\n";

#[test]
fn parse_sample_configuration() {
    let cfg = ConfigParser::new(SAMPLE, "/srv").parse();
    let d = cfg.daemon().unwrap();
    assert_eq!(d.loglevel, Level::Debug);
    assert_eq!(d.umask, 18);
    assert!(d.nodaemon);
    assert_eq!(d.logfile, "/srv/taskmasterd.log");
    let c = cfg.ctl().unwrap();
    assert_eq!(c.prompt, "tm>");
    assert_eq!(c.history_file, None);
    let ps = cfg.processes();
    assert_eq!(ps.len(), 2);
    assert_eq!(ps[0].name, "db");
    let web = &ps[1];
    assert_eq!(web.name, "web");
    assert_eq!(web.command, "/bin/sleep 60");
    assert_eq!(web.start_retries, 2);
    assert_eq!(web.exit_codes, vec![0, 1, 3]);
    assert_eq!(web.stop_signal, StopSignal::Kill);
    assert_eq!(web.auto_restart, AutoRestartCondition::False);
    assert_eq!(web.envs, Some(vec!["A=1".to_string(), "B=2".to_string()]));
    assert_eq!(web.stdout_logfile, OutputLog::Off);
    assert_eq!(web.stderr_logfile, OutputLog::File("/tmp/err.log".to_string()));
    assert_eq!(web.umask, Some(63));
    assert_eq!(web.start_secs, 1);
}

#[test]
fn first_occurrence_of_a_key_decides() {
    let cfg = ConfigParser::new("[program:a]\npriority = 5\npriority = 7\n", "/").parse();
    assert_eq!(cfg.processes()[0].priority, 5);
}

#[test]
fn program_section_needs_a_name() {
    let cfg = ConfigParser::new("[program]\ncommand = x\n[other]\na = b\n", "/").parse();
    assert_eq!(cfg.processes().len(), 0);
    assert!(cfg.daemon().is_none());
}

#[test]
fn defaults() {
    let p = ProcessConfig::default();
    assert_eq!(p.priority, 999);
    assert_eq!(p.exit_codes, vec![0, 2]);
    assert_eq!(p.start_retries, 3);
    assert_eq!(p.stop_signal, StopSignal::Term);
    let d = DaemonConfig::default_in("/x");
    assert_eq!(d.pidfile, "/x/taskmasterd.pid");
    assert_eq!(d.umask, 0o022);
    let c = CtlConfig::default();
    assert_eq!(c.server_ip, "127.0.0.1:9450");
    assert_eq!(taskmaster::DEFAULT_PORT, 9450);
}

#[test]
fn signal_names() {
    assert_eq!(signal_of_name("SIGTERM"), Some(StopSignal::Term));
    assert_eq!(signal_of_name("Usr2"), Some(StopSignal::Usr2));
    assert_eq!(signal_of_name("stop"), None);
    assert_eq!(signal_of_lower("hup"), Some(StopSignal::Hup));
    assert_eq!(signal_of_lower("HUP"), None);
}

#[test]
fn numbers() {
    assert_eq!(parse_u64(&['+', '4', '2']), Some(42));
    assert_eq!(parse_u64(&['1', '8', '4', '4', '6', '7', '4', '4', '0', '7', '3', '7', '0', '9', '5', '5', '1', '6', '1', '5']), Some(u64::MAX));
    assert_eq!(parse_u64(&['1', '8', '4', '4', '6', '7', '4', '4', '0', '7', '3', '7', '0', '9', '5', '5', '1', '6', '1', '6']), None);
    assert_eq!(parse_u64(&[]), None);
    assert_eq!(parse_u64(&['+']), None);
    assert_eq!(parse_u64(&['1', 'a']), None);
    assert_eq!(parse_max(&['2', '5', '6'], 255), None);
    assert_eq!(parse_i32(&['-', '2', '1', '4', '7', '4', '8', '3', '6', '4', '8']), Some(i32::MIN));
    assert_eq!(parse_i32(&['2', '1', '4', '7', '4', '8', '3', '6', '4', '8']), None);
    assert_eq!(parse_i32(&['-', '7']), Some(-7));
}

#[test]
fn ini_reader() {
    let mut p = IniParser::new("; top\n[s]\nk = v\\;w ; c\n  skipped = 1\nx=y\n");
    match p.parse_value() {
        Some(IniValue::Section(name, keys)) => {
            assert_eq!(name, "s");
            assert_eq!(keys.len(), 2);
            match &keys[0] {
                IniValue::Key(k, v) => {
                    assert_eq!(k, "k");
                    assert_eq!(v, "v;w");
                }
                _ => panic!("key"),
            }
        }
        _ => panic!("section"),
    }
    assert!(p.parse_value().is_none());
    assert_eq!(IniParser::new("a=1\nb=2\n").parse().len(), 2);
}

#[test]
fn text_cursor() {
    let mut p = Parser::new("ab=cd\nef");
    assert_eq!(p.next_char(), Some('a'));
    assert_eq!(p.next_line(), "ab=cd");
    assert_eq!(p.get_while(|c| c != '='), "ab");
    assert_eq!(p.eat_while(|c| c != '='), "ab");
    assert_eq!(p.eat_char(), Some('='));
    assert_eq!(p.eat_line(), "cd");
    assert!(!p.is_eof());
    assert_eq!(p.eat_line(), "ef");
    assert!(p.is_eof());
    assert_eq!(p.eat_char(), None);
    assert_eq!(trim("  a b \t"), "a b");
}

#[test]
fn environment_and_path() {
    let base = vec!["PATH=/bin".to_string(), "HOME=/root".to_string()];
    let extra = vec!["HOME=/tmp".to_string(), "X=1".to_string()];
    assert_eq!(
        merge_env(&base, &extra),
        vec!["PATH=/bin".to_string(), "HOME=/tmp".to_string(), "X=1".to_string()]
    );
    assert_eq!(path_candidates("/usr/bin:/bin", "sleep"), vec!["/usr/bin/sleep".to_string(), "/bin/sleep".to_string()]);
    assert!(path_candidates("/bin", "/bin/sleep").is_empty());
    let cmd = Command::new("sleep 60", &base, &extra).unwrap();
    assert_eq!(cmd.program(), "sleep");
    assert_eq!(cmd.args().len(), 2);
    assert_eq!(cmd.env().len(), 3);
    assert!(Command::new("   ", &base, &extra).is_none());
}

#[test]
fn log_levels_and_outputs() {
    assert_eq!(Level::from_str("warn"), Ok(Level::Warn));
    assert_eq!(Level::from_str("loud"), Err(()));
    assert_eq!(Level::Blather.name(), "blather");
    let mut logger = Logger::new();
    logger.add_output(Output::stdout(LevelFilter::Info));
    logger.add_output(Output::file("/tmp/x.log".to_string(), LevelFilter::Blather));
    let debug = LogBuilder::new().level(Level::Debug).message("d".to_string()).build();
    assert_eq!(logger.log(&debug), vec![1]);
    let info = LogBuilder::new().level(Level::Info).build();
    assert_eq!(logger.log(&info), vec![0, 1]);
    logger.set_max_level(LevelFilter::Warn);
    assert_eq!(logger.log(&info), Vec::<usize>::new());
    logger.clear_outputs();
    logger.set_max_level(LevelFilter::Blather);
    assert_eq!(logger.log(&info), Vec::<usize>::new());
    assert_eq!(debug.message(), "d");
}

#[test]
fn human_sizes() {
    assert_eq!(to_human(50000), "50kB");
    assert_eq!(to_human(9999), "9999B");
    assert_eq!(to_human(12_345_678), "12MB");
    assert_eq!(to_human(u64::MAX), "18EB");
    assert_eq!(from_human("50kB"), Ok(50_000));
    assert_eq!(from_human("2MiB"), Ok(2 * 1024 * 1024));
    assert_eq!(from_human("300"), Ok(300));
    assert_eq!(from_human("7B trailing"), Ok(7));
    assert_eq!(from_human("5x"), Err(HumanError::InvalidMetric));
    assert_eq!(from_human("5kx"), Err(HumanError::UnexpectedChar));
    assert_eq!(from_human("5kiq"), Err(HumanError::UnexpectedChar));
    assert_eq!(from_human("kB"), Err(HumanError::InvalidNumber));
    assert_eq!(from_human("20YB"), Err(HumanError::Overflow));
    assert_eq!(letter_to_pow('K'), Some(1));
    assert_eq!(letter_to_pow('q'), None);
    assert_eq!(pow_to_letter(2), Some('M'));
    assert_eq!(pow_to_letter(9), None);
}
