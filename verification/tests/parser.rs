use habitcmd::Command;
use habitcmd::CommandLineError;

#[test]
fn parse_add_command() {
    let result = Command::from_string("add eat 2");

    assert!(result.is_ok());
    match result.unwrap() {
        Command::Add(name, goal, auto) => {
            assert_eq!(name, "eat");
            assert_eq!(goal.unwrap(), 2);
            assert_eq!(auto, false);
        }
        _ => panic!(),
    }
}

#[test]
fn parse_add_command_without_goal() {
    let result = Command::from_string("add eat");

    assert!(result.is_ok());
    match result.unwrap() {
        Command::Add(name, goal, auto) => {
            assert_eq!(name, "eat");
            assert!(goal.is_none());
            assert_eq!(auto, false);
        }
        _ => panic!(),
    }
}

#[test]
fn parse_add_auto_command() {
    let result = Command::from_string("add-auto eat 2");

    assert!(result.is_ok());
    match result.unwrap() {
        Command::Add(name, goal, auto) => {
            assert_eq!(name, "eat");
            assert_eq!(goal.unwrap(), 2);
            assert_eq!(auto, true);
        }
        _ => panic!(),
    }
}

#[test]
fn parse_delete_command() {
    let result = Command::from_string("delete eat");

    assert!(result.is_ok());
    match result.unwrap() {
        Command::Delete(name) => {
            assert_eq!(name, "eat");
        }
        _ => panic!(),
    }
}

#[test]
fn parse_track_up_command() {
    let result = Command::from_string("track-up eat");

    assert!(result.is_ok());
    match result.unwrap() {
        Command::TrackUp(name) => {
            assert_eq!(name, "eat");
        }
        _ => panic!(),
    }
}

#[test]
fn parse_track_down_command() {
    let result = Command::from_string("track-down eat");

    assert!(result.is_ok());
    match result.unwrap() {
        Command::TrackDown(name) => {
            assert_eq!(name, "eat");
        }
        _ => panic!(),
    }
}

#[test]
fn parse_help_command() {
    let result = Command::from_string("help add");

    assert!(result.is_ok());
    match result.unwrap() {
        Command::Help(name) => {
            assert_eq!(name.unwrap(), "add");
        }
        _ => panic!(),
    }
}

#[test]
fn parse_month_prev_command() {
    let result = Command::from_string("mprev");

    assert!(result.is_ok());
    assert_eq!(result.unwrap(), Command::MonthPrev);
}

#[test]
fn parse_month_next_command() {
    let result = Command::from_string("mnext");

    assert!(result.is_ok());
    assert_eq!(result.unwrap(), Command::MonthNext);
}

#[test]
fn parse_quit_command() {
    let result = Command::from_string("q");

    assert!(result.is_ok());
    assert_eq!(result.unwrap(), Command::Quit);
}

#[test]
fn parse_write_command() {
    let result = Command::from_string("w");

    assert!(result.is_ok());
    assert_eq!(result.unwrap(), Command::Write);
}

#[test]
fn parse_no_command() {
    let result = Command::from_string("");

    assert!(result.is_ok());
    assert_eq!(result.unwrap(), Command::Blank);
}

#[test]
fn last_numeric_token_wins() {
    match Command::from_string("add eat 5 10").unwrap() {
        Command::Add(name, goal, auto) => {
            assert_eq!(name, "eat");
            assert_eq!(goal, Some(10));
            assert_eq!(auto, false);
        }
        _ => panic!(),
    }
}

#[test]
fn multi_word_name_with_goal() {
    match Command::from_string("add eat healthy 5").unwrap() {
        Command::Add(name, goal, auto) => {
            assert_eq!(name, "eat healthy");
            assert_eq!(goal, Some(5));
            assert_eq!(auto, false);
        }
        _ => panic!(),
    }
}

#[test]
fn delete_without_argument_fails() {
    match Command::from_string("delete") {
        Err(CommandLineError::NotEnoughArgs(name, required)) => {
            assert_eq!(name, "delete");
            assert_eq!(required, 1);
        }
        _ => panic!(),
    }
}

#[test]
fn add_without_argument_fails() {
    match Command::from_string("add") {
        Err(CommandLineError::NotEnoughArgs(name, required)) => {
            assert_eq!(name, "add");
            assert_eq!(required, 1);
        }
        _ => panic!(),
    }
}

#[test]
fn alias_without_argument_reports_alias_as_typed() {
    match Command::from_string("d") {
        Err(CommandLineError::NotEnoughArgs(name, required)) => {
            assert_eq!(name, "d");
            assert_eq!(required, 1);
        }
        _ => panic!(),
    }
}

#[test]
fn track_commands_without_argument_fail() {
    assert!(matches!(
        Command::from_string("track-up"),
        Err(CommandLineError::NotEnoughArgs(_, 1))
    ));
    assert!(matches!(
        Command::from_string("track-down"),
        Err(CommandLineError::NotEnoughArgs(_, 1))
    ));
}

#[test]
fn unknown_command_fails() {
    match Command::from_string("xyz") {
        Err(CommandLineError::InvalidCommand(token)) => {
            assert_eq!(token, "xyz");
        }
        _ => panic!(),
    }
}

#[test]
fn help_without_topic() {
    assert_eq!(Command::from_string("help").unwrap(), Command::Help(None));
}

#[test]
fn primary_names_parse_like_aliases() {
    let pairs = [
        ("a eat 2", "add eat 2"),
        ("aa eat 2", "add-auto eat 2"),
        ("d eat", "delete eat"),
        ("tup eat", "track-up eat"),
        ("tdown eat", "track-down eat"),
        ("h add", "help add"),
        ("? add", "help add"),
        ("mprev", "month-prev"),
        ("mnext", "month-next"),
        ("q", "quit"),
        ("w", "write"),
    ];
    for (alias_line, primary_line) in pairs {
        assert_eq!(
            Command::from_string(alias_line).unwrap(),
            Command::from_string(primary_line).unwrap()
        );
    }
}

#[test]
fn no_argument_commands_ignore_trailing_tokens() {
    assert_eq!(Command::from_string("quit now please").unwrap(), Command::Quit);
    assert_eq!(Command::from_string("mprev x").unwrap(), Command::MonthPrev);
    assert_eq!(Command::from_string("mnext 3").unwrap(), Command::MonthNext);
    assert_eq!(Command::from_string("write all").unwrap(), Command::Write);
}

#[test]
fn whitespace_only_input_is_blank() {
    assert_eq!(Command::from_string("   ").unwrap(), Command::Blank);
    assert_eq!(Command::from_string("\t \n").unwrap(), Command::Blank);
}

#[test]
fn input_is_trimmed_before_parsing() {
    assert_eq!(
        Command::from_string("  delete eat  ").unwrap(),
        Command::Delete("eat".to_string())
    );
}

#[test]
fn goal_at_numeric_boundaries() {
    match Command::from_string("add eat 4294967295").unwrap() {
        Command::Add(name, goal, _) => {
            assert_eq!(name, "eat");
            assert_eq!(goal, Some(u32::MAX));
        }
        _ => panic!(),
    }
    // One past u32::MAX no longer reads as a number, so it joins the name.
    match Command::from_string("add eat 4294967296").unwrap() {
        Command::Add(name, goal, _) => {
            assert_eq!(name, "eat 4294967296");
            assert_eq!(goal, None);
        }
        _ => panic!(),
    }
}

#[test]
fn goal_token_accepts_plus_sign_only() {
    match Command::from_string("add eat +5").unwrap() {
        Command::Add(name, goal, _) => {
            assert_eq!(name, "eat");
            assert_eq!(goal, Some(5));
        }
        _ => panic!(),
    }
    match Command::from_string("add run -5").unwrap() {
        Command::Add(name, goal, _) => {
            assert_eq!(name, "run -5");
            assert_eq!(goal, None);
        }
        _ => panic!(),
    }
}

#[test]
fn first_argument_opens_name_even_when_numeric() {
    match Command::from_string("add 5 10").unwrap() {
        Command::Add(name, goal, _) => {
            assert_eq!(name, "5");
            assert_eq!(goal, Some(10));
        }
        _ => panic!(),
    }
}

#[test]
fn error_messages_render() {
    let invalid = Command::from_string("xyz").unwrap_err();
    assert_eq!(invalid.message(), "Invalid command: `xyz`");
    let missing = Command::from_string("delete").unwrap_err();
    assert_eq!(missing.message(), "Command `delete` requires atleast 1 argument(s)!");
    let many = CommandLineError::NotEnoughArgs("x".to_string(), 210);
    assert_eq!(many.message(), "Command `x` requires atleast 210 argument(s)!");
}
