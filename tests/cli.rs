use trello_cli::cli::{CardCommands, Cli, CliErrorKind, Commands, ListCommands};

#[test]
fn parse_card_update_description() {
    let cli = Cli::try_parse_from(&[
        "trello",
        "card",
        "update",
        "abc123",
        "-d",
        "New description",
    ])
    .unwrap();
    match cli.command {
        Commands::Card { command } => match command {
            CardCommands::Update {
                card_id,
                description,
                label,
                clear_label,
                comment,
                archive,
                restore,
            } => {
                assert_eq!(card_id, "abc123");
                assert_eq!(description, Some("New description".to_string()));
                assert!(label.is_empty());
                assert!(clear_label.is_empty());
                assert_eq!(comment, None);
                assert!(!archive);
                assert!(!restore);
            }
            _ => panic!("Expected Update command"),
        },
        _ => panic!("Expected Card command"),
    }
}

#[test]
fn parse_card_create_minimal() {
    let cli = Cli::try_parse_from(&[
        "trello",
        "card",
        "create",
        "507f1f77bcf86cd799439011",
        "Card name",
    ])
    .unwrap();
    match cli.command {
        Commands::Card { command } => match command {
            CardCommands::Create {
                list,
                name,
                description,
                position,
                board,
            } => {
                assert_eq!(list, "507f1f77bcf86cd799439011");
                assert_eq!(name, "Card name");
                assert_eq!(description, None);
                assert_eq!(position, "bottom");
                assert_eq!(board, None);
            }
            _ => panic!("Expected Create command"),
        },
        _ => panic!("Expected Card command"),
    }
}

#[test]
fn parse_card_create_with_all_optional_flags() {
    let cli = Cli::try_parse_from(&[
        "trello",
        "card",
        "create",
        "list123",
        "Card name",
        "-d",
        "desc",
        "-p",
        "top",
        "-b",
        "My Board",
    ])
    .unwrap();
    match cli.command {
        Commands::Card { command } => match command {
            CardCommands::Create {
                list,
                name,
                description,
                position,
                board,
            } => {
                assert_eq!(list, "list123");
                assert_eq!(name, "Card name");
                assert_eq!(description, Some("desc".to_string()));
                assert_eq!(position, "top");
                assert_eq!(board, Some("My Board".to_string()));
            }
            _ => panic!("Expected Create command"),
        },
        _ => panic!("Expected Card command"),
    }
}

#[test]
fn parse_card_create_list_name_substring() {
    let cli = Cli::try_parse_from(&["trello", "card", "create", "To Do", "Card name"]).unwrap();
    match cli.command {
        Commands::Card { command } => match command {
            CardCommands::Create { list, .. } => {
                assert_eq!(list, "To Do");
            }
            _ => panic!("Expected Create command"),
        },
        _ => panic!("Expected Card command"),
    }
}

#[test]
fn parse_card_update_label() {
    let cli = Cli::try_parse_from(&["trello", "card", "update", "abc123", "-l", "Bug"]).unwrap();
    match cli.command {
        Commands::Card { command } => match command {
            CardCommands::Update { card_id, label, .. } => {
                assert_eq!(card_id, "abc123");
                assert_eq!(label, vec!["Bug"]);
            }
            _ => panic!("Expected Update command"),
        },
        _ => panic!("Expected Card command"),
    }
}

#[test]
fn parse_card_update_multiple_labels() {
    let cli = Cli::try_parse_from(&[
        "trello", "card", "update", "abc123", "-l", "Bug", "-l", "Urgent",
    ])
    .unwrap();
    match cli.command {
        Commands::Card { command } => match command {
            CardCommands::Update { card_id, label, .. } => {
                assert_eq!(card_id, "abc123");
                assert_eq!(label, vec!["Bug", "Urgent"]);
            }
            _ => panic!("Expected Update command"),
        },
        _ => panic!("Expected Card command"),
    }
}

#[test]
fn parse_card_update_clear_label() {
    let cli =
        Cli::try_parse_from(&["trello", "card", "update", "abc123", "--clear-label", "Bug"])
            .unwrap();
    match cli.command {
        Commands::Card { command } => match command {
            CardCommands::Update {
                card_id,
                clear_label,
                ..
            } => {
                assert_eq!(card_id, "abc123");
                assert_eq!(clear_label, vec!["Bug"]);
            }
            _ => panic!("Expected Update command"),
        },
        _ => panic!("Expected Card command"),
    }
}

#[test]
fn parse_card_update_multiple_clear_labels() {
    let cli = Cli::try_parse_from(&[
        "trello",
        "card",
        "update",
        "abc123",
        "--clear-label",
        "Bug",
        "--clear-label",
        "Urgent",
    ])
    .unwrap();
    match cli.command {
        Commands::Card { command } => match command {
            CardCommands::Update {
                card_id,
                clear_label,
                ..
            } => {
                assert_eq!(card_id, "abc123");
                assert_eq!(clear_label, vec!["Bug", "Urgent"]);
            }
            _ => panic!("Expected Update command"),
        },
        _ => panic!("Expected Card command"),
    }
}

#[test]
fn parse_card_update_comment() {
    let cli =
        Cli::try_parse_from(&["trello", "card", "update", "abc123", "-c", "A comment"]).unwrap();
    match cli.command {
        Commands::Card { command } => match command {
            CardCommands::Update {
                card_id, comment, ..
            } => {
                assert_eq!(card_id, "abc123");
                assert_eq!(comment, Some("A comment".to_string()));
            }
            _ => panic!("Expected Update command"),
        },
        _ => panic!("Expected Card command"),
    }
}

#[test]
fn parse_card_update_archive() {
    let cli = Cli::try_parse_from(&["trello", "card", "update", "abc123", "-a"]).unwrap();
    match cli.command {
        Commands::Card { command } => match command {
            CardCommands::Update {
                card_id, archive, ..
            } => {
                assert_eq!(card_id, "abc123");
                assert!(archive);
            }
            _ => panic!("Expected Update command"),
        },
        _ => panic!("Expected Card command"),
    }
}

#[test]
fn parse_card_update_restore() {
    let cli = Cli::try_parse_from(&["trello", "card", "update", "abc123", "-r"]).unwrap();
    match cli.command {
        Commands::Card { command } => match command {
            CardCommands::Update {
                card_id,
                archive,
                restore,
                ..
            } => {
                assert_eq!(card_id, "abc123");
                assert!(!archive);
                assert!(restore);
            }
            _ => panic!("Expected Update command"),
        },
        _ => panic!("Expected Card command"),
    }
}

#[test]
fn parse_card_update_comment_and_archive() {
    let cli = Cli::try_parse_from(&["trello", "card", "update", "abc123", "-c", "Done", "-a"])
        .unwrap();
    match cli.command {
        Commands::Card { command } => match command {
            CardCommands::Update {
                card_id,
                comment,
                archive,
                ..
            } => {
                assert_eq!(card_id, "abc123");
                assert_eq!(comment, Some("Done".to_string()));
                assert!(archive);
            }
            _ => panic!("Expected Update command"),
        },
        _ => panic!("Expected Card command"),
    }
}

#[test]
fn parse_card_update_label_and_clear_label() {
    let cli = Cli::try_parse_from(&[
        "trello",
        "card",
        "update",
        "abc123",
        "-l",
        "green",
        "--clear-label",
        "red",
    ])
    .unwrap();
    match cli.command {
        Commands::Card { command } => match command {
            CardCommands::Update {
                card_id,
                label,
                clear_label,
                ..
            } => {
                assert_eq!(card_id, "abc123");
                assert_eq!(label, vec!["green"]);
                assert_eq!(clear_label, vec!["red"]);
            }
            _ => panic!("Expected Update command"),
        },
        _ => panic!("Expected Card command"),
    }
}

#[test]
fn parse_card_update_no_flags_parses_ok() {
    // Clap should parse successfully even with no flags; runtime check rejects it
    let cli = Cli::try_parse_from(&["trello", "card", "update", "abc123"]).unwrap();
    match cli.command {
        Commands::Card { command } => match command {
            CardCommands::Update {
                card_id,
                description,
                label,
                clear_label,
                comment,
                archive,
                restore,
            } => {
                assert_eq!(card_id, "abc123");
                assert_eq!(description, None);
                assert!(label.is_empty());
                assert!(clear_label.is_empty());
                assert_eq!(comment, None);
                assert!(!archive);
                assert!(!restore);
            }
            _ => panic!("Expected Update command"),
        },
        _ => panic!("Expected Card command"),
    }
}

#[test]
fn parse_card_move() {
    let cli = Cli::try_parse_from(&["trello", "card", "move", "abc123", "top"]).unwrap();
    match cli.command {
        Commands::Card { command } => match command {
            CardCommands::Move { card_id, position } => {
                assert_eq!(card_id, "abc123");
                assert_eq!(position, "top");
            }
            _ => panic!("Expected Move command"),
        },
        _ => panic!("Expected Card command"),
    }
}

#[test]
fn parse_list_move() {
    let cli = Cli::try_parse_from(&["trello", "list", "move", "list456", "bottom"]).unwrap();
    match cli.command {
        Commands::List { command } => match command {
            ListCommands::Move { list_id, position } => {
                assert_eq!(list_id, "list456");
                assert_eq!(position, "bottom");
            }
        },
        _ => panic!("Expected List command"),
    }
}

#[test]
fn parse_card_find_minimal() {
    let cli = Cli::try_parse_from(&["trello", "card", "find", "bug"]).unwrap();
    match cli.command {
        Commands::Card { command } => match command {
            CardCommands::Find {
                pattern,
                board,
                list,
                json,
            } => {
                assert_eq!(pattern, "bug");
                assert_eq!(board, None);
                assert_eq!(list, None);
                assert!(!json);
            }
            _ => panic!("Expected Find command"),
        },
        _ => panic!("Expected Card command"),
    }
}

#[test]
fn parse_card_find_with_board() {
    let cli = Cli::try_parse_from(&["trello", "card", "find", "task", "-b", "board"]).unwrap();
    match cli.command {
        Commands::Card { command } => match command {
            CardCommands::Find {
                pattern,
                board,
                list,
                json,
            } => {
                assert_eq!(pattern, "task");
                assert_eq!(board, Some("board".to_string()));
                assert_eq!(list, None);
                assert!(!json);
            }
            _ => panic!("Expected Find command"),
        },
        _ => panic!("Expected Card command"),
    }
}

#[test]
fn parse_card_find_with_list() {
    let cli = Cli::try_parse_from(&["trello", "card", "find", "urgent", "-l", "list"]).unwrap();
    match cli.command {
        Commands::Card { command } => match command {
            CardCommands::Find {
                pattern,
                board,
                list,
                json,
            } => {
                assert_eq!(pattern, "urgent");
                assert_eq!(board, None);
                assert_eq!(list, Some("list".to_string()));
                assert!(!json);
            }
            _ => panic!("Expected Find command"),
        },
        _ => panic!("Expected Card command"),
    }
}

#[test]
fn parse_card_find_with_json() {
    let cli = Cli::try_parse_from(&["trello", "card", "find", "test", "--json"]).unwrap();
    match cli.command {
        Commands::Card { command } => match command {
            CardCommands::Find {
                pattern,
                board,
                list,
                json,
            } => {
                assert_eq!(pattern, "test");
                assert_eq!(board, None);
                assert_eq!(list, None);
                assert!(json);
            }
            _ => panic!("Expected Find command"),
        },
        _ => panic!("Expected Card command"),
    }
}

#[test]
fn parse_card_find_full() {
    let cli = Cli::try_parse_from(&[
        "trello",
        "card",
        "find",
        "fix",
        "-b",
        "project",
        "-l",
        "in-progress",
        "--json",
    ])
    .unwrap();
    match cli.command {
        Commands::Card { command } => match command {
            CardCommands::Find {
                pattern,
                board,
                list,
                json,
            } => {
                assert_eq!(pattern, "fix");
                assert_eq!(board, Some("project".to_string()));
                assert_eq!(list, Some("in-progress".to_string()));
                assert!(json);
            }
            _ => panic!("Expected Find command"),
        },
        _ => panic!("Expected Card command"),
    }
}

#[test]
fn parse_card_show() {
    let cli = Cli::try_parse_from(&["trello", "card", "show", "abc123"]).unwrap();
    match cli.command {
        Commands::Card { command } => match command {
            CardCommands::Show {
                card_id,
                json,
                comments,
            } => {
                assert_eq!(card_id, "abc123");
                assert!(!json);
                assert!(!comments);
            }
            _ => panic!("Expected Show command"),
        },
        _ => panic!("Expected Card command"),
    }
}

#[test]
fn parse_card_show_with_json() {
    let cli = Cli::try_parse_from(&["trello", "card", "show", "abc123", "--json"]).unwrap();
    match cli.command {
        Commands::Card { command } => match command {
            CardCommands::Show {
                card_id,
                json,
                comments,
            } => {
                assert_eq!(card_id, "abc123");
                assert!(json);
                assert!(!comments);
            }
            _ => panic!("Expected Show command"),
        },
        _ => panic!("Expected Card command"),
    }
}

#[test]
fn parse_card_show_with_comments() {
    let cli = Cli::try_parse_from(&["trello", "card", "show", "abc123", "--comments"]).unwrap();
    match cli.command {
        Commands::Card { command } => match command {
            CardCommands::Show {
                card_id,
                json,
                comments,
            } => {
                assert_eq!(card_id, "abc123");
                assert!(!json);
                assert!(comments);
            }
            _ => panic!("Expected Show command"),
        },
        _ => panic!("Expected Card command"),
    }
}

#[test]
fn parse_card_show_with_json_and_comments() {
    let cli = Cli::try_parse_from(&["trello", "card", "show", "abc123", "--json", "--comments"])
        .unwrap();
    match cli.command {
        Commands::Card { command } => match command {
            CardCommands::Show {
                card_id,
                json,
                comments,
            } => {
                assert_eq!(card_id, "abc123");
                assert!(json);
                assert!(comments);
            }
            _ => panic!("Expected Show command"),
        },
        _ => panic!("Expected Card command"),
    }
}

#[test]
fn parse_login_with_both_credentials() {
    let cli = Cli::try_parse_from(&["trello", "login", "--api-key", "k", "--api-token", "t"]).unwrap();
    match cli.command {
        Commands::Login { api_key, api_token } => {
            assert_eq!(api_key, Some("k".to_string()));
            assert_eq!(api_token, Some("t".to_string()));
        }
        _ => panic!("Expected Login command"),
    }
}

#[test]
fn parse_rejects_missing_command() {
    let err = Cli::try_parse_from(&["trello"]).unwrap_err();
    assert_eq!(err.kind, CliErrorKind::MissingCommand);
    assert_eq!(err.token, "");
}

#[test]
fn parse_rejects_unknown_command() {
    let err = Cli::try_parse_from(&["trello", "card", "delete", "abc"]).unwrap_err();
    assert_eq!(err.kind, CliErrorKind::UnknownCommand);
    assert_eq!(err.token, "delete");
}

#[test]
fn parse_rejects_unknown_option() {
    let err = Cli::try_parse_from(&["trello", "card", "show", "abc", "--verbose"]).unwrap_err();
    assert_eq!(err.kind, CliErrorKind::UnknownArgument);
    assert_eq!(err.token, "--verbose");
}

#[test]
fn parse_rejects_option_without_value() {
    let err = Cli::try_parse_from(&["trello", "card", "update", "abc", "-c"]).unwrap_err();
    assert_eq!(err.kind, CliErrorKind::MissingValue);
    let err = Cli::try_parse_from(&["trello", "card", "update", "abc", "-c", "-a"]).unwrap_err();
    assert_eq!(err.kind, CliErrorKind::MissingValue);
    assert_eq!(err.token, "-c");
}

#[test]
fn parse_rejects_repeated_switch() {
    let err = Cli::try_parse_from(&["trello", "card", "update", "abc", "-a", "--archive"]).unwrap_err();
    assert_eq!(err.kind, CliErrorKind::RepeatedArgument);
    assert_eq!(err.token, "--archive");
}

#[test]
fn parse_rejects_missing_and_extra_positionals() {
    let err = Cli::try_parse_from(&["trello", "card", "move", "abc"]).unwrap_err();
    assert_eq!(err.kind, CliErrorKind::MissingArgument);
    let err = Cli::try_parse_from(&["trello", "list", "move", "l", "top", "again"]).unwrap_err();
    assert_eq!(err.kind, CliErrorKind::UnexpectedArgument);
    assert_eq!(err.token, "again");
}

#[test]
fn parse_options_before_positionals() {
    let cli = Cli::try_parse_from(&["trello", "card", "create", "-p", "3", "To Do", "Task"]).unwrap();
    match cli.command {
        Commands::Card { command: CardCommands::Create { list, name, position, .. } } => {
            assert_eq!(list, "To Do");
            assert_eq!(name, "Task");
            assert_eq!(position, "3");
        }
        _ => panic!("Expected Create command"),
    }
}

#[test]
fn parse_attached_option_values() {
    let cli = Cli::try_parse_from(&["trello", "card", "update", "abc", "--comment=hi there", "-lBug", "--label=Urgent"]).unwrap();
    match cli.command {
        Commands::Card { command: CardCommands::Update { comment, label, .. } } => {
            assert_eq!(comment, Some("hi there".to_string()));
            assert_eq!(label, vec!["Bug", "Urgent"]);
        }
        _ => panic!("Expected Update command"),
    }
    let err = Cli::try_parse_from(&["trello", "card", "show", "abc", "--json=yes"]).unwrap_err();
    assert_eq!(err.kind, CliErrorKind::UnknownArgument);
    assert_eq!(err.token, "--json=yes");
    let err = Cli::try_parse_from(&["trello", "card", "update", "abc", "-cx", "--comment=y"]).unwrap_err();
    assert_eq!(err.kind, CliErrorKind::RepeatedArgument);
}
