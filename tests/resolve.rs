use trello_cli::resolve::{
    collect_list_items, find_unique_match, matching_indices, scope_boards, start_list_lookup, Board,
    BoardScope, List, ListLookup, NamedItem, ResolveError,
};

fn item(id: &str, name: &str, context: &str) -> NamedItem {
    NamedItem { id: id.to_string(), name: name.to_string(), context: context.to_string() }
}

fn board(id: &str, name: &str) -> Board {
    Board { id: id.to_string(), name: name.to_string() }
}

#[test]
fn find_unique_match_returns_one_match() {
    let items = vec![
        NamedItem {
            id: "1".to_string(),
            name: "To Do".to_string(),
            context: "Board A".to_string(),
        },
        NamedItem {
            id: "2".to_string(),
            name: "Done".to_string(),
            context: "Board A".to_string(),
        },
    ];

    let id = find_unique_match(&items, "to do").unwrap();
    assert_eq!(id, "1");
}

#[test]
fn find_unique_match_returns_error_on_zero_matches() {
    let items = vec![NamedItem {
        id: "1".to_string(),
        name: "To Do".to_string(),
        context: "Board A".to_string(),
    }];

    let err = find_unique_match(&items, "missing").unwrap_err().message();
    assert!(err.contains("No matches found"));
    assert!(err.contains("missing"));
}

#[test]
fn find_unique_match_returns_error_with_context_on_multiple_matches() {
    let items = vec![
        NamedItem {
            id: "1".to_string(),
            name: "To Do".to_string(),
            context: "Board A".to_string(),
        },
        NamedItem {
            id: "2".to_string(),
            name: "To Do".to_string(),
            context: "Board B".to_string(),
        },
    ];

    let err = find_unique_match(&items, "to do").unwrap_err().message();
    assert!(err.contains("Multiple matches found"));
    assert!(err.contains("Board A"));
    assert!(err.contains("Board B"));
}

#[test]
fn ambiguous_error_lists_every_match_in_order() {
    let items = vec![item("1", "To Do", "Board A"), item("2", "Done", "Board A"), item("3", "TODO later", "Board B")];
    let err = find_unique_match(&items, "do").unwrap_err();
    assert_eq!(
        err.message(),
        "Multiple matches found for 'do': To Do (board: Board A), Done (board: Board A), TODO later (board: Board B). Use -b/--board to disambiguate."
    );
    match err {
        ResolveError::Ambiguous { query, matches } => {
            assert_eq!(query, "do");
            assert_eq!(matches.len(), 3);
            assert_eq!(matches[2].id, "3");
        }
        _ => panic!("expected an ambiguous match"),
    }
}

#[test]
fn not_found_message_is_exact() {
    let items = vec![item("1", "Doing", "B")];
    assert_eq!(find_unique_match(&items, "Backlog").unwrap_err().message(), "No matches found for 'Backlog'");
}

#[test]
fn empty_query_matches_everything() {
    let items = vec![item("1", "A", "B")];
    assert_eq!(find_unique_match(&items, "").unwrap(), "1");
    let items = vec![item("1", "A", "B"), item("2", "C", "B")];
    assert!(matches!(find_unique_match(&items, ""), Err(ResolveError::Ambiguous { .. })));
}

#[test]
fn query_case_is_ignored() {
    let items = vec![item("7", "In Progress", "B"), item("8", "Done", "B")];
    assert_eq!(find_unique_match(&items, "PROGRESS").unwrap(), "7");
}

#[test]
fn matching_indices_on_folded_names() {
    let names = vec!["to do".to_string(), "done".to_string(), "todo".to_string()];
    assert_eq!(matching_indices(&names, "do"), vec![0, 1, 2]);
    assert_eq!(matching_indices(&names, "to"), vec![0, 2]);
    assert_eq!(matching_indices(&names, "x"), Vec::<usize>::new());
    assert_eq!(matching_indices(&names, ""), vec![0, 1, 2]);
}

#[test]
fn identifier_reference_needs_no_fetch() {
    match start_list_lookup("507f1f77bcf86cd799439011", Some("Board")) {
        ListLookup::Known(id) => assert_eq!(id, "507f1f77bcf86cd799439011"),
        _ => panic!("expected the identifier to be taken as it is"),
    }
    match start_list_lookup("To Do", Some("507f1f77bcf86cd799439011")) {
        ListLookup::Search(BoardScope::ById(id)) => assert_eq!(id, "507f1f77bcf86cd799439011"),
        _ => panic!("expected a lookup of one board"),
    }
    assert!(matches!(start_list_lookup("To Do", Some("Work")), ListLookup::Search(BoardScope::AllBoards)));
    assert!(matches!(start_list_lookup("To Do", None), ListLookup::Search(BoardScope::AllBoards)));
}

#[test]
fn scope_boards_by_name_filter() {
    let boards = vec![board("a", "Work Board"), board("b", "Home"), board("c", "Homework")];
    let kept = scope_boards(&boards, Some("WORK")).unwrap();
    assert_eq!(kept.iter().map(|b| b.id.as_str()).collect::<Vec<_>>(), vec!["a", "c"]);
    let err = scope_boards(&boards, Some("garden")).unwrap_err();
    assert_eq!(err.message(), "No boards matching 'garden' found");
    assert!(matches!(scope_boards(&[], None), Err(ResolveError::NoBoards)));
    assert_eq!(scope_boards(&boards, None).unwrap().len(), 3);
}

#[test]
fn list_items_carry_their_board_name() {
    let boards = vec![board("a", "Board A"), board("b", "Board B")];
    let lists = vec![
        vec![List { id: "l1".to_string(), name: "To Do".to_string(), id_board: "a".to_string() }],
        vec![
            List { id: "l2".to_string(), name: "To Do".to_string(), id_board: "b".to_string() },
            List { id: "l3".to_string(), name: "Done".to_string(), id_board: "b".to_string() },
        ],
    ];
    let items = collect_list_items(&boards, &lists);
    assert_eq!(items.len(), 3);
    assert_eq!(items[1].id, "l2");
    assert_eq!(items[1].context, "Board B");
    assert_eq!(find_unique_match(&items, "done").unwrap(), "l3");
}
