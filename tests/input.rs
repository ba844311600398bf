use encoins::input::{parse_u32, Input};

#[test]
fn add_command_parses() {
    assert_eq!(Input::from(&vec!["add", "1", "200"]), Ok(Input::Add { account: 1, amount: 200 }));
}

#[test]
fn command_name_ignores_case_and_arguments_ignore_spaces() {
    assert_eq!(
        Input::from(&vec!["TRANSFER", " 1", "2 ", "+30"]),
        Ok(Input::Transfer { sender: 1, recipient: 2, amount: 30 })
    );
    assert_eq!(Input::from(&vec!["Help"]), Ok(Input::Help));
    assert_eq!(Input::from(&vec!["balances", "3"]), Ok(Input::Balances { according_to: 3 }));
}

#[test]
fn wrong_argument_count_is_reported() {
    assert_eq!(
        Input::from(&vec!["add", "1"]),
        Err(String::from("Wrong amount of arguments! (Type \"help\" to see how to use command)"))
    );
    assert!(Input::from(&vec!["quit", "1"]).is_err());
}

#[test]
fn empty_unknown_and_non_numeric_inputs_are_reported() {
    assert_eq!(
        Input::from(&vec![]),
        Err(String::from("No command entered! Type \"help\" to get a list of possible commands"))
    );
    assert_eq!(
        Input::from(&vec!["add", "-1", "2"]),
        Err(String::from("Arguments should be non negative numbers! (Type \"help\" to see how to use command)"))
    );
    assert!(Input::from(&vec!["add", "1", "4294967296"]).is_err());
    assert_eq!(
        Input::from(&vec!["fly"]),
        Err(String::from(
            "The typed command could not be recognised! (Type \"help\" to get a list of possible commands)"
        ))
    );
}

#[test]
fn lower_case_command_names_are_decoded() {
    assert_eq!(Input::from_command("remove", &vec![4, 5]), Ok(Input::Remove { account: 4, amount: 5 }));
    assert_eq!(
        Input::from_command("historyfor", &vec![1, 2]),
        Ok(Input::HistoryFor { account: 1, according_to: 2 })
    );
    assert_eq!(
        Input::from_command("balancefor", &vec![1, 2]),
        Ok(Input::BalanceFor { account: 1, according_to: 2 })
    );
    assert_eq!(Input::from_command("clear", &vec![]), Ok(Input::Clear));
    assert_eq!(Input::from_command("quit", &vec![]), Ok(Input::Quit));
    assert!(Input::from_command("Add", &vec![1, 2]).is_err());
    assert!(Input::from_command("balances", &vec![]).is_err());
}

#[test]
fn numbers_are_read_as_u32_reads_them() {
    assert_eq!(parse_u32("0"), Some(0));
    assert_eq!(parse_u32("007"), Some(7));
    assert_eq!(parse_u32("+42"), Some(42));
    assert_eq!(parse_u32("4294967295"), Some(u32::MAX));
    assert_eq!(parse_u32("4294967296"), None);
    assert_eq!(parse_u32("99999999999999999999"), None);
    assert_eq!(parse_u32(""), None);
    assert_eq!(parse_u32("+"), None);
    assert_eq!(parse_u32("-1"), None);
    assert_eq!(parse_u32("1 "), None);
    assert_eq!(parse_u32("1a"), None);
    assert_eq!(parse_u32("\u{663}"), None);
    for s in ["12", "+7", "x", "", "+", "123456789012", "٣"] {
        assert_eq!(parse_u32(s), s.parse::<u32>().ok());
    }
}
