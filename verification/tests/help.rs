use tetanus::render::help::{
    chat_examples, chat_note, color_choice, color_from_argv, columns, command_room, environment,
    exit_status, fits, meaning_room, root_examples, run_examples, stacked, statuses, what_room,
    ColorChoice,
};

fn argv(args: &[&str]) -> Vec<String> {
    args.iter().map(|arg| arg.to_string()).collect()
}

#[test]
fn the_colour_is_read_before_the_arguments_are_parsed() {
    assert_eq!(color_from_argv(&argv(&["tetanus", "--color=never"])), ColorChoice::Never);
    assert_eq!(color_from_argv(&argv(&["tetanus", "run", "--color", "always"])), ColorChoice::Always);
    assert_eq!(color_from_argv(&argv(&["tetanus", "--color"])), ColorChoice::Auto);
    assert_eq!(color_from_argv(&argv(&["tetanus", "run"])), ColorChoice::Auto);
    assert_eq!(
        color_from_argv(&argv(&["--color=never", "--color=always"])),
        ColorChoice::Never,
        "the first one is the one"
    );
    assert_eq!(color_choice("sometimes"), ColorChoice::Auto);
}

#[test]
fn a_table_that_fits_is_two_columns() {
    let table = environment();
    assert!(fits(200, &table) && !fits(40, &table));
    let rows: Vec<String> = columns("environment", &table).iter().map(|row| row.text()).collect();
    assert_eq!(rows[0], "environment");
    assert_eq!(rows.len(), 1 + table.len());
    let column = rows[1].find(table[0].1).expect("the first description");
    for (row, (_, what)) in rows[1..].iter().zip(&table) {
        assert_eq!(row.find(what), Some(column), "{row}");
    }
}

#[test]
fn a_table_that_does_not_fit_is_stacked() {
    let commands = vec![argv(&["tetanus run", "--trace"])];
    let whats = vec![argv(&["the raw event", "sequence"])];
    let rows: Vec<String> =
        stacked("examples", &commands, &whats).iter().map(|row| row.text()).collect();
    assert_eq!(rows[0], "examples");
    assert!(rows.contains(&"  tetanus run".to_string()), "{rows:?}");
    assert!(rows.contains(&"      the raw event".to_string()), "{rows:?}");
    assert_eq!((command_room(40), what_room(40)), (38, 34));
    assert_eq!((command_room(1), what_room(1)), (1, 1));
}

#[test]
fn every_status_is_on_the_page() {
    let folded: Vec<Vec<String>> =
        statuses().iter().map(|(_, said)| argv(&[said])).collect();
    let rows: Vec<String> = exit_status(&folded).iter().map(|row| row.text()).collect();
    for (number, said) in statuses() {
        assert!(
            rows.iter().any(|row| row.contains(&number.to_string()) && row.contains(said)),
            "{number} is not worded: {rows:?}"
        );
    }
    assert!(meaning_room(80) < 80);
}

#[test]
fn every_example_is_a_command_of_this_binary() {
    for (command, what) in
        root_examples().iter().chain(&run_examples()).chain(&chat_examples())
    {
        assert!(command.starts_with("tetanus "), "{command}");
        assert!(!what.is_empty());
    }
    assert!(!chat_note().is_empty());
}
