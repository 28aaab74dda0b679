use devconsole::commands::{ConsoleCommands, ConsolePlugin};
use devconsole::console::{console_input, press, run_command, ConsoleKey, DevConsole, KeyEvent};

type Handler = fn(&mut DevConsole, &[&str]);

fn echo(console: &mut DevConsole, args: &[&str]) {
    console.print(format!("echo {}", args.join("|")));
}

fn shout(console: &mut DevConsole, _args: &[&str]) {
    console.print("SHOUT".to_string());
}

fn commands() -> ConsoleCommands<Handler> {
    ConsolePlugin::default()
        .command("echo", echo as Handler)
        .command("shout".to_string(), shout as Handler)
        .console_commands()
}

fn names(commands: &ConsoleCommands<Handler>) -> Vec<String> {
    commands.commands.iter().map(|c| c.name.clone()).collect()
}

fn down(key: ConsoleKey) -> KeyEvent {
    KeyEvent {
        released: false,
        key,
    }
}

fn typed(text: &str) -> KeyEvent {
    down(ConsoleKey::Character(text.to_string()))
}

fn opened() -> DevConsole {
    let mut console = DevConsole::default();
    assert!(console.toggle());
    console.clear_log();
    console
}

#[test]
fn a_new_console_is_closed_and_greets() {
    let console = DevConsole::default();
    assert!(!console.is_open());
    assert_eq!(console.input(), "");
    assert_eq!(
        console.log(),
        &vec!["dev console — type `help` and press Enter".to_string()]
    );
    assert_eq!(console.log_text(), "dev console — type `help` and press Enter");
    assert_eq!(console.input_text(), "> ");
}

#[test]
fn toggling_twice_restores() {
    let mut console = DevConsole::default();
    assert!(console.toggle());
    assert!(console.is_open());
    assert!(!console.toggle());
    assert!(!console.is_open());
}

#[test]
fn register_adds_or_replaces() {
    let mut commands: ConsoleCommands<Handler> = ConsoleCommands::new();
    commands.register("echo", echo as Handler);
    commands.register("shout", shout as Handler);
    assert_eq!(names(&commands), vec!["echo", "shout"]);
    commands.register("echo", shout as Handler);
    assert_eq!(names(&commands), vec!["echo", "shout"]);
    let mut console = opened();
    run_command("echo hi", &mut console, &commands);
    assert_eq!(console.log(), &vec!["SHOUT".to_string()]);
}

#[test]
fn unregister_takes_away_all_of_a_name() {
    let mut commands = ConsolePlugin::default()
        .command("a", echo as Handler)
        .command("b", echo as Handler)
        .command("a", shout as Handler)
        .console_commands();
    assert_eq!(names(&commands), vec!["a", "b", "a"]);
    assert!(commands.unregister("a"));
    assert_eq!(names(&commands), vec!["b"]);
    assert!(!commands.unregister("a"));
    commands.register_named("a".to_string(), shout as Handler);
    assert!(commands.unregister("a"));
    assert_eq!(names(&commands), vec!["b"]);
    assert_eq!(commands.find("b"), Some(0));
    assert_eq!(commands.find("a"), None);
}

#[test]
fn the_first_of_two_commands_of_a_name_runs() {
    let commands = ConsolePlugin::default()
        .command("x", echo as Handler)
        .command("x", shout as Handler)
        .console_commands();
    let mut console = opened();
    run_command("x 1", &mut console, &commands);
    assert_eq!(console.log(), &vec!["echo 1".to_string()]);
}

#[test]
fn commands_get_the_words_behind_their_name() {
    let mut console = opened();
    run_command("  echo one   two ", &mut console, &commands());
    assert_eq!(console.log(), &vec!["echo one|two".to_string()]);
}

#[test]
fn help_lists_the_commands() {
    let mut console = opened();
    run_command("help me", &mut console, &commands());
    assert_eq!(console.log(), &vec!["commands: echo, shout, clear".to_string()]);
    let none: ConsoleCommands<Handler> = ConsoleCommands::new();
    run_command("help", &mut console, &none);
    assert_eq!(console.log()[1], "commands: , clear");
}

#[test]
fn clear_empties_the_log_whatever_is_registered() {
    let mut commands = commands();
    commands.register("clear", shout as Handler);
    let mut console = opened();
    console.print("old".to_string());
    run_command("clear", &mut console, &commands);
    assert!(console.log().is_empty());
}

#[test]
fn an_unknown_command_is_complained_about() {
    let mut console = opened();
    run_command("fly away", &mut console, &commands());
    run_command("", &mut console, &commands());
    assert_eq!(
        console.log(),
        &vec!["unknown command: fly".to_string(), "unknown command: ".to_string()]
    );
}

#[test]
fn a_closed_console_ignores_keys() {
    let mut console = DevConsole::default();
    let events = vec![typed("a"), down(ConsoleKey::Enter)];
    console_input(&mut console, &commands(), &events);
    assert_eq!(console.input(), "");
    assert_eq!(console.log().len(), 1);
}

#[test]
fn a_typed_line_is_run_on_enter() {
    let mut console = opened();
    let events = vec![
        typed("e"),
        typed("cho"),
        down(ConsoleKey::Space),
        typed("hé"),
        down(ConsoleKey::Space),
    ];
    console_input(&mut console, &commands(), &events);
    assert_eq!(console.input(), "echo hé ");
    assert_eq!(console.input_text(), "> echo hé ");
    console_input(&mut console, &commands(), &vec![down(ConsoleKey::Enter)]);
    assert_eq!(console.input(), "");
    assert_eq!(
        console.log(),
        &vec!["> echo hé".to_string(), "echo hé".to_string()]
    );
}

#[test]
fn enter_on_blanks_only_takes_the_line() {
    let mut console = opened();
    let events = vec![
        down(ConsoleKey::Space),
        down(ConsoleKey::Space),
        down(ConsoleKey::Enter),
    ];
    console_input(&mut console, &commands(), &events);
    assert_eq!(console.input(), "");
    assert!(console.log().is_empty());
}

#[test]
fn clear_typed_leaves_an_empty_log() {
    let mut console = opened();
    console_input(
        &mut console,
        &commands(),
        &vec![typed("clear"), down(ConsoleKey::Enter)],
    );
    assert!(console.log().is_empty());
}

#[test]
fn backspace_takes_back_one_character() {
    let mut console = opened();
    let commands = commands();
    press(&mut console, &commands, &down(ConsoleKey::Backspace));
    assert_eq!(console.input(), "");
    press(&mut console, &commands, &typed("añ"));
    press(&mut console, &commands, &down(ConsoleKey::Backspace));
    assert_eq!(console.input(), "a");
    press(&mut console, &commands, &down(ConsoleKey::Space));
    press(&mut console, &commands, &down(ConsoleKey::Backspace));
    assert_eq!(console.input(), "a");
}

#[test]
fn own_key_control_and_released_keys_type_nothing() {
    let mut console = opened();
    let events = vec![
        typed("`"),
        typed("~"),
        typed("\u{8}"),
        typed("a\nb"),
        down(ConsoleKey::Other),
        KeyEvent {
            released: true,
            key: ConsoleKey::Character("z".to_string()),
        },
        typed("``"),
    ];
    console_input(&mut console, &commands(), &events);
    assert_eq!(console.input(), "``");
}

#[test]
fn the_console_shows_its_last_twelve_lines() {
    let mut console = opened();
    for i in 0..20 {
        console.print(i.to_string());
    }
    let shown: Vec<String> = (8..20).map(|i: i32| i.to_string()).collect();
    assert_eq!(console.log_text(), shown.join("\n"));
}
