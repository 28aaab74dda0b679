//! The developer console: a line being typed, a log, and what the keys do.

use vstd::prelude::*;

use crate::commands::ConsoleCommands;
use crate::logs::same_text;
use crate::text::{concat2, join, split_words, text_has_control, trim};

verus! {

/// How many lines of the log are shown.
pub const CONSOLE_LOG_VISIBLE: usize = 12;

/// The console.
pub struct DevConsole {
    open: bool,
    input: String,
    log: Vec<String>,
}

/// The console, as contracts see it.
#[verifier::ext_equal]
pub struct ConsoleModel {
    pub open: bool,
    pub input: Seq<char>,
    pub log: Seq<Seq<char>>,
}

impl ConsoleModel {
    /// With another line being typed.
    pub open spec fn with_input(self, input: Seq<char>) -> ConsoleModel {
        ConsoleModel { input, ..self }
    }

    /// With one more line in the log.
    pub open spec fn printed(self, line: Seq<char>) -> ConsoleModel {
        ConsoleModel { log: self.log.push(line), ..self }
    }

    /// With an empty log.
    pub open spec fn cleared(self) -> ConsoleModel {
        ConsoleModel { log: seq![], ..self }
    }
}

/// The greeting that a new console shows.
pub open spec fn greeting() -> Seq<char> {
    "dev console — type `help` and press Enter"@
}

impl Default for DevConsole {
    /// A closed console with nothing typed and a greeting in its log.
    fn default() -> (r: Self)
        ensures
            r@ == (ConsoleModel { open: false, input: seq![], log: seq![greeting()] }),
    {
        let mut log: Vec<String> = Vec::new();
        log.push("dev console — type `help` and press Enter".to_owned());
        let r = DevConsole { open: false, input: String::new(), log };
        assert(r@.log == seq![greeting()]);
        r
    }
}

impl DevConsole {
    /// The console as contracts see it.
    pub closed spec fn view(&self) -> ConsoleModel {
        ConsoleModel {
            open: self.open,
            input: self.input@,
            log: crate::text::string_texts(self.log@),
        }
    }

    /// Tells whether the console is open.
    pub fn is_open(&self) -> (r: bool)
        ensures
            r == self@.open,
    {
        self.open
    }

    /// The line being typed.
    pub fn input(&self) -> (r: &str)
        ensures
            r@ == self@.input,
    {
        self.input.as_str()
    }

    /// The lines of the log.
    pub fn log(&self) -> (r: &Vec<String>)
        ensures
            crate::text::string_texts(r@) == self@.log,
    {
        &self.log
    }

    /// Opens a closed console and closes an open one. Tells whether it is open
    /// now, and so to be seen.
    pub fn toggle(&mut self) -> (r: bool)
        ensures
            final(self)@ == (ConsoleModel { open: !old(self)@.open, ..old(self)@ }),
            r == final(self)@.open,
    {
        self.open = !self.open;
        self.open
    }

    /// Adds a line to the log.
    pub fn print(&mut self, line: String)
        ensures
            final(self)@ == old(self)@.printed(line@),
    {
        self.log.push(line);
        assert(self@.log == old(self)@.log.push(line@));
    }

    /// Empties the log.
    pub fn clear_log(&mut self)
        ensures
            final(self)@ == old(self)@.cleared(),
    {
        self.log.clear();
        assert(self@.log == Seq::<Seq<char>>::empty());
    }

    /// The text that shows the last lines of the log.
    pub fn log_text(&self) -> (r: String)
        ensures
            r@ == crate::text::joined(
                crate::text::last_of(self@.log, CONSOLE_LOG_VISIBLE as int),
                "\n"@,
            ),
    {
        let n = self.log.len();
        let from: usize = if n > CONSOLE_LOG_VISIBLE {
            n - CONSOLE_LOG_VISIBLE
        } else {
            0
        };
        let mut tail: Vec<&str> = Vec::new();
        let mut i: usize = from;
        while i < n
            invariant
                n == self.log.len(),
                from <= i <= n,
                crate::text::texts(tail@) == self@.log.subrange(from as int, i as int),
            decreases n - i,
        {
            let ghost before = crate::text::texts(tail@);
            tail.push(self.log[i].as_str());
            assert(crate::text::texts(tail@) == before.push(self@.log[i as int]));
            assert(crate::text::texts(tail@) == self@.log.subrange(from as int, i + 1));
            i = i + 1;
        }
        assert(crate::text::texts(tail@) == crate::text::last_of(
            self@.log,
            CONSOLE_LOG_VISIBLE as int,
        ));
        join(&tail, "\n")
    }

    /// The text that shows the line being typed, behind a prompt.
    pub fn input_text(&self) -> (r: String)
        ensures
            r@ == "> "@ + self@.input,
    {
        concat2("> ", self.input.as_str())
    }
}

// ---------------------------------------------------------------------------
// Running a command
// ---------------------------------------------------------------------------

/// What a line or a key comes to: a console that looks like this, or a handler
/// that is called on a console that looks like this.
pub enum Effect<H> {
    Becomes { console: ConsoleModel },
    Calls { console: ConsoleModel, handler: H, args: Seq<Seq<char>> },
}

/// A handler was given a console that looks like this, and these arguments.
pub open spec fn handed(
    given: DevConsole,
    words: Seq<&str>,
    shown: ConsoleModel,
    args: Seq<Seq<char>>,
) -> bool {
    given@ == shown && crate::text::texts(words) == args
}

/// The first word of a line, or nothing.
pub open spec fn first_word(line: Seq<char>) -> Seq<char> {
    let words = crate::text::words_of(line);
    if words.len() == 0 {
        seq![]
    } else {
        words[0]
    }
}

/// The words of a line after the first.
pub open spec fn later_words(line: Seq<char>) -> Seq<Seq<char>> {
    let words = crate::text::words_of(line);
    if words.len() == 0 {
        seq![]
    } else {
        words.drop_first()
    }
}

/// The line that lists all commands.
pub open spec fn help_line(names: Seq<Seq<char>>) -> Seq<char> {
    "commands: "@ + crate::text::joined(names, ", "@) + ", clear"@
}

/// What running a line does: `clear` empties the log, `help` lists the
/// commands, the first command of that name is handed the other words, and a
/// line without a command is complained about.
pub open spec fn line_effect<H>(
    commands: Seq<crate::commands::CommandModel<H>>,
    line: Seq<char>,
    console: ConsoleModel,
) -> Effect<H> {
    let name = first_word(line);
    if name == "clear"@ {
        Effect::Becomes { console: console.cleared() }
    } else if name == "help"@ {
        Effect::Becomes {
            console: console.printed(help_line(crate::commands::command_names(commands))),
        }
    } else {
        match crate::commands::first_named(commands, name) {
            Some(i) => Effect::Calls {
                console,
                handler: commands[i].handler,
                args: later_words(line),
            },
            None => Effect::Becomes { console: console.printed("unknown command: "@ + name) },
        }
    }
}

/// A handler can be called, on any console and with any words.
pub open spec fn can_be_called<H: Fn(&mut DevConsole, &[&str])>(handler: H) -> bool {
    forall|console: &mut DevConsole, args: &[&str]| #[trigger]
        call_requires(handler, (console, args))
}

/// Every handler can be called.
pub open spec fn callable<H: Fn(&mut DevConsole, &[&str])>(
    commands: Seq<crate::commands::CommandModel<H>>,
) -> bool {
    forall|i: int| 0 <= i < commands.len() ==> can_be_called((#[trigger] commands[i]).handler)
}

/// Calls a handler.
fn call_handler<H: Fn(&mut DevConsole, &[&str])>(
    handler: &H,
    console: &mut DevConsole,
    args: &[&str],
)
    requires
        can_be_called(*handler),
    ensures
        exists|given: &mut DevConsole|
            *given == *old(console) && *final(given) == *final(console) && #[trigger] call_ensures(
                *handler,
                (given, args),
                (),
            ),
{
    handler(console, args);
}

/// Runs a line.
pub fn run_command<H: Fn(&mut DevConsole, &[&str])>(
    line: &str,
    console: &mut DevConsole,
    commands: &ConsoleCommands<H>,
)
    requires
        callable(commands@),
    ensures
        line_effect(commands@, line@, old(console)@) matches Effect::Becomes { console: shown }
            ==> final(console)@ == shown,
        line_effect(commands@, line@, old(console)@) matches Effect::Calls {
            console: shown,
            handler,
            args,
        } ==> exists|given: &mut DevConsole, words: &[&str]|
            handed(*given, words@, shown, args) && *final(given) == *final(console)
                && #[trigger] call_ensures(handler, (given, words), ()),
{
    let mut args = split_words(line);
    let ghost words = crate::text::words_of(line@);
    let name = if args.len() == 0 {
        ""
    } else {
        args.remove(0)
    };
    proof {
        reveal_strlit("");
        if words.len() == 0 {
            assert(name@ == Seq::<char>::empty());
        }
        assert(name@ == first_word(line@));
        assert(crate::text::texts(args@) == later_words(line@));
    }
    if same_text(name, "clear") {
        console.clear_log();
        return ;
    }
    if same_text(name, "help") {
        let mut text = concat2("commands: ", commands.listed().as_str());
        text.append(", clear");
        console.print(text);
        return ;
    }
    match commands.find(name) {
        Some(i) => {
            assert(commands@[i as int].handler == commands.commands@[i as int].handler);
            let words: &[&str] = args.as_slice();
            let handler = &commands.commands[i].handler;
            assert(crate::text::texts(words@) == later_words(line@));
            let ghost effect = line_effect(commands@, line@, old(console)@);
            assert(effect is Calls && effect->handler == *handler);
            call_handler(handler, console, words);
        },
        None => {
            console.print(concat2("unknown command: ", name));
        },
    }
}

// ---------------------------------------------------------------------------
// Keys
// ---------------------------------------------------------------------------

/// A key, as far as the console tells keys apart.
pub enum ConsoleKey {
    Enter,
    Backspace,
    Space,
    Character(String),
    Other,
}

/// A key that goes down, or comes up again.
pub struct KeyEvent {
    pub released: bool,
    pub key: ConsoleKey,
}

/// The text is one of those that open and close the console.
pub open spec fn is_toggle_text(s: Seq<char>) -> bool {
    s == "`"@ || s == "~"@
}

/// What a key does in an open console. A key that comes up does nothing. Enter
/// takes the line, trimmed; where that leaves something, the line goes to the
/// log behind a prompt and is run. Characters are added to the line, but for
/// the console's own key and for control characters.
pub open spec fn key_effect<H>(
    commands: Seq<crate::commands::CommandModel<H>>,
    event: KeyEvent,
    console: ConsoleModel,
) -> Effect<H> {
    if event.released {
        Effect::Becomes { console }
    } else {
        match event.key {
            ConsoleKey::Enter => {
                let line = crate::text::trimmed(console.input);
                let taken = console.with_input(seq![]);
                if line.len() == 0 {
                    Effect::Becomes { console: taken }
                } else {
                    line_effect(commands, line, taken.printed("> "@ + line))
                }
            },
            ConsoleKey::Backspace => Effect::Becomes {
                console: console.with_input(
                    if console.input.len() == 0 {
                        console.input
                    } else {
                        console.input.drop_last()
                    },
                ),
            },
            ConsoleKey::Space => Effect::Becomes {
                console: console.with_input(console.input.push(' ')),
            },
            ConsoleKey::Character(s) => Effect::Becomes {
                console: if is_toggle_text(s@) || crate::text::has_control(s@) {
                    console
                } else {
                    console.with_input(console.input + s@)
                },
            },
            ConsoleKey::Other => Effect::Becomes { console },
        }
    }
}

/// Takes a key in an open console.
pub fn press<H: Fn(&mut DevConsole, &[&str])>(
    console: &mut DevConsole,
    commands: &ConsoleCommands<H>,
    event: &KeyEvent,
)
    requires
        callable(commands@),
    ensures
        key_effect(commands@, *event, old(console)@) matches Effect::Becomes { console: shown }
            ==> final(console)@ == shown,
        key_effect(commands@, *event, old(console)@) matches Effect::Calls {
            console: shown,
            handler,
            args,
        } ==> exists|given: &mut DevConsole, words: &[&str]|
            handed(*given, words@, shown, args) && *final(given) == *final(console)
                && #[trigger] call_ensures(handler, (given, words), ()),
{
    if event.released {
        return ;
    }
    match &event.key {
        ConsoleKey::Enter => {
            let line = trim(console.input.as_str()).to_owned();
            console.input = String::new();
            assert(console@ == old(console)@.with_input(seq![]));
            if line.as_str().is_empty() {
                return ;
            }
            console.print(concat2("> ", line.as_str()));
            run_command(line.as_str(), console, commands);
        },
        ConsoleKey::Backspace => {
            let n = console.input.as_str().unicode_len();
            if n > 0 {
                let shorter = console.input.as_str().substring_char(0, n - 1).to_owned();
                console.input = shorter;
                assert(console@.input == old(console)@.input.drop_last());
            }
        },
        ConsoleKey::Space => {
            proof {
                reveal_strlit(" ");
            }
            console.input.append(" ");
            assert(console@.input == old(console)@.input.push(' '));
        },
        ConsoleKey::Character(s) => {
            if same_text(s.as_str(), "`") || same_text(s.as_str(), "~") {
                return ;
            }
            if text_has_control(s.as_str()) {
                return ;
            }
            console.input.append(s.as_str());
        },
        ConsoleKey::Other => {},
    }
}

/// Takes the keys of a frame. A closed console ignores them all; an open one
/// takes them one after the other.
pub fn console_input<H: Fn(&mut DevConsole, &[&str])>(
    console: &mut DevConsole,
    commands: &ConsoleCommands<H>,
    events: &Vec<KeyEvent>,
)
    requires
        callable(commands@),
    ensures
        !old(console)@.open ==> *final(console) == *old(console),
        old(console)@.open ==> exists|states: Seq<DevConsole>|
            {
                &&& #[trigger] states.len() == events.len() + 1
                &&& states[0] == *old(console)
                &&& states.last() == *final(console)
                &&& forall|i: int|
                    0 <= i < events.len() ==> (key_effect(
                        commands@,
                        #[trigger] events@[i],
                        states[i]@,
                    ) matches Effect::Becomes { console: shown } ==> states[i + 1]@ == shown)
                &&& forall|i: int|
                    0 <= i < events.len() ==> (key_effect(
                        commands@,
                        #[trigger] events@[i],
                        states[i]@,
                    ) matches Effect::Calls { console: shown, handler, args } ==> exists|
                        given: &mut DevConsole,
                        words: &[&str],
                    |
                        handed(*given, words@, shown, args) && *final(given) == states[i + 1]
                            && #[trigger] call_ensures(handler, (given, words), ()))
            },
{
    if !console.open {
        return ;
    }
    let ghost mut states: Seq<DevConsole> = seq![*console];
    let mut i: usize = 0;
    while i < events.len()
        invariant
            callable(commands@),
            i <= events.len(),
            states.len() == i + 1,
            states[0] == *old(console),
            states.last() == *console,
            forall|j: int|
                0 <= j < i ==> (key_effect(commands@, #[trigger] events@[j], states[j]@) matches
                    Effect::Becomes { console: shown } ==> states[j + 1]@ == shown),
            forall|j: int|
                0 <= j < i ==> (key_effect(commands@, #[trigger] events@[j], states[j]@) matches
                    Effect::Calls { console: shown, handler, args } ==> exists|
                    given: &mut DevConsole,
                    words: &[&str],
                |
                    handed(*given, words@, shown, args) && *final(given) == states[j + 1]
                        && #[trigger] call_ensures(handler, (given, words), ())),
        decreases events.len() - i,
    {
        press(console, commands, &events[i]);
        proof {
            states = states.push(*console);
        }
        i = i + 1;
    }
}

// ---------------------------------------------------------------------------
// Laws
// ---------------------------------------------------------------------------

/// The console that an effect leaves, or hands to a handler.
pub open spec fn effect_console<H>(effect: Effect<H>) -> ConsoleModel {
    match effect {
        Effect::Becomes { console } => console,
        Effect::Calls { console, .. } => console,
    }
}

/// No control character ever gets into the line being typed.
pub proof fn law_line_stays_free_of_control<H>(
    commands: Seq<crate::commands::CommandModel<H>>,
    event: KeyEvent,
    console: ConsoleModel,
)
    requires
        !crate::text::has_control(console.input),
    ensures
        !crate::text::has_control(effect_console(key_effect(commands, event, console)).input),
{
    let after = effect_console(key_effect(commands, event, console)).input;
    assert forall|i: int| 0 <= i < after.len() implies !crate::text::is_control(
        #[trigger] after[i],
    ) by {
        if i < console.input.len() {
            assert(!crate::text::is_control(console.input[i]));
        } else if event.key is Character {
            let s = event.key->Character_0@;
            assert(after[i] == s[i - console.input.len()]);
        }
    }
}

/// Enter always takes the line: nothing of it is left, neither in the console
/// nor in what a handler sees.
pub proof fn law_enter_takes_the_line<H>(
    commands: Seq<crate::commands::CommandModel<H>>,
    event: KeyEvent,
    console: ConsoleModel,
)
    requires
        event.key is Enter,
        !event.released,
    ensures
        effect_console(key_effect(commands, event, console)).input.len() == 0,
{
}

/// Only Enter writes to the log or runs anything, and no key opens or closes
/// the console by itself.
pub proof fn law_only_enter_acts<H>(
    commands: Seq<crate::commands::CommandModel<H>>,
    event: KeyEvent,
    console: ConsoleModel,
)
    ensures
        !(event.key is Enter) ==> key_effect(commands, event, console) is Becomes
            && effect_console(key_effect(commands, event, console)).log == console.log,
        effect_console(key_effect(commands, event, console)).open == console.open,
{
}

/// A key that comes up changes nothing.
pub proof fn law_released_keys_do_nothing<H>(
    commands: Seq<crate::commands::CommandModel<H>>,
    event: KeyEvent,
    console: ConsoleModel,
)
    requires
        event.released,
    ensures
        key_effect(commands, event, console) == (Effect::<H>::Becomes { console }),
{
}

/// Backspace takes back one typed character, a blank among them.
pub proof fn law_backspace_undoes_a_character<H>(
    commands: Seq<crate::commands::CommandModel<H>>,
    typed: KeyEvent,
    back: KeyEvent,
    console: ConsoleModel,
)
    requires
        !typed.released,
        !back.released,
        back.key is Backspace,
        typed.key is Space || (typed.key matches ConsoleKey::Character(s) && s@.len() == 1
            && !is_toggle_text(s@) && !crate::text::has_control(s@)),
    ensures
        effect_console(
            key_effect(commands, back, effect_console(key_effect(commands, typed, console))),
        ) == console,
{
    let after = effect_console(key_effect(commands, typed, console));
    assert(after.input.drop_last() == console.input);
}

/// `clear` and `help` are the console's own: no command of that name is run.
pub proof fn law_own_commands_come_first<H>(
    commands: Seq<crate::commands::CommandModel<H>>,
    line: Seq<char>,
    console: ConsoleModel,
)
    requires
        first_word(line) == "clear"@ || first_word(line) == "help"@,
    ensures
        line_effect(commands, line, console) is Becomes,
{
}

/// A registered command is run by a line that starts with its name, and is
/// handed the words behind it.
pub proof fn law_registered_command_runs<H>(
    commands: Seq<crate::commands::CommandModel<H>>,
    name: Seq<char>,
    handler: H,
    line: Seq<char>,
    console: ConsoleModel,
)
    requires
        first_word(line) == name,
        name != "clear"@,
        name != "help"@,
    ensures
        line_effect(crate::commands::registered(commands, name, handler), line, console) == (
        Effect::Calls { console, handler, args: later_words(line) }),
{
    crate::commands::law_registered_is_found(commands, name, handler);
}

/// Registering a handler that can be called, and taking a name away, leaves
/// only handlers that can be called.
pub proof fn law_handlers_stay_callable<H: Fn(&mut DevConsole, &[&str])>(
    commands: Seq<crate::commands::CommandModel<H>>,
    name: Seq<char>,
    handler: H,
)
    requires
        callable(commands),
        can_be_called(handler),
    ensures
        callable(crate::commands::registered(commands, name, handler)),
        callable(crate::commands::unregistered(commands, name)),
{
    crate::commands::lemma_first_named_is(commands, name);
    let keep = |c: crate::commands::CommandModel<H>| c.name != name;
    let fewer = crate::commands::unregistered(commands, name);
    assert forall|i: int| 0 <= i < fewer.len() implies can_be_called(
        (#[trigger] fewer[i]).handler,
    ) by {
        assert(fewer.contains(fewer[i]));
        commands.lemma_filter_contains_rev(keep, fewer[i]);
    }
}

/// A command that was taken away is unknown.
pub proof fn law_unregistered_command_is_unknown<H>(
    commands: Seq<crate::commands::CommandModel<H>>,
    name: Seq<char>,
    line: Seq<char>,
    console: ConsoleModel,
)
    requires
        first_word(line) == name,
        name != "clear"@,
        name != "help"@,
    ensures
        line_effect(crate::commands::unregistered(commands, name), line, console) == (Effect::<
            H,
        >::Becomes { console: console.printed("unknown command: "@ + name) }),
{
    crate::commands::law_unregistered_is_gone(commands, name);
}

/// Blanks around a typed line make no difference to what it runs.
pub proof fn law_outer_blanks_do_not_matter<H>(
    commands: Seq<crate::commands::CommandModel<H>>,
    line: Seq<char>,
    console: ConsoleModel,
)
    ensures
        line_effect(commands, crate::text::trimmed(line), console) == line_effect(
            commands,
            line,
            console,
        ),
{
    crate::text::law_trimming_keeps_the_words(line);
}

/// The first word and the later words of a line are its words, and a line
/// without words has neither.
pub proof fn law_a_line_is_its_words(line: Seq<char>)
    ensures
        crate::text::words_of(line).len() > 0 ==> seq![first_word(line)] + later_words(line)
            == crate::text::words_of(line),
        crate::text::words_of(line).len() == 0 ==> first_word(line).len() == 0 && later_words(
            line,
        ).len() == 0,
{
    let words = crate::text::words_of(line);
    if words.len() > 0 {
        assert(seq![words[0]] + words.drop_first() == words);
    }
}

/// `clear` empties the log and does nothing else, whatever the log holds and
/// whatever is registered.
pub proof fn law_clear_empties_the_log<H>(
    commands: Seq<crate::commands::CommandModel<H>>,
    line: Seq<char>,
    console: ConsoleModel,
)
    requires
        first_word(line) == "clear"@,
    ensures
        line_effect(commands, line, console) matches Effect::Becomes { console: after }
            && after.log.len() == 0 && after.input == console.input && after.open == console.open,
{
}

/// `help` adds one line to the log and does nothing else. Between its opening
/// words and the name of the console's own command, that line holds the names
/// of all commands.
pub proof fn law_help_lists_every_command<H>(
    commands: Seq<crate::commands::CommandModel<H>>,
    line: Seq<char>,
    console: ConsoleModel,
)
    requires
        first_word(line) == "help"@,
    ensures
        ({
            let names = commands.map_values(|c: crate::commands::CommandModel<H>| c.name);
            let list = crate::text::joined(names, ", "@);
            &&& line_effect(commands, line, console) matches Effect::Becomes { console: after }
            &&& after.input == console.input && after.open == console.open
            &&& after.log.len() == console.log.len() + 1
            &&& after.log.drop_last() == console.log
            &&& after.log.last() == "commands: "@ + list + ", clear"@
        }),
{
    reveal_strlit("help");
    reveal_strlit("clear");
    assert("help"@.len() != "clear"@.len());
    let names = commands.map_values(|c: crate::commands::CommandModel<H>| c.name);
    assert(names == crate::commands::command_names(commands));
    let told = help_line(crate::commands::command_names(commands));
    assert(console.log.push(told).drop_last() == console.log);
}

/// A line that starts with the name of a command runs the first command of
/// that name: its handler is given the console as it is and the other words.
pub proof fn law_a_named_command_is_called<H>(
    commands: Seq<crate::commands::CommandModel<H>>,
    line: Seq<char>,
    console: ConsoleModel,
    i: int,
)
    requires
        0 <= i < commands.len(),
        commands[i].name == first_word(line),
        forall|j: int| 0 <= j < i ==> (#[trigger] commands[j]).name != first_word(line),
        first_word(line) != "clear"@,
        first_word(line) != "help"@,
    ensures
        line_effect(commands, line, console) matches Effect::Calls {
            console: given,
            handler,
            args,
        } && given == console && handler == commands[i].handler && args == later_words(line),
{
    crate::commands::law_the_first_of_a_name_is_found(commands, first_word(line));
    if let Some(k) = crate::commands::first_named(commands, first_word(line)) {
        if k < i {
            assert(commands[k].name != first_word(line));
        } else if i < k {
            assert(commands[i].name != first_word(line));
        }
    }
}

/// A line that starts with no command's name adds one line to the log, which
/// names its first word, and does nothing else.
pub proof fn law_an_unknown_command_is_complained_about<H>(
    commands: Seq<crate::commands::CommandModel<H>>,
    line: Seq<char>,
    console: ConsoleModel,
)
    requires
        forall|j: int| 0 <= j < commands.len() ==> (#[trigger] commands[j]).name != first_word(line),
        first_word(line) != "clear"@,
        first_word(line) != "help"@,
    ensures
        ({
            &&& line_effect(commands, line, console) matches Effect::Becomes { console: after }
            &&& after.input == console.input && after.open == console.open
            &&& after.log.len() == console.log.len() + 1
            &&& after.log.drop_last() == console.log
            &&& after.log.last() == "unknown command: "@ + first_word(line)
        }),
{
    crate::commands::law_the_first_of_a_name_is_found(commands, first_word(line));
    if let Some(k) = crate::commands::first_named(commands, first_word(line)) {
        assert(commands[k].name != first_word(line));
    }
    let told = "unknown command: "@ + first_word(line);
    assert(console.log.push(told).drop_last() == console.log);
}

/// Enter shows and runs the line, whatever the log holds: where something is
/// left of the line after trimming, that goes to the end of the log behind a
/// prompt, and then has the effect of running it in a console whose line is
/// empty. Where nothing is left, the line is emptied and nothing else happens.
pub proof fn law_enter_shows_and_runs_the_line<H>(
    commands: Seq<crate::commands::CommandModel<H>>,
    event: KeyEvent,
    console: ConsoleModel,
)
    requires
        event.key is Enter,
        !event.released,
    ensures
        ({
            let line = crate::text::trimmed(console.input);
            let shown = ConsoleModel {
                open: console.open,
                input: seq![],
                log: console.log.push("> "@ + line),
            };
            line.len() > 0 ==> key_effect(commands, event, console) == line_effect(
                commands,
                line,
                shown,
            )
        }),
        crate::text::trimmed(console.input).len() == 0 ==> (key_effect(commands, event, console)
            matches Effect::Becomes { console: after } && after.input.len() == 0 && after.log
            == console.log && after.open == console.open),
{
}

/// A command that is typed and entered is called: where the line's first word
/// is the name of a command, Enter hands the first command of that name the
/// other words, in a console whose line is empty and whose log ends with the
/// line behind a prompt.
pub proof fn law_a_typed_command_is_called<H>(
    commands: Seq<crate::commands::CommandModel<H>>,
    event: KeyEvent,
    console: ConsoleModel,
    i: int,
)
    requires
        event.key is Enter,
        !event.released,
        0 <= i < commands.len(),
        crate::text::words_of(console.input).len() > 0,
        commands[i].name == crate::text::words_of(console.input)[0],
        forall|j: int|
            0 <= j < i ==> (#[trigger] commands[j]).name != crate::text::words_of(console.input)[0],
        commands[i].name != "clear"@,
        commands[i].name != "help"@,
    ensures
        ({
            &&& key_effect(commands, event, console) matches Effect::Calls {
                console: given,
                handler,
                args,
            }
            &&& handler == commands[i].handler
            &&& args == crate::text::words_of(console.input).skip(1)
            &&& given.open == console.open && given.input.len() == 0
            &&& given.log == console.log.push("> "@ + crate::text::trimmed(console.input))
        }),
{
    let line = crate::text::trimmed(console.input);
    let shown = ConsoleModel {
        open: console.open,
        input: seq![],
        log: console.log.push("> "@ + line),
    };
    crate::text::law_trimming_keeps_the_words(console.input);
    if line.len() == 0 {
        crate::text::law_a_solid_text_is_a_word(line);
    }
    law_enter_shows_and_runs_the_line(commands, event, console);
    law_a_named_command_is_called(commands, line, shown, i);
    let words = crate::text::words_of(console.input);
    assert(words.drop_first() == words.skip(1));
}

/// Typing puts what is typed at the end of the line and changes nothing else: a
/// text without control characters that is not the console's own key is put
/// there whole, a blank for the space bar. Any other text, and any other key,
/// changes nothing at all. Backspace takes the last character off the line.
pub proof fn law_keys_edit_the_end_of_the_line<H>(
    commands: Seq<crate::commands::CommandModel<H>>,
    event: KeyEvent,
    console: ConsoleModel,
)
    requires
        !event.released,
        !(event.key is Enter),
    ensures
        ({
            &&& key_effect(commands, event, console) matches Effect::Becomes { console: after }
            &&& after.open == console.open
            &&& after.log == console.log
            &&& event.key is Space ==> after.input == console.input + seq![' ']
            &&& event.key is Other ==> after.input == console.input
            &&& event.key is Backspace ==> after.input == console.input.take(
                if console.input.len() > 0 {
                    console.input.len() - 1
                } else {
                    0
                },
            )
            &&& event.key matches ConsoleKey::Character(s) ==> after.input == (if s@ == "`"@ || s@
                == "~"@ || (exists|i: int| 0 <= i < s@.len() && crate::text::is_control(#[trigger] s@[i])) {
                console.input
            } else {
                console.input + s@
            })
        }),
{
    if event.key is Space {
        assert(console.input.push(' ') == console.input + seq![' ']);
    }
    if event.key is Backspace {
        if console.input.len() > 0 {
            assert(console.input.drop_last() == console.input.take(console.input.len() - 1));
        } else {
            assert(console.input.take(0) == console.input);
        }
    }
}

/// What a handler is handed is the console itself, as it is shown, and the
/// arguments word by word.
pub proof fn law_a_handler_gets_every_word(
    given: DevConsole,
    words: Seq<&str>,
    shown: ConsoleModel,
    args: Seq<Seq<char>>,
)
    requires
        handed(given, words, shown, args),
    ensures
        given@ == shown,
        words.len() == args.len(),
        forall|i: int| 0 <= i < args.len() ==> #[trigger] words[i]@ == args[i],
{
    crate::text::law_texts_are_what_is_said(words, Seq::empty());
    assert forall|i: int| 0 <= i < args.len() implies #[trigger] words[i]@ == args[i] by {
        assert(crate::text::texts(words)[i] == words[i]@);
    }
}

/// A line that is printed goes to the end of the log; clearing leaves no line;
/// and neither touches the line being typed.
pub proof fn law_printing_and_clearing_touch_only_the_log(console: ConsoleModel, line: Seq<char>)
    ensures
        console.printed(line).log.len() == console.log.len() + 1,
        console.printed(line).log.drop_last() == console.log,
        console.printed(line).log.last() == line,
        console.printed(line).input == console.input,
        console.printed(line).open == console.open,
        console.cleared().log.len() == 0,
        console.cleared().input == console.input,
        console.cleared().open == console.open,
{
    assert(console.log.push(line).drop_last() == console.log);
}

/// Toggling changes whether the console is open, and nothing else; toggling
/// twice changes nothing.
pub proof fn law_toggling_twice_restores(
    first: &mut DevConsole,
    open: bool,
    second: &mut DevConsole,
    open_again: bool,
)
    requires
        call_ensures(DevConsole::toggle, (first,), open),
        *old(second) == *final(first),
        call_ensures(DevConsole::toggle, (second,), open_again),
    ensures
        open == !old(first)@.open,
        final(first)@.open == open,
        final(first)@.input == old(first)@.input,
        final(first)@.log == old(first)@.log,
        open_again == old(first)@.open,
        final(second)@ == old(first)@,
{
}

/// What is shown of the log is its newest lines, up to the limit, oldest of
/// them first, a line break between neighbours. What is shown of the line is
/// all of it, behind a prompt.
pub proof fn law_the_display_shows_the_newest_lines(console: DevConsole, log: String, line: String)
    requires
        call_ensures(DevConsole::log_text, (&console,), log),
        call_ensures(DevConsole::input_text, (&console,), line),
    ensures
        console@.log.len() <= 12 ==> log@ == crate::text::joined(console@.log, "\n"@),
        console@.log.len() > 12 ==> log@ == crate::text::joined(
            console@.log.skip(console@.log.len() - 12),
            "\n"@,
        ),
        line@ == "> "@ + console@.input,
{
    crate::text::law_the_last_are_the_end(console@.log, 12);
    if console@.log.len() <= 12 {
        assert(console@.log.skip(0) == console@.log);
    }
}

/// What a handler prints ends the log, behind all that was there; clearing the
/// log leaves nothing of it.
pub proof fn law_printed_lines_end_the_log(
    printed: &mut DevConsole,
    line: String,
    cleared: &mut DevConsole,
)
    requires
        call_ensures(DevConsole::print, (printed, line), ()),
        call_ensures(DevConsole::clear_log, (cleared,), ()),
    ensures
        final(printed)@.log == old(printed)@.log + seq![line@],
        final(printed)@.input == old(printed)@.input,
        final(printed)@.open == old(printed)@.open,
        final(cleared)@.log.len() == 0,
        final(cleared)@.input == old(cleared)@.input,
        final(cleared)@.open == old(cleared)@.open,
{
    law_printing_and_clearing_touch_only_the_log(old(printed)@, line@);
    law_printing_and_clearing_touch_only_the_log(old(cleared)@, line@);
    assert(final(printed)@.log == final(printed)@.log.drop_last() + seq![final(printed)@.log.last()]);
}

/// Keys other than Enter only edit the end of the line: what is typed is put
/// there whole, Backspace takes one character away, and what is not typed text
/// does nothing. A key that comes up does nothing.
pub proof fn law_pressing_keys_edits_the_line<H: Fn(&mut DevConsole, &[&str])>(
    console: &mut DevConsole,
    commands: ConsoleCommands<H>,
    event: KeyEvent,
)
    requires
        call_ensures(press::<H>, (console, &commands, &event), ()),
        !(event.key is Enter) || event.released,
    ensures
        final(console)@.open == old(console)@.open,
        final(console)@.log == old(console)@.log,
        event.released ==> final(console)@.input == old(console)@.input,
        !event.released && event.key is Space ==> final(console)@.input == old(console)@.input
            + seq![' '],
        !event.released && event.key is Backspace && old(console)@.input.len() > 0 ==> final(
            console)@.input == old(console)@.input.take(old(console)@.input.len() - 1),
        !event.released ==> (event.key matches ConsoleKey::Character(s) ==> final(console)@.input
            == (if s@ == "`"@ || s@ == "~"@ || crate::text::has_control(s@) {
            old(console)@.input
        } else {
            old(console)@.input + s@
        })),
        event.key is Other ==> final(console)@.input == old(console)@.input,
{
    if event.released {
        law_released_keys_do_nothing(commands@, event, old(console)@);
    } else {
        law_keys_edit_the_end_of_the_line(commands@, event, old(console)@);
    }
}

/// Enter shows and runs what was typed, whatever the log holds. A line of blanks
/// only is emptied. Any other line goes to the end of the log behind a prompt,
/// and then: `help` adds a line that names every command, `clear` leaves an
/// empty log, the name of a command has its handler called with the other
/// words, and any other word is complained about.
pub proof fn law_pressing_enter_runs_the_line<H: Fn(&mut DevConsole, &[&str])>(
    console: &mut DevConsole,
    commands: ConsoleCommands<H>,
    event: KeyEvent,
    i: int,
)
    requires
        call_ensures(press::<H>, (console, &commands, &event), ()),
        event.key is Enter,
        !event.released,
    ensures
        ({
            let words = crate::text::words_of(old(console)@.input);
            let shown = old(console)@.log.push(
                "> "@ + crate::text::trimmed(old(console)@.input),
            );
            let own = words.len() > 0 && (words[0] == "clear"@ || words[0] == "help"@);
            let unknown = words.len() > 0 && !own && forall|j: int|
                0 <= j < commands@.len() ==> (#[trigger] commands@[j]).name != words[0];
            let first = 0 <= i < commands@.len() && words.len() > 0 && commands@[i].name == words[0]
                && forall|j: int| 0 <= j < i ==> (#[trigger] commands@[j]).name != words[0];
            &&& words.len() == 0 ==> final(console)@ == (ConsoleModel {
                open: old(console)@.open,
                input: seq![],
                log: old(console)@.log,
            })
            &&& words.len() > 0 && words[0] == "clear"@ ==> final(console)@ == (ConsoleModel {
                open: old(console)@.open,
                input: seq![],
                log: seq![],
            })
            &&& words.len() > 0 && words[0] == "help"@ ==> final(console)@ == (ConsoleModel {
                open: old(console)@.open,
                input: seq![],
                log: shown.push(
                    "commands: "@ + crate::text::joined(
                        commands@.map_values(|c: crate::commands::CommandModel<H>| c.name),
                        ", "@,
                    ) + ", clear"@,
                ),
            })
            &&& unknown ==> final(console)@ == (ConsoleModel {
                open: old(console)@.open,
                input: seq![],
                log: shown.push("unknown command: "@ + words[0]),
            })
            &&& first && !own ==> exists|given: &mut DevConsole, args: &[&str]|
                {
                    &&& #[trigger] call_ensures(commands@[i].handler, (given, args), ())
                    &&& *final(given) == *final(console)
                    &&& given@ == (ConsoleModel {
                        open: old(console)@.open,
                        input: seq![],
                        log: shown,
                    })
                    &&& crate::text::texts(args@) == words.skip(1)
                }
        }),
{
    let before = old(console)@;
    let words = crate::text::words_of(before.input);
    let line = crate::text::trimmed(before.input);
    let shown = ConsoleModel { open: before.open, input: seq![], log: before.log.push("> "@ + line) };
    crate::text::law_trimming_keeps_the_words(before.input);
    crate::text::law_trimmed_line_has_a_word(before.input);
    law_enter_shows_and_runs_the_line(commands@, event, before);
    law_a_line_is_its_words(line);
    if line.len() == 0 {
        crate::text::law_a_solid_text_is_a_word(line);
    } else {
        assert(first_word(line) == words[0]) by {
            assert((seq![first_word(line)] + later_words(line))[0] == first_word(line));
        }
        assert(later_words(line) == words.skip(1)) by {
            assert((seq![first_word(line)] + later_words(line)).skip(1) == later_words(line));
        }
        if words[0] == "clear"@ {
            law_clear_empties_the_log(commands@, line, shown);
            assert(final(console)@.log == Seq::<Seq<char>>::empty());
        } else if words[0] == "help"@ {
            law_help_lists_every_command(commands@, line, shown);
            assert(final(console)@.log == final(console)@.log.drop_last().push(
                final(console)@.log.last(),
            ));
        } else if 0 <= i < commands@.len() && commands@[i].name == words[0] && forall|j: int|
            0 <= j < i ==> (#[trigger] commands@[j]).name != words[0] {
            law_a_named_command_is_called(commands@, line, shown, i);
        } else if forall|j: int|
            0 <= j < commands@.len() ==> (#[trigger] commands@[j]).name != words[0] {
            law_an_unknown_command_is_complained_about(commands@, line, shown);
            assert(final(console)@.log == final(console)@.log.drop_last().push(
                final(console)@.log.last(),
            ));
        }
    }
    reveal_strlit("help");
    reveal_strlit("clear");
    assert("help"@.len() != "clear"@.len());
}

/// A key that goes down and types text of its own.
pub open spec fn is_typed(event: KeyEvent) -> bool {
    !event.released && (event.key matches ConsoleKey::Character(s) && s@ != "`"@ && s@ != "~"@
        && !crate::text::has_control(s@))
}

/// What several such keys type.
pub open spec fn typed_text(events: Seq<KeyEvent>) -> Seq<char>
    decreases events.len(),
{
    if events.len() == 0 {
        seq![]
    } else {
        typed_text(events.drop_last()) + events.last().key->Character_0@
    }
}

/// While only text is typed, the line grows by all of it and nothing else
/// changes.
proof fn lemma_typing_grows_the_line<H>(
    commands: Seq<crate::commands::CommandModel<H>>,
    events: Seq<KeyEvent>,
    states: Seq<DevConsole>,
    n: int,
)
    requires
        0 <= n <= events.len(),
        states.len() == events.len() + 1,
        forall|k: int| 0 <= k < n ==> is_typed(#[trigger] events[k]),
        forall|k: int|
            0 <= k < n ==> (key_effect(commands, #[trigger] events[k], states[k]@) matches
                Effect::Becomes { console: shown } ==> states[k + 1]@ == shown),
    ensures
        states[n]@ == (ConsoleModel {
            open: states[0]@.open,
            input: states[0]@.input + typed_text(events.take(n)),
            log: states[0]@.log,
        }),
    decreases n,
{
    if n == 0 {
        assert(states[0]@.input + typed_text(events.take(0)) == states[0]@.input);
    } else {
        lemma_typing_grows_the_line(commands, events, states, n - 1);
        let event = events[n - 1];
        assert(is_typed(event));
        law_keys_edit_the_end_of_the_line(commands, event, states[n - 1]@);
        assert(events.take(n).drop_last() == events.take(n - 1));
        assert(events.take(n).last() == event);
        assert(states[n]@.input == states[0]@.input + typed_text(events.take(n)));
    }
}

/// A line that is typed into an open console and ended with Enter is run: all
/// that was typed goes behind what the line held; what is left of that after
/// trimming is shown at the end of the log and has the effect of running it.
/// Without the Enter it stands in the line. A closed console takes none of it.
pub proof fn law_a_typed_line_is_run<H: Fn(&mut DevConsole, &[&str])>(
    console: &mut DevConsole,
    commands: ConsoleCommands<H>,
    events: Vec<KeyEvent>,
)
    requires
        call_ensures(console_input::<H>, (console, &commands, &events), ()),
        events@.len() > 0,
        forall|k: int| 0 <= k < events@.len() - 1 ==> is_typed(#[trigger] events@[k]),
    ensures
        !old(console)@.open ==> *final(console) == *old(console),
        old(console)@.open && is_typed(events@.last()) ==> final(console)@ == (ConsoleModel {
            open: true,
            input: old(console)@.input + typed_text(events@),
            log: old(console)@.log,
        }),
        old(console)@.open && events@.last().key is Enter && !events@.last().released ==> {
            let line = crate::text::trimmed(
                old(console)@.input + typed_text(events@.drop_last()),
            );
            let shown = ConsoleModel {
                open: true,
                input: seq![],
                log: old(console)@.log.push("> "@ + line),
            };
            &&& line.len() == 0 ==> final(console)@ == (ConsoleModel {
                open: true,
                input: seq![],
                log: old(console)@.log,
            })
            &&& line.len() > 0 ==> (line_effect(commands@, line, shown) matches Effect::Becomes {
                console: after,
            } ==> final(console)@ == after)
        },
{
    let n = events@.len() as int;
    assert forall|states: Seq<DevConsole>|
        {
            &&& #[trigger] states.len() == events@.len() + 1
            &&& states[0] == *old(console)
            &&& states.last() == *final(console)
            &&& old(console)@.open
            &&& forall|k: int|
                0 <= k < events@.len() ==> (key_effect(
                    commands@,
                    #[trigger] events@[k],
                    states[k]@,
                ) matches Effect::Becomes { console: shown } ==> states[k + 1]@ == shown)
        } implies ({
        let line = crate::text::trimmed(old(console)@.input + typed_text(events@.drop_last()));
        let shown = ConsoleModel {
            open: true,
            input: seq![],
            log: old(console)@.log.push("> "@ + line),
        };
        let enter = events@.last().key is Enter && !events@.last().released;
        &&& is_typed(events@.last()) ==> final(console)@ == (ConsoleModel {
            open: true,
            input: old(console)@.input + typed_text(events@),
            log: old(console)@.log,
        })
        &&& enter && line.len() == 0 ==> final(console)@ == (ConsoleModel {
            open: true,
            input: seq![],
            log: old(console)@.log,
        })
        &&& enter && line.len() > 0 ==> (line_effect(commands@, line, shown) matches
            Effect::Becomes { console: after } ==> final(console)@ == after)
    }) by {
        lemma_typing_grows_the_line(commands@, events@, states, n - 1);
        assert(events@.take(n - 1) == events@.drop_last());
        if is_typed(events@.last()) {
            assert(events@[n - 1] == events@.last());
            lemma_typing_grows_the_line(commands@, events@, states, n);
            assert(events@.take(n) == events@);
        }
        if events@.last().key is Enter && !events@.last().released {
            law_enter_shows_and_runs_the_line(commands@, events@[n - 1], states[n - 1]@);
            assert(states[n] == states.last());
        }
    }
}

} // verus!
