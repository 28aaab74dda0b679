//! The console's commands: names, and what they run.

use vstd::prelude::*;

use crate::text::join;

verus! {

/// A command: a name and what runs under it.
pub struct ConsoleCommand<H> {
    pub name: String,
    pub handler: H,
}

/// A command, as contracts see it.
pub struct CommandModel<H> {
    pub name: Seq<char>,
    pub handler: H,
}

/// The command as contracts see it.
pub open spec fn command_model<H>(c: ConsoleCommand<H>) -> CommandModel<H> {
    CommandModel { name: c.name@, handler: c.handler }
}

/// A list of commands as contracts see it.
pub open spec fn command_models<H>(v: Seq<ConsoleCommand<H>>) -> Seq<CommandModel<H>> {
    v.map_values(|c: ConsoleCommand<H>| command_model(c))
}

/// The `i`th command is the first one of that name.
pub open spec fn is_first<H>(commands: Seq<CommandModel<H>>, name: Seq<char>, i: int) -> bool {
    &&& 0 <= i < commands.len()
    &&& commands[i].name == name
    &&& forall|j: int| 0 <= j < i ==> (#[trigger] commands[j]).name != name
}

/// Where the first command of that name is.
pub open spec fn first_named<H>(commands: Seq<CommandModel<H>>, name: Seq<char>) -> Option<int> {
    if exists|i: int| is_first(commands, name, i) {
        Some(choose|i: int| is_first(commands, name, i))
    } else {
        None
    }
}

/// There is at most one first command of a name.
proof fn lemma_first_named<H>(commands: Seq<CommandModel<H>>, name: Seq<char>, i: int)
    requires
        is_first(commands, name, i),
    ensures
        first_named(commands, name) == Some(i),
{
    let k = choose|k: int| is_first(commands, name, k);
    if k < i {
        assert(commands[k].name != name);
    } else if i < k {
        assert(commands[i].name != name);
    }
}

/// Where no command has a name, there is no first one.
proof fn lemma_none_named<H>(commands: Seq<CommandModel<H>>, name: Seq<char>)
    requires
        forall|j: int| 0 <= j < commands.len() ==> (#[trigger] commands[j]).name != name,
    ensures
        first_named(commands, name) is None,
{
}

/// The first command of a name, where there is one, is the one found.
pub(crate) proof fn lemma_first_named_is<H>(commands: Seq<CommandModel<H>>, name: Seq<char>)
    ensures
        match first_named(commands, name) {
            Some(i) => is_first(commands, name, i),
            None => forall|j: int| 0 <= j < commands.len() ==> (#[trigger] commands[j]).name != name,
        },
{
    if first_named(commands, name) is None {
        assert forall|j: int| 0 <= j < commands.len() implies (#[trigger] commands[j]).name
            != name by {
            if commands[j].name == name {
                lemma_some_first(commands, name, j);
            }
        }
    }
}

/// Where a command has a name, some command is the first to have it.
proof fn lemma_some_first<H>(commands: Seq<CommandModel<H>>, name: Seq<char>, j: int)
    requires
        0 <= j < commands.len(),
        commands[j].name == name,
    ensures
        exists|i: int| is_first(commands, name, i),
    decreases j,
{
    if forall|k: int| 0 <= k < j ==> (#[trigger] commands[k]).name != name {
        assert(is_first(commands, name, j));
    } else {
        let k = choose|k: int| 0 <= k < j && (#[trigger] commands[k]).name == name;
        lemma_some_first(commands, name, k);
    }
}

/// The commands after one more is registered: the first of that name has its
/// handler replaced and keeps its place; a new name goes to the end.
pub open spec fn registered<H>(
    commands: Seq<CommandModel<H>>,
    name: Seq<char>,
    handler: H,
) -> Seq<CommandModel<H>> {
    match first_named(commands, name) {
        Some(i) => commands.update(i, CommandModel { name, handler }),
        None => commands.push(CommandModel { name, handler }),
    }
}

/// The commands without those of a name.
pub open spec fn unregistered<H>(commands: Seq<CommandModel<H>>, name: Seq<char>) -> Seq<
    CommandModel<H>,
> {
    commands.filter(|c: CommandModel<H>| c.name != name)
}

/// The names of the commands, in order.
pub open spec fn command_names<H>(commands: Seq<CommandModel<H>>) -> Seq<Seq<char>> {
    commands.map_values(|c: CommandModel<H>| c.name)
}

/// The commands of a console.
pub struct ConsoleCommands<H> {
    pub commands: Vec<ConsoleCommand<H>>,
}

impl<H> ConsoleCommands<H> {
    /// The commands as contracts see them.
    pub open spec fn view(&self) -> Seq<CommandModel<H>> {
        command_models(self.commands@)
    }

    /// No commands.
    pub fn new() -> (r: Self)
        ensures
            r@ == Seq::<CommandModel<H>>::empty(),
    {
        let r = ConsoleCommands { commands: Vec::new() };
        assert(r@ == Seq::<CommandModel<H>>::empty());
        r
    }

    /// Finds the first command of a name.
    pub fn find(&self, name: &str) -> (r: Option<usize>)
        ensures
            match r {
                Some(i) => first_named(self@, name@) == Some(i as int) && is_first(
                    self@,
                    name@,
                    i as int,
                ),
                None => first_named(self@, name@) is None,
            },
    {
        let mut i: usize = 0;
        while i < self.commands.len()
            invariant
                i <= self.commands.len(),
                forall|j: int| 0 <= j < i ==> (#[trigger] self@[j]).name != name@,
            decreases self.commands.len() - i,
        {
            assert(self@[i as int].name == self.commands@[i as int].name@);
            if crate::logs::same_text(self.commands[i].name.as_str(), name) {
                proof {
                    assert(is_first(self@, name@, i as int));
                    lemma_first_named(self@, name@, i as int);
                }
                return Some(i);
            }
            i = i + 1;
        }
        proof {
            lemma_none_named(self@, name@);
        }
        None
    }

    /// Registers a command, or gives a registered one another handler.
    pub fn register_named(&mut self, name: String, handler: H)
        ensures
            final(self)@ == registered(old(self)@, name@, handler),
    {
        let ghost said = name@;
        match self.find(name.as_str()) {
            Some(i) => {
                self.commands.set(i, ConsoleCommand { name, handler });
                assert(self@ == old(self)@.update(
                    i as int,
                    CommandModel { name: said, handler },
                ));
            },
            None => {
                self.commands.push(ConsoleCommand { name, handler });
                assert(self@ == old(self)@.push(CommandModel { name: said, handler }));
            },
        }
    }

    /// The same under anything that makes a name.
    pub fn register<N: Into<String>>(&mut self, name: N, handler: H)
        ensures
            exists|text: String|
                call_ensures(N::into, (name,), text) && final(self)@ == #[trigger] registered(
                    old(self)@,
                    text@,
                    handler,
                ),
    {
        let text: String = name.into();
        let ghost made = text;
        self.register_named(text, handler);
        assert(call_ensures(N::into, (name,), made) && self@ == registered(
            old(self)@,
            made@,
            handler,
        ));
    }

    /// Takes away all commands of a name, and tells whether there were any.
    pub fn unregister(&mut self, name: &str) -> (r: bool)
        ensures
            final(self)@ == unregistered(old(self)@, name@),
            r == (first_named(old(self)@, name@) is Some),
    {
        let ghost all = self@;
        let ghost keep = |c: CommandModel<H>| c.name != name@;
        let ghost mut k: int = 0;
        let mut i: usize = 0;
        let mut found = false;
        proof {
            reveal(Seq::filter);
            assert(all.take(0).filter(keep) == Seq::<CommandModel<H>>::empty());
            assert(all.take(0).filter(keep) + all.skip(0) == all);
        }
        while i < self.commands.len()
            invariant
                keep == (|c: CommandModel<H>| c.name != name@),
                0 <= k <= all.len(),
                self@ == all.take(k).filter(keep) + all.skip(k),
                i == all.take(k).filter(keep).len(),
                found == exists|j: int| 0 <= j < k && (#[trigger] all[j]).name == name@,
            decreases all.len() - k,
        {
            let ghost done = all.take(k).filter(keep);
            proof {
                reveal(Seq::filter);
                assert(k < all.len());
                assert(self@[i as int] == all[k]);
                assert(self@[i as int].name == self.commands@[i as int].name@);
                assert(all.take(k + 1).drop_last() == all.take(k));
                assert(all.take(k + 1).last() == all[k]);
            }
            if crate::logs::same_text(self.commands[i].name.as_str(), name) {
                let ghost before = self@;
                self.commands.remove(i);
                found = true;
                proof {
                    assert(self@ == before.remove(i as int));
                    assert(self@ == done + all.skip(k + 1));
                    assert(all[k].name == name@);
                }
            } else {
                i = i + 1;
                proof {
                    assert(self@ == done.push(all[k]) + all.skip(k + 1));
                }
            }
            proof {
                k = k + 1;
            }
        }
        proof {
            assert(all.skip(k).len() == 0);
            assert(all.take(k) == all);
            assert(all.filter(keep) + all.skip(k) == all.filter(keep));
            lemma_first_named_is(all, name@);
            if found {
                let j = choose|j: int| 0 <= j < k && (#[trigger] all[j]).name == name@;
                assert(all[j].name == name@);
            }
        }
        found
    }

    /// The names of the commands, each followed by a comma and a blank but
    /// for the last.
    pub fn listed(&self) -> (r: String)
        ensures
            r@ == crate::text::joined(command_names(self@), ", "@),
    {
        let mut names: Vec<&str> = Vec::new();
        let mut i: usize = 0;
        while i < self.commands.len()
            invariant
                i <= self.commands.len(),
                crate::text::texts(names@) == command_names(self@).take(i as int),
            decreases self.commands.len() - i,
        {
            let ghost before = crate::text::texts(names@);
            names.push(self.commands[i].name.as_str());
            assert(crate::text::texts(names@) == before.push(self.commands@[i as int].name@));
            assert(crate::text::texts(names@) == command_names(self@).take(i + 1));
            i = i + 1;
        }
        assert(command_names(self@).take(self@.len() as int) == command_names(self@));
        join(&names, ", ")
    }
}

/// The console's settings: the commands that it starts with.
pub struct ConsolePlugin<H> {
    pub commands: Vec<ConsoleCommand<H>>,
}

impl<H> Default for ConsolePlugin<H> {
    /// No commands.
    fn default() -> (r: Self)
        ensures
            command_models(r.commands@) == Seq::<CommandModel<H>>::empty(),
    {
        let r = ConsolePlugin { commands: Vec::new() };
        assert(command_models(r.commands@) == Seq::<CommandModel<H>>::empty());
        r
    }
}

impl<H> ConsolePlugin<H> {
    /// Adds a command at the end. A second one of a name is kept, but the
    /// console finds the first.
    pub fn command_named(self, name: String, handler: H) -> (r: Self)
        ensures
            command_models(r.commands@) == command_models(self.commands@).push(
                CommandModel { name: name@, handler },
            ),
    {
        let mut commands = self.commands;
        let ghost before = commands@;
        let ghost said = name@;
        commands.push(ConsoleCommand { name, handler });
        assert(command_models(commands@) == command_models(before).push(
            CommandModel { name: said, handler },
        ));
        ConsolePlugin { commands }
    }

    /// The same under anything that makes a name.
    pub fn command<N: Into<String>>(self, name: N, handler: H) -> (r: Self)
        ensures
            exists|text: String| #[trigger]
                call_ensures(N::into, (name,), text) && command_models(r.commands@)
                    == command_models(self.commands@).push(
                    CommandModel { name: text@, handler },
                ),
    {
        let text: String = name.into();
        self.command_named(text, handler)
    }
}

impl<H: Copy> ConsolePlugin<H> {
    /// The commands that the console starts with.
    pub fn console_commands(&self) -> (r: ConsoleCommands<H>)
        ensures
            r@ == command_models(self.commands@),
    {
        let mut commands: Vec<ConsoleCommand<H>> = Vec::new();
        let mut i: usize = 0;
        while i < self.commands.len()
            invariant
                i <= self.commands.len(),
                command_models(commands@) == command_models(self.commands@).take(i as int),
            decreases self.commands.len() - i,
        {
            let ghost before = commands@;
            let command = &self.commands[i];
            commands.push(
                ConsoleCommand { name: command.name.clone(), handler: command.handler },
            );
            assert(command_models(commands@) == command_models(before).push(
                command_models(self.commands@)[i as int],
            ));
            assert(command_models(commands@) == command_models(self.commands@).take(i + 1));
            i = i + 1;
        }
        let r = ConsoleCommands { commands };
        assert(r@ == command_models(self.commands@));
        r
    }
}

// ---------------------------------------------------------------------------
// Laws
// ---------------------------------------------------------------------------

/// No two commands have the same name.
pub open spec fn names_differ<H>(commands: Seq<CommandModel<H>>) -> bool {
    forall|i: int, j: int|
        0 <= i < j < commands.len() ==> (#[trigger] commands[i]).name != (
        #[trigger] commands[j]).name
}

/// What is registered is found, under the handler it was registered with.
pub proof fn law_registered_is_found<H>(commands: Seq<CommandModel<H>>, name: Seq<char>, handler: H)
    ensures
        ({
            let after = registered(commands, name, handler);
            &&& first_named(after, name) matches Some(i)
            &&& after[i].handler == handler
        }),
{
    lemma_first_named_is(commands, name);
    let after = registered(commands, name, handler);
    match first_named(commands, name) {
        Some(i) => {
            assert(is_first(after, name, i));
            lemma_first_named(after, name, i);
        },
        None => {
            assert(is_first(after, name, commands.len() as int));
            lemma_first_named(after, name, commands.len() as int);
        },
    }
}

/// Registering a name leaves what is found under every other name as it was.
pub proof fn law_register_keeps_other_names<H>(
    commands: Seq<CommandModel<H>>,
    name: Seq<char>,
    handler: H,
    other: Seq<char>,
)
    requires
        other != name,
    ensures
        first_named(registered(commands, name, handler), other) == first_named(commands, other),
        first_named(commands, other) matches Some(i) ==> registered(commands, name, handler)[i]
            == commands[i],
{
    let after = registered(commands, name, handler);
    lemma_first_named_is(commands, name);
    lemma_first_named_is(commands, other);
    match first_named(commands, other) {
        Some(i) => {
            assert(is_first(after, other, i)) by {
                assert forall|j: int| 0 <= j < i implies (#[trigger] after[j]).name != other by {
                    assert(commands[j].name != other);
                }
            }
            lemma_first_named(after, other, i);
        },
        None => {
            assert forall|j: int| 0 <= j < after.len() implies (#[trigger] after[j]).name
                != other by {
                if j < commands.len() {
                    assert(commands[j].name != other);
                }
            }
            lemma_none_named(after, other);
        },
    }
}

/// Registering never makes two commands of one name.
pub proof fn law_register_keeps_names_apart<H>(
    commands: Seq<CommandModel<H>>,
    name: Seq<char>,
    handler: H,
)
    requires
        names_differ(commands),
    ensures
        names_differ(registered(commands, name, handler)),
{
    lemma_first_named_is(commands, name);
    let after = registered(commands, name, handler);
    assert forall|i: int, j: int| 0 <= i < j < after.len() implies (#[trigger] after[i]).name != (
    #[trigger] after[j]).name by {
        assert(i < commands.len() ==> after[i].name == commands[i].name);
        assert(j < commands.len() ==> after[j].name == commands[j].name);
    }
}

/// Registering a name a second time only replaces its handler.
pub proof fn law_register_again_replaces<H>(
    commands: Seq<CommandModel<H>>,
    name: Seq<char>,
    first: H,
    second: H,
)
    ensures
        registered(registered(commands, name, first), name, second) == registered(
            commands,
            name,
            second,
        ),
{
    lemma_first_named_is(commands, name);
    let once = registered(commands, name, first);
    match first_named(commands, name) {
        Some(i) => {
            assert(is_first(once, name, i));
            lemma_first_named(once, name, i);
        },
        None => {
            assert(is_first(once, name, commands.len() as int));
            lemma_first_named(once, name, commands.len() as int);
        },
    }
    assert(registered(once, name, second) =~= registered(commands, name, second));
}

/// After a name is taken away nothing is found under it.
pub proof fn law_unregistered_is_gone<H>(commands: Seq<CommandModel<H>>, name: Seq<char>)
    ensures
        first_named(unregistered(commands, name), name) is None,
{
    let keep = |c: CommandModel<H>| c.name != name;
    let after = unregistered(commands, name);
    assert forall|j: int| 0 <= j < after.len() implies (#[trigger] after[j]).name != name by {
        broadcast use vstd::seq_lib::group_filter_ensures;
        assert(keep(after[j]));
    }
    lemma_none_named(after, name);
}

/// Taking away a new name undoes its registration.
pub proof fn law_unregister_undoes_register<H>(
    commands: Seq<CommandModel<H>>,
    name: Seq<char>,
    handler: H,
)
    requires
        first_named(commands, name) is None,
    ensures
        unregistered(registered(commands, name, handler), name) == commands,
{
    lemma_first_named_is(commands, name);
    let keep = |c: CommandModel<H>| c.name != name;
    let after = registered(commands, name, handler);
    reveal(Seq::filter);
    assert(after.drop_last() == commands);
    lemma_keep_all(commands, name);
}

/// Where no command has a name, taking it away changes nothing.
proof fn lemma_keep_all<H>(commands: Seq<CommandModel<H>>, name: Seq<char>)
    requires
        forall|j: int| 0 <= j < commands.len() ==> (#[trigger] commands[j]).name != name,
    ensures
        unregistered(commands, name) == commands,
    decreases commands.len(),
{
    reveal(Seq::filter);
    if commands.len() > 0 {
        let rest = commands.drop_last();
        assert forall|j: int| 0 <= j < rest.len() implies (#[trigger] rest[j]).name != name by {
            assert(commands[j].name != name);
        }
        lemma_keep_all(rest, name);
        assert(rest.push(commands.last()) == commands);
    }
}

/// A list of commands is seen whole: every command under its own name, with its
/// own handler.
pub proof fn law_commands_are_seen_whole<H>(v: Seq<ConsoleCommand<H>>)
    ensures
        command_models(v).len() == v.len(),
        forall|i: int|
            0 <= i < v.len() ==> (#[trigger] command_models(v)[i]).name == v[i].name@
                && command_models(v)[i].handler == v[i].handler,
        command_names(command_models(v)).len() == v.len(),
        forall|i: int|
            0 <= i < v.len() ==> #[trigger] command_names(command_models(v))[i] == v[i].name@,
{
}

/// What is found under a name has that name, and nothing before it has. Where
/// nothing is found, nothing has it.
pub proof fn law_the_first_of_a_name_is_found<H>(commands: Seq<CommandModel<H>>, name: Seq<char>)
    ensures
        match first_named(commands, name) {
            Some(i) => {
                &&& 0 <= i < commands.len()
                &&& commands[i].name == name
                &&& forall|j: int| 0 <= j < i ==> (#[trigger] commands[j]).name != name
            },
            None => forall|j: int| 0 <= j < commands.len() ==> (#[trigger] commands[j]).name != name,
        },
{
    lemma_first_named_is(commands, name);
}

/// Registering leaves every command where it is, but for the handler of the
/// one that had the name first. A name that was there adds no command, and a
/// new one adds one, at the end.
pub proof fn law_register_leaves_the_rest<H>(
    commands: Seq<CommandModel<H>>,
    name: Seq<char>,
    handler: H,
    i: int,
)
    requires
        0 <= i < commands.len(),
    ensures
        ({
            let after = registered(commands, name, handler);
            let known = exists|j: int|
                0 <= j < commands.len() && (#[trigger] commands[j]).name == name;
            let first = commands[i].name == name && forall|j: int|
                0 <= j < i ==> (#[trigger] commands[j]).name != name;
            &&& after.len() == commands.len() + (if known {
                0int
            } else {
                1int
            })
            &&& after[i].name == commands[i].name
            &&& after[i].handler == (if first {
                handler
            } else {
                commands[i].handler
            })
            &&& !known ==> after.last().name == name && after.last().handler == handler
        }),
{
    lemma_first_named_is(commands, name);
    if first_named(commands, name) is Some {
        let k = first_named(commands, name)->0;
        assert(commands[k].name == name);
    }
}

/// Taking a name away goes through the commands one by one: those of that name
/// go, all others stay, in their order.
pub proof fn law_unregister_takes_only_the_name<H>(
    first: Seq<CommandModel<H>>,
    command: CommandModel<H>,
    second: Seq<CommandModel<H>>,
    name: Seq<char>,
)
    ensures
        unregistered(Seq::<CommandModel<H>>::empty(), name) == Seq::<CommandModel<H>>::empty(),
        unregistered(first + seq![command] + second, name) == unregistered(first, name) + (
        if command.name == name {
            seq![]
        } else {
            seq![command]
        }) + unregistered(second, name),
{
    let keep = |c: CommandModel<H>| c.name != name;
    reveal_with_fuel(Seq::filter, 2);
    Seq::filter_distributes_over_add(first + seq![command], second, keep);
    Seq::filter_distributes_over_add(first, seq![command], keep);
    assert(seq![command].drop_last() == Seq::<CommandModel<H>>::empty());
    assert(seq![command].filter(keep) =~= if command.name == name {
        seq![]
    } else {
        seq![command]
    });
}

/// What was registered is found under its name, with the handler that was given
/// last, and the names before it in the list are others; taking the name away
/// says that it was there, and it is not found any more.
pub proof fn law_register_find_unregister<H>(
    first: &mut ConsoleCommands<H>,
    name: String,
    handler: H,
    found: Option<usize>,
    second: &mut ConsoleCommands<H>,
    spelled: &str,
    gone: bool,
    found_again: Option<usize>,
)
    requires
        call_ensures(ConsoleCommands::<H>::register_named, (first, name, handler), ()),
        spelled@ == name@,
        call_ensures(ConsoleCommands::<H>::find, (&*final(first), spelled), found),
        *old(second) == *final(first),
        call_ensures(ConsoleCommands::<H>::unregister, (second, spelled), gone),
        call_ensures(ConsoleCommands::<H>::find, (&*final(second), spelled), found_again),
    ensures
        found is Some,
        0 <= found->0 < final(first)@.len(),
        final(first)@[found->0 as int].name == name@,
        final(first)@[found->0 as int].handler == handler,
        gone,
        found_again is None,
        forall|i: int|
            0 <= i < final(second)@.len() ==> (#[trigger] final(second)@[i]).name != name@,
{
    law_registered_is_found(old(first)@, name@, handler);
    law_the_first_of_a_name_is_found(final(first)@, name@);
    law_unregistered_is_gone(old(second)@, name@);
    law_the_first_of_a_name_is_found(final(second)@, name@);
}

/// Taking a name away leaves every command of another name, and says whether
/// there was anything to take.
pub proof fn law_unregister_leaves_other_names<H>(
    commands: &mut ConsoleCommands<H>,
    name: &str,
    gone: bool,
    i: int,
)
    requires
        call_ensures(ConsoleCommands::<H>::unregister, (commands, name), gone),
        0 <= i < old(commands)@.len(),
    ensures
        old(commands)@[i].name != name@ ==> final(commands)@.contains(old(commands)@[i]),
        old(commands)@[i].name == name@ ==> gone,
        gone ==> exists|j: int|
            0 <= j < old(commands)@.len() && (#[trigger] old(commands)@[j]).name == name@,
{
    let all = old(commands)@;
    let first = all.take(i);
    let second = all.skip(i + 1);
    assert(first + seq![all[i]] + second == all);
    law_unregister_takes_only_the_name(first, all[i], second, name@);
    law_the_first_of_a_name_is_found(all, name@);
    if all[i].name != name@ {
        let k = unregistered(first, name@).len() as int;
        assert(final(commands)@[k] == all[i]);
    }
}

/// The list of commands names every command, in order.
pub proof fn law_every_command_is_listed<H>(commands: ConsoleCommands<H>, r: String)
    requires
        call_ensures(ConsoleCommands::<H>::listed, (&commands,), r),
    ensures
        r@ == crate::text::joined(
            Seq::new(commands.commands@.len(), |i: int| commands.commands@[i].name@),
            ", "@,
        ),
{
    law_commands_are_seen_whole(commands.commands@);
    assert(command_names(commands@) =~= Seq::new(
        commands.commands@.len(),
        |i: int| commands.commands@[i].name@,
    ));
}

/// A console starts with every command that its settings were given, in that
/// order, each under its name and with its handler.
pub proof fn law_settings_reach_the_console<H: Copy>(
    before: ConsolePlugin<H>,
    name: String,
    handler: H,
    after: ConsolePlugin<H>,
    commands: ConsoleCommands<H>,
    i: int,
)
    requires
        call_ensures(ConsolePlugin::<H>::command_named, (before, name, handler), after),
        call_ensures(ConsolePlugin::<H>::console_commands, (&after,), commands),
        0 <= i < before.commands@.len(),
    ensures
        commands@.len() == before.commands@.len() + 1,
        commands@[i].name == before.commands@[i].name@,
        commands@[i].handler == before.commands@[i].handler,
        commands@.last().name == name@,
        commands@.last().handler == handler,
{
    law_commands_are_seen_whole(before.commands@);
    assert(commands@[i] == command_models(before.commands@)[i]);
}

} // verus!
