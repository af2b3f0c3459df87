//! The tunnel manager: which tunnels the user wants running, how each is
//! started and stopped, and the rules of the supervisor that keeps one alive.

use crate::keyed::find_key;
use crate::platform::{CommandLine, CommandLineView, Dispatcher, ProcessSpawner, Request};
use crate::text::{clone_strings, strings_view};
use vstd::hash_map::StringHashMap;
use vstd::prelude::*;

verus! {

/// How often a supervisor starts the command of its tunnel before it gives
/// up.
pub const MAX_START_ATTEMPTS: u32 = 5;

/// The commands of one tunnel: the one that starts it and the one that stops
/// it, each with its arguments.
#[derive(Debug)]
pub struct TunnelCommand {
    pub command: String,
    pub args: Vec<String>,
    pub kill_command: String,
    pub kill_args: Vec<String>,
}

/// The commands of a tunnel as sequences of characters.
pub struct TunnelCommandView {
    pub command: Seq<char>,
    pub args: Seq<Seq<char>>,
    pub kill_command: Seq<char>,
    pub kill_args: Seq<Seq<char>>,
}

impl View for TunnelCommand {
    type V = TunnelCommandView;

    open spec fn view(&self) -> TunnelCommandView {
        TunnelCommandView {
            command: self.command@,
            args: strings_view(self.args@),
            kill_command: self.kill_command@,
            kill_args: strings_view(self.kill_args@),
        }
    }
}

impl Clone for TunnelCommand {
    fn clone(&self) -> (copy: Self)
        ensures
            copy@ == self@,
    {
        TunnelCommand {
            command: self.command.clone(),
            args: clone_strings(&self.args),
            kill_command: self.kill_command.clone(),
            kill_args: clone_strings(&self.kill_args),
        }
    }
}

impl TunnelCommandView {
    /// The command that starts the tunnel.
    pub open spec fn start_line(self) -> CommandLineView {
        CommandLineView { program: self.command, args: self.args }
    }

    /// The command that stops the tunnel.
    pub open spec fn stop_line(self) -> CommandLineView {
        CommandLineView { program: self.kill_command, args: self.kill_args }
    }
}

/// A registry of tunnel commands as a map from the characters of each key to
/// the view of its commands.
pub open spec fn registry_view(
    commands: Map<Seq<char>, TunnelCommand>,
) -> Map<Seq<char>, TunnelCommandView> {
    commands.map_values(|c: TunnelCommand| c@)
}

/// The active keys without `key`: the others keep their order.
pub open spec fn deactivated(active: Seq<Seq<char>>, key: Seq<char>) -> Seq<Seq<char>> {
    if active.contains(key) {
        active.remove(active.index_of(key))
    } else {
        active
    }
}

/// The active keys with `key`: at the end where it is new.
pub open spec fn activated(active: Seq<Seq<char>>, key: Seq<char>) -> Seq<Seq<char>> {
    if active.contains(key) {
        active
    } else {
        active.push(key)
    }
}

/// The requests that stopping the tunnels under `keys` hands to the spawner:
/// the stop command of each key that the registry knows, in the order of the
/// keys.
pub open spec fn stop_requests(
    keys: Seq<Seq<char>>,
    commands: Map<Seq<char>, TunnelCommandView>,
) -> Seq<Request>
    decreases keys.len(),
{
    if keys.len() == 0 {
        Seq::empty()
    } else {
        let earlier = stop_requests(keys.drop_last(), commands);
        if commands.contains_key(keys.last()) {
            earlier.push(Request::Kill { line: commands[keys.last()].stop_line() })
        } else {
            earlier
        }
    }
}

/// The `PATH` that a tunnel command gets: the configured path in front of the
/// inherited one, or the configured path alone where none is inherited.
pub open spec fn merged_path(configured: Seq<char>, inherited: Option<Seq<char>>) -> Seq<char> {
    match inherited {
        Some(path) => configured + seq![':'] + path,
        None => configured,
    }
}

/// What a tunnel manager is to its rules: the registry of commands, and the
/// keys that are active, in the order in which they became so.
#[verifier::ext_equal]
pub struct TunnelManagerModel {
    pub commands: Map<Seq<char>, TunnelCommandView>,
    pub active: Seq<Seq<char>>,
}

impl TunnelManagerModel {
    /// No key is active twice.
    pub open spec fn wf(self) -> bool {
        self.active.no_duplicates()
    }

    /// Whether any tunnel is active.
    pub open spec fn any_active(self) -> bool {
        self.active.len() > 0
    }
}

/// Owns the set of active tunnels and knows the commands of every tunnel.
///
/// To be active is all that tells a supervisor to go on: a key that leaves
/// the set is started no more.
pub struct TunnelManager {
    commands_config: StringHashMap<TunnelCommand>,
    active_tunnels: Vec<String>,
}

impl View for TunnelManager {
    type V = TunnelManagerModel;

    closed spec fn view(&self) -> TunnelManagerModel {
        TunnelManagerModel {
            commands: registry_view(self.commands_config@),
            active: strings_view(self.active_tunnels@),
        }
    }
}

/// The `PATH` for a tunnel command: `configured` in front of the inherited
/// `PATH`, with a colon between them, or `configured` alone where no `PATH`
/// is inherited.
pub fn merge_path(configured: &str, inherited: Option<&str>) -> (path: String)
    ensures
        path@ == merged_path(
            configured@,
            match inherited {
                Some(p) => Some(p@),
                None => None,
            },
        ),
{
    let mut path = configured.to_owned();
    match inherited {
        Some(rest) => {
            proof {
                reveal_strlit(":");
                assert(":"@ =~= seq![':']);
            }
            path.append(":");
            path.append(rest);
        },
        None => {},
    }
    path
}

impl TunnelManager {
    #[verifier::type_invariant]
    spec fn inv(self) -> bool {
        strings_view(self.active_tunnels@).no_duplicates()
    }

    /// Creates a manager that knows `commands` and has no active tunnel.
    pub fn new(commands: StringHashMap<TunnelCommand>) -> (manager: Self)
        ensures
            manager@.commands == registry_view(commands@),
            manager@.active.len() == 0,
            manager@.wf(),
    {
        TunnelManager { commands_config: commands, active_tunnels: Vec::new() }
    }

    /// Whether the tunnel under `key` is active.
    pub fn is_active(&self, key: &str) -> (active: bool)
        ensures
            active == self@.active.contains(key@),
    {
        match find_key(&self.active_tunnels, key) {
            Some(i) => {
                assert(strings_view(self.active_tunnels@)[i as int] == key@);
                true
            },
            None => false,
        }
    }

    /// Whether any tunnel is active.
    pub fn has_active_tunnels(&self) -> (any: bool)
        ensures
            any == self@.any_active(),
    {
        self.active_tunnels.len() > 0
    }

    /// The keys of the active tunnels, in the order in which they became
    /// active.
    pub fn active_keys(&self) -> (keys: Vec<String>)
        ensures
            strings_view(keys@) == self@.active,
            self@.wf(),
    {
        proof {
            use_type_invariant(self);
        }
        clone_strings(&self.active_tunnels)
    }

    /// The commands of the tunnel under `key`, if the registry has them.
    pub fn command_for(&self, key: &str) -> (command: Option<TunnelCommand>)
        ensures
            match command {
                Some(c) => self@.commands.contains_key(key@) && c@ == self@.commands[key@],
                None => !self@.commands.contains_key(key@),
            },
    {
        match self.commands_config.get(key) {
            Some(command) => Some(command.clone()),
            None => None,
        }
    }

    /// The command that starts the tunnel under `key`, if the registry knows
    /// the key.
    pub fn start_command(&self, key: &str) -> (line: Option<CommandLine>)
        ensures
            line is Some == self@.commands.contains_key(key@),
            line matches Some(l) ==> l@ == self@.commands[key@].start_line(),
    {
        match self.commands_config.get(key) {
            Some(command) => Some(
                CommandLine {
                    program: command.command.clone(),
                    args: clone_strings(&command.args),
                },
            ),
            None => None,
        }
    }

    /// The command that stops the tunnel under `key`, if the registry knows
    /// the key.
    pub fn stop_command(&self, key: &str) -> (line: Option<CommandLine>)
        ensures
            line is Some == self@.commands.contains_key(key@),
            line matches Some(l) ==> l@ == self@.commands[key@].stop_line(),
    {
        match self.commands_config.get(key) {
            Some(command) => Some(
                CommandLine {
                    program: command.kill_command.clone(),
                    args: clone_strings(&command.kill_args),
                },
            ),
            None => None,
        }
    }

    /// Turns the tunnel under `key` on or off, and returns whether any tunnel
    /// is active afterwards.
    ///
    /// To turn a tunnel on is to make its key active; the caller then
    /// launches one supervisor for it. To turn it off is to take its key out
    /// of the active set, which ends its supervision, and to run its stop
    /// command once through the spawner, where the registry knows the key. How
    /// the stop command ends does not matter: the tunnel counts as stopped.
    pub fn toggle<S: ProcessSpawner>(
        &mut self,
        key: &str,
        enable: bool,
        dispatcher: &mut Dispatcher<S>,
    ) -> (any_active: bool)
        ensures
            final(dispatcher).platform() == old(dispatcher).platform(),
            final(self)@.wf(),
            final(self)@.commands == old(self)@.commands,
            final(self)@.active == if enable {
                activated(old(self)@.active, key@)
            } else {
                deactivated(old(self)@.active, key@)
            },
            final(self)@.active.contains(key@) == enable,
            forall|k: Seq<char>|
                k != key@ ==> final(self)@.active.contains(k) == old(self)@.active.contains(k),
            any_active == final(self)@.any_active(),
            final(dispatcher).handed_over() == if !enable && old(self)@.commands.contains_key(key@) {
                old(dispatcher).handed_over().push(
                    Request::Kill { line: old(self)@.commands[key@].stop_line() },
                )
            } else {
                old(dispatcher).handed_over()
            },
    {
        proof {
            use_type_invariant(&*self);
        }
        let mut active: Vec<String> = Vec::new();
        std::mem::swap(&mut self.active_tunnels, &mut active);
        let ghost before = strings_view(active@);
        if enable {
            match find_key(&active, key) {
                Some(i) => {
                    assert(before[i as int] == key@);
                },
                None => {
                    active.push(key.to_owned());
                    proof {
                        assert(strings_view(active@) =~= before.push(key@));
                        lemma_activated(before, key@);
                    }
                },
            }
            std::mem::swap(&mut self.active_tunnels, &mut active);
            proof {
                lemma_activated(before, key@);
            }
        } else {
            match find_key(&active, key) {
                Some(i) => {
                    let _ = active.remove(i);
                    proof {
                        assert(before[i as int] == key@);
                        assert(before.index_of(key@) == i) by {
                            let j = before.index_of(key@);
                            assert(before[j] == key@);
                        }
                        assert(strings_view(active@) =~= before.remove(i as int));
                        lemma_deactivated(before, key@);
                    }
                },
                None => {},
            }
            std::mem::swap(&mut self.active_tunnels, &mut active);
            proof {
                lemma_deactivated(before, key@);
            }
            match self.stop_command(key) {
                Some(line) => {
                    let _ = dispatcher.kill(line.program.as_str(), line.args.as_slice());
                },
                None => {},
            }
        }
        self.has_active_tunnels()
    }

    /// Stops every active tunnel and empties the active set, at shutdown.
    ///
    /// The stop command of each active key runs once through the spawner, in
    /// the order in which the keys became active, where the registry knows
    /// the key. A second call finds no active key and runs nothing.
    pub fn cleanup<S: ProcessSpawner>(&mut self, dispatcher: &mut Dispatcher<S>)
        ensures
            final(dispatcher).platform() == old(dispatcher).platform(),
            final(self)@.commands == old(self)@.commands,
            final(self)@.active.len() == 0,
            final(self)@.wf(),
            final(dispatcher).handed_over() == old(dispatcher).handed_over() + stop_requests(
                old(self)@.active,
                old(self)@.commands,
            ),
    {
        let mut i: usize = 0;
        let ghost active = self@.active;
        assert(active.take(0) =~= Seq::empty());
        assert(dispatcher.handed_over() =~= old(dispatcher).handed_over() + stop_requests(
            active.take(0),
            self@.commands,
        ));
        while i < self.active_tunnels.len()
            invariant
                i <= self.active_tunnels.len(),
                self == old(self),
                active == self@.active,
                dispatcher.platform() == old(dispatcher).platform(),
                dispatcher.handed_over() == old(dispatcher).handed_over() + stop_requests(
                    active.take(i as int),
                    self@.commands,
                ),
            decreases self.active_tunnels.len() - i,
        {
            proof {
                let longer = active.take(i as int + 1);
                assert(longer.drop_last() =~= active.take(i as int));
                assert(longer.last() == self.active_tunnels[i as int]@);
            }
            let ghost earlier = stop_requests(active.take(i as int), self@.commands);
            match self.stop_command(self.active_tunnels[i].as_str()) {
                Some(line) => {
                    let _ = dispatcher.kill(line.program.as_str(), line.args.as_slice());
                    assert(dispatcher.handed_over() =~= old(dispatcher).handed_over() + earlier.push(
                        Request::Kill { line: line@ },
                    ));
                },
                None => {},
            }
            i += 1;
        }
        assert(active.take(active.len() as int) =~= active);
        self.active_tunnels = Vec::new();
        assert(strings_view(self.active_tunnels@) =~= Seq::empty());
    }

    /// The tunnels to start afresh after a wake from sleep: every active key,
    /// in the order in which the keys became active. The caller launches one
    /// supervisor for each, as after turning the tunnel on.
    pub fn restart_active_tunnels(&self) -> (keys: Vec<String>)
        ensures
            strings_view(keys@) == self@.active,
    {
        self.active_keys()
    }
}

/// Activating a key keeps the keys distinct, puts the key among them and
/// leaves the others as they were.
pub proof fn lemma_activated(active: Seq<Seq<char>>, key: Seq<char>)
    requires
        active.no_duplicates(),
    ensures
        activated(active, key).no_duplicates(),
        activated(active, key).contains(key),
        forall|k: Seq<char>| k != key ==> activated(active, key).contains(k) == active.contains(k),
{
    let after = activated(active, key);
    if !active.contains(key) {
        assert(after[active.len() as int] == key);
        assert forall|k: Seq<char>| k != key implies after.contains(k) == active.contains(k) by {
            if active.contains(k) {
                let j = choose|j: int| 0 <= j < active.len() && active[j] == k;
                assert(after[j] == k);
            }
            if after.contains(k) {
                let j = choose|j: int| 0 <= j < after.len() && after[j] == k;
                assert(active[j] == k);
            }
        }
    }
}

/// Deactivating a key keeps the keys distinct, takes the key from among them
/// and leaves the others as they were.
pub proof fn lemma_deactivated(active: Seq<Seq<char>>, key: Seq<char>)
    requires
        active.no_duplicates(),
    ensures
        deactivated(active, key).no_duplicates(),
        !deactivated(active, key).contains(key),
        forall|k: Seq<char>|
            k != key ==> deactivated(active, key).contains(k) == active.contains(k),
{
    let after = deactivated(active, key);
    if active.contains(key) {
        let i = active.index_of(key);
        assert(0 <= i < active.len() && active[i] == key);
        assert forall|a: int| 0 <= a < after.len() implies #[trigger] after[a] == active[if a < i {
            a
        } else {
            a + 1
        }] by {}
        assert forall|k: Seq<char>| k != key implies after.contains(k) == active.contains(k) by {
            if active.contains(k) {
                let j = choose|j: int| 0 <= j < active.len() && active[j] == k;
                if j < i {
                    assert(after[j] == k);
                } else {
                    assert(after[j - 1] == k);
                }
            }
            if after.contains(k) {
                let j = choose|j: int| 0 <= j < after.len() && after[j] == k;
            }
        }
        if after.contains(key) {
            let j = choose|j: int| 0 <= j < after.len() && after[j] == key;
        }
    }
}

} // verus!
