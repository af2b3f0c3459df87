//! The configuration that the engines consume: tunnels, scheduled tasks and
//! the search path for their commands.

use crate::text::{clone_optional_string, clone_strings, slices_view, strings_view, text_list};
use crate::tunnel::{registry_view, TunnelCommand, TunnelCommandView};
use vstd::hash_map::StringHashMap;
use vstd::prelude::*;

verus! {

/// One tunnel as the user declared it: how to start it, how to stop it, and
/// how the menu shows it.
#[derive(Debug)]
pub struct TunnelConfig {
    pub name: String,
    pub command: String,
    pub args: Vec<String>,
    pub kill_command: String,
    pub kill_args: Vec<String>,
    pub separator_after: Option<bool>,
    pub group_header: Option<String>,
    pub group_icon: Option<String>,
}

/// One scheduled task as the user declared it: the command, its cron
/// expression, and how the menu shows it.
#[derive(Debug)]
pub struct ScheduledTaskConfig {
    pub name: String,
    pub command: String,
    pub args: Vec<String>,
    pub cron_schedule: String,
    pub separator_after: Option<bool>,
    pub group_header: Option<String>,
    pub group_icon: Option<String>,
}

/// The whole configuration, tunnels and schedules in the order of the file.
#[derive(Debug)]
pub struct Config {
    pub tunnels: Vec<(String, TunnelConfig)>,
    pub schedules: Vec<(String, ScheduledTaskConfig)>,
    pub path: Option<String>,
}

impl Clone for TunnelConfig {
    fn clone(&self) -> (copy: Self)
        ensures
            copy.name@ == self.name@,
            copy.command@ == self.command@,
            strings_view(copy.args@) == strings_view(self.args@),
            copy.kill_command@ == self.kill_command@,
            strings_view(copy.kill_args@) == strings_view(self.kill_args@),
            copy.separator_after == self.separator_after,
            copy.group_header is Some == self.group_header is Some,
            copy.group_header matches Some(h) ==> h@ == self.group_header->0@,
            copy.group_icon is Some == self.group_icon is Some,
            copy.group_icon matches Some(i) ==> i@ == self.group_icon->0@,
    {
        TunnelConfig {
            name: self.name.clone(),
            command: self.command.clone(),
            args: clone_strings(&self.args),
            kill_command: self.kill_command.clone(),
            kill_args: clone_strings(&self.kill_args),
            separator_after: self.separator_after,
            group_header: clone_optional_string(&self.group_header),
            group_icon: clone_optional_string(&self.group_icon),
        }
    }
}

impl Clone for ScheduledTaskConfig {
    fn clone(&self) -> (copy: Self)
        ensures
            copy.name@ == self.name@,
            copy.command@ == self.command@,
            strings_view(copy.args@) == strings_view(self.args@),
            copy.cron_schedule@ == self.cron_schedule@,
            copy.separator_after == self.separator_after,
            copy.group_header is Some == self.group_header is Some,
            copy.group_header matches Some(h) ==> h@ == self.group_header->0@,
            copy.group_icon is Some == self.group_icon is Some,
            copy.group_icon matches Some(i) ==> i@ == self.group_icon->0@,
    {
        ScheduledTaskConfig {
            name: self.name.clone(),
            command: self.command.clone(),
            args: clone_strings(&self.args),
            cron_schedule: self.cron_schedule.clone(),
            separator_after: self.separator_after,
            group_header: clone_optional_string(&self.group_header),
            group_icon: clone_optional_string(&self.group_icon),
        }
    }
}

/// The commands that a tunnel configuration declares.
pub open spec fn command_of(config: TunnelConfig) -> TunnelCommandView {
    TunnelCommandView {
        command: config.command@,
        args: strings_view(config.args@),
        kill_command: config.kill_command@,
        kill_args: strings_view(config.kill_args@),
    }
}

/// The registry that a list of tunnels stands for: each key with the
/// commands of its tunnel, and where a key comes twice, those of the later
/// tunnel.
pub open spec fn commands_of(
    tunnels: Seq<(String, TunnelConfig)>,
) -> Map<Seq<char>, TunnelCommandView>
    decreases tunnels.len(),
{
    if tunnels.len() == 0 {
        Map::empty()
    } else {
        commands_of(tunnels.drop_last()).insert(tunnels.last().0@, command_of(tunnels.last().1))
    }
}

/// The search path that a configuration gives: the configured one, else the
/// inherited `PATH`, else nothing.
pub open spec fn effective_path(
    configured: Option<String>,
    inherited: Option<Seq<char>>,
) -> Seq<char> {
    match configured {
        Some(path) => path@,
        None => match inherited {
            Some(path) => path,
            None => Seq::empty(),
        },
    }
}

/// The search path for a tunnel command while the configuration cannot be
/// read.
pub const DEFAULT_PATH: &'static str =
    "/bin:/usr/bin:/usr/local/bin:/sbin:/usr/sbin:/opt/homebrew/bin";

/// The configured search path for a tunnel command: that of the
/// configuration as it was just read, or the default one where it could not
/// be read.
pub fn configured_path(config: Option<&Config>, inherited: Option<&str>) -> (path: String)
    ensures
        path@ == match config {
            Some(c) => effective_path(
                c.path,
                match inherited {
                    Some(p) => Some(p@),
                    None => None,
                },
            ),
            None => DEFAULT_PATH@,
        },
{
    match config {
        Some(c) => c.get_path(inherited),
        None => DEFAULT_PATH.to_owned(),
    }
}

impl Config {
    /// The registry of tunnel commands for the tunnel manager.
    pub fn to_tunnel_commands(&self) -> (commands: StringHashMap<TunnelCommand>)
        ensures
            registry_view(commands@) == commands_of(self.tunnels@),
    {
        let mut commands: StringHashMap<TunnelCommand> = StringHashMap::new();
        let mut i: usize = 0;
        assert(self.tunnels@.take(0) =~= Seq::empty());
        assert(registry_view(commands@) =~= commands_of(self.tunnels@.take(0)));
        while i < self.tunnels.len()
            invariant
                i <= self.tunnels.len(),
                registry_view(commands@) == commands_of(self.tunnels@.take(i as int)),
            decreases self.tunnels.len() - i,
        {
            let key = self.tunnels[i].0.clone();
            let config = &self.tunnels[i].1;
            let command = TunnelCommand {
                command: config.command.clone(),
                args: clone_strings(&config.args),
                kill_command: config.kill_command.clone(),
                kill_args: clone_strings(&config.kill_args),
            };
            proof {
                let prefix = self.tunnels@.take(i as int + 1);
                assert(prefix.drop_last() =~= self.tunnels@.take(i as int));
                assert(prefix.last() == self.tunnels@[i as int]);
                assert(command@ == command_of(self.tunnels@[i as int].1));
                assert(registry_view(commands@.insert(key@, command)) =~= registry_view(
                    commands@,
                ).insert(key@, command@));
            }
            commands.insert(key, command);
            i += 1;
        }
        assert(self.tunnels@.take(self.tunnels.len() as int) =~= self.tunnels@);
        commands
    }

    /// The search path for commands: the configured one where there is one,
    /// else the `PATH` that the process inherited, else the empty string.
    pub fn get_path(&self, inherited: Option<&str>) -> (path: String)
        ensures
            path@ == effective_path(
                self.path,
                match inherited {
                    Some(p) => Some(p@),
                    None => None,
                },
            ),
    {
        match &self.path {
            Some(path) => path.clone(),
            None => match inherited {
                Some(path) => path.to_owned(),
                None => String::new(),
            },
        }
    }
}

/// `entry` is the tunnel under `key` with the given texts and no menu
/// decoration.
pub open spec fn is_plain_tunnel(
    entry: (String, TunnelConfig),
    key: &str,
    name: &str,
    command: &str,
    args: Seq<&str>,
    kill_command: &str,
    kill_args: Seq<&str>,
) -> bool {
    &&& entry.0@ == key@
    &&& entry.1.name@ == name@
    &&& entry.1.command@ == command@
    &&& strings_view(entry.1.args@) == slices_view(args)
    &&& entry.1.kill_command@ == kill_command@
    &&& strings_view(entry.1.kill_args@) == slices_view(kill_args)
    &&& entry.1.separator_after is None
    &&& entry.1.group_header is None
    &&& entry.1.group_icon is None
}

/// `config` is the configuration that is written where none exists: three
/// example tunnels, one example schedule, and no search path.
pub open spec fn is_default_config(config: Config) -> bool {
    &&& config.path is None
    &&& config.tunnels.len() == 3
    &&& is_plain_tunnel(
        config.tunnels[0],
        "example-ssh",
        "Example SSH Tunnel",
        "ssh",
        seq!["-N", "-L", "5432:localhost:5432", "user@example.com"],
        "pkill",
        seq!["-f", "user@example.com"],
    )
    &&& is_plain_tunnel(
        config.tunnels[1],
        "k8s-example",
        "K8s Port Forward",
        "kubectl",
        seq!["port-forward", "svc/my-service", "8080:8080", "-n", "default"],
        "pkill",
        seq!["-f", "svc/my-service"],
    )
    &&& is_plain_tunnel(
        config.tunnels[2],
        "colima",
        "Colima Docker",
        "colima",
        seq!["start"],
        "colima",
        seq!["stop"],
    )
    &&& config.schedules.len() == 1
    &&& config.schedules[0].0@ == "daily-backup"@
    &&& config.schedules[0].1.name@ == "Daily Backup"@
    &&& config.schedules[0].1.command@ == "echo"@
    &&& strings_view(config.schedules[0].1.args@) == slices_view(seq!["Running daily backup..."])
    &&& config.schedules[0].1.cron_schedule@ == "0 6 * * *"@
    &&& config.schedules[0].1.separator_after is None
    &&& config.schedules[0].1.group_header matches Some(header)
    &&& header@ == "Scheduled Tasks"@
    &&& config.schedules[0].1.group_icon matches Some(icon)
    &&& icon@ == "sf:clock.fill"@
}

/// A tunnel entry without menu decoration.
fn plain_tunnel(
    key: &str,
    name: &str,
    command: &str,
    args: &[&str],
    kill_command: &str,
    kill_args: &[&str],
) -> (entry: (String, TunnelConfig))
    ensures
        is_plain_tunnel(entry, key, name, command, args@, kill_command, kill_args@),
{
    (
        key.to_owned(),
        TunnelConfig {
            name: name.to_owned(),
            command: command.to_owned(),
            args: text_list(args),
            kill_command: kill_command.to_owned(),
            kill_args: text_list(kill_args),
            separator_after: None,
            group_header: None,
            group_icon: None,
        },
    )
}

impl Default for Config {
    /// The configuration that is written where none exists.
    fn default() -> (config: Self)
        ensures
            is_default_config(config),
    {
        let ssh_args = ["-N", "-L", "5432:localhost:5432", "user@example.com"];
        let ssh_kill = ["-f", "user@example.com"];
        let k8s_args = ["port-forward", "svc/my-service", "8080:8080", "-n", "default"];
        let k8s_kill = ["-f", "svc/my-service"];
        let colima_args = ["start"];
        let colima_kill = ["stop"];
        let backup_args = ["Running daily backup..."];
        let tunnels = vec![
            plain_tunnel(
                "example-ssh",
                "Example SSH Tunnel",
                "ssh",
                ssh_args.as_slice(),
                "pkill",
                ssh_kill.as_slice(),
            ),
            plain_tunnel(
                "k8s-example",
                "K8s Port Forward",
                "kubectl",
                k8s_args.as_slice(),
                "pkill",
                k8s_kill.as_slice(),
            ),
            plain_tunnel(
                "colima",
                "Colima Docker",
                "colima",
                colima_args.as_slice(),
                "colima",
                colima_kill.as_slice(),
            ),
        ];
        let schedules = vec![
            (
                "daily-backup".to_owned(),
                ScheduledTaskConfig {
                    name: "Daily Backup".to_owned(),
                    command: "echo".to_owned(),
                    args: text_list(backup_args.as_slice()),
                    cron_schedule: "0 6 * * *".to_owned(),
                    separator_after: None,
                    group_header: Some("Scheduled Tasks".to_owned()),
                    group_icon: Some("sf:clock.fill".to_owned()),
                },
            ),
        ];
        proof {
            assert(ssh_args@ =~= seq!["-N", "-L", "5432:localhost:5432", "user@example.com"]);
            assert(ssh_kill@ =~= seq!["-f", "user@example.com"]);
            assert(k8s_args@ =~= seq!["port-forward", "svc/my-service", "8080:8080", "-n", "default"]);
            assert(k8s_kill@ =~= seq!["-f", "svc/my-service"]);
            assert(colima_args@ =~= seq!["start"]);
            assert(colima_kill@ =~= seq!["stop"]);
            assert(backup_args@ =~= seq!["Running daily backup..."]);
        }
        Config { tunnels, schedules, path: None }
    }
}

} // verus!
