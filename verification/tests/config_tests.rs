use something_bg_core::config::{
    configured_path, Config, ScheduledTaskConfig, TunnelConfig, DEFAULT_PATH,
};

fn strings(items: &[&str]) -> Vec<String> {
    items.iter().map(|s| s.to_string()).collect()
}

#[test]
fn default_config_has_the_example_entries() {
    let config = Config::default();
    assert_eq!(config.path, None);
    let keys: Vec<&str> = config.tunnels.iter().map(|(k, _)| k.as_str()).collect();
    assert_eq!(keys, vec!["example-ssh", "k8s-example", "colima"]);

    let ssh = &config.tunnels[0].1;
    assert_eq!(ssh.name, "Example SSH Tunnel");
    assert_eq!(ssh.command, "ssh");
    assert_eq!(ssh.args, strings(&["-N", "-L", "5432:localhost:5432", "user@example.com"]));
    assert_eq!(ssh.kill_command, "pkill");
    assert_eq!(ssh.kill_args, strings(&["-f", "user@example.com"]));
    assert_eq!(ssh.separator_after, None);
    assert_eq!(ssh.group_header, None);
    assert_eq!(ssh.group_icon, None);

    let k8s = &config.tunnels[1].1;
    assert_eq!(k8s.name, "K8s Port Forward");
    assert_eq!(k8s.command, "kubectl");
    assert_eq!(k8s.args, strings(&["port-forward", "svc/my-service", "8080:8080", "-n", "default"]));
    assert_eq!(k8s.kill_command, "pkill");
    assert_eq!(k8s.kill_args, strings(&["-f", "svc/my-service"]));

    let colima = &config.tunnels[2].1;
    assert_eq!(colima.name, "Colima Docker");
    assert_eq!(colima.command, "colima");
    assert_eq!(colima.args, strings(&["start"]));
    assert_eq!(colima.kill_command, "colima");
    assert_eq!(colima.kill_args, strings(&["stop"]));

    assert_eq!(config.schedules.len(), 1);
    assert_eq!(config.schedules[0].0, "daily-backup");
    let backup = &config.schedules[0].1;
    assert_eq!(backup.name, "Daily Backup");
    assert_eq!(backup.command, "echo");
    assert_eq!(backup.args, strings(&["Running daily backup..."]));
    assert_eq!(backup.cron_schedule, "0 6 * * *");
    assert_eq!(backup.separator_after, None);
    assert_eq!(backup.group_header, Some("Scheduled Tasks".to_string()));
    assert_eq!(backup.group_icon, Some("sf:clock.fill".to_string()));
}

#[test]
fn configured_path_wins_over_the_inherited_one() {
    let mut config = Config::default();
    assert_eq!(config.get_path(Some("/usr/bin:/bin")), "/usr/bin:/bin");
    assert_eq!(config.get_path(None), "");
    config.path = Some("/opt/homebrew/bin".to_string());
    assert_eq!(config.get_path(Some("/usr/bin:/bin")), "/opt/homebrew/bin");
    assert_eq!(config.get_path(None), "/opt/homebrew/bin");
}

#[test]
fn cloned_configs_hold_the_same_texts() {
    let tunnel = TunnelConfig {
        name: "Database".to_string(),
        command: "ssh".to_string(),
        args: strings(&["-N", "db"]),
        kill_command: "pkill".to_string(),
        kill_args: strings(&["-f", "db"]),
        separator_after: Some(true),
        group_header: Some("Tunnels".to_string()),
        group_icon: None,
    };
    let copy = tunnel.clone();
    assert_eq!(copy.name, "Database");
    assert_eq!(copy.command, "ssh");
    assert_eq!(copy.args, strings(&["-N", "db"]));
    assert_eq!(copy.kill_command, "pkill");
    assert_eq!(copy.kill_args, strings(&["-f", "db"]));
    assert_eq!(copy.separator_after, Some(true));
    assert_eq!(copy.group_header, Some("Tunnels".to_string()));
    assert_eq!(copy.group_icon, None);

    let task = ScheduledTaskConfig {
        name: "Backup".to_string(),
        command: "tar".to_string(),
        args: strings(&["czf", "/tmp/x.tgz"]),
        cron_schedule: "0 6 * * *".to_string(),
        separator_after: None,
        group_header: None,
        group_icon: Some("sf:clock.fill".to_string()),
    };
    let copy = task.clone();
    assert_eq!(copy.name, "Backup");
    assert_eq!(copy.command, "tar");
    assert_eq!(copy.args, strings(&["czf", "/tmp/x.tgz"]));
    assert_eq!(copy.cron_schedule, "0 6 * * *");
    assert_eq!(copy.group_icon, Some("sf:clock.fill".to_string()));
}

#[test]
fn tunnel_commands_fall_back_to_the_default_path() {
    assert_eq!(DEFAULT_PATH, "/bin:/usr/bin:/usr/local/bin:/sbin:/usr/sbin:/opt/homebrew/bin");
    assert_eq!(configured_path(None, Some("/usr/bin")), DEFAULT_PATH);
    assert_eq!(configured_path(None, None), DEFAULT_PATH);
    let mut config = Config::default();
    assert_eq!(configured_path(Some(&config), Some("/usr/bin")), "/usr/bin");
    assert_eq!(configured_path(Some(&config), None), "");
    config.path = Some("/opt/bin".to_string());
    assert_eq!(configured_path(Some(&config), Some("/usr/bin")), "/opt/bin");
}
