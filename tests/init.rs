use control::init::{basename, initial_reboot_command, mode, mount_point, reboot_command, Mode};

fn args(v: &[&str]) -> Vec<String> {
    v.iter().map(|x| x.to_string()).collect()
}

#[test]
fn personalities() {
    assert_eq!(mode(&args(&["/sbin/halt"])), Mode::Halt);
    assert_eq!(mode(&args(&["reboot"])), Mode::Reboot);
    assert_eq!(mode(&args(&["/sbin/definite", "halt"])), Mode::Halt);
    assert_eq!(mode(&args(&["/sbin/definite", "/x/reboot"])), Mode::Reboot);
    assert_eq!(mode(&args(&["/sbin/definite"])), Mode::Definite);
    assert_eq!(mode(&args(&["/sbin/definite", "other"])), Mode::Definite);
    assert_eq!(mode(&args(&[])), Mode::Definite);
}

#[test]
fn basenames() {
    assert_eq!(basename("/usr/sbin/halt"), "halt");
    assert_eq!(basename("halt"), "halt");
    assert_eq!(basename("/a/b/"), "");
}

#[test]
fn mount_points() {
    assert_eq!(mount_point("proc /proc proc rw 0 0"), Some("/proc".to_string()));
    assert_eq!(mount_point("tmpfs /run"), Some("/run".to_string()));
    assert_eq!(mount_point("nofields"), None);
}

#[test]
fn reboot_directives() {
    assert_eq!(reboot_command(15), 0x4321FEDC);
    assert_eq!(reboot_command(10), 0x01234567);
    assert_eq!(initial_reboot_command(), 0x01234567);
}
