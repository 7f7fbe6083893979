use pkg_sweep::command::{
    existence_check_command, listing_command, removal_command, version_check_command, CommandLine,
};
use pkg_sweep::manager::PackageManagerKind;

fn line(program: &str, args: &[&str]) -> CommandLine {
    CommandLine { program: program.to_string(), args: args.iter().map(|arg| arg.to_string()).collect() }
}

#[test]
fn version_checks_by_manager() {
    assert_eq!(version_check_command(PackageManagerKind::Apt), line("apt-get", &["--version"]));
    assert_eq!(version_check_command(PackageManagerKind::Dnf), line("dnf", &["--version"]));
    assert_eq!(version_check_command(PackageManagerKind::Yum), line("yum", &["--version"]));
    assert_eq!(version_check_command(PackageManagerKind::Pacman), line("pacman", &["--version"]));
    assert_eq!(version_check_command(PackageManagerKind::Zypper), line("zypper", &["--version"]));
}

#[test]
fn listing_commands_by_manager() {
    assert_eq!(
        listing_command(PackageManagerKind::Apt),
        line("sh", &["-c", "dpkg -l | awk '/^ii/ {print $2}'"])
    );
    assert_eq!(listing_command(PackageManagerKind::Pacman), line("sh", &["-c", "pacman -Q | awk '{print $1}'"]));
    let rpm = line("rpm", &["-qa", "--qf", "%{NAME}\\n"]);
    assert_eq!(listing_command(PackageManagerKind::Dnf), rpm);
    assert_eq!(listing_command(PackageManagerKind::Yum), rpm);
    assert_eq!(listing_command(PackageManagerKind::Zypper), rpm);
}

#[test]
fn existence_checks_by_manager() {
    assert_eq!(existence_check_command(PackageManagerKind::Apt, "foo"), line("apt-cache", &["search", "^foo$"]));
    assert_eq!(existence_check_command(PackageManagerKind::Dnf, "foo"), line("dnf", &["search", "foo", "--cve"]));
    assert_eq!(existence_check_command(PackageManagerKind::Yum, "foo"), line("yum", &["search", "foo"]));
    assert_eq!(existence_check_command(PackageManagerKind::Pacman, "foo"), line("pacman", &["-Ss", "^foo$"]));
    assert_eq!(existence_check_command(PackageManagerKind::Zypper, "foo"), line("zypper", &["search", "foo"]));
}

#[test]
fn removals_by_manager() {
    assert_eq!(removal_command(PackageManagerKind::Apt, "foo"), line("sudo", &["apt-get", "remove", "-y", "foo"]));
    assert_eq!(removal_command(PackageManagerKind::Dnf, "foo"), line("sudo", &["dnf", "remove", "-y", "foo"]));
    assert_eq!(removal_command(PackageManagerKind::Yum, "foo"), line("sudo", &["yum", "remove", "-y", "foo"]));
    assert_eq!(
        removal_command(PackageManagerKind::Pacman, "foo"),
        line("sudo", &["pacman", "-R", "--noconfirm", "foo"])
    );
    assert_eq!(
        removal_command(PackageManagerKind::Zypper, "foo"),
        line("sudo", &["zypper", "remove", "-y", "foo"])
    );
}

#[test]
fn a_package_name_stays_one_argument() {
    let name = "foo; rm -rf / $(reboot) 'x' \"y\" | z";
    for kind in PackageManagerKind::candidates() {
        let removal = removal_command(kind, name);
        assert_eq!(removal.program, "sudo");
        assert_eq!(removal.args.len(), 4);
        assert_eq!(removal.args[3], name);
        let plain = removal_command(kind, "foo");
        assert_eq!(removal.args[..3], plain.args[..3]);

        let search = existence_check_command(kind, name);
        let plain = existence_check_command(kind, "foo");
        assert_eq!(search.program, plain.program);
        assert_eq!(search.args.len(), plain.args.len());
        assert!(search.args[1].contains(name));
        for index in 0..search.args.len() {
            if index != 1 {
                assert_eq!(search.args[index], plain.args[index]);
            }
        }
    }
}

#[test]
fn an_empty_package_name_is_passed_on_as_it_is() {
    assert_eq!(existence_check_command(PackageManagerKind::Apt, ""), line("apt-cache", &["search", "^$"]));
    assert_eq!(removal_command(PackageManagerKind::Dnf, ""), line("sudo", &["dnf", "remove", "-y", ""]));
}
