use yaf::facts::{
    fact_or_not_available, get_distro, get_hostname, get_username, join_parts, kernel_release,
    package_summary,
    shell_name, uptime_text, PackageCounts,
};

#[test]
fn uptime_in_words() {
    assert_eq!(uptime_text(0), "0 minutes");
    assert_eq!(uptime_text(59), "0 minutes");
    assert_eq!(uptime_text(60), "1 minute");
    assert_eq!(uptime_text(120), "2 minutes");
    assert_eq!(uptime_text(3600), "1 hour");
    assert_eq!(uptime_text(86400), "1 day");
    assert_eq!(uptime_text(90061), "1 day, 1 hour, 1 minute");
    assert_eq!(uptime_text(2 * 86400 + 3 * 3600), "2 days, 3 hours");
    assert_eq!(uptime_text(2 * 86400 + 5 * 60), "2 days, 5 minutes");
}

fn counts(pacman: u64, xbps: u64, apt: u64, flatpak: u64, nix: u64) -> PackageCounts {
    PackageCounts { pacman, xbps, apt, flatpak, nix }
}

#[test]
fn package_summaries() {
    assert_eq!(package_summary(&counts(0, 0, 0, 0, 0)), "N/A");
    assert_eq!(package_summary(&counts(10, 0, 0, 0, 3)), "10 (pacman), 3 (nix)");
    assert_eq!(
        package_summary(&counts(1, 2, 3, 4, 5)),
        "1 (pacman), 2 (xbps), 3 (apt), 4 (flatpak), 5 (nix)"
    );
    assert_eq!(package_summary(&counts(0, 0, 1234, 0, 0)), "1234 (apt)");
}

#[test]
fn shell_names() {
    assert_eq!(shell_name("/usr/bin/zsh"), "zsh");
    assert_eq!(shell_name("bash"), "bash");
    assert_eq!(shell_name("/bin/"), "");
    assert_eq!(shell_name(""), "");
}

#[test]
fn joining() {
    let parts = vec![String::from("a"), String::from("b"), String::from("c")];
    assert_eq!(join_parts(&parts, ", "), "a, b, c");
    assert_eq!(join_parts(&vec![], ", "), "");
    assert_eq!(join_parts(&vec![String::from("x")], "-"), "x");
}

#[test]
fn not_available_marker() {
    assert_eq!(fact_or_not_available(None), "N/A");
    assert_eq!(fact_or_not_available(Some(String::from("arch"))), "arch");
}

#[test]
fn system_facts_are_not_empty() {
    assert!(!get_username().is_empty());
    assert!(!get_hostname().is_empty());
    assert!(!get_distro().is_empty());
}

#[test]
fn kernel_release_is_third_word() {
    assert_eq!(
        kernel_release("Linux version 6.1.0-arch1 (builder@host) (gcc 13) #1 SMP\n"),
        "6.1.0-arch1"
    );
    assert_eq!(kernel_release("  Linux \t version\n 5.4 "), "5.4");
    assert_eq!(kernel_release("Linux version"), "Linux version");
    assert_eq!(kernel_release(""), "");
}
