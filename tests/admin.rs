use wadm_terminal::db::{mysql_databases, postgres_databases};
use wadm_terminal::docker::{ContainerAction, ContainerOp, DockerStatus};
use wadm_terminal::firewall::{FirewallAction, FirewallRuleData, FirewallStatus};
use wadm_terminal::monitor::{interface_speed, ProcessAction};
use wadm_terminal::services::{list_services_from, name_less, Service, ServiceControl};
use wadm_terminal::text::{chars_of, contains_text, line_count, lines_of, trim_of};

fn s(x: &str) -> String {
    x.to_string()
}

fn svc(name: &str, status: &str, description: &str) -> Service {
    Service { name: s(name), status: s(status), description: s(description) }
}

#[test]
fn lines_match_str_lines() {
    for t in ["", "a", "a\n", "a\r\nb\r\n", "a\r\n\r\nb", "x\ry\n", "end\r", "\n\n", "\r\n"] {
        let expected: Vec<String> = t.lines().map(|l| l.to_string()).collect();
        let got: Vec<String> = lines_of(&chars_of(t)).into_iter().map(|c| c.into_iter().collect()).collect();
        assert_eq!(got, expected, "input {:?}", t);
        assert_eq!(line_count(t), t.lines().count());
    }
}

#[test]
fn trim_matches_str_trim() {
    for t in ["", "   ", " active\n", "\tDocker version 24.0.7, build afdd53b\n", "a b", "\u{3000}x\u{a0}"] {
        let got: String = trim_of(&chars_of(t)).into_iter().collect();
        assert_eq!(got, t.trim());
    }
}

#[test]
fn contains_finds_substrings() {
    let hay = chars_of("Status: active\n");
    assert!(contains_text(&hay, &chars_of("Status: active")));
    assert!(contains_text(&hay, &chars_of("")));
    assert!(!contains_text(&hay, &chars_of("Status: inactive")));
    assert!(!contains_text(&chars_of("ab"), &chars_of("abc")));
}

#[test]
fn ufw_status_is_read() {
    let out = "Status: active\n\n     To                         Action      From\n     --                         ------      ----\n[ 1] 22/tcp                     ALLOW IN    Anywhere\n[ 2] 80/tcp                     ALLOW IN    Anywhere\n";
    let st = FirewallStatus::from_ufw_output(out);
    assert!(st.active);
    assert!(st.installed);
    assert_eq!(
        st.rules,
        vec![
            s("[ 1] 22/tcp                     ALLOW IN    Anywhere"),
            s("[ 2] 80/tcp                     ALLOW IN    Anywhere"),
        ]
    );
    let off = FirewallStatus::from_ufw_output("Status: inactive\n");
    assert!(!off.active);
    assert!(off.rules.is_empty());
    assert_eq!(FirewallStatus::not_installed(), FirewallStatus { active: false, rules: vec![], installed: false });
}

#[test]
fn firewall_requests() {
    assert!(FirewallAction { action: s("enable") }.enables());
    assert!(!FirewallAction { action: s("disable") }.enables());
    assert!(!FirewallAction { action: s("Enable") }.enables());
    assert_eq!(FirewallRuleData { rule: s("allow 22/tcp") }.rule_words(), Some(vec![s("allow"), s("22/tcp")]));
    assert_eq!(FirewallRuleData { rule: s("  ") }.rule_words(), None);
    assert_eq!(FirewallRuleData { rule: s("") }.rule_words(), None);
}

#[test]
fn docker_status_from_probes() {
    let st = DockerStatus::from_probe(true, Some("active\n"), Some("Docker version 24.0.7, build afdd53b\n"));
    assert_eq!(st, DockerStatus { installed: true, running: true, version: s("Docker version 24.0.7, build afdd53b") });
    let stopped = DockerStatus::from_probe(true, Some("inactive\n"), None);
    assert_eq!(stopped, DockerStatus { installed: true, running: false, version: s("") });
    let absent = DockerStatus::from_probe(false, Some("active"), Some("Docker"));
    assert_eq!(absent, DockerStatus { installed: false, running: false, version: s("") });
}

#[test]
fn container_actions() {
    assert_eq!(ContainerAction { action: s("start") }.op(), Some(ContainerOp::Start));
    assert_eq!(ContainerAction { action: s("stop") }.op(), Some(ContainerOp::Stop));
    assert_eq!(ContainerAction { action: s("restart") }.op(), Some(ContainerOp::Restart));
    assert_eq!(ContainerAction { action: s("kill") }.op(), None);
}

#[test]
fn service_actions() {
    for a in ["start", "stop", "restart", "enable"] {
        assert!(ServiceControl { action: s(a) }.is_permitted());
    }
    for a in ["disable", "mask", "", "Start"] {
        assert!(!ServiceControl { action: s(a) }.is_permitted());
    }
}

#[test]
fn kill_signal_selection() {
    assert_eq!(ProcessAction { pid: 1, signal: s("SIGKILL") }.signal_number(), 9);
    assert_eq!(ProcessAction { pid: 1, signal: s("SIGTERM") }.signal_number(), 15);
    assert_eq!(ProcessAction { pid: 1, signal: s("HUP") }.signal_number(), 15);
}

#[test]
fn name_order_is_string_order() {
    let names = ["", "a", "ab", "b", "B", "é", "z", "sshd.service", "ssh.service"];
    for x in names {
        for y in names {
            assert_eq!(name_less(&chars_of(x), &chars_of(y)), x < y, "{:?} {:?}", x, y);
        }
    }
}

#[test]
fn services_are_listed_and_sorted() {
    let units = "sshd.service loaded active running OpenSSH Daemon\n\
                 cron.service loaded inactive dead Regular background program processing daemon\n\
                 dbus-broker.service loaded active running D-Bus\n\
                 nginx.service loaded failed failed A high performance web server\n\
                 odd.service loaded active waiting\n\
                 short line\n\n";
    let files = "sshd.service enabled enabled\n\
                 apache2.service disabled enabled\n\
                 user@.service static -\n\
                 zebra.service masked\n\
                 lonely\n";
    assert_eq!(
        list_services_from(Some(units), Some(files)),
        vec![
            svc("apache2.service", "Stopped", "Available (Not Loaded)"),
            svc("cron.service", "Stopped", "Regular background program processing daemon"),
            svc("nginx.service", "Failed", "A high performance web server"),
            svc("odd.service", "waiting", ""),
            svc("sshd.service", "Active (Running)", "OpenSSH Daemon"),
            svc("zebra.service", "Stopped", "Available (Not Loaded)"),
        ]
    );
}

#[test]
fn services_listing_without_output() {
    assert_eq!(list_services_from(None, None), vec![]);
    assert_eq!(
        list_services_from(None, Some("b.service x\na.service y\n")),
        vec![
            svc("a.service", "Stopped", "Available (Not Loaded)"),
            svc("b.service", "Stopped", "Available (Not Loaded)"),
        ]
    );
    assert_eq!(
        list_services_from(Some("x.service l a exited One-shot   job\n"), None),
        vec![svc("x.service", "Active (Exited)", "One-shot job")]
    );
}

#[test]
fn mysql_listing_skips_header_and_blank_lines() {
    let dbs = mysql_databases("Database\ninformation_schema\n  shop  \n\n   \nmysql\n");
    let names: Vec<&str> = dbs.iter().map(|d| d.name.as_str()).collect();
    assert_eq!(names, vec!["information_schema", "shop", "mysql"]);
    assert!(dbs.iter().all(|d| d.engine == "mysql" && d.size == "-"));
    assert!(mysql_databases("").is_empty());
    assert!(mysql_databases("Database\n").is_empty());
}

#[test]
fn postgres_listing_takes_the_first_field() {
    let dbs = postgres_databases("postgres|postgres|UTF8|C|C|\ntemplate1|postgres|UTF8\nplain\n\n");
    let names: Vec<&str> = dbs.iter().map(|d| d.name.as_str()).collect();
    assert_eq!(names, vec!["postgres", "template1", "plain", ""]);
    assert!(dbs.iter().all(|d| d.engine == "postgres" && d.size == "-"));
}

#[test]
fn link_speed_from_sysfs() {
    assert_eq!(interface_speed("eth0", Some("1000\n")), 125_000_000);
    assert_eq!(interface_speed("eth0", Some("  100 ")), 12_500_000);
    assert_eq!(interface_speed("eth0", Some("-1\n")), 125_000_000);
    assert_eq!(interface_speed("eth0", Some("")), 125_000_000);
    assert_eq!(interface_speed("eth0", None), 125_000_000);
    assert_eq!(interface_speed("", Some("10")), 125_000_000);
    assert_eq!(interface_speed("eth0", Some("10000")), 1_250_000_000);
    assert_eq!(interface_speed("eth0", Some("18446744073709551615")), u64::MAX);
}
