use no_more_termius::ssh_config::{expand_tilde, parse, to_connections};

const FIXTURE: &str = r#"
# global defaults
Host *
	IdentityAgent "~/Library/Group Containers/2BUA8C4S2C.com.1password/t/agent.sock"

Host web
	HostName 10.1.2.3
	User deploy
	Port 2222
	IdentityFile ~/.ssh/web-key
	IdentityFile ~/.ssh/second-key-ignored

Host 195.201.16.40
	User root

Host alpha beta gam*ma
	HostName shared.example.com
	User shared

Match user root
	Port 9999

Host quoted
	IdentityFile "~/chaves/my key.pem"

Host equals=host
"#;

#[test]
fn parses_fixture() {
    let hosts = parse(FIXTURE);
    let aliases: Vec<&str> = hosts.iter().map(|h| h.alias.as_str()).collect();
    assert_eq!(aliases, vec!["web", "195.201.16.40", "alpha", "beta", "quoted", "equals=host"]);

    let web = &hosts[0];
    assert_eq!(web.host_name.as_deref(), Some("10.1.2.3"));
    assert_eq!(web.user.as_deref(), Some("deploy"));
    assert_eq!(web.port, Some(2222));
    assert_eq!(web.identity_file.as_deref(), Some("~/.ssh/web-key"));

    assert_eq!(hosts[1].port, None);

    assert_eq!(hosts[2].host_name.as_deref(), Some("shared.example.com"));
    assert_eq!(hosts[3].host_name.as_deref(), Some("shared.example.com"));

    assert_eq!(hosts[4].identity_file.as_deref(), Some("~/chaves/my key.pem"));
}

#[test]
fn hostname_defaults_to_alias_and_tilde_expands() {
    let hosts = parse("Host bare\n\tUser me\n\tIdentityFile ~/.ssh/k\n");
    let conns = to_connections(hosts, "/home/me");
    assert_eq!(conns.len(), 1);
    assert_eq!(conns[0].name, "bare");
    assert_eq!(conns[0].host, "bare");
    assert_eq!(conns[0].port, 22);
    assert_eq!(conns[0].identity_file.as_deref(), Some("/home/me/.ssh/k"));
}

#[test]
fn duplicate_aliases_keep_first() {
    let hosts = parse("Host dup\n\tHostName first\nHost dup\n\tHostName second\n");
    let conns = to_connections(hosts, "/home/me");
    assert_eq!(conns.len(), 1);
    assert_eq!(conns[0].host, "first");
}

#[test]
fn empty_or_garbage_config() {
    assert!(parse("").is_empty());
    assert!(parse("# only comments\n\n").is_empty());
    assert!(parse("Host *\n\tUser x\n").is_empty());
}

#[test]
fn tilde_forms() {
    assert_eq!(expand_tilde("~", "/home/me"), "/home/me");
    assert_eq!(expand_tilde("~/x/y", "/home/me"), "/home/me/x/y");
    assert_eq!(expand_tilde("/abs/k", "/home/me"), "/abs/k");
    assert_eq!(expand_tilde("~other/k", "/home/me"), "~other/k");
}

#[test]
fn keywords_are_case_insensitive_and_bad_ports_ignored() {
    let hosts = parse("HOST a\n  hostname = 1.2.3.4\n  PORT nope\n  Port 70000\n  port 8022\n");
    assert_eq!(hosts.len(), 1);
    assert_eq!(hosts[0].host_name.as_deref(), Some("1.2.3.4"));
    assert_eq!(hosts[0].port, Some(8022));
}

#[test]
fn negated_patterns_are_skipped() {
    let hosts = parse("Host !bad good ?x\n");
    let aliases: Vec<&str> = hosts.iter().map(|h| h.alias.as_str()).collect();
    assert_eq!(aliases, vec!["good"]);
}
