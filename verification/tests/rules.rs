use iptables_compose::error::{Error, ErrorKind};
use iptables_compose::matches::{parse_match, parse_match_item};
use iptables_compose::ports::{parse_port_item, parse_ports};
use iptables_compose::raw::{parse_raw, parse_raw_item};
use iptables_compose::tree::Node;

fn text(s: &str) -> Node {
    Node::Text(s.to_string())
}

fn list(items: Vec<Node>) -> Node {
    Node::Sequence(items)
}

fn texts(items: &[&str]) -> Node {
    Node::Sequence(items.iter().map(|s| text(s)).collect())
}

fn rule(fields: Vec<(&str, Node)>) -> Node {
    Node::Mapping(fields.into_iter().map(|(k, v)| (text(k), v)).collect())
}

fn error(kind: ErrorKind, subject: &str) -> Error {
    Error { kind, subject: subject.to_string() }
}

#[test]
fn port_rule_that_allows_gives_two_commands() {
    let entry = rule(vec![
        ("port", Node::Integer(22)),
        ("src", texts(&["10.0.0.0/8"])),
        ("allow", Node::Boolean(true)),
    ]);
    assert_eq!(
        parse_port_item(&entry),
        Ok(vec![
            "iptables -A INPUT -s 10.0.0.0/8 -p tcp --dport 22 -j ACCEPT".to_string(),
            "iptables -I INPUT -d 10.0.0.0/8 -p tcp -j ACCEPT".to_string(),
        ])
    );
}

#[test]
fn port_rule_allows_by_default() {
    let entry = rule(vec![("port", Node::Integer(80))]);
    assert_eq!(
        parse_port_item(&entry),
        Ok(vec![
            "iptables -A INPUT -p tcp --dport 80 -j ACCEPT".to_string(),
            "iptables -I INPUT -p tcp -j ACCEPT".to_string(),
        ])
    );
}

#[test]
fn port_rule_that_denies_gives_one_command() {
    let entry = rule(vec![("port", Node::Integer(23)), ("allow", Node::Boolean(false))]);
    assert_eq!(
        parse_port_item(&entry),
        Ok(vec!["iptables -A INPUT -p tcp --dport 23 -j DROP".to_string()])
    );
}

#[test]
fn port_rule_with_forward_gives_one_command() {
    let entry = rule(vec![
        ("port", Node::Integer(80)),
        ("forward", Node::Integer(8080)),
        ("src", texts(&["192.168.0.0/16"])),
        ("dst", texts(&["10.1.1.1"])),
        ("protocol", text("udp")),
    ]);
    assert_eq!(
        parse_port_item(&entry),
        Ok(vec![
            "iptables -t nat -A PREROUTING -s 192.168.0.0/16 -d 10.1.1.1 -p udp --dport 80 -j REDIRECT --to-port 8080"
                .to_string(),
        ])
    );
}

#[test]
fn forward_rule_reads_neither_direction_nor_verdict_nor_state() {
    let entry = rule(vec![
        ("port", Node::Integer(80)),
        ("forward", Node::Integer(0)),
        ("type", text("sideways")),
        ("allow", Node::Boolean(false)),
        ("state", list(vec![Node::Integer(1)])),
    ]);
    assert_eq!(
        parse_port_item(&entry),
        Ok(vec!["iptables -t nat -A PREROUTING -p tcp --dport 80 -j REDIRECT --to-port 0".to_string()])
    );
}

#[test]
fn answers_swap_source_and_destination() {
    let entry = rule(vec![
        ("port", Node::Integer(443)),
        ("src", texts(&["A", "B"])),
        ("dst", texts(&["C"])),
    ]);
    let commands = parse_port_item(&entry).unwrap();
    assert_eq!(commands.len(), 2);
    assert!(commands[0].contains(" -s A,B -d C"));
    assert!(commands[1].contains(" -d A,B -s C"));
    assert_eq!(commands[0], "iptables -A INPUT -s A,B -d C -p tcp --dport 443 -j ACCEPT");
    assert_eq!(commands[1], "iptables -I INPUT -d A,B -s C -p tcp -j ACCEPT");
}

#[test]
fn answers_go_to_the_same_chain() {
    let entry = rule(vec![("port", Node::Integer(53)), ("type", text("output")), ("protocol", text("UDP"))]);
    assert_eq!(
        parse_port_item(&entry),
        Ok(vec![
            "iptables -A OUTPUT -p UDP --dport 53 -j ACCEPT".to_string(),
            "iptables -I OUTPUT -p UDP -j ACCEPT".to_string(),
        ])
    );
}

#[test]
fn state_goes_to_the_first_command_only() {
    let entry = rule(vec![
        ("port", Node::Integer(22)),
        ("type", text("Forward")),
        ("state", texts(&["NEW", "ESTABLISHED"])),
    ]);
    assert_eq!(
        parse_port_item(&entry),
        Ok(vec![
            "iptables -A FORWARD -p tcp -m state --state NEW,ESTABLISHED --dport 22 -j ACCEPT".to_string(),
            "iptables -I FORWARD -p tcp -j ACCEPT".to_string(),
        ])
    );
}

#[test]
fn address_that_is_no_text_stands_for_any_address() {
    let entry = rule(vec![
        ("port", Node::Integer(22)),
        ("src", list(vec![text("10.0.0.1"), Node::Integer(7), Node::Null])),
        ("allow", Node::Boolean(false)),
    ]);
    assert_eq!(
        parse_port_item(&entry),
        Ok(vec!["iptables -A INPUT -s 10.0.0.1,0.0.0.0/0,0.0.0.0/0 -p tcp --dport 22 -j DROP".to_string()])
    );
}

#[test]
fn several_ports_make_a_multiport_argument() {
    let entry = rule(vec![
        ("ports", list(vec![Node::Integer(80), text("443:500")])),
        ("allow", Node::Boolean(false)),
    ]);
    let commands = parse_port_item(&entry).unwrap();
    assert!(commands[0].contains(" -m multiport --dports 80,443:500"));
    assert_eq!(commands, vec!["iptables -A INPUT -p tcp -m multiport --dports 80,443:500 -j DROP".to_string()]);
}

#[test]
fn one_port_comes_before_several() {
    let entry = rule(vec![
        ("ports", list(vec![Node::Integer(80)])),
        ("port", Node::Integer(22)),
        ("allow", Node::Boolean(false)),
    ]);
    assert_eq!(
        parse_port_item(&entry),
        Ok(vec!["iptables -A INPUT -p tcp --dport 22 -j DROP".to_string()])
    );
}

#[test]
fn ports_that_are_no_list_name_no_port() {
    let entry = rule(vec![("ports", text("80")), ("allow", Node::Boolean(false))]);
    assert_eq!(parse_port_item(&entry), Ok(vec!["iptables -A INPUT -p tcp -j DROP".to_string()]));
}

#[test]
fn empty_list_of_ports_keeps_the_flag() {
    let entry = rule(vec![("ports", list(vec![])), ("allow", Node::Boolean(false))]);
    assert_eq!(
        parse_port_item(&entry),
        Ok(vec!["iptables -A INPUT -p tcp -m multiport --dports  -j DROP".to_string()])
    );
}

#[test]
fn negative_port_in_a_list_is_written_with_its_sign() {
    let entry = rule(vec![
        ("ports", list(vec![Node::Integer(-5), Node::Integer(i64::MIN), Node::Integer(i64::MAX)])),
        ("allow", Node::Boolean(false)),
    ]);
    assert_eq!(
        parse_port_item(&entry),
        Ok(vec![
            "iptables -A INPUT -p tcp -m multiport --dports -5,-9223372036854775808,9223372036854775807 -j DROP"
                .to_string(),
        ])
    );
}

#[test]
fn negative_port_is_out_of_range() {
    let entry = rule(vec![("port", Node::Integer(-1))]);
    assert_eq!(parse_port_item(&entry), Err(error(ErrorKind::InvalidRange, "port")));
}

#[test]
fn negative_forward_is_out_of_range() {
    let entry = rule(vec![("port", Node::Integer(80)), ("forward", Node::Integer(-1))]);
    assert_eq!(parse_port_item(&entry), Err(error(ErrorKind::InvalidRange, "forward")));
}

#[test]
fn rule_out_of_range_emits_nothing() {
    let rules = list(vec![
        rule(vec![("port", Node::Integer(22)), ("allow", Node::Boolean(false))]),
        rule(vec![("port", Node::Integer(-1))]),
        rule(vec![("port", Node::Integer(23)), ("allow", Node::Boolean(false))]),
    ]);
    let mut out = vec!["first".to_string()];
    assert_eq!(parse_ports(&rules, &mut out), Err(error(ErrorKind::InvalidRange, "port")));
    assert_eq!(out, vec!["first".to_string(), "iptables -A INPUT -p tcp --dport 22 -j DROP".to_string()]);
}

#[test]
fn port_zero_is_in_range() {
    let entry = rule(vec![("port", Node::Integer(0)), ("allow", Node::Boolean(false))]);
    assert_eq!(parse_port_item(&entry), Ok(vec!["iptables -A INPUT -p tcp --dport 0 -j DROP".to_string()]));
}

#[test]
fn port_rule_without_ports_misses_a_field() {
    let entry = rule(vec![("allow", Node::Boolean(true))]);
    assert_eq!(parse_port_item(&entry), Err(error(ErrorKind::MissingField, "port")));
    let entry = rule(vec![("forward", Node::Integer(-1))]);
    assert_eq!(parse_port_item(&entry), Err(error(ErrorKind::MissingField, "port")));
}

#[test]
fn field_that_holds_a_bad_value_counts_as_absent() {
    let entry = rule(vec![("port", Node::BadValue), ("ports", Node::BadValue)]);
    assert_eq!(parse_port_item(&entry), Err(error(ErrorKind::MissingField, "port")));
}

#[test]
fn port_that_is_no_integer_has_the_wrong_shape() {
    let entry = rule(vec![("port", text("22"))]);
    assert_eq!(parse_port_item(&entry), Err(error(ErrorKind::InvalidShape, "port")));
    let entry = rule(vec![("port", Node::Integer(22)), ("forward", text("80"))]);
    assert_eq!(parse_port_item(&entry), Err(error(ErrorKind::InvalidShape, "forward")));
    let entry = rule(vec![("ports", list(vec![Node::Boolean(true)]))]);
    assert_eq!(parse_port_item(&entry), Err(error(ErrorKind::InvalidShape, "ports")));
}

#[test]
fn port_rule_that_is_no_mapping_has_the_wrong_shape() {
    assert_eq!(parse_port_item(&text("22")), Err(error(ErrorKind::InvalidShape, "ports")));
    let mut out = Vec::new();
    assert_eq!(parse_ports(&text("22"), &mut out), Err(error(ErrorKind::InvalidShape, "ports")));
    assert!(out.is_empty());
}

#[test]
fn unknown_protocol_is_rejected() {
    let entry = rule(vec![("port", Node::Integer(22)), ("protocol", text("icmp"))]);
    assert_eq!(parse_port_item(&entry), Err(error(ErrorKind::InvalidEnum, "protocol")));
    let entry = rule(vec![
        ("port", Node::Integer(22)),
        ("forward", Node::Integer(-1)),
        ("protocol", text("icmp")),
    ]);
    assert_eq!(parse_port_item(&entry), Err(error(ErrorKind::InvalidEnum, "protocol")));
}

#[test]
fn unknown_direction_is_rejected() {
    let entry = rule(vec![("port", Node::Integer(22)), ("type", text("sideways"))]);
    assert_eq!(parse_port_item(&entry), Err(error(ErrorKind::InvalidEnum, "type")));
    let entry = rule(vec![("match", text("state")), ("type", text("inputs"))]);
    assert_eq!(parse_match_item(&entry), Err(error(ErrorKind::InvalidEnum, "type")));
}

#[test]
fn state_that_is_no_text_has_the_wrong_shape() {
    let entry = rule(vec![("port", Node::Integer(22)), ("state", list(vec![Node::Integer(1)]))]);
    assert_eq!(parse_port_item(&entry), Err(error(ErrorKind::InvalidShape, "state")));
    let entry = rule(vec![("match", text("state")), ("ctstate", list(vec![Node::Null]))]);
    assert_eq!(parse_match_item(&entry), Err(error(ErrorKind::InvalidShape, "ctstate")));
}

#[test]
fn match_rule_gives_one_command() {
    let entry = rule(vec![
        ("match", text("state")),
        ("state", texts(&["ESTABLISHED", "RELATED"])),
    ]);
    assert_eq!(
        parse_match_item(&entry),
        Ok("iptables -I INPUT -m state --state ESTABLISHED,RELATED -j ACCEPT".to_string())
    );
}

#[test]
fn match_rule_takes_both_kinds_of_state() {
    let entry = rule(vec![
        ("match", text("conntrack")),
        ("type", text("OUTPUT")),
        ("ctstate", texts(&["NEW"])),
        ("state", texts(&["NEW", "NEW"])),
        ("allow", Node::Boolean(false)),
    ]);
    assert_eq!(
        parse_match_item(&entry),
        Ok("iptables -I OUTPUT -m conntrack --state NEW,NEW --ctstate NEW -j DROP".to_string())
    );
}

#[test]
fn direction_is_input_where_no_type_is_given() {
    let entry = rule(vec![("match", text("state"))]);
    assert_eq!(parse_match_item(&entry), Ok("iptables -I INPUT -m state -j ACCEPT".to_string()));
    let entry = rule(vec![("match", text("state")), ("type", Node::Integer(3))]);
    assert_eq!(parse_match_item(&entry), Ok("iptables -I INPUT -m state -j ACCEPT".to_string()));
}

#[test]
fn direction_is_read_in_any_case() {
    let entry = rule(vec![("match", text("state")), ("type", text("fOrWaRd"))]);
    assert_eq!(parse_match_item(&entry), Ok("iptables -I FORWARD -m state -j ACCEPT".to_string()));
}

#[test]
fn match_rule_without_module_misses_a_field() {
    let entry = rule(vec![("type", text("sideways"))]);
    assert_eq!(parse_match_item(&entry), Err(error(ErrorKind::MissingField, "match")));
}

#[test]
fn module_that_is_no_text_has_the_wrong_shape() {
    let entry = rule(vec![("match", Node::Integer(1))]);
    assert_eq!(parse_match_item(&entry), Err(error(ErrorKind::InvalidShape, "match")));
    assert_eq!(parse_match_item(&list(vec![])), Err(error(ErrorKind::InvalidShape, "matches")));
}

#[test]
fn match_rules_keep_the_order_of_the_list() {
    let rules = list(vec![
        rule(vec![("match", text("one"))]),
        rule(vec![("match", text("two")), ("allow", Node::Boolean(false))]),
        rule(vec![("match", text("one"))]),
    ]);
    let mut out = Vec::new();
    assert_eq!(parse_match(&rules, &mut out), Ok(()));
    assert_eq!(
        out,
        vec![
            "iptables -I INPUT -m one -j ACCEPT".to_string(),
            "iptables -I INPUT -m two -j DROP".to_string(),
            "iptables -I INPUT -m one -j ACCEPT".to_string(),
        ]
    );
}

#[test]
fn match_rules_stop_at_the_first_fault() {
    let rules = list(vec![
        rule(vec![("match", text("one"))]),
        rule(vec![("type", text("input"))]),
        rule(vec![("match", text("three"))]),
    ]);
    let mut out = Vec::new();
    assert_eq!(parse_match(&rules, &mut out), Err(error(ErrorKind::MissingField, "match")));
    assert_eq!(out, vec!["iptables -I INPUT -m one -j ACCEPT".to_string()]);
    let mut out = Vec::new();
    assert_eq!(parse_match(&Node::Null, &mut out), Err(error(ErrorKind::InvalidShape, "matches")));
}

#[test]
fn raw_lines_pass_unchanged() {
    let lines = texts(&["iptables -N custom", "  spaced  out  ", ""]);
    let mut out = Vec::new();
    assert_eq!(parse_raw(&lines, &mut out), Ok(()));
    assert_eq!(out, vec!["iptables -N custom".to_string(), "  spaced  out  ".to_string(), "".to_string()]);
    assert_eq!(parse_raw_item(&text("iptables -F")), Ok("iptables -F".to_string()));
}

#[test]
fn raw_line_that_is_no_text_has_the_wrong_shape() {
    assert_eq!(parse_raw_item(&Node::Integer(1)), Err(error(ErrorKind::InvalidShape, "raw")));
    let lines = list(vec![text("a"), Node::Integer(1), text("b")]);
    let mut out = Vec::new();
    assert_eq!(parse_raw(&lines, &mut out), Err(error(ErrorKind::InvalidShape, "raw")));
    assert_eq!(out, vec!["a".to_string()]);
    let mut out = Vec::new();
    assert_eq!(parse_raw(&text("a"), &mut out), Err(error(ErrorKind::InvalidShape, "raw")));
}

#[test]
fn first_of_two_equal_keys_is_read() {
    let entry = rule(vec![("match", text("first")), ("match", text("second"))]);
    assert_eq!(parse_match_item(&entry), Ok("iptables -I INPUT -m first -j ACCEPT".to_string()));
}

#[test]
fn field_names_are_read_as_written() {
    let entry = rule(vec![("Match", text("state"))]);
    assert_eq!(parse_match_item(&entry), Err(error(ErrorKind::MissingField, "match")));
}
