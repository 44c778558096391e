use iptables_compose::command::{
    access_command, bare_policy_command, borrowed, match_command, policy_command,
    redirect_command, reverse_command,
};
use iptables_compose::error::{Error, ErrorKind};
use iptables_compose::fields::{
    read_addresses, read_allows, read_direction, read_protocol, read_states,
};
use iptables_compose::listing::{write_list, Listing};
use iptables_compose::ports::{access_rule, read_port_argument, read_redirect_target, redirect_rule};
use iptables_compose::tree::Node;
use iptables_compose::vocabulary::{
    names_filter, protocol_known, verdict_text, Action, Direction,
};

fn text(s: &str) -> Node {
    Node::Text(s.to_string())
}

fn rule(fields: Vec<(&str, Node)>) -> Node {
    Node::Mapping(fields.into_iter().map(|(k, v)| (text(k), v)).collect())
}

fn error(kind: ErrorKind, subject: &str) -> Error {
    Error { kind, subject: subject.to_string() }
}

#[test]
fn field_is_found_by_its_name() {
    let entry = rule(vec![("a", Node::Integer(1)), ("b", text("two")), ("c", Node::BadValue)]);
    assert_eq!(entry.get("a"), Some(&Node::Integer(1)));
    assert_eq!(entry.get("b"), Some(&text("two")));
    assert_eq!(entry.get("c"), None);
    assert_eq!(entry.get("d"), None);
    assert_eq!(entry.get("A"), None);
    assert_eq!(text("a").get("a"), None);
    assert_eq!(Node::Sequence(vec![text("a")]).get("a"), None);
}

#[test]
fn key_that_is_no_text_is_passed_over() {
    let entry = Node::Mapping(vec![
        (Node::Integer(1), text("number")),
        (Node::Null, text("null")),
        (text("1"), text("text")),
    ]);
    assert_eq!(entry.get("1"), Some(&text("text")));
}

#[test]
fn field_with_a_default() {
    let entry = rule(vec![("name", text("x")), ("count", Node::Integer(3)), ("on", Node::Boolean(false))]);
    assert_eq!(entry.text_or("name", "none"), "x");
    assert_eq!(entry.text_or("count", "none"), "none");
    assert_eq!(entry.text_or("absent", "none"), "none");
    assert!(!entry.flag_or("on", true));
    assert!(entry.flag_or("name", true));
    assert!(!entry.flag_or("absent", false));
}

#[test]
fn node_kinds() {
    assert!(Node::BadValue.is_badvalue());
    assert!(!Node::Null.is_badvalue());
    assert!(Node::Mapping(vec![]).is_mapping());
    assert!(!Node::Sequence(vec![]).is_mapping());
}

#[test]
fn copy_of_a_node_is_equal_to_it() {
    let doc = rule(vec![
        ("a", Node::Sequence(vec![Node::Integer(1), Node::Real("1.5".to_string()), Node::Null])),
        ("b", rule(vec![("c", Node::Boolean(true)), ("d", Node::Alias(2)), ("e", Node::BadValue)])),
    ]);
    assert_eq!(doc.clone(), doc);
}

#[test]
fn lists_are_joined_by_commas() {
    let items = vec![text("a"), text("b"), text("c")];
    assert_eq!(write_list(Listing::States, &items), Some("a,b,c".to_string()));
    assert_eq!(write_list(Listing::Addresses, &items), Some("a,b,c".to_string()));
    assert_eq!(write_list(Listing::Ports, &items), Some("a,b,c".to_string()));
    assert_eq!(write_list(Listing::States, &vec![text("only")]), Some("only".to_string()));
    assert_eq!(write_list(Listing::States, &vec![]), Some("".to_string()));
    assert_eq!(write_list(Listing::States, &vec![text(""), text("")]), Some(",".to_string()));
}

#[test]
fn lists_read_their_items_by_their_kind() {
    let items = vec![text("a"), Node::Integer(7)];
    assert_eq!(write_list(Listing::States, &items), None);
    assert_eq!(write_list(Listing::Addresses, &items), Some("a,0.0.0.0/0".to_string()));
    assert_eq!(write_list(Listing::Ports, &items), Some("a,7".to_string()));
    let items = vec![Node::Boolean(true)];
    assert_eq!(write_list(Listing::States, &items), None);
    assert_eq!(write_list(Listing::Addresses, &items), Some("0.0.0.0/0".to_string()));
    assert_eq!(write_list(Listing::Ports, &items), None);
}

#[test]
fn shared_fields() {
    let entry = rule(vec![
        ("type", text("Output")),
        ("protocol", text("Udp")),
        ("allow", Node::Boolean(false)),
        ("state", Node::Sequence(vec![text("NEW")])),
        ("src", Node::Sequence(vec![text("10.0.0.1"), text("10.0.0.2")])),
    ]);
    assert_eq!(read_direction(&entry), Ok(Direction::Output));
    assert_eq!(read_protocol(&entry), Ok("Udp"));
    assert!(!read_allows(&entry));
    assert_eq!(read_states(&entry, "state"), Ok(Some("NEW".to_string())));
    assert_eq!(read_states(&entry, "ctstate"), Ok(None));
    assert_eq!(read_addresses(&entry, "src"), Some("10.0.0.1,10.0.0.2".to_string()));
    assert_eq!(read_addresses(&entry, "dst"), None);
}

#[test]
fn shared_fields_have_defaults() {
    let entry = rule(vec![("state", text("NEW")), ("src", text("10.0.0.1"))]);
    assert_eq!(read_direction(&entry), Ok(Direction::Input));
    assert_eq!(read_protocol(&entry), Ok("tcp"));
    assert!(read_allows(&entry));
    assert_eq!(read_states(&entry, "state"), Ok(None));
    assert_eq!(read_addresses(&entry, "src"), None);
}

#[test]
fn shared_fields_are_held_to_their_vocabulary() {
    let entry = rule(vec![
        ("type", text("in")),
        ("protocol", text("tcpp")),
        ("state", Node::Sequence(vec![text("NEW"), Node::Integer(1)])),
    ]);
    assert_eq!(read_direction(&entry), Err(error(ErrorKind::InvalidEnum, "type")));
    assert_eq!(read_protocol(&entry), Err(error(ErrorKind::InvalidEnum, "protocol")));
    assert_eq!(read_states(&entry, "state"), Err(error(ErrorKind::InvalidShape, "state")));
}

#[test]
fn port_argument() {
    assert_eq!(read_port_argument(&rule(vec![("port", Node::Integer(8080))])), Ok(" --dport 8080".to_string()));
    assert_eq!(
        read_port_argument(&rule(vec![("ports", Node::Sequence(vec![Node::Integer(1), text("2:3")]))])),
        Ok(" -m multiport --dports 1,2:3".to_string())
    );
    assert_eq!(read_port_argument(&rule(vec![("ports", Node::Integer(1))])), Ok("".to_string()));
    assert_eq!(read_port_argument(&rule(vec![])), Err(error(ErrorKind::MissingField, "port")));
    assert_eq!(
        read_port_argument(&rule(vec![("port", Node::Integer(-1)), ("ports", Node::Sequence(vec![]))])),
        Err(error(ErrorKind::InvalidRange, "port"))
    );
}

#[test]
fn redirect_target() {
    assert_eq!(read_redirect_target(&rule(vec![("forward", Node::Integer(0))])), Ok(0));
    assert_eq!(read_redirect_target(&rule(vec![("forward", Node::Integer(8080))])), Ok(8080));
    assert_eq!(
        read_redirect_target(&rule(vec![("forward", Node::Integer(-1))])),
        Err(error(ErrorKind::InvalidRange, "forward"))
    );
    assert_eq!(
        read_redirect_target(&rule(vec![("forward", Node::Null)])),
        Err(error(ErrorKind::InvalidShape, "forward"))
    );
}

#[test]
fn rules_of_either_kind() {
    let entry = rule(vec![("forward", Node::Integer(81)), ("allow", Node::Boolean(false))]);
    assert_eq!(
        redirect_rule(&entry, " --dport 80"),
        Ok(vec!["iptables -t nat -A PREROUTING -p tcp --dport 80 -j REDIRECT --to-port 81".to_string()])
    );
    assert_eq!(
        access_rule(&entry, " --dport 80"),
        Ok(vec!["iptables -A INPUT -p tcp --dport 80 -j DROP".to_string()])
    );
}

#[test]
fn command_lines() {
    assert_eq!(policy_command(Direction::Output, Action::Reject), "iptables -P OUTPUT REJECT");
    assert_eq!(bare_policy_command("mine"), "iptables -P MINE");
    assert_eq!(
        match_command(Direction::Input, "state", Some("A,B"), Some("C"), true),
        "iptables -I INPUT -m state --state A,B --ctstate C -j ACCEPT"
    );
    assert_eq!(
        match_command(Direction::Forward, "state", None, None, false),
        "iptables -I FORWARD -m state -j DROP"
    );
    assert_eq!(
        access_command(Direction::Input, Some("S"), Some("D"), "tcp", Some("NEW"), " --dport 1", false),
        "iptables -A INPUT -s S -d D -p tcp -m state --state NEW --dport 1 -j DROP"
    );
    assert_eq!(
        access_command(Direction::Output, None, Some("D"), "udp", None, "", true),
        "iptables -A OUTPUT -d D -p udp -j ACCEPT"
    );
    assert_eq!(
        reverse_command(Direction::Input, Some("S"), Some("D"), "tcp"),
        "iptables -I INPUT -d S -s D -p tcp -j ACCEPT"
    );
    assert_eq!(reverse_command(Direction::Output, None, None, "udp"), "iptables -I OUTPUT -p udp -j ACCEPT");
    assert_eq!(
        redirect_command(Some("S"), None, "tcp", " --dport 80", 8080),
        "iptables -t nat -A PREROUTING -s S -p tcp --dport 80 -j REDIRECT --to-port 8080"
    );
}

#[test]
fn small_words() {
    assert_eq!(verdict_text(true), "ACCEPT");
    assert_eq!(verdict_text(false), "DROP");
    assert!(protocol_known("tcp"));
    assert!(protocol_known("UDP"));
    assert!(!protocol_known("sctp"));
    assert!(names_filter("Filter"));
    assert!(!names_filter("filters"));
    assert_eq!(borrowed(&Some("a".to_string())), Some("a"));
    assert_eq!(borrowed(&None), None);
}
