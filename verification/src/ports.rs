//! Port rules: access to a port or a list of ports, allowed or denied, and
//! redirection of such traffic to another port of this host.

use vstd::prelude::*;
use crate::command::{
    access_command, access_line, borrowed, redirect_command, redirect_line, reverse_command,
    reverse_line,
};
use crate::emission::{
    appended, in_turn, lemma_in_turn_advance, lemma_in_turn_end, lemma_in_turn_stop,
    lemma_lines_appended, Emission,
};
use crate::error::{failure, outcome, Error, ErrorKind, Failure};
use crate::fields::{read_addresses, read_allows, read_direction, read_protocol, read_states};
use crate::listing::{csv, write_list, Listing};
use crate::text::{decimal, decimal_text};
use crate::tree::{lemma_sequence_view, trees_of, Node, Tree};

verus! {

impl Tree {
    /// The part of a port rule that names its ports. A field `port` holds one
    /// port, an integer not below zero. Without it, a field `ports` holds
    /// several, and where that field is no sequence the rule names no port.
    /// One of the two fields has to be there.
    pub open spec fn port_argument(self) -> Result<Seq<char>, Failure> {
        if self.has("port"@) {
            match self.field("port"@) {
                Tree::Integer(n) => if n >= 0 {
                    Ok(" --dport "@ + decimal(n))
                } else {
                    Err(failure(ErrorKind::InvalidRange, "port"@))
                },
                _ => Err(failure(ErrorKind::InvalidShape, "port"@)),
            }
        } else if self.has("ports"@) {
            match self.field("ports"@) {
                Tree::Sequence(items) => match csv(Listing::Ports, items) {
                    Some(list) => Ok(" -m multiport --dports "@ + list),
                    None => Err(failure(ErrorKind::InvalidShape, "ports"@)),
                },
                _ => Ok(Seq::empty()),
            }
        } else {
            Err(failure(ErrorKind::MissingField, "port"@))
        }
    }

    /// The port that a redirecting rule sends traffic to: its field
    /// `forward`, an integer not below zero.
    pub open spec fn redirect_target(self) -> Result<int, Failure> {
        match self.field("forward"@) {
            Tree::Integer(n) => if n >= 0 {
                Ok(n)
            } else {
                Err(failure(ErrorKind::InvalidRange, "forward"@))
            },
            _ => Err(failure(ErrorKind::InvalidShape, "forward"@)),
        }
    }

    /// The one command of a rule that redirects: neither a direction nor a
    /// verdict is read, and no second command stands for the answers.
    pub open spec fn redirect_rule(self, ports: Seq<char>) -> Result<Seq<Seq<char>>, Failure> {
        match self.protocol() {
            Err(f) => Err(f),
            Ok(protocol) => match self.redirect_target() {
                Err(f) => Err(f),
                Ok(target) => Ok(
                    seq![
                        redirect_line(
                            self.addresses("src"@),
                            self.addresses("dst"@),
                            protocol,
                            ports,
                            target,
                        ),
                    ],
                ),
            },
        }
    }

    /// The commands of a rule that allows or denies. One that denies is a
    /// single command. One that allows is followed by the command for the
    /// answers, on the same chain.
    pub open spec fn access_rule(self, ports: Seq<char>) -> Result<Seq<Seq<char>>, Failure> {
        match self.direction() {
            Err(f) => Err(f),
            Ok(direction) => match self.protocol() {
                Err(f) => Err(f),
                Ok(protocol) => match self.states("state"@) {
                    Err(f) => Err(f),
                    Ok(state) => {
                        let src = self.addresses("src"@);
                        let dst = self.addresses("dst"@);
                        let forth = access_line(
                            direction,
                            src,
                            dst,
                            protocol,
                            state,
                            ports,
                            self.allows(),
                        );
                        if self.allows() {
                            Ok(seq![forth, reverse_line(direction, src, dst, protocol)])
                        } else {
                            Ok(seq![forth])
                        }
                    },
                },
            },
        }
    }

    /// The commands of one port rule, or the first fault found in it. A rule
    /// with a field `forward` redirects; any other allows or denies.
    pub open spec fn port_rule(self) -> Result<Seq<Seq<char>>, Failure> {
        if !(self is Mapping) {
            Err(failure(ErrorKind::InvalidShape, "ports"@))
        } else {
            match self.port_argument() {
                Err(f) => Err(f),
                Ok(ports) => if self.has("forward"@) {
                    self.redirect_rule(ports)
                } else {
                    self.access_rule(ports)
                },
            }
        }
    }
}

/// What each rule of a list emits on its own.
pub open spec fn port_steps(items: Seq<Tree>) -> Seq<Emission> {
    Seq::new(items.len(), |i: int| Emission::of_lines(items[i].port_rule()))
}

impl Tree {
    /// The commands of a list of port rules, rule by rule in the order of the
    /// list, up to the first rule at fault.
    pub open spec fn port_rules(self) -> Emission {
        match self {
            Tree::Sequence(items) => in_turn(port_steps(items)),
            _ => Emission::failed(failure(ErrorKind::InvalidShape, "ports"@)),
        }
    }
}

/// The part of a port rule that names its ports, as it stands on the command
/// line.
pub fn read_port_argument(doc: &Node) -> (r: Result<String, Error>)
    ensures
        outcome(r) == doc@.port_argument(),
{
    match doc.get("port") {
        Some(Node::Integer(n)) => {
            if *n >= 0 {
                let mut argument = String::from_str(" --dport ");
                let numeral = decimal_text(*n);
                argument.append(numeral.as_str());
                Ok(argument)
            } else {
                Err(Error::new(ErrorKind::InvalidRange, "port"))
            }
        },
        Some(_) => Err(Error::new(ErrorKind::InvalidShape, "port")),
        None => match doc.get("ports") {
            Some(Node::Sequence(items)) => {
                proof {
                    lemma_sequence_view(*items);
                }
                match write_list(Listing::Ports, items) {
                    Some(list) => {
                        let mut argument = String::from_str(" -m multiport --dports ");
                        argument.append(list.as_str());
                        Ok(argument)
                    },
                    None => Err(Error::new(ErrorKind::InvalidShape, "ports")),
                }
            },
            Some(_) => Ok(String::new()),
            None => Err(Error::new(ErrorKind::MissingField, "port")),
        },
    }
}

/// The port that a redirecting rule sends traffic to.
pub fn read_redirect_target(doc: &Node) -> (r: Result<i64, Error>)
    ensures
        match r {
            Ok(n) => doc@.redirect_target() == Ok::<int, Failure>(n as int),
            Err(e) => doc@.redirect_target() == Err::<int, Failure>(e@),
        },
{
    match doc.get("forward") {
        Some(Node::Integer(n)) => {
            if *n >= 0 {
                Ok(*n)
            } else {
                Err(Error::new(ErrorKind::InvalidRange, "forward"))
            }
        },
        _ => Err(Error::new(ErrorKind::InvalidShape, "forward")),
    }
}

/// The one command of a rule that redirects traffic to `ports`.
pub fn redirect_rule(doc: &Node, ports: &str) -> (r: Result<Vec<String>, Error>)
    ensures
        outcome(r) == doc@.redirect_rule(ports@),
{
    let protocol = read_protocol(doc)?;
    let target = read_redirect_target(doc)?;
    let src = read_addresses(doc, "src");
    let dst = read_addresses(doc, "dst");
    let mut commands: Vec<String> = Vec::new();
    commands.push(redirect_command(borrowed(&src), borrowed(&dst), protocol, ports, target));
    assert(commands.deep_view() =~= seq![commands@[0]@]);
    Ok(commands)
}

/// The commands of a rule that allows or denies traffic to `ports`.
pub fn access_rule(doc: &Node, ports: &str) -> (r: Result<Vec<String>, Error>)
    ensures
        outcome(r) == doc@.access_rule(ports@),
{
    let direction = read_direction(doc)?;
    let protocol = read_protocol(doc)?;
    let state = read_states(doc, "state")?;
    let src = read_addresses(doc, "src");
    let dst = read_addresses(doc, "dst");
    let allow = read_allows(doc);
    let mut commands: Vec<String> = Vec::new();
    commands.push(
        access_command(
            direction,
            borrowed(&src),
            borrowed(&dst),
            protocol,
            borrowed(&state),
            ports,
            allow,
        ),
    );
    if allow {
        commands.push(reverse_command(direction, borrowed(&src), borrowed(&dst), protocol));
        assert(commands.deep_view() =~= seq![commands@[0]@, commands@[1]@]);
    } else {
        assert(commands.deep_view() =~= seq![commands@[0]@]);
    }
    Ok(commands)
}

/// The commands of one port rule, in the order in which they take effect.
pub fn parse_port_item(doc: &Node) -> (r: Result<Vec<String>, Error>)
    ensures
        outcome(r) == doc@.port_rule(),
{
    if !doc.is_mapping() {
        return Err(Error::new(ErrorKind::InvalidShape, "ports"));
    }
    let ports = read_port_argument(doc)?;
    match doc.get("forward") {
        Some(_) => redirect_rule(doc, ports.as_str()),
        None => access_rule(doc, ports.as_str()),
    }
}

/// Writes the commands of a list of port rules to `out`.
pub fn parse_ports(doc: &Node, out: &mut Vec<String>) -> (r: Result<(), Error>)
    ensures
        appended(*old(out), *final(out), r, doc@.port_rules()),
{
    match doc {
        Node::Sequence(items) => {
            let ghost steps = port_steps(trees_of(items@));
            let ghost before = out.deep_view();
            let ghost mut done: Seq<Seq<char>> = Seq::empty();
            let mut i: usize = 0;
            proof {
                lemma_sequence_view(*items);
                assert(steps.skip(0) == steps);
                assert(before + done == before);
            }
            while i < items.len()
                invariant
                    i <= items.len(),
                    steps == port_steps(trees_of(items@)),
                    doc@.port_rules() == in_turn(steps),
                    before == old(out).deep_view(),
                    out.deep_view() == before + done,
                    in_turn(steps) == in_turn(steps.skip(i as int)).after(done),
                decreases items.len() - i,
            {
                match parse_port_item(&items[i]) {
                    Ok(commands) => {
                        let mut commands = commands;
                        let ghost held = *out;
                        let ghost added = commands;
                        out.append(&mut commands);
                        proof {
                            lemma_in_turn_advance(steps, i as int, done);
                            lemma_lines_appended(held, added, *out);
                            assert(out.deep_view() == before + (done + added.deep_view()));
                            done = done + added.deep_view();
                        }
                    },
                    Err(e) => {
                        proof {
                            lemma_in_turn_stop(steps, i as int, done);
                        }
                        return Err(e);
                    },
                }
                i += 1;
            }
            proof {
                lemma_in_turn_end(steps, done);
            }
            Ok(())
        },
        _ => {
            assert(out.deep_view() + Seq::<Seq<char>>::empty() == out.deep_view());
            Err(Error::new(ErrorKind::InvalidShape, "ports"))
        },
    }
}

} // verus!
