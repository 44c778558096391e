//! The command lines, each built from the parts of one rule. The order of the
//! options on a line is fixed here and nowhere else.

use vstd::prelude::*;
use crate::text::{decimal, decimal_text, to_upper, upper};
use crate::vocabulary::{verdict, verdict_text, Action, Direction};

verus! {

/// `command` followed by `flag` and `value`, where there is a value.
pub open spec fn with_option(
    command: Seq<char>,
    flag: Seq<char>,
    value: Option<Seq<char>>,
) -> Seq<char> {
    match value {
        Some(v) => command + flag + v,
        None => command,
    }
}

/// The view of an optional borrowed text.
pub open spec fn opt_str(text: Option<&str>) -> Option<Seq<char>> {
    match text {
        Some(s) => Some(s@),
        None => None,
    }
}

/// An optional text, borrowed.
pub fn borrowed(text: &Option<String>) -> (r: Option<&str>)
    ensures
        opt_str(r) == text.deep_view(),
{
    match text {
        Some(s) => Some(s.as_str()),
        None => None,
    }
}

/// Sets the default policy of a built-in chain.
pub open spec fn policy_line(direction: Direction, action: Action) -> Seq<char> {
    "iptables -P "@ + direction.chain() + " "@ + action.word()
}

/// Names a chain of the user's own, in upper case, with no action.
pub open spec fn bare_policy_line(chain: Seq<char>) -> Seq<char> {
    "iptables -P "@ + upper(chain)
}

/// Inserts a rule that accepts or drops by what a match module finds.
pub open spec fn match_line(
    direction: Direction,
    module: Seq<char>,
    state: Option<Seq<char>>,
    ctstate: Option<Seq<char>>,
    allow: bool,
) -> Seq<char> {
    with_option(
        with_option(
            "iptables -I "@ + direction.chain() + " -m "@ + module,
            " --state "@,
            state,
        ),
        " --ctstate "@,
        ctstate,
    ) + " -j "@ + verdict(allow)
}

/// Appends the rule that lets traffic to the given ports pass, or drops it.
pub open spec fn access_line(
    direction: Direction,
    src: Option<Seq<char>>,
    dst: Option<Seq<char>>,
    protocol: Seq<char>,
    state: Option<Seq<char>>,
    ports: Seq<char>,
    allow: bool,
) -> Seq<char> {
    with_option(
        with_option(with_option("iptables -A "@ + direction.chain(), " -s "@, src), " -d "@, dst)
            + " -p "@ + protocol,
        " -m state --state "@,
        state,
    ) + ports + " -j "@ + verdict(allow)
}

/// Inserts the rule for the answers to allowed traffic: the same chain, the
/// source and the destination in each other's place, no ports.
pub open spec fn reverse_line(
    direction: Direction,
    src: Option<Seq<char>>,
    dst: Option<Seq<char>>,
    protocol: Seq<char>,
) -> Seq<char> {
    with_option(with_option("iptables -I "@ + direction.chain(), " -d "@, src), " -s "@, dst)
        + " -p "@ + protocol + " -j ACCEPT"@
}

/// Appends the rule that redirects traffic to the given ports to one port of
/// this host.
pub open spec fn redirect_line(
    src: Option<Seq<char>>,
    dst: Option<Seq<char>>,
    protocol: Seq<char>,
    ports: Seq<char>,
    target: int,
) -> Seq<char> {
    with_option(with_option("iptables -t nat -A PREROUTING"@, " -s "@, src), " -d "@, dst)
        + " -p "@ + protocol + ports + " -j REDIRECT --to-port "@ + decimal(target)
}

/// The commands that empty every chain of the tables `filter`, `nat` and
/// `mangle` and delete the chains that were added to them, one to a line.
pub open spec fn reset_block() -> Seq<char> {
    "iptables -F\niptables -X\niptables -t nat -F\niptables -t nat -X\niptables -t mangle -F\niptables -t mangle -X"@
}

/// Appends `flag` and `value` to `command`, where there is a value.
fn push_option(command: &mut String, flag: &str, value: Option<&str>)
    ensures
        final(command)@ == with_option(old(command)@, flag@, opt_str(value)),
{
    match value {
        Some(v) => {
            command.append(flag);
            command.append(v);
        },
        None => {},
    }
}

/// The commands that clear what earlier rules set up.
pub fn reset_rules() -> (r: String)
    ensures
        r@ == reset_block(),
{
    String::from_str(
        "iptables -F\niptables -X\niptables -t nat -F\niptables -t nat -X\niptables -t mangle -F\niptables -t mangle -X",
    )
}

/// The command that sets the default policy of a built-in chain.
pub fn policy_command(direction: Direction, action: Action) -> (r: String)
    ensures
        r@ == policy_line(direction, action),
{
    let mut command = String::from_str("iptables -P ");
    command.append(direction.chain_name());
    command.append(" ");
    command.append(action.word_text());
    command
}

/// The command that names a chain of the user's own.
pub fn bare_policy_command(chain: &str) -> (r: String)
    ensures
        r@ == bare_policy_line(chain@),
{
    let mut command = String::from_str("iptables -P ");
    let name = to_upper(chain);
    command.append(name.as_str());
    command
}

/// The command of a match rule.
pub fn match_command(
    direction: Direction,
    module: &str,
    state: Option<&str>,
    ctstate: Option<&str>,
    allow: bool,
) -> (r: String)
    ensures
        r@ == match_line(direction, module@, opt_str(state), opt_str(ctstate), allow),
{
    let mut command = String::from_str("iptables -I ");
    command.append(direction.chain_name());
    command.append(" -m ");
    command.append(module);
    push_option(&mut command, " --state ", state);
    push_option(&mut command, " --ctstate ", ctstate);
    command.append(" -j ");
    command.append(verdict_text(allow));
    command
}

/// The first command of a port rule that allows or denies.
pub fn access_command(
    direction: Direction,
    src: Option<&str>,
    dst: Option<&str>,
    protocol: &str,
    state: Option<&str>,
    ports: &str,
    allow: bool,
) -> (r: String)
    ensures
        r@ == access_line(
            direction,
            opt_str(src),
            opt_str(dst),
            protocol@,
            opt_str(state),
            ports@,
            allow,
        ),
{
    let mut command = String::from_str("iptables -A ");
    command.append(direction.chain_name());
    push_option(&mut command, " -s ", src);
    push_option(&mut command, " -d ", dst);
    command.append(" -p ");
    command.append(protocol);
    push_option(&mut command, " -m state --state ", state);
    command.append(ports);
    command.append(" -j ");
    command.append(verdict_text(allow));
    command
}

/// The command for the answers to allowed traffic.
pub fn reverse_command(
    direction: Direction,
    src: Option<&str>,
    dst: Option<&str>,
    protocol: &str,
) -> (r: String)
    ensures
        r@ == reverse_line(direction, opt_str(src), opt_str(dst), protocol@),
{
    let mut command = String::from_str("iptables -I ");
    command.append(direction.chain_name());
    push_option(&mut command, " -d ", src);
    push_option(&mut command, " -s ", dst);
    command.append(" -p ");
    command.append(protocol);
    command.append(" -j ACCEPT");
    command
}

/// The command of a port rule that redirects.
pub fn redirect_command(
    src: Option<&str>,
    dst: Option<&str>,
    protocol: &str,
    ports: &str,
    target: i64,
) -> (r: String)
    ensures
        r@ == redirect_line(opt_str(src), opt_str(dst), protocol@, ports@, target as int),
{
    let mut command = String::from_str("iptables -t nat -A PREROUTING");
    push_option(&mut command, " -s ", src);
    push_option(&mut command, " -d ", dst);
    command.append(" -p ");
    command.append(protocol);
    command.append(ports);
    command.append(" -j REDIRECT --to-port ");
    let numeral = decimal_text(target);
    command.append(numeral.as_str());
    command
}

} // verus!
