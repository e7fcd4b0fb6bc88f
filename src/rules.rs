//! The policy: its knobs and its compilation into pf directives.
//!
//! The compiled text is a sequence of lines, each ended by a newline. Every
//! section below has a spec function giving its lines exactly; the section
//! writers append those lines and nothing else.
use vstd::prelude::*;
use vstd::string::*;

use crate::text::{append, decimal, join, push_decimal, push_join, views};
use crate::tools::{Direction, Owner};

verus! {

/// Lines joined into text, each followed by a newline.
pub open spec fn unlines(ls: Seq<Seq<char>>) -> Seq<char>
    decreases ls.len(),
{
    if ls.len() == 0 {
        seq![]
    } else {
        unlines(ls.drop_last()) + ls.last() + seq!['\n']
    }
}

/// Text of consecutive line blocks is the concatenation of their texts.
pub proof fn lemma_unlines_concat(a: Seq<Seq<char>>, b: Seq<Seq<char>>)
    ensures
        unlines(a + b) == unlines(a) + unlines(b),
    decreases b.len(),
{
    if b.len() == 0 {
        assert(a + b =~= a);
        assert(unlines(b) =~= seq![]);
        assert(unlines(a) + unlines(b) =~= unlines(a));
    } else {
        lemma_unlines_concat(a, b.drop_last());
        assert((a + b).drop_last() =~= a + b.drop_last());
        assert((a + b).last() == b.last());
        assert(unlines(a + b) =~= unlines(a) + unlines(b));
    }
}

/// One more block of lines appended to a text that held `acc`.
proof fn lemma_extend(
    start: Seq<char>,
    now: Seq<char>,
    acc: Seq<Seq<char>>,
    more: Seq<Seq<char>>,
) -> (r: Seq<Seq<char>>)
    requires
        now == start + unlines(acc) + unlines(more),
    ensures
        r == acc + more,
        now == start + unlines(r),
{
    lemma_unlines_concat(acc, more);
    assert(now =~= start + unlines(acc + more));
    acc + more
}

/// Appends the lines of `ls`, each followed by a newline.
pub fn write_lines(to: &mut String, ls: &Vec<String>)
    ensures
        final(to)@ == old(to)@ + unlines(views(ls@)),
{
    let ghost start = to@;
    let mut i: usize = 0;
    while i < ls.len()
        invariant
            i <= ls.len(),
            to@ == start + unlines(views(ls@.take(i as int))),
        decreases ls.len() - i,
    {
        append(to, ls[i].as_str());
        append(to, "\n");
        proof {
            reveal_strlit("\n");
            let t = views(ls@.take(i as int + 1));
            assert(t.drop_last() =~= views(ls@.take(i as int)));
        }
        i = i + 1;
        assert(to@ =~= start + unlines(views(ls@.take(i as int))));
    }
    assert(ls@.take(ls.len() as int) =~= ls@);
}

/// How blocked packets are answered.
pub enum BlockPolicy {
    /// Silently dropped.
    Drop,
    /// Answered with a reset or an unreachable.
    Return,
}

impl BlockPolicy {
    /// The word pf uses for the policy.
    pub open spec fn spec_word(&self) -> Seq<char> {
        match self {
            BlockPolicy::Drop => "drop"@,
            BlockPolicy::Return => "return"@,
        }
    }

    /// The word pf uses for the policy.
    pub fn word(&self) -> (r: &'static str)
        ensures
            r@ == self.spec_word(),
    {
        match self {
            BlockPolicy::Drop => "drop",
            BlockPolicy::Return => "return",
        }
    }
}

impl Default for BlockPolicy {
    fn default() -> (r: Self)
        ensures
            r is Drop,
    {
        BlockPolicy::Drop
    }
}

/// Whether states are bound to the interface they were created on.
pub enum StatePolicy {
    /// Bound to the interface.
    IfBound,
    /// Valid on any interface.
    Floating,
}

impl StatePolicy {
    /// The word pf uses for the policy.
    pub open spec fn spec_word(&self) -> Seq<char> {
        match self {
            StatePolicy::IfBound => "if-bound"@,
            StatePolicy::Floating => "floating"@,
        }
    }

    /// The word pf uses for the policy.
    pub fn word(&self) -> (r: &'static str)
        ensures
            r@ == self.spec_word(),
    {
        match self {
            StatePolicy::IfBound => "if-bound",
            StatePolicy::Floating => "floating",
        }
    }
}

impl Default for StatePolicy {
    fn default() -> (r: Self)
        ensures
            r is Floating,
    {
        StatePolicy::Floating
    }
}

/// The default action on traffic that no quick rule matched.
pub enum Action {
    /// Block it.
    Block,
    /// Pass it.
    Pass,
}

impl Default for Action {
    fn default() -> (r: Self)
        ensures
            r is Block,
    {
        Action::Block
    }
}

/// Which spoofed sources are blocked.
pub enum Antispoofing {
    /// Sources with no route back.
    NoRoute,
    /// Sources that fail the unicast reverse path check.
    UrpfFailed,
}

impl Antispoofing {
    /// The word pf uses for the source class.
    pub open spec fn spec_word(&self) -> Seq<char> {
        match self {
            Antispoofing::NoRoute => "no-route"@,
            Antispoofing::UrpfFailed => "urpf-failed"@,
        }
    }

    /// The word pf uses for the source class.
    pub fn word(&self) -> (r: &'static str)
        ensures
            r@ == self.spec_word(),
    {
        match self {
            Antispoofing::NoRoute => "no-route",
            Antispoofing::UrpfFailed => "urpf-failed",
        }
    }
}

impl Default for Antispoofing {
    fn default() -> (r: Self)
        ensures
            r is UrpfFailed,
    {
        Antispoofing::UrpfFailed
    }
}

/// Which multicast destinations private networks may reach.
pub enum Multicast {
    /// Only multicast groups that are not globally routable.
    NotRoutable,
    /// All multicast.
    All,
}

impl Default for Multicast {
    fn default() -> (r: Self)
        ensures
            r is NotRoutable,
    {
        Multicast::NotRoutable
    }
}

/// Passthrough of private (LAN) networks.
pub struct Lan {
    /// Block DNS queries sent to the private networks themselves.
    pub is_block_out_dns: bool,
    /// The multicast scope reachable from them.
    pub multicast: Multicast,
}

impl Default for Lan {
    fn default() -> (r: Self)
        ensures
            r.is_block_out_dns,
            r.multicast is NotRoutable,
    {
        Lan { is_block_out_dns: true, multicast: Multicast::NotRoutable }
    }
}

/// The passthrough of private networks, under its other name.
pub type PrivateNetworks = Lan;

/// Which ICMP traffic passes.
#[allow(clippy::upper_case_acronyms)]
pub enum ICMP {
    /// Echo requests only.
    Echoreq,
    /// All ICMP.
    All,
}

impl Default for ICMP {
    fn default() -> (r: Self)
        ensures
            r is Echoreq,
    {
        ICMP::Echoreq
    }
}


/// Well-known private IPv4 networks (link-local and RFC 1918).
pub open spec fn ipv4_private_networks() -> Seq<Seq<char>> {
    seq!["169.254.0.0/16"@, "192.168.0.0/16"@, "172.16.0.0/12"@, "10.0.0.0/8"@]
}

/// Well-known private IPv6 networks (link-local and unique local).
pub open spec fn ipv6_private_networks() -> Seq<Seq<char>> {
    seq!["fe80::/10"@, "fc00::/7"@]
}

/// IPv4 multicast that is not globally routable, as a list.
pub open spec fn ipv4_not_routable_multicast() -> Seq<char> {
    "224.0.0.0/24"@
}

/// IPv6 multicast that is not globally routable, as a list.
pub open spec fn ipv6_not_routable_multicast() -> Seq<char> {
    "ff02::/16, ff12::/16"@
}

/// All IPv4 multicast.
pub open spec fn ipv4_multicast() -> Seq<char> {
    "224.0.0.0/4"@
}

/// All IPv6 multicast.
pub open spec fn ipv6_multicast() -> Seq<char> {
    "ff00::/8"@
}

/// An entry that names a file for pf to read rather than an address.
pub open spec fn is_file_ref(e: Seq<char>) -> bool {
    e.len() > 0 && e[0] == '/'
}

/// The entries of a table that are addresses, in order.
pub open spec fn table_addresses(es: Seq<Seq<char>>) -> Seq<Seq<char>>
    decreases es.len(),
{
    if es.len() == 0 {
        seq![]
    } else if is_file_ref(es.last()) {
        table_addresses(es.drop_last())
    } else {
        table_addresses(es.drop_last()).push(es.last())
    }
}

/// The `file "..."` clauses for the entries of a table that are files, in order.
pub open spec fn table_files(es: Seq<Seq<char>>) -> Seq<Seq<char>>
    decreases es.len(),
{
    if es.len() == 0 {
        seq![]
    } else if is_file_ref(es.last()) {
        table_files(es.drop_last()).push("file \""@ + es.last() + "\""@)
    } else {
        table_files(es.drop_last())
    }
}

/// The declaration of table `name` holding `es`.
pub open spec fn table_line(name: Seq<char>, es: Seq<Seq<char>>) -> Seq<char> {
    "table <"@ + name + "> { "@ + join(table_addresses(es), ", "@) + " } "@ + join(
        table_files(es),
        " "@,
    )
}

/// The name of macro `i` of a macro family.
pub open spec fn macro_name(prefix: Seq<char>, i: int) -> Seq<char> {
    prefix + decimal(i as nat) + "_if"@
}

/// The macro definitions that quote `names` once each.
pub open spec fn macro_lines(prefix: Seq<char>, names: Seq<Seq<char>>) -> Seq<Seq<char>> {
    Seq::new(names.len(), |i: int| macro_name(prefix, i) + " = \""@ + names[i] + "\""@)
}

/// References to the first `n` macros of a family.
pub open spec fn macro_refs(prefix: Seq<char>, n: nat) -> Seq<Seq<char>> {
    Seq::new(n, |i: int| "$"@ + macro_name(prefix, i))
}

/// The names of the entries that apply inbound, in order.
pub open spec fn names_in(ds: Seq<Direction>) -> Seq<Seq<char>>
    decreases ds.len(),
{
    if ds.len() == 0 {
        seq![]
    } else if ds.last().applies_in() {
        names_in(ds.drop_last()).push(ds.last().name())
    } else {
        names_in(ds.drop_last())
    }
}

/// The names of the entries that apply outbound, in order.
pub open spec fn names_out(ds: Seq<Direction>) -> Seq<Seq<char>>
    decreases ds.len(),
{
    if ds.len() == 0 {
        seq![]
    } else if ds.last().applies_out() {
        names_out(ds.drop_last()).push(ds.last().name())
    } else {
        names_out(ds.drop_last())
    }
}

/// The names of the users among `os`, in order.
pub open spec fn user_names(os: Seq<Owner>) -> Seq<Seq<char>>
    decreases os.len(),
{
    if os.len() == 0 {
        seq![]
    } else if os.last() is User {
        user_names(os.drop_last()).push(os.last().name())
    } else {
        user_names(os.drop_last())
    }
}

/// The names of the groups among `os`, in order.
pub open spec fn group_names(os: Seq<Owner>) -> Seq<Seq<char>>
    decreases os.len(),
{
    if os.len() == 0 {
        seq![]
    } else if os.last() is Group {
        group_names(os.drop_last()).push(os.last().name())
    } else {
        group_names(os.drop_last())
    }
}

/// Blocks DNS sent from private network `net` to itself.
pub open spec fn dns_block_line(af: Seq<char>, net: Seq<char>) -> Seq<char> {
    "block return out quick "@ + af + " proto { tcp, udp } from "@ + net + " to "@ + net
        + " port domain"@
}

/// Passes IPv4 traffic from private network `net` to itself, broadcast and multicast `m`.
pub open spec fn lan_pass_v4_line(net: Seq<char>, m: Seq<char>) -> Seq<char> {
    "pass quick inet from "@ + net + " to { "@ + net + ", 255.255.255.255, "@ + m + " }"@
}

/// Passes IPv6 traffic from private network `net` to itself and multicast `m`.
pub open spec fn lan_pass_v6_line(net: Seq<char>, m: Seq<char>) -> Seq<char> {
    "pass quick inet6 from "@ + net + " to { "@ + net + ", "@ + m + " }"@
}

/// Passes IPv4 traffic from the unspecified source (address negotiation).
pub open spec fn lan_unspecified_v4_line() -> Seq<char> {
    "pass quick inet from 0.0.0.0 to { 255.255.255.255, "@ + ipv4_not_routable_multicast()
        + " }"@
}

/// Passes IPv6 traffic from the unspecified source (address negotiation).
pub open spec fn lan_unspecified_v6_line() -> Seq<char> {
    "pass quick inet6 from :: to { "@ + ipv6_not_routable_multicast() + " }"@
}

/// The directives of the LAN section for `lan`.
pub open spec fn lan_rule_lines(lan: Lan, block_ipv6: bool) -> Seq<Seq<char>> {
    let (m4, m6) = match lan.multicast {
        Multicast::NotRoutable => (ipv4_not_routable_multicast(), ipv6_not_routable_multicast()),
        Multicast::All => (ipv4_multicast(), ipv6_multicast()),
    };
    let dns4 = ipv4_private_networks().map_values(|n: Seq<char>| dns_block_line("inet"@, n));
    let dns6 = ipv6_private_networks().map_values(|n: Seq<char>| dns_block_line("inet6"@, n));
    let dns = if !lan.is_block_out_dns {
        seq![]
    } else if block_ipv6 {
        dns4
    } else {
        dns4 + dns6
    };
    let pass4 = ipv4_private_networks().map_values(|n: Seq<char>| lan_pass_v4_line(n, m4)).push(
        lan_unspecified_v4_line(),
    );
    let pass6 = ipv6_private_networks().map_values(|n: Seq<char>| lan_pass_v6_line(n, m6)).push(
        lan_unspecified_v6_line(),
    );
    if block_ipv6 {
        dns + pass4
    } else {
        dns + pass4 + pass6
    }
}

/// The ICMP directives for IPv4 and, unless IPv6 is blocked, for IPv6.
pub open spec fn icmp_rule_lines(icmp: Option<ICMP>, block_ipv6: bool) -> Seq<Seq<char>> {
    match icmp {
        None => seq![],
        Some(ICMP::Echoreq) => {
            let v4 = "pass quick inet proto icmp all icmp-type echoreq label \"ICMP\""@;
            let v6 = "pass quick inet6 proto icmp6 all icmp6-type echoreq label \"ICMP6\""@;
            if block_ipv6 {
                seq![v4]
            } else {
                seq![v4, v6]
            }
        },
        Some(ICMP::All) => {
            let v4 = "pass quick inet proto icmp all label \"ICMP\""@;
            let v6 = "pass quick inet6 proto icmp6 all label \"ICMP6\""@;
            if block_ipv6 {
                seq![v4]
            } else {
                seq![v4, v6]
            }
        },
    }
}


/// The names of the three address tables of a policy: non-empty and distinct.
pub struct TableNames {
    block: String,
    inward: String,
    outward: String,
}

/// Three table names that a policy can use.
pub open spec fn valid_table_names(b: Seq<char>, i: Seq<char>, o: Seq<char>) -> bool {
    &&& b.len() > 0
    &&& i.len() > 0
    &&& o.len() > 0
    &&& b != i
    &&& b != o
    &&& i != o
}

impl TableNames {
    /// Name of the deny table.
    pub closed spec fn block(&self) -> Seq<char> {
        self.block@
    }

    /// Name of the inbound-allow table.
    pub closed spec fn inward(&self) -> Seq<char> {
        self.inward@
    }

    /// Name of the outbound-allow table.
    pub closed spec fn outward(&self) -> Seq<char> {
        self.outward@
    }

    #[verifier::type_invariant]
    spec fn inv(&self) -> bool {
        valid_table_names(self.block@, self.inward@, self.outward@)
    }

    pub fn new(block: &str, inward: &str, outward: &str) -> (r: Self)
        requires
            valid_table_names(block@, inward@, outward@),
        ensures
            r.block() == block@,
            r.inward() == inward@,
            r.outward() == outward@,
    {
        TableNames {
            block: String::from_str(block),
            inward: String::from_str(inward),
            outward: String::from_str(outward),
        }
    }

    pub fn block_name(&self) -> (r: &str)
        ensures
            r@ == self.block(),
    {
        self.block.as_str()
    }

    pub fn in_name(&self) -> (r: &str)
        ensures
            r@ == self.inward(),
    {
        self.inward.as_str()
    }

    pub fn out_name(&self) -> (r: &str)
        ensures
            r@ == self.outward(),
    {
        self.outward.as_str()
    }
}

/// The policy: every knob of the compiled rule set.
pub struct Rules {
    pub tables: TableNames,
    pub block_policy: BlockPolicy,
    pub state_policy: StatePolicy,
    /// Minimum TTL of outgoing packets; 0 disables the floor.
    pub min_ttl: u8,
    pub is_enable_log: bool,
    pub incoming: Action,
    pub outgoing: Action,
    pub antispoofing: Option<Antispoofing>,
    pub is_block_ipv6: bool,
    pub lan: Option<Lan>,
    pub icmp: Option<ICMP>,
    /// Interfaces exempt from all filtering.
    pub skip_interfaces: Vec<String>,
    /// Interfaces whose traffic passes.
    pub pass_interfaces: Vec<Direction>,
    /// Owners whose traffic passes.
    pub pass_owners: Vec<Owner>,
    /// Denied destinations: addresses, hosts, or files when they begin with `/`.
    pub block_destinations: Vec<String>,
    /// Allowed destinations, each with its direction.
    pub pass_destinations: Vec<Direction>,
}

/// Default name of the deny table.
pub const DEFAULT_BLOCK_TABLE_NAME: &'static str = "netlock_block";
/// Default name of the inbound-allow table.
pub const DEFAULT_IN_TABLE_NAME: &'static str = "netlock_pass_in";
/// Default name of the outbound-allow table.
pub const DEFAULT_OUT_TABLE_NAME: &'static str = "netlock_pass_out";

impl Rules {
    /// Name of the deny table.
    pub open spec fn block_table(&self) -> Seq<char> {
        self.tables.block()
    }

    /// Name of the inbound-allow table.
    pub open spec fn in_table(&self) -> Seq<char> {
        self.tables.inward()
    }

    /// Name of the outbound-allow table.
    pub open spec fn out_table(&self) -> Seq<char> {
        self.tables.outward()
    }

    /// `log` when logging is on, else nothing.
    pub open spec fn log_word(&self) -> Seq<char> {
        if self.is_enable_log {
            "log"@
        } else {
            ""@
        }
    }

    pub open spec fn header_lines(ts: u64) -> Seq<Seq<char>> {
        seq!["# HEADER"@, "# "@ + decimal(ts as nat), seq![]]
    }

    pub open spec fn skip_names(&self) -> Seq<Seq<char>> {
        views(self.skip_interfaces@)
    }

    pub open spec fn option_lines(&self) -> Seq<Seq<char>> {
        let head = seq![
            "# OPTIONS"@,
            "set block-policy "@ + self.block_policy.spec_word(),
            "set state-policy "@ + self.state_policy.spec_word(),
        ];
        let n = self.skip_names();
        let skip = if n.len() == 0 {
            seq![]
        } else {
            macro_lines("skip"@, n).push(
                "set skip on { "@ + join(macro_refs("skip"@, n.len()), ", "@) + " }"@,
            )
        };
        head + skip + seq![seq![]]
    }

    pub open spec fn scrub_lines(&self) -> Seq<Seq<char>> {
        let out = if self.min_ttl > 0 {
            seq!["scrub out all min-ttl "@ + decimal(self.min_ttl as nat)]
        } else {
            seq![]
        };
        seq!["# SCRUB"@, "scrub in all"@] + out + seq![seq![]]
    }

    pub open spec fn incoming_lines(&self) -> Seq<Seq<char>> {
        let rule = match self.incoming {
            Action::Block => "block "@ + self.block_policy.spec_word() + " in "@ + self.log_word()
                + " all"@,
            Action::Pass => "pass in all"@,
        };
        seq!["# INCOMING"@, rule, seq![]]
    }

    pub open spec fn outgoing_lines(&self) -> Seq<Seq<char>> {
        let rule = match self.outgoing {
            Action::Block => "block return out "@ + self.log_word() + " all"@,
            Action::Pass => "pass out all"@,
        };
        seq!["# OUTGOING"@, rule, seq![]]
    }

    pub open spec fn antispoofing_lines(&self) -> Seq<Seq<char>> {
        let rule = match self.antispoofing {
            Some(a) => seq![
                "block drop in "@ + self.log_word() + " quick from "@ + a.spec_word()
                    + " to any label \"ANTISPOOFING\""@,
            ],
            None => seq![],
        };
        seq!["# ANTISPOOFING"@] + rule + seq![seq![]]
    }

    /// The directive that blocks inbound traffic from the deny table.
    pub open spec fn blocklist_in_line(&self) -> Seq<char> {
        "block drop in quick from <"@ + self.block_table() + "> to any label \"BLOCKLIST_IN\""@
    }

    /// The directive that blocks outbound traffic to the deny table.
    pub open spec fn blocklist_out_line(&self) -> Seq<char> {
        "block return out quick from any to <"@ + self.block_table()
            + "> label \"BLOCKLIST_OUT\""@
    }

    pub open spec fn blocklist_lines(&self) -> Seq<Seq<char>> {
        seq![
            "# BLOCKLIST"@,
            table_line(self.block_table(), views(self.block_destinations@)),
            self.blocklist_in_line(),
            self.blocklist_out_line(),
            seq![],
        ]
    }

    /// The interface passthrough directives, inbound first.
    pub open spec fn interface_rule_lines(&self) -> Seq<Seq<char>> {
        let ins = names_in(self.pass_interfaces@);
        let outs = names_out(self.pass_interfaces@);
        let r_in = if ins.len() == 0 {
            seq![]
        } else {
            seq!["pass in quick on { "@ + join(macro_refs("pass_in"@, ins.len()), ", "@) + " } all"@]
        };
        let r_out = if outs.len() == 0 {
            seq![]
        } else {
            seq![
                "pass out quick on { "@ + join(macro_refs("pass_out"@, outs.len()), ", "@)
                    + " } all"@,
            ]
        };
        r_in + r_out
    }

    pub open spec fn interface_lines(&self) -> Seq<Seq<char>> {
        let ins = names_in(self.pass_interfaces@);
        let outs = names_out(self.pass_interfaces@);
        seq!["# INTERFACES"@] + macro_lines("pass_in"@, ins) + macro_lines("pass_out"@, outs)
            + self.interface_rule_lines() + seq![seq![]]
    }

    pub open spec fn owner_lines(&self) -> Seq<Seq<char>> {
        let us = user_names(self.pass_owners@);
        let gs = group_names(self.pass_owners@);
        let ru = if us.len() == 0 {
            seq![]
        } else {
            seq!["pass quick all user { "@ + join(us, ", "@) + " }"@]
        };
        let rg = if gs.len() == 0 {
            seq![]
        } else {
            seq!["pass quick all group { "@ + join(gs, ", "@) + " }"@]
        };
        seq!["# OWNERS"@] + ru + rg + seq![seq![]]
    }

    pub open spec fn ipv6_lines(&self) -> Seq<Seq<char>> {
        let rules = if self.is_block_ipv6 {
            seq![
                "block "@ + self.block_policy.spec_word() + " in quick inet6 all"@,
                "block return out quick inet6 all"@,
            ]
        } else {
            seq![]
        };
        seq!["# IPV6"@] + rules + seq![seq![]]
    }

    pub open spec fn lan_lines(&self) -> Seq<Seq<char>> {
        let rules = match self.lan {
            Some(lan) => lan_rule_lines(lan, self.is_block_ipv6),
            None => seq![],
        };
        seq!["# LAN"@] + rules + seq![seq![]]
    }

    pub open spec fn icmp_lines(&self) -> Seq<Seq<char>> {
        seq!["# ICMP"@] + icmp_rule_lines(self.icmp, self.is_block_ipv6) + seq![seq![]]
    }

    /// The directive that passes inbound traffic from the inbound-allow table.
    pub open spec fn pass_in_table_line(&self) -> Seq<char> {
        "pass in quick from <"@ + self.in_table() + "> to any"@
    }

    /// The directive that passes outbound traffic to the outbound-allow table.
    pub open spec fn pass_out_table_line(&self) -> Seq<char> {
        "pass out quick from any to <"@ + self.out_table() + ">"@
    }

    pub open spec fn destination_lines(&self) -> Seq<Seq<char>> {
        seq![
            "# DESTINATIONS"@,
            table_line(self.in_table(), names_in(self.pass_destinations@)),
            table_line(self.out_table(), names_out(self.pass_destinations@)),
            self.pass_in_table_line(),
            self.pass_out_table_line(),
            seq![],
        ]
    }

    /// Everything after the header, in evaluation order.
    pub open spec fn body_lines(&self) -> Seq<Seq<char>> {
        self.option_lines() + self.scrub_lines() + self.incoming_lines() + self.outgoing_lines()
            + self.antispoofing_lines() + self.blocklist_lines() + self.interface_lines()
            + self.owner_lines() + self.ipv6_lines() + self.lan_lines() + self.icmp_lines()
            + self.destination_lines()
    }

    /// The compiled policy as lines, stamped with `ts`.
    pub open spec fn compiled_lines(&self, ts: u64) -> Seq<Seq<char>> {
        Self::header_lines(ts) + self.body_lines()
    }

    /// The compiled policy text, stamped with `ts`.
    pub open spec fn compiled(&self, ts: u64) -> Seq<char> {
        unlines(self.compiled_lines(ts))
    }
}


fn names_in_of(ds: &Vec<Direction>) -> (r: Vec<String>)
    ensures
        views(r@) == names_in(ds@),
{
    let mut r: Vec<String> = Vec::new();
    let mut i: usize = 0;
    while i < ds.len()
        invariant
            i <= ds.len(),
            views(r@) == names_in(ds@.take(i as int)),
        decreases ds.len() - i,
    {
        assert(ds@.take(i as int + 1).drop_last() =~= ds@.take(i as int));
        if !ds[i].is_out() {
            r.push(String::from_str(ds[i].safe_unwrap()));
        }
        i = i + 1;
        assert(views(r@) =~= names_in(ds@.take(i as int)));
    }
    assert(ds@.take(ds.len() as int) =~= ds@);
    r
}

fn names_out_of(ds: &Vec<Direction>) -> (r: Vec<String>)
    ensures
        views(r@) == names_out(ds@),
{
    let mut r: Vec<String> = Vec::new();
    let mut i: usize = 0;
    while i < ds.len()
        invariant
            i <= ds.len(),
            views(r@) == names_out(ds@.take(i as int)),
        decreases ds.len() - i,
    {
        assert(ds@.take(i as int + 1).drop_last() =~= ds@.take(i as int));
        if !ds[i].is_in() {
            r.push(String::from_str(ds[i].safe_unwrap()));
        }
        i = i + 1;
        assert(views(r@) =~= names_out(ds@.take(i as int)));
    }
    assert(ds@.take(ds.len() as int) =~= ds@);
    r
}

fn owner_names_of(os: &Vec<Owner>, group: bool) -> (r: Vec<String>)
    ensures
        views(r@) == if group {
            group_names(os@)
        } else {
            user_names(os@)
        },
{
    let mut r: Vec<String> = Vec::new();
    let mut i: usize = 0;
    while i < os.len()
        invariant
            i <= os.len(),
            views(r@) == if group {
                group_names(os@.take(i as int))
            } else {
                user_names(os@.take(i as int))
            },
        decreases os.len() - i,
    {
        assert(os@.take(i as int + 1).drop_last() =~= os@.take(i as int));
        if os[i].is_group() == group {
            r.push(String::from_str(os[i].safe_unwrap()));
        }
        i = i + 1;
        assert(views(r@) =~= if group {
            group_names(os@.take(i as int))
        } else {
            user_names(os@.take(i as int))
        });
    }
    assert(os@.take(os.len() as int) =~= os@);
    r
}

fn is_file_entry(e: &str) -> (r: bool)
    ensures
        r == is_file_ref(e@),
{
    e.unicode_len() > 0 && e.get_char(0) == '/'
}

/// The declaration of table `name` holding `es`.
fn table_line_of(name: &str, es: &Vec<String>) -> (r: String)
    ensures
        r@ == table_line(name@, views(es@)),
{
    let mut addresses: Vec<String> = Vec::new();
    let mut files: Vec<String> = Vec::new();
    let mut i: usize = 0;
    while i < es.len()
        invariant
            i <= es.len(),
            views(addresses@) == table_addresses(views(es@.take(i as int))),
            views(files@) == table_files(views(es@.take(i as int))),
        decreases es.len() - i,
    {
        let ghost pre = views(es@.take(i as int));
        assert(views(es@.take(i as int + 1)).drop_last() =~= pre);
        assert(views(es@.take(i as int + 1)).last() == es@[i as int]@);
        let e = es[i].as_str();
        if is_file_entry(e) {
            files.push(String::from_str("file \"").concat(e).concat("\""));
        } else {
            addresses.push(String::from_str(e));
        }
        i = i + 1;
        assert(views(addresses@) =~= table_addresses(views(es@.take(i as int))));
        assert(views(files@) =~= table_files(views(es@.take(i as int))));
    }
    assert(es@.take(es.len() as int) =~= es@);
    let mut l = String::from_str("table <").concat(name).concat("> { ");
    push_join(&mut l, &addresses, ", ");
    append(&mut l, " } ");
    push_join(&mut l, &files, " ");
    l
}

/// Appends to `ls` one macro definition per name and returns the references to them.
fn write_macros(ls: &mut Vec<String>, prefix: &str, names: &Vec<String>) -> (refs: Vec<String>)
    ensures
        views(final(ls)@) == views(old(ls)@) + macro_lines(prefix@, views(names@)),
        views(refs@) == macro_refs(prefix@, names@.len()),
{
    let ghost start = views(ls@);
    let mut refs: Vec<String> = Vec::new();
    let mut i: usize = 0;
    while i < names.len()
        invariant
            i <= names.len(),
            views(ls@) == start + macro_lines(prefix@, views(names@.take(i as int))),
            views(refs@) == macro_refs(prefix@, i as nat),
        decreases names.len() - i,
    {
        let mut var = String::from_str(prefix);
        push_decimal(&mut var, i as u64);
        append(&mut var, "_if");
        let def = String::from_str(var.as_str()).concat(" = \"").concat(names[i].as_str()).concat(
            "\"",
        );
        let ghost k = i as int;
        assert(var@ == macro_name(prefix@, k));
        assert(def@ == macro_lines(prefix@, views(names@.take(k + 1)))[k]);
        assert(macro_lines(prefix@, views(names@.take(k + 1))).drop_last() =~= macro_lines(
            prefix@,
            views(names@.take(k)),
        ));
        let ghost ls0 = ls@;
        let ghost refs0 = refs@;
        let ghost d = def@;
        ls.push(def);
        let r = String::from_str("$").concat(var.as_str());
        assert(r@ == macro_refs(prefix@, (k + 1) as nat)[k]);
        refs.push(r);
        assert(views(ls@) =~= views(ls0).push(d));
        assert(views(refs@) =~= views(refs0).push(r@));
        assert(macro_lines(prefix@, views(names@.take(k + 1))) =~= macro_lines(
            prefix@,
            views(names@.take(k)),
        ).push(d));
        assert(macro_refs(prefix@, (k + 1) as nat) =~= macro_refs(prefix@, k as nat).push(r@));
        i = i + 1;
        assert(views(ls@) =~= start + macro_lines(prefix@, views(names@.take(i as int))));
        assert(views(refs@) =~= macro_refs(prefix@, i as nat));
    }
    assert(names@.take(names.len() as int) =~= names@);
    refs
}


impl Rules {
    fn log_str(&self) -> (r: &'static str)
        ensures
            r@ == self.log_word(),
    {
        if self.is_enable_log {
            "log"
        } else {
            ""
        }
    }

    /// Writes the header: the tool's name and the time of compilation `ts`.
    pub fn write_header(to: &mut String, ts: u64)
        ensures
            final(to)@ == old(to)@ + unlines(Self::header_lines(ts)),
    {
        let mut ls: Vec<String> = Vec::new();
        ls.push(String::from_str("# HEADER"));
        let mut stamp = String::from_str("# ");
        push_decimal(&mut stamp, ts);
        ls.push(stamp);
        ls.push(String::new());
        assert(views(ls@) =~= Self::header_lines(ts));
        write_lines(to, &ls);
    }

    /// Writes the global options: policies and the interfaces to skip.
    pub fn write_options(&self, to: &mut String)
        ensures
            final(to)@ == old(to)@ + unlines(self.option_lines()),
    {
        let mut ls: Vec<String> = Vec::new();
        ls.push(String::from_str("# OPTIONS"));
        ls.push(String::from_str("set block-policy ").concat(self.block_policy.word()));
        ls.push(String::from_str("set state-policy ").concat(self.state_policy.word()));
        let ghost head = views(ls@);
        if self.skip_interfaces.len() > 0 {
            let refs = write_macros(&mut ls, "skip", &self.skip_interfaces);
            let mut l = String::from_str("set skip on { ");
            push_join(&mut l, &refs, ", ");
            append(&mut l, " }");
            let ghost mid = views(ls@);
            let ghost last = l@;
            ls.push(l);
            assert(views(ls@) =~= mid.push(last));
            assert(views(ls@) =~= head + macro_lines("skip"@, self.skip_names()).push(last));
        } else {
            assert(views(ls@) =~= head + seq![]);
        }
        let ghost body = views(ls@);
        ls.push(String::new());
        assert(views(ls@) =~= body + seq![seq![]]);
        assert(views(ls@) =~= self.option_lines());
        write_lines(to, &ls);
    }

    /// Writes the scrub directives.
    pub fn write_scrub(&self, to: &mut String)
        ensures
            final(to)@ == old(to)@ + unlines(self.scrub_lines()),
    {
        let mut ls: Vec<String> = Vec::new();
        ls.push(String::from_str("# SCRUB"));
        ls.push(String::from_str("scrub in all"));
        if self.min_ttl > 0 {
            let mut l = String::from_str("scrub out all min-ttl ");
            push_decimal(&mut l, self.min_ttl as u64);
            ls.push(l);
        }
        ls.push(String::new());
        assert(views(ls@) =~= self.scrub_lines());
        write_lines(to, &ls);
    }

    /// Writes the default action on incoming traffic.
    pub fn write_incoming(&self, to: &mut String)
        ensures
            final(to)@ == old(to)@ + unlines(self.incoming_lines()),
    {
        let mut ls: Vec<String> = Vec::new();
        ls.push(String::from_str("# INCOMING"));
        match self.incoming {
            Action::Block => {
                ls.push(
                    String::from_str("block ").concat(self.block_policy.word()).concat(
                        " in ",
                    ).concat(self.log_str()).concat(" all"),
                );
            },
            Action::Pass => {
                ls.push(String::from_str("pass in all"));
            },
        }
        ls.push(String::new());
        assert(views(ls@) =~= self.incoming_lines());
        write_lines(to, &ls);
    }

    /// Writes the default action on outgoing traffic.
    pub fn write_outgoing(&self, to: &mut String)
        ensures
            final(to)@ == old(to)@ + unlines(self.outgoing_lines()),
    {
        let mut ls: Vec<String> = Vec::new();
        ls.push(String::from_str("# OUTGOING"));
        match self.outgoing {
            Action::Block => {
                ls.push(
                    String::from_str("block return out ").concat(self.log_str()).concat(" all"),
                );
            },
            Action::Pass => {
                ls.push(String::from_str("pass out all"));
            },
        }
        ls.push(String::new());
        assert(views(ls@) =~= self.outgoing_lines());
        write_lines(to, &ls);
    }

    /// Writes the antispoofing block, if enabled.
    pub fn write_antispoofing(&self, to: &mut String)
        ensures
            final(to)@ == old(to)@ + unlines(self.antispoofing_lines()),
    {
        let mut ls: Vec<String> = Vec::new();
        ls.push(String::from_str("# ANTISPOOFING"));
        match &self.antispoofing {
            Some(a) => {
                ls.push(
                    String::from_str("block drop in ").concat(self.log_str()).concat(
                        " quick from ",
                    ).concat(a.word()).concat(" to any label \"ANTISPOOFING\""),
                );
            },
            None => {},
        }
        ls.push(String::new());
        assert(views(ls@) =~= self.antispoofing_lines());
        write_lines(to, &ls);
    }

    /// Writes the deny table and the directives that block it both ways.
    pub fn write_blocklist(&self, to: &mut String)
        ensures
            final(to)@ == old(to)@ + unlines(self.blocklist_lines()),
    {
        let b = self.tables.block_name();
        let mut ls: Vec<String> = Vec::new();
        ls.push(String::from_str("# BLOCKLIST"));
        ls.push(table_line_of(b, &self.block_destinations));
        ls.push(
            String::from_str("block drop in quick from <").concat(b).concat(
                "> to any label \"BLOCKLIST_IN\"",
            ),
        );
        ls.push(
            String::from_str("block return out quick from any to <").concat(b).concat(
                "> label \"BLOCKLIST_OUT\"",
            ),
        );
        ls.push(String::new());
        assert(views(ls@) =~= self.blocklist_lines());
        write_lines(to, &ls);
    }

    /// Writes the interfaces whose traffic passes, each quoted once through a macro.
    pub fn write_interfaces(&self, to: &mut String)
        ensures
            final(to)@ == old(to)@ + unlines(self.interface_lines()),
    {
        let ins = names_in_of(&self.pass_interfaces);
        let outs = names_out_of(&self.pass_interfaces);
        let mut ls: Vec<String> = Vec::new();
        ls.push(String::from_str("# INTERFACES"));
        let ghost h = views(ls@);
        assert(h =~= seq!["# INTERFACES"@]);
        let in_refs = write_macros(&mut ls, "pass_in", &ins);
        let out_refs = write_macros(&mut ls, "pass_out", &outs);
        let ghost defs = views(ls@);
        let ghost ml_in = macro_lines("pass_in"@, names_in(self.pass_interfaces@));
        let ghost ml_out = macro_lines("pass_out"@, names_out(self.pass_interfaces@));
        assert(defs == h + ml_in + ml_out);
        if in_refs.len() > 0 {
            let mut l = String::from_str("pass in quick on { ");
            push_join(&mut l, &in_refs, ", ");
            append(&mut l, " } all");
            ls.push(l);
        }
        let ghost with_in = views(ls@);
        if out_refs.len() > 0 {
            let mut l = String::from_str("pass out quick on { ");
            push_join(&mut l, &out_refs, ", ");
            append(&mut l, " } all");
            ls.push(l);
        }
        let ghost rules = views(ls@);
        assert(rules.subrange(defs.len() as int, rules.len() as int)
            =~= self.interface_rule_lines());
        assert(rules =~= defs + self.interface_rule_lines());
        ls.push(String::new());
        assert(views(ls@) =~= rules.push(seq![]));
        assert(views(ls@) =~= h + ml_in + ml_out + self.interface_rule_lines() + seq![seq![]]);
        assert(views(ls@) =~= self.interface_lines());
        write_lines(to, &ls);
    }

    /// Writes the owners whose traffic passes.
    pub fn write_owners(&self, to: &mut String)
        ensures
            final(to)@ == old(to)@ + unlines(self.owner_lines()),
    {
        let users = owner_names_of(&self.pass_owners, false);
        let groups = owner_names_of(&self.pass_owners, true);
        let mut ls: Vec<String> = Vec::new();
        ls.push(String::from_str("# OWNERS"));
        if users.len() > 0 {
            let mut l = String::from_str("pass quick all user { ");
            push_join(&mut l, &users, ", ");
            append(&mut l, " }");
            ls.push(l);
        }
        if groups.len() > 0 {
            let mut l = String::from_str("pass quick all group { ");
            push_join(&mut l, &groups, ", ");
            append(&mut l, " }");
            ls.push(l);
        }
        ls.push(String::new());
        assert(views(ls@) =~= self.owner_lines());
        write_lines(to, &ls);
    }

    /// Writes the blanket IPv6 block, if enabled.
    pub fn write_ipv6(&self, to: &mut String)
        ensures
            final(to)@ == old(to)@ + unlines(self.ipv6_lines()),
    {
        let mut ls: Vec<String> = Vec::new();
        ls.push(String::from_str("# IPV6"));
        if self.is_block_ipv6 {
            ls.push(
                String::from_str("block ").concat(self.block_policy.word()).concat(
                    " in quick inet6 all",
                ),
            );
            ls.push(String::from_str("block return out quick inet6 all"));
        }
        ls.push(String::new());
        assert(views(ls@) =~= self.ipv6_lines());
        write_lines(to, &ls);
    }

    /// Every knob but the table names holds its default value.
    pub open spec fn has_default_knobs(&self) -> bool {
        &&& self.block_policy is Drop
        &&& self.state_policy is Floating
        &&& self.min_ttl == 0
        &&& !self.is_enable_log
        &&& self.incoming is Block
        &&& self.outgoing is Block
        &&& self.antispoofing == Some(Antispoofing::UrpfFailed)
        &&& !self.is_block_ipv6
        &&& self.lan == Some(Lan { is_block_out_dns: true, multicast: Multicast::NotRoutable })
        &&& self.icmp == Some(ICMP::Echoreq)
        &&& self.skip_interfaces@.len() == 0
        &&& self.pass_interfaces@.len() == 0
        &&& self.pass_owners@.len() == 0
        &&& self.block_destinations@.len() == 0
        &&& self.pass_destinations@.len() == 0
    }

    /// A policy with the given table names and every other knob at its default.
    pub fn new(block_table_name: &str, in_table_name: &str, out_table_name: &str) -> (r: Self)
        requires
            valid_table_names(block_table_name@, in_table_name@, out_table_name@),
        ensures
            r.block_table() == block_table_name@,
            r.in_table() == in_table_name@,
            r.out_table() == out_table_name@,
            r.has_default_knobs(),
    {
        Rules {
            tables: TableNames::new(block_table_name, in_table_name, out_table_name),
            block_policy: BlockPolicy::Drop,
            state_policy: StatePolicy::Floating,
            min_ttl: 0,
            is_enable_log: false,
            incoming: Action::Block,
            outgoing: Action::Block,
            antispoofing: Some(Antispoofing::UrpfFailed),
            is_block_ipv6: false,
            lan: Some(Lan { is_block_out_dns: true, multicast: Multicast::NotRoutable }),
            icmp: Some(ICMP::Echoreq),
            skip_interfaces: Vec::new(),
            pass_interfaces: Vec::new(),
            pass_owners: Vec::new(),
            block_destinations: Vec::new(),
            pass_destinations: Vec::new(),
        }
    }

    /// Name of the deny table.
    pub fn block_table_name(&self) -> (r: &str)
        ensures
            r@ == self.block_table(),
    {
        self.tables.block_name()
    }

    /// Name of the inbound-allow table.
    pub fn in_table_name(&self) -> (r: &str)
        ensures
            r@ == self.in_table(),
    {
        self.tables.in_name()
    }

    /// Name of the outbound-allow table.
    pub fn out_table_name(&self) -> (r: &str)
        ensures
            r@ == self.out_table(),
    {
        self.tables.out_name()
    }

    /// Writes the whole policy, stamped with `ts`, in evaluation order.
    #[verifier::rlimit(50)]
    pub fn write(&self, to: &mut String, ts: u64)
        ensures
            final(to)@ == old(to)@ + self.compiled(ts),
    {
        let ghost start = to@;
        Self::write_header(to, ts);
        let ghost mut acc = Self::header_lines(ts);
        self.write_options(to);
        proof { acc = lemma_extend(start, to@, acc, self.option_lines()); }
        self.write_scrub(to);
        proof { acc = lemma_extend(start, to@, acc, self.scrub_lines()); }
        self.write_incoming(to);
        proof { acc = lemma_extend(start, to@, acc, self.incoming_lines()); }
        self.write_outgoing(to);
        proof { acc = lemma_extend(start, to@, acc, self.outgoing_lines()); }
        self.write_antispoofing(to);
        proof { acc = lemma_extend(start, to@, acc, self.antispoofing_lines()); }
        self.write_blocklist(to);
        proof { acc = lemma_extend(start, to@, acc, self.blocklist_lines()); }
        self.write_interfaces(to);
        proof { acc = lemma_extend(start, to@, acc, self.interface_lines()); }
        self.write_owners(to);
        proof { acc = lemma_extend(start, to@, acc, self.owner_lines()); }
        self.write_ipv6(to);
        proof { acc = lemma_extend(start, to@, acc, self.ipv6_lines()); }
        self.write_lan(to);
        proof { acc = lemma_extend(start, to@, acc, self.lan_lines()); }
        self.write_icmp(to);
        proof { acc = lemma_extend(start, to@, acc, self.icmp_lines()); }
        self.write_destinations(to);
        proof {
            acc = lemma_extend(start, to@, acc, self.destination_lines());
            assert(acc =~= self.compiled_lines(ts));
        }
    }

    /// The policy compiled into text, stamped with `ts`.
    pub fn build_at(&self, ts: u64) -> (r: String)
        ensures
            r@ == self.compiled(ts),
    {
        let mut s = String::new();
        self.write(&mut s, ts);
        s
    }

    /// The policy compiled into text, stamped with the current time.
    pub fn build(&self) -> (r: String)
        ensures
            exists|ts: u64| r@ == self.compiled(ts),
    {
        let ts = crate::utils::time();
        self.build_at(ts)
    }

    /// Writes the private-network passthrough, if enabled.
    pub fn write_lan(&self, to: &mut String)
        ensures
            final(to)@ == old(to)@ + unlines(self.lan_lines()),
    {
        let mut ls: Vec<String> = Vec::new();
        ls.push(String::from_str("# LAN"));
        let ghost head = views(ls@);
        match &self.lan {
            Some(lan) => {
                let v4 = ipv4_networks();
                let v6 = ipv6_networks();
                let (m4, m6): (&str, &str) = match lan.multicast {
                    Multicast::NotRoutable => ("224.0.0.0/24", "ff02::/16, ff12::/16"),
                    Multicast::All => ("224.0.0.0/4", "ff00::/8"),
                };
                let ghost g4 = ipv4_private_networks();
                let ghost g6 = ipv6_private_networks();
                let ghost dns4 = g4.map_values(|n: Seq<char>| dns_block_line("inet"@, n));
                let ghost dns6 = g6.map_values(|n: Seq<char>| dns_block_line("inet6"@, n));
                assert(g4.map_values(|n: Seq<char>| net_line(NetLine::Dns4, n, m4@)) =~= dns4);
                assert(g6.map_values(|n: Seq<char>| net_line(NetLine::Dns6, n, m4@)) =~= dns6);
                if lan.is_block_out_dns {
                    push_net_lines(&mut ls, &NetLine::Dns4, &v4, m4);
                    if !self.is_block_ipv6 {
                        push_net_lines(&mut ls, &NetLine::Dns6, &v6, m4);
                    }
                }
                let ghost dns = views(ls@).subrange(1, views(ls@).len() as int);
                assert(views(ls@) =~= head + dns);
                push_net_lines(&mut ls, &NetLine::Pass4, &v4, m4);
                let unspec4 = String::from_str("pass quick inet from 0.0.0.0 to { 255.255.255.255, ")
                    .concat("224.0.0.0/24").concat(" }");
                assert(unspec4@ == lan_unspecified_v4_line());
                let ghost before4 = views(ls@);
                assert(before4 =~= head + dns + g4.map_values(
                    |n: Seq<char>| net_line(NetLine::Pass4, n, m4@),
                ));
                ls.push(unspec4);
                assert(views(ls@) =~= before4.push(lan_unspecified_v4_line()));
                let ghost pass4 = g4.map_values(|n: Seq<char>| lan_pass_v4_line(n, m4@)).push(
                    lan_unspecified_v4_line(),
                );
                assert(g4.map_values(|n: Seq<char>| net_line(NetLine::Pass4, n, m4@)).push(
                    lan_unspecified_v4_line(),
                ) =~= pass4);
                assert(views(ls@) =~= head + dns + pass4);
                if !self.is_block_ipv6 {
                    push_net_lines(&mut ls, &NetLine::Pass6, &v6, m6);
                    let unspec6 = String::from_str("pass quick inet6 from :: to { ").concat(
                        "ff02::/16, ff12::/16",
                    ).concat(" }");
                    assert(unspec6@ == lan_unspecified_v6_line());
                    let ghost before6 = views(ls@);
                    assert(before6 =~= head + dns + pass4 + g6.map_values(
                        |n: Seq<char>| net_line(NetLine::Pass6, n, m6@),
                    ));
                    ls.push(unspec6);
                    assert(views(ls@) =~= before6.push(lan_unspecified_v6_line()));
                    let ghost pass6 = g6.map_values(|n: Seq<char>| lan_pass_v6_line(n, m6@)).push(
                        lan_unspecified_v6_line(),
                    );
                    assert(g6.map_values(|n: Seq<char>| net_line(NetLine::Pass6, n, m6@)).push(
                        lan_unspecified_v6_line(),
                    ) =~= pass6);
                    assert(views(ls@) =~= head + dns + pass4 + pass6);
                }
                assert(views(ls@) =~= head + lan_rule_lines(*lan, self.is_block_ipv6));
            },
            None => {
                assert(views(ls@) =~= head + seq![]);
            },
        }
        let ghost body = views(ls@);
        ls.push(String::new());
        assert(views(ls@) =~= body.push(seq![]));
        assert(views(ls@) =~= self.lan_lines());
        write_lines(to, &ls);
    }

    /// Writes the ICMP passthrough, if enabled.
    pub fn write_icmp(&self, to: &mut String)
        ensures
            final(to)@ == old(to)@ + unlines(self.icmp_lines()),
    {
        let mut ls: Vec<String> = Vec::new();
        ls.push(String::from_str("# ICMP"));
        match &self.icmp {
            Some(ICMP::Echoreq) => {
                ls.push(
                    String::from_str("pass quick inet proto icmp all icmp-type echoreq label \"ICMP\""),
                );
                if !self.is_block_ipv6 {
                    ls.push(
                        String::from_str(
                            "pass quick inet6 proto icmp6 all icmp6-type echoreq label \"ICMP6\"",
                        ),
                    );
                }
            },
            Some(ICMP::All) => {
                ls.push(String::from_str("pass quick inet proto icmp all label \"ICMP\""));
                if !self.is_block_ipv6 {
                    ls.push(String::from_str("pass quick inet6 proto icmp6 all label \"ICMP6\""));
                }
            },
            None => {},
        }
        ls.push(String::new());
        assert(views(ls@) =~= self.icmp_lines());
        write_lines(to, &ls);
    }

    /// Writes the allow tables and the directives that pass them.
    pub fn write_destinations(&self, to: &mut String)
        ensures
            final(to)@ == old(to)@ + unlines(self.destination_lines()),
    {
        let ins = names_in_of(&self.pass_destinations);
        let outs = names_out_of(&self.pass_destinations);
        let i = self.tables.in_name();
        let o = self.tables.out_name();
        let mut ls: Vec<String> = Vec::new();
        ls.push(String::from_str("# DESTINATIONS"));
        ls.push(table_line_of(i, &ins));
        ls.push(table_line_of(o, &outs));
        ls.push(String::from_str("pass in quick from <").concat(i).concat("> to any"));
        ls.push(String::from_str("pass out quick from any to <").concat(o).concat(">"));
        ls.push(String::new());
        assert(views(ls@) =~= self.destination_lines());
        write_lines(to, &ls);
    }
}

impl Default for Rules {
    /// The default policy over the default table names.
    fn default() -> (r: Self)
        ensures
            r.block_table() == DEFAULT_BLOCK_TABLE_NAME@,
            r.in_table() == DEFAULT_IN_TABLE_NAME@,
            r.out_table() == DEFAULT_OUT_TABLE_NAME@,
            r.has_default_knobs(),
    {
        proof {
            reveal_strlit("netlock_block");
            reveal_strlit("netlock_pass_in");
            reveal_strlit("netlock_pass_out");
        }
        Rules::new(DEFAULT_BLOCK_TABLE_NAME, DEFAULT_IN_TABLE_NAME, DEFAULT_OUT_TABLE_NAME)
    }
}

/// The views of a sequence of string slices.
pub open spec fn strs(v: Seq<&str>) -> Seq<Seq<char>> {
    v.map_values(|s: &str| s@)
}

fn ipv4_networks() -> (r: Vec<&'static str>)
    ensures
        strs(r@) == ipv4_private_networks(),
{
    let mut r: Vec<&'static str> = Vec::new();
    r.push("169.254.0.0/16");
    r.push("192.168.0.0/16");
    r.push("172.16.0.0/12");
    r.push("10.0.0.0/8");
    assert(strs(r@) =~= ipv4_private_networks());
    r
}

fn ipv6_networks() -> (r: Vec<&'static str>)
    ensures
        strs(r@) == ipv6_private_networks(),
{
    let mut r: Vec<&'static str> = Vec::new();
    r.push("fe80::/10");
    r.push("fc00::/7");
    assert(strs(r@) =~= ipv6_private_networks());
    r
}

/// Which directive a private network gets.
enum NetLine {
    Dns4,
    Dns6,
    Pass4,
    Pass6,
}

spec fn net_line(kind: NetLine, net: Seq<char>, m: Seq<char>) -> Seq<char> {
    match kind {
        NetLine::Dns4 => dns_block_line("inet"@, net),
        NetLine::Dns6 => dns_block_line("inet6"@, net),
        NetLine::Pass4 => lan_pass_v4_line(net, m),
        NetLine::Pass6 => lan_pass_v6_line(net, m),
    }
}

/// Appends the directive of kind `kind` for each of `nets`.
fn push_net_lines(ls: &mut Vec<String>, kind: &NetLine, nets: &Vec<&str>, m: &str)
    ensures
        views(final(ls)@) == views(old(ls)@) + strs(nets@).map_values(
            |n: Seq<char>| net_line(*kind, n, m@),
        ),
{
    let ghost start = views(ls@);
    let mut i: usize = 0;
    while i < nets.len()
        invariant
            i <= nets.len(),
            views(ls@) == start + strs(nets@.take(i as int)).map_values(
                |n: Seq<char>| net_line(*kind, n, m@),
            ),
        decreases nets.len() - i,
    {
        let n = nets[i];
        let l = match kind {
            NetLine::Dns4 => String::from_str("block return out quick inet proto { tcp, udp } from ")
                .concat(n).concat(" to ").concat(n).concat(" port domain"),
            NetLine::Dns6 => String::from_str("block return out quick inet6 proto { tcp, udp } from ")
                .concat(n).concat(" to ").concat(n).concat(" port domain"),
            NetLine::Pass4 => String::from_str("pass quick inet from ").concat(n).concat(
                " to { ",
            ).concat(n).concat(", 255.255.255.255, ").concat(m).concat(" }"),
            NetLine::Pass6 => String::from_str("pass quick inet6 from ").concat(n).concat(
                " to { ",
            ).concat(n).concat(", ").concat(m).concat(" }"),
        };
        proof {
            reveal_strlit("block return out quick inet proto { tcp, udp } from ");
            reveal_strlit("block return out quick inet6 proto { tcp, udp } from ");
            reveal_strlit("block return out quick ");
            reveal_strlit("inet");
            reveal_strlit("inet6");
            reveal_strlit(" proto { tcp, udp } from ");
        }
        assert(l@ == net_line(*kind, n@, m@));
        let ghost ls0 = views(ls@);
        ls.push(l);
        i = i + 1;
        assert(strs(nets@.take(i as int)) =~= strs(nets@.take(i - 1)).push(n@));
        assert(views(ls@) =~= ls0.push(net_line(*kind, n@, m@)));
        assert(views(ls@) =~= start + strs(nets@.take(i as int)).map_values(
            |n: Seq<char>| net_line(*kind, n, m@),
        ));
    }
    assert(nets@.take(nets.len() as int) =~= nets@);
}

} // verus!
