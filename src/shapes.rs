//! Which directives a compiled policy can hold, judged by how its lines open.
use vstd::prelude::*;

use crate::laws::lan_directives;
use crate::rules::{dns_block_line, lan_pass_v4_line, lan_unspecified_v4_line, Multicast, Rules};

verus! {

/// A line whose opening characters rule out the skip directive: empty, or
/// opening a comment, a block, a pass, a table, a policy option other than
/// skip, or a scrub.
pub open spec fn not_skip_shaped(l: Seq<char>) -> bool {
    ||| l.len() == 0
    ||| l[0] == '#' || l[0] == 'b' || l[0] == 'p' || l[0] == 't'
    ||| (l.len() > 4 && l[0] == 's' && l[4] == 'b')
    ||| (l.len() > 5 && l[0] == 's' && l[5] == 't')
    ||| (l.len() > 1 && l[0] == 's' && l[1] == 'c')
}

proof fn lemma_not_skip(l: Seq<char>)
    requires
        not_skip_shaped(l),
    ensures
        !crate::text::starts_with(l, "set skip on"@),
{
    reveal_strlit("set skip on");
    if crate::text::starts_with(l, "set skip on"@) {
        assert(l.take(11) == "set skip on"@);
        assert(l[0] == l.take(11)[0]);
        assert(l[1] == l.take(11)[1]);
        assert(l[4] == l.take(11)[4]);
        assert(l[5] == l.take(11)[5]);
    }
}

/// Every line of `ls` is shaped so.
pub open spec fn all_shaped(ls: Seq<Seq<char>>) -> bool {
    forall|i: int| 0 <= i < ls.len() ==> not_skip_shaped(#[trigger] ls[i])
}

proof fn lemma_shaped_concat(a: Seq<Seq<char>>, b: Seq<Seq<char>>)
    requires
        all_shaped(a),
        all_shaped(b),
    ensures
        all_shaped(a + b),
{
    assert forall|i: int| 0 <= i < (a + b).len() implies not_skip_shaped(#[trigger] (a + b)[i]) by {
        if i < a.len() {
            assert((a + b)[i] == a[i]);
        } else {
            assert((a + b)[i] == b[i - a.len()]);
        }
    }
}

proof fn lemma_all_not_skip(ls: Seq<Seq<char>>)
    requires
        forall|i: int| 0 <= i < ls.len() ==> not_skip_shaped(#[trigger] ls[i]),
    ensures
        forall|i: int| 0 <= i < ls.len() ==> !crate::text::starts_with(#[trigger] ls[i], "set skip on"@),
{
    assert forall|i: int| 0 <= i < ls.len() implies !crate::text::starts_with(#[trigger] ls[i], "set skip on"@) by {
        lemma_not_skip(ls[i]);
    }
}


proof fn lemma_head_sections(r: &Rules, ts: u64)
    requires
        r.skip_interfaces@.len() == 0,
    ensures
        all_shaped(Rules::header_lines(ts)),
        all_shaped(r.option_lines()),
        all_shaped(r.scrub_lines()),
        all_shaped(r.incoming_lines()),
        all_shaped(r.outgoing_lines()),
        all_shaped(r.antispoofing_lines()),
{
    reveal_strlit("# HEADER");
    reveal_strlit("# ");
    reveal_strlit("# OPTIONS");
    reveal_strlit("set block-policy ");
    reveal_strlit("set state-policy ");
    reveal_strlit("# SCRUB");
    reveal_strlit("scrub in all");
    reveal_strlit("scrub out all min-ttl ");
    reveal_strlit("# INCOMING");
    reveal_strlit("block ");
    reveal_strlit("pass in all");
    reveal_strlit("# OUTGOING");
    reveal_strlit("block return out ");
    reveal_strlit("pass out all");
    reveal_strlit("# ANTISPOOFING");
    reveal_strlit("block drop in ");
    assert(r.option_lines() =~= seq![
        "# OPTIONS"@,
        "set block-policy "@ + r.block_policy.spec_word(),
        "set state-policy "@ + r.state_policy.spec_word(),
        seq![],
    ]);
}

proof fn lemma_middle_sections(r: &Rules)
    ensures
        all_shaped(r.blocklist_lines()),
        all_shaped(r.interface_lines()),
        all_shaped(r.owner_lines()),
        all_shaped(r.ipv6_lines()),
{
    reveal_strlit("# BLOCKLIST");
    reveal_strlit("table <");
    reveal_strlit("block drop in quick from <");
    reveal_strlit("block return out quick from any to <");
    reveal_strlit("# INTERFACES");
    reveal_strlit("pass_in");
    reveal_strlit("pass_out");
    reveal_strlit("pass in quick on { ");
    reveal_strlit("pass out quick on { ");
    reveal_strlit("# OWNERS");
    reveal_strlit("pass quick all user { ");
    reveal_strlit("pass quick all group { ");
    reveal_strlit("# IPV6");
    reveal_strlit("block ");
    reveal_strlit("block return out quick inet6 all");
    let ins = crate::rules::names_in(r.pass_interfaces@);
    let outs = crate::rules::names_out(r.pass_interfaces@);
    let b = crate::rules::macro_lines("pass_in"@, ins);
    let c = crate::rules::macro_lines("pass_out"@, outs);
    let d = r.interface_rule_lines();
    assert forall|i: int| 0 <= i < r.interface_lines().len() implies not_skip_shaped(
        #[trigger] r.interface_lines()[i],
    ) by {
        if i == 0 {
        } else if i < 1 + b.len() {
            assert(r.interface_lines()[i] == b[i - 1]);
            assert(b[i - 1][0] == 'p');
        } else if i < 1 + b.len() + c.len() {
            assert(r.interface_lines()[i] == c[i - 1 - b.len()]);
            assert(c[i - 1 - b.len()][0] == 'p');
        } else if i < 1 + b.len() + c.len() + d.len() {
            assert(r.interface_lines()[i] == d[i - 1 - b.len() - c.len()]);
        }
    }
}

proof fn lemma_tail_sections(r: &Rules)
    ensures
        all_shaped(r.lan_lines()),
        all_shaped(r.icmp_lines()),
        all_shaped(r.destination_lines()),
{
    reveal_strlit("# LAN");
    reveal_strlit("block return out quick ");
    reveal_strlit("pass quick inet from ");
    reveal_strlit("pass quick inet6 from ");
    reveal_strlit("pass quick inet from 0.0.0.0 to { 255.255.255.255, ");
    reveal_strlit("pass quick inet6 from :: to { ");
    reveal_strlit("# ICMP");
    reveal_strlit("pass quick inet proto icmp all icmp-type echoreq label \"ICMP\"");
    reveal_strlit("pass quick inet6 proto icmp6 all icmp6-type echoreq label \"ICMP6\"");
    reveal_strlit("pass quick inet proto icmp all label \"ICMP\"");
    reveal_strlit("pass quick inet6 proto icmp6 all label \"ICMP6\"");
    reveal_strlit("# DESTINATIONS");
    reveal_strlit("table <");
    reveal_strlit("pass in quick from <");
    reveal_strlit("pass out quick from any to <");
    assert forall|i: int| 0 <= i < r.lan_lines().len() implies not_skip_shaped(
        #[trigger] r.lan_lines()[i],
    ) by {
        if i > 0 && i < r.lan_lines().len() - 1 {
            let lan = r.lan->0;
            let l = r.lan_lines()[i];
            assert(l == lan_directives(r)[i - 1]);
            let m4 = match lan.multicast {
                Multicast::NotRoutable => crate::rules::ipv4_not_routable_multicast(),
                Multicast::All => crate::rules::ipv4_multicast(),
            };
            let m6 = match lan.multicast {
                Multicast::NotRoutable => crate::rules::ipv6_not_routable_multicast(),
                Multicast::All => crate::rules::ipv6_multicast(),
            };
            assert(forall|n: Seq<char>| (#[trigger] dns_block_line("inet"@, n))[0] == 'b');
            assert(forall|n: Seq<char>| (#[trigger] dns_block_line("inet6"@, n))[0] == 'b');
            assert(forall|n: Seq<char>| (#[trigger] lan_pass_v4_line(n, m4))[0] == 'p');
            assert(forall|n: Seq<char>| (#[trigger] crate::rules::lan_pass_v6_line(n, m6))[0] == 'p');
            assert(lan_unspecified_v4_line()[0] == 'p');
            assert(crate::rules::lan_unspecified_v6_line()[0] == 'p');
        }
    }
}

/// Without interfaces to skip, no line of the compiled text is a `set skip on`
/// directive.
pub proof fn lemma_no_skip_directive(r: &Rules, ts: u64)
    requires
        r.skip_interfaces@.len() == 0,
    ensures
        forall|i: int|
            0 <= i < r.compiled_lines(ts).len() ==> !crate::text::starts_with(
                #[trigger] r.compiled_lines(ts)[i],
                "set skip on"@,
            ),
{
    lemma_head_sections(r, ts);
    lemma_middle_sections(r);
    lemma_tail_sections(r);
    let ls = r.compiled_lines(ts);
    let h = Rules::header_lines(ts);
    let mut acc = h;
    lemma_shaped_concat(acc, r.option_lines());
    acc = acc + r.option_lines();
    lemma_shaped_concat(acc, r.scrub_lines());
    acc = acc + r.scrub_lines();
    lemma_shaped_concat(acc, r.incoming_lines());
    acc = acc + r.incoming_lines();
    lemma_shaped_concat(acc, r.outgoing_lines());
    acc = acc + r.outgoing_lines();
    lemma_shaped_concat(acc, r.antispoofing_lines());
    acc = acc + r.antispoofing_lines();
    lemma_shaped_concat(acc, r.blocklist_lines());
    acc = acc + r.blocklist_lines();
    lemma_shaped_concat(acc, r.interface_lines());
    acc = acc + r.interface_lines();
    lemma_shaped_concat(acc, r.owner_lines());
    acc = acc + r.owner_lines();
    lemma_shaped_concat(acc, r.ipv6_lines());
    acc = acc + r.ipv6_lines();
    lemma_shaped_concat(acc, r.lan_lines());
    acc = acc + r.lan_lines();
    lemma_shaped_concat(acc, r.icmp_lines());
    acc = acc + r.icmp_lines();
    lemma_shaped_concat(acc, r.destination_lines());
    acc = acc + r.destination_lines();
    assert(acc =~= ls);
    lemma_all_not_skip(ls);
}


/// A line whose opening characters rule out an IPv6 passthrough
/// (`pass quick inet6 ...`).
pub open spec fn not_v6_pass_shaped(l: Seq<char>) -> bool {
    ||| l.len() == 0
    ||| l[0] != 'p'
    ||| (l.len() > 4 && l[4] == '_')
    ||| (l.len() > 5 && (l[5] == 'i' || l[5] == 'o'))
    ||| (l.len() > 11 && l[11] == 'a')
    ||| (l.len() > 15 && l[15] == ' ')
}

/// Every line of `ls` is shaped so.
pub open spec fn all_v6_shaped(ls: Seq<Seq<char>>) -> bool {
    forall|i: int| 0 <= i < ls.len() ==> not_v6_pass_shaped(#[trigger] ls[i])
}

proof fn lemma_v6_concat(a: Seq<Seq<char>>, b: Seq<Seq<char>>)
    requires
        all_v6_shaped(a),
        all_v6_shaped(b),
    ensures
        all_v6_shaped(a + b),
{
    assert forall|i: int| 0 <= i < (a + b).len() implies not_v6_pass_shaped(#[trigger] (a + b)[i]) by {
        if i < a.len() {
            assert((a + b)[i] == a[i]);
        } else {
            assert((a + b)[i] == b[i - a.len()]);
        }
    }
}

proof fn lemma_v6_head(r: &Rules, ts: u64)
    ensures
        all_v6_shaped(Rules::header_lines(ts)),
        all_v6_shaped(r.option_lines()),
        all_v6_shaped(r.scrub_lines()),
        all_v6_shaped(r.incoming_lines()),
        all_v6_shaped(r.outgoing_lines()),
        all_v6_shaped(r.antispoofing_lines()),
{
    reveal_strlit("# HEADER");
    reveal_strlit("# ");
    reveal_strlit("# OPTIONS");
    reveal_strlit("set block-policy ");
    reveal_strlit("set state-policy ");
    reveal_strlit("skip");
    reveal_strlit("set skip on { ");
    reveal_strlit("# SCRUB");
    reveal_strlit("scrub in all");
    reveal_strlit("scrub out all min-ttl ");
    reveal_strlit("# INCOMING");
    reveal_strlit("block ");
    reveal_strlit("pass in all");
    reveal_strlit("# OUTGOING");
    reveal_strlit("block return out ");
    reveal_strlit("pass out all");
    reveal_strlit("# ANTISPOOFING");
    reveal_strlit("block drop in ");
    let n = r.skip_names();
    let ml = crate::rules::macro_lines("skip"@, n);
    assert forall|i: int| 0 <= i < r.option_lines().len() implies not_v6_pass_shaped(
        #[trigger] r.option_lines()[i],
    ) by {
        if n.len() > 0 && 3 <= i < 3 + ml.len() {
            assert(r.option_lines()[i] == ml[i - 3]);
            assert(ml[i - 3][0] == 's');
        }
    }
}

proof fn lemma_v6_middle(r: &Rules)
    ensures
        all_v6_shaped(r.blocklist_lines()),
        all_v6_shaped(r.interface_lines()),
        all_v6_shaped(r.owner_lines()),
        all_v6_shaped(r.ipv6_lines()),
{
    reveal_strlit("# BLOCKLIST");
    reveal_strlit("table <");
    reveal_strlit("block drop in quick from <");
    reveal_strlit("block return out quick from any to <");
    reveal_strlit("# INTERFACES");
    reveal_strlit("pass_in");
    reveal_strlit("pass_out");
    reveal_strlit("pass in quick on { ");
    reveal_strlit("pass out quick on { ");
    reveal_strlit("# OWNERS");
    reveal_strlit("pass quick all user { ");
    reveal_strlit("pass quick all group { ");
    reveal_strlit("# IPV6");
    reveal_strlit("block ");
    reveal_strlit("block return out quick inet6 all");
    let ins = crate::rules::names_in(r.pass_interfaces@);
    let outs = crate::rules::names_out(r.pass_interfaces@);
    let b = crate::rules::macro_lines("pass_in"@, ins);
    let c = crate::rules::macro_lines("pass_out"@, outs);
    let d = r.interface_rule_lines();
    assert forall|i: int| 0 <= i < r.interface_lines().len() implies not_v6_pass_shaped(
        #[trigger] r.interface_lines()[i],
    ) by {
        if i == 0 {
        } else if i < 1 + b.len() {
            assert(r.interface_lines()[i] == b[i - 1]);
            assert(b[i - 1][4] == '_');
        } else if i < 1 + b.len() + c.len() {
            assert(r.interface_lines()[i] == c[i - 1 - b.len()]);
            assert(c[i - 1 - b.len()][4] == '_');
        } else if i < 1 + b.len() + c.len() + d.len() {
            assert(r.interface_lines()[i] == d[i - 1 - b.len() - c.len()]);
        }
    }
}

proof fn lemma_v6_tail(r: &Rules)
    requires
        r.is_block_ipv6,
    ensures
        all_v6_shaped(r.lan_lines()),
        all_v6_shaped(r.icmp_lines()),
        all_v6_shaped(r.destination_lines()),
{
    reveal_strlit("# LAN");
    reveal_strlit("block return out quick ");
    reveal_strlit("pass quick inet from ");
    reveal_strlit("pass quick inet from 0.0.0.0 to { 255.255.255.255, ");
    reveal_strlit("# ICMP");
    reveal_strlit("pass quick inet proto icmp all icmp-type echoreq label \"ICMP\"");
    reveal_strlit("pass quick inet proto icmp all label \"ICMP\"");
    reveal_strlit("# DESTINATIONS");
    reveal_strlit("table <");
    reveal_strlit("pass in quick from <");
    reveal_strlit("pass out quick from any to <");
    crate::laws::lemma_ipv6_suppression(r);
    assert forall|i: int| 0 <= i < r.lan_lines().len() implies not_v6_pass_shaped(
        #[trigger] r.lan_lines()[i],
    ) by {
        if i > 0 && i < r.lan_lines().len() - 1 {
            let lan = r.lan->0;
            let l = r.lan_lines()[i];
            assert(l == lan_directives(r)[i - 1]);
            let m4 = match lan.multicast {
                Multicast::NotRoutable => crate::rules::ipv4_not_routable_multicast(),
                Multicast::All => crate::rules::ipv4_multicast(),
            };
            assert(forall|n: Seq<char>| (#[trigger] dns_block_line("inet"@, n))[0] == 'b');
            assert(forall|n: Seq<char>| (#[trigger] lan_pass_v4_line(n, m4))[15] == ' ');
            assert(lan_unspecified_v4_line()[15] == ' ');
        }
    }
}

/// With IPv6 blocked, no line of the compiled text is an IPv6 passthrough
/// (`pass quick inet6 ...`: neither an IPv6 LAN nor an ICMPv6 one).
pub proof fn lemma_no_ipv6_passthrough(r: &Rules, ts: u64)
    requires
        r.is_block_ipv6,
    ensures
        forall|i: int|
            0 <= i < r.compiled_lines(ts).len() ==> !crate::text::starts_with(
                #[trigger] r.compiled_lines(ts)[i],
                "pass quick inet6"@,
            ),
{
    lemma_v6_head(r, ts);
    lemma_v6_middle(r);
    lemma_v6_tail(r);
    let ls = r.compiled_lines(ts);
    let mut acc = Rules::header_lines(ts);
    lemma_v6_concat(acc, r.option_lines());
    acc = acc + r.option_lines();
    lemma_v6_concat(acc, r.scrub_lines());
    acc = acc + r.scrub_lines();
    lemma_v6_concat(acc, r.incoming_lines());
    acc = acc + r.incoming_lines();
    lemma_v6_concat(acc, r.outgoing_lines());
    acc = acc + r.outgoing_lines();
    lemma_v6_concat(acc, r.antispoofing_lines());
    acc = acc + r.antispoofing_lines();
    lemma_v6_concat(acc, r.blocklist_lines());
    acc = acc + r.blocklist_lines();
    lemma_v6_concat(acc, r.interface_lines());
    acc = acc + r.interface_lines();
    lemma_v6_concat(acc, r.owner_lines());
    acc = acc + r.owner_lines();
    lemma_v6_concat(acc, r.ipv6_lines());
    acc = acc + r.ipv6_lines();
    lemma_v6_concat(acc, r.lan_lines());
    acc = acc + r.lan_lines();
    lemma_v6_concat(acc, r.icmp_lines());
    acc = acc + r.icmp_lines();
    lemma_v6_concat(acc, r.destination_lines());
    acc = acc + r.destination_lines();
    assert(acc =~= ls);
    reveal_strlit("pass quick inet6");
    assert forall|i: int| 0 <= i < ls.len() implies !crate::text::starts_with(
        #[trigger] ls[i],
        "pass quick inet6"@,
    ) by {
        let l = ls[i];
        assert(not_v6_pass_shaped(l));
        if crate::text::starts_with(l, "pass quick inet6"@) {
            assert(l.take(16) == "pass quick inet6"@);
            assert(l[0] == l.take(16)[0]);
            assert(l[4] == l.take(16)[4]);
            assert(l[5] == l.take(16)[5]);
            assert(l[11] == l.take(16)[11]);
            assert(l[15] == l.take(16)[15]);
        }
    }
}


/// A line whose opening characters rule out an interface passthrough
/// (`pass in quick on` or `pass out quick on`).
pub open spec fn not_iface_pass_shaped(l: Seq<char>) -> bool {
    ||| l.len() < 16
    ||| l[0] != 'p'
    ||| l[4] != ' '
    ||| l[5] == 'q'
    ||| (l[5] == 'i' && (l[8] == 'a' || l[14] == 'f'))
    ||| (l[5] == 'o' && (l[9] == 'a' || (l.len() > 16 && l[15] == 'f')))
}

/// Every line of `ls` is shaped so.
pub open spec fn all_iface_shaped(ls: Seq<Seq<char>>) -> bool {
    forall|i: int| 0 <= i < ls.len() ==> not_iface_pass_shaped(#[trigger] ls[i])
}

proof fn lemma_iface_concat(a: Seq<Seq<char>>, b: Seq<Seq<char>>)
    requires
        all_iface_shaped(a),
        all_iface_shaped(b),
    ensures
        all_iface_shaped(a + b),
{
    assert forall|i: int| 0 <= i < (a + b).len() implies not_iface_pass_shaped(#[trigger] (a + b)[i]) by {
        if i < a.len() {
            assert((a + b)[i] == a[i]);
        } else {
            assert((a + b)[i] == b[i - a.len()]);
        }
    }
}

proof fn lemma_iface_head(r: &Rules, ts: u64)
    ensures
        all_iface_shaped(Rules::header_lines(ts)),
        all_iface_shaped(r.option_lines()),
        all_iface_shaped(r.scrub_lines()),
        all_iface_shaped(r.incoming_lines()),
        all_iface_shaped(r.outgoing_lines()),
        all_iface_shaped(r.antispoofing_lines()),
{
    reveal_strlit("# HEADER");
    reveal_strlit("# ");
    reveal_strlit("# OPTIONS");
    reveal_strlit("set block-policy ");
    reveal_strlit("set state-policy ");
    reveal_strlit("skip");
    reveal_strlit("set skip on { ");
    reveal_strlit("# SCRUB");
    reveal_strlit("scrub in all");
    reveal_strlit("scrub out all min-ttl ");
    reveal_strlit("# INCOMING");
    reveal_strlit("block ");
    reveal_strlit("pass in all");
    reveal_strlit("# OUTGOING");
    reveal_strlit("block return out ");
    reveal_strlit("pass out all");
    reveal_strlit("# ANTISPOOFING");
    reveal_strlit("block drop in ");
    let n = r.skip_names();
    let ml = crate::rules::macro_lines("skip"@, n);
    assert forall|i: int| 0 <= i < r.option_lines().len() implies not_iface_pass_shaped(
        #[trigger] r.option_lines()[i],
    ) by {
        if n.len() > 0 && 3 <= i < 3 + ml.len() {
            assert(r.option_lines()[i] == ml[i - 3]);
            assert(ml[i - 3].len() > 0 && ml[i - 3][0] == 's');
        }
    }
}

proof fn lemma_iface_rest(r: &Rules)
    requires
        r.pass_interfaces@.len() == 0,
    ensures
        all_iface_shaped(r.blocklist_lines()),
        all_iface_shaped(r.interface_lines()),
        all_iface_shaped(r.owner_lines()),
        all_iface_shaped(r.ipv6_lines()),
        all_iface_shaped(r.lan_lines()),
        all_iface_shaped(r.icmp_lines()),
        all_iface_shaped(r.destination_lines()),
{
    reveal_strlit("# BLOCKLIST");
    reveal_strlit("table <");
    reveal_strlit("block drop in quick from <");
    reveal_strlit("block return out quick from any to <");
    reveal_strlit("# INTERFACES");
    reveal_strlit("# OWNERS");
    reveal_strlit("pass quick all user { ");
    reveal_strlit("pass quick all group { ");
    reveal_strlit("# IPV6");
    reveal_strlit("block ");
    reveal_strlit("block return out quick inet6 all");
    reveal_strlit("# LAN");
    reveal_strlit("block return out quick ");
    reveal_strlit("pass quick inet from ");
    reveal_strlit("pass quick inet6 from ");
    reveal_strlit("pass quick inet from 0.0.0.0 to { 255.255.255.255, ");
    reveal_strlit("pass quick inet6 from :: to { ");
    reveal_strlit("# ICMP");
    reveal_strlit("pass quick inet proto icmp all icmp-type echoreq label \"ICMP\"");
    reveal_strlit("pass quick inet6 proto icmp6 all icmp6-type echoreq label \"ICMP6\"");
    reveal_strlit("pass quick inet proto icmp all label \"ICMP\"");
    reveal_strlit("pass quick inet6 proto icmp6 all label \"ICMP6\"");
    reveal_strlit("# DESTINATIONS");
    reveal_strlit("pass in quick from <");
    reveal_strlit("pass out quick from any to <");
    crate::laws::lemma_empty_suppression(r);
    assert forall|i: int| 0 <= i < r.lan_lines().len() implies not_iface_pass_shaped(
        #[trigger] r.lan_lines()[i],
    ) by {
        if i > 0 && i < r.lan_lines().len() - 1 {
            let lan = r.lan->0;
            let l = r.lan_lines()[i];
            assert(l == lan_directives(r)[i - 1]);
            let m4 = match lan.multicast {
                Multicast::NotRoutable => crate::rules::ipv4_not_routable_multicast(),
                Multicast::All => crate::rules::ipv4_multicast(),
            };
            let m6 = match lan.multicast {
                Multicast::NotRoutable => crate::rules::ipv6_not_routable_multicast(),
                Multicast::All => crate::rules::ipv6_multicast(),
            };
            assert(forall|n: Seq<char>| (#[trigger] dns_block_line("inet"@, n))[0] == 'b');
            assert(forall|n: Seq<char>| (#[trigger] dns_block_line("inet6"@, n))[0] == 'b');
            assert(forall|n: Seq<char>| (#[trigger] lan_pass_v4_line(n, m4))[5] == 'q');
            assert(forall|n: Seq<char>| (#[trigger] crate::rules::lan_pass_v6_line(n, m6))[5] == 'q');
            assert(lan_unspecified_v4_line()[5] == 'q');
            assert(crate::rules::lan_unspecified_v6_line()[5] == 'q');
        }
    }
}

/// Without interfaces to pass, no line of the compiled text is an interface
/// passthrough directive.
pub proof fn lemma_no_interface_passthrough(r: &Rules, ts: u64)
    requires
        r.pass_interfaces@.len() == 0,
    ensures
        forall|i: int|
            0 <= i < r.compiled_lines(ts).len() ==> !crate::text::starts_with(
                #[trigger] r.compiled_lines(ts)[i],
                "pass in quick on"@,
            ) && !crate::text::starts_with(r.compiled_lines(ts)[i], "pass out quick on"@),
{
    lemma_iface_head(r, ts);
    lemma_iface_rest(r);
    let ls = r.compiled_lines(ts);
    let mut acc = Rules::header_lines(ts);
    lemma_iface_concat(acc, r.option_lines());
    acc = acc + r.option_lines();
    lemma_iface_concat(acc, r.scrub_lines());
    acc = acc + r.scrub_lines();
    lemma_iface_concat(acc, r.incoming_lines());
    acc = acc + r.incoming_lines();
    lemma_iface_concat(acc, r.outgoing_lines());
    acc = acc + r.outgoing_lines();
    lemma_iface_concat(acc, r.antispoofing_lines());
    acc = acc + r.antispoofing_lines();
    lemma_iface_concat(acc, r.blocklist_lines());
    acc = acc + r.blocklist_lines();
    lemma_iface_concat(acc, r.interface_lines());
    acc = acc + r.interface_lines();
    lemma_iface_concat(acc, r.owner_lines());
    acc = acc + r.owner_lines();
    lemma_iface_concat(acc, r.ipv6_lines());
    acc = acc + r.ipv6_lines();
    lemma_iface_concat(acc, r.lan_lines());
    acc = acc + r.lan_lines();
    lemma_iface_concat(acc, r.icmp_lines());
    acc = acc + r.icmp_lines();
    lemma_iface_concat(acc, r.destination_lines());
    acc = acc + r.destination_lines();
    assert(acc =~= ls);
    reveal_strlit("pass in quick on");
    reveal_strlit("pass out quick on");
    assert forall|i: int| 0 <= i < ls.len() implies !crate::text::starts_with(
        #[trigger] ls[i],
        "pass in quick on"@,
    ) && !crate::text::starts_with(ls[i], "pass out quick on"@) by {
        let l = ls[i];
        assert(not_iface_pass_shaped(l));
        if crate::text::starts_with(l, "pass in quick on"@) {
            let t = l.take(16);
            assert(t == "pass in quick on"@);
            assert(l[0] == t[0] && l[4] == t[4] && l[5] == t[5] && l[8] == t[8] && l[14] == t[14]);
        }
        if crate::text::starts_with(l, "pass out quick on"@) {
            let t = l.take(17);
            assert(t == "pass out quick on"@);
            assert(l[0] == t[0] && l[4] == t[4] && l[5] == t[5] && l[9] == t[9] && l[15] == t[15]);
        }
    }
}

} // verus!
