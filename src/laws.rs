//! Properties of the compiled policy, stated over its line sequence.
use vstd::prelude::*;

use crate::manager::{
    namespaced, ANCHOR_REPLACE_TO, apply_line, apply_lines, bool_word, settings_lines, CtlView, Persisted, SETTINGS_CTL_STATE,
    SETTINGS_CTL_TOKEN, SETTINGS_MANAGER_ANCHOR, SETTINGS_MANAGER_STATE,
};
use crate::text::{lines, split_on, strip_cr};
use crate::rules::{
    icmp_rule_lines, ipv4_private_networks, lan_pass_v4_line, lan_rule_lines,
    lan_unspecified_v4_line, dns_block_line, unlines, Multicast, Rules, ICMP,
};

verus! {

/// Two policies agree on every knob, table names included.
pub open spec fn same_knobs(a: &Rules, b: &Rules) -> bool {
    &&& a.block_table() == b.block_table()
    &&& a.in_table() == b.in_table()
    &&& a.out_table() == b.out_table()
    &&& a.block_policy == b.block_policy
    &&& a.state_policy == b.state_policy
    &&& a.min_ttl == b.min_ttl
    &&& a.is_enable_log == b.is_enable_log
    &&& a.incoming == b.incoming
    &&& a.outgoing == b.outgoing
    &&& a.antispoofing == b.antispoofing
    &&& a.is_block_ipv6 == b.is_block_ipv6
    &&& a.lan == b.lan
    &&& a.icmp == b.icmp
    &&& a.skip_interfaces@ == b.skip_interfaces@
    &&& a.pass_interfaces@ == b.pass_interfaces@
    &&& a.pass_owners@ == b.pass_owners@
    &&& a.block_destinations@ == b.block_destinations@
    &&& a.pass_destinations@ == b.pass_destinations@
}

/// Compiling is deterministic: policies with the same knobs, compiled at any
/// two times, give the same lines but for the timestamp line (line 1), and the
/// same text when the times are equal.
pub proof fn lemma_compile_deterministic(a: &Rules, b: &Rules, t1: u64, t2: u64)
    requires
        same_knobs(a, b),
    ensures
        a.compiled_lines(t1).len() == b.compiled_lines(t2).len(),
        forall|i: int|
            0 <= i < a.compiled_lines(t1).len() && i != 1 ==> a.compiled_lines(t1)[i]
                == b.compiled_lines(t2)[i],
        t1 == t2 ==> a.compiled(t1) == b.compiled(t2),
{
    assert(a.body_lines() == b.body_lines());
}


/// The LAN directives that a policy emits.
pub open spec fn lan_directives(r: &Rules) -> Seq<Seq<char>> {
    match r.lan {
        Some(lan) => lan_rule_lines(lan, r.is_block_ipv6),
        None => seq![],
    }
}

/// Directive order: in the compiled lines, the directive that blocks the deny
/// table (index `deny`) comes before every interface passthrough directive
/// (indices `i0..i1`), those before every LAN passthrough (`l0..l1`) and ICMP
/// passthrough (`c0..c1`) directive, and those before the two directives that
/// pass the allow tables (`allow`, `allow + 1`).
pub proof fn lemma_directive_order(r: &Rules, ts: u64) -> (idx: (int, int, int, int, int, int, int, int))
    ensures
        ({
            let ls = r.compiled_lines(ts);
            let (deny, i0, i1, l0, l1, c0, c1, allow) = idx;
            &&& 0 <= deny < i0 <= i1 <= l0 <= l1 <= c0 <= c1 < allow
            &&& allow + 1 < ls.len()
            &&& ls[deny] == r.blocklist_in_line()
            &&& ls.subrange(i0, i1) == r.interface_rule_lines()
            &&& ls.subrange(l0, l1) == lan_directives(r)
            &&& ls.subrange(c0, c1) == icmp_rule_lines(r.icmp, r.is_block_ipv6)
            &&& ls[allow] == r.pass_in_table_line()
            &&& ls[allow + 1] == r.pass_out_table_line()
        }),
{
    let ls = r.compiled_lines(ts);
    let h = Rules::header_lines(ts);
    let pre_b = h + r.option_lines() + r.scrub_lines() + r.incoming_lines() + r.outgoing_lines()
        + r.antispoofing_lines();
    let with_b = pre_b + r.blocklist_lines();
    let with_if = with_b + r.interface_lines();
    let with_l = with_if + r.owner_lines() + r.ipv6_lines() + r.lan_lines();
    let with_ic = with_l + r.icmp_lines();
    assert(ls =~= with_ic + r.destination_lines());
    let deny: int = pre_b.len() as int + 2;
    let i0: int = with_b.len() + r.interface_lines().len() - 1 - r.interface_rule_lines().len();
    let i1: int = with_if.len() - 1;
    let l0: int = with_l.len() - r.lan_lines().len() + 1;
    let l1: int = with_l.len() - 1;
    let c0: int = with_l.len() as int + 1;
    let c1: int = with_ic.len() - 1;
    let allow: int = with_ic.len() as int + 3;
    assert(ls[deny] == r.blocklist_lines()[2]);
    assert(ls.subrange(i0, i1) =~= r.interface_lines().subrange(
        r.interface_lines().len() - 1 - r.interface_rule_lines().len(),
        r.interface_lines().len() - 1,
    ));
    assert(r.interface_lines().subrange(
        r.interface_lines().len() - 1 - r.interface_rule_lines().len(),
        r.interface_lines().len() - 1,
    ) =~= r.interface_rule_lines());
    assert(r.interface_lines().len() - 1 - r.interface_rule_lines().len() >= 1);
    assert(ls.subrange(l0, l1) =~= r.lan_lines().subrange(1, r.lan_lines().len() - 1));
    assert(r.lan_lines().subrange(1, r.lan_lines().len() - 1) =~= lan_directives(r));
    assert(ls.subrange(c0, c1) =~= r.icmp_lines().subrange(1, r.icmp_lines().len() - 1));
    assert(r.icmp_lines().subrange(1, r.icmp_lines().len() - 1) =~= icmp_rule_lines(
        r.icmp,
        r.is_block_ipv6,
    ));
    assert(ls[allow] == r.destination_lines()[3]);
    assert(ls[allow + 1] == r.destination_lines()[4]);
    (deny, i0, i1, l0, l1, c0, c1, allow)
}


/// Empty sets and disabled options are suppressed: their section holds only its
/// heading and the closing blank line (no `set skip on`, interface, owner,
/// antispoofing, LAN or ICMP directive), and a direction with no interface gets
/// no interface passthrough directive.
pub proof fn lemma_empty_suppression(r: &Rules)
    ensures
        r.skip_interfaces@.len() == 0 ==> r.option_lines() == seq![
            "# OPTIONS"@,
            "set block-policy "@ + r.block_policy.spec_word(),
            "set state-policy "@ + r.state_policy.spec_word(),
            seq![],
        ],
        r.pass_interfaces@.len() == 0 ==> r.interface_lines() == seq!["# INTERFACES"@, seq![]],
        r.pass_owners@.len() == 0 ==> r.owner_lines() == seq!["# OWNERS"@, seq![]],
        r.antispoofing is None ==> r.antispoofing_lines() == seq!["# ANTISPOOFING"@, seq![]],
        r.lan is None ==> r.lan_lines() == seq!["# LAN"@, seq![]],
        r.icmp is None ==> r.icmp_lines() == seq!["# ICMP"@, seq![]],
        (forall|i: int| 0 <= i < r.pass_interfaces@.len() ==> r.pass_interfaces@[i] is Out)
            ==> r.interface_rule_lines().len() <= 1 && (r.interface_rule_lines().len() == 1
            ==> r.interface_rule_lines()[0] == "pass out quick on { "@ + crate::text::join(
            crate::rules::macro_refs("pass_out"@, crate::rules::names_out(r.pass_interfaces@).len()),
            ", "@,
        ) + " } all"@),
        (forall|i: int| 0 <= i < r.pass_interfaces@.len() ==> r.pass_interfaces@[i] is In)
            ==> r.interface_rule_lines().len() <= 1 && (r.interface_rule_lines().len() == 1
            ==> r.interface_rule_lines()[0] == "pass in quick on { "@ + crate::text::join(
            crate::rules::macro_refs("pass_in"@, crate::rules::names_in(r.pass_interfaces@).len()),
            ", "@,
        ) + " } all"@),
{
    let ds = r.pass_interfaces@;
    if r.pass_interfaces@.len() == 0 {
        assert(crate::rules::names_in(ds) =~= seq![]);
        assert(crate::rules::names_out(ds) =~= seq![]);
        assert(r.interface_lines() =~= seq!["# INTERFACES"@, seq![]]);
    }
    if r.skip_interfaces@.len() == 0 {
        assert(r.option_lines() =~= seq![
            "# OPTIONS"@,
            "set block-policy "@ + r.block_policy.spec_word(),
            "set state-policy "@ + r.state_policy.spec_word(),
            seq![],
        ]);
    }
    if r.pass_owners@.len() == 0 {
        assert(r.owner_lines() =~= seq!["# OWNERS"@, seq![]]);
    }
    assert(r.antispoofing is None ==> r.antispoofing_lines() =~= seq!["# ANTISPOOFING"@, seq![]]);
    assert(r.lan is None ==> r.lan_lines() =~= seq!["# LAN"@, seq![]]);
    assert(r.icmp is None ==> r.icmp_lines() =~= seq!["# ICMP"@, seq![]]);
    if forall|i: int| 0 <= i < ds.len() ==> ds[i] is Out {
        lemma_no_names_in(ds);
    }
    if forall|i: int| 0 <= i < ds.len() ==> ds[i] is In {
        lemma_no_names_out(ds);
    }
}

proof fn lemma_no_names_in(ds: Seq<crate::tools::Direction>)
    requires
        forall|i: int| 0 <= i < ds.len() ==> ds[i] is Out,
    ensures
        crate::rules::names_in(ds).len() == 0,
    decreases ds.len(),
{
    if ds.len() > 0 {
        lemma_no_names_in(ds.drop_last());
    }
}

proof fn lemma_no_names_out(ds: Seq<crate::tools::Direction>)
    requires
        forall|i: int| 0 <= i < ds.len() ==> ds[i] is In,
    ensures
        crate::rules::names_out(ds).len() == 0,
    decreases ds.len(),
{
    if ds.len() > 0 {
        lemma_no_names_out(ds.drop_last());
    }
}

/// With IPv6 blocked, no IPv6 LAN or ICMPv6 passthrough is emitted: the LAN
/// directives are the IPv4 ones only (DNS blocks when asked, then the private
/// networks and the unspecified source), and the ICMP directive is the IPv4 one.
pub proof fn lemma_ipv6_suppression(r: &Rules)
    requires
        r.is_block_ipv6,
    ensures
        r.lan matches Some(lan) ==> lan_directives(r) == {
            let m4 = match lan.multicast {
                Multicast::NotRoutable => crate::rules::ipv4_not_routable_multicast(),
                Multicast::All => crate::rules::ipv4_multicast(),
            };
            let dns = if lan.is_block_out_dns {
                ipv4_private_networks().map_values(|n: Seq<char>| dns_block_line("inet"@, n))
            } else {
                seq![]
            };
            dns + ipv4_private_networks().map_values(|n: Seq<char>| lan_pass_v4_line(n, m4)).push(
                lan_unspecified_v4_line(),
            )
        },
        r.icmp == Some(ICMP::Echoreq) ==> icmp_rule_lines(r.icmp, r.is_block_ipv6) == seq![
            "pass quick inet proto icmp all icmp-type echoreq label \"ICMP\""@,
        ],
        r.icmp == Some(ICMP::All) ==> icmp_rule_lines(r.icmp, r.is_block_ipv6) == seq![
            "pass quick inet proto icmp all label \"ICMP\""@,
        ],
{
}


/// A settings value that reads back as written: no separator, no newline, no
/// trailing carriage return.
pub open spec fn storable(v: Seq<char>) -> bool {
    !v.contains(':') && !v.contains('\n') && strip_cr(v) == v
}

proof fn lemma_concat_free(a: Seq<char>, b: Seq<char>, c: char)
    requires
        !a.contains(c),
        !b.contains(c),
    ensures
        !(a + b).contains(c),
{
    if (a + b).contains(c) {
        let k = choose|k: int| 0 <= k < (a + b).len() && (a + b)[k] == c;
        if k < a.len() {
            assert(a[k] == c);
        } else {
            assert(b[k - a.len()] == c);
        }
    }
}

/// The facts about one `KEY:VALUE` line that reading it back needs.
proof fn lemma_setting_line(key: Seq<char>, val: Seq<char>)
    requires
        key.len() > 0,
        key[0] != '#',
        !key.contains(':'),
        !key.contains('\n'),
        storable(val),
    ensures
        !(key + ":"@ + val).contains('\n'),
        strip_cr(key + ":"@ + val) == key + ":"@ + val,
        split_on(key + ":"@ + val, ':') == seq![key, val],
        (key + ":"@ + val)[0] != '#',
{
    reveal_strlit(":");
    assert(":"@ =~= seq![':']);
    assert(!(":"@).contains('\n'));
    lemma_concat_free(key, ":"@, '\n');
    lemma_concat_free(key + ":"@, val, '\n');
    crate::text::lemma_split_pair(key, val, ':');
    let l = key + ":"@ + val;
    if val.len() > 0 {
        assert(l.last() == val.last());
        if val.last() == '\r' {
            assert(strip_cr(val) != val);
        }
    } else {
        assert(l.last() == ':');
    }
    assert(l[0] == key[0]);
}

proof fn lemma_keys()
    ensures
        SETTINGS_MANAGER_STATE@.len() > 0 && SETTINGS_MANAGER_STATE@[0] != '#'
            && !SETTINGS_MANAGER_STATE@.contains(':') && !SETTINGS_MANAGER_STATE@.contains('\n'),
        SETTINGS_MANAGER_ANCHOR@.len() > 0 && SETTINGS_MANAGER_ANCHOR@[0] != '#'
            && !SETTINGS_MANAGER_ANCHOR@.contains(':') && !SETTINGS_MANAGER_ANCHOR@.contains('\n'),
        SETTINGS_CTL_STATE@.len() > 0 && SETTINGS_CTL_STATE@[0] != '#'
            && !SETTINGS_CTL_STATE@.contains(':') && !SETTINGS_CTL_STATE@.contains('\n'),
        SETTINGS_CTL_TOKEN@.len() > 0 && SETTINGS_CTL_TOKEN@[0] != '#'
            && !SETTINGS_CTL_TOKEN@.contains(':') && !SETTINGS_CTL_TOKEN@.contains('\n'),
        SETTINGS_MANAGER_STATE@ != SETTINGS_MANAGER_ANCHOR@,
        SETTINGS_MANAGER_STATE@ != SETTINGS_CTL_STATE@,
        SETTINGS_MANAGER_STATE@ != SETTINGS_CTL_TOKEN@,
        SETTINGS_MANAGER_ANCHOR@ != SETTINGS_CTL_STATE@,
        SETTINGS_MANAGER_ANCHOR@ != SETTINGS_CTL_TOKEN@,
        SETTINGS_CTL_STATE@ != SETTINGS_CTL_TOKEN@,
        storable(bool_word(true)),
        storable(bool_word(false)),
        crate::manager::parse_bool(bool_word(true)) == Some(true),
        crate::manager::parse_bool(bool_word(false)) == Some(false),
{
    reveal_strlit("MANAGER_STATE");
    reveal_strlit("MANAGER_ANCHOR");
    reveal_strlit("CTL_STATE");
    reveal_strlit("CTL_TOKEN");
    reveal_strlit("true");
    reveal_strlit("false");
    assert(SETTINGS_CTL_STATE@[4] != SETTINGS_CTL_TOKEN@[4]);
    assert("true"@ != "false"@) by {
        assert("true"@.len() != "false"@.len());
    }
}

/// Settings round trip: the settings text written for `saved`, read into any
/// state `fresh` of the same protocol, restores `saved` exactly (enabled flag,
/// anchor and protocol state), provided the anchor and token are storable.
pub proof fn lemma_settings_round_trip(saved: Persisted, fresh: Persisted)
    requires
        storable(saved.anchor),
        saved.ctl matches CtlView::Token(t) ==> storable(t),
        (fresh.ctl is Token) == (saved.ctl is Token),
    ensures
        apply_lines(fresh, lines(unlines(settings_lines(saved)))) == saved,
{
    lemma_keys();
    let ls = settings_lines(saved);
    let (k3, v3) = match saved.ctl {
        CtlView::Toggle(b) => (SETTINGS_CTL_STATE@, bool_word(b)),
        CtlView::Token(t) => (SETTINGS_CTL_TOKEN@, t),
    };
    assert(storable(bool_word(saved.enabled)));
    lemma_setting_line(SETTINGS_MANAGER_STATE@, bool_word(saved.enabled));
    lemma_setting_line(SETTINGS_MANAGER_ANCHOR@, saved.anchor);
    if let CtlView::Toggle(b) = saved.ctl {
        assert(storable(bool_word(b)));
    }
    lemma_setting_line(k3, v3);
    assert(ls[2] == k3 + ":"@ + v3);
    crate::text::lemma_lines_unlines(ls);
    let after_first = apply_line(fresh, ls[0]);
    let after_second = apply_line(after_first, ls[1]);
    let after_third = apply_line(after_second, ls[2]);
    assert(ls.drop_last().drop_last().drop_last() =~= seq![]);
    assert(ls.drop_last().drop_last() =~= seq![ls[0]]);
    assert(ls.drop_last() =~= seq![ls[0], ls[1]]);
    let e: Seq<Seq<char>> = seq![];
    assert(apply_lines(fresh, e) == fresh);
    assert(apply_lines(fresh, seq![ls[0]]) == after_first) by {
        assert(seq![ls[0]].drop_last() =~= e);
        assert(seq![ls[0]].last() == ls[0]);
    }
    assert(apply_lines(fresh, seq![ls[0], ls[1]]) == after_second) by {
        assert(seq![ls[0], ls[1]].drop_last() =~= seq![ls[0]]);
        assert(seq![ls[0], ls[1]].last() == ls[1]);
    }
    assert(apply_lines(fresh, ls) == after_third);
    assert(after_first.enabled == saved.enabled);
    assert(after_second.anchor == saved.anchor);
    assert(after_third == saved);
}



/// Anchor namespacing: a name free of the placeholder `$` is kept as it is,
/// and a leading placeholder becomes the namespace of this tool's anchors.
pub proof fn lemma_anchor_namespacing(s: Seq<char>)
    requires
        !s.contains('$'),
    ensures
        namespaced(s) == s,
        namespaced(seq!['$'] + s) == ANCHOR_REPLACE_TO@ + s,
    decreases s.len(),
{
    if s.len() == 0 {
        assert(seq!['$'] + s =~= seq!['$']);
        assert(seq!['$'].drop_last() =~= seq![]);
        assert(namespaced(seq![]) == Seq::<char>::empty());
        assert(ANCHOR_REPLACE_TO@ + s =~= ANCHOR_REPLACE_TO@);
        assert(namespaced(seq!['$']) =~= ANCHOR_REPLACE_TO@);
    } else {
        let p = s.drop_last();
        assert(!p.contains('$')) by {
            if p.contains('$') {
                let k = choose|k: int| 0 <= k < p.len() && p[k] == '$';
                assert(s[k] == '$');
            }
        }
        assert(s.last() != '$') by {
            assert(s[s.len() - 1] == s.last());
        }
        lemma_anchor_namespacing(p);
        assert(namespaced(s) =~= p + seq![s.last()]);
        assert(p + seq![s.last()] =~= s);
        let t = seq!['$'] + s;
        assert(t.drop_last() =~= seq!['$'] + p);
        assert(t.last() == s.last());
        assert(namespaced(t) =~= ANCHOR_REPLACE_TO@ + p + seq![s.last()]);
        assert(ANCHOR_REPLACE_TO@ + p + seq![s.last()] =~= ANCHOR_REPLACE_TO@ + s);
    }
}

} // verus!
