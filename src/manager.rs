//! The lifecycle: enabling, disabling, reloading and inspecting the policy.
//!
//! Every operation is a job that the caller drives: each call of
//! [`Manager::step`] takes the reply to the previous request and returns the
//! next request, or the outcome. Nothing here runs a program or touches a
//! file; the caller does, and only what was asked.
use vstd::prelude::*;
use vstd::string::*;

use crate::ctl::{
    enabled_phrase, flush_args, flush_request, info_says_enabled, load_request,
    load_request_of, lower_of, show_args, show_request, ExecError, FlushModifier, LoadFile, Reply,
    Request, RequestView, ShowModifier,
};
use crate::rules::Rules;
use crate::text::{chars_of, contains, contains_str, push_char};
use crate::tools::Direction;

verus! {

/// The enable/disable protocol of the control utility.
pub enum CtlState {
    /// Simple toggle: whether this process turned the firewall on.
    Toggle(bool),
    /// Reference counting: the token of this process's enable, empty when none.
    Token(String),
}

/// The control utility and what this process holds of its state.
pub struct Ctl {
    ctl_path: String,
    conf_path: String,
    state: CtlState,
}

impl Ctl {
    /// Path of the utility.
    pub closed spec fn spec_ctl_path(&self) -> Seq<char> {
        self.ctl_path@
    }

    /// Path of the baseline policy that restores the main ruleset.
    pub closed spec fn spec_conf_path(&self) -> Seq<char> {
        self.conf_path@
    }

    /// The protocol and its state.
    pub closed spec fn spec_state(&self) -> CtlState {
        self.state
    }

    /// A control utility with the simple-toggle protocol, not enabled by this process.
    pub fn new(ctl_path: &str, conf_path: &str) -> (r: Self)
        ensures
            r.spec_ctl_path() == ctl_path@,
            r.spec_conf_path() == conf_path@,
            r.spec_state() == CtlState::Toggle(false),
    {
        Ctl {
            ctl_path: String::from_str(ctl_path),
            conf_path: String::from_str(conf_path),
            state: CtlState::Toggle(false),
        }
    }

    /// A control utility with the reference-counting protocol, holding no token.
    pub fn new_token(ctl_path: &str, conf_path: &str) -> (r: Self)
        ensures
            r.spec_ctl_path() == ctl_path@,
            r.spec_conf_path() == conf_path@,
            r.spec_state() matches CtlState::Token(t) && t@.len() == 0,
    {
        Ctl {
            ctl_path: String::from_str(ctl_path),
            conf_path: String::from_str(conf_path),
            state: CtlState::Token(String::new()),
        }
    }

    /// Path of the utility, which every `Run` and `Feed` request runs.
    pub fn ctl_path(&self) -> (r: &str)
        ensures
            r@ == self.spec_ctl_path(),
    {
        self.ctl_path.as_str()
    }

    /// Path of the baseline policy.
    pub fn conf_path(&self) -> (r: &str)
        ensures
            r@ == self.spec_conf_path(),
    {
        self.conf_path.as_str()
    }

    /// The token held, empty when none or under the simple toggle.
    pub fn token(&self) -> (r: &str)
        ensures
            self.spec_state() matches CtlState::Token(t) ==> r@ == t@,
            self.spec_state() is Toggle ==> r@.len() == 0,
    {
        proof {
            reveal_strlit("");
        }
        match &self.state {
            CtlState::Token(t) => t.as_str(),
            CtlState::Toggle(_) => "",
        }
    }

    /// Whether the protocol is reference counting.
    pub fn uses_token(&self) -> (r: bool)
        ensures
            r == self.spec_state() is Token,
    {
        matches!(self.state, CtlState::Token(_))
    }
}

/// The query whose reply tells whether this process's enable is in effect, or
/// for the toggle whether the firewall is on.
pub open spec fn on_query(s: CtlState) -> RequestView {
    match s {
        CtlState::Toggle(_) => RequestView::Run(show_args(ShowModifier::Info, seq![], false)),
        CtlState::Token(_) => RequestView::Run(
            show_args(ShowModifier::References, seq![], false),
        ),
    }
}

/// The reply `stdout` to [`on_query`] says the firewall is on (toggle) or the
/// token is still referenced (reference counting).
pub open spec fn query_says_on(s: CtlState, stdout: Seq<char>) -> bool {
    match s {
        CtlState::Toggle(_) => contains(lower_of(stdout), enabled_phrase()),
        CtlState::Token(t) => contains(stdout, t@),
    }
}

/// The subcommand that turns the firewall on.
pub open spec fn enable_args(s: CtlState) -> Seq<Seq<char>> {
    match s {
        CtlState::Toggle(_) => seq!["-e"@],
        CtlState::Token(_) => seq!["-E"@],
    }
}

/// The subcommand that turns the firewall off.
pub open spec fn disable_args(s: CtlState) -> Seq<Seq<char>> {
    match s {
        CtlState::Toggle(_) => seq!["-d"@],
        CtlState::Token(t) => seq!["-X"@, t@],
    }
}


/// The protocol state as plain values.
pub enum CtlView {
    Toggle(bool),
    Token(Seq<char>),
}

impl View for CtlState {
    type V = CtlView;

    open spec fn view(&self) -> CtlView {
        match self {
            CtlState::Toggle(b) => CtlView::Toggle(*b),
            CtlState::Token(t) => CtlView::Token(t@),
        }
    }
}

/// The state that survives between invocations: enabled flag, anchor, protocol state.
pub struct Persisted {
    pub enabled: bool,
    pub anchor: Seq<char>,
    pub ctl: CtlView,
}

/// The placeholder that anchor names may hold.
pub const ANCHOR_REPLACE_FROM: &'static str = "$";
/// What the placeholder stands for: the namespace of this tool's anchors.
pub const ANCHOR_REPLACE_TO: &'static str = "248.netlock";

/// `s` with every `$` replaced by the namespace.
pub open spec fn namespaced(s: Seq<char>) -> Seq<char>
    decreases s.len(),
{
    if s.len() == 0 {
        seq![]
    } else {
        namespaced(s.drop_last()) + if s.last() == '$' {
            ANCHOR_REPLACE_TO@
        } else {
            seq![s.last()]
        }
    }
}

/// `true` or `false`, as `bool::to_string` writes it.
pub open spec fn bool_word(b: bool) -> Seq<char> {
    if b {
        "true"@
    } else {
        "false"@
    }
}

/// The value of `true` or `false`, as `str::parse::<bool>` reads it.
pub open spec fn parse_bool(s: Seq<char>) -> Option<bool> {
    if s == "true"@ {
        Some(true)
    } else if s == "false"@ {
        Some(false)
    } else {
        None
    }
}

/// Settings keys.
pub const SETTINGS_MANAGER_STATE: &'static str = "MANAGER_STATE";
pub const SETTINGS_MANAGER_ANCHOR: &'static str = "MANAGER_ANCHOR";
pub const SETTINGS_CTL_STATE: &'static str = "CTL_STATE";
pub const SETTINGS_CTL_TOKEN: &'static str = "CTL_TOKEN";

/// The lines of the settings file for the persisted state `p`.
pub open spec fn settings_lines(p: Persisted) -> Seq<Seq<char>> {
    let ctl_line = match p.ctl {
        CtlView::Toggle(b) => SETTINGS_CTL_STATE@ + ":"@ + bool_word(b),
        CtlView::Token(t) => SETTINGS_CTL_TOKEN@ + ":"@ + t,
    };
    seq![
        SETTINGS_MANAGER_STATE@ + ":"@ + bool_word(p.enabled),
        SETTINGS_MANAGER_ANCHOR@ + ":"@ + p.anchor,
        ctl_line,
    ]
}

/// One settings line applied to `p`: comments, lines that do not split into
/// exactly a key and a value at `:`, unknown keys, keys of the other protocol
/// and values that do not parse leave it as it is.
pub open spec fn apply_line(p: Persisted, line: Seq<char>) -> Persisted {
    let parts = crate::text::split_on(line, ':');
    if line.len() > 0 && line[0] == '#' {
        p
    } else if parts.len() != 2 {
        p
    } else {
        let (key, val) = (parts[0], parts[1]);
        if key == SETTINGS_MANAGER_STATE@ {
            Persisted {
                enabled: match parse_bool(val) {
                    Some(b) => b,
                    None => p.enabled,
                },
                ..p
            }
        } else if key == SETTINGS_MANAGER_ANCHOR@ {
            Persisted { anchor: val, ..p }
        } else if key == SETTINGS_CTL_STATE@ && p.ctl is Toggle {
            Persisted {
                ctl: match parse_bool(val) {
                    Some(b) => CtlView::Toggle(b),
                    None => p.ctl,
                },
                ..p
            }
        } else if key == SETTINGS_CTL_TOKEN@ && p.ctl is Token {
            Persisted { ctl: CtlView::Token(val), ..p }
        } else {
            p
        }
    }
}

/// The settings lines `ls` applied to `p` in order.
pub open spec fn apply_lines(p: Persisted, ls: Seq<Seq<char>>) -> Persisted
    decreases ls.len(),
{
    if ls.len() == 0 {
        p
    } else {
        apply_line(apply_lines(p, ls.drop_last()), ls.last())
    }
}

/// What a status query found.
pub struct Status {
    firewall_state: bool,
    netlock_state: bool,
    rules: Vec<(String, String)>,
}

impl Status {
    pub closed spec fn spec_firewall_state(&self) -> bool {
        self.firewall_state
    }

    pub closed spec fn spec_netlock_state(&self) -> bool {
        self.netlock_state
    }

    /// The rulesets found: anchor name (empty for the main ruleset) and text.
    pub closed spec fn spec_rules(&self) -> Seq<(Seq<char>, Seq<char>)> {
        self.rules@.map_values(|e: (String, String)| (e.0@, e.1@))
    }

    /// Whether the firewall is enabled.
    pub fn firewall_state(&self) -> (r: bool)
        ensures
            r == self.spec_firewall_state(),
    {
        self.firewall_state
    }

    /// Whether this tool's policy is in effect.
    pub fn netlock_state(&self) -> (r: bool)
        ensures
            r == self.spec_netlock_state(),
    {
        self.netlock_state
    }

    /// The rulesets found, main ruleset first.
    pub fn rules(&self) -> (r: &Vec<(String, String)>)
        ensures
            r@.map_values(|e: (String, String)| (e.0@, e.1@)) == self.spec_rules(),
    {
        &self.rules
    }
}

/// The operations a job carries out.
pub enum Op {
    Enable,
    Load,
    Disable,
    Status,
}

/// Where a job stands: the request it waits on.
pub enum Phase {
    /// Nothing asked yet.
    Start,
    /// Waiting on the read of the settings file.
    ReadingSettings,
    /// Waiting on the query of whether the firewall (or this process's enable) is on.
    QueryingOn,
    /// Waiting on the enable subcommand.
    Enabling,
    /// Waiting on the load of the policy.
    Loading,
    /// Waiting on the reset of the anchor that was active before.
    ResettingPrevious,
    /// Waiting on the flush of states.
    FlushingStates,
    /// Waiting on the write of the compiled policy.
    WritingPolicy,
    /// Waiting on the write of the settings.
    WritingSettings,
    /// Waiting on the query of whether this process's enable is in effect.
    QueryingOff,
    /// Waiting on the disable subcommand.
    Disabling,
    /// Waiting on the reset of the active anchor.
    Resetting,
    /// Waiting on the main ruleset.
    ShowingMain,
    /// Waiting on the table list.
    ShowingTables,
    /// Waiting on the anchor list.
    ShowingAnchors,
    /// Waiting on the ruleset of `anchors[next]`.
    ShowingAnchor,
    /// Waiting on the info report.
    ShowingInfo,
    /// Over.
    Finished,
}

/// A lifecycle operation in progress.
pub struct Job {
    pub op: Op,
    pub phase: Phase,
    /// The anchor to load into (already namespaced); none keeps the active one.
    pub target: Option<String>,
    /// What to load.
    pub source: LoadFile,
    /// Where the compiled policy is saved.
    pub policy_path: String,
    /// Where the settings are saved.
    pub settings_path: String,
    /// Whether the job reads the settings first and saves its results.
    pub persist: bool,
    /// Status found so far.
    pub status: Status,
    /// Anchors to show, for a status query.
    pub anchors: Vec<String>,
    /// Index of the next anchor to show.
    pub next: usize,
}

/// What to do after a step.
pub enum Step {
    /// Carry out the request and call `step` with its reply.
    Do(Request),
    /// The job is over, with this outcome.
    Done(Result<(), ExecError>),
}

/// A step that asks for `req`.
pub open spec fn asks(s: Step, req: RequestView) -> bool {
    s matches Step::Do(r) && r@ == req
}


/// Owns the control utility and the policy, and tracks what is active.
pub struct Manager {
    state: bool,
    anchor: String,
    /// Report what the loopback expansion found.
    pub is_log: bool,
    ctl: Ctl,
    rules: Rules,
}

/// Whether `v` holds `s`.
fn has_string(v: &Vec<String>, s: &str) -> (r: bool)
    ensures
        r == exists|i: int| 0 <= i < v@.len() && v@[i]@ == s@,
{
    let sc = chars_of(s);
    let mut i: usize = 0;
    while i < v.len()
        invariant
            i <= v@.len(),
            sc@ == s@,
            forall|j: int| 0 <= j < i ==> v@[j]@ != s@,
        decreases v@.len() - i,
    {
        let vc = chars_of(v[i].as_str());
        if crate::text::same_chars(&vc, &sc) {
            return true;
        }
        i = i + 1;
    }
    false
}

/// The names of the rows of an interface listing that carry exactly one
/// field after the name (the skip flag), in order.
pub open spec fn skipped_interfaces(rows: Seq<Seq<char>>) -> Seq<Seq<char>>
    decreases rows.len(),
{
    if rows.len() == 0 {
        seq![]
    } else {
        let f = crate::text::fields(rows.last());
        let pre = skipped_interfaces(rows.drop_last());
        if f.len() == 2 {
            pre.push(f[0])
        } else {
            pre
        }
    }
}

/// `ds` is `prev` followed by one outbound entry for each of `names`, in order.
pub open spec fn appends_out(prev: Seq<Direction>, ds: Seq<Direction>, names: Seq<String>) -> bool {
    &&& ds.len() == prev.len() + names.len()
    &&& (forall|i: int| 0 <= i < prev.len() ==> ds[i] == prev[i])
    &&& (forall|k: int| 0 <= k < names.len() ==> out_named(ds[prev.len() + k], #[trigger] names[k]))
}

/// `d` passes outbound traffic to `name` only.
pub open spec fn out_named(d: Direction, name: String) -> bool {
    d.outbound_only() && d.name() == name@
}

/// `b` is `a` with the loopback group among the interfaces to skip, added
/// unless it was there.
pub open spec fn skip_added(a: Rules, b: Rules) -> bool {
    let old_skip = crate::text::views(a.skip_interfaces@);
    &&& same_but_interfaces(b, a)
    &&& b.pass_interfaces == a.pass_interfaces
    &&& crate::text::views(b.skip_interfaces@) == if old_skip.contains("lo"@) {
        old_skip
    } else {
        old_skip.push("lo"@)
    }
}

/// The query that lists the loopback interfaces and their flags.
pub open spec fn loopback_listing_request() -> RequestView {
    RequestView::Run(seq!["-s"@, "Interfaces"@, "-v"@, "-i"@, "lo"@])
}

/// `a` and `b` agree on every knob but the interfaces to skip and to pass.
pub open spec fn same_but_interfaces(a: Rules, b: Rules) -> bool {
    &&& a.tables == b.tables
    &&& a.block_policy == b.block_policy
    &&& a.state_policy == b.state_policy
    &&& a.min_ttl == b.min_ttl
    &&& a.is_enable_log == b.is_enable_log
    &&& a.incoming == b.incoming
    &&& a.outgoing == b.outgoing
    &&& a.antispoofing == b.antispoofing
    &&& a.is_block_ipv6 == b.is_block_ipv6
    &&& a.lan == b.lan
    &&& a.icmp == b.icmp
    &&& a.pass_owners == b.pass_owners
    &&& a.block_destinations == b.block_destinations
    &&& a.pass_destinations == b.pass_destinations
}

/// An entry that applies both ways.
pub open spec fn undirected(d: Direction) -> bool {
    d is Any
}

/// `ds` is `prev` followed by one undirected entry for each of `names`, in order.
pub open spec fn appends_any(prev: Seq<Direction>, ds: Seq<Direction>, names: Seq<Seq<char>>) -> bool
    decreases names.len(),
{
    if names.len() == 0 {
        ds == prev
    } else {
        &&& ds.len() > 0
        &&& undirected(ds.last())
        &&& ds.last().name() == names.last()
        &&& appends_any(prev, ds.drop_last(), names.drop_last())
    }
}

proof fn lemma_append_one(
    prev: Seq<Direction>,
    ds: Seq<Direction>,
    names: Seq<Seq<char>>,
    d: Direction,
    n: Seq<char>,
)
    requires
        appends_any(prev, ds, names),
        d is Any,
        d.name() == n,
    ensures
        appends_any(prev, ds.push(d), names.push(n)),
{
    assert(ds.push(d).drop_last() =~= ds);
    assert(names.push(n).drop_last() =~= names);
}

impl Manager {
    /// Enabling without the settings file: apply the policy, compiled with
    /// timestamp `ts`, into `new_anchor` (namespaced) or the active anchor.
    pub fn enable(&self, new_anchor: Option<&str>, ts: u64) -> (r: Job)
        ensures
            r.op is Enable,
            r.phase is Start,
            !r.persist,
            r.source matches LoadFile::Stdin(t) && t@ == self.spec_rules().compiled(ts),
            new_anchor is None ==> r.target is None,
            new_anchor matches Some(a) ==> (r.target matches Some(t) && t@ == namespaced(a@)),
    {
        let target = match new_anchor {
            Some(a) => Some(Self::format_anchor(a)),
            None => None,
        };
        let text = self.rules.build_at(ts);
        Job::new(Op::Enable, target, LoadFile::Stdin(text), String::new(), String::new(), false)
    }

    /// Disabling without the settings file.
    pub fn disable(&self) -> (r: Job)
        ensures
            r.op is Disable,
            r.phase is Start,
            !r.persist,
            r.target is None,
    {
        Job::new(Op::Disable, None, LoadFile::Stdin(String::new()), String::new(), String::new(), false)
    }

    /// Querying the status without the settings file.
    pub fn get_status(&self) -> (r: Job)
        ensures
            r.op is Status,
            r.phase is Start,
            !r.persist,
            r.target is None,
    {
        Job::new(Op::Status, None, LoadFile::Stdin(String::new()), String::new(), String::new(), false)
    }

    /// Passes outbound traffic on the default-route interface and to the VPN
    /// server's host route that the routing table showed, when found.
    pub fn extend_rules_from_routing_table(&mut self, info: &crate::tools::RoutingInfo)
        ensures
            final(self).spec_rules().pass_interfaces@ == if info.spec_interface().len() > 0 {
                old(self).spec_rules().pass_interfaces@.push(
                    final(self).spec_rules().pass_interfaces@.last(),
                )
            } else {
                old(self).spec_rules().pass_interfaces@
            },
            info.spec_interface().len() > 0 ==> (final(self).spec_rules().pass_interfaces@.last() is Out
                && final(self).spec_rules().pass_interfaces@.last().name() == info.spec_interface()),
            final(self).spec_rules().pass_destinations@ == if info.spec_destination().len() > 0 {
                old(self).spec_rules().pass_destinations@.push(
                    final(self).spec_rules().pass_destinations@.last(),
                )
            } else {
                old(self).spec_rules().pass_destinations@
            },
            info.spec_destination().len() > 0 ==> (final(self).spec_rules().pass_destinations@.last() is Out
                && final(self).spec_rules().pass_destinations@.last().name()
                == info.spec_destination()),
            final(self).spec_rules().skip_interfaces == old(self).spec_rules().skip_interfaces,
            final(self).spec_rules().block_destinations == old(self).spec_rules().block_destinations,
            final(self).spec_rules().pass_owners == old(self).spec_rules().pass_owners,
            final(self).spec_state() == old(self).spec_state(),
            final(self).spec_anchor() == old(self).spec_anchor(),
            final(self).spec_ctl() == old(self).spec_ctl(),
    {
        let i = info.interface();
        if i.unicode_len() > 0 {
            self.rules.pass_interfaces.push(Direction::Out(String::from_str(i)));
        }
        let d = info.destination();
        if d.unicode_len() > 0 {
            self.rules.pass_destinations.push(Direction::Out(String::from_str(d)));
        }
    }

    /// Passes outbound traffic to each of `destinations` (the servers of the
    /// VPN configurations), in order.
    pub fn extend_rules_from_configuration_files(&mut self, destinations: &Vec<String>)
        ensures
            appends_out(
                old(self).spec_rules().pass_destinations@,
                final(self).spec_rules().pass_destinations@,
                destinations@,
            ),
            final(self).spec_rules().pass_interfaces == old(self).spec_rules().pass_interfaces,
            final(self).spec_rules().skip_interfaces == old(self).spec_rules().skip_interfaces,
            final(self).spec_state() == old(self).spec_state(),
            final(self).spec_anchor() == old(self).spec_anchor(),
            final(self).spec_ctl() == old(self).spec_ctl(),
    {
        let ghost n0 = self.rules.pass_destinations@.len();
        let mut i: usize = 0;
        while i < destinations.len()
            invariant
                i <= destinations@.len(),
                n0 == old(self).rules.pass_destinations@.len(),
                self.rules.pass_destinations@.len() == n0 + i,
                forall|j: int| 0 <= j < n0 ==> self.rules.pass_destinations@[j] == old(self).rules.pass_destinations@[j],
                forall|k: int|
                    0 <= k < i ==> out_named(self.rules.pass_destinations@[n0 + k], #[trigger] destinations@[k]),
                self.rules.pass_interfaces == old(self).rules.pass_interfaces,
                self.rules.skip_interfaces == old(self).rules.skip_interfaces,
                self.state == old(self).state,
                self.anchor == old(self).anchor,
                self.ctl == old(self).ctl,
            decreases destinations@.len() - i,
        {
            let ghost before = self.rules.pass_destinations@;
            let d = Direction::Out(String::from_str(destinations[i].as_str()));
            self.rules.pass_destinations.push(d);
            assert(self.rules.pass_destinations@[n0 + i] == d);
            assert forall|j: int| 0 <= j < n0 implies self.rules.pass_destinations@[j] == old(self).rules.pass_destinations@[j] by {
                assert(self.rules.pass_destinations@[j] == before[j]);
            }
            assert forall|k: int| 0 <= k < i + 1 implies out_named(self.rules.pass_destinations@[n0 + k], #[trigger] destinations@[k]) by {
                if k < i {
                    assert(self.rules.pass_destinations@[n0 + k] == before[n0 + k]);
                }
            }
            i = i + 1;
        }
    }

    /// Exempts loopback traffic. On the main ruleset the loopback group joins
    /// the interfaces to skip and nothing is asked. Inside an anchor, where
    /// `set skip` does not apply, the request that lists the loopback
    /// interfaces is returned: hand its output to
    /// [`Manager::add_loopback_interfaces`].
    pub fn set_skipass_loopback(&mut self) -> (r: Option<Request>)
        ensures
            old(self).spec_anchor().len() == 0 ==> (r is None && skip_added(
                old(self).spec_rules(),
                final(self).spec_rules(),
            )),
            old(self).spec_anchor().len() > 0 ==> (r matches Some(q) && q@
                == loopback_listing_request()),
            old(self).spec_anchor().len() > 0 ==> final(self).spec_rules() == old(self).spec_rules(),
            final(self).spec_state() == old(self).spec_state(),
            final(self).spec_anchor() == old(self).spec_anchor(),
            final(self).spec_ctl() == old(self).spec_ctl(),
    {
        proof {
            reveal_strlit("");
            reveal_strlit("lo");
        }
        if self.anchor.as_str().unicode_len() == 0 {
            let ghost v0 = crate::text::views(self.rules.skip_interfaces@);
            if !has_string(&self.rules.skip_interfaces, "lo") {
                assert(!v0.contains("lo"@));
                self.rules.skip_interfaces.push(String::from_str("lo"));
                assert(crate::text::views(self.rules.skip_interfaces@) =~= v0.push("lo"@));
            } else {
                proof {
                    let i = choose|i: int|
                        0 <= i < self.rules.skip_interfaces@.len()
                            && self.rules.skip_interfaces@[i]@ == "lo"@;
                    assert(v0[i] == "lo"@);
                }
            }
            None
        } else {
            let g = String::from_str("lo");
            let ghost gv = g@;
            let k = ShowModifier::Interfaces(g);
            let q = show_request(k, "", true);
            assert(gv == "lo"@);
            assert(show_args(k, ""@, true) =~= seq!["-s"@, "Interfaces"@, "-v"@, "-i"@, "lo"@]);
            assert(q@ == loopback_listing_request());
            Some(q)
        }
    }

    /// Passes traffic on each loopback interface that the listing `listing`
    /// marks skipped (a row of its name and one flag), undirected, in order.
    pub fn add_loopback_interfaces(&mut self, listing: &str)
        ensures
            same_but_interfaces(final(self).spec_rules(), old(self).spec_rules()),
            final(self).spec_rules().skip_interfaces == old(self).spec_rules().skip_interfaces,
            appends_any(
                old(self).spec_rules().pass_interfaces@,
                final(self).spec_rules().pass_interfaces@,
                skipped_interfaces(crate::text::lines(listing@)),
            ),
            final(self).spec_state() == old(self).spec_state(),
            final(self).spec_anchor() == old(self).spec_anchor(),
            final(self).spec_ctl() == old(self).spec_ctl(),
    {
        let text = chars_of(listing);
        let rows = crate::text::lines_of(&text);
        let mut i: usize = 0;
        while i < rows.len()
            invariant
                i <= rows@.len(),
                crate::text::cviews(rows@) == crate::text::lines(listing@),
                same_but_interfaces(self.rules, old(self).rules),
                self.rules.skip_interfaces == old(self).rules.skip_interfaces,
                self.state == old(self).state,
                self.anchor == old(self).anchor,
                self.ctl == old(self).ctl,
                appends_any(
                    old(self).rules.pass_interfaces@,
                    self.rules.pass_interfaces@,
                    skipped_interfaces(crate::text::cviews(rows@.take(i as int))),
                ),
            decreases rows@.len() - i,
        {
            let ghost pre = skipped_interfaces(crate::text::cviews(rows@.take(i as int)));
            let ghost nxt = skipped_interfaces(crate::text::cviews(rows@.take(i as int + 1)));
            assert(crate::text::cviews(rows@.take(i as int + 1)).drop_last()
                =~= crate::text::cviews(rows@.take(i as int)));
            assert(crate::text::cviews(rows@.take(i as int + 1)).last() == rows@[i as int]@);
            let f = crate::text::fields_of(&rows[i]);
            if f.len() == 2 {
                assert(nxt == pre.push(f@[0]@));
                let name = crate::text::string_of(&f[0]);
                let ghost ds0 = self.rules.pass_interfaces@;
                let d = Direction::Any(name);
                assert(d.name() == f@[0]@);
                self.rules.pass_interfaces.push(d);
                assert(self.rules.pass_interfaces@ == ds0.push(d));
                proof {
                    lemma_append_one(old(self).rules.pass_interfaces@, ds0, pre, d, f@[0]@);
                }
            } else {
                assert(nxt == pre);
                assert(appends_any(old(self).rules.pass_interfaces@, self.rules.pass_interfaces@, nxt));
            }
            assert(nxt == skipped_interfaces(crate::text::cviews(rows@.take(i as int + 1))));
            i = i + 1;
        }
        assert(rows@.take(rows@.len() as int) =~= rows@);
    }

    pub closed spec fn spec_state(&self) -> bool {
        self.state
    }

    pub closed spec fn spec_anchor(&self) -> Seq<char> {
        self.anchor@
    }

    pub closed spec fn spec_ctl(&self) -> Ctl {
        self.ctl
    }

    pub closed spec fn spec_rules(&self) -> Rules {
        self.rules
    }

    pub closed spec fn spec_is_log(&self) -> bool {
        self.is_log
    }

    /// The state that the settings file records.
    pub open spec fn persisted(&self) -> Persisted {
        Persisted {
            enabled: self.spec_state(),
            anchor: self.spec_anchor(),
            ctl: self.spec_ctl().spec_state()@,
        }
    }

    /// A manager of `ctl` and `rules`, disabled, on the main ruleset.
    pub fn new(ctl: Ctl, rules: Rules) -> (r: Self)
        ensures
            !r.spec_state(),
            r.spec_anchor().len() == 0,
            r.spec_ctl() == ctl,
            r.spec_rules() == rules,
    {
        Manager { state: false, anchor: String::new(), is_log: false, ctl, rules }
    }

    /// Whether this manager's policy is active.
    pub fn state(&self) -> (r: bool)
        ensures
            r == self.spec_state(),
    {
        self.state
    }

    /// The active anchor, empty for the main ruleset.
    pub fn anchor(&self) -> (r: &str)
        ensures
            r@ == self.spec_anchor(),
    {
        self.anchor.as_str()
    }

    /// The control utility.
    pub fn ctl(&self) -> (r: &Ctl)
        ensures
            *r == self.spec_ctl(),
    {
        &self.ctl
    }

    /// The policy, to read.
    pub fn policy(&self) -> (r: &Rules)
        ensures
            *r == self.spec_rules(),
    {
        &self.rules
    }

    /// The policy, to read or to change.
    pub fn rules(&mut self) -> (r: &mut Rules)
        ensures
            *r == old(self).spec_rules(),
            final(self).spec_rules() == *final(r),
            final(self).spec_state() == old(self).spec_state(),
            final(self).spec_anchor() == old(self).spec_anchor(),
            final(self).spec_ctl() == old(self).spec_ctl(),
    {
        &mut self.rules
    }

    /// `anchor` with its placeholder replaced by the namespace.
    pub fn format_anchor(anchor: &str) -> (r: String)
        ensures
            r@ == namespaced(anchor@),
    {
        let cs = chars_of(anchor);
        let mut r = String::new();
        let mut i: usize = 0;
        while i < cs.len()
            invariant
                i <= cs@.len(),
                cs@ == anchor@,
                r@ == namespaced(cs@.take(i as int)),
            decreases cs@.len() - i,
        {
            assert(cs@.take(i as int + 1).drop_last() =~= cs@.take(i as int));
            if cs[i] == '$' {
                crate::text::append(&mut r, ANCHOR_REPLACE_TO);
            } else {
                push_char(&mut r, cs[i]);
            }
            i = i + 1;
            assert(r@ =~= namespaced(cs@.take(i as int)));
        }
        assert(cs@.take(cs@.len() as int) =~= cs@);
        r
    }

    /// Sets the anchor to use, namespaced; refused while the policy is active.
    pub fn set_anchor(&mut self, anchor: &str) -> (r: bool)
        ensures
            r == !old(self).spec_state(),
            r ==> final(self).spec_anchor() == namespaced(anchor@),
            !r ==> final(self).spec_anchor() == old(self).spec_anchor(),
            final(self).spec_state() == old(self).spec_state(),
            final(self).spec_ctl() == old(self).spec_ctl(),
            final(self).spec_rules() == old(self).spec_rules(),
    {
        if self.state {
            return false;
        }
        self.anchor = Self::format_anchor(anchor);
        true
    }
}


/// The request that restores `anchor`: the baseline policy for the main
/// ruleset, a flush of everything for a named anchor.
pub open spec fn reset_request(conf_path: Seq<char>, anchor: Seq<char>) -> RequestView {
    if anchor.len() == 0 {
        RequestView::Run(seq!["-f"@, conf_path])
    } else {
        RequestView::Run(flush_args(FlushModifier::All, anchor))
    }
}

/// The request that flushes states after a load.
pub open spec fn flush_states_request() -> RequestView {
    RequestView::Run(flush_args(FlushModifier::States, seq![]))
}

impl Manager {
    /// The anchor a job loads into.
    pub open spec fn target_anchor(&self, job: Job) -> Seq<char> {
        match job.target {
            Some(t) => t@,
            None => self.spec_anchor(),
        }
    }

    fn reset_of(&self, anchor: &str) -> (r: Request)
        ensures
            r@ == reset_request(self.spec_ctl().spec_conf_path(), anchor@),
    {
        if anchor.unicode_len() == 0 {
            let r = load_request_of(LoadFile::Path(String::from_str(self.ctl.conf_path())), "");
            proof {
                reveal_strlit("");
            }
            assert(r@ == reset_request(self.spec_ctl().spec_conf_path(), anchor@));
            r
        } else {
            flush_request(FlushModifier::All, anchor)
        }
    }

    fn flush_states() -> (r: Request)
        ensures
            r@ == flush_states_request(),
    {
        proof {
            reveal_strlit("");
        }
        flush_request(FlushModifier::States, "")
    }

    fn on_query_of(&self) -> (r: Request)
        ensures
            r@ == on_query(self.spec_ctl().spec_state()),
    {
        proof {
            reveal_strlit("");
        }
        if self.ctl.uses_token() {
            show_request(ShowModifier::References, "", false)
        } else {
            show_request(ShowModifier::Info, "", false)
        }
    }

    fn enable_of(&self) -> (r: Request)
        ensures
            r@ == RequestView::Run(enable_args(self.spec_ctl().spec_state())),
    {
        let mut args: Vec<String> = Vec::new();
        if self.ctl.uses_token() {
            args.push(String::from_str("-E"));
        } else {
            args.push(String::from_str("-e"));
        }
        assert(crate::text::views(args@) =~= enable_args(self.spec_ctl().spec_state()));
        Request::Run(args)
    }

    fn disable_of(&self) -> (r: Request)
        ensures
            r@ == RequestView::Run(disable_args(self.spec_ctl().spec_state())),
    {
        let mut args: Vec<String> = Vec::new();
        match &self.ctl.state {
            CtlState::Token(t) => {
                args.push(String::from_str("-X"));
                args.push(String::from_str(t.as_str()));
            },
            CtlState::Toggle(_) => {
                args.push(String::from_str("-d"));
            },
        }
        assert(crate::text::views(args@) =~= disable_args(self.spec_ctl().spec_state()));
        Request::Run(args)
    }

    /// Whether the reply to [`on_query`] says the firewall is on (toggle) or the
    /// token is still referenced (reference counting).
    fn query_on(&self, stdout: &str) -> (r: bool)
        ensures
            r == query_says_on(self.spec_ctl().spec_state(), stdout@),
    {
        match &self.ctl.state {
            CtlState::Toggle(_) => info_says_enabled(stdout),
            CtlState::Token(t) => contains_str(stdout, t.as_str()),
        }
    }
}


fn bool_str(b: bool) -> (r: &'static str)
    ensures
        r@ == bool_word(b),
{
    if b {
        "true"
    } else {
        "false"
    }
}

fn parse_bool_chars(v: &Vec<char>) -> (r: Option<bool>)
    ensures
        r == parse_bool(v@),
{
    let t = chars_of("true");
    let f = chars_of("false");
    if crate::text::same_chars(v, &t) {
        Some(true)
    } else if crate::text::same_chars(v, &f) {
        Some(false)
    } else {
        None
    }
}

impl Manager {
    /// The settings file's text: one `KEY:VALUE` line per persisted field.
    pub fn settings_text(&self) -> (r: String)
        ensures
            r@ == crate::rules::unlines(settings_lines(self.persisted())),
    {
        let mut ls: Vec<String> = Vec::new();
        ls.push(String::from_str(SETTINGS_MANAGER_STATE).concat(":").concat(bool_str(self.state)));
        ls.push(String::from_str(SETTINGS_MANAGER_ANCHOR).concat(":").concat(self.anchor.as_str()));
        match &self.ctl.state {
            CtlState::Toggle(b) => {
                ls.push(String::from_str(SETTINGS_CTL_STATE).concat(":").concat(bool_str(*b)));
            },
            CtlState::Token(t) => {
                ls.push(String::from_str(SETTINGS_CTL_TOKEN).concat(":").concat(t.as_str()));
            },
        }
        assert(crate::text::views(ls@) =~= settings_lines(self.persisted()));
        let mut out = String::new();
        crate::rules::write_lines(&mut out, &ls);
        out
    }

    fn apply_setting_line(&mut self, line: &Vec<char>)
        ensures
            final(self).persisted() == apply_line(old(self).persisted(), line@),
            final(self).spec_rules() == old(self).spec_rules(),
            final(self).spec_ctl().spec_ctl_path() == old(self).spec_ctl().spec_ctl_path(),
            final(self).spec_ctl().spec_conf_path() == old(self).spec_ctl().spec_conf_path(),
            final(self).spec_ctl().spec_state() is Token == old(self).spec_ctl().spec_state() is Token,
            final(self).spec_is_log() == old(self).spec_is_log(),
    {
        if line.len() > 0 && line[0] == '#' {
            return;
        }
        let parts = crate::text::split_chars(line, ':');
        if parts.len() != 2 {
            return;
        }
        let key = &parts[0];
        let val = &parts[1];
        assert(key@ == crate::text::split_on(line@, ':')[0]);
        assert(val@ == crate::text::split_on(line@, ':')[1]);
        if crate::text::same_chars(key, &chars_of(SETTINGS_MANAGER_STATE)) {
            match parse_bool_chars(val) {
                Some(b) => {
                    self.state = b;
                },
                None => {},
            }
        } else if crate::text::same_chars(key, &chars_of(SETTINGS_MANAGER_ANCHOR)) {
            self.anchor = crate::text::string_of(val);
        } else if crate::text::same_chars(key, &chars_of(SETTINGS_CTL_STATE)) && !self.ctl.uses_token() {
            match parse_bool_chars(val) {
                Some(b) => {
                    self.ctl.state = CtlState::Toggle(b);
                },
                None => {},
            }
        } else if crate::text::same_chars(key, &chars_of(SETTINGS_CTL_TOKEN)) && self.ctl.uses_token() {
            self.ctl.state = CtlState::Token(crate::text::string_of(val));
        }
    }

    /// Applies the text of a settings file, line by line; what it does not
    /// recognize leaves the state as it is.
    pub fn apply_settings(&mut self, text: &str)
        ensures
            final(self).persisted() == apply_lines(old(self).persisted(), crate::text::lines(text@)),
            final(self).spec_rules() == old(self).spec_rules(),
            final(self).spec_ctl().spec_ctl_path() == old(self).spec_ctl().spec_ctl_path(),
            final(self).spec_ctl().spec_conf_path() == old(self).spec_ctl().spec_conf_path(),
            final(self).spec_ctl().spec_state() is Token == old(self).spec_ctl().spec_state() is Token,
            final(self).spec_is_log() == old(self).spec_is_log(),
    {
        let cs = chars_of(text);
        let ls = crate::text::lines_of(&cs);
        let ghost start = self.persisted();
        let mut i: usize = 0;
        while i < ls.len()
            invariant
                i <= ls@.len(),
                crate::text::cviews(ls@) == crate::text::lines(text@),
                self.persisted() == apply_lines(start, crate::text::cviews(ls@).take(i as int)),
                start == old(self).persisted(),
                self.rules == old(self).rules,
                self.ctl.ctl_path@ == old(self).ctl.ctl_path@,
                self.ctl.conf_path@ == old(self).ctl.conf_path@,
                self.ctl.state is Token == old(self).ctl.state is Token,
                self.is_log == old(self).is_log,
            decreases ls@.len() - i,
        {
            assert(crate::text::cviews(ls@).take(i as int + 1).drop_last() =~= crate::text::cviews(
                ls@,
            ).take(i as int));
            self.apply_setting_line(&ls[i]);
            i = i + 1;
        }
        assert(crate::text::cviews(ls@).take(ls@.len() as int) =~= crate::text::cviews(ls@));
    }
}


fn clone_source(f: &LoadFile) -> (r: LoadFile)
    ensures
        r matches LoadFile::Path(p) ==> (f matches LoadFile::Path(q) && p@ == q@),
        r matches LoadFile::Stdin(t) ==> (f matches LoadFile::Stdin(u) && t@ == u@),
        f is Path ==> r is Path,
        f is Stdin ==> r is Stdin,
{
    match f {
        LoadFile::Path(p) => LoadFile::Path(String::from_str(p.as_str())),
        LoadFile::Stdin(t) => LoadFile::Stdin(String::from_str(t.as_str())),
    }
}

impl Job {
    /// A job of `op` that has asked nothing yet.
    pub fn new(
        op: Op,
        target: Option<String>,
        source: LoadFile,
        policy_path: String,
        settings_path: String,
        persist: bool,
    ) -> (r: Job)
        ensures
            r.op == op,
            r.persist == persist,
            r.phase is Start,
            r.target == target,
            r.source == source,
            r.policy_path == policy_path,
            r.settings_path == settings_path,
            r.anchors@.len() == 0,
            r.next == 0,
            !r.status.spec_firewall_state(),
            !r.status.spec_netlock_state(),
            r.status.spec_rules().len() == 0,
    {
        let st = Status { firewall_state: false, netlock_state: false, rules: Vec::new() };
        assert(st.spec_rules() =~= seq![]);
        Job {
            op,
            phase: Phase::Start,
            target,
            source,
            policy_path,
            settings_path,
            persist,
            status: st,
            anchors: Vec::new(),
            next: 0,
        }
    }

    /// What a status job found.
    pub fn status(&self) -> (r: &Status)
        ensures
            *r == self.status,
    {
        &self.status
    }
}

impl Manager {
    fn finish(job: &mut Job, outcome: Result<(), ExecError>) -> (r: Step)
        ensures
            r == Step::Done(outcome),
            final(job).phase is Finished,
            *final(job) == (Job { phase: Phase::Finished, ..*old(job) }),
    {
        job.phase = Phase::Finished;
        Step::Done(outcome)
    }

    fn ask(job: &mut Job, phase: Phase, req: Request) -> (r: Step)
        ensures
            r == Step::Do(req),
            *final(job) == (Job { phase: phase, ..*old(job) }),
    {
        job.phase = phase;
        Step::Do(req)
    }

    fn write_settings(&self, job: &mut Job) -> (r: Step)
        ensures
            writes_settings(*self, *old(job), *final(job), r),
    {
        if job.persist {
            let req = Request::Write(String::from_str(job.settings_path.as_str()), self.settings_text());
            Self::ask(job, Phase::WritingSettings, req)
        } else {
            Self::finish(job, Ok(()))
        }
    }

    fn show_info(job: &mut Job) -> (r: Step)
        ensures
            asks(r, RequestView::Run(show_args(ShowModifier::Info, seq![], false))),
            *final(job) == (Job { phase: Phase::ShowingInfo, ..*old(job) }),
    {
        proof {
            reveal_strlit("");
        }
        let req = show_request(ShowModifier::Info, "", false);
        Self::ask(job, Phase::ShowingInfo, req)
    }

    fn begin_load(&self, job: &mut Job) -> (r: Step)
        ensures
            asks(r, load_request(old(job).source, self.target_anchor(*old(job)))),
            *final(job) == (Job { phase: Phase::Loading, ..*old(job) }),
    {
        let src = clone_source(&job.source);
        let req = match &job.target {
            Some(t) => load_request_of(src, t.as_str()),
            None => load_request_of(src, self.anchor.as_str()),
        };
        assert(req@ == load_request(old(job).source, self.target_anchor(*old(job))));
        Self::ask(job, Phase::Loading, req)
    }

    fn begin_on(&self, job: &mut Job) -> (r: Step)
        ensures
            begins_on(*self, *old(job), *final(job), r),
    {
        if self.ctl.uses_token() && self.ctl.token().unicode_len() == 0 {
            let req = self.enable_of();
            Self::ask(job, Phase::Enabling, req)
        } else {
            let req = self.on_query_of();
            Self::ask(job, Phase::QueryingOn, req)
        }
    }
}


/// `b` is `a` but for the protocol state.
pub open spec fn same_but_ctl_state(a: Manager, b: Manager) -> bool {
    &&& b.spec_state() == a.spec_state()
    &&& b.spec_anchor() == a.spec_anchor()
    &&& b.spec_rules() == a.spec_rules()
    &&& b.spec_ctl().spec_ctl_path() == a.spec_ctl().spec_ctl_path()
    &&& b.spec_ctl().spec_conf_path() == a.spec_ctl().spec_conf_path()
    &&& b.spec_is_log() == a.spec_is_log()
}

/// `b` is `a` but for the enabled flag and the anchor.
pub open spec fn same_but_activation(a: Manager, b: Manager) -> bool {
    &&& b.spec_rules() == a.spec_rules()
    &&& b.spec_ctl() == a.spec_ctl()
    &&& b.spec_is_log() == a.spec_is_log()
}

/// `j1` is `j0` moved to `phase`.
pub open spec fn moved(j0: Job, j1: Job, phase: Phase) -> bool {
    j1 == (Job { phase: phase, ..j0 })
}

/// After a load: either the previous anchor is reset first, or the load is
/// committed and states are flushed.
pub open spec fn after_load(m0: Manager, m1: Manager, j0: Job, j1: Job, r: Step) -> bool {
    let must_reset = match j0.target {
        Some(t) => m0.spec_state() && m0.spec_anchor() != t@,
        None => false,
    };
    if must_reset {
        &&& m1 == m0
        &&& asks(r, reset_request(m0.spec_ctl().spec_conf_path(), m0.spec_anchor()))
        &&& moved(j0, j1, Phase::ResettingPrevious)
    } else {
        committed(m0, m1, j0, j1, r)
    }
}

/// The load is committed: the target anchor is active, the policy enabled,
/// and states are flushed.
pub open spec fn committed(m0: Manager, m1: Manager, j0: Job, j1: Job, r: Step) -> bool {
    &&& same_but_activation(m0, m1)
    &&& m1.spec_state()
    &&& m1.spec_anchor() == m0.target_anchor(j0)
    &&& asks(r, flush_states_request())
    &&& moved(j0, j1, Phase::FlushingStates)
}

/// The settings of `m` are written next, or the job ends if it does not persist.
pub open spec fn writes_settings(m: Manager, j0: Job, j1: Job, r: Step) -> bool {
    if j0.persist {
        &&& asks(r, RequestView::Write(j0.settings_path@, crate::rules::unlines(settings_lines(m.persisted()))))
        &&& moved(j0, j1, Phase::WritingSettings)
    } else {
        r == Step::Done(Ok(())) && moved(j0, j1, Phase::Finished)
    }
}

/// The active anchor of `m` is reset next (disable).
pub open spec fn resets(m: Manager, j0: Job, j1: Job, r: Step) -> bool {
    &&& asks(r, reset_request(m.spec_ctl().spec_conf_path(), m.spec_anchor()))
    &&& moved(j0, j1, Phase::Resetting)
}

/// The firewall is brought on (if need be) before loading.
pub open spec fn begins_on(m: Manager, j0: Job, j1: Job, r: Step) -> bool {
    let s = m.spec_ctl().spec_state();
    if s matches CtlState::Token(t) && t@.len() == 0 {
        asks(r, RequestView::Run(enable_args(s))) && moved(j0, j1, Phase::Enabling)
    } else {
        asks(r, on_query(s)) && moved(j0, j1, Phase::QueryingOn)
    }
}

/// The firewall is turned off if this process's enable is in effect, after
/// asking; otherwise the anchor is reset straight away.
pub open spec fn begins_off(m: Manager, j0: Job, j1: Job, r: Step) -> bool {
    let s = m.spec_ctl().spec_state();
    let ask_first = match s {
        CtlState::Toggle(b) => b,
        CtlState::Token(t) => t@.len() > 0,
    };
    if ask_first {
        asks(r, on_query(s)) && moved(j0, j1, Phase::QueryingOff)
    } else {
        resets(m, j0, j1, r)
    }
}

/// The first request after the settings were read into `m`.
pub open spec fn proceeds(m: Manager, j0: Job, j1: Job, r: Step) -> bool {
    match j0.op {
        Op::Enable | Op::Load => begins_on(m, j0, j1, r),
        Op::Disable => begins_off(m, j0, j1, r),
        Op::Status => asks(r, RequestView::Run(show_args(ShowModifier::Rules, seq![], false)))
            && moved(j0, j1, Phase::ShowingMain),
    }
}

/// The job ends with `outcome`, the manager untouched.
pub open spec fn ends(m0: Manager, m1: Manager, j0: Job, j1: Job, r: Step, outcome: Result<(), ExecError>) -> bool {
    &&& m1 == m0
    &&& r == Step::Done(outcome)
    &&& moved(j0, j1, Phase::Finished)
}


/// The main ruleset `text` refers to all three tables of `r`.
pub open spec fn refers_to_tables(r: Rules, text: Seq<char>) -> bool {
    &&& contains(text, "<"@ + r.block_table() + ">"@)
    &&& contains(text, "<"@ + r.in_table() + ">"@)
    &&& contains(text, "<"@ + r.out_table() + ">"@)
}

/// The table listing `text` names all three tables of `r`.
pub open spec fn lists_tables(r: Rules, text: Seq<char>) -> bool {
    let w = crate::text::fields(text);
    &&& w.contains(r.block_table())
    &&& w.contains(r.in_table())
    &&& w.contains(r.out_table())
}

fn table_ref(name: &str) -> (r: String)
    ensures
        r@ == "<"@ + name@ + ">"@,
{
    String::from_str("<").concat(name).concat(">")
}

fn has_word(words: &Vec<Vec<char>>, w: &str) -> (r: bool)
    ensures
        r == crate::text::cviews(words@).contains(w@),
{
    let wc = chars_of(w);
    let mut i: usize = 0;
    while i < words.len()
        invariant
            i <= words@.len(),
            wc@ == w@,
            forall|j: int| 0 <= j < i ==> words@[j]@ != w@,
        decreases words@.len() - i,
    {
        if crate::text::same_chars(&words[i], &wc) {
            assert(crate::text::cviews(words@)[i as int] == w@);
            return true;
        }
        i = i + 1;
    }
    assert(!crate::text::cviews(words@).contains(w@)) by {
        if crate::text::cviews(words@).contains(w@) {
            let k = choose|k: int| 0 <= k < words@.len() && crate::text::cviews(words@)[k] == w@;
            assert(words@[k]@ == w@);
        }
    }
    false
}

impl Manager {
    fn show_rules_of(job: &mut Job, anchor: &str, phase: Phase) -> (r: Step)
        ensures
            asks(r, RequestView::Run(show_args(ShowModifier::Rules, anchor@, false))),
            moved(*old(job), *final(job), phase),
    {
        let req = show_request(ShowModifier::Rules, anchor, false);
        Self::ask(job, phase, req)
    }

    fn show_next_anchor(job: &mut Job) -> (r: Step)
        ensures
            old(job).next < old(job).anchors@.len() ==> (asks(
                r,
                RequestView::Run(
                    show_args(ShowModifier::Rules, old(job).anchors@[old(job).next as int]@, false),
                ),
            ) && moved(*old(job), *final(job), Phase::ShowingAnchor)),
            old(job).next >= old(job).anchors@.len() ==> (asks(
                r,
                RequestView::Run(show_args(ShowModifier::Info, seq![], false)),
            ) && moved(*old(job), *final(job), Phase::ShowingInfo)),
    {
        if job.next < job.anchors.len() {
            let a = String::from_str(job.anchors[job.next].as_str());
            Self::show_rules_of(job, a.as_str(), Phase::ShowingAnchor)
        } else {
            Self::show_info(job)
        }
    }

    fn proceed(&self, job: &mut Job) -> (r: Step)
        ensures
            proceeds(*self, *old(job), *final(job), r),
    {
        match job.op {
            Op::Enable | Op::Load => self.begin_on(job),
            Op::Disable => {
                let ask_first = match &self.ctl.state {
                    CtlState::Toggle(b) => *b,
                    CtlState::Token(t) => t.as_str().unicode_len() > 0,
                };
                if ask_first {
                    let req = self.on_query_of();
                    Self::ask(job, Phase::QueryingOff, req)
                } else {
                    let req = self.reset_of(self.anchor.as_str());
                    Self::ask(job, Phase::Resetting, req)
                }
            },
            Op::Status => {
                proof {
                    reveal_strlit("");
                }
                Self::show_rules_of(job, "", Phase::ShowingMain)
            },
        }
    }

    fn commit(&mut self, job: &mut Job) -> (r: Step)
        ensures
            committed(*old(self), *final(self), *old(job), *final(job), r),
    {
        match &job.target {
            Some(t) => {
                self.anchor = String::from_str(t.as_str());
            },
            None => {},
        }
        self.state = true;
        Self::ask(job, Phase::FlushingStates, Self::flush_states())
    }

    /// Advances `job` by the reply to its last request (`Reply::Start` for the
    /// first call) and returns what to do next.
    pub fn step(&mut self, job: &mut Job, reply: Reply) -> (r: Step)
        ensures
            step_post(*old(self), *final(self), *old(job), *final(job), reply, r),
    {
        match job.phase {
            Phase::Start => {
                if job.persist {
                    let req = Request::Read(String::from_str(job.settings_path.as_str()));
                    Self::ask(job, Phase::ReadingSettings, req)
                } else {
                    self.proceed(job)
                }
            },
            Phase::Finished => Step::Done(Err(ExecError::OutOfTurn)),
            _ => match reply {
                Reply::Failed(e) => Self::finish(job, Err(e)),
                Reply::Text(t) => {
                    if matches!(job.phase, Phase::ReadingSettings) {
                        self.apply_settings(t.as_str());
                        self.proceed(job)
                    } else {
                        Self::finish(job, Err(ExecError::OutOfTurn))
                    }
                },
                Reply::Missing => {
                    if matches!(job.phase, Phase::ReadingSettings) {
                        self.proceed(job)
                    } else {
                        Self::finish(job, Err(ExecError::OutOfTurn))
                    }
                },
                Reply::Written => match job.phase {
                    Phase::WritingPolicy => self.write_settings(job),
                    Phase::WritingSettings => Self::finish(job, Ok(())),
                    _ => Self::finish(job, Err(ExecError::OutOfTurn)),
                },
                Reply::Output { stdout, stderr } => self.on_output(job, stdout, stderr),
                Reply::Start => Self::finish(job, Err(ExecError::OutOfTurn)),
            },
        }
    }

    fn on_output(&mut self, job: &mut Job, stdout: String, stderr: String) -> (r: Step)
        requires
            !(old(job).phase is Start),
            !(old(job).phase is Finished),
        ensures
            output_post(*old(self), *final(self), *old(job), *final(job), stdout@, stderr@, r),
    {
        let ghost so = stdout@;
        match job.phase {
            Phase::QueryingOn => {
                if self.query_on(stdout.as_str()) {
                    self.begin_load(job)
                } else {
                    let req = self.enable_of();
                    Self::ask(job, Phase::Enabling, req)
                }
            },
            Phase::Enabling => {
                if self.ctl.uses_token() {
                    match crate::ctl::token_from_report(stderr.as_str()) {
                        Some(t) => {
                            self.ctl.state = CtlState::Token(t);
                            self.begin_load(job)
                        },
                        None => Self::finish(job, Err(ExecError::Malformed(stderr))),
                    }
                } else {
                    self.ctl.state = CtlState::Toggle(true);
                    self.begin_load(job)
                }
            },
            Phase::Loading => {
                let must_reset = match &job.target {
                    Some(t) => {
                        let tc = chars_of(t.as_str());
                        let ac = chars_of(self.anchor.as_str());
                        self.state && !crate::text::same_chars(&ac, &tc)
                    },
                    None => false,
                };
                if must_reset {
                    let req = self.reset_of(self.anchor.as_str());
                    Self::ask(job, Phase::ResettingPrevious, req)
                } else {
                    self.commit(job)
                }
            },
            Phase::ResettingPrevious => self.commit(job),
            Phase::FlushingStates => {
                let wrote = match (&job.op, &job.source) {
                    (Op::Enable, LoadFile::Stdin(text)) => if job.persist {
                        Some(String::from_str(text.as_str()))
                    } else {
                        None
                    },
                    _ => None,
                };
                match wrote {
                    Some(text) => {
                        let req = Request::Write(String::from_str(job.policy_path.as_str()), text);
                        Self::ask(job, Phase::WritingPolicy, req)
                    },
                    None => self.write_settings(job),
                }
            },
            Phase::QueryingOff => {
                if self.query_on(stdout.as_str()) {
                    let req = self.disable_of();
                    Self::ask(job, Phase::Disabling, req)
                } else {
                    let req = self.reset_of(self.anchor.as_str());
                    Self::ask(job, Phase::Resetting, req)
                }
            },
            Phase::Disabling => {
                if self.ctl.uses_token() {
                    self.ctl.state = CtlState::Token(String::new());
                } else {
                    self.ctl.state = CtlState::Toggle(false);
                }
                let req = self.reset_of(self.anchor.as_str());
                Self::ask(job, Phase::Resetting, req)
            },
            Phase::Resetting => {
                self.state = false;
                self.write_settings(job)
            },
            Phase::ShowingMain => {
                if stdout.as_str().unicode_len() == 0 {
                    job.status.netlock_state = false;
                    Self::show_info(job)
                } else {
                    let ghost r0 = job.status.spec_rules();
                    let e = String::new();
                    let c = String::from_str(stdout.as_str());
                    let ghost ev = e@;
                    let ghost cv = c@;
                    job.status.rules.push((e, c));
                    assert(ev =~= seq![]);
                    assert(job.status.spec_rules() =~= r0.push((seq![], so)));
                    job.status.netlock_state = self.state;
                    if self.anchor.as_str().unicode_len() == 0 {
                        if self.state {
                            let b = table_ref(self.rules.block_table_name());
                            let i = table_ref(self.rules.in_table_name());
                            let o = table_ref(self.rules.out_table_name());
                            job.status.netlock_state = contains_str(stdout.as_str(), b.as_str())
                                && contains_str(stdout.as_str(), i.as_str()) && contains_str(
                                stdout.as_str(),
                                o.as_str(),
                            );
                        }
                        if job.status.netlock_state {
                            proof {
                                reveal_strlit("");
                            }
                            let req = show_request(ShowModifier::Tables, "", false);
                            Self::ask(job, Phase::ShowingTables, req)
                        } else {
                            Self::show_info(job)
                        }
                    } else {
                        proof {
                            reveal_strlit("");
                        }
                        let req = show_request(ShowModifier::Anchors, "", true);
                        Self::ask(job, Phase::ShowingAnchors, req)
                    }
                }
            },
            Phase::ShowingTables => {
                let text = chars_of(stdout.as_str());
                let words = crate::text::fields_of(&text);
                job.status.netlock_state = has_word(&words, self.rules.block_table_name())
                    && has_word(&words, self.rules.in_table_name()) && has_word(
                    &words,
                    self.rules.out_table_name(),
                );
                Self::show_info(job)
            },
            Phase::ShowingAnchors => {
                let text = chars_of(stdout.as_str());
                let words = crate::text::fields_of(&text);
                let mut names: Vec<String> = Vec::new();
                let mut k: usize = 0;
                while k < words.len()
                    invariant
                        k <= words@.len(),
                        crate::text::views(names@) == crate::text::cviews(words@).take(k as int),
                    decreases words@.len() - k,
                {
                    let ghost n0 = crate::text::views(names@);
                    let w = crate::text::string_of(&words[k]);
                    let ghost wv = w@;
                    names.push(w);
                    assert(crate::text::views(names@) =~= n0.push(wv));
                    k = k + 1;
                    assert(crate::text::views(names@) =~= crate::text::cviews(words@).take(k as int));
                }
                assert(crate::text::cviews(words@).take(words@.len() as int) =~= crate::text::cviews(words@));
                job.anchors = names;
                job.next = 0;
                Self::show_next_anchor(job)
            },
            Phase::ShowingAnchor => {
                if job.next < job.anchors.len() {
                    if stdout.as_str().unicode_len() > 0 {
                        let ghost r0 = job.status.spec_rules();
                        let a = String::from_str(job.anchors[job.next].as_str());
                        let c = String::from_str(stdout.as_str());
                        let ghost av = a@;
                        let ghost cv = c@;
                        job.status.rules.push((a, c));
                        assert(job.status.spec_rules() =~= r0.push((av, cv)));
                    }
                    job.next = job.next + 1;
                }
                Self::show_next_anchor(job)
            },
            Phase::ShowingInfo => {
                job.status.firewall_state = info_says_enabled(stdout.as_str());
                Self::finish(job, Ok(()))
            },
            _ => Self::finish(job, Err(ExecError::OutOfTurn)),
        }
    }
}

/// The policy is loaded next.
pub open spec fn loads(m: Manager, j0: Job, j1: Job, r: Step) -> bool {
    asks(r, load_request(j0.source, m.target_anchor(j0))) && moved(j0, j1, Phase::Loading)
}

/// The job ends on diagnostics that hold no valid token.
pub open spec fn ends_malformed(m0: Manager, m1: Manager, j0: Job, j1: Job, r: Step, stderr: Seq<char>) -> bool {
    &&& m1 == m0
    &&& r matches Step::Done(Err(ExecError::Malformed(e))) && e@ == stderr
    &&& moved(j0, j1, Phase::Finished)
}

/// The protocol state after this process's enable is dropped.
pub open spec fn released(s: CtlState) -> CtlView {
    match s {
        CtlState::Toggle(_) => CtlView::Toggle(false),
        CtlState::Token(_) => CtlView::Token(seq![]),
    }
}

/// What a step does, by the phase the job stood in.
pub open spec fn step_post(m0: Manager, m1: Manager, j0: Job, j1: Job, reply: Reply, r: Step) -> bool {
    match j0.phase {
        Phase::Start => m1 == m0 && if j0.persist {
            asks(r, RequestView::Read(j0.settings_path@)) && moved(j0, j1, Phase::ReadingSettings)
        } else {
            proceeds(m0, j0, j1, r)
        },
        Phase::Finished => m1 == m0 && j1 == j0 && r == Step::Done(Err(ExecError::OutOfTurn)),
        _ => match reply {
            Reply::Failed(e) => ends(m0, m1, j0, j1, r, Err(e)),
            Reply::Text(t) => if j0.phase is ReadingSettings {
                &&& m1.persisted() == apply_lines(m0.persisted(), crate::text::lines(t@))
                &&& m1.spec_rules() == m0.spec_rules()
                &&& m1.spec_is_log() == m0.spec_is_log()
                &&& m1.spec_ctl().spec_ctl_path() == m0.spec_ctl().spec_ctl_path()
                &&& m1.spec_ctl().spec_conf_path() == m0.spec_ctl().spec_conf_path()
                &&& proceeds(m1, j0, j1, r)
            } else {
                ends(m0, m1, j0, j1, r, Err(ExecError::OutOfTurn))
            },
            Reply::Missing => if j0.phase is ReadingSettings {
                m1 == m0 && proceeds(m0, j0, j1, r)
            } else {
                ends(m0, m1, j0, j1, r, Err(ExecError::OutOfTurn))
            },
            Reply::Written => match j0.phase {
                Phase::WritingPolicy => m1 == m0 && writes_settings(m0, j0, j1, r),
                Phase::WritingSettings => ends(m0, m1, j0, j1, r, Ok(())),
                _ => ends(m0, m1, j0, j1, r, Err(ExecError::OutOfTurn)),
            },
            Reply::Output { stdout, stderr } => output_post(m0, m1, j0, j1, stdout@, stderr@, r),
            Reply::Start => ends(m0, m1, j0, j1, r, Err(ExecError::OutOfTurn)),
        },
    }
}

/// What a step on a successful run of the utility does, by phase.
pub open spec fn output_post(m0: Manager, m1: Manager, j0: Job, j1: Job, stdout: Seq<char>, stderr: Seq<char>, r: Step) -> bool {
    let s = m0.spec_ctl().spec_state();
    match j0.phase {
        Phase::QueryingOn => m1 == m0 && if query_says_on(s, stdout) {
            loads(m0, j0, j1, r)
        } else {
            asks(r, RequestView::Run(enable_args(s))) && moved(j0, j1, Phase::Enabling)
        },
        Phase::Enabling => match s {
            CtlState::Toggle(_) => same_but_ctl_state(m0, m1) && m1.spec_ctl().spec_state()@
                == CtlView::Toggle(true) && loads(m1, j0, j1, r),
            CtlState::Token(_) => match crate::ctl::token_field(lower_of(stderr)) {
                Some(t) => if crate::ctl::valid_token(t) {
                    same_but_ctl_state(m0, m1) && m1.spec_ctl().spec_state()@ == CtlView::Token(t)
                        && loads(m1, j0, j1, r)
                } else {
                    ends_malformed(m0, m1, j0, j1, r, stderr)
                },
                None => ends_malformed(m0, m1, j0, j1, r, stderr),
            },
        },
        Phase::Loading => after_load(m0, m1, j0, j1, r),
        Phase::ResettingPrevious => committed(m0, m1, j0, j1, r),
        Phase::FlushingStates => m1 == m0 && match (j0.op, j0.source) {
            (Op::Enable, LoadFile::Stdin(t)) => if j0.persist {
                asks(r, RequestView::Write(j0.policy_path@, t@)) && moved(j0, j1, Phase::WritingPolicy)
            } else {
                writes_settings(m0, j0, j1, r)
            },
            _ => writes_settings(m0, j0, j1, r),
        },
        Phase::QueryingOff => m1 == m0 && if query_says_on(s, stdout) {
            asks(r, RequestView::Run(disable_args(s))) && moved(j0, j1, Phase::Disabling)
        } else {
            resets(m0, j0, j1, r)
        },
        Phase::Disabling => same_but_ctl_state(m0, m1) && m1.spec_ctl().spec_state()@ == released(s)
            && resets(m1, j0, j1, r),
        Phase::Resetting => same_but_activation(m0, m1) && !m1.spec_state() && m1.spec_anchor()
            == m0.spec_anchor() && writes_settings(m1, j0, j1, r),
        Phase::ShowingMain => m1 == m0 && status_main_post(m0, j0, j1, stdout, r),
        Phase::ShowingTables => m1 == m0 && j1.status.spec_netlock_state() == lists_tables(
            m0.spec_rules(),
            stdout,
        ) && j1.status.spec_rules() == j0.status.spec_rules() && asks(
            r,
            RequestView::Run(show_args(ShowModifier::Info, seq![], false)),
        ) && j1.phase is ShowingInfo,
        Phase::ShowingAnchors => m1 == m0 && crate::text::views(j1.anchors@) == crate::text::fields(
            stdout,
        ) && j1.next == 0 && j1.status == j0.status && next_anchor_post(j1, r),
        Phase::ShowingAnchor => m1 == m0 && status_anchor_post(j0, j1, stdout, r),
        Phase::ShowingInfo => m1 == m0 && j1.status.spec_firewall_state() == contains(
            lower_of(stdout),
            enabled_phrase(),
        ) && j1.status.spec_netlock_state() == j0.status.spec_netlock_state()
            && j1.status.spec_rules() == j0.status.spec_rules() && r == Step::Done(Ok(()))
            && j1.phase is Finished,
        _ => ends(m0, m1, j0, j1, r, Err(ExecError::OutOfTurn)),
    }
}

/// The request after the anchors up to `j.next` were shown.
pub open spec fn next_anchor_post(j: Job, r: Step) -> bool {
    if j.next < j.anchors@.len() {
        asks(r, RequestView::Run(show_args(ShowModifier::Rules, j.anchors@[j.next as int]@, false)))
            && j.phase is ShowingAnchor
    } else {
        asks(r, RequestView::Run(show_args(ShowModifier::Info, seq![], false))) && j.phase is ShowingInfo
    }
}

/// The main ruleset `main` was shown: an empty one means the policy is not in
/// effect; otherwise it is recorded, the tables are checked on the main
/// ruleset, and the anchors are listed when an anchor is active.
pub open spec fn status_main_post(m: Manager, j0: Job, j1: Job, main: Seq<char>, r: Step) -> bool {
    if main.len() == 0 {
        &&& !j1.status.spec_netlock_state()
        &&& j1.status.spec_rules() == j0.status.spec_rules()
        &&& asks(r, RequestView::Run(show_args(ShowModifier::Info, seq![], false)))
        &&& j1.phase is ShowingInfo
    } else {
        &&& j1.status.spec_rules() == j0.status.spec_rules().push((seq![], main))
        &&& if m.spec_anchor().len() == 0 {
            &&& j1.status.spec_netlock_state() == (m.spec_state() && refers_to_tables(
                m.spec_rules(),
                main,
            ))
            &&& if j1.status.spec_netlock_state() {
                asks(r, RequestView::Run(show_args(ShowModifier::Tables, seq![], false)))
                    && j1.phase is ShowingTables
            } else {
                asks(r, RequestView::Run(show_args(ShowModifier::Info, seq![], false)))
                    && j1.phase is ShowingInfo
            }
        } else {
            &&& j1.status.spec_netlock_state() == m.spec_state()
            &&& asks(r, RequestView::Run(show_args(ShowModifier::Anchors, seq![], true)))
            &&& j1.phase is ShowingAnchors
        }
    }
}

/// The ruleset of the anchor `j0.anchors[j0.next]` was shown: recorded when
/// not empty, and the next anchor is shown.
pub open spec fn status_anchor_post(j0: Job, j1: Job, text: Seq<char>, r: Step) -> bool {
    if j0.next < j0.anchors@.len() {
        &&& j1.next == j0.next + 1
        &&& j1.anchors == j0.anchors
        &&& j1.status.spec_netlock_state() == j0.status.spec_netlock_state()
        &&& j1.status.spec_rules() == if text.len() > 0 {
            j0.status.spec_rules().push((j0.anchors@[j0.next as int]@, text))
        } else {
            j0.status.spec_rules()
        }
        &&& next_anchor_post(j1, r)
    } else {
        j1.status == j0.status && next_anchor_post(j1, r)
    }
}

} // verus!
