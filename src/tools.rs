//! Tagged entries of the rule set: directed names and process owners.
use vstd::prelude::*;
use vstd::string::*;

use crate::text::{
    chars_of, contains, contains_chars, cviews, fields, fields_of, lines, lines_of, same_chars,
    starts_with, string_of, strip_prefix,
};

verus! {

/// A name (interface or destination) with the direction it applies to.
pub enum Direction {
    /// Both directions.
    Any(String),
    /// Inbound only.
    In(String),
    /// Outbound only.
    Out(String),
}

/// The prefix that marks an inbound entry in its written form.
pub const DIRECTION_IN: &'static str = "in:";
/// The prefix that marks an outbound entry in its written form.
pub const DIRECTION_OUT: &'static str = "out:";

impl Direction {
    /// The plain name, without direction.
    pub open spec fn name(&self) -> Seq<char> {
        match self {
            Direction::Any(s) => s@,
            Direction::In(s) => s@,
            Direction::Out(s) => s@,
        }
    }

    /// The entry applies to outbound traffic only.
    pub open spec fn outbound_only(&self) -> bool {
        match self {
            Direction::Out(_) => true,
            _ => false,
        }
    }

    /// The entry applies to inbound traffic.
    pub open spec fn applies_in(&self) -> bool {
        !(self is Out)
    }

    /// The entry applies to outbound traffic.
    pub open spec fn applies_out(&self) -> bool {
        !(self is In)
    }

    /// Reads the written form: `in:NAME`, `out:NAME` or a bare `NAME`.
    pub fn new(s: &str) -> (r: Self)
        ensures
            starts_with(s@, DIRECTION_IN@) ==> r is In && r.name() == s@.subrange(
                DIRECTION_IN@.len() as int,
                s@.len() as int,
            ),
            !starts_with(s@, DIRECTION_IN@) && starts_with(s@, DIRECTION_OUT@) ==> r is Out
                && r.name() == s@.subrange(DIRECTION_OUT@.len() as int, s@.len() as int),
            !starts_with(s@, DIRECTION_IN@) && !starts_with(s@, DIRECTION_OUT@) ==> r is Any
                && r.name() == s@,
    {
        match strip_prefix(s, DIRECTION_IN) {
            Some(n) => Direction::In(n),
            None => match strip_prefix(s, DIRECTION_OUT) {
                Some(n) => Direction::Out(n),
                None => Direction::Any(String::from_str(s)),
            },
        }
    }

    /// The written form, which `new` reads back.
    pub fn value(&self) -> (r: String)
        ensures
            self is In ==> r@ == DIRECTION_IN@ + self.name(),
            self is Out ==> r@ == DIRECTION_OUT@ + self.name(),
            self is Any ==> r@ == self.name(),
    {
        match self {
            Direction::Any(s) => s.clone(),
            Direction::In(s) => String::from_str(DIRECTION_IN).concat(s.as_str()),
            Direction::Out(s) => String::from_str(DIRECTION_OUT).concat(s.as_str()),
        }
    }

    /// The plain name, without direction.
    pub fn safe_unwrap(&self) -> (r: &str)
        ensures
            r@ == self.name(),
    {
        match self {
            Direction::Any(s) => s.as_str(),
            Direction::In(s) => s.as_str(),
            Direction::Out(s) => s.as_str(),
        }
    }

    /// Inbound only.
    pub fn is_in(&self) -> (r: bool)
        ensures
            r == self is In,
    {
        matches!(self, Direction::In(_))
    }

    /// Outbound only.
    pub fn is_out(&self) -> (r: bool)
        ensures
            r == self is Out,
    {
        matches!(self, Direction::Out(_))
    }

    /// Both directions.
    pub fn has_no_direction(&self) -> (r: bool)
        ensures
            r == self is Any,
    {
        matches!(self, Direction::Any(_))
    }

    /// The written form of the same name made inbound.
    pub fn to_in_string(&self) -> (r: String)
        ensures
            r@ == DIRECTION_IN@ + self.name(),
    {
        String::from_str(DIRECTION_IN).concat(self.safe_unwrap())
    }

    /// The written form of the same name made outbound.
    pub fn to_out_string(&self) -> (r: String)
        ensures
            r@ == DIRECTION_OUT@ + self.name(),
    {
        String::from_str(DIRECTION_OUT).concat(self.safe_unwrap())
    }

    /// The same name, inbound only.
    pub fn to_in(&self) -> (r: Self)
        ensures
            r is In,
            r.name() == self.name(),
    {
        Direction::In(String::from_str(self.safe_unwrap()))
    }

    /// The same name, outbound only.
    pub fn to_out(&self) -> (r: Self)
        ensures
            r is Out,
            r.name() == self.name(),
    {
        Direction::Out(String::from_str(self.safe_unwrap()))
    }
}

/// A process owner whose traffic passes unconditionally.
pub enum Owner {
    /// A user name or id.
    User(String),
    /// A group name or id.
    Group(String),
}

/// The prefix that marks a user in the written form.
pub const OWNER_USER: &'static str = "u:";
/// The prefix that marks a group in the written form.
pub const OWNER_GROUP: &'static str = "g:";

impl Owner {
    /// The plain name, without tag.
    pub open spec fn name(&self) -> Seq<char> {
        match self {
            Owner::User(s) => s@,
            Owner::Group(s) => s@,
        }
    }

    /// Reads the written form: `g:GROUP`, `u:USER` or a bare `USER`.
    pub fn new(s: &str) -> (r: Self)
        ensures
            starts_with(s@, OWNER_GROUP@) ==> r is Group && r.name() == s@.subrange(
                OWNER_GROUP@.len() as int,
                s@.len() as int,
            ),
            !starts_with(s@, OWNER_GROUP@) && starts_with(s@, OWNER_USER@) ==> r is User
                && r.name() == s@.subrange(OWNER_USER@.len() as int, s@.len() as int),
            !starts_with(s@, OWNER_GROUP@) && !starts_with(s@, OWNER_USER@) ==> r is User
                && r.name() == s@,
    {
        match strip_prefix(s, OWNER_GROUP) {
            Some(n) => Owner::Group(n),
            None => match strip_prefix(s, OWNER_USER) {
                Some(n) => Owner::User(n),
                None => Owner::User(String::from_str(s)),
            },
        }
    }

    /// The written form, which `new` reads back.
    pub fn value(&self) -> (r: String)
        ensures
            self is User ==> r@ == OWNER_USER@ + self.name(),
            self is Group ==> r@ == OWNER_GROUP@ + self.name(),
    {
        match self {
            Owner::User(s) => String::from_str(OWNER_USER).concat(s.as_str()),
            Owner::Group(s) => String::from_str(OWNER_GROUP).concat(s.as_str()),
        }
    }

    /// The plain name, without tag.
    pub fn safe_unwrap(&self) -> (r: &str)
        ensures
            r@ == self.name(),
    {
        match self {
            Owner::User(s) => s.as_str(),
            Owner::Group(s) => s.as_str(),
        }
    }

    /// A user.
    pub fn is_user(&self) -> (r: bool)
        ensures
            r == self is User,
    {
        matches!(self, Owner::User(_))
    }

    /// A group.
    pub fn is_group(&self) -> (r: bool)
        ensures
            r == self is Group,
    {
        matches!(self, Owner::Group(_))
    }
}


/// What the routing table tells about the default route.
pub struct RoutingInfo {
    interface: String,
    destination: String,
}

impl RoutingInfo {
    pub closed spec fn spec_interface(&self) -> Seq<char> {
        self.interface@
    }

    pub closed spec fn spec_destination(&self) -> Seq<char> {
        self.destination@
    }

    /// The interface of the split default routes (`0/1`, `128.0/1`), empty if none.
    pub fn interface(&self) -> (r: &str)
        ensures
            r@ == self.spec_interface(),
    {
        self.interface.as_str()
    }

    /// The host route through the default gateway (the VPN server), empty if none.
    pub fn destination(&self) -> (r: &str)
        ensures
            r@ == self.spec_destination(),
    {
        self.destination.as_str()
    }
}

/// Where a scan of the routing table stands.
pub struct RouteScan {
    pub interface: Seq<char>,
    pub destination: Seq<char>,
    pub gateway: Seq<char>,
    pub netif: Seq<char>,
    pub done: bool,
}

/// A row of the table as fields: destination, gateway, flags at 3, interface at 7.
pub open spec fn usable_route(row: Seq<Seq<char>>) -> bool {
    &&& !starts_with(row[7], "lo"@)
    &&& contains(row[3], "U"@)
    &&& contains(row[3], "G"@)
    &&& contains(row[3], "S"@)
}

/// One row of the table applied to the scan.
pub open spec fn scan_route(st: RouteScan, row: Seq<Seq<char>>) -> RouteScan {
    if st.done || !usable_route(row) {
        st
    } else if (row[0] == "0/1"@ || row[0] == "128.0/1"@) && st.interface.len() == 0 {
        RouteScan { interface: row[7], done: st.destination.len() > 0, ..st }
    } else if row[0] == "default"@ && st.gateway.len() == 0 {
        RouteScan { gateway: row[1], netif: row[7], ..st }
    } else if st.gateway.len() > 0 && st.destination.len() == 0 && row[1] == st.gateway && row[7]
        == st.netif {
        RouteScan { destination: row[0], done: st.interface.len() > 0, ..st }
    } else {
        st
    }
}

/// The rows applied in order.
pub open spec fn scan_routes(st: RouteScan, rows: Seq<Seq<Seq<char>>>) -> RouteScan
    decreases rows.len(),
{
    if rows.len() == 0 {
        st
    } else {
        scan_route(scan_routes(st, rows.drop_last()), rows.last())
    }
}

/// The rows of a listing that have at least eight fields, as fields.
pub open spec fn wide_rows(ls: Seq<Seq<char>>) -> Seq<Seq<Seq<char>>>
    decreases ls.len(),
{
    if ls.len() == 0 {
        seq![]
    } else {
        let f = fields(ls.last());
        if f.len() >= 8 {
            wide_rows(ls.drop_last()).push(f)
        } else {
            wide_rows(ls.drop_last())
        }
    }
}

/// The route rows of a `netstat -lnr -f inet` listing: its wide rows but the header.
pub open spec fn route_rows(text: Seq<char>) -> Seq<Seq<Seq<char>>> {
    let w = wide_rows(lines(text));
    if w.len() == 0 {
        w
    } else {
        w.drop_first()
    }
}

/// The scan of a listing from the start.
pub open spec fn scanned(text: Seq<char>) -> RouteScan {
    scan_routes(
        RouteScan {
            interface: seq![],
            destination: seq![],
            gateway: seq![],
            netif: seq![],
            done: false,
        },
        route_rows(text),
    )
}

fn is_str(v: &Vec<char>, s: &str) -> (r: bool)
    ensures
        r == (v@ == s@),
{
    let c = chars_of(s);
    same_chars(v, &c)
}

fn has(v: &Vec<char>, s: &str) -> (r: bool)
    ensures
        r == contains(v@, s@),
{
    let c = chars_of(s);
    contains_chars(v, &c)
}

/// Reads the default-route interface and the VPN server's host route out of a
/// `netstat -lnr -f inet` listing.
pub fn routing_info_from_table(text: &str) -> (r: RoutingInfo)
    ensures
        r.spec_interface() == scanned(text@).interface,
        r.spec_destination() == scanned(text@).destination,
{
    let cs = chars_of(text);
    let ls = lines_of(&cs);
    let mut rows: Vec<Vec<Vec<char>>> = Vec::new();
    let mut i: usize = 0;
    while i < ls.len()
        invariant
            i <= ls@.len(),
            cviews(ls@) == lines(text@),
            rows@.map_values(|r: Vec<Vec<char>>| cviews(r@)) == wide_rows(cviews(ls@).take(i as int)),
            forall|j: int| 0 <= j < rows@.len() ==> (#[trigger] rows@[j])@.len() >= 8,
        decreases ls@.len() - i,
    {
        assert(cviews(ls@).take(i as int + 1).drop_last() =~= cviews(ls@).take(i as int));
        assert(cviews(ls@).take(i as int + 1).last() == ls@[i as int]@);
        let f = fields_of(&ls[i]);
        if f.len() >= 8 {
            let ghost r0 = rows@.map_values(|r: Vec<Vec<char>>| cviews(r@));
            let ghost fv = cviews(f@);
            rows.push(f);
            assert(rows@.map_values(|r: Vec<Vec<char>>| cviews(r@)) =~= r0.push(fv));
        }
        i = i + 1;
    }
    assert(cviews(ls@).take(ls@.len() as int) =~= cviews(ls@));
    let ghost all = rows@.map_values(|r: Vec<Vec<char>>| cviews(r@));
    let ghost start = RouteScan {
        interface: seq![],
        destination: seq![],
        gateway: seq![],
        netif: seq![],
        done: false,
    };
    let mut interface: Vec<char> = Vec::new();
    let mut destination: Vec<char> = Vec::new();
    let mut gateway: Vec<char> = Vec::new();
    let mut netif: Vec<char> = Vec::new();
    let mut done = false;
    let first: usize = if rows.len() > 0 { 1 } else { 0 };
    assert(route_rows(text@) =~= all.subrange(first as int, all.len() as int));
    let mut k: usize = first;
    while k < rows.len()
        invariant
            first <= k <= rows@.len(),
            forall|j: int| 0 <= j < rows@.len() ==> (#[trigger] rows@[j])@.len() >= 8,
            all == rows@.map_values(|r: Vec<Vec<char>>| cviews(r@)),
            route_rows(text@) == all.subrange(first as int, all.len() as int),
            scan_routes(start, all.subrange(first as int, k as int)) == (RouteScan {
                interface: interface@,
                destination: destination@,
                gateway: gateway@,
                netif: netif@,
                done: done,
            }),
        decreases rows@.len() - k,
    {
        let row = &rows[k];
        let ghost rv = all[k as int];
        assert(rv == cviews(row@));
        assert(all.subrange(first as int, k + 1).drop_last() =~= all.subrange(first as int, k as int));
        assert(all.subrange(first as int, k + 1).last() == rv);
        if !done && !crate::text::starts_with_chars(&row[7], "lo") && has(&row[3], "U") && has(&row[3], "G") && has(
            &row[3],
            "S",
        ) {
            if (is_str(&row[0], "0/1") || is_str(&row[0], "128.0/1")) && interface.len() == 0 {
                interface = row[7].clone();
                done = destination.len() > 0;
            } else if is_str(&row[0], "default") && gateway.len() == 0 {
                gateway = row[1].clone();
                netif = row[7].clone();
            } else if gateway.len() > 0 && destination.len() == 0 && same_chars(&row[1], &gateway)
                && same_chars(&row[7], &netif) {
                destination = row[0].clone();
                done = interface.len() > 0;
            }
        }
        k = k + 1;
    }
    assert(all.subrange(first as int, rows@.len() as int) == route_rows(text@));
    RoutingInfo { interface: string_of(&interface), destination: string_of(&destination) }
}

/// The servers named by the `remote` lines of an OpenVPN configuration, in order.
pub open spec fn ovpn_remotes(ls: Seq<Seq<char>>) -> Seq<Seq<char>>
    decreases ls.len(),
{
    if ls.len() == 0 {
        seq![]
    } else {
        let f = fields(ls.last());
        if starts_with(ls.last(), "remote "@) && f.len() >= 2 {
            ovpn_remotes(ls.drop_last()).push(f[1])
        } else {
            ovpn_remotes(ls.drop_last())
        }
    }
}

/// The servers that an OpenVPN configuration connects to.
pub fn destinations_from_ovpn(text: &str) -> (r: Vec<String>)
    ensures
        crate::text::views(r@) == ovpn_remotes(lines(text@)),
{
    let cs = chars_of(text);
    let ls = lines_of(&cs);
    let pat = chars_of("remote ");
    let mut r: Vec<String> = Vec::new();
    let mut i: usize = 0;
    while i < ls.len()
        invariant
            i <= ls@.len(),
            pat@ == "remote "@,
            cviews(ls@) == lines(text@),
            crate::text::views(r@) == ovpn_remotes(cviews(ls@).take(i as int)),
        decreases ls@.len() - i,
    {
        assert(cviews(ls@).take(i as int + 1).drop_last() =~= cviews(ls@).take(i as int));
        assert(cviews(ls@).take(i as int + 1).last() == ls@[i as int]@);
        let l = &ls[i];
        let f = fields_of(l);
        let begins = crate::text::starts_with_chars(l, "remote ");
        assert(begins == starts_with(l@, "remote "@));
        if begins && f.len() >= 2 {
            let ghost r0 = crate::text::views(r@);
            let s = string_of(&f[1]);
            let ghost sv = s@;
            r.push(s);
            assert(crate::text::views(r@) =~= r0.push(sv));
        }
        i = i + 1;
    }
    assert(cviews(ls@).take(ls@.len() as int) =~= cviews(ls@));
    r
}

} // verus!
