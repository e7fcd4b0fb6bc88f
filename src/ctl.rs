//! The control utility: its subcommands as argument lists, the requests the
//! lifecycle hands out, the replies it gets back, and the parsing of the
//! utility's diagnostics.
use vstd::prelude::*;
use vstd::string::*;

use crate::text::{
    chars_of, contains, contains_chars, contains_str, lines, lines_of, split_chars, split_on,
    string_of, trim, trim_chars,
};

verus! {

/// Default location of the control utility.
pub const DEFAULT_CTL_PATH: &'static str = "/sbin/pfctl";
/// Default location of the system's baseline policy.
pub const DEFAULT_CONF_PATH: &'static str = "/etc/pf.conf";

/// A failure of the control utility or of a file operation.
pub enum ExecError {
    /// The utility could not be run, or a file could not be read or written.
    Io(String),
    /// The utility exited with a failure; its diagnostics.
    Status(String),
    /// The utility's diagnostics could not be understood.
    Malformed(String),
    /// A reply that does not answer the request made, or a job already over.
    OutOfTurn,
}

/// What the lifecycle asks the caller to do next.
pub enum Request {
    /// Run the control utility with these arguments.
    Run(Vec<String>),
    /// Run the control utility with these arguments, feeding the text on standard input.
    Feed(Vec<String>, String),
    /// Read the file at this path.
    Read(String),
    /// Write the text to the file at this path, creating its directory, owner-only.
    Write(String, String),
}

/// A request as plain values.
pub enum RequestView {
    Run(Seq<Seq<char>>),
    Feed(Seq<Seq<char>>, Seq<char>),
    Read(Seq<char>),
    Write(Seq<char>, Seq<char>),
}

impl View for Request {
    type V = RequestView;

    open spec fn view(&self) -> RequestView {
        match self {
            Request::Run(a) => RequestView::Run(crate::text::views(a@)),
            Request::Feed(a, t) => RequestView::Feed(crate::text::views(a@), t@),
            Request::Read(p) => RequestView::Read(p@),
            Request::Write(p, t) => RequestView::Write(p@, t@),
        }
    }
}

/// What came of the last request.
pub enum Reply {
    /// No request was made yet: the first step of a job.
    Start,
    /// The utility succeeded, with this output.
    Output { stdout: String, stderr: String },
    /// The file read holds this text.
    Text(String),
    /// The file read does not exist.
    Missing,
    /// The file was written.
    Written,
    /// The request failed.
    Failed(ExecError),
}

/// What to show.
pub enum ShowModifier {
    Rules,
    Anchors,
    States,
    Info,
    References,
    Labels,
    Tables,
    /// Interfaces, restricted to a group when the name is not empty.
    Interfaces(String),
}

impl ShowModifier {
    pub open spec fn spec_word(&self) -> Seq<char> {
        match self {
            ShowModifier::Rules => "rules"@,
            ShowModifier::Anchors => "Anchors"@,
            ShowModifier::States => "states"@,
            ShowModifier::Info => "info"@,
            ShowModifier::References => "References"@,
            ShowModifier::Labels => "labels"@,
            ShowModifier::Tables => "Tables"@,
            ShowModifier::Interfaces(_) => "Interfaces"@,
        }
    }

    /// The word the utility takes for it.
    pub fn word(&self) -> (r: &'static str)
        ensures
            r@ == self.spec_word(),
    {
        match self {
            ShowModifier::Rules => "rules",
            ShowModifier::Anchors => "Anchors",
            ShowModifier::States => "states",
            ShowModifier::Info => "info",
            ShowModifier::References => "References",
            ShowModifier::Labels => "labels",
            ShowModifier::Tables => "Tables",
            ShowModifier::Interfaces(_) => "Interfaces",
        }
    }
}

/// What to flush.
pub enum FlushModifier {
    Rules,
    States,
    Tables,
    All,
}

impl FlushModifier {
    pub open spec fn spec_word(&self) -> Seq<char> {
        match self {
            FlushModifier::Rules => "rules"@,
            FlushModifier::States => "states"@,
            FlushModifier::Tables => "Tables"@,
            FlushModifier::All => "all"@,
        }
    }

    /// The word the utility takes for it.
    pub fn word(&self) -> (r: &'static str)
        ensures
            r@ == self.spec_word(),
    {
        match self {
            FlushModifier::Rules => "rules",
            FlushModifier::States => "states",
            FlushModifier::Tables => "Tables",
            FlushModifier::All => "all",
        }
    }
}

/// Where a policy to load comes from.
pub enum LoadFile {
    /// A file.
    Path(String),
    /// Text fed on standard input.
    Stdin(String),
}

/// `-a ANCHOR` when an anchor is named.
pub open spec fn anchor_args(anchor: Seq<char>) -> Seq<Seq<char>> {
    if anchor.len() == 0 {
        seq![]
    } else {
        seq!["-a"@, anchor]
    }
}

pub open spec fn flush_args(kind: FlushModifier, anchor: Seq<char>) -> Seq<Seq<char>> {
    seq!["-F"@, kind.spec_word()] + anchor_args(anchor)
}

pub open spec fn show_args(kind: ShowModifier, anchor: Seq<char>, verbose: bool) -> Seq<Seq<char>> {
    let v = if verbose {
        seq!["-v"@]
    } else {
        seq![]
    };
    let i = match kind {
        ShowModifier::Interfaces(g) => if g@.len() > 0 {
            seq!["-i"@, g@]
        } else {
            seq![]
        },
        _ => seq![],
    };
    seq!["-s"@, kind.spec_word()] + anchor_args(anchor) + v + i
}

/// The request that loads `file` into `anchor`.
pub open spec fn load_request(file: LoadFile, anchor: Seq<char>) -> RequestView {
    match file {
        LoadFile::Path(p) => RequestView::Run(seq!["-f"@, p@] + anchor_args(anchor)),
        LoadFile::Stdin(t) => RequestView::Feed(seq!["-f"@, "-"@] + anchor_args(anchor), t@),
    }
}

fn push_anchor(args: &mut Vec<String>, anchor: &str)
    ensures
        crate::text::views(final(args)@) == crate::text::views(old(args)@) + anchor_args(anchor@),
{
    let ghost a0 = crate::text::views(args@);
    if anchor.unicode_len() > 0 {
        args.push(String::from_str("-a"));
        args.push(String::from_str(anchor));
        assert(crate::text::views(args@) =~= a0 + anchor_args(anchor@));
    } else {
        assert(crate::text::views(args@) =~= a0 + anchor_args(anchor@));
    }
}

/// The request that flushes `kind` in `anchor` (the main ruleset when empty).
pub fn flush_request(kind: FlushModifier, anchor: &str) -> (r: Request)
    ensures
        r@ == RequestView::Run(flush_args(kind, anchor@)),
{
    let mut args: Vec<String> = Vec::new();
    args.push(String::from_str("-F"));
    args.push(String::from_str(kind.word()));
    assert(crate::text::views(args@) =~= seq!["-F"@, kind.spec_word()]);
    push_anchor(&mut args, anchor);
    Request::Run(args)
}

/// The request that shows `kind` for `anchor`, verbosely if asked.
pub fn show_request(kind: ShowModifier, anchor: &str, verbose: bool) -> (r: Request)
    ensures
        r@ == RequestView::Run(show_args(kind, anchor@, verbose)),
{
    let mut args: Vec<String> = Vec::new();
    args.push(String::from_str("-s"));
    args.push(String::from_str(kind.word()));
    assert(crate::text::views(args@) =~= seq!["-s"@, kind.spec_word()]);
    push_anchor(&mut args, anchor);
    let ghost a1 = crate::text::views(args@);
    if verbose {
        args.push(String::from_str("-v"));
    }
    let ghost a2 = crate::text::views(args@);
    assert(a2 =~= a1 + if verbose {
        seq!["-v"@]
    } else {
        seq![]
    });
    match &kind {
        ShowModifier::Interfaces(g) => {
            if g.as_str().unicode_len() > 0 {
                args.push(String::from_str("-i"));
                args.push(String::from_str(g.as_str()));
                assert(crate::text::views(args@) =~= a2 + seq!["-i"@, g@]);
            } else {
                assert(crate::text::views(args@) =~= a2 + seq![]);
            }
        },
        _ => {
            assert(crate::text::views(args@) =~= a2 + seq![]);
        },
    }
    assert(crate::text::views(args@) =~= show_args(kind, anchor@, verbose));
    Request::Run(args)
}

/// The request that loads `file` into `anchor` (the main ruleset when empty).
pub fn load_request_of(file: LoadFile, anchor: &str) -> (r: Request)
    ensures
        r@ == load_request(file, anchor@),
{
    let mut args: Vec<String> = Vec::new();
    args.push(String::from_str("-f"));
    match file {
        LoadFile::Path(p) => {
            args.push(p);
            assert(crate::text::views(args@) =~= seq!["-f"@, p@]);
            push_anchor(&mut args, anchor);
            Request::Run(args)
        },
        LoadFile::Stdin(t) => {
            args.push(String::from_str("-"));
            assert(crate::text::views(args@) =~= seq!["-f"@, "-"@]);
            push_anchor(&mut args, anchor);
            Request::Feed(args, t)
        },
    }
}

/// The text of `s` with letters lowered, as `str::to_lowercase` gives it.
pub uninterp spec fn lower_of(s: Seq<char>) -> Seq<char>;

/// Relies on `str::to_lowercase`: the result depends on the characters alone.
#[verifier::external_body]
fn lowercase(s: &str) -> (r: String)
    ensures
        r@ == lower_of(s@),
{
    s.to_lowercase()
}

/// The phrase by which the info query reports an enabled firewall.
pub open spec fn enabled_phrase() -> Seq<char> {
    "status: enabled"@
}

/// Whether an already lowered info report says the firewall is enabled.
pub fn status_enabled(lowered: &str) -> (r: bool)
    ensures
        r == contains(lowered@, enabled_phrase()),
{
    contains_str(lowered, "status: enabled")
}

/// Whether the info report `info` says the firewall is enabled, ignoring case.
pub fn info_says_enabled(info: &str) -> (r: bool)
    ensures
        r == contains(lower_of(info@), enabled_phrase()),
{
    let low = lowercase(info);
    status_enabled(low.as_str())
}

/// The first of `ls` that contains `pat`.
pub open spec fn first_containing(ls: Seq<Seq<char>>, pat: Seq<char>) -> Option<Seq<char>>
    decreases ls.len(),
{
    if ls.len() == 0 {
        None
    } else if contains(ls[0], pat) {
        Some(ls[0])
    } else {
        first_containing(ls.drop_first(), pat)
    }
}

/// A token is a non-empty run of decimal digits.
pub open spec fn valid_token(t: Seq<char>) -> bool {
    t.len() > 0 && forall|i: int| 0 <= i < t.len() ==> '0' <= #[trigger] t[i] && t[i] <= '9'
}

/// What follows `token :` in an already lowered enable report: the second
/// `:`-separated field of the first line that holds the marker, trimmed.
pub open spec fn token_field(lowered: Seq<char>) -> Option<Seq<char>> {
    match first_containing(lines(lowered), "token :"@) {
        Some(l) => Some(trim(split_on(l, ':')[1])),
        None => None,
    }
}

fn is_token(t: &Vec<char>) -> (r: bool)
    ensures
        r == valid_token(t@),
{
    if t.len() == 0 {
        return false;
    }
    let mut i: usize = 0;
    while i < t.len()
        invariant
            i <= t@.len(),
            forall|j: int| 0 <= j < i ==> '0' <= #[trigger] t@[j] && t@[j] <= '9',
        decreases t@.len() - i,
    {
        if !('0' <= t[i] && t[i] <= '9') {
            return false;
        }
        i = i + 1;
    }
    true
}

/// The reference token in an already lowered enable report, when it holds a
/// valid one.
pub fn parse_token(lowered: &str) -> (r: Option<String>)
    ensures
        match token_field(lowered@) {
            Some(t) => if valid_token(t) {
                r is Some && r->0@ == t
            } else {
                r is None
            },
            None => r is None,
        },
{
    let text = chars_of(lowered);
    let ls = lines_of(&text);
    let pat = chars_of("token :");
    let mut i: usize = 0;
    assert(crate::text::cviews(ls@).subrange(0, ls@.len() as int) =~= crate::text::cviews(ls@));
    while i < ls.len()
        invariant
            i <= ls@.len(),
            pat@ == "token :"@,
            crate::text::cviews(ls@) == lines(lowered@),
            first_containing(lines(lowered@), "token :"@) == first_containing(
                crate::text::cviews(ls@).subrange(i as int, ls@.len() as int),
                "token :"@,
            ),
        decreases ls@.len() - i,
    {
        let ghost rest = crate::text::cviews(ls@).subrange(i as int, ls@.len() as int);
        assert(rest[0] == ls@[i as int]@);
        if contains_chars(&ls[i], &pat) {
            proof {
                reveal_strlit("token :");
            }
            let pieces = split_chars(&ls[i], ':');
            assert(contains(ls@[i as int]@, "token :"@));
            let ghost w = choose|k: int| crate::text::occurs_at(ls@[i as int]@, "token :"@, k);
            assert(crate::text::occurs_at(ls@[i as int]@, "token :"@, w));
            assert(ls@[i as int]@.subrange(w, w + 7)[6] == ':');
            assert(ls@[i as int]@[w + 6] == ':');
            proof {
                lemma_split_has_second(ls@[i as int]@, ':', w + 6);
            }
            let t = trim_chars(&pieces[1]);
            if is_token(&t) {
                return Some(string_of(&t));
            } else {
                return None;
            }
        }
        assert(rest.drop_first() =~= crate::text::cviews(ls@).subrange(i + 1, ls@.len() as int));
        i = i + 1;
    }
    None
}

/// A text that holds the separator splits into at least two pieces.
proof fn lemma_split_has_second(s: Seq<char>, sep: char, k: int)
    requires
        0 <= k < s.len(),
        s[k] == sep,
    ensures
        split_on(s, sep).len() >= 2,
    decreases s.len(),
{
    crate::text::lemma_split_nonempty(s.drop_last(), sep);
    if k < s.len() - 1 {
        lemma_split_has_second(s.drop_last(), sep, k);
    }
}

/// The reference token, from an enable report, when it holds a valid one.
pub fn token_from_report(stderr: &str) -> (r: Option<String>)
    ensures
        match token_field(lower_of(stderr@)) {
            Some(t) => if valid_token(t) {
                r is Some && r->0@ == t
            } else {
                r is None
            },
            None => r is None,
        },
{
    let low = lowercase(stderr);
    parse_token(low.as_str())
}

} // verus!
