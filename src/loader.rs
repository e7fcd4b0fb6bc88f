//! The configuration directory: where the compiled policy and the settings
//! are kept between invocations, and the jobs that use them.
use vstd::prelude::*;
use vstd::string::*;

use crate::ctl::{LoadFile, Reply};
use crate::manager::{namespaced, Job, Manager, Op, Step};
use crate::text::starts_with;

verus! {

/// Default configuration directory, before home expansion.
pub const DEFAULT_CONF_DIR: &'static str = "~/.config/me.lucky.netlock";
/// File name of the saved compiled policy.
pub const FIREWALL_CONF_FILE_NAME: &'static str = "firewall.conf";
/// File name of the saved settings.
pub const SETTINGS_CONF_FILE_NAME: &'static str = "settings.conf";

/// `name` inside directory `dir`, as `Path::join` forms it for a plain name.
pub open spec fn join_path(dir: Seq<char>, name: Seq<char>) -> Seq<char> {
    if dir.len() == 0 {
        name
    } else if dir.last() == '/' {
        dir + name
    } else {
        dir + "/"@ + name
    }
}

/// A manager together with the directory that keeps its state.
pub struct Loader {
    conf_dir: String,
    manager: Manager,
}

impl Loader {
    pub closed spec fn spec_conf_dir(&self) -> Seq<char> {
        self.conf_dir@
    }

    pub closed spec fn spec_manager(&self) -> Manager {
        self.manager
    }

    /// A loader over the already expanded directory `conf_dir`.
    pub fn new(conf_dir: &str, manager: Manager) -> (r: Self)
        requires
            !starts_with(conf_dir@, "~"@),
        ensures
            r.spec_conf_dir() == conf_dir@,
            r.spec_manager() == manager,
    {
        Loader { conf_dir: String::from_str(conf_dir), manager }
    }

    /// The manager, to configure.
    pub fn manager(&mut self) -> (r: &mut Manager)
        ensures
            *r == old(self).spec_manager(),
            final(self).spec_manager() == *final(r),
            final(self).spec_conf_dir() == old(self).spec_conf_dir(),
    {
        &mut self.manager
    }

    /// The configuration directory.
    pub fn conf_dir(&self) -> (r: &str)
        ensures
            r@ == self.spec_conf_dir(),
    {
        self.conf_dir.as_str()
    }

    fn path_of(&self, name: &str) -> (r: String)
        ensures
            r@ == join_path(self.spec_conf_dir(), name@),
    {
        let n = self.conf_dir.as_str().unicode_len();
        if n == 0 {
            String::from_str(name)
        } else if self.conf_dir.as_str().get_char(n - 1) == '/' {
            String::from_str(self.conf_dir.as_str()).concat(name)
        } else {
            String::from_str(self.conf_dir.as_str()).concat("/").concat(name)
        }
    }

    /// Where the compiled policy is saved.
    pub fn get_firewall_conf_path(&self) -> (r: String)
        ensures
            r@ == join_path(self.spec_conf_dir(), FIREWALL_CONF_FILE_NAME@),
    {
        self.path_of(FIREWALL_CONF_FILE_NAME)
    }

    /// Where the settings are saved.
    pub fn get_settings_conf_path(&self) -> (r: String)
        ensures
            r@ == join_path(self.spec_conf_dir(), SETTINGS_CONF_FILE_NAME@),
    {
        self.path_of(SETTINGS_CONF_FILE_NAME)
    }

    fn job(&self, op: Op, anchor: Option<&str>, source: LoadFile) -> (r: Job)
        ensures
            r.op == op,
            r.phase is Start,
            r.persist,
            r.source == source,
            r.policy_path@ == join_path(self.spec_conf_dir(), FIREWALL_CONF_FILE_NAME@),
            r.settings_path@ == join_path(self.spec_conf_dir(), SETTINGS_CONF_FILE_NAME@),
            anchor is None ==> r.target is None,
            anchor matches Some(a) ==> (r.target matches Some(t) && t@ == namespaced(a@)),
            r.anchors@.len() == 0,
            r.next == 0,
    {
        let target = match anchor {
            Some(a) => Some(Manager::format_anchor(a)),
            None => None,
        };
        Job::new(op, target, source, self.get_firewall_conf_path(), self.get_settings_conf_path(), true)
    }

    /// Enabling: apply the current policy, compiled with timestamp `ts`, into
    /// `anchor` (namespaced) or the active anchor, and save it.
    pub fn enable_at(&self, anchor: Option<&str>, ts: u64) -> (r: Job)
        ensures
            r.op is Enable,
            r.phase is Start,
            r.persist,
            r.source matches LoadFile::Stdin(t) && t@ == self.spec_manager().spec_rules().compiled(ts),
            r.policy_path@ == join_path(self.spec_conf_dir(), FIREWALL_CONF_FILE_NAME@),
            r.settings_path@ == join_path(self.spec_conf_dir(), SETTINGS_CONF_FILE_NAME@),
            anchor is None ==> r.target is None,
            anchor matches Some(a) ==> (r.target matches Some(t) && t@ == namespaced(a@)),
    {
        let text = self.manager.policy().build_at(ts);
        self.job(Op::Enable, anchor, LoadFile::Stdin(text))
    }

    /// Enabling, with the policy compiled now.
    pub fn enable(&self, anchor: Option<&str>) -> (r: Job)
        ensures
            r.op is Enable,
            r.phase is Start,
            r.persist,
            exists|ts: u64|
                r.source matches LoadFile::Stdin(t) && t@ == #[trigger] self.spec_manager().spec_rules().compiled(ts),
            anchor is None ==> r.target is None,
            anchor matches Some(a) ==> (r.target matches Some(t) && t@ == namespaced(a@)),
    {
        let ts = crate::utils::time();
        self.enable_at(anchor, ts)
    }

    /// Reloading the saved policy into `anchor` (namespaced) or the active anchor.
    pub fn load(&self, anchor: Option<&str>) -> (r: Job)
        ensures
            r.op is Load,
            r.phase is Start,
            r.persist,
            r.source matches LoadFile::Path(p) && p@ == join_path(self.spec_conf_dir(), FIREWALL_CONF_FILE_NAME@),
            r.settings_path@ == join_path(self.spec_conf_dir(), SETTINGS_CONF_FILE_NAME@),
            anchor is None ==> r.target is None,
            anchor matches Some(a) ==> (r.target matches Some(t) && t@ == namespaced(a@)),
    {
        let p = self.get_firewall_conf_path();
        self.job(Op::Load, anchor, LoadFile::Path(p))
    }

    /// Disabling.
    pub fn disable(&self) -> (r: Job)
        ensures
            r.op is Disable,
            r.phase is Start,
            r.persist,
            r.target is None,
            r.settings_path@ == join_path(self.spec_conf_dir(), SETTINGS_CONF_FILE_NAME@),
    {
        self.job(Op::Disable, None, LoadFile::Stdin(String::new()))
    }

    /// Querying the status.
    pub fn get_status(&self) -> (r: Job)
        ensures
            r.op is Status,
            r.phase is Start,
            r.persist,
            r.target is None,
            r.settings_path@ == join_path(self.spec_conf_dir(), SETTINGS_CONF_FILE_NAME@),
    {
        self.job(Op::Status, None, LoadFile::Stdin(String::new()))
    }

    /// The text to save as the settings file.
    pub fn make_settings_conf(&self) -> (r: String)
        ensures
            r@ == crate::rules::unlines(crate::manager::settings_lines(self.spec_manager().persisted())),
    {
        self.manager.settings_text()
    }

    /// Applies the text of the settings file that was read.
    pub fn load_settings_conf(&mut self, text: &str)
        ensures
            final(self).spec_manager().persisted() == crate::manager::apply_lines(
                old(self).spec_manager().persisted(),
                crate::text::lines(text@),
            ),
            final(self).spec_manager().spec_rules() == old(self).spec_manager().spec_rules(),
            final(self).spec_conf_dir() == old(self).spec_conf_dir(),
    {
        self.manager.apply_settings(text)
    }

    /// Advances `job` by the reply to its last request; see [`Manager::step`].
    pub fn step(&mut self, job: &mut Job, reply: Reply) -> (r: Step)
        ensures
            crate::manager::step_post(
                old(self).spec_manager(),
                final(self).spec_manager(),
                *old(job),
                *final(job),
                reply,
                r,
            ),
            final(self).spec_conf_dir() == old(self).spec_conf_dir(),
    {
        self.manager.step(job, reply)
    }
}

} // verus!
