//! What the tray icon shows: the configuration it reads its icons from, the
//! icons, and the count of running jobs of each synchronisation.

use vstd::prelude::*;
use crate::path::{join, spec_join};
use crate::text::str_eq;
use ini::Ini;

verus! {

/// Errors of the tray program.
#[derive(Debug, Clone)]
pub enum Error {
    Unexpected(String),
    UnableToFindHomeUser,
    ReadConfigError(String),
}

/// Message given when the configuration names no icon folder.
pub const MISSING_ICONS_PATH: &'static str = "Unable to find server icons_path config";

/// The configuration file of the `ini` crate, carried through unopened.
#[verifier::external_type_specification]
#[verifier::external_body]
pub struct ExIni(Ini);

/// What a configuration file holds: for each section (none for the general
/// section) and key, the first value of that key in the first section of
/// that name.
pub uninterp spec fn ini_values(ini: Ini) -> Map<(Option<Seq<char>>, Seq<char>), Seq<char>>;

/// Reads with `Ini::get_from` the first value of `key` in the first section
/// named `section`, if there is one.
#[verifier::external_body]
fn ini_get_from(ini: &Ini, section: &str, key: &str) -> (r: Option<String>)
    ensures
        r matches Some(v) ==> ini_values(*ini).dom().contains((Some(section@), key@)) && ini_values(
            *ini,
        )[(Some(section@), key@)] == v@,
        r is None ==> !ini_values(*ini).dom().contains((Some(section@), key@)),
{
    match ini.get_from(Some(section), key) {
        Some(value) => Some(value.to_string()),
        None => None,
    }
}

/// Configuration of the tray program.
#[derive(Debug, Clone)]
pub struct Config {
    pub icons_path: String,
}

impl Config {
    /// The configuration a configuration file gives: the `icons_path` entry
    /// of its `server` section, which must be there.
    pub fn from_ini(config_ini: Ini) -> (r: Result<Config, Error>)
        ensures
            ini_values(config_ini).dom().contains((Some("server"@), "icons_path"@)) ==> (r matches Ok(c)
                && c.icons_path@ == ini_values(config_ini)[(Some("server"@), "icons_path"@)]),
            !ini_values(config_ini).dom().contains((Some("server"@), "icons_path"@)) ==> (r matches Err(
                Error::ReadConfigError(m),
            ) && m@ == MISSING_ICONS_PATH@),
    {
        Config::from_icons_path(ini_get_from(&config_ini, "server", "icons_path"))
    }

    /// The configuration read from the `icons_path` entry of the `server`
    /// section, when there is one.
    pub fn from_icons_path(icons_path: Option<String>) -> (r: Result<Config, Error>)
        ensures
            icons_path matches Some(p) ==> (r matches Ok(c) && c.icons_path == p),
            icons_path is None ==> (r matches Err(Error::ReadConfigError(m)) && m@
                == MISSING_ICONS_PATH@),
    {
        match icons_path {
            Some(icons_path) => Ok(Config { icons_path }),
            None => Err(Error::ReadConfigError(MISSING_ICONS_PATH.to_string())),
        }
    }
}

/// The images of the tray icon: one at rest, eight for the animation.
#[derive(Debug, Clone, Copy, PartialEq, Eq, Structural)]
pub enum Icon {
    Idle,
    Working1,
    Working2,
    Working3,
    Working4,
    Working5,
    Working6,
    Working7,
    Working8,
}

/// The image file of each icon.
pub open spec fn icon_file_name(icon: Icon) -> Seq<char> {
    match icon {
        Icon::Idle => "trsync_idle.png"@,
        Icon::Working1 => "trsync_idle.png"@,
        Icon::Working2 => "trsync_working1_v2.png"@,
        Icon::Working3 => "trsync_working2_v2.png"@,
        Icon::Working4 => "trsync_working3_v2.png"@,
        Icon::Working5 => "trsync_working4_v2.png"@,
        Icon::Working6 => "trsync_working3_v2.png"@,
        Icon::Working7 => "trsync_working2_v2.png"@,
        Icon::Working8 => "trsync_working1_v2.png"@,
    }
}

impl Icon {
    /// The image file of this icon.
    pub fn file_name(&self) -> (r: &'static str)
        ensures
            r@ == icon_file_name(*self),
    {
        match self {
            Icon::Idle => "trsync_idle.png",
            Icon::Working1 => "trsync_idle.png",
            Icon::Working2 => "trsync_working1_v2.png",
            Icon::Working3 => "trsync_working2_v2.png",
            Icon::Working4 => "trsync_working3_v2.png",
            Icon::Working5 => "trsync_working4_v2.png",
            Icon::Working6 => "trsync_working3_v2.png",
            Icon::Working7 => "trsync_working2_v2.png",
            Icon::Working8 => "trsync_working1_v2.png",
        }
    }

    /// Path of the image file of this icon, in the configured icon folder.
    pub fn value(&self, config: &Config) -> (r: String)
        ensures
            r@ == spec_join(config.icons_path@, icon_file_name(*self)),
    {
        join(config.icons_path.as_str(), self.file_name())
    }
}

/// The next image of the animation while some job runs.
pub open spec fn working_successor(icon: Icon) -> Icon {
    match icon {
        Icon::Idle => Icon::Working1,
        Icon::Working1 => Icon::Working2,
        Icon::Working2 => Icon::Working3,
        Icon::Working3 => Icon::Working4,
        Icon::Working4 => Icon::Working5,
        Icon::Working5 => Icon::Working6,
        Icon::Working6 => Icon::Working7,
        Icon::Working7 => Icon::Working8,
        Icon::Working8 => Icon::Working1,
    }
}

/// `n` steps of the animation from `icon`.
pub open spec fn animated(icon: Icon, n: nat) -> Icon
    decreases n,
{
    if n == 0 {
        icon
    } else {
        animated(working_successor(icon), (n - 1) as nat)
    }
}

impl Icon {
    /// The image shown after this one: the next image of the animation while
    /// some job runs, the image at rest otherwise.
    pub fn next(&self, working: bool) -> (r: Icon)
        ensures
            working ==> r == working_successor(*self),
            !working ==> r == Icon::Idle,
    {
        if !working {
            return Icon::Idle;
        }
        match self {
            Icon::Idle => Icon::Working1,
            Icon::Working1 => Icon::Working2,
            Icon::Working2 => Icon::Working3,
            Icon::Working3 => Icon::Working4,
            Icon::Working4 => Icon::Working5,
            Icon::Working5 => Icon::Working6,
            Icon::Working6 => Icon::Working7,
            Icon::Working7 => Icon::Working8,
            Icon::Working8 => Icon::Working1,
        }
    }
}

/// While jobs run, the animation comes back to the same image every eight
/// steps, and never shows the image at rest.
pub proof fn law_animation_cycles(icon: Icon)
    requires
        icon != Icon::Idle,
    ensures
        animated(icon, 8) == icon,
        forall|n: nat| #[trigger] animated(icon, n) != Icon::Idle,
{
    reveal_with_fuel(animated, 9);
    assert forall|n: nat| #[trigger] animated(icon, n) != Icon::Idle by {
        lemma_animation_never_rests(icon, n);
    }
}

proof fn lemma_animation_never_rests(icon: Icon, n: nat)
    requires
        icon != Icon::Idle,
    ensures
        animated(icon, n) != Icon::Idle,
    decreases n,
{
    if n > 0 {
        lemma_animation_never_rests(working_successor(icon), (n - 1) as nat);
    }
}

/// Whether any synchronisation is running a job.
#[derive(Debug, Clone, Copy, PartialEq, Eq, Structural)]
pub enum Activity {
    Idle,
    Working,
}

/// What identifies the jobs of one synchronisation.
#[derive(Debug, Clone)]
pub struct JobIdentifier {
    pub instance_name: String,
    pub workspace_id: i32,
    pub workspace_name: String,
}

/// A job identifier as plain values.
pub type JobKey = (Seq<char>, i32, Seq<char>);

impl JobIdentifier {
    /// Identifier of the jobs of space `workspace_id` of an instance.
    pub fn new(instance_name: String, workspace_id: i32, workspace_name: String) -> (r: JobIdentifier)
        ensures
            r.instance_name == instance_name,
            r.workspace_id == workspace_id,
            r.workspace_name == workspace_name,
    {
        JobIdentifier { instance_name, workspace_id, workspace_name }
    }

    /// This identifier as plain values.
    pub open spec fn key(&self) -> JobKey {
        (self.instance_name@, self.workspace_id, self.workspace_name@)
    }

    /// Whether both identify the same jobs.
    pub fn same(&self, other: &JobIdentifier) -> (r: bool)
        ensures
            r == (self.key() == other.key()),
    {
        self.workspace_id == other.workspace_id && str_eq(
            self.instance_name.as_str(),
            other.instance_name.as_str(),
        ) && str_eq(self.workspace_name.as_str(), other.workspace_name.as_str())
    }
}

/// The start or the end of a job of a synchronisation.
#[derive(Debug, Clone)]
pub enum Job {
    Begin(JobIdentifier),
    End(JobIdentifier),
}

/// Each key occurs at most once in `s`.
pub open spec fn distinct_keys(s: Seq<(JobKey, i32)>) -> bool {
    forall|i: int, j: int| 0 <= i < j < s.len() ==> #[trigger] s[i].0 != #[trigger] s[j].0
}

/// The count recorded for each key of `s`.
pub open spec fn counts_of(s: Seq<(JobKey, i32)>) -> Map<JobKey, int> {
    Map::new(
        |k: JobKey| exists|i: int| 0 <= i < s.len() && s[i].0 == k,
        |k: JobKey|
            {
                let i = choose|i: int| 0 <= i < s.len() && s[i].0 == k;
                s[i].1 as int
            },
    )
}

/// The count recorded at a position is the count of its key.
proof fn lemma_count_at(s: Seq<(JobKey, i32)>, i: int)
    requires
        distinct_keys(s),
        0 <= i < s.len(),
    ensures
        counts_of(s).dom().contains(s[i].0),
        counts_of(s)[s[i].0] == s[i].1,
{
    let k = s[i].0;
    assert(counts_of(s).dom().contains(k));
    let j = choose|j: int| 0 <= j < s.len() && s[j].0 == k;
    assert(j == i);
}

/// Two sequences that agree everywhere but on the count of one key have the
/// same counts but for that key.
proof fn lemma_counts_update(s: Seq<(JobKey, i32)>, i: int, c: i32)
    requires
        distinct_keys(s),
        0 <= i < s.len(),
    ensures
        distinct_keys(s.update(i, (s[i].0, c))),
        counts_of(s.update(i, (s[i].0, c))) =~= counts_of(s).insert(s[i].0, c as int),
{
    let t = s.update(i, (s[i].0, c));
    assert forall|a: int, b: int| 0 <= a < b < t.len() implies #[trigger] t[a].0 != #[trigger] t[b].0 by {
        assert(t[a].0 == s[a].0 && t[b].0 == s[b].0);
    }
    assert forall|k: JobKey| counts_of(t).dom().contains(k) <==> counts_of(s).insert(s[i].0, c as int).dom().contains(k) by {
        if counts_of(s).dom().contains(k) {
            let j = choose|j: int| 0 <= j < s.len() && s[j].0 == k;
            assert(t[j].0 == k);
        }
        if counts_of(t).dom().contains(k) {
            let j = choose|j: int| 0 <= j < t.len() && t[j].0 == k;
            assert(s[j].0 == k);
        }
    }
    assert forall|k: JobKey| #[trigger] counts_of(t).dom().contains(k) implies counts_of(t)[k]
        == counts_of(s).insert(s[i].0, c as int)[k] by {
        let j = choose|j: int| 0 <= j < t.len() && t[j].0 == k;
        lemma_count_at(t, j);
        if j != i {
            lemma_count_at(s, j);
        } else {
            lemma_count_at(t, i);
        }
    }
}

/// Appending a new key adds its count.
proof fn lemma_counts_push(s: Seq<(JobKey, i32)>, k: JobKey, c: i32)
    requires
        distinct_keys(s),
        !counts_of(s).dom().contains(k),
    ensures
        distinct_keys(s.push((k, c))),
        counts_of(s.push((k, c))) =~= counts_of(s).insert(k, c as int),
{
    let t = s.push((k, c));
    assert forall|a: int, b: int| 0 <= a < b < t.len() implies #[trigger] t[a].0 != #[trigger] t[b].0 by {
        if b == s.len() {
            assert(s[a].0 == t[a].0);
            if s[a].0 == k {
                assert(counts_of(s).dom().contains(k));
            }
        } else {
            assert(t[a].0 == s[a].0 && t[b].0 == s[b].0);
        }
    }
    assert forall|k2: JobKey| counts_of(t).dom().contains(k2) <==> counts_of(s).insert(k, c as int).dom().contains(k2) by {
        if counts_of(s).dom().contains(k2) {
            let j = choose|j: int| 0 <= j < s.len() && s[j].0 == k2;
            assert(t[j].0 == k2);
        }
        if k2 == k {
            assert(t[s.len() as int].0 == k2);
        }
        if counts_of(t).dom().contains(k2) && k2 != k {
            let j = choose|j: int| 0 <= j < t.len() && t[j].0 == k2;
            assert(s[j].0 == k2);
        }
    }
    assert forall|k2: JobKey| #[trigger] counts_of(t).dom().contains(k2) implies counts_of(t)[k2]
        == counts_of(s).insert(k, c as int)[k2] by {
        let j = choose|j: int| 0 <= j < t.len() && t[j].0 == k2;
        lemma_count_at(t, j);
        if j < s.len() {
            lemma_count_at(s, j);
        }
    }
}

/// Number of running jobs of each synchronisation.
pub struct ActivityState {
    counter: Vec<(JobIdentifier, i32)>,
}

impl ActivityState {
    /// The identifiers and counts, in order.
    pub closed spec fn entries(&self) -> Seq<(JobKey, i32)> {
        self.counter@.map_values(|e: (JobIdentifier, i32)| (e.0.key(), e.1))
    }

    /// Each synchronisation is counted once.
    pub open spec fn wf(&self) -> bool {
        distinct_keys(self.entries())
    }

    /// The count of each synchronisation seen so far.
    pub open spec fn counts(&self) -> Map<JobKey, int> {
        counts_of(self.entries())
    }

    /// The running count of a synchronisation (0 for one never seen).
    pub open spec fn count(&self, k: JobKey) -> int {
        count_in(self.counts(), k)
    }

    /// Nothing counted yet.
    pub fn new() -> (r: ActivityState)
        ensures
            r.wf(),
            r.counts() == Map::<JobKey, int>::empty(),
    {
        let r = ActivityState { counter: Vec::new() };
        assert(r.entries() =~= Seq::empty());
        assert(r.counts() =~= Map::<JobKey, int>::empty());
        r
    }

    /// Working when some synchronisation has a running job.
    pub fn activity(&self) -> (r: Activity)
        requires
            self.wf(),
        ensures
            r == Activity::Working <==> exists|k: JobKey| #[trigger] self.count(k) > 0,
    {
        let mut i: usize = 0;
        while i < self.counter.len()
            invariant
                self.wf(),
                i <= self.counter@.len(),
                self.entries().len() == self.counter@.len(),
                forall|j: int| 0 <= j < i ==> #[trigger] self.entries()[j].1 <= 0,
            decreases self.counter@.len() - i,
        {
            if self.counter[i].1 > 0 {
                proof {
                    lemma_count_at(self.entries(), i as int);
                    assert(self.count(self.entries()[i as int].0) > 0);
                }
                return Activity::Working;
            }
            i = i + 1;
        }
        assert forall|k: JobKey| !(#[trigger] self.count(k) > 0) by {
            if self.counts().dom().contains(k) {
                let j = choose|j: int| 0 <= j < self.entries().len() && self.entries()[j].0 == k;
                lemma_count_at(self.entries(), j);
            }
        }
        Activity::Idle
    }

    /// Position of the count of a synchronisation, if it has one.
    fn position(&self, job_identifier: &JobIdentifier) -> (r: Option<usize>)
        ensures
            self.entries().len() == self.counter@.len(),
            r matches Some(i) ==> i < self.counter@.len() && self.entries()[i as int].0
                == job_identifier.key(),
            r is None ==> !self.counts().dom().contains(job_identifier.key()),
    {
        let mut i: usize = 0;
        while i < self.counter.len()
            invariant
                i <= self.counter@.len(),
                self.entries().len() == self.counter@.len(),
                forall|j: int| 0 <= j < i ==> #[trigger] self.entries()[j].0 != job_identifier.key(),
            decreases self.counter@.len() - i,
        {
            if self.counter[i].0.same(job_identifier) {
                return Some(i);
            }
            i = i + 1;
        }
        None
    }

    /// One more running job of a synchronisation.
    pub fn new_job(&mut self, job_identifier: JobIdentifier)
        requires
            old(self).wf(),
            old(self).count(job_identifier.key()) < i32::MAX,
        ensures
            final(self).wf(),
            final(self).counts() == old(self).counts().insert(
                job_identifier.key(),
                old(self).count(job_identifier.key()) + 1,
            ),
    {
        let ghost before = self.entries();
        let ghost k = job_identifier.key();
        match self.position(&job_identifier) {
            Some(i) => {
                proof {
                    lemma_count_at(before, i as int);
                    lemma_counts_update(before, i as int, (before[i as int].1 + 1) as i32);
                }
                let count = self.counter[i].1;
                self.counter.set(i, (job_identifier, count + 1));
                assert(self.entries() =~= before.update(i as int, (k, (count + 1) as i32)));
            },
            None => {
                proof {
                    lemma_counts_push(before, k, 1);
                }
                self.counter.push((job_identifier, 1));
                assert(self.entries() =~= before.push((k, 1i32)));
            },
        }
    }

    /// One running job of a synchronisation less.
    pub fn finished_job(&mut self, job_identifier: JobIdentifier)
        requires
            old(self).wf(),
            old(self).counts().dom().contains(job_identifier.key()),
            old(self).count(job_identifier.key()) > i32::MIN,
        ensures
            final(self).wf(),
            final(self).counts() == old(self).counts().insert(
                job_identifier.key(),
                old(self).count(job_identifier.key()) - 1,
            ),
    {
        let ghost before = self.entries();
        let ghost k = job_identifier.key();
        match self.position(&job_identifier) {
            Some(i) => {
                proof {
                    lemma_count_at(before, i as int);
                    lemma_counts_update(before, i as int, (before[i as int].1 - 1) as i32);
                }
                let count = self.counter[i].1;
                self.counter.set(i, (job_identifier, count - 1));
                assert(self.entries() =~= before.update(i as int, (k, (count - 1) as i32)));
            },
            None => {},
        }
    }
}

impl ActivityState {
    /// Counts a job that starts or ends.
    pub fn on_job(&mut self, job: Job)
        requires
            old(self).wf(),
            job matches Job::Begin(k) ==> old(self).count(k.key()) < i32::MAX,
            job matches Job::End(k) ==> old(self).counts().dom().contains(k.key()) && old(self).count(
                k.key(),
            ) > i32::MIN,
        ensures
            final(self).wf(),
            job matches Job::Begin(k) ==> final(self).counts() == old(self).counts().insert(
                k.key(),
                old(self).count(k.key()) + 1,
            ),
            job matches Job::End(k) ==> final(self).counts() == old(self).counts().insert(
                k.key(),
                old(self).count(k.key()) - 1,
            ),
    {
        match job {
            Job::Begin(job_identifier) => self.new_job(job_identifier),
            Job::End(job_identifier) => self.finished_job(job_identifier),
        }
    }
}

/// The running count of `k` in `counts` (0 for one never seen).
pub open spec fn count_in(counts: Map<JobKey, int>, k: JobKey) -> int {
    if counts.dom().contains(k) {
        counts[k]
    } else {
        0
    }
}

/// A job that ends undoes the job that began: every count is back to what
/// it was.
pub proof fn law_finished_job_undoes_new_job(before: Map<JobKey, int>, k: JobKey)
    ensures
        ({
            let begun = before.insert(k, count_in(before, k) + 1);
            let ended = begun.insert(k, count_in(begun, k) - 1);
            forall|other: JobKey| #[trigger] count_in(ended, other) == count_in(before, other)
        }),
{
}

} // verus!
