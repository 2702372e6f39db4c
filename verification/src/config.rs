//! The project configuration (`frost.toml`): projects, their apps, and the
//! named sub-commands each app can run.
//!
//! Maps of the file are held as lists of `(name, value)` entries in their
//! iteration order (see [`crate::keyed`]).
use vstd::prelude::*;
use crate::keyed::{distinct_keys, entry_keys, keys_distinct, keys_of};
use crate::paths::{join_path, parent_path, path_join, path_parent};
use crate::text::{views, contains_text_in, is_blank, trims_to_empty};

verus! {

/// One runnable command of an app.
#[derive(Debug)]
pub struct SubCommand {
    pub command: String,
    pub workdir: Option<String>,
    pub env: Option<Vec<(String, String)>>,
}

/// An app of a project: a single `command`, or named `commands`.
#[derive(Debug)]
pub struct AppConfig {
    pub workdir: Option<String>,
    pub default: Option<String>,
    pub command: Option<String>,
    pub commands: Option<Vec<(String, SubCommand)>>,
    pub icon: Option<String>,
}

/// A project: a working directory and its apps.
#[derive(Debug)]
pub struct ProjectConfig {
    pub workdir: Option<String>,
    pub icon: Option<String>,
    pub apps: Vec<(String, AppConfig)>,
}

/// The whole configuration: the projects by name.
#[derive(Debug)]
pub struct FrostConfig {
    pub projects: Vec<(String, ProjectConfig)>,
}

/// A sub-command's environment names each variable once.
pub open spec fn sub_wf(s: SubCommand) -> bool {
    match s.env {
        Some(e) => distinct_keys(e@),
        None => true,
    }
}

/// An app names each sub-command once, and each environment is well formed.
pub open spec fn app_wf(a: AppConfig) -> bool {
    match a.commands {
        Some(c) => distinct_keys(c@) && forall|i: int| 0 <= i < c@.len() ==> #[trigger] sub_wf(c@[i].1),
        None => true,
    }
}

/// A project names each app once, and each app is well formed.
pub open spec fn project_wf(p: ProjectConfig) -> bool {
    distinct_keys(p.apps@) && forall|i: int| 0 <= i < p.apps@.len() ==> #[trigger] app_wf(p.apps@[i].1)
}

impl FrostConfig {
    /// The configuration's maps are maps: no project, app, sub-command or
    /// environment variable is named twice in its map.
    pub open spec fn wf(&self) -> bool {
        distinct_keys(self.projects@) && forall|i: int| 0 <= i < self.projects@.len() ==> #[trigger] project_wf(
            self.projects@[i].1,
        )
    }

    /// Whether the configuration's maps name each key once.
    pub fn keys_are_distinct(&self) -> (r: bool)
        ensures
            r == self.wf(),
    {
        if !keys_distinct(&self.projects) {
            return false;
        }
        let mut i: usize = 0;
        while i < self.projects.len()
            invariant
                i <= self.projects@.len(),
                forall|k: int| 0 <= k < i ==> #[trigger] project_wf(self.projects@[k].1),
            decreases self.projects@.len() - i,
        {
            if !project_ok(&self.projects[i].1) {
                assert(!project_wf(self.projects@[i as int].1));
                return false;
            }
            i = i + 1;
        }
        true
    }
}

fn sub_ok(s: &SubCommand) -> (r: bool)
    ensures
        r == sub_wf(*s),
{
    match &s.env {
        Some(e) => keys_distinct(e),
        None => true,
    }
}

fn app_ok(a: &AppConfig) -> (r: bool)
    ensures
        r == app_wf(*a),
{
    match &a.commands {
        Some(c) => {
            if !keys_distinct(c) {
                return false;
            }
            let mut k: usize = 0;
            while k < c.len()
                invariant
                    k <= c@.len(),
                    a.commands == Some(*c),
                    distinct_keys(c@),
                    forall|x: int| 0 <= x < k ==> #[trigger] sub_wf(c@[x].1),
                decreases c@.len() - k,
            {
                if !sub_ok(&c[k].1) {
                    assert(!sub_wf(c@[k as int].1));
                    assert(!app_wf(*a)) by {
                        assert(a.commands->0@[k as int] == c@[k as int]);
                    }
                    return false;
                }
                k = k + 1;
            }
            assert(forall|x: int| 0 <= x < c@.len() ==> #[trigger] sub_wf(c@[x].1));
            true
        },
        None => true,
    }
}

fn project_ok(p: &ProjectConfig) -> (r: bool)
    ensures
        r == project_wf(*p),
{
    if !keys_distinct(&p.apps) {
        return false;
    }
    let mut j: usize = 0;
    while j < p.apps.len()
        invariant
            j <= p.apps@.len(),
            forall|k: int| 0 <= k < j ==> #[trigger] app_wf(p.apps@[k].1),
        decreases p.apps@.len() - j,
    {
        if !app_ok(&p.apps[j].1) {
            assert(!app_wf(p.apps@[j as int].1));
            return false;
        }
        j = j + 1;
    }
    true
}

/// The sub-command names of an app: its `commands`, else `default` when it
/// has a single `command`, else none.
pub open spec fn sub_names(a: AppConfig) -> Seq<Seq<char>> {
    match a.commands {
        Some(c) => keys_of(c@),
        None => if a.command is Some { seq!["default"@] } else { seq![] },
    }
}

/// The sub-command names of an app, as strings.
pub fn app_sub_names(a: &AppConfig) -> (r: Vec<String>)
    ensures
        views(r@) == sub_names(*a),
{
    match &a.commands {
        Some(cmds) => entry_keys(cmds),
        None => {
            let mut v: Vec<String> = Vec::new();
            if a.command.is_some() {
                v.push(String::from_str("default"));
            }
            assert(views(v@) =~= sub_names(*a));
            v
        },
    }
}

/// Why loading a configuration failed.
#[derive(Debug)]
pub enum ConfigError {
    /// The file could not be read; the I/O error's message.
    Io(String),
    /// The file is not valid TOML for the schema; the parser's message.
    Toml(String),
    /// The configuration breaks a rule; which one.
    Validation(String),
    /// No configuration file was found.
    NotFound,
}

/// The first `Some` of a list of optional errors.
pub open spec fn first_error(s: Seq<Option<Seq<char>>>) -> Option<Seq<char>>
    decreases s.len(),
{
    if s.len() == 0 {
        None
    } else if s[0] is Some {
        s[0]
    } else {
        first_error(s.drop_first())
    }
}

pub proof fn lemma_first_error_skip(s: Seq<Option<Seq<char>>>, i: int)
    requires
        0 <= i <= s.len(),
        forall|k: int| 0 <= k < i ==> s[k] is None,
    ensures
        first_error(s) == first_error(s.skip(i)),
    decreases i,
{
    if i > 0 {
        assert(s.skip(1) =~= s.drop_first());
        lemma_first_error_skip(s.drop_first(), i - 1);
        assert(s.drop_first().skip(i - 1) =~= s.skip(i));
    } else {
        assert(s.skip(0) =~= s);
    }
}

pub open spec fn msg_no_projects() -> Seq<char> {
    "Config must have at least one project"@
}

pub open spec fn msg_no_apps(p: Seq<char>) -> Seq<char> {
    "Project '"@ + p + "' must have at least one app"@
}

pub open spec fn msg_no_command(a: Seq<char>, p: Seq<char>) -> Seq<char> {
    "App '"@ + a + "' in project '"@ + p + "' must have either 'command' or 'commands'"@
}

pub open spec fn msg_blank_sub(s: Seq<char>, a: Seq<char>, p: Seq<char>) -> Seq<char> {
    "Sub-command '"@ + s + "' in app '"@ + a + "' project '"@ + p + "' must have a non-empty command"@
}

pub open spec fn msg_blank_command(a: Seq<char>, p: Seq<char>) -> Seq<char> {
    "App '"@ + a + "' in project '"@ + p + "' must have a non-empty command"@
}

/// The error, if any, of each sub-command of an app.
pub open spec fn sub_errors(cmds: Seq<(String, SubCommand)>, a: Seq<char>, p: Seq<char>) -> Seq<Option<Seq<char>>> {
    cmds.map_values(|e: (String, SubCommand)| if is_blank(e.1.command@) { Some(msg_blank_sub(e.0@, a, p)) } else { None })
}

/// The first rule an app breaks, checked in order: it needs `command` or a
/// non-empty `commands`; every sub-command needs a non-blank command; a
/// `command` must not be blank.
pub open spec fn app_error(a: Seq<char>, p: Seq<char>, app: AppConfig) -> Option<Seq<char>> {
    let has_command = app.command is Some;
    let has_commands = app.commands matches Some(c) && c@.len() > 0;
    if !has_command && !has_commands {
        Some(msg_no_command(a, p))
    } else if app.commands is Some && first_error(sub_errors(app.commands->0@, a, p)) is Some {
        first_error(sub_errors(app.commands->0@, a, p))
    } else if app.command matches Some(c) && is_blank(c@) {
        Some(msg_blank_command(a, p))
    } else {
        None
    }
}

/// The first rule a project breaks: it needs an app, then each app's rules
/// in order.
pub open spec fn project_error(p: Seq<char>, proj: ProjectConfig) -> Option<Seq<char>> {
    if proj.apps@.len() == 0 {
        Some(msg_no_apps(p))
    } else {
        first_error(proj.apps@.map_values(|e: (String, AppConfig)| app_error(e.0@, p, e.1)))
    }
}

/// The first rule a configuration breaks: it needs a project, then each
/// project's rules in order; `None` when it is valid.
pub open spec fn config_error(c: FrostConfig) -> Option<Seq<char>> {
    if c.projects@.len() == 0 {
        Some(msg_no_projects())
    } else {
        first_error(c.projects@.map_values(|e: (String, ProjectConfig)| project_error(e.0@, e.1)))
    }
}

fn cat(a: String, b: &str) -> (r: String)
    ensures
        r@ == a@ + b@,
{
    a.concat(b)
}

fn sub_command_error(cmds: &Vec<(String, SubCommand)>, a: &str, p: &str) -> (r: Option<String>)
    ensures
        match first_error(sub_errors(cmds@, a@, p@)) {
            Some(m) => r matches Some(s) && s@ == m,
            None => r is None,
        },
{
    let ghost errs = sub_errors(cmds@, a@, p@);
    let mut i: usize = 0;
    while i < cmds.len()
        invariant
            i <= cmds@.len(),
            errs == sub_errors(cmds@, a@, p@),
            forall|k: int| 0 <= k < i ==> errs[k] is None,
        decreases cmds@.len() - i,
    {
        if trims_to_empty(cmds[i].1.command.as_str()) {
            let m = cat(cat(cat(cat(cat(cat(String::from_str("Sub-command '"), cmds[i].0.as_str()),
                "' in app '"), a), "' project '"), p), "' must have a non-empty command");
            proof {
                lemma_first_error_skip(errs, i as int);
                assert(errs.skip(i as int)[0] == errs[i as int]);
            }
            assert(m@ =~= msg_blank_sub(cmds@[i as int].0@, a@, p@));
            return Some(m);
        }
        i = i + 1;
    }
    proof {
        lemma_first_error_skip(errs, i as int);
    }
    None
}

fn check_app(a: &str, p: &str, app: &AppConfig) -> (r: Option<String>)
    ensures
        match app_error(a@, p@, *app) {
            Some(m) => r matches Some(s) && s@ == m,
            None => r is None,
        },
{
    let has_command = app.command.is_some();
    let has_commands = match &app.commands {
        Some(c) => c.len() > 0,
        None => false,
    };
    if !has_command && !has_commands {
        let m = cat(cat(cat(cat(String::from_str("App '"), a), "' in project '"), p),
            "' must have either 'command' or 'commands'");
        assert(m@ =~= msg_no_command(a@, p@));
        return Some(m);
    }
    if let Some(cmds) = &app.commands {
        let e = sub_command_error(cmds, a, p);
        if e.is_some() {
            return e;
        }
    }
    if let Some(cmd) = &app.command {
        if trims_to_empty(cmd.as_str()) {
            let m = cat(cat(cat(cat(String::from_str("App '"), a), "' in project '"), p),
                "' must have a non-empty command");
            assert(m@ =~= msg_blank_command(a@, p@));
            return Some(m);
        }
    }
    None
}

fn check_project(p: &str, proj: &ProjectConfig) -> (r: Option<String>)
    ensures
        match project_error(p@, *proj) {
            Some(m) => r matches Some(s) && s@ == m,
            None => r is None,
        },
{
    if proj.apps.len() == 0 {
        let m = cat(cat(String::from_str("Project '"), p), "' must have at least one app");
        assert(m@ =~= msg_no_apps(p@));
        return Some(m);
    }
    let ghost errs = proj.apps@.map_values(|e: (String, AppConfig)| app_error(e.0@, p@, e.1));
    let mut i: usize = 0;
    while i < proj.apps.len()
        invariant
            i <= proj.apps@.len(),
            errs == proj.apps@.map_values(|e: (String, AppConfig)| app_error(e.0@, p@, e.1)),
            forall|k: int| 0 <= k < i ==> errs[k] is None,
        decreases proj.apps@.len() - i,
    {
        let e = check_app(proj.apps[i].0.as_str(), p, &proj.apps[i].1);
        if e.is_some() {
            proof {
                lemma_first_error_skip(errs, i as int);
                assert(errs.skip(i as int)[0] == errs[i as int]);
            }
            return e;
        }
        i = i + 1;
    }
    proof {
        lemma_first_error_skip(errs, i as int);
    }
    None
}

/// No entry of the list is an error exactly when there is no first error.
pub proof fn lemma_first_error_none(s: Seq<Option<Seq<char>>>)
    ensures
        first_error(s) is None <==> forall|k: int| 0 <= k < s.len() ==> #[trigger] s[k] is None,
    decreases s.len(),
{
    if s.len() > 0 {
        lemma_first_error_none(s.drop_first());
        if first_error(s) is None {
            assert forall|k: int| 0 <= k < s.len() implies #[trigger] s[k] is None by {
                if k > 0 {
                    assert(s.drop_first()[k - 1] == s[k]);
                }
            }
        }
        if forall|k: int| 0 <= k < s.len() ==> #[trigger] s[k] is None {
            assert forall|k: int| 0 <= k < s.drop_first().len() implies #[trigger] s.drop_first()[k] is None by {
                assert(s[k + 1] is None);
            }
        }
    }
}

/// An app keeps the rules of the file format: it has a `command` or a
/// non-empty `commands`, no sub-command has a blank command, and its
/// `command`, if any, is not blank.
pub open spec fn app_valid(app: AppConfig) -> bool {
    &&& (app.command is Some || (app.commands matches Some(c) && c@.len() > 0))
    &&& (app.commands matches Some(c) ==> forall|k: int| 0 <= k < c@.len() ==> !is_blank(#[trigger] c@[k].1.command@))
    &&& (app.command matches Some(c) ==> !is_blank(c@))
}

proof fn lemma_app_error_none(a: Seq<char>, p: Seq<char>, app: AppConfig)
    ensures
        app_error(a, p, app) is None <==> app_valid(app),
{
    if let Some(c) = app.commands {
        let errs = sub_errors(c@, a, p);
        lemma_first_error_none(errs);
        assert((forall|k: int| 0 <= k < errs.len() ==> #[trigger] errs[k] is None) <==> (forall|k: int|
            0 <= k < c@.len() ==> !is_blank(#[trigger] c@[k].1.command@))) by {
            if forall|k: int| 0 <= k < errs.len() ==> #[trigger] errs[k] is None {
                assert forall|k: int| 0 <= k < c@.len() implies !is_blank(#[trigger] c@[k].1.command@) by {
                    assert(errs[k] is None);
                }
            }
        }
    }
}

proof fn lemma_project_error_none(p: Seq<char>, proj: ProjectConfig)
    ensures
        project_error(p, proj) is None <==> (proj.apps@.len() > 0 && forall|j: int|
            0 <= j < proj.apps@.len() ==> app_valid(#[trigger] proj.apps@[j].1)),
{
    let errs = proj.apps@.map_values(|e: (String, AppConfig)| app_error(e.0@, p, e.1));
    lemma_first_error_none(errs);
    assert forall|j: int| 0 <= j < proj.apps@.len() implies (#[trigger] errs[j] is None <==> app_valid(
        proj.apps@[j].1,
    )) by {
        lemma_app_error_none(proj.apps@[j].0@, p, proj.apps@[j].1);
    }
    if proj.apps@.len() > 0 && forall|j: int| 0 <= j < proj.apps@.len() ==> app_valid(#[trigger] proj.apps@[j].1) {
        assert forall|j: int| 0 <= j < errs.len() implies #[trigger] errs[j] is None by {
            assert(app_valid(proj.apps@[j].1));
        }
    }
    if project_error(p, proj) is None {
        assert forall|j: int| 0 <= j < proj.apps@.len() implies app_valid(#[trigger] proj.apps@[j].1) by {
            assert(errs[j] is None);
        }
    }
}

/// A configuration passes validation exactly when it has a project, every
/// project has an app, and every app of every project keeps the rules
/// ([`app_valid`]); one app anywhere that breaks a rule makes it an error.
pub proof fn law_valid_iff_every_app_valid(c: FrostConfig)
    ensures
        config_error(c) is None <==> (c.projects@.len() > 0 && forall|i: int|
            0 <= i < c.projects@.len() ==> (#[trigger] c.projects@[i]).1.apps@.len() > 0 && forall|j: int|
                0 <= j < c.projects@[i].1.apps@.len() ==> app_valid(#[trigger] c.projects@[i].1.apps@[j].1)),
{
    let errs = c.projects@.map_values(|e: (String, ProjectConfig)| project_error(e.0@, e.1));
    lemma_first_error_none(errs);
    assert forall|i: int| 0 <= i < c.projects@.len() implies (#[trigger] errs[i] is None <==> (
    c.projects@[i].1.apps@.len() > 0 && forall|j: int|
        0 <= j < c.projects@[i].1.apps@.len() ==> app_valid(#[trigger] c.projects@[i].1.apps@[j].1))) by {
        lemma_project_error_none(c.projects@[i].0@, c.projects@[i].1);
    }
    if config_error(c) is None && c.projects@.len() > 0 {
        assert forall|i: int| 0 <= i < c.projects@.len() implies (#[trigger] c.projects@[i]).1.apps@.len() > 0
            && forall|j: int| 0 <= j < c.projects@[i].1.apps@.len() ==> app_valid(
            #[trigger] c.projects@[i].1.apps@[j].1,
        ) by {
            assert(errs[i] is None);
        }
    }
    if c.projects@.len() > 0 && forall|i: int|
        0 <= i < c.projects@.len() ==> (#[trigger] c.projects@[i]).1.apps@.len() > 0 && forall|j: int|
            0 <= j < c.projects@[i].1.apps@.len() ==> app_valid(#[trigger] c.projects@[i].1.apps@[j].1) {
        assert forall|i: int| 0 <= i < errs.len() implies #[trigger] errs[i] is None by {
            assert(c.projects@[i].1.apps@.len() > 0);
        }
    }
}

/// Check a configuration against the rules of the file format: at least one
/// project, each with at least one app, each app with a `command` or a
/// non-empty `commands`, and no blank command anywhere.  The error names
/// the first offending entry in iteration order.
pub fn validate_config(config: &FrostConfig) -> (r: Result<(), ConfigError>)
    ensures
        match config_error(*config) {
            None => r is Ok,
            Some(m) => r matches Err(ConfigError::Validation(s)) && s@ == m,
        },
{
    if config.projects.len() == 0 {
        let m = String::from_str("Config must have at least one project");
        return Err(ConfigError::Validation(m));
    }
    let ghost errs = config.projects@.map_values(|e: (String, ProjectConfig)| project_error(e.0@, e.1));
    let mut i: usize = 0;
    while i < config.projects.len()
        invariant
            i <= config.projects@.len(),
            errs == config.projects@.map_values(|e: (String, ProjectConfig)| project_error(e.0@, e.1)),
            forall|k: int| 0 <= k < i ==> errs[k] is None,
        decreases config.projects@.len() - i,
    {
        match check_project(config.projects[i].0.as_str(), &config.projects[i].1) {
            Some(m) => {
                proof {
                    lemma_first_error_skip(errs, i as int);
                    assert(errs.skip(i as int)[0] == errs[i as int]);
                }
                return Err(ConfigError::Validation(m));
            },
            None => {},
        }
        i = i + 1;
    }
    proof {
        lemma_first_error_skip(errs, i as int);
    }
    Ok(())
}

/// The files looked for in each directory, in order of preference.
pub open spec fn config_file_names() -> Seq<Seq<char>> {
    seq!["frost.toml"@, "frost.json"@]
}

/// The paths probed for a configuration starting from `dir`: `frost.toml`
/// then `frost.json` in `dir`, then the same in each parent up to the root.
pub open spec fn config_candidates_from(dir: Seq<char>) -> Seq<Seq<char>>
    decreases dir.len(),
{
    let here = seq![path_join(dir, "frost.toml"@), path_join(dir, "frost.json"@)];
    match path_parent(dir) {
        Some(p) => if p.len() < dir.len() && p != dir {
            here + config_candidates_from(p)
        } else {
            here
        },
        None => here,
    }
}

/// The first of `cands` that is one of `present`.
pub open spec fn first_present(cands: Seq<Seq<char>>, present: Seq<Seq<char>>) -> Option<Seq<char>>
    decreases cands.len(),
{
    if cands.len() == 0 {
        None
    } else if present.contains(cands[0]) {
        Some(cands[0])
    } else {
        first_present(cands.drop_first(), present)
    }
}

/// The paths at which a configuration is looked for, walking up from `cwd`,
/// in the order they are tried.
pub fn config_candidates(cwd: &str) -> (r: Vec<String>)
    ensures
        views(r@) == config_candidates_from(cwd@),
{
    let mut out: Vec<String> = Vec::new();
    let mut dir = String::from_str(cwd);
    loop
        invariant
            views(out@) + config_candidates_from(dir@) == config_candidates_from(cwd@),
        decreases dir@.len(),
    {
        let ghost d = dir@;
        let ghost before = views(out@);
        out.push(join_path(dir.as_str(), "frost.toml"));
        out.push(join_path(dir.as_str(), "frost.json"));
        let ghost here = seq![path_join(d, "frost.toml"@), path_join(d, "frost.json"@)];
        assert(views(out@) =~= before + here);
        match parent_path(dir.as_str()) {
            None => {
                assert(config_candidates_from(d) == here);
                assert(views(out@) + seq![] =~= views(out@));
                assert(before + here =~= config_candidates_from(cwd@));
                return out;
            },
            Some(parent) => {
                if crate::text::text_eq(parent.as_str(), dir.as_str()) {
                    assert(before + here =~= config_candidates_from(cwd@));
                    return out;
                }
                assert(config_candidates_from(d) == here + config_candidates_from(parent@));
                assert(before + (here + config_candidates_from(parent@)) =~= (before + here) + config_candidates_from(parent@));
                dir = parent;
            },
        }
    }
}

/// Find the configuration file for a working directory: walking up from
/// `cwd`, the first `frost.toml` or `frost.json` path that is among the
/// paths known to exist (`present`).
pub fn find_config(cwd: &str, present: &Vec<String>) -> (r: Option<String>)
    ensures
        match first_present(config_candidates_from(cwd@), views(present@)) {
            Some(p) => r matches Some(s) && s@ == p,
            None => r is None,
        },
{
    let cands = config_candidates(cwd);
    let ghost cs = views(cands@);
    let ghost pv = views(present@);
    let mut i: usize = 0;
    assert(cs.skip(0) =~= cs);
    while i < cands.len()
        invariant
            i <= cands@.len(),
            cs == views(cands@),
            cs == config_candidates_from(cwd@),
            pv == views(present@),
            first_present(cs, pv) == first_present(cs.skip(i as int), pv),
        decreases cands@.len() - i,
    {
        if contains_text_in(present, cands[i].as_str()) {
            assert(cs.skip(i as int)[0] == cands@[i as int]@);
            assert(views(present@) =~= pv);
            assert(pv.contains(cands@[i as int]@));
            assert(first_present(cs.skip(i as int), pv) == Some(cands@[i as int]@));
            let r = cands[i].clone();
            assert(r@ == cands@[i as int]@);
            return Some(r);
        }
        assert(views(present@) =~= pv);
        assert(cs.skip(i as int).drop_first() =~= cs.skip(i + 1));
        i = i + 1;
    }
    None
}

} // verus!
