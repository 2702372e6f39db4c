//! Flattening a configuration into the commands that can be spawned, with
//! working directories resolved project → app → sub-command.
use vstd::prelude::*;
use crate::config::{app_sub_names, sub_names, AppConfig, FrostConfig, ProjectConfig, SubCommand};
use crate::order::{lemma_sorted_first_is_least, lex_lt, sort_keys, sorted_strings};
use crate::paths::{is_absolute, join_path, parent_path, path_is_absolute, path_join, path_parent};

verus! {

/// A runnable command with everything resolved.
#[derive(Debug)]
pub struct RuntimeCommand {
    pub project_name: String,
    pub app_name: String,
    pub subcommand_name: String,
    pub command: String,
    pub workdir: String,
    pub is_default: bool,
    pub env: Vec<(String, String)>,
}

/// The text of an optional string.
pub open spec fn opt_text(o: Option<String>) -> Option<Seq<char>> {
    match o {
        Some(s) => Some(s@),
        None => None,
    }
}

/// The texts of a list of `(name, value)` string pairs.
pub open spec fn pair_views(v: Seq<(String, String)>) -> Seq<(Seq<char>, Seq<char>)> {
    v.map_values(|p: (String, String)| (p.0@, p.1@))
}

/// A command's environment: its entries, or none.
pub open spec fn env_view(e: Option<Vec<(String, String)>>) -> Seq<(Seq<char>, Seq<char>)> {
    match e {
        Some(v) => pair_views(v@),
        None => seq![],
    }
}

/// `canonicalize` returned `res` for a path with text `path`.
pub open spec fn canon_returned<F: Fn(&str) -> Option<String>>(canonicalize: F, path: Seq<char>, res: Option<String>) -> bool {
    exists|p: &str| p@ == path && #[trigger] call_ensures(canonicalize, (p,), res)
}

/// `out` is a working directory resolved from `base` and an optional
/// `relative` setting: `base` when unset, the setting itself when absolute,
/// else the canonical form of `base` joined with it as `canonicalize` gave
/// it, or the plain join when it gave none.
pub open spec fn resolves<F: Fn(&str) -> Option<String>>(
    canonicalize: F,
    base: Seq<char>,
    relative: Option<Seq<char>>,
    out: Seq<char>,
) -> bool {
    match relative {
        None => out == base,
        Some(r) => if is_absolute(r) {
            out == r
        } else {
            exists|res: Option<String>| #[trigger] canon_returned(canonicalize, path_join(base, r), res) && out == match res {
                Some(s) => s@,
                None => path_join(base, r),
            }
        },
    }
}

/// Resolve a working-directory setting against `base`: unset keeps `base`,
/// an absolute path is taken as is, a relative one is joined to `base` and
/// canonicalized with `canonicalize`, falling back to the plain join when
/// that fails.
pub fn resolve_workdir<F: Fn(&str) -> Option<String>>(base: &str, relative: Option<&str>, canonicalize: &F) -> (r: String)
    requires
        forall|p: &str| #[trigger] call_requires(*canonicalize, (p,)),
    ensures
        resolves(*canonicalize, base@, match relative { Some(s) => Some(s@), None => None }, r@),
{
    match relative {
        Some(rel) => {
            if path_is_absolute(rel) {
                String::from_str(rel)
            } else {
                let joined = join_path(base, rel);
                let res = canonicalize(joined.as_str());
                assert(canon_returned(*canonicalize, path_join(base@, rel@), res));
                match res {
                    Some(c) => c,
                    None => joined,
                }
            }
        },
        None => String::from_str(base),
    }
}

/// A flattened command as plain values, with the three working-directory
/// settings that resolve its directory.
pub struct FlatEntry {
    pub project: Seq<char>,
    pub app: Seq<char>,
    pub sub: Seq<char>,
    pub command: Seq<char>,
    pub is_default: bool,
    pub env: Seq<(Seq<char>, Seq<char>)>,
    pub project_rel: Option<Seq<char>>,
    pub app_rel: Option<Seq<char>>,
    pub sub_rel: Option<Seq<char>>,
}

/// The default sub-command of an app: its `default` setting, else the first
/// sub-command name in sorted order, else `default`.
pub open spec fn default_name(a: AppConfig) -> Seq<char> {
    match a.default {
        Some(d) => d@,
        None => {
            let names = sort_keys(sub_names(a));
            if names.len() > 0 { names[0] } else { "default"@ }
        },
    }
}

/// The commands of one app: one per entry of `commands`, or a single
/// `default` one for a lone `command`, or none.
pub open spec fn app_entries(pn: Seq<char>, an: Seq<char>, prel: Option<Seq<char>>, a: AppConfig) -> Seq<FlatEntry> {
    let d = default_name(a);
    match a.commands {
        Some(c) => c@.map_values(|e: (String, SubCommand)| FlatEntry {
            project: pn,
            app: an,
            sub: e.0@,
            command: e.1.command@,
            is_default: e.0@ == d,
            env: env_view(e.1.env),
            project_rel: prel,
            app_rel: opt_text(a.workdir),
            sub_rel: opt_text(e.1.workdir),
        }),
        None => match a.command {
            Some(cmd) => seq![FlatEntry {
                project: pn,
                app: an,
                sub: "default"@,
                command: cmd@,
                is_default: "default"@ == d,
                env: seq![],
                project_rel: prel,
                app_rel: opt_text(a.workdir),
                sub_rel: None,
            }],
            None => seq![],
        },
    }
}

/// With no `default` setting, a flattened sub-command of an app is its
/// default exactly when no sub-command name of the app sorts strictly
/// before its own; every flattened entry carries one of the app's names.
pub proof fn law_default_is_first_name(pn: Seq<char>, an: Seq<char>, prel: Option<Seq<char>>, a: AppConfig)
    requires
        a.default is None,
    ensures
        forall|i: int| 0 <= i < app_entries(pn, an, prel, a).len() ==> sub_names(a).contains(
            #[trigger] app_entries(pn, an, prel, a)[i].sub,
        ),
        forall|i: int| 0 <= i < app_entries(pn, an, prel, a).len() ==> (
        #[trigger] app_entries(pn, an, prel, a)[i].is_default <==> forall|n: Seq<char>|
            sub_names(a).contains(n) ==> !lex_lt(n, app_entries(pn, an, prel, a)[i].sub)),
{
    let es = app_entries(pn, an, prel, a);
    let names = sub_names(a);
    assert forall|i: int| 0 <= i < es.len() implies names.contains(#[trigger] es[i].sub) by {
        match a.commands {
            Some(c) => {
                assert(names[i] == es[i].sub);
            },
            None => {
                assert(names[0] == es[i].sub);
            },
        }
    }
    if es.len() > 0 {
        assert(names.contains(es[0].sub));
        lemma_sorted_first_is_least(names);
        let d = sort_keys(names)[0];
        assert(default_name(a) == d);
        assert forall|i: int| 0 <= i < es.len() implies (#[trigger] es[i].is_default <==> forall|n: Seq<char>|
            names.contains(n) ==> !lex_lt(n, es[i].sub)) by {
            assert(names.contains(es[i].sub));
            assert(es[i].is_default == (es[i].sub == d));
            if forall|n: Seq<char>| names.contains(n) ==> !lex_lt(n, es[i].sub) {
                assert(!lex_lt(d, es[i].sub));
            }
        }
    }
}

/// The commands of one project, app by app.
pub open spec fn project_entries(pn: Seq<char>, p: ProjectConfig) -> Seq<FlatEntry> {
    Seq::new(p.apps@.len(), |j: int| app_entries(pn, p.apps@[j].0@, opt_text(p.workdir), p.apps@[j].1)).flatten()
}

/// The commands of a configuration, project by project.
pub open spec fn config_entries(c: FrostConfig) -> Seq<FlatEntry> {
    Seq::new(c.projects@.len(), |i: int| project_entries(c.projects@[i].0@, c.projects@[i].1)).flatten()
}

/// The directory a configuration file lives in, or `cwd` when the path has
/// no parent.
pub open spec fn config_dir_of(config_path: Seq<char>, cwd: Seq<char>) -> Seq<char> {
    match path_parent(config_path) {
        Some(d) => d,
        None => cwd,
    }
}

/// The directories `pd` (project) and `ad` (app) resolve in turn from
/// `dir`, and the command's directory `w` from them.
pub open spec fn chain_ok<F: Fn(&str) -> Option<String>>(
    canonicalize: F,
    dir: Seq<char>,
    e: FlatEntry,
    pd: Seq<char>,
    ad: Seq<char>,
    w: Seq<char>,
) -> bool {
    resolves(canonicalize, dir, e.project_rel, pd) && resolves(canonicalize, pd, e.app_rel, ad) && resolves(
        canonicalize,
        ad,
        e.sub_rel,
        w,
    )
}

/// A runtime command carries the entry's values, and its directory is
/// resolved from `dir` through the project's and app's settings.
pub open spec fn command_ok<F: Fn(&str) -> Option<String>>(canonicalize: F, dir: Seq<char>, c: RuntimeCommand, e: FlatEntry) -> bool {
    &&& c.project_name@ == e.project
    &&& c.app_name@ == e.app
    &&& c.subcommand_name@ == e.sub
    &&& c.command@ == e.command
    &&& c.is_default == e.is_default
    &&& pair_views(c.env@) == e.env
    &&& exists|pd: Seq<char>, ad: Seq<char>| #[trigger] chain_ok(canonicalize, dir, e, pd, ad, c.workdir@)
}

fn copy_pairs(v: &Vec<(String, String)>) -> (r: Vec<(String, String)>)
    ensures
        pair_views(r@) == pair_views(v@),
{
    let mut out: Vec<(String, String)> = Vec::new();
    let mut i: usize = 0;
    while i < v.len()
        invariant
            i <= v@.len(),
            out@.len() == i,
            forall|k: int| 0 <= k < i ==> out@[k].0@ == v@[k].0@ && out@[k].1@ == v@[k].1@,
        decreases v@.len() - i,
    {
        out.push((v[i].0.clone(), v[i].1.clone()));
        i = i + 1;
    }
    assert(pair_views(out@) =~= pair_views(v@));
    out
}

fn copy_env(e: &Option<Vec<(String, String)>>) -> (r: Vec<(String, String)>)
    ensures
        pair_views(r@) == env_view(*e),
{
    match e {
        Some(v) => copy_pairs(v),
        None => {
            let r: Vec<(String, String)> = Vec::new();
            assert(pair_views(r@) =~= seq![]);
            r
        },
    }
}

fn as_opt_str(o: &Option<String>) -> (r: Option<&str>)
    ensures
        match r { Some(s) => Some(s@), None => None } == opt_text(*o),
{
    match o {
        Some(s) => Some(s.as_str()),
        None => None,
    }
}

fn default_sub_name(a: &AppConfig) -> (r: String)
    ensures
        r@ == default_name(*a),
{
    match &a.default {
        Some(d) => d.clone(),
        None => {
            let names = sorted_strings(&app_sub_names(a));
            if names.len() > 0 {
                names[0].clone()
            } else {
                String::from_str("default")
            }
        },
    }
}

fn push_app_commands<F: Fn(&str) -> Option<String>>(
    out: &mut Vec<RuntimeCommand>,
    canonicalize: &F,
    dir: Ghost<Seq<char>>,
    pn: &str,
    pd: &str,
    prel: Ghost<Option<Seq<char>>>,
    an: &str,
    a: &AppConfig,
)
    requires
        forall|p: &str| #[trigger] call_requires(*canonicalize, (p,)),
        exists|x: Seq<char>| #[trigger] resolves(*canonicalize, dir@, prel@, x) && x == pd@,
    ensures
        ({
            let b = app_entries(pn@, an@, prel@, *a);
            &&& final(out)@.len() == old(out)@.len() + b.len()
            &&& forall|k: int| 0 <= k < old(out)@.len() ==> final(out)@[k] == old(out)@[k]
            &&& forall|j: int| 0 <= j < b.len() ==> command_ok(*canonicalize, dir@, #[trigger] final(out)@[old(out)@.len() + j], b[j])
        }),
{
    let ghost b = app_entries(pn@, an@, prel@, *a);
    let ghost base = old(out)@.len();
    let ad = resolve_workdir(pd, as_opt_str(&a.workdir), canonicalize);
    let default_sub = default_sub_name(a);
    match &a.commands {
        Some(cmds) => {
            let mut i: usize = 0;
            while i < cmds.len()
                invariant
                    forall|p: &str| #[trigger] call_requires(*canonicalize, (p,)),
                    exists|x: Seq<char>| #[trigger] resolves(*canonicalize, dir@, prel@, x) && x == pd@,
                    resolves(*canonicalize, pd@, opt_text(a.workdir), ad@),
                    default_sub@ == default_name(*a),
                    a.commands == Some(*cmds),
                    b == app_entries(pn@, an@, prel@, *a),
                    b.len() == cmds@.len(),
                    i <= cmds@.len(),
                    out@.len() == base + i,
                    forall|k: int| 0 <= k < base ==> out@[k] == old(out)@[k],
                    forall|j: int| 0 <= j < i ==> command_ok(*canonicalize, dir@, #[trigger] out@[base + j], b[j]),
                decreases cmds@.len() - i,
            {
                let w = resolve_workdir(ad.as_str(), as_opt_str(&cmds[i].1.workdir), canonicalize);
                let is_default = crate::text::text_eq(cmds[i].0.as_str(), default_sub.as_str());
                let c = RuntimeCommand {
                    project_name: String::from_str(pn),
                    app_name: String::from_str(an),
                    subcommand_name: cmds[i].0.clone(),
                    command: cmds[i].1.command.clone(),
                    workdir: w,
                    is_default,
                    env: copy_env(&cmds[i].1.env),
                };
                proof {
                    assert(chain_ok(*canonicalize, dir@, b[i as int], pd@, ad@, c.workdir@));
                }
                out.push(c);
                i = i + 1;
            }
        },
        None => {
            match &a.command {
                Some(cmd) => {
                    let c = RuntimeCommand {
                        project_name: String::from_str(pn),
                        app_name: String::from_str(an),
                        subcommand_name: String::from_str("default"),
                        command: cmd.clone(),
                        workdir: String::from_str(ad.as_str()),
                        is_default: crate::text::text_eq("default", default_sub.as_str()),
                        env: Vec::new(),
                    };
                    proof {
                        assert(pair_views(c.env@) =~= seq![]);
                        assert(chain_ok(*canonicalize, dir@, b[0], pd@, ad@, c.workdir@));
                    }
                    out.push(c);
                },
                None => {},
            }
        },
    }
}

fn push_project_commands<F: Fn(&str) -> Option<String>>(
    out: &mut Vec<RuntimeCommand>,
    canonicalize: &F,
    dir: &str,
    pn: &str,
    p: &ProjectConfig,
)
    requires
        forall|q: &str| #[trigger] call_requires(*canonicalize, (q,)),
    ensures
        ({
            let b = project_entries(pn@, *p);
            &&& final(out)@.len() == old(out)@.len() + b.len()
            &&& forall|k: int| 0 <= k < old(out)@.len() ==> final(out)@[k] == old(out)@[k]
            &&& forall|j: int| 0 <= j < b.len() ==> command_ok(*canonicalize, dir@, #[trigger] final(out)@[old(out)@.len() + j], b[j])
        }),
{
    let ghost base = old(out)@.len();
    let ghost prel = opt_text(p.workdir);
    let pd = resolve_workdir(dir, as_opt_str(&p.workdir), canonicalize);
    let ghost blocks = Seq::new(p.apps@.len(), |j: int| app_entries(pn@, p.apps@[j].0@, prel, p.apps@[j].1));
    assert(blocks.subrange(0, 0).flatten() =~= seq![]);
    let mut i: usize = 0;
    while i < p.apps.len()
        invariant
            forall|q: &str| #[trigger] call_requires(*canonicalize, (q,)),
            resolves(*canonicalize, dir@, prel, pd@),
            prel == opt_text(p.workdir),
            blocks == Seq::new(p.apps@.len(), |j: int| app_entries(pn@, p.apps@[j].0@, prel, p.apps@[j].1)),
            i <= p.apps@.len(),
            out@.len() == base + blocks.subrange(0, i as int).flatten().len(),
            forall|k: int| 0 <= k < base ==> out@[k] == old(out)@[k],
            forall|j: int| 0 <= j < blocks.subrange(0, i as int).flatten().len() ==> command_ok(
                *canonicalize,
                dir@,
                #[trigger] out@[base + j],
                blocks.subrange(0, i as int).flatten()[j],
            ),
        decreases p.apps@.len() - i,
    {
        let ghost before = out@;
        let ghost done = blocks.subrange(0, i as int).flatten();
        assert(resolves(*canonicalize, dir@, prel, pd@) && pd@ == pd@);
        push_app_commands(out, canonicalize, Ghost(dir@), pn, pd.as_str(), Ghost(prel), p.apps[i].0.as_str(), &p.apps[i].1);
        proof {
            let nb = blocks[i as int];
            assert(blocks.subrange(0, i + 1) =~= blocks.subrange(0, i as int).push(nb));
            blocks.subrange(0, i as int).lemma_flatten_push(nb);
            let now = blocks.subrange(0, i + 1).flatten();
            assert(now =~= done + nb);
            assert forall|j: int| 0 <= j < now.len() implies command_ok(*canonicalize, dir@, #[trigger] out@[base + j], now[j]) by {
                if j < done.len() {
                    assert(out@[base + j] == before[base + j]);
                } else {
                    let jj = j - done.len();
                    assert(out@[before.len() + jj] == out@[base + j]);
                }
            }
        }
        i = i + 1;
    }
    assert(blocks.subrange(0, blocks.len() as int) =~= blocks);
}

/// Flatten a configuration into runnable commands: for every project, app
/// and sub-command (a lone `command` counts as the sub-command `default`),
/// in the order the maps are held.  Each command is marked default when its
/// name is the app's default, and its working directory is resolved from
/// the configuration file's directory (or `cwd` when the path has none)
/// through the project's, the app's and the sub-command's `workdir`.
pub fn flatten_config<F: Fn(&str) -> Option<String>>(
    config: &FrostConfig,
    config_path: &str,
    cwd: &str,
    canonicalize: &F,
) -> (r: Vec<RuntimeCommand>)
    requires
        config.wf(),
        forall|q: &str| #[trigger] call_requires(*canonicalize, (q,)),
    ensures
        ({
            let es = config_entries(*config);
            let dir = config_dir_of(config_path@, cwd@);
            &&& r@.len() == es.len()
            &&& forall|j: int| 0 <= j < es.len() ==> command_ok(*canonicalize, dir, #[trigger] r@[j], es[j])
        }),
{
    let dir = match parent_path(config_path) {
        Some(d) => d,
        None => String::from_str(cwd),
    };
    let mut out: Vec<RuntimeCommand> = Vec::new();
    let ghost blocks = Seq::new(config.projects@.len(), |i: int| project_entries(config.projects@[i].0@, config.projects@[i].1));
    assert(blocks.subrange(0, 0).flatten() =~= seq![]);
    let mut i: usize = 0;
    while i < config.projects.len()
        invariant
            forall|q: &str| #[trigger] call_requires(*canonicalize, (q,)),
            dir@ == config_dir_of(config_path@, cwd@),
            blocks == Seq::new(config.projects@.len(), |i: int| project_entries(config.projects@[i].0@, config.projects@[i].1)),
            i <= config.projects@.len(),
            out@.len() == blocks.subrange(0, i as int).flatten().len(),
            forall|j: int| 0 <= j < blocks.subrange(0, i as int).flatten().len() ==> command_ok(
                *canonicalize,
                dir@,
                #[trigger] out@[j],
                blocks.subrange(0, i as int).flatten()[j],
            ),
        decreases config.projects@.len() - i,
    {
        let ghost before = out@;
        let ghost done = blocks.subrange(0, i as int).flatten();
        push_project_commands(&mut out, canonicalize, dir.as_str(), config.projects[i].0.as_str(), &config.projects[i].1);
        proof {
            let nb = blocks[i as int];
            assert(blocks.subrange(0, i + 1) =~= blocks.subrange(0, i as int).push(nb));
            blocks.subrange(0, i as int).lemma_flatten_push(nb);
            let now = blocks.subrange(0, i + 1).flatten();
            assert(now =~= done + nb);
            assert forall|j: int| 0 <= j < now.len() implies command_ok(*canonicalize, dir@, #[trigger] out@[j], now[j]) by {
                if j < done.len() {
                    assert(out@[j] == before[j]);
                } else {
                    let jj = j - done.len();
                    assert(out@[before.len() + jj] == out@[j]);
                }
            }
        }
        i = i + 1;
    }
    assert(blocks.subrange(0, blocks.len() as int) =~= blocks);
    out
}

} // verus!
