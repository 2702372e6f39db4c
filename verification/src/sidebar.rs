//! The sidebar tree: projects, their apps, and each app's terminal and
//! sub-commands, flattened into the rows currently visible.
use vstd::prelude::*;
use crate::config::{app_sub_names, sub_names, AppConfig, FrostConfig, ProjectConfig};
use crate::keyed::{entry_keys, find_key, keys_of, lemma_lookup_first, lookup};
use crate::order::{sort_keys, sorted_strings};
use crate::text::{contains_text_in, views};

verus! {

/// What a sidebar row stands for.
#[derive(Debug, Clone, Copy, PartialEq, Eq, Structural)]
pub enum TreeItemKind {
    Project,
    App,
    Subcommand,
    Terminal,
}

/// A visible row of the sidebar tree.
#[derive(Debug, Clone)]
pub struct TreeItem {
    pub kind: TreeItemKind,
    pub name: String,
    pub path: String,
    pub depth: usize,
}

/// A row as plain values.
pub struct TreeItemView {
    pub kind: TreeItemKind,
    pub name: Seq<char>,
    pub path: Seq<char>,
    pub depth: nat,
}

impl View for TreeItem {
    type V = TreeItemView;

    open spec fn view(&self) -> TreeItemView {
        TreeItemView { kind: self.kind, name: self.name@, path: self.path@, depth: self.depth as nat }
    }
}

/// The rows of a list of tree items.
pub open spec fn item_views(v: Seq<TreeItem>) -> Seq<TreeItemView> {
    v.map_values(|t: TreeItem| t@)
}

pub open spec fn row(kind: TreeItemKind, name: Seq<char>, path: Seq<char>, depth: nat) -> TreeItemView {
    TreeItemView { kind, name, path, depth }
}

/// `a/b`.
pub open spec fn join_path(a: Seq<char>, b: Seq<char>) -> Seq<char> {
    a + "/"@ + b
}

/// The sub-command rows of an app whose path is `ap`, in name order.
pub open spec fn subs_block(a: AppConfig, ap: Seq<char>) -> Seq<TreeItemView> {
    sort_keys(sub_names(a)).map_values(|sn: Seq<char>| row(TreeItemKind::Subcommand, sn, join_path(ap, sn), 2))
}

/// The rows of app `an` of project `pn`: the app, and when it is expanded its
/// terminal and its sub-commands.
pub open spec fn app_block(p: ProjectConfig, expanded: Seq<Seq<char>>, pn: Seq<char>, an: Seq<char>) -> Seq<TreeItemView> {
    let a = lookup(p.apps@, an);
    let ap = join_path(pn, an);
    seq![row(TreeItemKind::App, an, ap, 1)] + if expanded.contains(ap) {
        seq![row(TreeItemKind::Terminal, "terminal"@, join_path(ap, "terminal"@), 2)] + subs_block(a, ap)
    } else {
        seq![]
    }
}

/// The rows of a project's apps, in name order.
pub open spec fn apps_block(p: ProjectConfig, expanded: Seq<Seq<char>>, pn: Seq<char>) -> Seq<TreeItemView> {
    let names = sort_keys(keys_of(p.apps@));
    Seq::new(names.len(), |i: int| app_block(p, expanded, pn, names[i])).flatten()
}

/// The rows of project `pn`: the project, and its apps when it is expanded.
pub open spec fn project_block(c: FrostConfig, expanded: Seq<Seq<char>>, pn: Seq<char>) -> Seq<TreeItemView> {
    let p = lookup(c.projects@, pn);
    seq![row(TreeItemKind::Project, pn, pn, 0)] + if expanded.contains(pn) {
        apps_block(p, expanded, pn)
    } else {
        seq![]
    }
}

/// The visible tree: every project in name order, each followed by its
/// visible rows.
pub open spec fn visible_tree(c: FrostConfig, expanded: Seq<Seq<char>>) -> Seq<TreeItemView> {
    let names = sort_keys(keys_of(c.projects@));
    Seq::new(names.len(), |i: int| project_block(c, expanded, names[i])).flatten()
}


/// `a` is a subsequence of `b`: `b` with some of its items left out.
pub open spec fn embeds<T>(a: Seq<T>, b: Seq<T>) -> bool
    decreases b.len(),
{
    if a.len() == 0 {
        true
    } else if b.len() == 0 {
        false
    } else {
        (a[0] == b[0] && embeds(a.drop_first(), b.drop_first())) || embeds(a, b.drop_first())
    }
}

proof fn lemma_embeds_refl<T>(a: Seq<T>)
    ensures
        embeds(a, a),
    decreases a.len(),
{
    if a.len() > 0 {
        lemma_embeds_refl(a.drop_first());
    }
}

proof fn lemma_embeds_skip<T>(a: Seq<T>, b1: Seq<T>, b2: Seq<T>)
    requires
        embeds(a, b2),
    ensures
        embeds(a, b1 + b2),
    decreases b1.len(),
{
    if b1.len() == 0 {
        assert(b1 + b2 =~= b2);
    } else {
        lemma_embeds_skip(a, b1.drop_first(), b2);
        assert((b1 + b2).drop_first() =~= b1.drop_first() + b2);
    }
}

proof fn lemma_embeds_concat<T>(a1: Seq<T>, b1: Seq<T>, a2: Seq<T>, b2: Seq<T>)
    requires
        embeds(a1, b1),
        embeds(a2, b2),
    ensures
        embeds(a1 + a2, b1 + b2),
    decreases b1.len(),
{
    if a1.len() == 0 {
        assert(a1 + a2 =~= a2);
        lemma_embeds_skip(a2, b1, b2);
    } else {
        assert(b1.len() > 0);
        let b = b1 + b2;
        assert(b[0] == b1[0]);
        assert(b.drop_first() =~= b1.drop_first() + b2);
        assert((a1 + a2)[0] == a1[0]);
        assert((a1 + a2).drop_first() =~= a1.drop_first() + a2);
        if a1[0] == b1[0] && embeds(a1.drop_first(), b1.drop_first()) {
            lemma_embeds_concat(a1.drop_first(), b1.drop_first(), a2, b2);
        } else {
            lemma_embeds_concat(a1, b1.drop_first(), a2, b2);
        }
    }
}

proof fn lemma_embeds_flatten<T>(x: Seq<Seq<T>>, y: Seq<Seq<T>>)
    requires
        x.len() == y.len(),
        forall|i: int| 0 <= i < x.len() ==> embeds(#[trigger] x[i], y[i]),
    ensures
        embeds(x.flatten(), y.flatten()),
    decreases x.len(),
{
    if x.len() > 0 {
        assert forall|i: int| 0 <= i < x.drop_first().len() implies embeds(
            #[trigger] x.drop_first()[i],
            y.drop_first()[i],
        ) by {
            assert(embeds(x[i + 1], y[i + 1]));
        }
        lemma_embeds_flatten(x.drop_first(), y.drop_first());
        assert(embeds(x[0], y[0]));
        lemma_embeds_concat(x[0], y[0], x.drop_first().flatten(), y.drop_first().flatten());
    }
}

proof fn lemma_app_block_grows(p: ProjectConfig, e1: Seq<Seq<char>>, e2: Seq<Seq<char>>, pn: Seq<char>, an: Seq<char>)
    requires
        forall|x: Seq<char>| e1.contains(x) ==> e2.contains(x),
    ensures
        embeds(app_block(p, e1, pn, an), app_block(p, e2, pn, an)),
{
    let ap = join_path(pn, an);
    let r = seq![row(TreeItemKind::App, an, ap, 1)];
    if e1.contains(ap) {
        lemma_embeds_refl(app_block(p, e2, pn, an));
    } else {
        lemma_embeds_refl(r);
        let rest = if e2.contains(ap) {
            seq![row(TreeItemKind::Terminal, "terminal"@, join_path(ap, "terminal"@), 2)] + subs_block(lookup(p.apps@, an), ap)
        } else {
            seq![]
        };
        lemma_embeds_concat(r, r, Seq::<TreeItemView>::empty(), rest);
        assert(r + Seq::<TreeItemView>::empty() =~= app_block(p, e1, pn, an));
    }
}

proof fn lemma_apps_block_grows(p: ProjectConfig, e1: Seq<Seq<char>>, e2: Seq<Seq<char>>, pn: Seq<char>)
    requires
        forall|x: Seq<char>| e1.contains(x) ==> e2.contains(x),
    ensures
        embeds(apps_block(p, e1, pn), apps_block(p, e2, pn)),
{
    let names = sort_keys(keys_of(p.apps@));
    let x = Seq::new(names.len(), |i: int| app_block(p, e1, pn, names[i]));
    let y = Seq::new(names.len(), |i: int| app_block(p, e2, pn, names[i]));
    assert forall|i: int| 0 <= i < x.len() implies embeds(#[trigger] x[i], y[i]) by {
        lemma_app_block_grows(p, e1, e2, pn, names[i]);
    }
    lemma_embeds_flatten(x, y);
}

proof fn lemma_project_block_grows(c: FrostConfig, e1: Seq<Seq<char>>, e2: Seq<Seq<char>>, pn: Seq<char>)
    requires
        forall|x: Seq<char>| e1.contains(x) ==> e2.contains(x),
    ensures
        embeds(project_block(c, e1, pn), project_block(c, e2, pn)),
{
    let p = lookup(c.projects@, pn);
    let r = seq![row(TreeItemKind::Project, pn, pn, 0)];
    lemma_embeds_refl(r);
    let a1 = if e1.contains(pn) { apps_block(p, e1, pn) } else { seq![] };
    let a2 = if e2.contains(pn) { apps_block(p, e2, pn) } else { seq![] };
    if e1.contains(pn) {
        lemma_apps_block_grows(p, e1, e2, pn);
    }
    assert(embeds(a1, a2));
    lemma_embeds_concat(r, r, a1, a2);
}

/// The rows of the projects, in name order, whatever is unfolded.
pub open spec fn project_rows(c: FrostConfig) -> Seq<TreeItemView> {
    sort_keys(keys_of(c.projects@)).map_values(|pn: Seq<char>| row(TreeItemKind::Project, pn, pn, 0))
}

/// Whether a row is a project row.
pub open spec fn is_project_row(r: TreeItemView) -> bool {
    r.kind == TreeItemKind::Project
}

proof fn lemma_filter_concat(a: Seq<TreeItemView>, b: Seq<TreeItemView>)
    ensures
        (a + b).filter(|r: TreeItemView| is_project_row(r)) == a.filter(|r: TreeItemView| is_project_row(r)) + b.filter(
            |r: TreeItemView| is_project_row(r),
        ),
{
    Seq::<TreeItemView>::filter_distributes_over_add(a, b, |r: TreeItemView| is_project_row(r));
}

proof fn lemma_no_project_rows(x: Seq<Seq<TreeItemView>>)
    requires
        forall|i: int, j: int| 0 <= i < x.len() && 0 <= j < x[i].len() ==> !is_project_row(#[trigger] x[i][j]),
    ensures
        x.flatten().filter(|r: TreeItemView| is_project_row(r)) == Seq::<TreeItemView>::empty(),
    decreases x.len(),
{
    if x.len() == 0 {
        reveal(Seq::filter);
        assert(x.flatten().filter(|r: TreeItemView| is_project_row(r)) =~= Seq::<TreeItemView>::empty());
    } else {
        assert forall|i: int, j: int| 0 <= i < x.drop_first().len() && 0 <= j < x.drop_first()[i].len()
            implies !is_project_row(#[trigger] x.drop_first()[i][j]) by {
            assert(x.drop_first()[i] == x[i + 1]);
        }
        lemma_no_project_rows(x.drop_first());
        lemma_filter_concat(x[0], x.drop_first().flatten());
        assert forall|j: int| 0 <= j < x[0].len() implies !is_project_row(#[trigger] x[0][j]) by {
            assert(!is_project_row(x[0][j]));
        }
        lemma_no_project_rows_one(x[0]);
        assert(x.flatten().filter(|r: TreeItemView| is_project_row(r)) =~= Seq::<TreeItemView>::empty());
    }
}

proof fn lemma_no_project_rows_one(s: Seq<TreeItemView>)
    ensures
        (forall|j: int| 0 <= j < s.len() ==> !is_project_row(#[trigger] s[j])) ==> s.filter(
            |r: TreeItemView| is_project_row(r),
        ) == Seq::<TreeItemView>::empty(),
    decreases s.len(),
{
    if forall|j: int| 0 <= j < s.len() ==> !is_project_row(#[trigger] s[j]) {
        if s.len() == 0 {
            reveal(Seq::filter);
            assert(s.filter(|r: TreeItemView| is_project_row(r)) =~= Seq::<TreeItemView>::empty());
        } else {
            let d = s.drop_last();
            assert(s =~= d.push(s.last()));
            assert(forall|j: int| 0 <= j < d.len() ==> d[j] == s[j]);
            lemma_no_project_rows_one(d);
            d.lemma_filter_push(s.last(), |r: TreeItemView| is_project_row(r));
            assert(!is_project_row(s[s.len() - 1]));
        }
    }
}

proof fn lemma_project_block_rows(c: FrostConfig, e: Seq<Seq<char>>, pn: Seq<char>)
    ensures
        project_block(c, e, pn).filter(|r: TreeItemView| is_project_row(r)) == seq![row(TreeItemKind::Project, pn, pn, 0)],
{
    let p = lookup(c.projects@, pn);
    let r = seq![row(TreeItemKind::Project, pn, pn, 0)];
    let rest = if e.contains(pn) { apps_block(p, e, pn) } else { seq![] };
    lemma_filter_concat(r, rest);
    lemma_no_project_rows_one(r.drop_last());
    r.drop_last().lemma_filter_push(r.last(), |x: TreeItemView| is_project_row(x));
    assert(r.drop_last().push(r.last()) =~= r);
    assert(r.drop_last() =~= Seq::<TreeItemView>::empty());
    assert(r.filter(|x: TreeItemView| is_project_row(x)) =~= r);
    if e.contains(pn) {
        let names = sort_keys(keys_of(p.apps@));
        let x = Seq::new(names.len(), |i: int| app_block(p, e, pn, names[i]));
        assert forall|i: int, j: int| 0 <= i < x.len() && 0 <= j < x[i].len() implies !is_project_row(
            #[trigger] x[i][j],
        ) by {
            let ap = join_path(pn, names[i]);
            let subs = subs_block(lookup(p.apps@, names[i]), ap);
            if j >= 2 {
                assert(x[i][j] == subs[j - 2]);
            }
        }
        lemma_no_project_rows(x);
    } else {
        lemma_no_project_rows_one(rest);
    }
    assert(project_block(c, e, pn) == r + rest);
    assert(r + Seq::<TreeItemView>::empty() =~= r);
}

proof fn lemma_flatten_project_rows(x: Seq<Seq<TreeItemView>>, names: Seq<Seq<char>>)
    requires
        x.len() == names.len(),
        forall|i: int| 0 <= i < x.len() ==> (#[trigger] x[i]).filter(|r: TreeItemView| is_project_row(r)) == seq![
            row(TreeItemKind::Project, names[i], names[i], 0),
        ],
    ensures
        x.flatten().filter(|r: TreeItemView| is_project_row(r)) == names.map_values(
            |pn: Seq<char>| row(TreeItemKind::Project, pn, pn, 0),
        ),
    decreases x.len(),
{
    if x.len() == 0 {
        reveal(Seq::filter);
        assert(names.map_values(|pn: Seq<char>| row(TreeItemKind::Project, pn, pn, 0)) =~= Seq::<TreeItemView>::empty());
        assert(x.flatten().filter(|r: TreeItemView| is_project_row(r)) =~= Seq::<TreeItemView>::empty());
    } else {
        assert forall|i: int| 0 <= i < x.drop_first().len() implies (#[trigger] x.drop_first()[i]).filter(
            |r: TreeItemView| is_project_row(r),
        ) == seq![row(TreeItemKind::Project, names.drop_first()[i], names.drop_first()[i], 0)] by {
            assert(x.drop_first()[i] == x[i + 1]);
            assert(x[i + 1].filter(|r: TreeItemView| is_project_row(r)) == seq![
                row(TreeItemKind::Project, names[i + 1], names[i + 1], 0),
            ]);
        }
        lemma_flatten_project_rows(x.drop_first(), names.drop_first());
        lemma_filter_concat(x[0], x.drop_first().flatten());
        assert(x[0].filter(|r: TreeItemView| is_project_row(r)) == seq![row(TreeItemKind::Project, names[0], names[0], 0)]);
        assert(names.map_values(|pn: Seq<char>| row(TreeItemKind::Project, pn, pn, 0)) =~= seq![
            row(TreeItemKind::Project, names[0], names[0], 0),
        ] + names.drop_first().map_values(|pn: Seq<char>| row(TreeItemKind::Project, pn, pn, 0)));
    }
}

/// Unfolding more paths only adds rows: the tree with fewer paths unfolded
/// is the tree with more unfolded with some rows left out, and both show
/// the same project rows, every project in name order.
pub proof fn law_unfolding_adds_rows(c: FrostConfig, e1: Seq<Seq<char>>, e2: Seq<Seq<char>>)
    requires
        forall|x: Seq<char>| e1.contains(x) ==> e2.contains(x),
    ensures
        embeds(visible_tree(c, e1), visible_tree(c, e2)),
        visible_tree(c, e1).filter(|r: TreeItemView| is_project_row(r)) == project_rows(c),
        visible_tree(c, e2).filter(|r: TreeItemView| is_project_row(r)) == project_rows(c),
{
    let names = sort_keys(keys_of(c.projects@));
    let x = Seq::new(names.len(), |i: int| project_block(c, e1, names[i]));
    let y = Seq::new(names.len(), |i: int| project_block(c, e2, names[i]));
    assert forall|i: int| 0 <= i < x.len() implies embeds(#[trigger] x[i], y[i]) by {
        lemma_project_block_grows(c, e1, e2, names[i]);
    }
    lemma_embeds_flatten(x, y);
    assert forall|i: int| 0 <= i < x.len() implies (#[trigger] x[i]).filter(|r: TreeItemView| is_project_row(r))
        == seq![row(TreeItemKind::Project, names[i], names[i], 0)] by {
        lemma_project_block_rows(c, e1, names[i]);
    }
    lemma_flatten_project_rows(x, names);
    assert forall|i: int| 0 <= i < y.len() implies (#[trigger] y[i]).filter(|r: TreeItemView| is_project_row(r))
        == seq![row(TreeItemKind::Project, names[i], names[i], 0)] by {
        lemma_project_block_rows(c, e2, names[i]);
    }
    lemma_flatten_project_rows(y, names);
}

fn make_item(kind: TreeItemKind, name: String, path: String, depth: usize) -> (t: TreeItem)
    ensures
        t@ == row(kind, name@, path@, depth as nat),
{
    TreeItem { kind, name, path, depth }
}

fn join(a: &str, b: &str) -> (r: String)
    ensures
        r@ == join_path(a@, b@),
{
    let s = String::from_str(a).concat("/");
    s.concat(b)
}

fn push_app_block(items: &mut Vec<TreeItem>, p: &ProjectConfig, expanded: &Vec<String>, pn: &str, an: &str)
    requires
        crate::keyed::has_key(p.apps@, an@),
    ensures
        item_views(final(items)@) == item_views(old(items)@) + app_block(*p, views(expanded@), pn@, an@),
{
    let ghost ex = views(expanded@);
    let ap = join(pn, an);
    items.push(make_item(TreeItemKind::App, String::from_str(an), ap.clone(), 1));
    if !contains_text_in(expanded, ap.as_str()) {
        assert(item_views(items@) =~= item_views(old(items)@) + app_block(*p, ex, pn@, an@));
        return;
    }
    let tp = join(ap.as_str(), "terminal");
    items.push(make_item(TreeItemKind::Terminal, String::from_str("terminal"), tp, 2));
    let ghost mid = item_views(items@);
    let i = match find_key(&p.apps, an) {
        Some(i) => i,
        None => {
            proof { assert(false); }
            return;
        },
    };
    proof { lemma_lookup_first(p.apps@, an@, i as int); }
    let names = sorted_strings(&app_sub_names(&p.apps[i].1));
    let ghost a = lookup(p.apps@, an@);
    let ghost sb = subs_block(a, ap@);
    assert(views(names@) == sort_keys(sub_names(a)));
    let mut k: usize = 0;
    while k < names.len()
        invariant
            k <= names@.len(),
            views(names@) == sort_keys(sub_names(a)),
            sb == subs_block(a, ap@),
            sb.len() == names@.len(),
            item_views(items@) == mid + sb.subrange(0, k as int),
        decreases names@.len() - k,
    {
        let sn = names[k].clone();
        let path = join(ap.as_str(), sn.as_str());
        let ghost prev = item_views(items@);
        items.push(make_item(TreeItemKind::Subcommand, sn, path, 2));
        proof {
            assert(views(names@)[k as int] == names@[k as int]@);
            assert(sb[k as int] == row(TreeItemKind::Subcommand, names@[k as int]@, join_path(ap@, names@[k as int]@), 2));
            assert(item_views(items@) =~= prev.push(sb[k as int]));
            assert(sb.subrange(0, k + 1) =~= sb.subrange(0, k as int).push(sb[k as int]));
        }
        k = k + 1;
    }
    assert(sb.subrange(0, sb.len() as int) =~= sb);
    assert(item_views(items@) =~= item_views(old(items)@) + app_block(*p, ex, pn@, an@));
}

fn push_project_block(items: &mut Vec<TreeItem>, c: &FrostConfig, expanded: &Vec<String>, pn: &str)
    requires
        crate::keyed::has_key(c.projects@, pn@),
    ensures
        item_views(final(items)@) == item_views(old(items)@) + project_block(*c, views(expanded@), pn@),
{
    let ghost ex = views(expanded@);
    items.push(make_item(TreeItemKind::Project, String::from_str(pn), String::from_str(pn), 0));
    if !contains_text_in(expanded, pn) {
        assert(item_views(items@) =~= item_views(old(items)@) + project_block(*c, ex, pn@));
        return;
    }
    let ghost mid = item_views(items@);
    let i = match find_key(&c.projects, pn) {
        Some(i) => i,
        None => {
            proof { assert(false); }
            return;
        },
    };
    proof { lemma_lookup_first(c.projects@, pn@, i as int); }
    let p = &c.projects[i].1;
    let names = sorted_strings(&entry_keys(&p.apps));
    let ghost ns = sort_keys(keys_of(p.apps@));
    let ghost blocks = Seq::new(ns.len(), |j: int| app_block(*p, ex, pn@, ns[j]));
    proof {
        crate::order::lemma_lex_total_ordering();
        keys_of(p.apps@).lemma_sort_by_ensures(crate::order::lex_leq());
    }
    let mut k: usize = 0;
    while k < names.len()
        invariant
            k <= names@.len(),
            views(names@) == ns,
            ns == sort_keys(keys_of(p.apps@)),
            ns.to_multiset() == keys_of(p.apps@).to_multiset(),
            blocks == Seq::new(ns.len(), |j: int| app_block(*p, ex, pn@, ns[j])),
            ex == views(expanded@),
            item_views(items@) == mid + blocks.subrange(0, k as int).flatten(),
        decreases names@.len() - k,
    {
        proof {
            broadcast use vstd::seq_lib::group_to_multiset_ensures;
            assert(ns[k as int] == names@[k as int]@);
            assert(ns.contains(ns[k as int]));
            assert(ns.to_multiset().count(ns[k as int]) > 0);
            assert(keys_of(p.apps@).contains(ns[k as int]));
            let j = choose|j: int| 0 <= j < keys_of(p.apps@).len() && keys_of(p.apps@)[j] == ns[k as int];
            assert(p.apps@[j].0@ == ns[k as int]);
        }
        let ghost prev = item_views(items@);
        push_app_block(items, p, expanded, pn, names[k].as_str());
        proof {
            assert(blocks.subrange(0, k + 1) =~= blocks.subrange(0, k as int).push(blocks[k as int]));
            blocks.subrange(0, k as int).lemma_flatten_push(blocks[k as int]);
        }
        k = k + 1;
    }
    assert(blocks.subrange(0, blocks.len() as int) =~= blocks);
    assert(item_views(items@) =~= item_views(old(items)@) + project_block(*c, ex, pn@));
}

/// The sidebar rows visible for a configuration and the set of expanded
/// paths: projects in name order; under an expanded project its apps in
/// name order; under an expanded app its terminal and then its
/// sub-commands in name order.
pub fn build_visible_tree(config: &FrostConfig, expanded: &Vec<String>) -> (items: Vec<TreeItem>)
    requires
        config.wf(),
    ensures
        item_views(items@) == visible_tree(*config, views(expanded@)),
{
    let ghost ex = views(expanded@);
    let mut items: Vec<TreeItem> = Vec::new();
    let names = sorted_strings(&entry_keys(&config.projects));
    let ghost ns = sort_keys(keys_of(config.projects@));
    let ghost blocks = Seq::new(ns.len(), |j: int| project_block(*config, ex, ns[j]));
    proof {
        crate::order::lemma_lex_total_ordering();
        keys_of(config.projects@).lemma_sort_by_ensures(crate::order::lex_leq());
        assert(item_views(items@) =~= blocks.subrange(0, 0).flatten());
    }
    let mut k: usize = 0;
    while k < names.len()
        invariant
            k <= names@.len(),
            views(names@) == ns,
            ns == sort_keys(keys_of(config.projects@)),
            ns.to_multiset() == keys_of(config.projects@).to_multiset(),
            blocks == Seq::new(ns.len(), |j: int| project_block(*config, ex, ns[j])),
            ex == views(expanded@),
            item_views(items@) == blocks.subrange(0, k as int).flatten(),
        decreases names@.len() - k,
    {
        proof {
            broadcast use vstd::seq_lib::group_to_multiset_ensures;
            assert(ns[k as int] == names@[k as int]@);
            assert(ns.contains(ns[k as int]));
            assert(ns.to_multiset().count(ns[k as int]) > 0);
            assert(keys_of(config.projects@).contains(ns[k as int]));
            let j = choose|j: int| 0 <= j < keys_of(config.projects@).len() && keys_of(config.projects@)[j] == ns[k as int];
            assert(config.projects@[j].0@ == ns[k as int]);
        }
        push_project_block(&mut items, config, expanded, names[k].as_str());
        proof {
            assert(blocks.subrange(0, k + 1) =~= blocks.subrange(0, k as int).push(blocks[k as int]));
            blocks.subrange(0, k as int).lemma_flatten_push(blocks[k as int]);
        }
        k = k + 1;
    }
    assert(blocks.subrange(0, blocks.len() as int) =~= blocks);
    items
}

} // verus!
