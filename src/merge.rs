use crate::icon::{icon_alias, icon_name, icon_url, icon_url_of, DEFAULT_ICON};
use crate::jail_map::JailMap;
use crate::model::{
    entities_view, plugins_view, Entity, EntityView, Plugin, PluginView, RecordView, ViewRecord,
};
use vstd::prelude::*;
use vstd::string::StringExecFns;

verus! {

/// One record per jail id, with the address of the last jail of that id and
/// neither admin link nor icon.
pub open spec fn seed(es: Seq<EntityView>) -> Map<Seq<char>, RecordView>
    decreases es.len(),
{
    if es.len() == 0 {
        Map::empty()
    } else {
        let e = es.last();
        seed(es.drop_last()).insert(
            e.id,
            RecordView { address: e.address, admin_url: None, icon_url: None },
        )
    }
}

/// The id of the jail that a plugin describes, among the ids of `m`: the
/// jail named like the plugin, or else the one named by the plugin's alias.
pub open spec fn target_in(m: Map<Seq<char>, RecordView>, name: Seq<char>) -> Option<Seq<char>> {
    if m.contains_key(name) {
        Some(name)
    } else if m.contains_key(icon_name(name)) {
        Some(icon_name(name))
    } else {
        None
    }
}

/// The id of the jail that a plugin describes, among the jails of a list.
pub open spec fn target_of(es: Seq<EntityView>, name: Seq<char>) -> Option<Seq<char>> {
    if has_id(es, name) {
        Some(name)
    } else if has_id(es, icon_name(name)) {
        Some(icon_name(name))
    } else {
        None
    }
}

/// A plugin with an admin portal sets the admin link and the icon of the
/// record that it describes; any other plugin changes nothing.
pub open spec fn apply_plugin(m: Map<Seq<char>, RecordView>, p: PluginView) -> Map<
    Seq<char>,
    RecordView,
> {
    match target_in(m, p.name) {
        Some(id) => if p.admin_portal_urls.len() > 0 {
            m.insert(
                id,
                RecordView {
                    address: m[id].address,
                    admin_url: Some(p.admin_portal_urls[0]),
                    icon_url: Some(icon_url_of(p.repository_url, p.name)),
                },
            )
        } else {
            m
        },
        None => m,
    }
}

/// The plugins applied one after another, in list order.
pub open spec fn apply_plugins(m: Map<Seq<char>, RecordView>, ps: Seq<PluginView>) -> Map<
    Seq<char>,
    RecordView,
>
    decreases ps.len(),
{
    if ps.len() == 0 {
        m
    } else {
        apply_plugin(apply_plugins(m, ps.drop_last()), ps.last())
    }
}

/// A record without icon gets the default one.
pub open spec fn with_default_icon(r: RecordView) -> RecordView {
    if r.icon_url is None {
        RecordView { address: r.address, admin_url: r.admin_url, icon_url: Some(DEFAULT_ICON@) }
    } else {
        r
    }
}

/// The view records of a list of jails and a list of plugins.
pub open spec fn merged(es: Seq<EntityView>, ps: Seq<PluginView>) -> Map<Seq<char>, RecordView> {
    apply_plugins(seed(es), ps).map_values(|r: RecordView| with_default_icon(r))
}

/// Some jail of the list has id `k`.
pub open spec fn has_id(es: Seq<EntityView>, k: Seq<char>) -> bool {
    exists|i: int| 0 <= i < es.len() && #[trigger] es[i].id == k
}

proof fn lemma_seed_keys(es: Seq<EntityView>)
    ensures
        forall|k: Seq<char>| seed(es).contains_key(k) <==> has_id(es, k),
    decreases es.len(),
{
    if es.len() > 0 {
        let prev = es.drop_last();
        lemma_seed_keys(prev);
        assert forall|k: Seq<char>| seed(es).contains_key(k) <==> has_id(es, k) by {
            if has_id(es, k) {
                let i = choose|i: int| 0 <= i < es.len() && #[trigger] es[i].id == k;
                if i < es.len() - 1 {
                    assert(prev[i].id == k);
                }
            }
            if has_id(prev, k) {
                let i = choose|i: int| 0 <= i < prev.len() && #[trigger] prev[i].id == k;
                assert(es[i].id == k);
            }
        }
    }
}

proof fn lemma_apply_plugins_keys(m: Map<Seq<char>, RecordView>, ps: Seq<PluginView>)
    ensures
        apply_plugins(m, ps).dom() == m.dom(),
    decreases ps.len(),
{
    if ps.len() > 0 {
        lemma_apply_plugins_keys(m, ps.drop_last());
        let prev = apply_plugins(m, ps.drop_last());
        assert(apply_plugin(prev, ps.last()).dom() =~= prev.dom());
    }
}

proof fn lemma_apply_plugins_sole(
    m: Map<Seq<char>, RecordView>,
    ps: Seq<PluginView>,
    i: int,
    x: Seq<char>,
)
    requires
        0 <= i < ps.len(),
        ps[i].admin_portal_urls.len() > 0,
        target_in(m, ps[i].name) == Some(x),
        forall|j: int|
            0 <= j < ps.len() && j != i && #[trigger] target_in(m, ps[j].name) == Some(x)
                ==> ps[j].admin_portal_urls.len() == 0,
    ensures
        apply_plugins(m, ps).contains_key(x),
        apply_plugins(m, ps)[x].admin_url == Some(ps[i].admin_portal_urls[0]),
        apply_plugins(m, ps)[x].icon_url == Some(icon_url_of(ps[i].repository_url, ps[i].name)),
    decreases ps.len(),
{
    let prev = ps.drop_last();
    lemma_apply_plugins_keys(m, prev);
    let pm = apply_plugins(m, prev);
    assert(pm.dom() == m.dom());
    assert forall|n: Seq<char>| #[trigger] target_in(pm, n) == target_in(m, n) by {
        assert(pm.contains_key(n) == m.contains_key(n));
        assert(pm.contains_key(icon_name(n)) == m.contains_key(icon_name(n)));
    }
    if i < ps.len() - 1 {
        assert forall|j: int|
            0 <= j < prev.len() && j != i && #[trigger] target_in(m, prev[j].name) == Some(x)
                implies prev[j].admin_portal_urls.len() == 0 by {
            assert(ps[j] == prev[j]);
        }
        assert(prev[i] == ps[i]);
        lemma_apply_plugins_sole(m, prev, i, x);
        let last = ps.last();
        assert(ps[ps.len() - 1] == last);
        if target_in(m, last.name) == Some(x) {
            assert(last.admin_portal_urls.len() == 0);
        }
    } else {
        assert(ps.last() == ps[i]);
        assert(target_in(pm, ps[i].name) == Some(x));
    }
}

/// The merge holds exactly one record for each id that occurs among the
/// jails, and none for any other id.
pub proof fn lemma_merge_one_record_per_id(es: Seq<EntityView>, ps: Seq<PluginView>)
    ensures
        forall|k: Seq<char>| #[trigger] merged(es, ps).contains_key(k) <==> has_id(es, k),
{
    lemma_seed_keys(es);
    lemma_apply_plugins_keys(seed(es), ps);
}

/// When plugin `i` describes jail `x` and has an admin portal, and no other
/// plugin with an admin portal describes `x`, the record of `x` links to the
/// first portal of plugin `i` and shows the icon derived from it, wherever
/// the plugin stands among the others.
pub proof fn lemma_merge_first_admin_portal(
    es: Seq<EntityView>,
    ps: Seq<PluginView>,
    i: int,
    x: Seq<char>,
)
    requires
        0 <= i < ps.len(),
        ps[i].admin_portal_urls.len() > 0,
        target_of(es, ps[i].name) == Some(x),
        forall|j: int|
            0 <= j < ps.len() && j != i && #[trigger] target_of(es, ps[j].name) == Some(x)
                ==> ps[j].admin_portal_urls.len() == 0,
    ensures
        merged(es, ps).contains_key(x),
        merged(es, ps)[x].admin_url == Some(ps[i].admin_portal_urls[0]),
        merged(es, ps)[x].icon_url == Some(icon_url_of(ps[i].repository_url, ps[i].name)),
{
    lemma_seed_keys(es);
    let m = seed(es);
    assert forall|n: Seq<char>| #[trigger] target_in(m, n) == target_of(es, n) by {
        assert(m.contains_key(n) == has_id(es, n));
        assert(m.contains_key(icon_name(n)) == has_id(es, icon_name(n)));
    }
    lemma_apply_plugins_sole(m, ps, i, x);
}

proof fn lemma_seed_bare(es: Seq<EntityView>, k: Seq<char>)
    requires
        seed(es).contains_key(k),
    ensures
        seed(es)[k].admin_url is None,
        seed(es)[k].icon_url is None,
    decreases es.len(),
{
    if es.len() > 0 && es.last().id != k {
        lemma_seed_bare(es.drop_last(), k);
    }
}

proof fn lemma_apply_plugins_untouched(
    m: Map<Seq<char>, RecordView>,
    ps: Seq<PluginView>,
    x: Seq<char>,
)
    requires
        m.contains_key(x),
        forall|j: int|
            0 <= j < ps.len() && #[trigger] ps[j].admin_portal_urls.len() > 0 ==> target_in(
                m,
                ps[j].name,
            ) != Some(x),
    ensures
        apply_plugins(m, ps).contains_key(x),
        apply_plugins(m, ps)[x] == m[x],
    decreases ps.len(),
{
    if ps.len() > 0 {
        let prev = ps.drop_last();
        assert forall|j: int|
            0 <= j < prev.len() && #[trigger] prev[j].admin_portal_urls.len() > 0 implies target_in(
                m,
                prev[j].name,
            ) != Some(x) by {
            assert(ps[j] == prev[j]);
        }
        lemma_apply_plugins_untouched(m, prev, x);
        lemma_apply_plugins_keys(m, prev);
        let pm = apply_plugins(m, prev);
        let last = ps.last();
        assert(ps[ps.len() - 1] == last);
        assert(pm.contains_key(last.name) == m.contains_key(last.name));
        assert(pm.contains_key(icon_name(last.name)) == m.contains_key(icon_name(last.name)));
        assert(target_in(pm, last.name) == target_in(m, last.name));
    }
}

/// A jail that no plugin with an admin portal describes keeps the address
/// of its last occurrence among the jails, has no admin link and shows the
/// default icon.
pub proof fn lemma_merge_unmatched_jail(es: Seq<EntityView>, ps: Seq<PluginView>, x: Seq<char>)
    requires
        has_id(es, x),
        forall|j: int|
            0 <= j < ps.len() && #[trigger] ps[j].admin_portal_urls.len() > 0 ==> target_of(
                es,
                ps[j].name,
            ) != Some(x),
    ensures
        merged(es, ps).contains_key(x),
        merged(es, ps)[x] == (RecordView {
            address: seed(es)[x].address,
            admin_url: None,
            icon_url: Some(DEFAULT_ICON@),
        }),
{
    lemma_seed_keys(es);
    let m = seed(es);
    assert forall|n: Seq<char>| #[trigger] target_in(m, n) == target_of(es, n) by {
        assert(m.contains_key(n) == has_id(es, n));
        assert(m.contains_key(icon_name(n)) == has_id(es, icon_name(n)));
    }
    lemma_seed_bare(es, x);
    lemma_apply_plugins_untouched(m, ps, x);
}

/// Every record of a merge has an icon.
pub proof fn lemma_merge_every_icon_set(es: Seq<EntityView>, ps: Seq<PluginView>)
    ensures
        forall|k: Seq<char>| #[trigger] merged(es, ps).contains_key(k) ==> merged(es, ps)[k].icon_url is Some,
{
}

/// Merges the jails and the plugins of one poll into the view records.
pub fn merge(entities: &Vec<Entity>, plugins: &Vec<Plugin>) -> (r: JailMap)
    ensures
        r.wf(),
        r@ == merged(entities_view(entities@), plugins_view(plugins@)),
{
    let ghost ev = entities_view(entities@);
    let ghost pv = plugins_view(plugins@);
    let mut m = JailMap::new();
    let mut i: usize = 0;
    while i < entities.len()
        invariant
            ev == entities_view(entities@),
            i <= entities@.len(),
            m.wf(),
            m@ == seed(ev.take(i as int)),
        decreases entities@.len() - i,
    {
        let e = &entities[i];
        let rec = ViewRecord { address: e.address.clone(), admin_url: None, icon_url: None };
        m.insert(e.id.clone(), rec);
        assert(ev.take(i + 1).drop_last() =~= ev.take(i as int));
        i = i + 1;
    }
    assert(ev.take(i as int) =~= ev);
    let ghost seeded = m@;
    let mut i: usize = 0;
    while i < plugins.len()
        invariant
            pv == plugins_view(plugins@),
            i <= plugins@.len(),
            m.wf(),
            m@ == apply_plugins(seeded, pv.take(i as int)),
        decreases plugins@.len() - i,
    {
        let p = &plugins[i];
        assert(pv.take(i + 1).drop_last() =~= pv.take(i as int));
        if p.admin_portal_urls.len() > 0 {
            let found = match m.find(p.name.as_str()) {
                Some(idx) => Some(idx),
                None => {
                    let alias = icon_alias(p.name.as_str());
                    m.find(alias.as_str())
                },
            };
            match found {
                Some(idx) => {
                    proof { m.lemma_entry(idx as int); }
                    let rec = ViewRecord {
                        address: m.entries[idx].1.address.clone(),
                        admin_url: Some(p.admin_portal_urls[0].clone()),
                        icon_url: Some(icon_url(p.repository_url.as_str(), p.name.as_str())),
                    };
                    m.set_at(idx, rec);
                },
                None => {},
            }
        }
        i = i + 1;
    }
    assert(pv.take(i as int) =~= pv);
    fill_default_icons(&mut m);
    m
}

/// Gives every record without icon the default one.
fn fill_default_icons(m: &mut JailMap)
    requires
        old(m).wf(),
    ensures
        final(m).wf(),
        final(m)@ == old(m)@.map_values(|r: RecordView| with_default_icon(r)),
{
    let ghost pre = *m;
    let mut i: usize = 0;
    while i < m.entries.len()
        invariant
            m.wf(),
            pre.wf(),
            i <= m.entries@.len(),
            m.entries@.len() == pre.entries@.len(),
            forall|j: int| 0 <= j < m.entries@.len() ==> #[trigger] m.key(j) == pre.key(j),
            forall|j: int| 0 <= j < i ==> #[trigger] m.rec(j) == with_default_icon(pre.rec(j)),
            forall|j: int| i <= j < m.entries@.len() ==> #[trigger] m.rec(j) == pre.rec(j),
        decreases m.entries@.len() - i,
    {
        if m.entries[i].1.icon_url.is_none() {
            let r = &m.entries[i].1;
            let rec = ViewRecord {
                address: r.address.clone(),
                admin_url: crate::model::copy_opt_string(&r.admin_url),
                icon_url: Some(String::from_str(DEFAULT_ICON)),
            };
            m.set_at(i, rec);
        }
        i = i + 1;
    }
    proof {
        let target = pre@.map_values(|r: RecordView| with_default_icon(r));
        assert forall|q: Seq<char>| #[trigger] m@.contains_key(q) <==> target.contains_key(q) by {
            if m@.contains_key(q) {
                let j = choose|j: int| 0 <= j < m.entries@.len() && m.key(j) == q;
                pre.lemma_entry(j);
            }
            if pre@.contains_key(q) {
                let j = choose|j: int| 0 <= j < pre.entries@.len() && pre.key(j) == q;
                m.lemma_entry(j);
            }
        }
        assert forall|q: Seq<char>| #[trigger] m@.contains_key(q) implies m@[q] == target[q] by {
            let j = choose|j: int| 0 <= j < m.entries@.len() && m.key(j) == q;
            m.lemma_entry(j);
            pre.lemma_entry(j);
            assert(m.key(j) == pre.key(j));
            assert(m.rec(j) == with_default_icon(pre.rec(j)));
        }
        assert(m@ =~= target);
    }
}

} // verus!
