use vstd::prelude::*;

verus! {

/// One jail as reported by the management API.
pub struct Entity {
    pub id: String,
    pub address: String,
}

/// An installed plugin; it belongs to the jail whose id equals its name.
pub struct Plugin {
    pub name: String,
    pub repository_url: String,
    pub admin_portal_urls: Vec<String>,
}

/// What the dashboard shows for one jail.
pub struct ViewRecord {
    pub address: String,
    pub admin_url: Option<String>,
    pub icon_url: Option<String>,
}

pub ghost struct EntityView {
    pub id: Seq<char>,
    pub address: Seq<char>,
}

pub ghost struct PluginView {
    pub name: Seq<char>,
    pub repository_url: Seq<char>,
    pub admin_portal_urls: Seq<Seq<char>>,
}

pub ghost struct RecordView {
    pub address: Seq<char>,
    pub admin_url: Option<Seq<char>>,
    pub icon_url: Option<Seq<char>>,
}

pub open spec fn opt_view(o: Option<String>) -> Option<Seq<char>> {
    match o {
        Some(s) => Some(s@),
        None => None,
    }
}

pub open spec fn strings_view(v: Seq<String>) -> Seq<Seq<char>> {
    v.map_values(|s: String| s@)
}

impl View for Entity {
    type V = EntityView;

    open spec fn view(&self) -> EntityView {
        EntityView { id: self.id@, address: self.address@ }
    }
}

impl View for Plugin {
    type V = PluginView;

    open spec fn view(&self) -> PluginView {
        PluginView {
            name: self.name@,
            repository_url: self.repository_url@,
            admin_portal_urls: strings_view(self.admin_portal_urls@),
        }
    }
}

impl View for ViewRecord {
    type V = RecordView;

    open spec fn view(&self) -> RecordView {
        RecordView {
            address: self.address@,
            admin_url: opt_view(self.admin_url),
            icon_url: opt_view(self.icon_url),
        }
    }
}

/// The views of a list of entities.
pub open spec fn entities_view(v: Seq<Entity>) -> Seq<EntityView> {
    v.map_values(|e: Entity| e@)
}

/// The views of a list of plugins.
pub open spec fn plugins_view(v: Seq<Plugin>) -> Seq<PluginView> {
    v.map_values(|p: Plugin| p@)
}

pub(crate) fn copy_opt_string(o: &Option<String>) -> (r: Option<String>)
    ensures
        opt_view(r) == opt_view(*o),
{
    match o {
        Some(s) => Some(s.clone()),
        None => None,
    }
}

impl Entity {
    pub fn new(id: String, address: String) -> (r: Entity)
        ensures
            r.id == id,
            r.address == address,
    {
        Entity { id, address }
    }
}

impl Plugin {
    pub fn new(name: String, repository_url: String, admin_portal_urls: Vec<String>) -> (r: Plugin)
        ensures
            r.name == name,
            r.repository_url == repository_url,
            r.admin_portal_urls == admin_portal_urls,
    {
        Plugin { name, repository_url, admin_portal_urls }
    }
}

impl ViewRecord {
    /// A field-by-field copy.
    pub fn copy(&self) -> (r: ViewRecord)
        ensures
            r@ == self@,
    {
        ViewRecord {
            address: self.address.clone(),
            admin_url: copy_opt_string(&self.admin_url),
            icon_url: copy_opt_string(&self.icon_url),
        }
    }
}

} // verus!
