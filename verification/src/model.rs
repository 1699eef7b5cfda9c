//! The catalog's data: databases, and the links that bind an application's
//! label to one of them.

use vstd::prelude::*;

verus! {

/// The identifier of an application: an opaque 128-bit value.
pub type AppId = u128;

/// The identity of one link: the application, the label under which it
/// refers to a database, and the application's display name where known.
#[derive(Debug, PartialEq, Eq)]
pub struct ResourceLabel {
    pub app_id: AppId,
    pub label: String,
    pub app_name: Option<String>,
}

/// The mathematical value of a [`ResourceLabel`].
pub ghost struct ResourceLabelView {
    pub app_id: AppId,
    pub label: Seq<char>,
    pub app_name: Option<Seq<char>>,
}

impl View for ResourceLabel {
    type V = ResourceLabelView;

    open spec fn view(&self) -> ResourceLabelView {
        ResourceLabelView {
            app_id: self.app_id,
            label: self.label@,
            app_name: self.app_name.deep_view(),
        }
    }
}

impl DeepView for ResourceLabel {
    type V = ResourceLabelView;

    open spec fn deep_view(&self) -> ResourceLabelView {
        self@
    }
}

impl Clone for ResourceLabel {
    fn clone(&self) -> (copy: Self)
        ensures
            copy@ == self@,
    {
        ResourceLabel {
            app_id: self.app_id,
            label: self.label.clone(),
            app_name: self.app_name.clone(),
        }
    }
}

/// A database of the account, with the links that point at it.
#[derive(Debug, PartialEq, Eq)]
pub struct Database {
    pub name: String,
    pub links: Vec<ResourceLabel>,
}

/// The mathematical value of a [`Database`].
pub ghost struct DatabaseView {
    pub name: Seq<char>,
    pub links: Seq<ResourceLabelView>,
}

impl View for Database {
    type V = DatabaseView;

    open spec fn view(&self) -> DatabaseView {
        DatabaseView { name: self.name@, links: self.links.deep_view() }
    }
}

impl DeepView for Database {
    type V = DatabaseView;

    open spec fn deep_view(&self) -> DatabaseView {
        self@
    }
}

impl Clone for Database {
    fn clone(&self) -> (copy: Self)
        ensures
            copy@ == self@,
    {
        let links = self.links.clone();
        assert(links.deep_view() =~= self.links.deep_view());
        Database { name: self.name.clone(), links }
    }
}

impl Database {
    /// A database called `name` at which `links` point.
    pub fn new(name: String, links: Vec<ResourceLabel>) -> (database: Database)
        ensures
            database@ == (DatabaseView { name: name@, links: links.deep_view() }),
    {
        Database { name, links }
    }
}

/// A link together with the database it points at.
#[derive(Debug, PartialEq, Eq)]
pub struct Link {
    pub resource_label: ResourceLabel,
    pub resource: String,
}

/// The mathematical value of a [`Link`].
pub ghost struct LinkView {
    pub resource_label: ResourceLabelView,
    pub resource: Seq<char>,
}

impl View for Link {
    type V = LinkView;

    open spec fn view(&self) -> LinkView {
        LinkView { resource_label: self.resource_label@, resource: self.resource@ }
    }
}

impl DeepView for Link {
    type V = LinkView;

    open spec fn deep_view(&self) -> LinkView {
        self@
    }
}

impl Clone for Link {
    fn clone(&self) -> (copy: Self)
        ensures
            copy@ == self@,
    {
        Link { resource_label: self.resource_label.clone(), resource: self.resource.clone() }
    }
}

/// The name shown for an application whose display name is not known.
pub const UNKNOWN_APP: &'static str = "UNKNOWN";

/// The name shown for the application of `link`.
pub open spec fn display_name(link: ResourceLabelView) -> Seq<char> {
    match link.app_name {
        Some(name) => name,
        None => UNKNOWN_APP@,
    }
}

/// The name shown for the application of `link`: its display name, or
/// `"UNKNOWN"` where it has none.
pub fn shown_name(link: &ResourceLabel) -> (name: &str)
    ensures
        name@ == display_name(link@),
{
    match &link.app_name {
        Some(name) => name.as_str(),
        None => UNKNOWN_APP,
    }
}

impl LinkView {
    /// The name shown for the link's application.
    pub open spec fn app_name(self) -> Seq<char> {
        display_name(self.resource_label)
    }
}

impl Link {
    /// The link `resource_label` on the database called `resource`.
    pub fn new(resource_label: ResourceLabel, resource: String) -> (link: Link)
        ensures
            link@ == (LinkView { resource_label: resource_label@, resource: resource@ }),
    {
        Link { resource_label, resource }
    }

    /// The application's display name, or `"UNKNOWN"` where the link carries
    /// none.
    pub fn app_name(&self) -> (name: &str)
        ensures
            name@ == self@.app_name(),
    {
        shown_name(&self.resource_label)
    }
}

} // verus!
