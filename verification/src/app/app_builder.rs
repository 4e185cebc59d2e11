//! The application builder: app-wide settings and the resources to serve.
use vstd::prelude::*;

use crate::app::core_link::DiscoverableResource;
use crate::app::resource_builder::{entry_of, handler_built_from, Resource, ResourceBuilder};
use crate::app::resource_handler::ResourceHandler;

verus! {

/// Settings that are either chosen (`Some`) or left to a default (`None`).
#[derive(Debug, Copy, Clone, PartialEq, Eq, Structural)]
pub struct ConfigBuilder {
    pub discoverable: Option<bool>,
    pub block_transfer: Option<bool>,
}

impl ConfigBuilder {
    /// Nothing chosen.
    pub open spec fn unset() -> ConfigBuilder {
        ConfigBuilder { discoverable: None, block_transfer: None }
    }

    /// Nothing chosen.
    pub fn new() -> (r: Self)
        ensures
            r == Self::unset(),
    {
        ConfigBuilder { discoverable: None, block_transfer: None }
    }
}

/// A resource's setting: its own choice, else the app's, else on.
pub fn resolve_setting(own: Option<bool>, app: Option<bool>) -> (r: bool)
    ensures
        r == own.unwrap_or(app.unwrap_or(true)),
{
    match own {
        Some(v) => v,
        None => match app {
            Some(v) => v,
            None => true,
        },
    }
}

/// Builder of the application: app-wide settings and the resources, in the order added.
pub struct AppBuilder<H, O> {
    config: ConfigBuilder,
    resources: Vec<ResourceBuilder<H, O>>,
}

/// What building the app's resources gives: each resource's path and handler, the discovery
/// entries of the discoverable ones (in order), and whether `/.well-known/core` is served.
pub struct AppResources<H, O> {
    pub handlers: Vec<(String, ResourceHandler<H, O>)>,
    pub discoverable: Vec<DiscoverableResource>,
    pub serve_core: bool,
}

/// The discovery entries that building `bs` under `app` gives, in order.
pub open spec fn discovery_entries<H, O>(bs: Seq<ResourceBuilder<H, O>>, app: ConfigBuilder) -> Seq<
    (Seq<char>, Seq<(Seq<char>, Seq<char>)>),
>
    decreases bs.len(),
{
    if bs.len() == 0 {
        Seq::empty()
    } else {
        match entry_of(bs.last(), app) {
            Some(e) => discovery_entries(bs.drop_last(), app).push(e),
            None => discovery_entries(bs.drop_last(), app),
        }
    }
}

/// The views of discovery entries.
pub open spec fn entry_views(ds: Seq<DiscoverableResource>) -> Seq<(Seq<char>, Seq<(Seq<char>, Seq<char>)>)> {
    ds.map_values(|d: DiscoverableResource| d.view())
}

impl<H, O> AppBuilder<H, O> {
    /// The app-wide settings.
    pub closed spec fn config(&self) -> ConfigBuilder {
        self.config
    }

    /// The resources, in the order they were added.
    pub closed spec fn resource_list(&self) -> Seq<ResourceBuilder<H, O>> {
        self.resources@
    }

    /// Every resource builder is internally consistent.
    pub open spec fn wf(&self) -> bool {
        forall|i: int| 0 <= i < self.resource_list().len() ==> #[trigger] self.resource_list()[i].wf()
    }

    /// The app-wide settings.
    pub fn settings(&self) -> (r: ConfigBuilder)
        ensures
            r == self.config(),
    {
        self.config
    }

    /// An app without resources and with default settings.
    pub fn new() -> (r: Self)
        ensures
            r.wf(),
            r.config() == ConfigBuilder::unset(),
            r.resource_list() == Seq::<ResourceBuilder<H, O>>::empty(),
    {
        AppBuilder { config: ConfigBuilder::new(), resources: Vec::new() }
    }

    /// Makes resources discoverable unless they opt out, and serves `/.well-known/core`
    /// (RFC 5785).  This is also the default.
    pub fn discoverable(self) -> (r: Self)
        ensures
            r.config() == (ConfigBuilder { discoverable: Some(true), ..self.config() }),
            r.resource_list() == self.resource_list(),
    {
        let mut s = self;
        s.config.discoverable = Some(true);
        s
    }

    /// Makes resources undiscoverable by default and does not serve `/.well-known/core`.
    pub fn not_discoverable(self) -> (r: Self)
        ensures
            r.config() == (ConfigBuilder { discoverable: Some(false), ..self.config() }),
            r.resource_list() == self.resource_list(),
    {
        let mut s = self;
        s.config.discoverable = Some(false);
        s
    }

    /// Enables block-wise transfer (RFC 7959) for resources that do not choose otherwise.
    /// This is also the default.
    pub fn block_transfer(self) -> (r: Self)
        ensures
            r.config() == (ConfigBuilder { block_transfer: Some(true), ..self.config() }),
            r.resource_list() == self.resource_list(),
    {
        let mut s = self;
        s.config.block_transfer = Some(true);
        s
    }

    /// Disables block-wise transfer for resources that do not choose otherwise.
    pub fn disable_block_transfer(self) -> (r: Self)
        ensures
            r.config() == (ConfigBuilder { block_transfer: Some(false), ..self.config() }),
            r.resource_list() == self.resource_list(),
    {
        let mut s = self;
        s.config.block_transfer = Some(false);
        s
    }

    /// Adds a resource.
    pub fn resource(self, resource: ResourceBuilder<H, O>) -> (r: Self)
        requires
            self.wf(),
            resource.wf(),
        ensures
            r.wf(),
            r.config() == self.config(),
            r.resource_list() == self.resource_list().push(resource),
    {
        let mut s = self;
        s.resources.push(resource);
        assert forall|i: int| 0 <= i < s.resource_list().len() implies #[trigger] s.resource_list()[i].wf() by {
            if i < self.resource_list().len() {
                assert(s.resource_list()[i] == self.resource_list()[i]);
            }
        }
        s
    }

    /// Adds several resources, in order.
    pub fn resources(self, resources: Vec<ResourceBuilder<H, O>>) -> (r: Self)
        requires
            self.wf(),
            forall|i: int| 0 <= i < resources@.len() ==> #[trigger] resources@[i].wf(),
        ensures
            r.wf(),
            r.config() == self.config(),
            r.resource_list() == self.resource_list() + resources@,
    {
        let ghost added = resources@;
        let mut s = self;
        let mut rest = resources;
        let mut taken: Vec<ResourceBuilder<H, O>> = Vec::new();
        while rest.len() > 0
            invariant
                rest@ + taken@.reverse() == added,
            decreases rest@.len(),
        {
            let ghost before = rest@;
            let b = rest.pop().unwrap();
            assert(before =~= rest@.push(b));
            taken.push(b);
            assert(taken@.reverse() =~= seq![b] + taken@.drop_last().reverse());
            assert(rest@ + taken@.reverse() =~= before + taken@.drop_last().reverse());
        }
        assert(taken@.reverse() =~= added);
        let ghost mut i: int = 0;
        let ghost start = s.resources@;
        while taken.len() > 0
            invariant
                s.wf(),
                s.config() == self.config(),
                0 <= i <= added.len(),
                taken@.len() == added.len() - i,
                taken@.reverse() == added.skip(i as int),
                s.resource_list() == start + added.take(i as int),
                forall|j: int| 0 <= j < added.len() ==> #[trigger] added[j].wf(),
            decreases taken@.len(),
        {
            let ghost before = taken@;
            let b = taken.pop().unwrap();
            assert(before.reverse()[0] == b);
            assert(added.skip(i as int)[0] == added[i as int]);
            assert(taken@.reverse() =~= added.skip(i as int + 1)) by {
                assert(before.reverse().drop_first() =~= taken@.reverse());
                assert(added.skip(i as int).drop_first() =~= added.skip(i as int + 1));
            }
            s = s.resource(b);
            assert(added.take(i as int + 1) =~= added.take(i as int).push(b));
            proof {
                i = i + 1;
            }
        }
        assert(added.take(i as int) =~= added);
        s
    }

    /// Builds every resource under the app-wide settings, collects the discovery entries of
    /// the discoverable ones, and tells whether `/.well-known/core` is served (unless the app
    /// is made undiscoverable).
    pub fn build_resources(self) -> (r: AppResources<H, O>)
        requires
            self.wf(),
        ensures
            r.handlers@.len() == self.resource_list().len(),
            forall|i: int|
                0 <= i < r.handlers@.len() ==> {
                    &&& (#[trigger] r.handlers@[i]).0@ == self.resource_list()[i].path()
                    &&& handler_built_from(r.handlers@[i].1, self.resource_list()[i], self.config())
                },
            entry_views(r.discoverable@) == discovery_entries(self.resource_list(), self.config()),
            r.serve_core == self.config().discoverable.unwrap_or(true),
    {
        let config = self.config;
        let ghost all = self.resources@;
        assert forall|j: int| 0 <= j < all.len() implies #[trigger] all[j].wf() by {
            assert(all[j] == self.resource_list()[j]);
        }
        let mut rest = self.resources;
        let mut taken: Vec<ResourceBuilder<H, O>> = Vec::new();
        while rest.len() > 0
            invariant
                rest@ + taken@.reverse() == all,
                forall|j: int| 0 <= j < all.len() ==> #[trigger] all[j].wf(),
            decreases rest@.len(),
        {
            let ghost before = rest@;
            let b = rest.pop().unwrap();
            assert(before =~= rest@.push(b));
            taken.push(b);
            assert(taken@.reverse() =~= seq![b] + taken@.drop_last().reverse());
            assert(rest@ + taken@.reverse() =~= before + taken@.drop_last().reverse());
        }
        assert(taken@.reverse() =~= all);
        let mut built: Vec<(String, ResourceHandler<H, O>)> = Vec::new();
        let mut entries: Vec<DiscoverableResource> = Vec::new();
        while taken.len() > 0
            invariant
                built@.len() + taken@.len() == all.len(),
                taken@.reverse() == all.skip(built@.len() as int),
                forall|j: int| 0 <= j < all.len() ==> #[trigger] all[j].wf(),
                forall|j: int|
                    0 <= j < built@.len() ==> {
                        &&& (#[trigger] built@[j]).0@ == all[j].path()
                        &&& handler_built_from(built@[j].1, all[j], config)
                    },
                entry_views(entries@) == discovery_entries(all.take(built@.len() as int), config),
            decreases taken@.len(),
        {
            let ghost before = taken@;
            let ghost n = built@.len() as int;
            let ghost built_before = built@;
            let ghost entries_before = entries@;
            let b = taken.pop().unwrap();
            assert(before.reverse()[0] == b);
            assert(all.skip(n)[0] == all[n]);
            assert(taken@.reverse() =~= all.skip(n + 1)) by {
                assert(before.reverse().drop_first() =~= taken@.reverse());
                assert(all.skip(n).drop_first() =~= all.skip(n + 1));
            }
            assert(all.take(n + 1).drop_last() =~= all.take(n));
            assert(all.take(n + 1).last() == b);
            let res = b.build(config);
            let Resource { path, discoverable, handler } = res;
            match discoverable {
                Some(d) => {
                    entries.push(d);
                    assert(entry_views(entries@) =~= entry_views(entries_before).push(entries@.last().view()));
                },
                None => {},
            }
            built.push((path, handler));
            assert(built@.drop_last() =~= built_before);
        }
        assert(all.take(all.len() as int) =~= all);
        AppResources {
            handlers: built,
            discoverable: entries,
            serve_core: match config.discoverable {
                Some(v) => v,
                None => true,
            },
        }
    }
}

} // verus!
