//! Configuration of one resource: its path, its per-method handlers, discovery attributes,
//! observation and block-wise transfer.
use vstd::prelude::*;
use vstd::string::StringExecFns;

use crate::app::app_builder::{resolve_setting, ConfigBuilder};
use crate::app::codes::RequestType;
use crate::app::core_link::{
    comparison_text, link_text, AttrValueView, CoreLink, DiscoverableResource, LinkAttributeValue,
};
use crate::app::request_type_key::{method_index, RequestTypeKey};
use crate::app::resource_handler::{HandlerTable, ResourceHandler};

verus! {

/// The link attribute that marks a resource as observable.
pub open spec fn observable_attr_key() -> Seq<char> {
    "obs"@
}

/// Builder of a resource handled by request handlers of type `H`, observable through `O`.
pub struct ResourceBuilder<H, O> {
    path: String,
    config: ConfigBuilder,
    attributes: CoreLink,
    handlers: HandlerTable<H>,
    observable: Option<O>,
}

/// A built resource: its path, its discovery entry (when discoverable) and its handlers.
pub struct Resource<H, O> {
    pub path: String,
    pub discoverable: Option<DiscoverableResource>,
    pub handler: ResourceHandler<H, O>,
}

impl<H, O> ResourceBuilder<H, O> {
    /// The resource's path.
    pub closed spec fn path(&self) -> Seq<char> {
        self.path@
    }

    /// The resource's own settings.
    pub closed spec fn config(&self) -> ConfigBuilder {
        self.config
    }

    /// The discovery attributes, in the order they were added.
    pub closed spec fn link_attrs(&self) -> Seq<(Seq<char>, AttrValueView)> {
        self.attributes.attrs()
    }

    /// The handlers by key number (0: the catch-all handler).
    pub closed spec fn handlers(&self) -> Map<nat, H> {
        self.handlers@
    }

    /// The observable resource, when observation is enabled.
    pub closed spec fn observable_resource(&self) -> Option<O> {
        self.observable
    }

    /// Internal consistency: handler keys are held once and the link is to the path.
    pub closed spec fn wf(&self) -> bool {
        &&& self.handlers.wf()
        &&& self.attributes.path() == self.path@
    }

    /// A resource at `path` with no handlers, no attributes and default settings.
    pub fn new(path: &str) -> (r: Self)
        ensures
            r.wf(),
            r.path() == path@,
            r.config() == ConfigBuilder::unset(),
            r.link_attrs() == Seq::<(Seq<char>, AttrValueView)>::empty(),
            r.handlers() == Map::<nat, H>::empty(),
            r.observable_resource() == None::<O>,
    {
        ResourceBuilder {
            path: String::from_str(path),
            config: ConfigBuilder::new(),
            attributes: CoreLink::new(path),
            handlers: HandlerTable::new(),
            observable: None,
        }
    }

    /// Leaves this resource out of resource discovery.
    pub fn not_discoverable(self) -> (r: Self)
        requires
            self.wf(),
        ensures
            r.wf(),
            r.path() == self.path(),
            r.config() == (ConfigBuilder { discoverable: Some(false), ..self.config() }),
            r.link_attrs() == self.link_attrs(),
            r.handlers() == self.handlers(),
            r.observable_resource() == self.observable_resource(),
    {
        let mut s = self;
        s.config.discoverable = Some(false);
        s
    }

    /// Enables block-wise transfer for this resource.
    pub fn enable_block_transfer(self) -> (r: Self)
        requires
            self.wf(),
        ensures
            r.wf(),
            r.path() == self.path(),
            r.config() == (ConfigBuilder { block_transfer: Some(true), ..self.config() }),
            r.link_attrs() == self.link_attrs(),
            r.handlers() == self.handlers(),
            r.observable_resource() == self.observable_resource(),
    {
        let mut s = self;
        s.config.block_transfer = Some(true);
        s
    }

    /// Disables block-wise transfer for this resource.
    pub fn disable_block_transfer(self) -> (r: Self)
        requires
            self.wf(),
        ensures
            r.wf(),
            r.path() == self.path(),
            r.config() == (ConfigBuilder { block_transfer: Some(false), ..self.config() }),
            r.link_attrs() == self.link_attrs(),
            r.handlers() == self.handlers(),
            r.observable_resource() == self.observable_resource(),
    {
        let mut s = self;
        s.config.block_transfer = Some(false);
        s
    }

    /// Adds an attribute to the resource's discovery link.
    pub fn link_attr(self, attr_name: &str, value: LinkAttributeValue) -> (r: Self)
        requires
            self.wf(),
        ensures
            r.wf(),
            r.path() == self.path(),
            r.config() == self.config(),
            r.link_attrs() == self.link_attrs().push((attr_name@, value.view())),
            r.handlers() == self.handlers(),
            r.observable_resource() == self.observable_resource(),
    {
        let mut s = self;
        s.attributes.attr(attr_name, value);
        s
    }

    /// Sets the handler under `key`, replacing an earlier one.
    fn handler(self, key: RequestTypeKey, handler: H) -> (r: Self)
        requires
            self.wf(),
        ensures
            r.wf(),
            r.path() == self.path(),
            r.config() == self.config(),
            r.link_attrs() == self.link_attrs(),
            r.handlers() == self.handlers().insert(key@, handler),
            r.observable_resource() == self.observable_resource(),
    {
        let mut s = self;
        s.handlers.insert(key, handler);
        s
    }

    /// Sets the catch-all handler, used for methods without a handler of their own (instead of
    /// answering 4.05 Method Not Allowed).
    pub fn default_handler(self, handler: H) -> (r: Self)
        requires
            self.wf(),
        ensures
            r.wf(),
            r.path() == self.path(),
            r.config() == self.config(),
            r.link_attrs() == self.link_attrs(),
            r.handlers() == self.handlers().insert(0, handler),
            r.observable_resource() == self.observable_resource(),
    {
        self.handler(RequestTypeKey::new_match_all(), handler)
    }

    /// Sets the handler for requests of method `request_type`.
    pub fn method_handler(self, request_type: RequestType, handler: H) -> (r: Self)
        requires
            self.wf(),
        ensures
            r.wf(),
            r.path() == self.path(),
            r.config() == self.config(),
            r.link_attrs() == self.link_attrs(),
            r.handlers() == self.handlers().insert(method_index(request_type), handler),
            r.observable_resource() == self.observable_resource(),
    {
        self.handler(RequestTypeKey::from(request_type), handler)
    }

    /// Sets the handler for Get requests.
    pub fn get(self, handler: H) -> (r: Self)
        requires
            self.wf(),
        ensures
            r.wf(),
            r.path() == self.path(),
            r.config() == self.config(),
            r.link_attrs() == self.link_attrs(),
            r.handlers() == self.handlers().insert(method_index(RequestType::Get), handler),
            r.observable_resource() == self.observable_resource(),
    {
        self.method_handler(RequestType::Get, handler)
    }

    /// Sets the handler for Post requests.
    pub fn post(self, handler: H) -> (r: Self)
        requires
            self.wf(),
        ensures
            r.wf(),
            r.path() == self.path(),
            r.config() == self.config(),
            r.link_attrs() == self.link_attrs(),
            r.handlers() == self.handlers().insert(method_index(RequestType::Post), handler),
            r.observable_resource() == self.observable_resource(),
    {
        self.method_handler(RequestType::Post, handler)
    }

    /// Sets the handler for Put requests.
    pub fn put(self, handler: H) -> (r: Self)
        requires
            self.wf(),
        ensures
            r.wf(),
            r.path() == self.path(),
            r.config() == self.config(),
            r.link_attrs() == self.link_attrs(),
            r.handlers() == self.handlers().insert(method_index(RequestType::Put), handler),
            r.observable_resource() == self.observable_resource(),
    {
        self.method_handler(RequestType::Put, handler)
    }

    /// Sets the handler for Delete requests.
    pub fn delete(self, handler: H) -> (r: Self)
        requires
            self.wf(),
        ensures
            r.wf(),
            r.path() == self.path(),
            r.config() == self.config(),
            r.link_attrs() == self.link_attrs(),
            r.handlers() == self.handlers().insert(method_index(RequestType::Delete), handler),
            r.observable_resource() == self.observable_resource(),
    {
        self.method_handler(RequestType::Delete, handler)
    }

    /// Sets the handler for Fetch requests.
    pub fn fetch(self, handler: H) -> (r: Self)
        requires
            self.wf(),
        ensures
            r.wf(),
            r.path() == self.path(),
            r.config() == self.config(),
            r.link_attrs() == self.link_attrs(),
            r.handlers() == self.handlers().insert(method_index(RequestType::Fetch), handler),
            r.observable_resource() == self.observable_resource(),
    {
        self.method_handler(RequestType::Fetch, handler)
    }

    /// Sets the handler for Patch requests.
    pub fn patch(self, handler: H) -> (r: Self)
        requires
            self.wf(),
        ensures
            r.wf(),
            r.path() == self.path(),
            r.config() == self.config(),
            r.link_attrs() == self.link_attrs(),
            r.handlers() == self.handlers().insert(method_index(RequestType::Patch), handler),
            r.observable_resource() == self.observable_resource(),
    {
        self.method_handler(RequestType::Patch, handler)
    }

    /// Sets the handler for iPatch requests.
    pub fn ipatch(self, handler: H) -> (r: Self)
        requires
            self.wf(),
        ensures
            r.wf(),
            r.path() == self.path(),
            r.config() == self.config(),
            r.link_attrs() == self.link_attrs(),
            r.handlers() == self.handlers().insert(method_index(RequestType::IPatch), handler),
            r.observable_resource() == self.observable_resource(),
    {
        self.method_handler(RequestType::IPatch, handler)
    }

    /// Enables Observe (RFC 7641) for this resource with `observable`, which announces
    /// changes; the discovery link gets the `obs` attribute.
    pub fn observable(self, observable: O) -> (r: Self)
        requires
            self.wf(),
        ensures
            r.wf(),
            r.path() == self.path(),
            r.config() == self.config(),
            r.link_attrs() == self.link_attrs().push((observable_attr_key(), AttrValueView::Empty)),
            r.handlers() == self.handlers(),
            r.observable_resource() == Some(observable),
    {
        let mut s = self;
        s.observable = Some(observable);
        s.link_attr("obs", LinkAttributeValue::Empty)
    }

    /// Builds the resource under the app-wide settings `app`: a setting left unset on the
    /// resource takes the app's, and one unset on both is on (discoverable, block-wise
    /// transfer).
    pub fn build(self, app: ConfigBuilder) -> (r: Resource<H, O>)
        requires
            self.wf(),
        ensures
            is_built_from(r, self, app),
    {
        let discoverable = resolve_setting(self.config.discoverable, app.discoverable);
        let block_transfer = resolve_setting(self.config.block_transfer, app.block_transfer);
        let ghost attrs = self.attributes.attrs();
        let entry = if discoverable {
            Some(DiscoverableResource::from_link(self.attributes))
        } else {
            None
        };
        Resource {
            path: self.path,
            discoverable: entry,
            handler: ResourceHandler { handlers: self.handlers, observable: self.observable, block_transfer },
        }
    }
}

/// The discovery entry that building `b` under the app-wide settings `app` gives, as
/// (link, attribute texts): present when the resource is discoverable.
pub open spec fn entry_of<H, O>(b: ResourceBuilder<H, O>, app: ConfigBuilder) -> Option<
    (Seq<char>, Seq<(Seq<char>, Seq<char>)>),
> {
    if b.config().discoverable.unwrap_or(app.discoverable.unwrap_or(true)) {
        Some(
            (
                link_text(b.path(), b.link_attrs()),
                b.link_attrs().map_values(|p: (Seq<char>, AttrValueView)| (p.0, comparison_text(p.1))),
            ),
        )
    } else {
        None
    }
}

/// `h` holds what building `b` under the app-wide settings `app` gives: `b`'s handlers and
/// observable resource, and block-wise transfer as resolved.
pub open spec fn handler_built_from<H, O>(h: ResourceHandler<H, O>, b: ResourceBuilder<H, O>, app: ConfigBuilder) -> bool {
    &&& h.handlers.wf()
    &&& h.handlers@ == b.handlers()
    &&& h.observable == b.observable_resource()
    &&& h.block_transfer == b.config().block_transfer.unwrap_or(app.block_transfer.unwrap_or(true))
}

/// The view of an optional discovery entry.
pub open spec fn entry_view(d: Option<DiscoverableResource>) -> Option<(Seq<char>, Seq<(Seq<char>, Seq<char>)>)> {
    match d {
        Some(e) => Some(e.view()),
        None => None,
    }
}

/// `r` is what building `b` under the app-wide settings `app` gives.
pub open spec fn is_built_from<H, O>(r: Resource<H, O>, b: ResourceBuilder<H, O>, app: ConfigBuilder) -> bool {
    &&& r.path@ == b.path()
    &&& entry_view(r.discoverable) == entry_of(b, app)
    &&& handler_built_from(r.handler, b, app)
}

} // verus!
