//! The store and its builder.

use crate::error::{
    from_client, object_store_err, told_apart, to_object_store_err, FileError, StoreError,
};
use crate::meta::text_of;
use std::collections::HashMap;
use vstd::prelude::*;

verus! {

/// The client of the file system.
#[verifier::external_type_specification]
#[verifier::external_body]
pub struct ExClient(hdfs_native::Client);

/// A handle of a runtime for asynchronous tasks.
#[verifier::external_type_specification]
#[verifier::external_body]
pub struct ExHandle(tokio::runtime::Handle);

/// Builder for an [`HdfsObjectStore`].
#[derive(Debug)]
pub struct HdfsObjectStoreBuilder {
    url: Option<String>,
    config: Option<HashMap<String, String>>,
    io_runtime: Option<tokio::runtime::Handle>,
}

/// What a builder was told.
pub struct Settings {
    /// The address of a name node or a name service.
    pub url: Option<Seq<char>>,
    /// The settings that override those of the configuration files.
    pub config: Option<Map<String, String>>,
    /// The runtime for tasks and input and output.
    pub io_runtime: Option<tokio::runtime::Handle>,
}

impl Settings {
    /// No settings at all.
    pub open spec fn none() -> Settings {
        Settings { url: None, config: None, io_runtime: None }
    }

    /// These settings with another address.
    pub open spec fn with_url(self, url: Seq<char>) -> Settings {
        Settings { url: Some(url), ..self }
    }

    /// These settings with other overrides of the configuration files.
    pub open spec fn with_config(self, config: Map<String, String>) -> Settings {
        Settings { config: Some(config), ..self }
    }

    /// These settings with another runtime.
    pub open spec fn with_io_runtime(self, runtime: tokio::runtime::Handle) -> Settings {
        Settings { io_runtime: Some(runtime), ..self }
    }
}

/// A builder keeps what it was told: each setting is what it was last set to,
/// whatever else was set before or afterwards, and a setting that was not made is
/// missing.
pub proof fn law_settings_are_kept(
    settings: Settings,
    url: Seq<char>,
    other_url: Seq<char>,
    config: Map<String, String>,
    runtime: tokio::runtime::Handle,
)
    ensures
        Settings::none().url is None,
        Settings::none().config is None,
        Settings::none().io_runtime is None,
        settings.with_url(url).url == Some(url),
        settings.with_url(url).config == settings.config,
        settings.with_url(url).io_runtime == settings.io_runtime,
        settings.with_config(config).url == settings.url,
        settings.with_config(config).config == Some(config),
        settings.with_config(config).io_runtime == settings.io_runtime,
        settings.with_io_runtime(runtime).url == settings.url,
        settings.with_io_runtime(runtime).config == settings.config,
        settings.with_io_runtime(runtime).io_runtime == Some(runtime),
        settings.with_url(url).with_url(other_url) == settings.with_url(other_url),
        settings.with_url(url).with_config(config) == settings.with_config(config).with_url(url),
        settings.with_url(url).with_io_runtime(runtime) == settings.with_io_runtime(
            runtime,
        ).with_url(url),
        settings.with_config(config).with_io_runtime(runtime) == settings.with_io_runtime(
            runtime,
        ).with_config(config),
{
}

impl View for HdfsObjectStoreBuilder {
    type V = Settings;

    closed spec fn view(&self) -> Settings {
        Settings {
            url: text_of(self.url),
            config: match self.config {
                Some(config) => Some(config@),
                None => None,
            },
            io_runtime: self.io_runtime,
        }
    }
}

impl Default for HdfsObjectStoreBuilder {
    fn default() -> (builder: HdfsObjectStoreBuilder)
        ensures
            builder@ == Settings::none(),
    {
        HdfsObjectStoreBuilder { url: None, config: None, io_runtime: None }
    }
}

/// `outcome` is one that building a client with these settings may have. It
/// depends on the environment and on the configuration files of the machine
/// too, so the same settings may have many outcomes.
pub uninterp spec fn may_build(
    url: Option<Seq<char>>,
    config: Option<Map<String, String>>,
    io_runtime: Option<tokio::runtime::Handle>,
    outcome: Result<hdfs_native::Client, hdfs_native::HdfsError>,
) -> bool;

/// Calls `hdfs_native::ClientBuilder::build` on a builder that was told these
/// settings and no others.
///
/// Claimed of it: nothing but that the outcome is one of building with these
/// settings. Whether that succeeds depends on the environment and on the
/// configuration files of the machine.
#[verifier::external_body]
fn build_client(
    url: Option<String>,
    config: Option<HashMap<String, String>>,
    io_runtime: &Option<tokio::runtime::Handle>,
) -> (r: Result<hdfs_native::Client, hdfs_native::HdfsError>)
    ensures
        may_build(
            text_of(url),
            match config {
                Some(map) => Some(map@),
                None => None,
            },
            *io_runtime,
            r,
        ),
{
    let mut builder = hdfs_native::ClientBuilder::new();
    if let Some(url) = url {
        builder = builder.with_url(url);
    }
    if let Some(config) = config {
        builder = builder.with_config(config);
    }
    if let Some(io_runtime) = io_runtime {
        builder = builder.with_io_runtime(io_runtime.clone());
    }
    builder.build()
}

impl Settings {
    /// `r` is what building a store with these settings may end with: the
    /// store over the client that was built, with the runtime that was set, or
    /// the error of the store for the error of the client.
    pub open spec fn may_end_with(self, r: Result<HdfsObjectStore, StoreError>) -> bool {
        exists|outcome: Result<hdfs_native::Client, hdfs_native::HdfsError>|
            {
                &&& #[trigger] may_build(self.url, self.config, self.io_runtime, outcome)
                &&& match outcome {
                    Ok(client) => {
                        &&& r matches Ok(store)
                        &&& store@ == (StoreView { client, io_runtime: self.io_runtime })
                    },
                    Err(e) => r matches Err(error) && error@ == object_store_err(told_apart(e)),
                }
            }
    }
}

/// A store that was built is over a client that was built with the same
/// settings, and keeps the runtime that was set; where no client could be built,
/// the error is what the failure of the client becomes.
pub proof fn law_built_store_has_its_settings(
    settings: Settings,
    r: Result<HdfsObjectStore, StoreError>,
)
    requires
        settings.may_end_with(r),
    ensures
        match r {
            Ok(store) => {
                &&& may_build(
                    settings.url,
                    settings.config,
                    settings.io_runtime,
                    Ok(store@.client),
                )
                &&& store@.io_runtime == settings.io_runtime
            },
            Err(error) => exists|e: hdfs_native::HdfsError|
                {
                    &&& #[trigger] may_build(
                        settings.url,
                        settings.config,
                        settings.io_runtime,
                        Err(e),
                    )
                    &&& error@ == object_store_err(told_apart(e))
                },
        },
{
}

impl HdfsObjectStoreBuilder {
    /// A builder that was told nothing.
    pub fn new() -> (builder: HdfsObjectStoreBuilder)
        ensures
            builder@ == Settings::none(),
    {
        HdfsObjectStoreBuilder::default()
    }

    /// Sets the address to connect to: that of one name node, or a logical
    /// name service.
    pub fn with_url(self, url: String) -> (builder: HdfsObjectStoreBuilder)
        ensures
            builder@ == self@.with_url(url@),
    {
        HdfsObjectStoreBuilder { url: Some(url), config: self.config, io_runtime: self.io_runtime }
    }

    /// Sets what overrides the configuration files.
    pub fn with_config(self, config: HashMap<String, String>) -> (builder: HdfsObjectStoreBuilder)
        ensures
            builder@ == self@.with_config(config@),
    {
        HdfsObjectStoreBuilder {
            url: self.url,
            config: Some(config),
            io_runtime: self.io_runtime,
        }
    }

    /// Sets the runtime for tasks and for input and output.
    pub fn with_io_runtime(self, runtime: tokio::runtime::Handle) -> (builder:
        HdfsObjectStoreBuilder)
        ensures
            builder@ == self@.with_io_runtime(runtime),
    {
        HdfsObjectStoreBuilder { url: self.url, config: self.config, io_runtime: Some(runtime) }
    }

    /// Builds the store.
    pub fn build(self) -> (r: Result<HdfsObjectStore, StoreError>)
        ensures
            self@.may_end_with(r),
    {
        let outcome = build_client(self.url, self.config, &self.io_runtime);
        HdfsObjectStore::from_client(from_client(outcome), self.io_runtime)
    }
}

/// A store whose objects are the files of a distributed file system.
#[derive(Debug)]
pub struct HdfsObjectStore {
    client: hdfs_native::Client,
    io_runtime: Option<tokio::runtime::Handle>,
}

pub struct StoreView {
    pub client: hdfs_native::Client,
    /// The runtime that tasks of the store are to run on, if one was set.
    pub io_runtime: Option<tokio::runtime::Handle>,
}

impl View for HdfsObjectStore {
    type V = StoreView;

    closed spec fn view(&self) -> StoreView {
        StoreView { client: self.client, io_runtime: self.io_runtime }
    }
}

impl HdfsObjectStore {
    /// A store that uses an existing client.
    pub fn new(client: hdfs_native::Client) -> (store: HdfsObjectStore)
        ensures
            store@ == (StoreView { client, io_runtime: None }),
    {
        HdfsObjectStore { client, io_runtime: None }
    }

    /// The store for a client that may have failed to come about, with the
    /// runtime that was set for it.
    pub fn from_client(
        client: Result<hdfs_native::Client, FileError>,
        io_runtime: Option<tokio::runtime::Handle>,
    ) -> (r: Result<HdfsObjectStore, StoreError>)
        ensures
            match client {
                Ok(c) => r matches Ok(store) && store@ == (StoreView { client: c, io_runtime }),
                Err(cause) => r matches Err(e) && e@ == object_store_err(cause@),
            },
    {
        match to_object_store_err(client) {
            Ok(client) => Ok(HdfsObjectStore { client, io_runtime }),
            Err(e) => Err(e),
        }
    }

    /// A store at an address.
    pub fn with_url(url: &str) -> (r: Result<HdfsObjectStore, StoreError>)
        ensures
            Settings::none().with_url(url@).may_end_with(r),
    {
        HdfsObjectStoreBuilder::new().with_url(url.to_owned()).build()
    }

    /// A store at an address, with settings that override the configuration
    /// files.
    pub fn with_config(url: &str, config: HashMap<String, String>) -> (r: Result<
        HdfsObjectStore,
        StoreError,
    >)
        ensures
            Settings::none().with_url(url@).with_config(config@).may_end_with(r),
    {
        HdfsObjectStoreBuilder::new().with_url(url.to_owned()).with_config(config).build()
    }

    /// The client of the store.
    pub fn client(&self) -> (client: &hdfs_native::Client)
        ensures
            *client == self@.client,
    {
        &self.client
    }

    /// The runtime that tasks of the store are to run on, if one was set.
    pub fn io_runtime(&self) -> (io_runtime: &Option<tokio::runtime::Handle>)
        ensures
            *io_runtime == self@.io_runtime,
    {
        &self.io_runtime
    }

    /// The name of the store.
    pub fn name(&self) -> (name: String)
        ensures
            name@ == "HdfsObjectStore"@,
    {
        "HdfsObjectStore".to_owned()
    }
}

impl From<hdfs_native::Client> for HdfsObjectStore {
    fn from(value: hdfs_native::Client) -> (store: HdfsObjectStore)
        ensures
            store@ == (StoreView { client: value, io_runtime: None }),
    {
        HdfsObjectStore { client: value, io_runtime: None }
    }
}

impl vstd::std_specs::convert::FromSpecImpl<hdfs_native::Client> for HdfsObjectStore {
    open spec fn obeys_from_spec() -> bool {
        true
    }

    closed spec fn from_spec(v: hdfs_native::Client) -> HdfsObjectStore {
        HdfsObjectStore { client: v, io_runtime: None }
    }
}

} // verus!
