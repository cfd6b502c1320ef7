//! An installed provider that is run to transcribe.
use crate::asr::{
    AsrCapabilities, AsrProvider, LiveAsrProvider, LiveCapabilities, ProviderCapabilities,
};
use crate::cli::args::AsrBackend;
use crate::cli::profile::InstalledProvider;
#[allow(unused_imports)]
use crate::cli::profile::InstalledView;
use crate::cli::provider;
use crate::text;
use vstd::prelude::*;

verus! {

pub struct ExternalProvider {
    pub package: InstalledProvider,
}

impl ExternalProvider {
    /// What its process finds in its environment: who it is, and where it stands.
    pub fn environment(&self) -> (r: Vec<(&'static str, String)>)
        ensures
            r@.len() == 2,
            r@[0].0@ == "DICTA_PROVIDER_ID"@,
            r@[0].1@ == self.package@.manifest.id,
            r@[1].0@ == "DICTA_PROVIDER_ROOT"@,
            r@[1].1@ == self.package@.shown_root,
    {
        let mut r: Vec<(&'static str, String)> = Vec::new();
        r.push(("DICTA_PROVIDER_ID", text::copy(self.package.id())));
        r.push(("DICTA_PROVIDER_ROOT", text::copy(self.package.shown_root.as_str())));
        r
    }
}

impl AsrProvider for ExternalProvider {
    open spec fn called(&self) -> Seq<char> {
        "external-provider"@
    }

    open spec fn offers(&self) -> AsrCapabilities {
        self.package@.batch()
    }

    fn name(&self) -> &'static str {
        "external-provider"
    }

    fn capabilities(&self) -> AsrCapabilities {
        self.package.capabilities().batch
    }

    fn provider_capabilities(&self) -> (r: ProviderCapabilities)
        ensures
            r.live == self.package@.live(),
            text::texts(r.notes@) == self.package@.manifest.notes,
    {
        self.package.capabilities()
    }
}

impl LiveAsrProvider for ExternalProvider {
    open spec fn called_live(&self) -> Seq<char> {
        "external-provider"@
    }

    open spec fn offers_live(&self) -> LiveCapabilities {
        match self.package@.live() {
            Some(live) => live,
            None => provider::no_live(),
        }
    }

    fn live_name(&self) -> &'static str {
        "external-provider"
    }

    fn live_capabilities(&self) -> LiveCapabilities {
        match self.package.capabilities().live {
            Some(live) => live,
            None => provider::live_capabilities_for_backend(AsrBackend::External),
        }
    }
}

} // verus!
