//! Discovery of a cloud instance's identity and network configuration from
//! the metadata service of its platform.
//!
//! Nothing here touches the network. `fetch_metadata` picks the adapter of a
//! provider and starts its session; the caller performs each GET that the
//! session asks for and hands it the reply, until the session ends with the
//! `Metadata` or with an error.

pub mod decode;
pub mod error;
pub mod metadata;
pub mod providers;
pub mod retry;
pub mod text;

use crate::error::{FetchError, FetchErrorView};
use crate::metadata::MetadataView;
use crate::providers::ec2::{ec2_client, ec2_plan};
use crate::providers::{from_field, Turn};
use crate::text::same_text;
use vstd::prelude::*;
use vstd::string::*;

verus! {

/// The providers whose names are known.
#[derive(Debug, Clone, Copy, PartialEq, Eq, Structural)]
pub enum Provider {
    Azure,
    DigitalOcean,
    Ec2,
    Gce,
    OpenStack,
    Packet,
    VagrantVirtualbox,
}

impl Provider {
    /// The name that selects the provider.
    pub open spec fn spec_name(self) -> Seq<char> {
        match self {
            Provider::Azure => "azure"@,
            Provider::DigitalOcean => "digitalocean"@,
            Provider::Ec2 => "ec2"@,
            Provider::Gce => "gce"@,
            Provider::OpenStack => "openstack"@,
            Provider::Packet => "packet"@,
            Provider::VagrantVirtualbox => "vagrant_virtualbox"@,
        }
    }

    /// The provider that `name` selects, if it selects one.
    pub open spec fn named(name: Seq<char>) -> Option<Provider> {
        if name == "azure"@ {
            Some(Provider::Azure)
        } else if name == "digitalocean"@ {
            Some(Provider::DigitalOcean)
        } else if name == "ec2"@ {
            Some(Provider::Ec2)
        } else if name == "gce"@ {
            Some(Provider::Gce)
        } else if name == "openstack"@ {
            Some(Provider::OpenStack)
        } else if name == "packet"@ {
            Some(Provider::Packet)
        } else if name == "vagrant_virtualbox"@ {
            Some(Provider::VagrantVirtualbox)
        } else {
            None
        }
    }

    /// The name that selects the provider.
    pub fn name(self) -> (r: &'static str)
        ensures
            r@ == self.spec_name(),
    {
        match self {
            Provider::Azure => "azure",
            Provider::DigitalOcean => "digitalocean",
            Provider::Ec2 => "ec2",
            Provider::Gce => "gce",
            Provider::OpenStack => "openstack",
            Provider::Packet => "packet",
            Provider::VagrantVirtualbox => "vagrant_virtualbox",
        }
    }

    /// The provider that `name` selects, if it selects one.
    pub fn from_name(name: &str) -> (r: Option<Provider>)
        ensures
            r == Provider::named(name@),
    {
        if same_text(name, "azure") {
            Some(Provider::Azure)
        } else if same_text(name, "digitalocean") {
            Some(Provider::DigitalOcean)
        } else if same_text(name, "ec2") {
            Some(Provider::Ec2)
        } else if same_text(name, "gce") {
            Some(Provider::Gce)
        } else if same_text(name, "openstack") {
            Some(Provider::OpenStack)
        } else if same_text(name, "packet") {
            Some(Provider::Packet)
        } else if same_text(name, "vagrant_virtualbox") {
            Some(Provider::VagrantVirtualbox)
        } else {
            None
        }
    }
}

/// The adapter that a provider's name resolved to.
#[derive(Debug, PartialEq)]
pub enum Fetch {
    /// A fetch that a session of this library carries out, at its first turn.
    Session(Provider, Turn),
    /// A provider whose plan this library does not hold. The caller has it,
    /// and starts the session with `Session::start`.
    Unplanned(Provider),
}

impl Fetch {
    /// The provider that the name resolved to.
    pub open spec fn provider(self) -> Provider {
        match self {
            Fetch::Session(p, _) => p,
            Fetch::Unplanned(p) => p,
        }
    }
}

/// Whether `fetch` is what the provider `p` resolves to: for EC2 the first
/// turn of its session, for the others the provider alone.
pub open spec fn resolves_to(fetch: Fetch, p: Provider) -> bool {
    match p {
        Provider::Ec2 => fetch matches Fetch::Session(q, turn) && q == p && turn@ == from_field(
            ec2_client(),
            ec2_plan(),
            MetadataView::empty(),
            0,
        ),
        _ => fetch == Fetch::Unplanned(p),
    }
}

/// Whether `needle` occurs in `text`.
pub open spec fn occurs_in(needle: Seq<char>, text: Seq<char>) -> bool {
    exists|i: int| 0 <= i <= text.len() - needle.len() && #[trigger] text.subrange(
        i,
        i + needle.len(),
    ) == needle
}

/// Picks the adapter of the provider called `provider` and starts its fetch.
/// A name that selects no provider is an error that holds the name.
pub fn fetch_metadata(provider: &str) -> (r: Result<Fetch, FetchError>)
    ensures
        match Provider::named(provider@) {
            Some(p) => r matches Ok(fetch) && resolves_to(fetch, p),
            None => r matches Err(e) && e@ == FetchErrorView::UnknownProvider(provider@),
        },
{
    match Provider::from_name(provider) {
        Some(Provider::Ec2) => Ok(Fetch::Session(Provider::Ec2, providers::ec2::fetch_metadata())),
        Some(p) => Ok(Fetch::Unplanned(p)),
        None => Err(FetchError::UnknownProvider(String::from_str(provider))),
    }
}

/// Every provider is selected by its own name, and by no other's.
pub proof fn lemma_names_resolve(p: Provider)
    ensures
        Provider::named(p.spec_name()) == Some(p),
{
    reveal_strlit("azure");
    reveal_strlit("digitalocean");
    reveal_strlit("ec2");
    reveal_strlit("gce");
    reveal_strlit("openstack");
    reveal_strlit("packet");
    reveal_strlit("vagrant_virtualbox");
    assert("azure"@.len() == 5);
    assert("digitalocean"@.len() == 12);
    assert("ec2"@.len() == 3);
    assert("gce"@.len() == 3);
    assert("ec2"@[0] == 'e');
    assert("gce"@[0] == 'g');
    assert("openstack"@.len() == 9);
    assert("packet"@.len() == 6);
    assert("vagrant_virtualbox"@.len() == 18);
}

/// A name that selects no provider stands, as it is, in the message of the
/// error that it leads to.
pub proof fn lemma_unknown_name_in_message(name: Seq<char>)
    requires
        Provider::named(name) is None,
    ensures
        FetchErrorView::UnknownProvider(name).message() == "unknown provider '"@ + name + "'"@,
        occurs_in(name, FetchErrorView::UnknownProvider(name).message()),
{
    let head = "unknown provider '"@;
    let message = FetchErrorView::UnknownProvider(name).message();
    let at = head.len() as int;
    assert(message.subrange(at, at + name.len()) =~= name);
}

} // verus!
