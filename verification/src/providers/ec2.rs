//! The adapter for Amazon EC2.

use crate::metadata::MetadataView;
use crate::providers::{
    from_field, Field, FieldView, KeyPlan, KeyPlanView, Plan, PlanView, Session, Source,
    SourceView, StageView, Turn, TurnView,
};
use crate::retry::{
    Client, DEFAULT_INITIAL_BACKOFF_MS, DEFAULT_MAX_ATTEMPTS, DEFAULT_MAX_BACKOFF_MS,
};
use vstd::prelude::*;
use vstd::string::*;

verus! {

/// The address of `key` at the metadata service.
pub open spec fn key_url(key: Seq<char>) -> Seq<char> {
    "http://169.254.169.254/2009-04-04/"@ + key
}

/// A field whose body is its value.
pub open spec fn text_field(attribute: Seq<char>, path: Seq<char>, hostname: bool) -> FieldView {
    FieldView { attribute, path, source: SourceView::Text, hostname }
}

/// The fields of an EC2 instance, and where its SSH keys are.
pub open spec fn ec2_plan() -> PlanView {
    PlanView {
        base: "http://169.254.169.254/2009-04-04/"@,
        fields: seq![
            text_field("EC2_INSTANCE_ID"@, "meta-data/instance-id"@, false),
            text_field("EC2_IPV4_PUBLIC"@, "meta-data/public-ipv4"@, false),
            text_field("EC2_IPV4_LOCAL"@, "meta-data/local-ipv4"@, false),
            text_field("EC2_HOSTNAME"@, "meta-data/hostname"@, true),
            text_field("EC2_AVAILABILITY_ZONE"@, "meta-data/placement/availability-zone"@, false),
            FieldView {
                attribute: "EC2_REGION"@,
                path: "dynamic/instance-identity/document"@,
                source: SourceView::JsonMember("region"@),
                hostname: false,
            },
        ],
        keys: Some(
            KeyPlanView {
                listing: "meta-data/public-keys"@,
                material_prefix: "meta-data/public-keys/"@,
                material_suffix: "/openssh-key"@,
            },
        ),
    }
}

/// The client of the EC2 adapter: every field may be absent, so a 404 is no
/// failure.
pub open spec fn ec2_client() -> Client {
    Client {
        return_on_404: true,
        max_attempts: DEFAULT_MAX_ATTEMPTS,
        initial_backoff_ms: DEFAULT_INITIAL_BACKOFF_MS,
        max_backoff_ms: DEFAULT_MAX_BACKOFF_MS,
    }
}

/// The path that a stage of the EC2 plan asks for.
pub open spec fn ec2_path(stage: StageView, indices: Seq<Seq<char>>) -> Seq<char> {
    match stage {
        StageView::Field(i) => ec2_plan().fields[i as int].path,
        StageView::Listing => "meta-data/public-keys"@,
        StageView::Key(i) => "meta-data/public-keys/"@ + indices[i as int] + "/openssh-key"@,
    }
}

/// Every address that the EC2 plan asks for is `key_url` of a path.
pub proof fn lemma_ec2_urls(stage: StageView, indices: Seq<Seq<char>>)
    ensures
        ec2_plan().url(stage, indices) == key_url(ec2_path(stage, indices)),
{
    assert(ec2_plan().url(stage, indices) =~= key_url(ec2_path(stage, indices)));
}

/// The address of `key` at the metadata service.
pub fn url_for_key(key: &str) -> (r: String)
    ensures
        r@ == key_url(key@),
{
    String::from_str("http://169.254.169.254/2009-04-04/").concat(key)
}

fn field(attribute: &str, path: &str, hostname: bool) -> (r: Field)
    ensures
        r.deep_view() == text_field(attribute@, path@, hostname),
{
    Field {
        attribute: String::from_str(attribute),
        path: String::from_str(path),
        source: Source::Text,
        hostname,
    }
}

/// The fields of an EC2 instance, and where its SSH keys are.
pub fn plan() -> (r: Plan)
    ensures
        r.deep_view() == ec2_plan(),
{
    let mut fields: Vec<Field> = Vec::new();
    fields.push(field("EC2_INSTANCE_ID", "meta-data/instance-id", false));
    fields.push(field("EC2_IPV4_PUBLIC", "meta-data/public-ipv4", false));
    fields.push(field("EC2_IPV4_LOCAL", "meta-data/local-ipv4", false));
    fields.push(field("EC2_HOSTNAME", "meta-data/hostname", true));
    fields.push(field("EC2_AVAILABILITY_ZONE", "meta-data/placement/availability-zone", false));
    fields.push(
        Field {
            attribute: String::from_str("EC2_REGION"),
            path: String::from_str("dynamic/instance-identity/document"),
            source: Source::JsonMember(String::from_str("region")),
            hostname: false,
        },
    );
    assert(fields.deep_view() =~= ec2_plan().fields);
    Plan {
        base: String::from_str("http://169.254.169.254/2009-04-04/"),
        fields,
        keys: Some(
            KeyPlan {
                listing: String::from_str("meta-data/public-keys"),
                material_prefix: String::from_str("meta-data/public-keys/"),
                material_suffix: String::from_str("/openssh-key"),
            },
        ),
    }
}

/// Starts the fetch of an EC2 instance's metadata: the first turn of a
/// session that carries out `plan()` with a client that takes a 404 for
/// absence.
pub fn fetch_metadata() -> (r: Turn)
    ensures
        r@ == from_field(ec2_client(), ec2_plan(), MetadataView::empty(), 0),
        r@ matches TurnView::Ask { wait_ms, session } && wait_ms == 0 && session.wf()
            && session.request.url == key_url("meta-data/instance-id"@),
{
    let client = Client::new().return_on_404(true);
    let r = Session::start(client, plan());
    proof {
        lemma_ec2_urls(StageView::Field(0), Seq::empty());
    }
    r
}

} // verus!
