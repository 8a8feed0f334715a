//! Adapters: what to ask a provider's metadata service, and what to make of
//! its answers.
//!
//! An adapter is a `Plan`: the fields to fetch, one after the other, and
//! where the SSH keys are listed. A `Session` carries a plan out. It names
//! the address to GET, takes the reply, and either asks for the next GET or
//! ends with the `Metadata` or with the first error. The caller performs the
//! requests and the waits.

pub mod ec2;
pub mod keys;

use crate::decode::{member_of, Decoded, DecodedView, Format};
use crate::error::{FetchError, FetchErrorView};
use crate::metadata::{has_name, lemma_put_names, Metadata, MetadataBuilder, MetadataView};
use crate::providers::keys::{key_indices, parse_key_listing};
use crate::retry::{Client, Progress, ProgressView, Reply, ReplyView, Request, RequestView};
use vstd::prelude::*;
use vstd::string::*;

verus! {

/// How the value of a field is taken from the body of its response.
#[derive(Debug, Clone, PartialEq, Eq)]
pub enum Source {
    /// The body is the value, as `Raw` text.
    Text,
    /// The body is a JSON document, and the value is its string member of
    /// this name.
    JsonMember(String),
}

/// One field of a provider's metadata.
#[derive(Debug, Clone, PartialEq, Eq)]
pub struct Field {
    /// The name of the attribute that holds the value.
    pub attribute: String,
    /// Where to GET it, after the plan's base address.
    pub path: String,
    /// How to take the value from the body.
    pub source: Source,
    /// Whether the value is the hostname as well.
    pub hostname: bool,
}

/// Where a provider lists SSH keys and where it keeps their material.
#[derive(Debug, Clone, PartialEq, Eq)]
pub struct KeyPlan {
    /// Where to GET the listing, after the plan's base address.
    pub listing: String,
    /// What stands before the index of a key in the path of its material.
    pub material_prefix: String,
    /// What stands after the index of a key in the path of its material.
    pub material_suffix: String,
}

/// What to fetch from a provider.
#[derive(Debug, Clone, PartialEq, Eq)]
pub struct Plan {
    /// The address that every path is appended to.
    pub base: String,
    /// The fields, in the order in which they are fetched and recorded.
    pub fields: Vec<Field>,
    /// The SSH keys, where the provider has any.
    pub keys: Option<KeyPlan>,
}

pub enum SourceView {
    Text,
    JsonMember(Seq<char>),
}

pub struct FieldView {
    pub attribute: Seq<char>,
    pub path: Seq<char>,
    pub source: SourceView,
    pub hostname: bool,
}

pub struct KeyPlanView {
    pub listing: Seq<char>,
    pub material_prefix: Seq<char>,
    pub material_suffix: Seq<char>,
}

pub struct PlanView {
    pub base: Seq<char>,
    pub fields: Seq<FieldView>,
    pub keys: Option<KeyPlanView>,
}

impl DeepView for Source {
    type V = SourceView;

    open spec fn deep_view(&self) -> SourceView {
        match self {
            Source::Text => SourceView::Text,
            Source::JsonMember(name) => SourceView::JsonMember(name@),
        }
    }
}

impl DeepView for Field {
    type V = FieldView;

    open spec fn deep_view(&self) -> FieldView {
        FieldView {
            attribute: self.attribute@,
            path: self.path@,
            source: self.source.deep_view(),
            hostname: self.hostname,
        }
    }
}

impl DeepView for KeyPlan {
    type V = KeyPlanView;

    open spec fn deep_view(&self) -> KeyPlanView {
        KeyPlanView {
            listing: self.listing@,
            material_prefix: self.material_prefix@,
            material_suffix: self.material_suffix@,
        }
    }
}

impl DeepView for Plan {
    type V = PlanView;

    open spec fn deep_view(&self) -> PlanView {
        PlanView {
            base: self.base@,
            fields: self.fields.deep_view(),
            keys: self.keys.deep_view(),
        }
    }
}

impl SourceView {
    /// The format in which the body is to be read.
    pub open spec fn format(self) -> Format {
        match self {
            SourceView::Text => Format::Raw,
            SourceView::JsonMember(_) => Format::Json,
        }
    }

    /// The value of the field, given what its fetch ended with: none where
    /// the field is absent; a decode failure where the body does not hold
    /// the value.
    pub open spec fn value(self, fetched: Option<DecodedView>) -> Result<
        Option<Seq<char>>,
        FetchErrorView,
    > {
        match fetched {
            None => Ok(None),
            Some(d) => match self {
                SourceView::Text => match d {
                    DecodedView::Text(t) => Ok(Some(t)),
                    _ => Err(FetchErrorView::DecodeFailure),
                },
                SourceView::JsonMember(name) => match member_of(d, name) {
                    Some(v) => Ok(Some(v)),
                    None => Err(FetchErrorView::DecodeFailure),
                },
            },
        }
    }
}

impl FieldView {
    /// What is known once the field has been fetched with this value: the
    /// attribute is bound to the value, and the hostname set to it where the
    /// field is the hostname; without a value nothing changes.
    pub open spec fn record(self, found: MetadataView, value: Option<Seq<char>>) -> MetadataView {
        let with = found.with_attribute(self.attribute, value);
        if self.hostname {
            with.with_hostname(value)
        } else {
            with
        }
    }
}

/// What a session is fetching.
#[derive(Debug, Clone, Copy, PartialEq, Eq, Structural)]
pub enum Stage {
    /// The field at this place of the plan.
    Field(usize),
    /// The listing of SSH keys.
    Listing,
    /// The material of the key at this place of the listing.
    Key(usize),
}

/// A `Stage` with its place as a natural number.
pub enum StageView {
    Field(nat),
    Listing,
    Key(nat),
}

impl View for Stage {
    type V = StageView;

    open spec fn view(&self) -> StageView {
        match self {
            Stage::Field(i) => StageView::Field(*i as nat),
            Stage::Listing => StageView::Listing,
            Stage::Key(i) => StageView::Key(*i as nat),
        }
    }
}

impl PlanView {
    /// The address to GET at a stage.
    pub open spec fn url(self, stage: StageView, indices: Seq<Seq<char>>) -> Seq<char> {
        match stage {
            StageView::Field(i) => self.base + self.fields[i as int].path,
            StageView::Listing => self.base + self.keys->0.listing,
            StageView::Key(i) => self.base + self.keys->0.material_prefix + indices[i as int]
                + self.keys->0.material_suffix,
        }
    }

    /// The format in which the body is read at a stage.
    pub open spec fn format(self, stage: StageView) -> Format {
        match stage {
            StageView::Field(i) => self.fields[i as int].source.format(),
            _ => Format::Raw,
        }
    }

    /// What is known once the fields from place `i` on have been fetched
    /// with `values`, one value for each of them in their order.
    pub open spec fn record_from(
        self,
        found: MetadataView,
        i: nat,
        values: Seq<Option<Seq<char>>>,
    ) -> MetadataView
        decreases values.len(),
    {
        if values.len() == 0 {
            found
        } else {
            self.record_from(
                self.fields[i as int].record(found, values[0]),
                i + 1,
                values.drop_first(),
            )
        }
    }
}

/// A fetch of a provider's metadata under way.
#[derive(Debug, PartialEq)]
pub struct Session {
    client: Client,
    plan: Plan,
    stage: Stage,
    request: Request,
    found: MetadataBuilder,
    indices: Vec<String>,
    keys: Vec<String>,
}

/// What a `Session` holds.
pub struct SessionView {
    pub client: Client,
    pub plan: PlanView,
    pub stage: StageView,
    /// The fetch under way.
    pub request: RequestView,
    /// What the fields fetched so far have given.
    pub found: MetadataView,
    /// The indices of the keys that the listing named.
    pub indices: Seq<Seq<char>>,
    /// The material of the keys fetched so far.
    pub keys: Seq<Seq<char>>,
}

impl View for Session {
    type V = SessionView;

    closed spec fn view(&self) -> SessionView {
        SessionView {
            client: self.client,
            plan: self.plan.deep_view(),
            stage: self.stage@,
            request: self.request@,
            found: self.found@,
            indices: self.indices.deep_view(),
            keys: self.keys.deep_view(),
        }
    }
}

/// Where a fetch of metadata stands.
#[derive(Debug, PartialEq)]
pub enum Turn {
    /// The caller is to wait `wait_ms` milliseconds, GET the address that
    /// the session names, and hand the reply to the session.
    Ask { wait_ms: u64, session: Session },
    /// The fetch is over.
    Done(Result<Metadata, FetchError>),
}

/// A `Turn` as contracts see it.
pub enum TurnView {
    Ask { wait_ms: u64, session: SessionView },
    Done(Result<MetadataView, FetchErrorView>),
}

impl View for Turn {
    type V = TurnView;

    open spec fn view(&self) -> TurnView {
        match self {
            Turn::Ask { wait_ms, session } => TurnView::Ask {
                wait_ms: *wait_ms,
                session: session@,
            },
            Turn::Done(Ok(m)) => TurnView::Done(Ok(m@)),
            Turn::Done(Err(e)) => TurnView::Done(Err(e@)),
        }
    }
}

/// A request of `client` with no attempt made yet.
pub open spec fn fresh(client: Client, format: Format, url: Seq<char>) -> RequestView {
    RequestView { client, format, url, failures: 0, backoff_ms: client.initial_backoff_ms }
}

/// The session at the start of a stage.
pub open spec fn at_stage(
    client: Client,
    plan: PlanView,
    stage: StageView,
    found: MetadataView,
    indices: Seq<Seq<char>>,
    keys: Seq<Seq<char>>,
) -> SessionView {
    SessionView {
        client,
        plan,
        stage,
        request: fresh(client, plan.format(stage), plan.url(stage, indices)),
        found,
        indices,
        keys,
    }
}

/// What comes once the fields before place `i` are done: the field at `i`;
/// after the last field the listing of keys; without one, the end.
pub open spec fn from_field(client: Client, plan: PlanView, found: MetadataView, i: nat) -> TurnView {
    if i < plan.fields.len() {
        TurnView::Ask {
            wait_ms: 0,
            session: at_stage(
                client,
                plan,
                StageView::Field(i),
                found,
                Seq::empty(),
                Seq::empty(),
            ),
        }
    } else if plan.keys is Some {
        TurnView::Ask {
            wait_ms: 0,
            session: at_stage(client, plan, StageView::Listing, found, Seq::empty(), Seq::empty()),
        }
    } else {
        TurnView::Done(Ok(found))
    }
}

/// What comes once the keys before place `i` of the listing are done: the
/// key at `i`; after the last key the end, with the keys added in the order
/// of the listing.
pub open spec fn from_key(
    client: Client,
    plan: PlanView,
    found: MetadataView,
    indices: Seq<Seq<char>>,
    keys: Seq<Seq<char>>,
    i: nat,
) -> TurnView {
    if i < indices.len() {
        TurnView::Ask {
            wait_ms: 0,
            session: at_stage(client, plan, StageView::Key(i), found, indices, keys),
        }
    } else {
        TurnView::Done(Ok(found.with_ssh_keys(keys)))
    }
}

impl SessionView {
    /// The session is at a stage of its plan, and its request is the one of
    /// that stage.
    pub open spec fn wf(self) -> bool {
        &&& self.request.client == self.client
        &&& self.request.format == self.plan.format(self.stage)
        &&& self.request.url == self.plan.url(self.stage, self.indices)
        &&& match self.stage {
            StageView::Field(i) => i < self.plan.fields.len(),
            StageView::Listing => self.plan.keys is Some,
            StageView::Key(i) => self.plan.keys is Some && i < self.indices.len()
                && self.keys.len() == i,
        }
    }

    /// Where the fetch stands once the request under way has ended with
    /// `fetched`.
    pub open spec fn settle(self, fetched: Option<DecodedView>) -> TurnView {
        match self.stage {
            StageView::Field(i) => {
                let field = self.plan.fields[i as int];
                match field.source.value(fetched) {
                    Ok(value) => from_field(
                        self.client,
                        self.plan,
                        field.record(self.found, value),
                        i + 1,
                    ),
                    Err(e) => TurnView::Done(Err(e)),
                }
            },
            StageView::Listing => match fetched {
                None => TurnView::Done(Ok(self.found)),
                Some(DecodedView::Text(listing)) => match key_indices(listing) {
                    Some(indices) => from_key(
                        self.client,
                        self.plan,
                        self.found,
                        indices,
                        Seq::empty(),
                        0,
                    ),
                    None => TurnView::Done(Err(FetchErrorView::MalformedKeyListing)),
                },
                Some(_) => TurnView::Done(Err(FetchErrorView::DecodeFailure)),
            },
            StageView::Key(i) => match fetched {
                None => TurnView::Done(Err(FetchErrorView::MissingKeyMaterial)),
                Some(DecodedView::Text(material)) => from_key(
                    self.client,
                    self.plan,
                    self.found,
                    self.indices,
                    self.keys.push(material),
                    i + 1,
                ),
                Some(_) => TurnView::Done(Err(FetchErrorView::DecodeFailure)),
            },
        }
    }

    /// Where the fetch stands after `reply`: the same request once more
    /// where the client tries again; the end where the request ends with an
    /// error; else what the stage makes of the value.
    pub open spec fn receive(self, reply: ReplyView) -> TurnView {
        match self.request.receive(reply) {
            ProgressView::Retry { wait_ms, request } => TurnView::Ask {
                wait_ms,
                session: SessionView { request, ..self },
            },
            ProgressView::Done(Err(e)) => TurnView::Done(Err(e)),
            ProgressView::Done(Ok(fetched)) => self.settle(fetched),
        }
    }
}

impl Source {
    /// The format in which the body is to be read.
    pub fn format(&self) -> (r: Format)
        ensures
            r == self.deep_view().format(),
    {
        match self {
            Source::Text => Format::Raw,
            Source::JsonMember(_) => Format::Json,
        }
    }

    /// The value of the field, given what its fetch ended with.
    pub fn value(&self, fetched: Option<Decoded>) -> (r: Result<Option<String>, FetchError>)
        ensures
            match self.deep_view().value(
                match fetched {
                    Some(d) => Some(d@),
                    None => None,
                },
            ) {
                Ok(v) => r matches Ok(x) && x.deep_view() == v,
                Err(e) => r matches Err(x) && x@ == e,
            },
    {
        match fetched {
            None => Ok(None),
            Some(d) => match self {
                Source::Text => match d {
                    Decoded::Text(t) => Ok(Some(t)),
                    _ => Err(FetchError::DecodeFailure),
                },
                Source::JsonMember(name) => match d.member(name.as_str()) {
                    Ok(v) => Ok(Some(v)),
                    Err(e) => Err(e),
                },
            },
        }
    }
}

/// `head` followed by `tail`.
fn join(head: &str, tail: &str) -> (r: String)
    ensures
        r@ == head@ + tail@,
{
    String::from_str(head).concat(tail)
}

fn copy_of(value: &Option<String>) -> (r: Option<String>)
    ensures
        r.deep_view() == value.deep_view(),
{
    match value {
        Some(s) => Some(s.clone()),
        None => None,
    }
}

fn field_turn(client: Client, plan: Plan, found: MetadataBuilder, i: usize) -> (r: Turn)
    ensures
        r@ == from_field(client, plan.deep_view(), found@, i as nat),
{
    if i < plan.fields.len() {
        let url = join(plan.base.as_str(), plan.fields[i].path.as_str());
        let request = client.get(plan.fields[i].source.format(), url);
        let indices: Vec<String> = Vec::new();
        let keys: Vec<String> = Vec::new();
        assert(indices.deep_view() =~= Seq::empty());
        assert(keys.deep_view() =~= Seq::empty());
        Turn::Ask {
            wait_ms: 0,
            session: Session { client, plan, stage: Stage::Field(i), request, found, indices, keys },
        }
    } else {
        match &plan.keys {
            Some(key_plan) => {
                let url = join(plan.base.as_str(), key_plan.listing.as_str());
                let request = client.get(Format::Raw, url);
                let indices: Vec<String> = Vec::new();
                let keys: Vec<String> = Vec::new();
                assert(indices.deep_view() =~= Seq::empty());
                assert(keys.deep_view() =~= Seq::empty());
                Turn::Ask {
                    wait_ms: 0,
                    session: Session {
                        client,
                        plan,
                        stage: Stage::Listing,
                        request,
                        found,
                        indices,
                        keys,
                    },
                }
            },
            None => Turn::Done(Ok(found.build())),
        }
    }
}

fn key_turn(
    client: Client,
    plan: Plan,
    found: MetadataBuilder,
    indices: Vec<String>,
    keys: Vec<String>,
    i: usize,
) -> (r: Turn)
    requires
        plan.keys is Some,
        keys.len() == i,
        i <= indices.len(),
    ensures
        r@ == from_key(
            client,
            plan.deep_view(),
            found@,
            indices.deep_view(),
            keys.deep_view(),
            i as nat,
        ),
{
    if i < indices.len() {
        let url = match &plan.keys {
            Some(key_plan) => {
                let mut url = join(plan.base.as_str(), key_plan.material_prefix.as_str());
                url.append(indices[i].as_str());
                url.append(key_plan.material_suffix.as_str());
                url
            },
            None => String::new(),
        };
        let request = client.get(Format::Raw, url);
        Turn::Ask {
            wait_ms: 0,
            session: Session { client, plan, stage: Stage::Key(i), request, found, indices, keys },
        }
    } else {
        Turn::Done(Ok(found.add_ssh_keys(keys).build()))
    }
}

impl Session {
    #[verifier::type_invariant]
    spec fn inv(&self) -> bool {
        self@.wf()
    }

    /// Starts to carry out `plan` with `client`: asks for the first thing
    /// that the plan names, or ends at once where it names nothing.
    pub fn start(client: Client, plan: Plan) -> (r: Turn)
        ensures
            r@ == from_field(client, plan.deep_view(), MetadataView::empty(), 0),
            r@ matches TurnView::Ask { session, .. } ==> session.wf(),
    {
        let r = field_turn(client, plan, Metadata::builder(), 0);
        proof {
            match &r {
                Turn::Ask { session, .. } => {
                    use_type_invariant(session);
                },
                _ => {},
            }
        }
        r
    }

    /// The address to GET.
    pub fn url(&self) -> (r: &str)
        ensures
            r@ == self@.request.url,
            self@.wf(),
    {
        proof {
            use_type_invariant(self);
        }
        self.request.url()
    }

    /// Takes the reply to the GET and says where the fetch stands. A reply
    /// that the client retries asks for the same address once more, after
    /// the wait. An error ends the fetch with that error. A field that is
    /// absent is passed over; one with a value is recorded. An absent listing
    /// of keys ends the fetch without keys; a listing with an entry that is
    /// malformed, or a key without material, ends it with that error.
    pub fn receive(self, reply: Reply) -> (r: Turn)
        ensures
            self@.wf(),
            r@ == self@.receive(reply@),
            r@ matches TurnView::Ask { session, .. } ==> session.wf(),
    {
        proof {
            use_type_invariant(&self);
        }
        let Session { client, plan, stage, request, found, indices, keys } = self;
        let r = match request.receive(reply) {
            Progress::Retry { wait_ms, request } => Turn::Ask {
                wait_ms,
                session: Session { client, plan, stage, request, found, indices, keys },
            },
            Progress::Done(Err(e)) => Turn::Done(Err(e)),
            Progress::Done(Ok(fetched)) => match stage {
                Stage::Field(i) => match plan.fields[i].source.value(fetched) {
                    Ok(value) => {
                        let name = plan.fields[i].attribute.clone();
                        let found = if plan.fields[i].hostname {
                            found.add_attribute_if_exists(
                                name,
                                copy_of(&value),
                            ).set_hostname_if_exists(value)
                        } else {
                            found.add_attribute_if_exists(name, value)
                        };
                        let fields: usize = plan.fields.len();
                        assert(i < fields);
                        field_turn(client, plan, found, i + 1)
                    },
                    Err(e) => Turn::Done(Err(e)),
                },
                Stage::Listing => match fetched {
                    None => Turn::Done(Ok(found.build())),
                    Some(Decoded::Text(listing)) => match parse_key_listing(listing.as_str()) {
                        Ok(indices) => {
                            let keys: Vec<String> = Vec::new();
                            assert(keys.deep_view() =~= Seq::empty());
                            key_turn(client, plan, found, indices, keys, 0)
                        },
                        Err(e) => Turn::Done(Err(e)),
                    },
                    Some(_) => Turn::Done(Err(FetchError::DecodeFailure)),
                },
                Stage::Key(i) => match fetched {
                    None => Turn::Done(Err(FetchError::MissingKeyMaterial)),
                    Some(Decoded::Text(material)) => {
                        let mut keys = keys;
                        let ghost before = keys.deep_view();
                        let ghost added = material@;
                        keys.push(material);
                        assert(keys.deep_view() =~= before.push(added));
                        let listed: usize = indices.len();
                        assert(i < listed);
                        key_turn(client, plan, found, indices, keys, i + 1)
                    },
                    Some(_) => Turn::Done(Err(FetchError::DecodeFailure)),
                },
            },
        };
        proof {
            match &r {
                Turn::Ask { session, .. } => {
                    use_type_invariant(session);
                },
                _ => {},
            }
        }
        r
    }
}

impl TurnView {
    /// Where the fetch stands once its requests, one after the other, have
    /// ended with `fetched`; a fetch that is over stays as it is.
    pub open spec fn after(self, fetched: Seq<Option<DecodedView>>) -> TurnView
        decreases fetched.len(),
    {
        if fetched.len() == 0 {
            self
        } else {
            match self {
                TurnView::Ask { session, .. } => session.settle(fetched[0]).after(
                    fetched.drop_first(),
                ),
                TurnView::Done(_) => self,
            }
        }
    }
}

/// Key material as the body that a `Raw` fetch ends with.
pub open spec fn as_fetched(materials: Seq<Seq<char>>) -> Seq<Option<DecodedView>> {
    Seq::new(materials.len(), |k: int| Some(DecodedView::Text(materials[k])))
}

/// A session that is well formed stays so: whatever the reply, the session
/// that asks next is at a stage of its plan with the request of that stage.
pub proof fn lemma_receive_keeps_wf(session: SessionView, reply: ReplyView)
    requires
        session.wf(),
    ensures
        session.receive(reply) matches TurnView::Ask { session: next, .. } ==> next.wf()
            && next.client == session.client && next.plan == session.plan,
{
}

/// An error of the request under way ends the fetch with that error, and
/// nothing that was found is handed out.
pub proof fn lemma_first_error_ends(session: SessionView, reply: ReplyView, e: FetchErrorView)
    requires
        session.request.receive(reply) == ProgressView::Done(Err(e)),
    ensures
        session.receive(reply) == TurnView::Done(Err(e)),
{
}

/// What has ended one way does not end another: further values change
/// nothing.
pub proof fn lemma_done_stays(
    r: Result<MetadataView, FetchErrorView>,
    fetched: Seq<Option<DecodedView>>,
)
    ensures
        TurnView::Done(r).after(fetched) == TurnView::Done(r),
{
}

/// One value takes a fetch that asks to where its session settles with it.
pub proof fn lemma_after_one(session: SessionView, wait_ms: u64, value: Option<DecodedView>)
    ensures
        (TurnView::Ask { wait_ms, session }).after(seq![value]) == session.settle(value),
{
    let one = seq![value];
    assert(one[0] == value);
    assert(one.drop_first().len() == 0);
    assert(session.settle(value).after(one.drop_first()) == session.settle(value));
}

/// Values handed over in two parts do what they do handed over at once.
pub proof fn lemma_after_parts(
    turn: TurnView,
    first: Seq<Option<DecodedView>>,
    second: Seq<Option<DecodedView>>,
)
    ensures
        turn.after(first + second) == turn.after(first).after(second),
    decreases first.len(),
{
    if first.len() == 0 {
        assert(first + second =~= second);
    } else {
        let all = first + second;
        assert(all[0] == first[0]);
        assert(all.drop_first() =~= first.drop_first() + second);
        match turn {
            TurnView::Ask { session, .. } => {
                lemma_after_parts(session.settle(first[0]), first.drop_first(), second);
            },
            TurnView::Done(r) => {
                lemma_done_stays(r, second);
            },
        }
    }
}

/// Fields that are fetched without error are recorded one by one, in the
/// order of the plan: those with a value as attributes, those without not at
/// all. The fetch then stands at the field that follows them.
pub proof fn lemma_fields_recorded(
    client: Client,
    plan: PlanView,
    found: MetadataView,
    i: nat,
    fetched: Seq<Option<DecodedView>>,
    values: Seq<Option<Seq<char>>>,
)
    requires
        i + fetched.len() <= plan.fields.len(),
        values.len() == fetched.len(),
        forall|k: int|
            0 <= k < fetched.len() ==> plan.fields[i + k].source.value(#[trigger] fetched[k])
                == Ok::<Option<Seq<char>>, FetchErrorView>(values[k]),
    ensures
        from_field(client, plan, found, i).after(fetched) == from_field(
            client,
            plan,
            plan.record_from(found, i, values),
            i + fetched.len(),
        ),
    decreases fetched.len(),
{
    if fetched.len() > 0 {
        let field = plan.fields[i as int];
        assert(field.source.value(fetched[0]) == Ok::<Option<Seq<char>>, FetchErrorView>(
            values[0],
        ));
        let rest = fetched.drop_first();
        let rest_values = values.drop_first();
        assert forall|k: int| 0 <= k < rest.len() implies plan.fields[i + 1 + k].source.value(
            #[trigger] rest[k],
        ) == Ok::<Option<Seq<char>>, FetchErrorView>(rest_values[k]) by {
            assert(rest[k] == fetched[k + 1]);
            assert(rest_values[k] == values[k + 1]);
        }
        lemma_fields_recorded(
            client,
            plan,
            field.record(found, values[0]),
            i + 1,
            rest,
            rest_values,
        );
    }
}

/// Keys whose material is there come out in the order of the listing: when
/// the material of every key from place `i` on has been fetched, the fetch
/// ends with the keys held before, followed by these.
pub proof fn lemma_keys_in_listing_order(
    client: Client,
    plan: PlanView,
    found: MetadataView,
    indices: Seq<Seq<char>>,
    keys: Seq<Seq<char>>,
    i: nat,
    materials: Seq<Seq<char>>,
)
    requires
        i + materials.len() == indices.len(),
    ensures
        from_key(client, plan, found, indices, keys, i).after(as_fetched(materials))
            == TurnView::Done(Ok(found.with_ssh_keys(keys + materials))),
    decreases materials.len(),
{
    if materials.len() == 0 {
        assert(keys + materials =~= keys);
    } else {
        let fetched = as_fetched(materials);
        assert(fetched[0] == Some(DecodedView::Text(materials[0])));
        assert(fetched.drop_first() =~= as_fetched(materials.drop_first()));
        lemma_keys_in_listing_order(
            client,
            plan,
            found,
            indices,
            keys.push(materials[0]),
            i + 1,
            materials.drop_first(),
        );
        assert(keys.push(materials[0]) + materials.drop_first() =~= keys + materials);
    }
}

/// A fetch in which nothing fails ends with exactly what was there: an
/// attribute for each field that had a value, in the order of the plan, the
/// hostname of the field that stands for it, and the material of the listed
/// keys in the order of the listing.
pub proof fn lemma_fetch_outcome(
    client: Client,
    plan: PlanView,
    fetched: Seq<Option<DecodedView>>,
    values: Seq<Option<Seq<char>>>,
    listing: Seq<char>,
    materials: Seq<Seq<char>>,
)
    requires
        plan.keys is Some,
        fetched.len() == plan.fields.len(),
        values.len() == fetched.len(),
        forall|k: int|
            0 <= k < fetched.len() ==> plan.fields[k].source.value(#[trigger] fetched[k]) == Ok::<
                Option<Seq<char>>,
                FetchErrorView,
            >(values[k]),
        key_indices(listing) matches Some(indices) && indices.len() == materials.len(),
    ensures
        from_field(client, plan, MetadataView::empty(), 0).after(
            fetched + seq![Some(DecodedView::Text(listing))] + as_fetched(materials),
        ) == TurnView::Done(
            Ok(plan.record_from(MetadataView::empty(), 0, values).with_ssh_keys(materials)),
        ),
{
    let start = from_field(client, plan, MetadataView::empty(), 0);
    let found = plan.record_from(MetadataView::empty(), 0, values);
    let head = seq![Some(DecodedView::Text(listing))];
    let indices = key_indices(listing)->0;
    lemma_after_parts(start, fetched + head, as_fetched(materials));
    lemma_after_parts(start, fetched, head);
    lemma_fields_recorded(client, plan, MetadataView::empty(), 0, fetched, values);
    let at_listing = from_field(client, plan, found, plan.fields.len());
    lemma_after_one(at_listing->session, 0, Some(DecodedView::Text(listing)));
    lemma_keys_in_listing_order(client, plan, found, indices, Seq::empty(), 0, materials);
    assert(Seq::<Seq<char>>::empty() + materials =~= materials);
}

/// A fetch in which every field and the listing of keys are absent ends
/// with an empty `Metadata`.
pub proof fn lemma_all_absent(client: Client, plan: PlanView)
    requires
        plan.keys is Some,
    ensures
        from_field(client, plan, MetadataView::empty(), 0).after(
            Seq::new(plan.fields.len() + 1, |k: int| None::<DecodedView>),
        ) == TurnView::Done(Ok(MetadataView::empty())),
{
    let n = plan.fields.len();
    let fetched = Seq::new(n, |k: int| None::<DecodedView>);
    let values = Seq::new(n, |k: int| None::<Seq<char>>);
    let all = Seq::new(n + 1, |k: int| None::<DecodedView>);
    let head = seq![None::<DecodedView>];
    assert(all =~= fetched + head);
    let start = from_field(client, plan, MetadataView::empty(), 0);
    lemma_after_parts(start, fetched, head);
    lemma_fields_recorded(client, plan, MetadataView::empty(), 0, fetched, values);
    lemma_record_nothing(plan, MetadataView::empty(), 0, values);
    let at_listing = from_field(client, plan, MetadataView::empty(), n);
    lemma_after_one(at_listing->session, 0, None);
}

/// An attribute is there only if a field of its name was fetched and had a
/// value: recording fields adds no other name to those held before.
pub proof fn lemma_attributes_come_from_values(
    plan: PlanView,
    found: MetadataView,
    i: nat,
    values: Seq<Option<Seq<char>>>,
    name: Seq<char>,
)
    requires
        has_name(plan.record_from(found, i, values).attributes, name),
    ensures
        has_name(found.attributes, name) || exists|k: int|
            0 <= k < values.len() && (#[trigger] values[k]) is Some && plan.fields[i + k].attribute
                == name,
    decreases values.len(),
{
    if values.len() > 0 {
        let field = plan.fields[i as int];
        let next = field.record(found, values[0]);
        let rest = values.drop_first();
        lemma_attributes_come_from_values(plan, next, i + 1, rest, name);
        if has_name(next.attributes, name) {
            match values[0] {
                Some(v) => {
                    lemma_put_names(found.attributes, field.attribute, v, name);
                    if !has_name(found.attributes, name) {
                        assert(values[0] is Some && plan.fields[i + 0int].attribute == name);
                    }
                },
                None => {},
            }
        } else {
            let k = choose|k: int|
                0 <= k < rest.len() && (#[trigger] rest[k]) is Some && plan.fields[i + 1
                    + k].attribute == name;
            assert(rest[k] == values[k + 1]);
            assert(values[k + 1] is Some && plan.fields[i + (k + 1)].attribute == name);
        }
    }
}

/// Fields without a value leave what was found as it was.
pub proof fn lemma_record_nothing(
    plan: PlanView,
    found: MetadataView,
    i: nat,
    values: Seq<Option<Seq<char>>>,
)
    requires
        forall|k: int| 0 <= k < values.len() ==> #[trigger] values[k] is None,
    ensures
        plan.record_from(found, i, values) == found,
    decreases values.len(),
{
    if values.len() > 0 {
        assert(values[0] is None);
        let rest = values.drop_first();
        assert forall|k: int| 0 <= k < rest.len() implies #[trigger] rest[k] is None by {
            assert(rest[k] == values[k + 1]);
        }
        lemma_record_nothing(plan, found, i + 1, rest);
    }
}

} // verus!
