//! The canonical component fixture: a component that describes itself,
//! accepts every invocation, and answers the setup questions by echoing
//! what it is given.

use vstd::prelude::*;
use vstd::utf8::encode_utf8;

use crate::bytes::{append_bytes, append_text};

verus! {

/// Where a schema comes from.
pub enum SchemaSource {
    /// A stable schema identifier understood by hosts and runners.
    CborSchemaId(String),
    /// A small schema carried inline as CBOR.
    InlineCbor(Vec<u8>),
    /// A path relative to the component artifact root.
    RefPackPath(String),
    /// Any external URI.
    RefUri(String),
}

/// The schema of an operation's input or output payload.
pub struct IoSchema {
    pub schema: SchemaSource,
    pub content_type: String,
    pub schema_version: Option<String>,
}

/// A sample payload pair of an operation.
pub struct Example {
    pub title: String,
    pub input_cbor: Vec<u8>,
    pub output_cbor: Vec<u8>,
}

/// An operation that the component can be invoked with.
pub struct Op {
    pub name: String,
    pub summary: Option<String>,
    pub input: IoSchema,
    pub output: IoSchema,
    pub examples: Vec<Example>,
}

/// A named schema in the component's catalog.
pub struct SchemaRef {
    pub id: String,
    pub content_type: String,
    pub blake3_hash: String,
    pub version: String,
    pub bytes: Option<Vec<u8>>,
    pub uri: Option<String>,
}

/// A sample set of setup answers.
pub struct SetupExample {
    pub title: String,
    pub answers_cbor: Vec<u8>,
}

/// A template that the host instantiates after setup.
pub struct SetupTemplateScaffold {
    pub template_ref: String,
    pub output_layout: Option<String>,
}

/// What the host does with the setup answers.
pub enum SetupOutput {
    /// Render only the component's configuration.
    ConfigOnly,
    /// Instantiate a template.
    TemplateScaffold(SetupTemplateScaffold),
}

/// The optional question-and-answer setup contract of a component.
pub struct SetupContract {
    pub qa_spec: SchemaSource,
    pub answers_schema: Option<SchemaSource>,
    pub examples: Vec<SetupExample>,
    pub outputs: Vec<SetupOutput>,
}

/// What a component says about itself.
pub struct ComponentDescriptor {
    pub name: String,
    pub version: String,
    pub summary: Option<String>,
    pub capabilities: Vec<String>,
    pub ops: Vec<Op>,
    pub schemas: Vec<SchemaRef>,
    pub setup: Option<SetupContract>,
}

/// The tenant on whose behalf a component is invoked.
pub struct TenantCtx {
    pub env: String,
    pub tenant_id: String,
    pub team_id: Option<String>,
    pub user_id: Option<String>,
    pub i18n_id: String,
    pub correlation_id: Option<String>,
    pub trace_id: Option<String>,
    pub deadline_ms: Option<u64>,
    pub attempt: u32,
    pub idempotency_key: Option<String>,
}

/// The host-built context of one invocation, with its call-spec bytes.
pub struct InvocationEnvelope {
    pub tenant: TenantCtx,
    pub flow_id: String,
    pub step_id: String,
    pub component_id: String,
    pub attempt: u32,
    pub payload_cbor: Vec<u8>,
    pub metadata_cbor: Option<Vec<u8>>,
}

/// The outcome of a successful invocation.
pub struct InvocationResult {
    pub ok: bool,
    pub output_cbor: Vec<u8>,
    pub output_metadata_cbor: Option<Vec<u8>>,
}

/// Why an invocation failed.
pub struct NodeError {
    pub code: String,
    pub message: String,
    pub retryable: bool,
    pub backoff_ms: Option<u64>,
    pub details: Option<Vec<u8>>,
}

/// The stage of setup that a question-and-answer exchange belongs to.
pub enum QaMode {
    Default,
    Setup,
    Update,
    Remove,
}

/// The name of a setup stage as the fixture writes it.
pub open spec fn qa_mode_label(mode: QaMode) -> Seq<char> {
    match mode {
        QaMode::Default => "default"@,
        QaMode::Setup => "setup"@,
        QaMode::Update => "update"@,
        QaMode::Remove => "remove"@,
    }
}

/// The setup stages are named `default`, `setup`, `update` (never the
/// older `upgrade`) and `remove`, and no two stages share a name, so the
/// bytes that `qa_spec` and `apply_answers` write identify the stage.
pub proof fn lemma_qa_mode_names(a: QaMode, b: QaMode)
    ensures
        qa_mode_label(QaMode::Default) == "default"@,
        qa_mode_label(QaMode::Setup) == "setup"@,
        qa_mode_label(QaMode::Update) == "update"@,
        qa_mode_label(QaMode::Remove) == "remove"@,
        qa_mode_label(a) == qa_mode_label(b) ==> a == b,
{
    reveal_strlit("default");
    reveal_strlit("setup");
    reveal_strlit("update");
    reveal_strlit("remove");
    if qa_mode_label(a) == qa_mode_label(b) && a != b {
        let la = qa_mode_label(a);
        let lb = qa_mode_label(b);
        assert(la.len() != lb.len() || la[0] != lb[0] || la[1] != lb[1]);
    }
}

/// The name of the setup stage `mode`.
pub fn qa_mode_name(mode: &QaMode) -> (name: &'static str)
    ensures
        name@ == qa_mode_label(*mode),
{
    match mode {
        QaMode::Default => "default",
        QaMode::Setup => "setup",
        QaMode::Update => "update",
        QaMode::Remove => "remove",
    }
}

/// The canonical component fixture.
pub struct Component;

impl Component {
    /// The component's self-description; `version` is the version of the
    /// package the component is built from.
    pub fn describe(version: String) -> (d: ComponentDescriptor)
        ensures
            d.name@ == "component-v060-canonical-dummy"@,
            d.version@ == version@,
            d.summary is Some,
            d.summary->0@ == "artifact metadata regression fixture"@,
            d.capabilities@.len() == 0,
            d.ops@.len() == 0,
            d.schemas@.len() == 0,
            d.setup is None,
    {
        ComponentDescriptor {
            name: String::from_str("component-v060-canonical-dummy"),
            version,
            summary: Some(String::from_str("artifact metadata regression fixture")),
            capabilities: Vec::new(),
            ops: Vec::new(),
            schemas: Vec::new(),
            setup: None,
        }
    }

    /// Accepts every invocation, whatever the operation and envelope, with an
    /// empty output.
    pub fn invoke(operation: String, envelope: InvocationEnvelope) -> (r: Result<
        InvocationResult,
        NodeError,
    >)
        ensures
            r is Ok,
            r->Ok_0.ok,
            r->Ok_0.output_cbor@.len() == 0,
            r->Ok_0.output_metadata_cbor is None,
    {
        Ok(InvocationResult { ok: true, output_cbor: Vec::new(), output_metadata_cbor: None })
    }

    /// The question-and-answer specification for the setup stage `mode`: the
    /// UTF-8 bytes of `qa:` followed by the stage's name.
    pub fn qa_spec(mode: QaMode) -> (spec: Vec<u8>)
        ensures
            spec@ == encode_utf8("qa:"@ + qa_mode_label(mode)),
    {
        let mut out: Vec<u8> = Vec::new();
        append_text(&mut out, "qa:");
        append_text(&mut out, qa_mode_name(&mode));
        proof {
            crate::bytes::lemma_encode_utf8_concat("qa:"@, qa_mode_label(mode));
            assert(out@ =~= encode_utf8("qa:"@) + encode_utf8(qa_mode_label(mode)));
        }
        out
    }

    /// The configuration after applying `answers` in the setup stage `mode`:
    /// the UTF-8 bytes of `mode=<stage>;`, then `current_config`, then `|`,
    /// then `answers`, all bytes kept as given.
    pub fn apply_answers(mode: QaMode, current_config: Vec<u8>, answers: Vec<u8>) -> (merged: Vec<
        u8,
    >)
        ensures
            merged@ == encode_utf8("mode="@ + qa_mode_label(mode) + ";"@) + current_config@
                + encode_utf8("|"@) + answers@,
    {
        let mut out: Vec<u8> = Vec::new();
        append_text(&mut out, "mode=");
        append_text(&mut out, qa_mode_name(&mode));
        append_text(&mut out, ";");
        proof {
            crate::bytes::lemma_encode_utf8_concat("mode="@, qa_mode_label(mode));
            crate::bytes::lemma_encode_utf8_concat("mode="@ + qa_mode_label(mode), ";"@);
            assert(out@ =~= encode_utf8("mode="@ + qa_mode_label(mode) + ";"@));
        }
        append_bytes(&mut out, current_config.as_slice());
        append_text(&mut out, "|");
        append_bytes(&mut out, answers.as_slice());
        out
    }

    /// The localisation keys that the component uses.
    pub fn i18n_keys() -> (keys: Vec<String>)
        ensures
            keys@.len() == 2,
            keys@[0]@ == "fixture.title"@,
            keys@[1]@ == "fixture.description"@,
    {
        let mut keys: Vec<String> = Vec::new();
        keys.push(String::from_str("fixture.title"));
        keys.push(String::from_str("fixture.description"));
        keys
    }
}

} // verus!
