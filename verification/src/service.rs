//! The service facade: it owns the extracted endpoint list and the access
//! policy, projects endpoints into tool descriptors, and turns tool
//! invocations into concrete request plans. The HTTP transport itself is a
//! collaborator outside this library; the facade only decides.

use vstd::prelude::*;
use vstd::string::*;

use crate::json::JsonVal;
use crate::json::JsonValue;
use crate::json::jval_of;
use crate::json::jfields_of;
use crate::json::spec_lookup;
use crate::types::HttpMethod;
use crate::types::ParameterType;
use crate::types::ParamModel;
use crate::types::PropModel;
use crate::types::EndpointModel;
use crate::types::PangolinEndpoint;
use crate::types::spec_is_write_operation;
use crate::types::spec_json_schema_type;
use crate::swagger::SwaggerSpec;
use crate::swagger::spec_extract_endpoints;
use crate::swagger::spec_add_required;
use crate::swagger::spec_build_url;

verus! {

/// Whether `url::Url::parse` accepts the text as a well-formed URL.
pub uninterp spec fn spec_url_ok(s: Seq<char>) -> bool;

/// Relies on `url::Url::parse`: whether the text is a well-formed URL;
/// acceptance depends on the text alone.
#[verifier::external_body]
fn url_is_valid(s: &str) -> (r: bool)
    ensures
        r == spec_url_ok(s@),
{
    url::Url::parse(s).is_ok()
}

/// The outcome of one tool call, as handed back to the protocol layer.
#[derive(Debug, PartialEq)]
pub struct CallResult {
    pub is_error: bool,
    pub content: String,
}

/// The textual form of a JSON value used for URL parameters: strings stay
/// themselves, numbers keep their decimal text, booleans become `true` or
/// `false`, null becomes empty, and anything else its compact JSON text.
pub open spec fn spec_value_to_string(v: JsonVal) -> Seq<char> {
    match v {
        JsonVal::Str(s) => s,
        JsonVal::Num(s) => s,
        JsonVal::Bool(b) => if b {
            "true"@
        } else {
            "false"@
        },
        JsonVal::Null => Seq::empty(),
        _ => crate::json::spec_compact_text(v),
    }
}

/// Stringifies a JSON value for use as a URL parameter.
pub fn value_to_string(value: &JsonValue) -> (r: String)
    ensures
        r@ == spec_value_to_string(jval_of(*value)),
{
    match value {
        JsonValue::String(s) => s.clone(),
        JsonValue::Number(s) => s.clone(),
        JsonValue::Bool(b) => if *b {
            String::from_str("true")
        } else {
            String::from_str("false")
        },
        JsonValue::Null => String::new(),
        other => crate::json::to_compact_string(other),
    }
}

/// Model of one input-schema property entry.
pub struct PropEntryModel {
    pub json_type: Seq<char>,
    pub description: Option<Seq<char>>,
    pub default_value: Option<JsonVal>,
    pub enum_values: Option<Seq<Seq<char>>>,
}

/// One property of a tool's input schema.
#[derive(Debug, PartialEq)]
pub struct PropEntry {
    pub json_type: String,
    pub description: Option<String>,
    pub default_value: Option<JsonValue>,
    pub enum_values: Option<Vec<String>>,
}

impl DeepView for PropEntry {
    type V = PropEntryModel;

    open spec fn deep_view(&self) -> PropEntryModel {
        PropEntryModel {
            json_type: self.json_type@,
            description: match self.description {
                Some(d) => Some(d@),
                None => None,
            },
            default_value: match self.default_value {
                Some(v) => Some(jval_of(v)),
                None => None,
            },
            enum_values: match self.enum_values {
                Some(vs) => Some(vs.deep_view()),
                None => None,
            },
        }
    }
}

/// Model of a tool descriptor.
pub struct ToolDescriptorModel {
    pub name: Seq<char>,
    pub description: Seq<char>,
    pub properties: Seq<(Seq<char>, PropEntryModel)>,
    pub required: Seq<Seq<char>>,
}

/// The externally visible contract of one endpoint: name, description, and a
/// JSON-Schema-shaped input definition.
#[derive(Debug, PartialEq)]
pub struct ToolDescriptor {
    pub name: String,
    pub description: String,
    pub properties: Vec<(String, PropEntry)>,
    pub required: Vec<String>,
}

impl DeepView for ToolDescriptor {
    type V = ToolDescriptorModel;

    open spec fn deep_view(&self) -> ToolDescriptorModel {
        ToolDescriptorModel {
            name: self.name@,
            description: self.description@,
            properties: self.properties.deep_view(),
            required: self.required.deep_view(),
        }
    }
}

/// The input-schema entry a path or query parameter projects to.
pub open spec fn spec_param_entry(p: ParamModel) -> PropEntryModel {
    PropEntryModel {
        json_type: spec_json_schema_type(p.param_type),
        description: p.description,
        default_value: p.default_value,
        enum_values: None,
    }
}

/// The input-schema entry a body property projects to: body properties alone
/// carry their declared enum values.
pub open spec fn spec_body_entry(p: PropModel) -> PropEntryModel {
    PropEntryModel {
        json_type: spec_json_schema_type(p.param_type),
        description: p.description,
        default_value: p.default_value,
        enum_values: p.enum_values,
    }
}

/// Whether the key is already bound among the entries.
pub open spec fn spec_has_key(props: Seq<(Seq<char>, PropEntryModel)>, key: Seq<char>) -> bool {
    exists|i: int| 0 <= i < props.len() && (#[trigger] props[i]).0 == key
}

/// Adds an entry unless its key is already bound: earlier insertions win.
pub open spec fn spec_insert_new(
    props: Seq<(Seq<char>, PropEntryModel)>,
    key: Seq<char>,
    val: PropEntryModel,
) -> Seq<(Seq<char>, PropEntryModel)> {
    if spec_has_key(props, key) {
        props
    } else {
        props.push((key, val))
    }
}

/// Adds the entries of a run of parameters, in order.
pub open spec fn spec_add_params(
    acc: Seq<(Seq<char>, PropEntryModel)>,
    params: Seq<ParamModel>,
) -> Seq<(Seq<char>, PropEntryModel)>
    decreases params.len(),
{
    if params.len() == 0 {
        acc
    } else {
        spec_add_params(
            spec_insert_new(acc, params[0].name, spec_param_entry(params[0])),
            params.drop_first(),
        )
    }
}

/// Adds the entries of a run of body properties, in order.
pub open spec fn spec_add_body_props(
    acc: Seq<(Seq<char>, PropEntryModel)>,
    props: Seq<(Seq<char>, PropModel)>,
) -> Seq<(Seq<char>, PropEntryModel)>
    decreases props.len(),
{
    if props.len() == 0 {
        acc
    } else {
        spec_add_body_props(
            spec_insert_new(acc, props[0].0, spec_body_entry(props[0].1)),
            props.drop_first(),
        )
    }
}

/// Appends the names of the required parameters, in order, skipping names
/// already present.
pub open spec fn spec_add_required_params(
    acc: Seq<Seq<char>>,
    params: Seq<ParamModel>,
) -> Seq<Seq<char>>
    decreases params.len(),
{
    if params.len() == 0 {
        acc
    } else {
        spec_add_required_params(
            if params[0].required && !acc.contains(params[0].name) {
                acc.push(params[0].name)
            } else {
                acc
            },
            params.drop_first(),
        )
    }
}

/// The tags joined with a comma and a space.
pub open spec fn spec_join_comma(tags: Seq<Seq<char>>) -> Seq<char>
    decreases tags.len(),
{
    if tags.len() == 0 {
        Seq::empty()
    } else {
        tags[0] + spec_join_rest(tags.drop_first())
    }
}

/// The remaining tags, each preceded by a comma and a space.
pub open spec fn spec_join_rest(tags: Seq<Seq<char>>) -> Seq<char>
    decreases tags.len(),
{
    if tags.len() == 0 {
        Seq::empty()
    } else {
        ", "@ + tags[0] + spec_join_rest(tags.drop_first())
    }
}

/// The tool description: the bracketed method, the endpoint description, and
/// the comma-joined tags when there are any.
pub open spec fn spec_tool_description(e: EndpointModel) -> Seq<char> {
    let base = "["@ + e.method.spec_as_str() + "] "@ + e.description;
    if e.tags.len() > 0 {
        base + " (Tags: "@ + spec_join_comma(e.tags) + ")"@
    } else {
        base
    }
}

/// The descriptor an endpoint projects to: properties aggregate path
/// parameters, then query parameters, then body properties, earlier
/// insertions winning on a shared name; required names aggregate required
/// path and query parameters and the body's required list, deduplicated in
/// first-seen order.
pub open spec fn spec_descriptor(e: EndpointModel) -> ToolDescriptorModel {
    let props0 = spec_add_params(Seq::empty(), e.path_params);
    let props1 = spec_add_params(props0, e.query_params);
    let props2 = match e.request_body {
        Some(b) => spec_add_body_props(props1, b.properties),
        None => props1,
    };
    let req0 = spec_add_required_params(Seq::empty(), e.path_params);
    let req1 = spec_add_required_params(req0, e.query_params);
    let req2 = match e.request_body {
        Some(b) => spec_add_required(req1, b.required),
        None => req1,
    };
    ToolDescriptorModel {
        name: e.name,
        description: spec_tool_description(e),
        properties: props2,
        required: req2,
    }
}

/// Whether a key is bound among the built entries.
fn has_prop_key(props: &Vec<(String, PropEntry)>, key: &str) -> (r: bool)
    ensures
        r == spec_has_key(props.deep_view(), key@),
{
    let mut i: usize = 0;
    while i < props.len()
        invariant
            i <= props@.len(),
            forall|j: int| 0 <= j < i ==> (#[trigger] props@[j]).0@ != key@,
        decreases props@.len() - i,
    {
        if crate::text::string_eq_str(&props[i].0, key) {
            proof {
                assert(props.deep_view()[i as int].0 == key@);
            }
            return true;
        }
        i = i + 1;
    }
    proof {
        if spec_has_key(props.deep_view(), key@) {
            let w = choose|w: int|
                0 <= w < props.deep_view().len() && (#[trigger] props.deep_view()[w]).0 == key@;
            assert(props@[w].0@ != key@);
            assert(false);
        }
    }
    false
}

/// Builds the entry of one parameter.
fn param_entry(p: &crate::types::EndpointParameter) -> (r: PropEntry)
    ensures
        r.deep_view() == spec_param_entry(p.deep_view()),
{
    PropEntry {
        json_type: String::from_str(p.param_type.to_json_schema_type()),
        description: crate::text::clone_opt_string(&p.description),
        default_value: match &p.default_value {
            Some(v) => Some(crate::json::clone_value(v)),
            None => None,
        },
        enum_values: None,
    }
}

/// Builds the entry of one body property.
fn body_entry(p: &crate::types::PropertySchema) -> (r: PropEntry)
    ensures
        r.deep_view() == spec_body_entry(p.deep_view()),
{
    PropEntry {
        json_type: String::from_str(p.param_type.to_json_schema_type()),
        description: crate::text::clone_opt_string(&p.description),
        default_value: match &p.default_value {
            Some(v) => Some(crate::json::clone_value(v)),
            None => None,
        },
        enum_values: match &p.enum_values {
            Some(vs) => Some(crate::text::clone_string_vec(vs)),
            None => None,
        },
    }
}

/// Adds the entries and required names of a run of parameters.
fn add_param_entries(
    props: &mut Vec<(String, PropEntry)>,
    required: &mut Vec<String>,
    params: &Vec<crate::types::EndpointParameter>,
)
    ensures
        final(props).deep_view() == spec_add_params(old(props).deep_view(), params.deep_view()),
        final(required).deep_view() == spec_add_required_params(
            old(required).deep_view(),
            params.deep_view(),
        ),
{
    let ghost props0 = old(props).deep_view();
    let ghost req0 = old(required).deep_view();
    let ghost pm = params.deep_view();
    proof {
        assert(pm.skip(0) =~= pm);
    }
    let mut k: usize = 0;
    while k < params.len()
        invariant
            k <= params@.len(),
            pm == params.deep_view(),
            pm.len() == params@.len(),
            spec_add_params(props0, pm) == spec_add_params(props.deep_view(), pm.skip(k as int)),
            spec_add_required_params(req0, pm) == spec_add_required_params(
                required.deep_view(),
                pm.skip(k as int),
            ),
        decreases params@.len() - k,
    {
        proof {
            assert(pm.skip(k as int)[0] == pm[k as int]);
            assert(pm[k as int] == params@[k as int].deep_view());
            assert(pm.skip(k as int).drop_first() =~= pm.skip(k as int + 1));
        }
        let p = &params[k];
        if !has_prop_key(props, p.name.as_str()) {
            let ghost prev = props.deep_view();
            props.push((p.name.clone(), param_entry(p)));
            proof {
                assert(props.deep_view() =~= prev.push(
                    (pm[k as int].name, spec_param_entry(pm[k as int])),
                ));
            }
        }
        if p.required && !crate::text::contains_str(required, p.name.as_str()) {
            let ghost prevr = required.deep_view();
            required.push(p.name.clone());
            proof {
                assert(required.deep_view() =~= prevr.push(pm[k as int].name));
            }
        }
        k = k + 1;
    }
    proof {
        assert(pm.skip(k as int).len() == 0);
    }
}

/// Adds the entries of a run of body properties.
fn add_body_entries(
    props: &mut Vec<(String, PropEntry)>,
    body_props: &Vec<(String, crate::types::PropertySchema)>,
)
    ensures
        final(props).deep_view() == spec_add_body_props(
            old(props).deep_view(),
            crate::types::props_model(body_props@),
        ),
{
    let ghost props0 = old(props).deep_view();
    let ghost bm = crate::types::props_model(body_props@);
    proof {
        assert(bm.skip(0) =~= bm);
    }
    let mut k: usize = 0;
    while k < body_props.len()
        invariant
            k <= body_props@.len(),
            bm == crate::types::props_model(body_props@),
            bm.len() == body_props@.len(),
            forall|j: int|
                0 <= j < body_props@.len() ==> bm[j] == ((#[trigger] body_props@[j]).0@,
                crate::types::prop_model(body_props@[j].1)),
            spec_add_body_props(props0, bm) == spec_add_body_props(
                props.deep_view(),
                bm.skip(k as int),
            ),
        decreases body_props@.len() - k,
    {
        proof {
            assert(bm.skip(k as int)[0] == bm[k as int]);
            assert(bm.skip(k as int).drop_first() =~= bm.skip(k as int + 1));
        }
        let name = &body_props[k].0;
        if !has_prop_key(props, name.as_str()) {
            let ghost prev = props.deep_view();
            props.push((name.clone(), body_entry(&body_props[k].1)));
            proof {
                assert(props.deep_view() =~= prev.push(
                    (bm[k as int].0, spec_body_entry(bm[k as int].1)),
                ));
            }
        }
        k = k + 1;
    }
    proof {
        assert(bm.skip(k as int).len() == 0);
    }
}

/// Joins tags with a comma and a space.
fn join_tags(tags: &Vec<String>) -> (r: Vec<char>)
    ensures
        r@ == spec_join_comma(tags.deep_view()),
{
    let ghost tm = tags.deep_view();
    let mut out: Vec<char> = Vec::new();
    if tags.len() == 0 {
        proof {
            assert(out@ =~= spec_join_comma(tm));
        }
        return out;
    }
    let first = crate::text::chars_of(tags[0].as_str());
    crate::text::push_all(&mut out, &first);
    proof {
        assert(tm.skip(1) =~= tm.drop_first());
        assert(out@ =~= tm[0]);
    }
    let mut k: usize = 1;
    while k < tags.len()
        invariant
            1 <= k <= tags@.len(),
            tm == tags.deep_view(),
            tm.len() == tags@.len(),
            spec_join_comma(tm) == out@ + spec_join_rest(tm.skip(k as int)),
        decreases tags@.len() - k,
    {
        proof {
            assert(tm.skip(k as int)[0] == tm[k as int]);
            assert(tm.skip(k as int).drop_first() =~= tm.skip(k as int + 1));
        }
        let ghost prev = out@;
        let sep = crate::text::chars_of(", ");
        crate::text::push_all(&mut out, &sep);
        let tag = crate::text::chars_of(tags[k].as_str());
        crate::text::push_all(&mut out, &tag);
        proof {
            assert(out@ + spec_join_rest(tm.skip(k as int + 1)) =~= prev + (", "@ + tm[k as int]
                + spec_join_rest(tm.skip(k as int + 1))));
        }
        k = k + 1;
    }
    proof {
        assert(spec_join_rest(tm.skip(k as int)) =~= Seq::<char>::empty());
        assert(out@ =~= out@ + spec_join_rest(tm.skip(k as int)));
    }
    out
}

/// Why the service cannot be constructed.
#[derive(Clone, Copy, PartialEq, Eq, Structural, Debug)]
pub enum ServiceError {
    /// The base URL is not a well-formed URL.
    InvalidBaseUrl,
}

impl ServiceError {
    /// The human-readable description of the failure.
    pub open spec fn spec_message(self) -> Seq<char> {
        "Invalid base URL"@
    }

    /// A human-readable description of the failure.
    pub fn message(&self) -> (r: &'static str)
        ensures
            r@ == self.spec_message(),
    {
        "Invalid base URL"
    }
}

/// The endpoints visible and callable under a policy: with read-only on,
/// exactly the GET subset; otherwise all of them.
pub open spec fn spec_available(eps: Seq<EndpointModel>, read_only: bool) -> Seq<EndpointModel> {
    if read_only {
        eps.filter(|e: EndpointModel| e.method == HttpMethod::Get)
    } else {
        eps
    }
}

/// The first endpoint carrying the name, if any.
pub open spec fn spec_find_endpoint(eps: Seq<EndpointModel>, name: Seq<char>) -> Option<
    EndpointModel,
>
    decreases eps.len(),
{
    if eps.len() == 0 {
        None
    } else if eps[0].name == name {
        Some(eps[0])
    } else {
        spec_find_endpoint(eps.drop_first(), name)
    }
}

/// The static capability payload: connection facts, loaded version, mode and
/// the count of currently available operations.
pub struct ServiceInfo {
    pub base_url: String,
    pub api_version: String,
    pub mode: String,
    pub available_count: usize,
}

/// The service facade: the canonical endpoint list, the access policy, and
/// the connection facts, all fixed at construction and never mutated.
pub struct PangolinService {
    pub endpoints: Vec<PangolinEndpoint>,
    pub read_only: bool,
    pub api_version: String,
    pub base_url: String,
    pub api_key: String,
}

impl PangolinService {
    /// Builds the facade: the base URL must be well-formed; the endpoint
    /// list is extracted once and the policy fixed.
    pub fn new(spec: SwaggerSpec, api_key: String, base_url: String, read_only: bool) -> (r: Result<
        PangolinService,
        ServiceError,
    >)
        ensures
            match r {
                Ok(s) => spec_url_ok(base_url@) && s.endpoints.deep_view()
                    == spec_extract_endpoints(spec.deep_view()) && s.read_only == read_only
                    && s.api_version@ == spec.info.version@ && s.base_url@ == base_url@
                    && s.api_key@ == api_key@,
                Err(e) => !spec_url_ok(base_url@) && e == ServiceError::InvalidBaseUrl,
            },
    {
        if !url_is_valid(base_url.as_str()) {
            return Err(ServiceError::InvalidBaseUrl);
        }
        let endpoints = spec.extract_endpoints();
        Ok(
            PangolinService {
                endpoints: endpoints,
                read_only: read_only,
                api_version: spec.info.version,
                base_url: base_url,
                api_key: api_key,
            },
        )
    }

    /// Whether the read-only policy is on.
    pub fn is_read_only(&self) -> (r: bool)
        ensures
            r == self.read_only,
    {
        self.read_only
    }

    /// The endpoints visible and callable under the current policy.
    pub fn get_available_endpoints(&self) -> (r: Vec<&PangolinEndpoint>)
        ensures
            r.deep_view() == spec_available(self.endpoints.deep_view(), self.read_only),
    {
        let ghost em = self.endpoints.deep_view();
        let mut out: Vec<&PangolinEndpoint> = Vec::new();
        let mut i: usize = 0;
        if self.read_only {
            proof {
                reveal(Seq::filter);
                assert(em.take(0) =~= Seq::<EndpointModel>::empty());
                assert(out.deep_view() =~= spec_available(em.take(0), true));
            }
            while i < self.endpoints.len()
                invariant
                    i <= self.endpoints@.len(),
                    em == self.endpoints.deep_view(),
                    em.len() == self.endpoints@.len(),
                    out.deep_view() == spec_available(em.take(i as int), true),
                decreases self.endpoints@.len() - i,
            {
                let e = &self.endpoints[i];
                proof {
                    reveal(Seq::filter);
                    assert(em.take(i as int + 1).drop_last() =~= em.take(i as int));
                    assert(em.take(i as int + 1).last() == em[i as int]);
                    assert(em[i as int] == self.endpoints@[i as int].deep_view());
                    assert(em.take(i as int + 1).len() > 0);
                    assert(spec_available(em.take(i as int + 1), true) == (if em[i as int].method
                        == HttpMethod::Get {
                        spec_available(em.take(i as int), true).push(em[i as int])
                    } else {
                        spec_available(em.take(i as int), true)
                    }));
                }
                if !e.method.is_write_operation() {
                    let ghost prev = out.deep_view();
                    out.push(e);
                    proof {
                        assert(out.deep_view() =~= prev.push(em[i as int]));
                    }
                }
                i = i + 1;
            }
            proof {
                assert(em.take(em.len() as int) =~= em);
            }
        } else {
            while i < self.endpoints.len()
                invariant
                    i <= self.endpoints@.len(),
                    em == self.endpoints.deep_view(),
                    em.len() == self.endpoints@.len(),
                    out.deep_view() == em.take(i as int),
                decreases self.endpoints@.len() - i,
            {
                let ghost prev = out.deep_view();
                out.push(&self.endpoints[i]);
                i = i + 1;
                proof {
                    assert(out.deep_view() =~= prev.push(em[i as int - 1]));
                    assert(em.take(i as int).drop_last() =~= em.take(i as int - 1));
                    assert(out.deep_view() =~= em.take(i as int));
                }
            }
            proof {
                assert(em.take(em.len() as int) =~= em);
            }
        }
        out
    }

    /// The first endpoint carrying the name.
    pub fn find_endpoint(&self, name: &str) -> (r: Option<&PangolinEndpoint>)
        ensures
            match r {
                Some(e) => spec_find_endpoint(self.endpoints.deep_view(), name@) == Some(
                    e.deep_view(),
                ),
                None => spec_find_endpoint(self.endpoints.deep_view(), name@) is None,
            },
    {
        let ghost em = self.endpoints.deep_view();
        proof {
            assert(em.skip(0) =~= em);
        }
        let mut i: usize = 0;
        while i < self.endpoints.len()
            invariant
                i <= self.endpoints@.len(),
                em == self.endpoints.deep_view(),
                em.len() == self.endpoints@.len(),
                spec_find_endpoint(em, name@) == spec_find_endpoint(em.skip(i as int), name@),
            decreases self.endpoints@.len() - i,
        {
            proof {
                assert(em.skip(i as int)[0] == em[i as int]);
                assert(em[i as int] == self.endpoints@[i as int].deep_view());
            }
            if crate::text::string_eq_str(&self.endpoints[i].name, name) {
                return Some(&self.endpoints[i]);
            }
            proof {
                assert(em.skip(i as int).drop_first() =~= em.skip(i as int + 1));
            }
            i = i + 1;
        }
        proof {
            assert(em.skip(i as int).len() == 0);
        }
        None
    }

    /// Projects one endpoint into its tool descriptor.
    pub fn endpoint_to_mcp(&self, endpoint: &PangolinEndpoint) -> (r: ToolDescriptor)
        ensures
            r.deep_view() == spec_descriptor(endpoint.deep_view()),
    {
        let ghost e = endpoint.deep_view();
        let mut props: Vec<(String, PropEntry)> = Vec::new();
        let mut required: Vec<String> = Vec::new();
        proof {
            assert(props.deep_view() =~= Seq::<(Seq<char>, PropEntryModel)>::empty());
            assert(required.deep_view() =~= Seq::<Seq<char>>::empty());
        }
        add_param_entries(&mut props, &mut required, &endpoint.path_params);
        add_param_entries(&mut props, &mut required, &endpoint.query_params);
        match &endpoint.request_body {
            Some(b) => {
                add_body_entries(&mut props, &b.properties);
                crate::swagger::add_required(&mut required, &b.required);
            },
            None => {},
        }
        let mut d = crate::text::chars_of("[");
        let mc = crate::text::chars_of(endpoint.method.as_str());
        crate::text::push_all(&mut d, &mc);
        let sep = crate::text::chars_of("] ");
        crate::text::push_all(&mut d, &sep);
        let dc = crate::text::chars_of(endpoint.description.as_str());
        crate::text::push_all(&mut d, &dc);
        if endpoint.tags.len() > 0 {
            let t0 = crate::text::chars_of(" (Tags: ");
            crate::text::push_all(&mut d, &t0);
            let tj = join_tags(&endpoint.tags);
            crate::text::push_all(&mut d, &tj);
            let t1 = crate::text::chars_of(")");
            crate::text::push_all(&mut d, &t1);
        }
        proof {
            assert(d@ =~= spec_tool_description(e));
        }
        ToolDescriptor {
            name: endpoint.name.clone(),
            description: crate::text::string_from_chars(&d),
            properties: props,
            required: required,
        }
    }

    /// The static capability payload for the current configuration.
    pub fn get_info(&self) -> (r: ServiceInfo)
        ensures
            r.base_url@ == self.base_url@,
            r.api_version@ == self.api_version@,
            r.mode@ == (if self.read_only {
                "read-only"@
            } else {
                "read-write"@
            }),
            r.available_count == spec_available(
                self.endpoints.deep_view(),
                self.read_only,
            ).len(),
    {
        let available = self.get_available_endpoints();
        let mode = if self.read_only {
            String::from_str("read-only")
        } else {
            String::from_str("read-write")
        };
        ServiceInfo {
            base_url: self.base_url.clone(),
            api_version: self.api_version.clone(),
            mode: mode,
            available_count: available.len(),
        }
    }

    /// The descriptors of every available endpoint, in order.
    pub fn list_tools(&self) -> (r: Vec<ToolDescriptor>)
        ensures
            r.deep_view().len() == spec_available(
                self.endpoints.deep_view(),
                self.read_only,
            ).len(),
            forall|i: int|
                0 <= i < r.deep_view().len() ==> r.deep_view()[i] == spec_descriptor(
                    #[trigger] spec_available(self.endpoints.deep_view(), self.read_only)[i],
                ),
    {
        let available = self.get_available_endpoints();
        let ghost am = available.deep_view();
        let mut out: Vec<ToolDescriptor> = Vec::new();
        let mut i: usize = 0;
        while i < available.len()
            invariant
                i <= available@.len(),
                am == available.deep_view(),
                am.len() == available@.len(),
                out@.len() == i,
                forall|j: int|
                    0 <= j < i ==> (#[trigger] out@[j]).deep_view() == spec_descriptor(am[j]),
            decreases available@.len() - i,
        {
            proof {
                assert(am[i as int] == available@[i as int].deep_view());
            }
            out.push(self.endpoint_to_mcp(available[i]));
            i = i + 1;
        }
        out
    }
}

// ---------------------------------------------------------------------------
// Dispatch: partitioning arguments, building the request plan, and enforcing
// the read-only policy. The HTTP collaborator is driven from outside with the
// plan this produces.
// ---------------------------------------------------------------------------

/// Whether a parameter with the name is declared.
pub open spec fn spec_has_param(params: Seq<ParamModel>, name: Seq<char>) -> bool {
    exists|i: int| 0 <= i < params.len() && (#[trigger] params[i]).name == name
}

/// The stringified (name, value) pairs of the declared parameters that were
/// supplied, in declared order.
pub open spec fn spec_param_bucket(
    params: Seq<ParamModel>,
    args: Seq<(Seq<char>, JsonVal)>,
) -> Seq<(Seq<char>, Seq<char>)>
    decreases params.len(),
{
    if params.len() == 0 {
        Seq::empty()
    } else {
        let rest = spec_param_bucket(params.drop_first(), args);
        match spec_lookup(args, params[0].name) {
            Some(v) => seq![(params[0].name, spec_value_to_string(v))] + rest,
            None => rest,
        }
    }
}

/// The first declared-required parameter that was not supplied, if any.
pub open spec fn spec_first_missing(
    params: Seq<ParamModel>,
    args: Seq<(Seq<char>, JsonVal)>,
) -> Option<Seq<char>>
    decreases params.len(),
{
    if params.len() == 0 {
        None
    } else if spec_lookup(args, params[0].name) is None && params[0].required {
        Some(params[0].name)
    } else {
        spec_first_missing(params.drop_first(), args)
    }
}

/// The supplied arguments that name neither a path nor a query parameter, in
/// supplied order: they form the request body.
pub open spec fn spec_body_bucket(
    args: Seq<(Seq<char>, JsonVal)>,
    path_params: Seq<ParamModel>,
    query_params: Seq<ParamModel>,
) -> Seq<(Seq<char>, JsonVal)>
    decreases args.len(),
{
    if args.len() == 0 {
        Seq::empty()
    } else {
        let rest = spec_body_bucket(args.drop_first(), path_params, query_params);
        if !spec_has_param(path_params, args[0].0) && !spec_has_param(query_params, args[0].0) {
            seq![args[0]] + rest
        } else {
            rest
        }
    }
}

/// Whether the plan's body carries exactly the bucket: no body when the
/// bucket is empty, else a JSON object of exactly its fields.
pub open spec fn spec_body_matches(
    bucket: Seq<(Seq<char>, JsonVal)>,
    body: Option<JsonValue>,
) -> bool {
    match body {
        None => bucket.len() == 0,
        Some(v) => bucket.len() > 0 && jval_of(v) == JsonVal::Obj(bucket),
    }
}

/// The content of the structured result returned for a write operation
/// blocked by the read-only policy.
pub open spec fn spec_blocked_message(name: Seq<char>) -> Seq<char> {
    "Error: Write operation '"@ + name
        + "' is not allowed in read-only mode. The server is configured with PANGOLIN_READ_ONLY=true."@
}

/// A concrete request, ready for the HTTP collaborator: method, URL, the
/// authorization header value, query parameters, and an optional JSON body.
pub struct RequestPlan {
    pub method: HttpMethod,
    pub url: String,
    pub authorization: String,
    pub query: Vec<(String, String)>,
    pub body: Option<JsonValue>,
}

/// What preparing a call decides: reject the request, refuse the write under
/// policy, or hand over a concrete plan.
pub enum PrepareOutcome {
    /// No endpoint carries the requested name: a protocol-level rejection.
    UnknownOperation,
    /// A required path parameter was not supplied: a protocol-level
    /// rejection naming the parameter.
    MissingRequiredParameter(String),
    /// A write operation under read-only policy: a structured error result,
    /// never sent to the collaborator.
    Blocked(CallResult),
    /// The request to send.
    Ready(RequestPlan),
}

/// Whether a parameter with the name is declared.
fn has_param(params: &Vec<crate::types::EndpointParameter>, name: &str) -> (r: bool)
    ensures
        r == spec_has_param(params.deep_view(), name@),
{
    let mut i: usize = 0;
    while i < params.len()
        invariant
            i <= params@.len(),
            forall|j: int| 0 <= j < i ==> (#[trigger] params@[j]).name@ != name@,
        decreases params@.len() - i,
    {
        if crate::text::string_eq_str(&params[i].name, name) {
            proof {
                assert(params.deep_view()[i as int].name == name@);
            }
            return true;
        }
        i = i + 1;
    }
    proof {
        if spec_has_param(params.deep_view(), name@) {
            let w = choose|w: int|
                0 <= w < params.deep_view().len() && (#[trigger] params.deep_view()[w]).name
                    == name@;
            assert(params@[w].name@ != name@);
            assert(false);
        }
    }
    false
}

impl PangolinService {
    /// Decides one tool call: looks the operation up, enforces the read-only
    /// policy, partitions the arguments into path, query and body buckets,
    /// and builds the concrete request plan with the bearer authorization
    /// attached.
    pub fn prepare_call(&self, name: &str, args: &Vec<(String, JsonValue)>) -> (r: PrepareOutcome)
        ensures
            ({
                let eps = self.endpoints.deep_view();
                let argsm = jfields_of(args@);
                match spec_find_endpoint(eps, name@) {
                    None => r is UnknownOperation,
                    Some(e) => if self.read_only && spec_is_write_operation(e.method) {
                        match r {
                            PrepareOutcome::Blocked(c) => c.is_error && c.content@
                                == spec_blocked_message(name@),
                            _ => false,
                        }
                    } else {
                        match spec_first_missing(e.path_params, argsm) {
                            Some(p) => match r {
                                PrepareOutcome::MissingRequiredParameter(m) => m@ == p,
                                _ => false,
                            },
                            None => match r {
                                PrepareOutcome::Ready(plan) => {
                                    &&& plan.method == e.method
                                    &&& plan.url@ == spec_build_url(
                                        self.base_url@,
                                        e.path,
                                        spec_param_bucket(e.path_params, argsm),
                                    )
                                    &&& plan.authorization@ == "Bearer "@ + self.api_key@
                                    &&& plan.query.deep_view() == spec_param_bucket(
                                        e.query_params,
                                        argsm,
                                    )
                                    &&& (match e.request_body {
                                        Some(_) => spec_body_matches(
                                            spec_body_bucket(argsm, e.path_params, e.query_params),
                                            plan.body,
                                        ),
                                        None => plan.body is None,
                                    })
                                },
                                _ => false,
                            },
                        }
                    },
                }
            }),
    {
        let ghost argsm = jfields_of(args@);
        proof {
            crate::json::lemma_jfields_of(args@);
        }
        let endpoint = match self.find_endpoint(name) {
            Some(e) => e,
            None => {
                return PrepareOutcome::UnknownOperation;
            },
        };
        let ghost e = endpoint.deep_view();
        if self.read_only && endpoint.method.is_write_operation() {
            let mut msg = crate::text::chars_of("Error: Write operation '");
            let nc = crate::text::chars_of(name);
            crate::text::push_all(&mut msg, &nc);
            let tail = crate::text::chars_of(
                "' is not allowed in read-only mode. The server is configured with PANGOLIN_READ_ONLY=true.",
            );
            crate::text::push_all(&mut msg, &tail);
            proof {
                assert(msg@ =~= spec_blocked_message(name@));
            }
            return PrepareOutcome::Blocked(
                CallResult { is_error: true, content: crate::text::string_from_chars(&msg) },
            );
        }
        let ghost ppm = endpoint.path_params.deep_view();
        let mut path_bucket: Vec<(String, String)> = Vec::new();
        proof {
            assert(ppm.skip(0) =~= ppm);
            assert(path_bucket.deep_view() + spec_param_bucket(ppm, argsm) =~= spec_param_bucket(
                ppm,
                argsm,
            ));
        }
        let mut i: usize = 0;
        while i < endpoint.path_params.len()
            invariant
                i <= endpoint.path_params@.len(),
                spec_find_endpoint(self.endpoints.deep_view(), name@) == Some(e),
                e == endpoint.deep_view(),
                !(self.read_only && spec_is_write_operation(e.method)),
                ppm == endpoint.path_params.deep_view(),
                ppm == e.path_params,
                ppm.len() == endpoint.path_params@.len(),
                argsm == jfields_of(args@),
                spec_param_bucket(ppm, argsm) == path_bucket.deep_view() + spec_param_bucket(
                    ppm.skip(i as int),
                    argsm,
                ),
                spec_first_missing(ppm, argsm) == spec_first_missing(ppm.skip(i as int), argsm),
            decreases endpoint.path_params@.len() - i,
        {
            proof {
                assert(ppm.skip(i as int)[0] == ppm[i as int]);
                assert(ppm[i as int] == endpoint.path_params@[i as int].deep_view());
                assert(ppm.skip(i as int).drop_first() =~= ppm.skip(i as int + 1));
            }
            let p = &endpoint.path_params[i];
            match crate::json::obj_lookup(args, p.name.as_str()) {
                Some(v) => {
                    let ghost prev = path_bucket.deep_view();
                    path_bucket.push((p.name.clone(), value_to_string(v)));
                    proof {
                        assert(path_bucket.deep_view() =~= prev + seq![
                            (ppm[i as int].name, spec_value_to_string(jval_of(*v))),
                        ]);
                        assert(path_bucket.deep_view() + spec_param_bucket(
                            ppm.skip(i as int + 1),
                            argsm,
                        ) =~= prev + (seq![(ppm[i as int].name, spec_value_to_string(jval_of(*v)))]
                            + spec_param_bucket(ppm.skip(i as int + 1), argsm)));
                    }
                },
                None => {
                    if p.required {
                        return PrepareOutcome::MissingRequiredParameter(p.name.clone());
                    }
                },
            }
            i = i + 1;
        }
        proof {
            assert(ppm.skip(i as int).len() == 0);
            assert(path_bucket.deep_view() =~= path_bucket.deep_view() + spec_param_bucket(
                ppm.skip(i as int),
                argsm,
            ));
        }
        let ghost qpm = endpoint.query_params.deep_view();
        let mut query_bucket: Vec<(String, String)> = Vec::new();
        proof {
            assert(qpm.skip(0) =~= qpm);
            assert(query_bucket.deep_view() + spec_param_bucket(qpm, argsm) =~= spec_param_bucket(
                qpm,
                argsm,
            ));
        }
        let mut q: usize = 0;
        while q < endpoint.query_params.len()
            invariant
                q <= endpoint.query_params@.len(),
                qpm == endpoint.query_params.deep_view(),
                qpm.len() == endpoint.query_params@.len(),
                argsm == jfields_of(args@),
                spec_param_bucket(qpm, argsm) == query_bucket.deep_view() + spec_param_bucket(
                    qpm.skip(q as int),
                    argsm,
                ),
            decreases endpoint.query_params@.len() - q,
        {
            proof {
                assert(qpm.skip(q as int)[0] == qpm[q as int]);
                assert(qpm[q as int] == endpoint.query_params@[q as int].deep_view());
                assert(qpm.skip(q as int).drop_first() =~= qpm.skip(q as int + 1));
            }
            let p = &endpoint.query_params[q];
            match crate::json::obj_lookup(args, p.name.as_str()) {
                Some(v) => {
                    let ghost prev = query_bucket.deep_view();
                    query_bucket.push((p.name.clone(), value_to_string(v)));
                    proof {
                        assert(query_bucket.deep_view() =~= prev + seq![
                            (qpm[q as int].name, spec_value_to_string(jval_of(*v))),
                        ]);
                        assert(query_bucket.deep_view() + spec_param_bucket(
                            qpm.skip(q as int + 1),
                            argsm,
                        ) =~= prev + (seq![(qpm[q as int].name, spec_value_to_string(jval_of(*v)))]
                            + spec_param_bucket(qpm.skip(q as int + 1), argsm)));
                    }
                },
                None => {},
            }
            q = q + 1;
        }
        proof {
            assert(qpm.skip(q as int).len() == 0);
            assert(query_bucket.deep_view() =~= query_bucket.deep_view() + spec_param_bucket(
                qpm.skip(q as int),
                argsm,
            ));
        }
        let body: Option<JsonValue> = match &endpoint.request_body {
            Some(_) => {
                let mut body_fields: Vec<(String, JsonValue)> = Vec::new();
                proof {
                    crate::json::lemma_jfields_of(body_fields@);
                    assert(argsm.skip(0) =~= argsm);
                    assert(jfields_of(body_fields@) + spec_body_bucket(argsm, ppm, qpm)
                        =~= spec_body_bucket(argsm, ppm, qpm));
                }
                let mut a: usize = 0;
                while a < args.len()
                    invariant
                        a <= args@.len(),
                        argsm == jfields_of(args@),
                        argsm.len() == args@.len(),
                        forall|j: int|
                            0 <= j < args@.len() ==> #[trigger] argsm[j] == (
                                args@[j].0@,
                                jval_of(args@[j].1),
                            ),
                        ppm == endpoint.path_params.deep_view(),
                        qpm == endpoint.query_params.deep_view(),
                        spec_body_bucket(argsm, ppm, qpm) == jfields_of(body_fields@)
                            + spec_body_bucket(argsm.skip(a as int), ppm, qpm),
                    decreases args@.len() - a,
                {
                    proof {
                        assert(argsm.skip(a as int)[0] == argsm[a as int]);
                        assert(argsm.skip(a as int).drop_first() =~= argsm.skip(a as int + 1));
                    }
                    let key = &args[a].0;
                    let in_path = has_param(&endpoint.path_params, key.as_str());
                    let in_query = has_param(&endpoint.query_params, key.as_str());
                    if !in_path && !in_query {
                        let ghost prev = jfields_of(body_fields@);
                        let ghost bf0 = body_fields@;
                        proof {
                            crate::json::lemma_jfields_of(bf0);
                        }
                        let cloned = crate::json::clone_value(&args[a].1);
                        body_fields.push((key.clone(), cloned));
                        proof {
                            crate::json::lemma_jfields_of(body_fields@);
                            assert forall|j: int|
                                0 <= j < jfields_of(body_fields@).len() implies jfields_of(
                                body_fields@,
                            )[j] == (prev + seq![argsm[a as int]])[j] by {
                                assert(jfields_of(body_fields@)[j] == (
                                    body_fields@[j].0@,
                                    jval_of(body_fields@[j].1),
                                ));
                                if j < bf0.len() {
                                    assert(body_fields@[j] == bf0[j]);
                                    assert(prev[j] == (bf0[j].0@, jval_of(bf0[j].1)));
                                }
                            }
                            assert(jfields_of(body_fields@) =~= prev + seq![argsm[a as int]]);
                            assert(jfields_of(body_fields@) + spec_body_bucket(
                                argsm.skip(a as int + 1),
                                ppm,
                                qpm,
                            ) =~= prev + (seq![argsm[a as int]] + spec_body_bucket(
                                argsm.skip(a as int + 1),
                                ppm,
                                qpm,
                            )));
                        }
                    }
                    a = a + 1;
                }
                proof {
                    assert(argsm.skip(a as int).len() == 0);
                    assert(jfields_of(body_fields@) =~= jfields_of(body_fields@)
                        + spec_body_bucket(argsm.skip(a as int), ppm, qpm));
                }
                if body_fields.len() == 0 {
                    proof {
                        crate::json::lemma_jfields_of(body_fields@);
                    }
                    None
                } else {
                    proof {
                        crate::json::lemma_jfields_of(body_fields@);
                    }
                    Some(JsonValue::Object(body_fields))
                }
            },
            None => None,
        };
        let url = crate::swagger::build_url(
            self.base_url.as_str(),
            endpoint.path.as_str(),
            &path_bucket,
        );
        let mut auth = crate::text::chars_of("Bearer ");
        let kc = crate::text::chars_of(self.api_key.as_str());
        crate::text::push_all(&mut auth, &kc);
        proof {
            assert(auth@ =~= "Bearer "@ + self.api_key@);
        }
        PrepareOutcome::Ready(
            RequestPlan {
                method: endpoint.method,
                url: url,
                authorization: crate::text::string_from_chars(&auth),
                query: query_bucket,
                body: body,
            },
        )
    }
}

// ---------------------------------------------------------------------------
// Response interpretation: every downstream outcome becomes a readable call
// result, never a hard failure.
// ---------------------------------------------------------------------------

/// True exactly for the 2xx status codes.
pub open spec fn spec_is_success_status(status: u16) -> bool {
    200 <= status < 300
}

/// The human message taken from an error body: the `message` field when it is
/// a string, else the `error` field when `message` is absent and `error` is a
/// string, else the raw body text.
pub open spec fn spec_error_message_from(body: Seq<char>) -> Seq<char> {
    match crate::json::spec_parse_json(body) {
        Some(JsonVal::Obj(o)) => match spec_lookup(o, "message"@) {
            Some(v) => match v {
                JsonVal::Str(s) => s,
                _ => body,
            },
            None => match spec_lookup(o, "error"@) {
                Some(JsonVal::Str(s)) => s,
                _ => body,
            },
        },
        _ => body,
    }
}

/// The content reported for a non-success status.
pub open spec fn spec_error_content(status_text: Seq<char>, body: Seq<char>) -> Seq<char> {
    "Pangolin API error ("@ + status_text + "): "@ + spec_error_message_from(body)
}

/// The tree synthesized for an empty success body.
pub open spec fn spec_success_obj() -> JsonVal {
    JsonVal::Obj(seq![("status"@, JsonVal::Str("success"@))])
}

/// The content reported for a success status: the response pretty-printed,
/// a synthesized `status: success` object for an empty body, and the raw text
/// as a JSON string when it does not parse.
pub open spec fn spec_success_content(body: Seq<char>) -> Seq<char> {
    if body.len() == 0 {
        crate::json::spec_pretty_text(spec_success_obj())
    } else {
        match crate::json::spec_parse_json(body) {
            Some(m) => crate::json::spec_pretty_text(m),
            None => crate::json::spec_pretty_text(JsonVal::Str(body)),
        }
    }
}

/// Turns a received response into the call result: success bodies are
/// pretty-printed, error statuses become a readable message.
pub fn interpret_response(status: u16, status_text: &str, body: &str) -> (r: CallResult)
    ensures
        r.is_error == !spec_is_success_status(status),
        spec_is_success_status(status) ==> r.content@ == spec_success_content(body@),
        !spec_is_success_status(status) ==> r.content@ == spec_error_content(status_text@, body@),
{
    let success = 200 <= status && status < 300;
    if success {
        if body.unicode_len() == 0 {
            let mut fields_vec: Vec<(String, JsonValue)> = Vec::new();
            fields_vec.push(
                (String::from_str("status"), JsonValue::String(String::from_str("success"))),
            );
            proof {
                crate::json::lemma_jfields_of(fields_vec@);
                assert(jfields_of(fields_vec@) =~= seq![("status"@, JsonVal::Str("success"@))]);
            }
            let v = JsonValue::Object(fields_vec);
            proof {
                assert(jval_of(v) == spec_success_obj());
            }
            CallResult { is_error: false, content: crate::json::to_pretty_string(&v) }
        } else {
            match crate::json::parse_json(body) {
                Ok(t) => CallResult {
                    is_error: false,
                    content: crate::json::to_pretty_string(&t),
                },
                Err(_) => {
                    let v = JsonValue::String(String::from_str(body));
                    CallResult { is_error: false, content: crate::json::to_pretty_string(&v) }
                },
            }
        }
    } else {
        let message: String = match crate::json::parse_json(body) {
            Ok(JsonValue::Object(fields)) => match crate::json::obj_lookup(&fields, "message") {
                Some(JsonValue::String(s)) => s.clone(),
                Some(_) => String::from_str(body),
                None => match crate::json::obj_lookup(&fields, "error") {
                    Some(JsonValue::String(s)) => s.clone(),
                    _ => String::from_str(body),
                },
            },
            _ => String::from_str(body),
        };
        let mut c = crate::text::chars_of("Pangolin API error (");
        let st = crate::text::chars_of(status_text);
        crate::text::push_all(&mut c, &st);
        let sep = crate::text::chars_of("): ");
        crate::text::push_all(&mut c, &sep);
        let mc = crate::text::chars_of(message.as_str());
        crate::text::push_all(&mut c, &mc);
        proof {
            assert(c@ =~= spec_error_content(status_text@, body@));
        }
        CallResult { is_error: true, content: crate::text::string_from_chars(&c) }
    }
}

/// The call result reported for a transport failure: a readable message,
/// never a hard failure.
pub fn transport_error_result(detail: &str) -> (r: CallResult)
    ensures
        r.is_error,
        r.content@ == "Error: "@ + detail@,
{
    let mut c = crate::text::chars_of("Error: ");
    let dc = crate::text::chars_of(detail);
    crate::text::push_all(&mut c, &dc);
    proof {
        assert(c@ =~= "Error: "@ + detail@);
    }
    CallResult { is_error: true, content: crate::text::string_from_chars(&c) }
}

} // verus!
