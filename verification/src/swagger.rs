//! The OpenAPI document model: typed representation of the subset of an
//! OpenAPI 3.0 document this library needs, the decoder that reads it from a
//! parsed JSON tree, and the extraction engine that turns a document into the
//! canonical list of endpoints.

use vstd::prelude::*;

use crate::json::JsonVal;
use crate::json::JsonValue;
use crate::json::jval_of;
use crate::json::jvals_of;
use crate::json::jfields_of;
use crate::json::spec_lookup;
use crate::types::HttpMethod;
use crate::types::EndpointParameter;
use crate::types::PangolinEndpoint;
use crate::types::ParamModel;
use crate::types::ParameterType;
use crate::types::EndpointModel;
use crate::types::PropModel;
use crate::types::BodyModel;
use crate::types::PropertySchema;
use crate::types::RequestBodySchema;
use crate::types::prop_model;
use crate::types::props_model;
use vstd::string::*;

verus! {

/// The fields of a JSON object, in declared order.
pub type JsonFields = Seq<(Seq<char>, JsonVal)>;

/// Model of the document's info block.
pub struct InfoModel {
    pub title: Seq<char>,
    pub version: Seq<char>,
    pub description: Option<Seq<char>>,
}

/// Title, version and optional description of the document.
pub struct SwaggerInfo {
    pub title: String,
    pub version: String,
    pub description: Option<String>,
}

impl DeepView for SwaggerInfo {
    type V = InfoModel;

    open spec fn deep_view(&self) -> InfoModel {
        InfoModel {
            title: self.title@,
            version: self.version@,
            description: match self.description {
                Some(d) => Some(d@),
                None => None,
            },
        }
    }
}

/// Model of a declared server.
pub struct ServerModel {
    pub url: Seq<char>,
    pub description: Option<Seq<char>>,
}

/// One declared server base URL.
pub struct SwaggerServer {
    pub url: String,
    pub description: Option<String>,
}

impl DeepView for SwaggerServer {
    type V = ServerModel;

    open spec fn deep_view(&self) -> ServerModel {
        ServerModel {
            url: self.url@,
            description: match self.description {
                Some(d) => Some(d@),
                None => None,
            },
        }
    }
}

/// Model of a declared parameter's schema.
pub struct ParamSchemaModel {
    pub schema_type: Option<Seq<char>>,
    pub format: Option<Seq<char>>,
    pub default: Option<JsonVal>,
    pub enum_values: Option<Seq<Seq<char>>>,
}

/// The schema attached to a declared parameter.
pub struct ParameterSchema {
    pub schema_type: Option<String>,
    pub format: Option<String>,
    pub default: Option<JsonValue>,
    pub enum_values: Option<Vec<String>>,
}

impl DeepView for ParameterSchema {
    type V = ParamSchemaModel;

    open spec fn deep_view(&self) -> ParamSchemaModel {
        ParamSchemaModel {
            schema_type: match self.schema_type {
                Some(t) => Some(t@),
                None => None,
            },
            format: match self.format {
                Some(t) => Some(t@),
                None => None,
            },
            default: match self.default {
                Some(v) => Some(jval_of(v)),
                None => None,
            },
            enum_values: match self.enum_values {
                Some(vs) => Some(vs.deep_view()),
                None => None,
            },
        }
    }
}

/// Model of a declared parameter.
pub struct SrcParamModel {
    pub name: Seq<char>,
    pub location: Seq<char>,
    pub required: bool,
    pub description: Option<Seq<char>>,
    pub schema: Option<ParamSchemaModel>,
}

/// One declared parameter of an operation, with its location (`path`,
/// `query`, or anything else, which is dropped on extraction).
pub struct Parameter {
    pub name: String,
    pub location: String,
    pub required: bool,
    pub description: Option<String>,
    pub schema: Option<ParameterSchema>,
}

impl DeepView for Parameter {
    type V = SrcParamModel;

    open spec fn deep_view(&self) -> SrcParamModel {
        SrcParamModel {
            name: self.name@,
            location: self.location@,
            required: self.required,
            description: match self.description {
                Some(d) => Some(d@),
                None => None,
            },
            schema: match self.schema {
                Some(s) => Some(s.deep_view()),
                None => None,
            },
        }
    }
}

/// Model of a source property schema.
pub struct SrcPropModel {
    pub schema_type: Option<Seq<char>>,
    pub description: Option<Seq<char>>,
    pub format: Option<Seq<char>>,
    pub default: Option<JsonVal>,
    pub enum_values: Option<Seq<Seq<char>>>,
    pub nullable: Option<bool>,
    pub min_length: Option<Seq<char>>,
    pub max_length: Option<Seq<char>>,
    pub minimum: Option<Seq<char>>,
    pub maximum: Option<Seq<char>>,
    pub exclusive_minimum: Option<bool>,
    pub pattern: Option<Seq<char>>,
    pub items: Option<Box<SrcPropModel>>,
    pub properties: Option<Seq<(Seq<char>, SrcPropModel)>>,
    pub required: Option<Seq<Seq<char>>>,
    pub any_of: Option<Seq<SrcPropModel>>,
}

/// One property schema as declared in the document. Numbers, including the
/// numeric bounds, are carried as their decimal text.
pub struct SchemaProperty {
    pub schema_type: Option<String>,
    pub description: Option<String>,
    pub format: Option<String>,
    pub default: Option<JsonValue>,
    pub enum_values: Option<Vec<String>>,
    pub nullable: Option<bool>,
    pub min_length: Option<String>,
    pub max_length: Option<String>,
    pub minimum: Option<String>,
    pub maximum: Option<String>,
    pub exclusive_minimum: Option<bool>,
    pub pattern: Option<String>,
    pub items: Option<Box<SchemaProperty>>,
    pub properties: Option<Vec<(String, SchemaProperty)>>,
    pub required: Option<Vec<String>>,
    pub any_of: Option<Vec<SchemaProperty>>,
}

/// The model of a source property schema.
pub open spec fn src_prop_model(p: SchemaProperty) -> SrcPropModel
    decreases p,
{
    SrcPropModel {
        schema_type: match p.schema_type {
            Some(t) => Some(t@),
            None => None,
        },
        description: match p.description {
            Some(t) => Some(t@),
            None => None,
        },
        format: match p.format {
            Some(t) => Some(t@),
            None => None,
        },
        default: match p.default {
            Some(v) => Some(jval_of(v)),
            None => None,
        },
        enum_values: match p.enum_values {
            Some(vs) => Some(vs.deep_view()),
            None => None,
        },
        nullable: p.nullable,
        min_length: match p.min_length {
            Some(t) => Some(t@),
            None => None,
        },
        max_length: match p.max_length {
            Some(t) => Some(t@),
            None => None,
        },
        minimum: match p.minimum {
            Some(t) => Some(t@),
            None => None,
        },
        maximum: match p.maximum {
            Some(t) => Some(t@),
            None => None,
        },
        exclusive_minimum: p.exclusive_minimum,
        pattern: match p.pattern {
            Some(t) => Some(t@),
            None => None,
        },
        items: match p.items {
            Some(b) => Some(Box::new(src_prop_model(*b))),
            None => None,
        },
        properties: match p.properties {
            Some(v) => Some(src_prop_map_model(v@)),
            None => None,
        },
        required: match p.required {
            Some(vs) => Some(vs.deep_view()),
            None => None,
        },
        any_of: match p.any_of {
            Some(v) => Some(src_prop_list_model(v@)),
            None => None,
        },
    }
}

/// The models of a sequence of named source property schemas.
pub open spec fn src_prop_map_model(s: Seq<(String, SchemaProperty)>) -> Seq<
    (Seq<char>, SrcPropModel),
>
    decreases s,
{
    if s.len() == 0 {
        Seq::empty()
    } else {
        seq![(s[0].0@, src_prop_model(s[0].1))] + src_prop_map_model(s.subrange(1, s.len() as int))
    }
}

/// The models of a sequence of source property schemas.
pub open spec fn src_prop_list_model(s: Seq<SchemaProperty>) -> Seq<SrcPropModel>
    decreases s,
{
    if s.len() == 0 {
        Seq::empty()
    } else {
        seq![src_prop_model(s[0])] + src_prop_list_model(s.subrange(1, s.len() as int))
    }
}

/// `src_prop_map_model` maps each entry to its model, in place.
pub proof fn lemma_src_prop_map_model(s: Seq<(String, SchemaProperty)>)
    ensures
        src_prop_map_model(s).len() == s.len(),
        forall|i: int|
            0 <= i < s.len() ==> src_prop_map_model(s)[i] == ((#[trigger] s[i]).0@, src_prop_model(
                s[i].1,
            )),
    decreases s.len(),
{
    if s.len() > 0 {
        let tail = s.subrange(1, s.len() as int);
        lemma_src_prop_map_model(tail);
        assert forall|i: int| 0 <= i < s.len() implies src_prop_map_model(s)[i] == ((
        #[trigger] s[i]).0@, src_prop_model(s[i].1)) by {
            if i > 0 {
                assert(tail[i - 1] == s[i]);
            }
        }
    }
}

/// `src_prop_list_model` maps each element to its model, in place.
pub proof fn lemma_src_prop_list_model(s: Seq<SchemaProperty>)
    ensures
        src_prop_list_model(s).len() == s.len(),
        forall|i: int|
            0 <= i < s.len() ==> src_prop_list_model(s)[i] == src_prop_model(#[trigger] s[i]),
    decreases s.len(),
{
    if s.len() > 0 {
        let tail = s.subrange(1, s.len() as int);
        lemma_src_prop_list_model(tail);
        assert forall|i: int| 0 <= i < s.len() implies src_prop_list_model(s)[i] == src_prop_model(
            #[trigger] s[i],
        ) by {
            if i > 0 {
                assert(tail[i - 1] == s[i]);
            }
        }
    }
}

impl DeepView for SchemaProperty {
    type V = SrcPropModel;

    open spec fn deep_view(&self) -> SrcPropModel {
        src_prop_model(*self)
    }
}

/// Model of a schema combinator node.
pub struct SchemaModel {
    pub schema_type: Option<Seq<char>>,
    pub properties: Option<Seq<(Seq<char>, SrcPropModel)>>,
    pub required: Option<Seq<Seq<char>>>,
    pub additional_properties: Option<bool>,
    pub items: Option<Box<SrcPropModel>>,
    pub all_of: Option<Seq<SchemaModel>>,
    pub any_of: Option<Seq<SchemaModel>>,
    pub one_of: Option<Seq<SchemaModel>>,
}

/// A request-body schema node, possibly a composite (`allOf` is merged in
/// full, only the first entry of `anyOf` contributes, and `oneOf` is carried
/// but never merged).
pub struct Schema {
    pub schema_type: Option<String>,
    pub properties: Option<Vec<(String, SchemaProperty)>>,
    pub required: Option<Vec<String>>,
    pub additional_properties: Option<bool>,
    pub items: Option<Box<SchemaProperty>>,
    pub all_of: Option<Vec<Schema>>,
    pub any_of: Option<Vec<Schema>>,
    pub one_of: Option<Vec<Schema>>,
}

/// The model of a schema node.
pub open spec fn schema_model(s: Schema) -> SchemaModel
    decreases s,
{
    SchemaModel {
        schema_type: match s.schema_type {
            Some(t) => Some(t@),
            None => None,
        },
        properties: match s.properties {
            Some(v) => Some(src_prop_map_model(v@)),
            None => None,
        },
        required: match s.required {
            Some(vs) => Some(vs.deep_view()),
            None => None,
        },
        additional_properties: s.additional_properties,
        items: match s.items {
            Some(b) => Some(Box::new(src_prop_model(*b))),
            None => None,
        },
        all_of: match s.all_of {
            Some(v) => Some(schema_list_model(v@)),
            None => None,
        },
        any_of: match s.any_of {
            Some(v) => Some(schema_list_model(v@)),
            None => None,
        },
        one_of: match s.one_of {
            Some(v) => Some(schema_list_model(v@)),
            None => None,
        },
    }
}

/// The models of a sequence of schema nodes.
pub open spec fn schema_list_model(s: Seq<Schema>) -> Seq<SchemaModel>
    decreases s,
{
    if s.len() == 0 {
        Seq::empty()
    } else {
        seq![schema_model(s[0])] + schema_list_model(s.subrange(1, s.len() as int))
    }
}

/// `schema_list_model` maps each element to its model, in place.
pub proof fn lemma_schema_list_model(s: Seq<Schema>)
    ensures
        schema_list_model(s).len() == s.len(),
        forall|i: int|
            0 <= i < s.len() ==> schema_list_model(s)[i] == schema_model(#[trigger] s[i]),
    decreases s.len(),
{
    if s.len() > 0 {
        let tail = s.subrange(1, s.len() as int);
        lemma_schema_list_model(tail);
        assert forall|i: int| 0 <= i < s.len() implies schema_list_model(s)[i] == schema_model(
            #[trigger] s[i],
        ) by {
            if i > 0 {
                assert(tail[i - 1] == s[i]);
            }
        }
    }
}

impl DeepView for Schema {
    type V = SchemaModel;

    open spec fn deep_view(&self) -> SchemaModel {
        schema_model(*self)
    }
}

/// Model of a media type entry.
pub struct MediaTypeModel {
    pub schema: Option<SchemaModel>,
}

/// One media type of a request body: its optional schema.
pub struct MediaType {
    pub schema: Option<Schema>,
}

impl DeepView for MediaType {
    type V = MediaTypeModel;

    open spec fn deep_view(&self) -> MediaTypeModel {
        MediaTypeModel {
            schema: match self.schema {
                Some(s) => Some(schema_model(s)),
                None => None,
            },
        }
    }
}

/// Model of a declared request body.
pub struct RequestBodyModel {
    pub required: bool,
    pub content: Seq<(Seq<char>, MediaTypeModel)>,
}

/// A declared request body: its media types, in declared order.
pub struct RequestBody {
    pub required: bool,
    pub content: Vec<(String, MediaType)>,
}

impl DeepView for RequestBody {
    type V = RequestBodyModel;

    open spec fn deep_view(&self) -> RequestBodyModel {
        RequestBodyModel { required: self.required, content: self.content.deep_view() }
    }
}

/// Model of an operation as declared in the document.
pub struct OpModel {
    pub description: Option<Seq<char>>,
    pub summary: Option<Seq<char>>,
    pub tags: Seq<Seq<char>>,
    pub parameters: Seq<SrcParamModel>,
    pub request_body: Option<RequestBodyModel>,
    pub security: Seq<JsonVal>,
    pub responses: Seq<(Seq<char>, JsonVal)>,
}

/// One operation as declared at a path: the raw material for an endpoint.
pub struct Operation {
    pub description: Option<String>,
    pub summary: Option<String>,
    pub tags: Vec<String>,
    pub parameters: Vec<Parameter>,
    pub request_body: Option<RequestBody>,
    pub security: Vec<JsonValue>,
    pub responses: Vec<(String, JsonValue)>,
}

impl DeepView for Operation {
    type V = OpModel;

    open spec fn deep_view(&self) -> OpModel {
        OpModel {
            description: match self.description {
                Some(d) => Some(d@),
                None => None,
            },
            summary: match self.summary {
                Some(d) => Some(d@),
                None => None,
            },
            tags: self.tags.deep_view(),
            parameters: self.parameters.deep_view(),
            request_body: match self.request_body {
                Some(b) => Some(b.deep_view()),
                None => None,
            },
            security: jvals_of(self.security@),
            responses: jfields_of(self.responses@),
        }
    }
}

/// Model of a path item.
pub struct PathItemModel {
    pub get: Option<OpModel>,
    pub post: Option<OpModel>,
    pub put: Option<OpModel>,
    pub delete: Option<OpModel>,
    pub patch: Option<OpModel>,
}

/// The operations declared at one path, one slot per supported method.
pub struct PathItem {
    pub get: Option<Operation>,
    pub post: Option<Operation>,
    pub put: Option<Operation>,
    pub delete: Option<Operation>,
    pub patch: Option<Operation>,
}

impl DeepView for PathItem {
    type V = PathItemModel;

    open spec fn deep_view(&self) -> PathItemModel {
        PathItemModel {
            get: match self.get {
                Some(o) => Some(o.deep_view()),
                None => None,
            },
            post: match self.post {
                Some(o) => Some(o.deep_view()),
                None => None,
            },
            put: match self.put {
                Some(o) => Some(o.deep_view()),
                None => None,
            },
            delete: match self.delete {
                Some(o) => Some(o.deep_view()),
                None => None,
            },
            patch: match self.patch {
                Some(o) => Some(o.deep_view()),
                None => None,
            },
        }
    }
}

/// Model of the components block.
pub struct ComponentsModel {
    pub schemas: Option<Seq<(Seq<char>, JsonVal)>>,
    pub security_schemes: Option<Seq<(Seq<char>, JsonVal)>>,
    pub parameters: Option<Seq<(Seq<char>, JsonVal)>>,
}

/// The document's components block, carried as raw JSON trees: nothing in the
/// pipeline reads into it (`$ref` resolution is out of scope).
pub struct Components {
    pub schemas: Option<Vec<(String, JsonValue)>>,
    pub security_schemes: Option<Vec<(String, JsonValue)>>,
    pub parameters: Option<Vec<(String, JsonValue)>>,
}

impl DeepView for Components {
    type V = ComponentsModel;

    open spec fn deep_view(&self) -> ComponentsModel {
        ComponentsModel {
            schemas: match self.schemas {
                Some(v) => Some(jfields_of(v@)),
                None => None,
            },
            security_schemes: match self.security_schemes {
                Some(v) => Some(jfields_of(v@)),
                None => None,
            },
            parameters: match self.parameters {
                Some(v) => Some(jfields_of(v@)),
                None => None,
            },
        }
    }
}

/// Model of a whole specification document.
pub struct SpecModel {
    pub openapi: Seq<char>,
    pub info: InfoModel,
    pub servers: Seq<ServerModel>,
    pub paths: Seq<(Seq<char>, PathItemModel)>,
    pub components: Option<ComponentsModel>,
}

/// The root of a parsed specification: info, servers, and the ordered mapping
/// from path template to the operations declared there.
pub struct SwaggerSpec {
    pub openapi: String,
    pub info: SwaggerInfo,
    pub servers: Vec<SwaggerServer>,
    pub paths: Vec<(String, PathItem)>,
    pub components: Option<Components>,
}

impl DeepView for SwaggerSpec {
    type V = SpecModel;

    open spec fn deep_view(&self) -> SpecModel {
        SpecModel {
            openapi: self.openapi@,
            info: self.info.deep_view(),
            servers: self.servers.deep_view(),
            paths: self.paths.deep_view(),
            components: match self.components {
                Some(c) => Some(c.deep_view()),
                None => None,
            },
        }
    }
}

/// Model of an envelope document.
pub struct DocumentModel {
    pub swagger_doc: SpecModel,
    pub custom_options: Option<JsonVal>,
}

/// An envelope document: the full specification nested under a known field,
/// an alternate top-level input shape.
pub struct SwaggerDocument {
    pub swagger_doc: SwaggerSpec,
    pub custom_options: Option<JsonValue>,
}

impl DeepView for SwaggerDocument {
    type V = DocumentModel;

    open spec fn deep_view(&self) -> DocumentModel {
        DocumentModel {
            swagger_doc: self.swagger_doc.deep_view(),
            custom_options: match self.custom_options {
                Some(v) => Some(jval_of(v)),
                None => None,
            },
        }
    }
}

// ---------------------------------------------------------------------------
// Reading the document model out of a parsed JSON tree.
//
// The spec functions below say exactly which trees decode to which models;
// each one fails (returns `None`) precisely where a field is missing or has
// the wrong shape. The executable decoders mirror them one for one.
// ---------------------------------------------------------------------------

/// A field that must be present and hold a string.
pub open spec fn req_str(o: JsonFields, name: Seq<char>) -> Option<Seq<char>> {
    match spec_lookup(o, name) {
        Some(JsonVal::Str(s)) => Some(s),
        _ => None,
    }
}

/// An optional string field: absent or null is no value, anything but a
/// string is a failure.
pub open spec fn opt_str(o: JsonFields, name: Seq<char>) -> Option<Option<Seq<char>>> {
    match spec_lookup(o, name) {
        None => Some(None),
        Some(JsonVal::Null) => Some(None),
        Some(JsonVal::Str(s)) => Some(Some(s)),
        Some(_) => None,
    }
}

/// An optional number field, kept as its decimal text.
pub open spec fn opt_num(o: JsonFields, name: Seq<char>) -> Option<Option<Seq<char>>> {
    match spec_lookup(o, name) {
        None => Some(None),
        Some(JsonVal::Null) => Some(None),
        Some(JsonVal::Num(s)) => Some(Some(s)),
        Some(_) => None,
    }
}

/// The digit run of a number's decimal text: everything after an optional
/// minus sign.
pub open spec fn spec_int_digits(s: Seq<char>) -> Seq<char> {
    if s.len() > 0 && s[0] == '-' {
        s.drop_first()
    } else {
        s
    }
}

/// Whether the text is an integer's decimal form: an optional minus sign
/// followed by digits alone.
pub open spec fn spec_is_int_text(s: Seq<char>) -> bool {
    spec_int_digits(s).len() > 0 && forall|i: int|
        0 <= i < spec_int_digits(s).len() ==> '0' <= #[trigger] spec_int_digits(s)[i] <= '9'
}

/// An optional integer field, kept as its decimal text: a number whose text
/// is not integer-shaped (a fraction or an exponent form) is a failure, as an
/// integer field rejects it. A bound beyond 64 bits is carried as text rather
/// than rejected.
pub open spec fn opt_int(o: JsonFields, name: Seq<char>) -> Option<Option<Seq<char>>> {
    match spec_lookup(o, name) {
        None => Some(None),
        Some(JsonVal::Null) => Some(None),
        Some(JsonVal::Num(s)) => if spec_is_int_text(s) {
            Some(Some(s))
        } else {
            None
        },
        Some(_) => None,
    }
}

/// An optional boolean field: absent or null is no value.
pub open spec fn opt_bool(o: JsonFields, name: Seq<char>) -> Option<Option<bool>> {
    match spec_lookup(o, name) {
        None => Some(None),
        Some(JsonVal::Null) => Some(None),
        Some(JsonVal::Bool(b)) => Some(Some(b)),
        Some(_) => None,
    }
}

/// A boolean field that defaults to false when absent.
pub open spec fn bool_default(o: JsonFields, name: Seq<char>) -> Option<bool> {
    match spec_lookup(o, name) {
        None => Some(false),
        Some(JsonVal::Bool(b)) => Some(b),
        Some(_) => None,
    }
}

/// An optional field kept as a raw tree: absent or null is no value.
pub open spec fn opt_raw(o: JsonFields, name: Seq<char>) -> Option<JsonVal> {
    match spec_lookup(o, name) {
        None => None,
        Some(JsonVal::Null) => None,
        Some(v) => Some(v),
    }
}

/// A sequence of trees that must all be strings.
pub open spec fn dec_str_list(items: Seq<JsonVal>) -> Option<Seq<Seq<char>>>
    decreases items.len(),
{
    if items.len() == 0 {
        Some(Seq::empty())
    } else {
        match items[0] {
            JsonVal::Str(s) => match dec_str_list(items.drop_first()) {
                Some(rest) => Some(seq![s] + rest),
                None => None,
            },
            _ => None,
        }
    }
}

/// A string-array field that defaults to empty when absent.
pub open spec fn str_list_default(o: JsonFields, name: Seq<char>) -> Option<Seq<Seq<char>>> {
    match spec_lookup(o, name) {
        None => Some(Seq::empty()),
        Some(JsonVal::Arr(a)) => dec_str_list(a),
        Some(_) => None,
    }
}

/// An optional string-array field: absent or null is no value.
pub open spec fn opt_str_list(o: JsonFields, name: Seq<char>) -> Option<Option<Seq<Seq<char>>>> {
    match spec_lookup(o, name) {
        None => Some(None),
        Some(JsonVal::Null) => Some(None),
        Some(JsonVal::Arr(a)) => match dec_str_list(a) {
            Some(vs) => Some(Some(vs)),
            None => None,
        },
        Some(_) => None,
    }
}

/// An array field of raw trees that defaults to empty when absent.
pub open spec fn raw_list_default(o: JsonFields, name: Seq<char>) -> Option<Seq<JsonVal>> {
    match spec_lookup(o, name) {
        None => Some(Seq::empty()),
        Some(JsonVal::Arr(a)) => Some(a),
        Some(_) => None,
    }
}

/// An object field of raw trees that defaults to empty when absent.
pub open spec fn raw_obj_default(o: JsonFields, name: Seq<char>) -> Option<JsonFields> {
    match spec_lookup(o, name) {
        None => Some(Seq::empty()),
        Some(JsonVal::Obj(fo)) => Some(fo),
        Some(_) => None,
    }
}

/// An optional object field of raw trees: absent or null is no value.
pub open spec fn opt_raw_obj(o: JsonFields, name: Seq<char>) -> Option<Option<JsonFields>> {
    match spec_lookup(o, name) {
        None => Some(None),
        Some(JsonVal::Null) => Some(None),
        Some(JsonVal::Obj(fo)) => Some(Some(fo)),
        Some(_) => None,
    }
}

/// Reads a field that must be present and hold a string.
fn get_req_string(fields: &Vec<(String, JsonValue)>, name: &str) -> (r: Option<String>)
    ensures
        match r {
            Some(s) => req_str(jfields_of(fields@), name@) == Some(s@),
            None => req_str(jfields_of(fields@), name@) is None,
        },
{
    match crate::json::obj_lookup(fields, name) {
        Some(JsonValue::String(s)) => Some(s.clone()),
        _ => None,
    }
}

/// Reads an optional string field.
fn get_opt_string(fields: &Vec<(String, JsonValue)>, name: &str) -> (r: Option<Option<String>>)
    ensures
        match r {
            Some(Some(s)) => opt_str(jfields_of(fields@), name@) == Some(Some(s@)),
            Some(None) => opt_str(jfields_of(fields@), name@) == Some(
                None::<Seq<char>>,
            ),
            None => opt_str(jfields_of(fields@), name@) is None,
        },
{
    match crate::json::obj_lookup(fields, name) {
        None => Some(None),
        Some(JsonValue::Null) => Some(None),
        Some(JsonValue::String(s)) => Some(Some(s.clone())),
        Some(_) => None,
    }
}

/// Reads an optional number field as its decimal text.
fn get_opt_num_text(fields: &Vec<(String, JsonValue)>, name: &str) -> (r: Option<Option<String>>)
    ensures
        match r {
            Some(Some(s)) => opt_num(jfields_of(fields@), name@) == Some(Some(s@)),
            Some(None) => opt_num(jfields_of(fields@), name@) == Some(
                None::<Seq<char>>,
            ),
            None => opt_num(jfields_of(fields@), name@) is None,
        },
{
    match crate::json::obj_lookup(fields, name) {
        None => Some(None),
        Some(JsonValue::Null) => Some(None),
        Some(JsonValue::Number(s)) => Some(Some(s.clone())),
        Some(_) => None,
    }
}

/// Whether the string holds an integer's decimal form.
fn is_int_text(s: &String) -> (r: bool)
    ensures
        r == spec_is_int_text(s@),
{
    let chars = crate::text::chars_of(s.as_str());
    let start: usize = if chars.len() > 0 && chars[0] == '-' {
        1
    } else {
        0
    };
    let ghost digits = spec_int_digits(s@);
    proof {
        assert(digits =~= chars@.skip(start as int));
    }
    if chars.len() == start {
        return false;
    }
    let mut i: usize = start;
    while i < chars.len()
        invariant
            start <= i <= chars@.len(),
            chars@ == s@,
            digits == spec_int_digits(s@),
            digits =~= chars@.skip(start as int),
            forall|j: int| start <= j < i ==> '0' <= #[trigger] chars@[j] <= '9',
        decreases chars@.len() - i,
    {
        let c = chars[i];
        if !('0' <= c && c <= '9') {
            proof {
                let j = i - start as int;
                assert(0 <= j < spec_int_digits(s@).len());
                assert(spec_int_digits(s@)[j] == chars@[i as int]);
                assert(!spec_is_int_text(s@));
            }
            return false;
        }
        i = i + 1;
    }
    proof {
        assert forall|j: int|
            0 <= j < spec_int_digits(s@).len() implies '0' <= #[trigger] spec_int_digits(s@)[j]
                <= '9' by {
            assert(spec_int_digits(s@)[j] == chars@[start + j]);
        }
    }
    true
}

/// Reads an optional integer field as its decimal text.
fn get_opt_int_text(fields: &Vec<(String, JsonValue)>, name: &str) -> (r: Option<Option<String>>)
    ensures
        match r {
            Some(Some(s)) => opt_int(jfields_of(fields@), name@) == Some(Some(s@)),
            Some(None) => opt_int(jfields_of(fields@), name@) == Some(
                None::<Seq<char>>,
            ),
            None => opt_int(jfields_of(fields@), name@) is None,
        },
{
    match crate::json::obj_lookup(fields, name) {
        None => Some(None),
        Some(JsonValue::Null) => Some(None),
        Some(JsonValue::Number(s)) => if is_int_text(s) {
            Some(Some(s.clone()))
        } else {
            None
        },
        Some(_) => None,
    }
}

/// Reads an optional boolean field.
fn get_opt_bool(fields: &Vec<(String, JsonValue)>, name: &str) -> (r: Option<Option<bool>>)
    ensures
        r == opt_bool(jfields_of(fields@), name@),
{
    match crate::json::obj_lookup(fields, name) {
        None => Some(None),
        Some(JsonValue::Null) => Some(None),
        Some(JsonValue::Bool(b)) => Some(Some(*b)),
        Some(_) => None,
    }
}

/// Reads a boolean field that defaults to false when absent.
fn get_bool_default(fields: &Vec<(String, JsonValue)>, name: &str) -> (r: Option<bool>)
    ensures
        r == bool_default(jfields_of(fields@), name@),
{
    match crate::json::obj_lookup(fields, name) {
        None => Some(false),
        Some(JsonValue::Bool(b)) => Some(*b),
        Some(_) => None,
    }
}

/// Reads an optional field as a raw tree.
fn get_opt_raw(fields: &Vec<(String, JsonValue)>, name: &str) -> (r: Option<JsonValue>)
    ensures
        match r {
            Some(v) => opt_raw(jfields_of(fields@), name@) == Some(jval_of(v)),
            None => opt_raw(jfields_of(fields@), name@) is None,
        },
{
    match crate::json::obj_lookup(fields, name) {
        None => None,
        Some(JsonValue::Null) => None,
        Some(v) => Some(crate::json::clone_value(v)),
    }
}

/// Reads a sequence of trees that must all be strings.
fn decode_str_list(items: &Vec<JsonValue>) -> (r: Option<Vec<String>>)
    ensures
        match r {
            Some(vs) => dec_str_list(jvals_of(items@)) == Some(vs.deep_view()),
            None => dec_str_list(jvals_of(items@)) is None,
        },
{
    let ghost model = jvals_of(items@);
    proof {
        crate::json::lemma_jvals_of(items@);
    }
    let mut out: Vec<String> = Vec::new();
    proof {
        assert(model.skip(0) =~= model);
        assert forall|rest: Seq<Seq<char>>|
            dec_str_list(model.skip(0)) == Some(rest) implies dec_str_list(model) == Some(
            out.deep_view() + rest,
        ) by {
            assert(out.deep_view() + rest =~= rest);
        }
    }
    let mut i: usize = 0;
    while i < items.len()
        invariant
            i <= items@.len(),
            model == jvals_of(items@),
            model.len() == items@.len(),
            forall|j: int| 0 <= j < items@.len() ==> #[trigger] model[j] == jval_of(items@[j]),
            out@.len() == i,
            forall|j: int| 0 <= j < i ==> model[j] == JsonVal::Str((#[trigger] out@[j])@),
            dec_str_list(model) is Some ==> dec_str_list(model.skip(i as int)) is Some,
            forall|rest: Seq<Seq<char>>|
                dec_str_list(model.skip(i as int)) == Some(rest) ==> dec_str_list(model) == Some(
                    out.deep_view() + rest,
                ),
            dec_str_list(model.skip(i as int)) is None ==> dec_str_list(model) is None,
        decreases items@.len() - i,
    {
        proof {
            assert(model.skip(i as int)[0] == model[i as int]);
            assert(model.skip(i as int).drop_first() =~= model.skip(i as int + 1));
        }
        match &items[i] {
            JsonValue::String(s) => {
                let ghost prev = out.deep_view();
                out.push(s.clone());
                proof {
                    assert(out.deep_view() =~= prev + seq![s@]);
                    assert forall|rest: Seq<Seq<char>>|
                        dec_str_list(model.skip(i as int + 1)) == Some(rest) implies dec_str_list(
                        model,
                    ) == Some(out.deep_view() + rest) by {
                        assert(dec_str_list(model.skip(i as int)) == Some(seq![s@] + rest));
                        assert(prev + (seq![s@] + rest) =~= out.deep_view() + rest);
                    }
                }
                i = i + 1;
            },
            _ => {
                return None;
            },
        }
    }
    proof {
        assert(model.skip(i as int) =~= Seq::<JsonVal>::empty());
        assert(dec_str_list(model.skip(i as int)) == Some(Seq::<Seq<char>>::empty()));
        assert(out.deep_view() + Seq::<Seq<char>>::empty() =~= out.deep_view());
    }
    Some(out)
}

/// Reads an optional string-array field.
fn get_opt_str_list(fields: &Vec<(String, JsonValue)>, name: &str) -> (r: Option<
    Option<Vec<String>>,
>)
    ensures
        match r {
            Some(Some(vs)) => opt_str_list(jfields_of(fields@), name@) == Some(
                Some(vs.deep_view()),
            ),
            Some(None) => opt_str_list(jfields_of(fields@), name@) == Some(
                None::<Seq<Seq<char>>>,
            ),
            None => opt_str_list(jfields_of(fields@), name@) is None,
        },
{
    match crate::json::obj_lookup(fields, name) {
        None => Some(None),
        Some(JsonValue::Null) => Some(None),
        Some(JsonValue::Array(items)) => match decode_str_list(items) {
            Some(vs) => Some(Some(vs)),
            None => None,
        },
        Some(_) => None,
    }
}

/// Reads a string-array field that defaults to empty when absent.
fn get_str_list_default(fields: &Vec<(String, JsonValue)>, name: &str) -> (r: Option<Vec<String>>)
    ensures
        match r {
            Some(vs) => str_list_default(jfields_of(fields@), name@) == Some(vs.deep_view()),
            None => str_list_default(jfields_of(fields@), name@) is None,
        },
{
    match crate::json::obj_lookup(fields, name) {
        None => Some(Vec::new()),
        Some(JsonValue::Array(items)) => decode_str_list(items),
        Some(_) => None,
    }
}

/// Reads an array field of raw trees that defaults to empty when absent.
fn get_raw_list_default(fields: &Vec<(String, JsonValue)>, name: &str) -> (r: Option<
    Vec<JsonValue>,
>)
    ensures
        match r {
            Some(vs) => raw_list_default(jfields_of(fields@), name@) == Some(jvals_of(vs@)),
            None => raw_list_default(jfields_of(fields@), name@) is None,
        },
{
    match crate::json::obj_lookup(fields, name) {
        None => Some(Vec::new()),
        Some(JsonValue::Array(items)) => Some(crate::json::clone_values(items)),
        Some(_) => None,
    }
}

/// Reads an object field of raw trees that defaults to empty when absent.
fn get_raw_obj_default(fields: &Vec<(String, JsonValue)>, name: &str) -> (r: Option<
    Vec<(String, JsonValue)>,
>)
    ensures
        match r {
            Some(vs) => raw_obj_default(jfields_of(fields@), name@) == Some(jfields_of(vs@)),
            None => raw_obj_default(jfields_of(fields@), name@) is None,
        },
{
    match crate::json::obj_lookup(fields, name) {
        None => Some(Vec::new()),
        Some(JsonValue::Object(fo)) => Some(crate::json::clone_fields(fo)),
        Some(_) => None,
    }
}

/// Reads an optional object field of raw trees.
fn get_opt_raw_obj(fields: &Vec<(String, JsonValue)>, name: &str) -> (r: Option<
    Option<Vec<(String, JsonValue)>>,
>)
    ensures
        match r {
            Some(Some(vs)) => opt_raw_obj(jfields_of(fields@), name@) == Some(
                Some(jfields_of(vs@)),
            ),
            Some(None) => opt_raw_obj(jfields_of(fields@), name@) == Some(
                None::<JsonFields>,
            ),
            None => opt_raw_obj(jfields_of(fields@), name@) is None,
        },
{
    match crate::json::obj_lookup(fields, name) {
        None => Some(None),
        Some(JsonValue::Null) => Some(None),
        Some(JsonValue::Object(fo)) => Some(Some(crate::json::clone_fields(fo))),
        Some(_) => None,
    }
}

/// The parameter schema a tree decodes to, if it is well-shaped.
pub open spec fn dec_param_schema(v: JsonVal) -> Option<ParamSchemaModel> {
    match v {
        JsonVal::Obj(o) => {
            if opt_str(o, "type"@) is None || opt_str(o, "format"@) is None || opt_str_list(
                o,
                "enum"@,
            ) is None {
                None
            } else {
                Some(
                    ParamSchemaModel {
                        schema_type: opt_str(o, "type"@).unwrap(),
                        format: opt_str(o, "format"@).unwrap(),
                        default: opt_raw(o, "default"@),
                        enum_values: opt_str_list(o, "enum"@).unwrap(),
                    },
                )
            }
        },
        _ => None,
    }
}

/// Decodes a parameter schema.
pub fn decode_param_schema(v: &JsonValue) -> (r: Option<ParameterSchema>)
    ensures
        r.deep_view() == dec_param_schema(jval_of(*v)),
{
    match v {
        JsonValue::Object(fields) => {
            let schema_type = match get_opt_string(fields, "type") {
                Some(x) => x,
                None => {
                    return None;
                },
            };
            let format = match get_opt_string(fields, "format") {
                Some(x) => x,
                None => {
                    return None;
                },
            };
            let default = get_opt_raw(fields, "default");
            let enum_values = match get_opt_str_list(fields, "enum") {
                Some(x) => x,
                None => {
                    return None;
                },
            };
            Some(
                ParameterSchema {
                    schema_type: schema_type,
                    format: format,
                    default: default,
                    enum_values: enum_values,
                },
            )
        },
        _ => None,
    }
}

/// The parameter a tree decodes to, if it is well-shaped.
pub open spec fn dec_parameter(v: JsonVal) -> Option<SrcParamModel> {
    match v {
        JsonVal::Obj(o) => {
            let schema_dec = match opt_raw(o, "schema"@) {
                None => Some(None),
                Some(x) => match dec_param_schema(x) {
                    Some(m) => Some(Some(m)),
                    None => None,
                },
            };
            if req_str(o, "name"@) is None || req_str(o, "in"@) is None || bool_default(
                o,
                "required"@,
            ) is None || opt_str(o, "description"@) is None || schema_dec is None {
                None
            } else {
                Some(
                    SrcParamModel {
                        name: req_str(o, "name"@).unwrap(),
                        location: req_str(o, "in"@).unwrap(),
                        required: bool_default(o, "required"@).unwrap(),
                        description: opt_str(o, "description"@).unwrap(),
                        schema: schema_dec.unwrap(),
                    },
                )
            }
        },
        _ => None,
    }
}

/// Decodes a declared parameter.
pub fn decode_parameter(v: &JsonValue) -> (r: Option<Parameter>)
    ensures
        r.deep_view() == dec_parameter(jval_of(*v)),
{
    match v {
        JsonValue::Object(fields) => {
            let name = match get_req_string(fields, "name") {
                Some(x) => x,
                None => {
                    return None;
                },
            };
            let location = match get_req_string(fields, "in") {
                Some(x) => x,
                None => {
                    return None;
                },
            };
            let required = match get_bool_default(fields, "required") {
                Some(x) => x,
                None => {
                    return None;
                },
            };
            let description = match get_opt_string(fields, "description") {
                Some(x) => x,
                None => {
                    return None;
                },
            };
            let schema = match crate::json::obj_lookup(fields, "schema") {
                None => None,
                Some(JsonValue::Null) => None,
                Some(x) => match decode_param_schema(x) {
                    Some(m) => Some(m),
                    None => {
                        return None;
                    },
                },
            };
            Some(
                Parameter {
                    name: name,
                    location: location,
                    required: required,
                    description: description,
                    schema: schema,
                },
            )
        },
        _ => None,
    }
}

/// The parameter list a sequence of trees decodes to.
pub open spec fn dec_param_list(items: Seq<JsonVal>) -> Option<Seq<SrcParamModel>>
    decreases items.len(),
{
    if items.len() == 0 {
        Some(Seq::empty())
    } else {
        match dec_parameter(items[0]) {
            Some(p) => match dec_param_list(items.drop_first()) {
                Some(rest) => Some(seq![p] + rest),
                None => None,
            },
            None => None,
        }
    }
}

/// Decodes a list of declared parameters.
pub fn decode_param_list(items: &Vec<JsonValue>) -> (r: Option<Vec<Parameter>>)
    ensures
        match r {
            Some(ps) => dec_param_list(jvals_of(items@)) == Some(ps.deep_view()),
            None => dec_param_list(jvals_of(items@)) is None,
        },
{
    let ghost model = jvals_of(items@);
    proof {
        crate::json::lemma_jvals_of(items@);
    }
    let mut out: Vec<Parameter> = Vec::new();
    proof {
        assert(model.skip(0) =~= model);
        assert forall|rest: Seq<SrcParamModel>|
            dec_param_list(model.skip(0)) == Some(rest) implies dec_param_list(model) == Some(
            out.deep_view() + rest,
        ) by {
            assert(out.deep_view() + rest =~= rest);
        }
    }
    let mut i: usize = 0;
    while i < items.len()
        invariant
            i <= items@.len(),
            model == jvals_of(items@),
            model.len() == items@.len(),
            forall|j: int| 0 <= j < items@.len() ==> #[trigger] model[j] == jval_of(items@[j]),
            forall|rest: Seq<SrcParamModel>|
                dec_param_list(model.skip(i as int)) == Some(rest) ==> dec_param_list(model)
                    == Some(out.deep_view() + rest),
            dec_param_list(model.skip(i as int)) is None ==> dec_param_list(model) is None,
        decreases items@.len() - i,
    {
        proof {
            assert(model.skip(i as int)[0] == model[i as int]);
            assert(model.skip(i as int).drop_first() =~= model.skip(i as int + 1));
        }
        match decode_parameter(&items[i]) {
            Some(p) => {
                let ghost prev = out.deep_view();
                let ghost pm = p.deep_view();
                out.push(p);
                proof {
                    assert(out.deep_view() =~= prev + seq![pm]);
                    assert forall|rest: Seq<SrcParamModel>|
                        dec_param_list(model.skip(i as int + 1)) == Some(rest) implies
                        dec_param_list(model) == Some(out.deep_view() + rest) by {
                        assert(dec_param_list(model.skip(i as int)) == Some(seq![pm] + rest));
                        assert(prev + (seq![pm] + rest) =~= out.deep_view() + rest);
                    }
                }
                i = i + 1;
            },
            None => {
                return None;
            },
        }
    }
    proof {
        assert(model.skip(i as int) =~= Seq::<JsonVal>::empty());
        assert(out.deep_view() + Seq::<SrcParamModel>::empty() =~= out.deep_view());
    }
    Some(out)
}

/// The server entry a tree decodes to.
pub open spec fn dec_server(v: JsonVal) -> Option<ServerModel> {
    match v {
        JsonVal::Obj(o) => {
            if req_str(o, "url"@) is None || opt_str(o, "description"@) is None {
                None
            } else {
                Some(
                    ServerModel {
                        url: req_str(o, "url"@).unwrap(),
                        description: opt_str(o, "description"@).unwrap(),
                    },
                )
            }
        },
        _ => None,
    }
}

/// Decodes a server entry.
pub fn decode_server(v: &JsonValue) -> (r: Option<SwaggerServer>)
    ensures
        r.deep_view() == dec_server(jval_of(*v)),
{
    match v {
        JsonValue::Object(fields) => {
            let url = match get_req_string(fields, "url") {
                Some(x) => x,
                None => {
                    return None;
                },
            };
            let description = match get_opt_string(fields, "description") {
                Some(x) => x,
                None => {
                    return None;
                },
            };
            Some(SwaggerServer { url: url, description: description })
        },
        _ => None,
    }
}

/// The server list a sequence of trees decodes to.
pub open spec fn dec_server_list(items: Seq<JsonVal>) -> Option<Seq<ServerModel>>
    decreases items.len(),
{
    if items.len() == 0 {
        Some(Seq::empty())
    } else {
        match dec_server(items[0]) {
            Some(s) => match dec_server_list(items.drop_first()) {
                Some(rest) => Some(seq![s] + rest),
                None => None,
            },
            None => None,
        }
    }
}

/// Decodes a list of servers.
pub fn decode_server_list(items: &Vec<JsonValue>) -> (r: Option<Vec<SwaggerServer>>)
    ensures
        match r {
            Some(ss) => dec_server_list(jvals_of(items@)) == Some(ss.deep_view()),
            None => dec_server_list(jvals_of(items@)) is None,
        },
{
    let ghost model = jvals_of(items@);
    proof {
        crate::json::lemma_jvals_of(items@);
    }
    let mut out: Vec<SwaggerServer> = Vec::new();
    proof {
        assert(model.skip(0) =~= model);
        assert forall|rest: Seq<ServerModel>|
            dec_server_list(model.skip(0)) == Some(rest) implies dec_server_list(model) == Some(
            out.deep_view() + rest,
        ) by {
            assert(out.deep_view() + rest =~= rest);
        }
    }
    let mut i: usize = 0;
    while i < items.len()
        invariant
            i <= items@.len(),
            model == jvals_of(items@),
            model.len() == items@.len(),
            forall|j: int| 0 <= j < items@.len() ==> #[trigger] model[j] == jval_of(items@[j]),
            forall|rest: Seq<ServerModel>|
                dec_server_list(model.skip(i as int)) == Some(rest) ==> dec_server_list(model)
                    == Some(out.deep_view() + rest),
            dec_server_list(model.skip(i as int)) is None ==> dec_server_list(model) is None,
        decreases items@.len() - i,
    {
        proof {
            assert(model.skip(i as int)[0] == model[i as int]);
            assert(model.skip(i as int).drop_first() =~= model.skip(i as int + 1));
        }
        match decode_server(&items[i]) {
            Some(s) => {
                let ghost prev = out.deep_view();
                let ghost sm = s.deep_view();
                out.push(s);
                proof {
                    assert(out.deep_view() =~= prev + seq![sm]);
                    assert forall|rest: Seq<ServerModel>|
                        dec_server_list(model.skip(i as int + 1)) == Some(rest) implies
                        dec_server_list(model) == Some(out.deep_view() + rest) by {
                        assert(dec_server_list(model.skip(i as int)) == Some(seq![sm] + rest));
                        assert(prev + (seq![sm] + rest) =~= out.deep_view() + rest);
                    }
                }
                i = i + 1;
            },
            None => {
                return None;
            },
        }
    }
    proof {
        assert(model.skip(i as int) =~= Seq::<JsonVal>::empty());
        assert(out.deep_view() + Seq::<ServerModel>::empty() =~= out.deep_view());
    }
    Some(out)
}

/// The info block a tree decodes to.
pub open spec fn dec_info(v: JsonVal) -> Option<InfoModel> {
    match v {
        JsonVal::Obj(o) => {
            if req_str(o, "title"@) is None || req_str(o, "version"@) is None || opt_str(
                o,
                "description"@,
            ) is None {
                None
            } else {
                Some(
                    InfoModel {
                        title: req_str(o, "title"@).unwrap(),
                        version: req_str(o, "version"@).unwrap(),
                        description: opt_str(o, "description"@).unwrap(),
                    },
                )
            }
        },
        _ => None,
    }
}

/// Decodes the info block.
pub fn decode_info(v: &JsonValue) -> (r: Option<SwaggerInfo>)
    ensures
        r.deep_view() == dec_info(jval_of(*v)),
{
    match v {
        JsonValue::Object(fields) => {
            let title = match get_req_string(fields, "title") {
                Some(x) => x,
                None => {
                    return None;
                },
            };
            let version = match get_req_string(fields, "version") {
                Some(x) => x,
                None => {
                    return None;
                },
            };
            let description = match get_opt_string(fields, "description") {
                Some(x) => x,
                None => {
                    return None;
                },
            };
            Some(SwaggerInfo { title: title, version: version, description: description })
        },
        _ => None,
    }
}

/// The property schema a tree decodes to, if it is well-shaped. Properties,
/// item schemas and `anyOf` entries are decoded recursively.
pub open spec fn dec_prop_val(v: JsonVal) -> Option<SrcPropModel>
    decreases v,
{
    match v {
        JsonVal::Obj(o) => {
            let items_dec = match opt_raw(o, "items"@) {
                None => Some(None),
                Some(x) => {
                    proof {
                        crate::json::lemma_lookup_member(o, "items"@);
                    }
                    match dec_prop_val(x) {
                        Some(m) => Some(Some(Box::new(m))),
                        None => None,
                    }
                },
            };
            let props_dec = match spec_lookup(o, "properties"@) {
                None => Some(None),
                Some(JsonVal::Null) => Some(None),
                Some(JsonVal::Obj(po)) => {
                    proof {
                        crate::json::lemma_lookup_member(o, "properties"@);
                    }
                    match dec_prop_map(po) {
                        Some(m) => Some(Some(m)),
                        None => None,
                    }
                },
                Some(_) => None,
            };
            let anyof_dec = match spec_lookup(o, "anyOf"@) {
                None => Some(None),
                Some(JsonVal::Null) => Some(None),
                Some(JsonVal::Arr(a)) => {
                    proof {
                        crate::json::lemma_lookup_member(o, "anyOf"@);
                    }
                    match dec_prop_list(a) {
                        Some(m) => Some(Some(m)),
                        None => None,
                    }
                },
                Some(_) => None,
            };
            if opt_str(o, "type"@) is None || opt_str(o, "description"@) is None || opt_str(
                o,
                "format"@,
            ) is None || opt_str_list(o, "enum"@) is None || opt_bool(o, "nullable"@) is None
                || opt_int(o, "minLength"@) is None || opt_int(o, "maxLength"@) is None || opt_num(
                o,
                "minimum"@,
            ) is None || opt_num(o, "maximum"@) is None || opt_bool(o, "exclusiveMinimum"@) is None
                || opt_str(o, "pattern"@) is None || opt_str_list(o, "required"@) is None
                || items_dec is None || props_dec is None || anyof_dec is None {
                None
            } else {
                Some(
                    SrcPropModel {
                        schema_type: opt_str(o, "type"@).unwrap(),
                        description: opt_str(o, "description"@).unwrap(),
                        format: opt_str(o, "format"@).unwrap(),
                        default: opt_raw(o, "default"@),
                        enum_values: opt_str_list(o, "enum"@).unwrap(),
                        nullable: opt_bool(o, "nullable"@).unwrap(),
                        min_length: opt_int(o, "minLength"@).unwrap(),
                        max_length: opt_int(o, "maxLength"@).unwrap(),
                        minimum: opt_num(o, "minimum"@).unwrap(),
                        maximum: opt_num(o, "maximum"@).unwrap(),
                        exclusive_minimum: opt_bool(o, "exclusiveMinimum"@).unwrap(),
                        pattern: opt_str(o, "pattern"@).unwrap(),
                        items: items_dec.unwrap(),
                        properties: props_dec.unwrap(),
                        required: opt_str_list(o, "required"@).unwrap(),
                        any_of: anyof_dec.unwrap(),
                    },
                )
            }
        },
        _ => None,
    }
}

/// The named property schemas an object's fields decode to.
pub open spec fn dec_prop_map(s: JsonFields) -> Option<Seq<(Seq<char>, SrcPropModel)>>
    decreases s,
{
    if s.len() == 0 {
        Some(Seq::empty())
    } else {
        match dec_prop_val(s[0].1) {
            Some(p) => match dec_prop_map(s.subrange(1, s.len() as int)) {
                Some(rest) => Some(seq![(s[0].0, p)] + rest),
                None => None,
            },
            None => None,
        }
    }
}

/// The property schemas a sequence of trees decodes to.
pub open spec fn dec_prop_list(items: Seq<JsonVal>) -> Option<Seq<SrcPropModel>>
    decreases items,
{
    if items.len() == 0 {
        Some(Seq::empty())
    } else {
        match dec_prop_val(items[0]) {
            Some(p) => match dec_prop_list(items.subrange(1, items.len() as int)) {
                Some(rest) => Some(seq![p] + rest),
                None => None,
            },
            None => None,
        }
    }
}

/// The schema node a tree decodes to, if it is well-shaped.
pub open spec fn dec_schema_val(v: JsonVal) -> Option<SchemaModel>
    decreases v,
{
    match v {
        JsonVal::Obj(o) => {
            let items_dec = match opt_raw(o, "items"@) {
                None => Some(None),
                Some(x) => {
                    proof {
                        crate::json::lemma_lookup_member(o, "items"@);
                    }
                    match dec_prop_val(x) {
                        Some(m) => Some(Some(Box::new(m))),
                        None => None,
                    }
                },
            };
            let props_dec = match spec_lookup(o, "properties"@) {
                None => Some(None),
                Some(JsonVal::Null) => Some(None),
                Some(JsonVal::Obj(po)) => {
                    proof {
                        crate::json::lemma_lookup_member(o, "properties"@);
                    }
                    match dec_prop_map(po) {
                        Some(m) => Some(Some(m)),
                        None => None,
                    }
                },
                Some(_) => None,
            };
            let allof_dec = dec_schema_comb(o, "allOf"@);
            let anyof_dec = dec_schema_comb(o, "anyOf"@);
            let oneof_dec = dec_schema_comb(o, "oneOf"@);
            if opt_str(o, "type"@) is None || opt_str_list(o, "required"@) is None || opt_bool(
                o,
                "additionalProperties"@,
            ) is None || items_dec is None || props_dec is None || allof_dec is None || anyof_dec
                is None || oneof_dec is None {
                None
            } else {
                Some(
                    SchemaModel {
                        schema_type: opt_str(o, "type"@).unwrap(),
                        properties: props_dec.unwrap(),
                        required: opt_str_list(o, "required"@).unwrap(),
                        additional_properties: opt_bool(o, "additionalProperties"@).unwrap(),
                        items: items_dec.unwrap(),
                        all_of: allof_dec.unwrap(),
                        any_of: anyof_dec.unwrap(),
                        one_of: oneof_dec.unwrap(),
                    },
                )
            }
        },
        _ => None,
    }
}

/// One schema combinator field (`allOf`, `anyOf` or `oneOf`): an optional
/// array of schema nodes.
pub open spec fn dec_schema_comb(o: JsonFields, name: Seq<char>) -> Option<
    Option<Seq<SchemaModel>>,
>
    decreases o,
{
    match spec_lookup(o, name) {
        None => Some(None),
        Some(JsonVal::Null) => Some(None),
        Some(JsonVal::Arr(a)) => {
            proof {
                crate::json::lemma_lookup_member(o, name);
            }
            match dec_schema_list(a) {
                Some(m) => Some(Some(m)),
                None => None,
            }
        },
        Some(_) => None,
    }
}

/// The schema nodes a sequence of trees decodes to.
pub open spec fn dec_schema_list(items: Seq<JsonVal>) -> Option<Seq<SchemaModel>>
    decreases items,
{
    if items.len() == 0 {
        Some(Seq::empty())
    } else {
        match dec_schema_val(items[0]) {
            Some(p) => match dec_schema_list(items.subrange(1, items.len() as int)) {
                Some(rest) => Some(seq![p] + rest),
                None => None,
            },
            None => None,
        }
    }
}

/// Decodes a property schema, recursively.
pub fn decode_prop(v: &JsonValue) -> (r: Option<SchemaProperty>)
    ensures
        r.deep_view() == dec_prop_val(jval_of(*v)),
    decreases *v,
{
    match v {
        JsonValue::Object(fields) => {
            let schema_type = match get_opt_string(fields, "type") {
                Some(x) => x,
                None => {
                    return None;
                },
            };
            let description = match get_opt_string(fields, "description") {
                Some(x) => x,
                None => {
                    return None;
                },
            };
            let format = match get_opt_string(fields, "format") {
                Some(x) => x,
                None => {
                    return None;
                },
            };
            let default = get_opt_raw(fields, "default");
            let enum_values = match get_opt_str_list(fields, "enum") {
                Some(x) => x,
                None => {
                    return None;
                },
            };
            let nullable = match get_opt_bool(fields, "nullable") {
                Some(x) => x,
                None => {
                    return None;
                },
            };
            let min_length = match get_opt_int_text(fields, "minLength") {
                Some(x) => x,
                None => {
                    return None;
                },
            };
            let max_length = match get_opt_int_text(fields, "maxLength") {
                Some(x) => x,
                None => {
                    return None;
                },
            };
            let minimum = match get_opt_num_text(fields, "minimum") {
                Some(x) => x,
                None => {
                    return None;
                },
            };
            let maximum = match get_opt_num_text(fields, "maximum") {
                Some(x) => x,
                None => {
                    return None;
                },
            };
            let exclusive_minimum = match get_opt_bool(fields, "exclusiveMinimum") {
                Some(x) => x,
                None => {
                    return None;
                },
            };
            let pattern = match get_opt_string(fields, "pattern") {
                Some(x) => x,
                None => {
                    return None;
                },
            };
            let required = match get_opt_str_list(fields, "required") {
                Some(x) => x,
                None => {
                    return None;
                },
            };
            let items = match crate::json::obj_lookup(fields, "items") {
                None => None,
                Some(JsonValue::Null) => None,
                Some(x) => {
                    proof {
                        let i = choose|i: int| 0 <= i < fields@.len() && *x == fields@[i].1;
                        assert(decreases_to!(*v => *x));
                    }
                    match decode_prop(x) {
                        Some(p) => Some(Box::new(p)),
                        None => {
                            return None;
                        },
                    }
                },
            };
            let properties = match crate::json::obj_lookup(fields, "properties") {
                None => None,
                Some(JsonValue::Null) => None,
                Some(x) => {
                    proof {
                        let i = choose|i: int| 0 <= i < fields@.len() && *x == fields@[i].1;
                        assert(decreases_to!(*v => *x));
                    }
                    match x {
                        JsonValue::Object(po) => {
                            proof {
                                crate::json::lemma_jfields_of(po@);
                                assert(jfields_of(po@).skip(0) =~= jfields_of(po@));
                            }
                            match decode_prop_map_from(po, 0) {
                                Some(ps) => Some(ps),
                                None => {
                                    return None;
                                },
                            }
                        },
                        _ => {
                            return None;
                        },
                    }
                },
            };
            let any_of = match crate::json::obj_lookup(fields, "anyOf") {
                None => None,
                Some(JsonValue::Null) => None,
                Some(x) => {
                    proof {
                        let i = choose|i: int| 0 <= i < fields@.len() && *x == fields@[i].1;
                        assert(decreases_to!(*v => *x));
                    }
                    match x {
                        JsonValue::Array(a) => {
                            proof {
                                crate::json::lemma_jvals_of(a@);
                                assert(jvals_of(a@).skip(0) =~= jvals_of(a@));
                            }
                            match decode_prop_list_from(a, 0) {
                                Some(ps) => Some(ps),
                                None => {
                                    return None;
                                },
                            }
                        },
                        _ => {
                            return None;
                        },
                    }
                },
            };
            Some(
                SchemaProperty {
                    schema_type: schema_type,
                    description: description,
                    format: format,
                    default: default,
                    enum_values: enum_values,
                    nullable: nullable,
                    min_length: min_length,
                    max_length: max_length,
                    minimum: minimum,
                    maximum: maximum,
                    exclusive_minimum: exclusive_minimum,
                    pattern: pattern,
                    items: items,
                    properties: properties,
                    required: required,
                    any_of: any_of,
                },
            )
        },
        _ => None,
    }
}

/// Decodes the named property schemas of an object, from position `i` on.
pub fn decode_prop_map_from(po: &Vec<(String, JsonValue)>, i: usize) -> (r: Option<
    Vec<(String, SchemaProperty)>,
>)
    requires
        i <= po@.len(),
    ensures
        match r {
            Some(ps) => dec_prop_map(jfields_of(po@).skip(i as int)) == Some(
                src_prop_map_model(ps@),
            ),
            None => dec_prop_map(jfields_of(po@).skip(i as int)) is None,
        },
    decreases *po, po@.len() - i,
{
    let ghost model = jfields_of(po@);
    proof {
        crate::json::lemma_jfields_of(po@);
    }
    if i == po.len() {
        let r: Vec<(String, SchemaProperty)> = Vec::new();
        proof {
            assert(model.skip(i as int) =~= Seq::<(Seq<char>, JsonVal)>::empty());
            assert(src_prop_map_model(r@) =~= Seq::<(Seq<char>, SrcPropModel)>::empty());
        }
        Some(r)
    } else {
        proof {
            assert(model.skip(i as int)[0] == model[i as int]);
            assert(model.skip(i as int).subrange(1, model.skip(i as int).len() as int)
                =~= model.skip(i as int + 1));
        }
        match decode_prop(&po[i].1) {
            Some(p) => match decode_prop_map_from(po, i + 1) {
                Some(rest) => {
                    let ghost rest0 = rest@;
                    let mut rest = rest;
                    let key = po[i].0.clone();
                    let ghost pm = p.deep_view();
                    let ghost keyv = key@;
                    rest.insert(0, (key, p));
                    proof {
                        assert(rest@[0].0@ == keyv && rest@[0].1 == p);
                        assert(rest@.subrange(1, rest@.len() as int) =~= rest0);
                        lemma_src_prop_map_model(rest@);
                        lemma_src_prop_map_model(rest0);
                        assert(src_prop_map_model(rest@) =~= seq![(keyv, pm)] + src_prop_map_model(
                            rest0,
                        ));
                    }
                    Some(rest)
                },
                None => None,
            },
            None => None,
        }
    }
}

/// Decodes a list of property schemas, from position `i` on.
pub fn decode_prop_list_from(items: &Vec<JsonValue>, i: usize) -> (r: Option<Vec<SchemaProperty>>)
    requires
        i <= items@.len(),
    ensures
        match r {
            Some(ps) => dec_prop_list(jvals_of(items@).skip(i as int)) == Some(
                src_prop_list_model(ps@),
            ),
            None => dec_prop_list(jvals_of(items@).skip(i as int)) is None,
        },
    decreases *items, items@.len() - i,
{
    let ghost model = jvals_of(items@);
    proof {
        crate::json::lemma_jvals_of(items@);
    }
    if i == items.len() {
        let r: Vec<SchemaProperty> = Vec::new();
        proof {
            assert(model.skip(i as int) =~= Seq::<JsonVal>::empty());
            assert(src_prop_list_model(r@) =~= Seq::<SrcPropModel>::empty());
        }
        Some(r)
    } else {
        proof {
            assert(model.skip(i as int)[0] == model[i as int]);
            assert(model.skip(i as int).subrange(1, model.skip(i as int).len() as int)
                =~= model.skip(i as int + 1));
        }
        match decode_prop(&items[i]) {
            Some(p) => match decode_prop_list_from(items, i + 1) {
                Some(rest) => {
                    let ghost rest0 = rest@;
                    let mut rest = rest;
                    let ghost pm = p.deep_view();
                    rest.insert(0, p);
                    proof {
                        assert(rest@.subrange(1, rest@.len() as int) =~= rest0);
                        lemma_src_prop_list_model(rest@);
                        lemma_src_prop_list_model(rest0);
                        assert(src_prop_list_model(rest@) =~= seq![pm] + src_prop_list_model(
                            rest0,
                        ));
                    }
                    Some(rest)
                },
                None => None,
            },
            None => None,
        }
    }
}

/// Decodes a schema node, recursively.
pub fn decode_schema(v: &JsonValue) -> (r: Option<Schema>)
    ensures
        r.deep_view() == dec_schema_val(jval_of(*v)),
    decreases *v,
{
    match v {
        JsonValue::Object(fields) => {
            let schema_type = match get_opt_string(fields, "type") {
                Some(x) => x,
                None => {
                    return None;
                },
            };
            let required = match get_opt_str_list(fields, "required") {
                Some(x) => x,
                None => {
                    return None;
                },
            };
            let additional_properties = match get_opt_bool(fields, "additionalProperties") {
                Some(x) => x,
                None => {
                    return None;
                },
            };
            let items = match crate::json::obj_lookup(fields, "items") {
                None => None,
                Some(JsonValue::Null) => None,
                Some(x) => {
                    proof {
                        let i = choose|i: int| 0 <= i < fields@.len() && *x == fields@[i].1;
                        assert(decreases_to!(*v => *x));
                    }
                    match decode_prop(x) {
                        Some(p) => Some(Box::new(p)),
                        None => {
                            return None;
                        },
                    }
                },
            };
            let properties = match crate::json::obj_lookup(fields, "properties") {
                None => None,
                Some(JsonValue::Null) => None,
                Some(x) => {
                    proof {
                        let i = choose|i: int| 0 <= i < fields@.len() && *x == fields@[i].1;
                        assert(decreases_to!(*v => *x));
                    }
                    match x {
                        JsonValue::Object(po) => {
                            proof {
                                crate::json::lemma_jfields_of(po@);
                                assert(jfields_of(po@).skip(0) =~= jfields_of(po@));
                            }
                            match decode_prop_map_from(po, 0) {
                                Some(ps) => Some(ps),
                                None => {
                                    return None;
                                },
                            }
                        },
                        _ => {
                            return None;
                        },
                    }
                },
            };
            let all_of = match decode_schema_comb(fields, "allOf") {
                Some(x) => x,
                None => {
                    return None;
                },
            };
            let any_of = match decode_schema_comb(fields, "anyOf") {
                Some(x) => x,
                None => {
                    return None;
                },
            };
            let one_of = match decode_schema_comb(fields, "oneOf") {
                Some(x) => x,
                None => {
                    return None;
                },
            };
            Some(
                Schema {
                    schema_type: schema_type,
                    properties: properties,
                    required: required,
                    additional_properties: additional_properties,
                    items: items,
                    all_of: all_of,
                    any_of: any_of,
                    one_of: one_of,
                },
            )
        },
        _ => None,
    }
}

/// Decodes one schema combinator field (`allOf`, `anyOf` or `oneOf`).
fn decode_schema_comb(fields: &Vec<(String, JsonValue)>, name: &str) -> (r: Option<
    Option<Vec<Schema>>,
>)
    ensures
        match r {
            Some(Some(ss)) => dec_schema_comb(jfields_of(fields@), name@) == Some(
                Some(schema_list_model(ss@)),
            ),
            Some(None) => dec_schema_comb(jfields_of(fields@), name@) == Some(
                None::<Seq<SchemaModel>>,
            ),
            None => dec_schema_comb(jfields_of(fields@), name@) is None,
        },
    decreases *fields,
{
    match crate::json::obj_lookup(fields, name) {
        None => Some(None),
        Some(JsonValue::Null) => Some(None),
        Some(x) => {
            proof {
                let i = choose|i: int| 0 <= i < fields@.len() && *x == fields@[i].1;
                assert(decreases_to!(*fields => *x));
            }
            match x {
                JsonValue::Array(a) => {
                    proof {
                        crate::json::lemma_jvals_of(a@);
                        assert(jvals_of(a@).skip(0) =~= jvals_of(a@));
                    }
                    match decode_schema_list_from(a, 0) {
                        Some(ss) => Some(Some(ss)),
                        None => None,
                    }
                },
                _ => None,
            }
        },
    }
}

/// Decodes a list of schema nodes, from position `i` on.
pub fn decode_schema_list_from(items: &Vec<JsonValue>, i: usize) -> (r: Option<Vec<Schema>>)
    requires
        i <= items@.len(),
    ensures
        match r {
            Some(ss) => dec_schema_list(jvals_of(items@).skip(i as int)) == Some(
                schema_list_model(ss@),
            ),
            None => dec_schema_list(jvals_of(items@).skip(i as int)) is None,
        },
    decreases *items, items@.len() - i,
{
    let ghost model = jvals_of(items@);
    proof {
        crate::json::lemma_jvals_of(items@);
    }
    if i == items.len() {
        let r: Vec<Schema> = Vec::new();
        proof {
            assert(model.skip(i as int) =~= Seq::<JsonVal>::empty());
            assert(schema_list_model(r@) =~= Seq::<SchemaModel>::empty());
        }
        Some(r)
    } else {
        proof {
            assert(model.skip(i as int)[0] == model[i as int]);
            assert(model.skip(i as int).subrange(1, model.skip(i as int).len() as int)
                =~= model.skip(i as int + 1));
        }
        match decode_schema(&items[i]) {
            Some(p) => match decode_schema_list_from(items, i + 1) {
                Some(rest) => {
                    let ghost rest0 = rest@;
                    let mut rest = rest;
                    let ghost pm = p.deep_view();
                    rest.insert(0, p);
                    proof {
                        assert(rest@.subrange(1, rest@.len() as int) =~= rest0);
                        lemma_schema_list_model(rest@);
                        lemma_schema_list_model(rest0);
                        assert(schema_list_model(rest@) =~= seq![pm] + schema_list_model(rest0));
                    }
                    Some(rest)
                },
                None => None,
            },
            None => None,
        }
    }
}

/// The components block a tree decodes to.
pub open spec fn dec_components(v: JsonVal) -> Option<ComponentsModel> {
    match v {
        JsonVal::Obj(o) => {
            if opt_raw_obj(o, "schemas"@) is None || opt_raw_obj(o, "securitySchemes"@) is None
                || opt_raw_obj(o, "parameters"@) is None {
                None
            } else {
                Some(
                    ComponentsModel {
                        schemas: opt_raw_obj(o, "schemas"@).unwrap(),
                        security_schemes: opt_raw_obj(o, "securitySchemes"@).unwrap(),
                        parameters: opt_raw_obj(o, "parameters"@).unwrap(),
                    },
                )
            }
        },
        _ => None,
    }
}

/// Decodes the components block.
pub fn decode_components(v: &JsonValue) -> (r: Option<Components>)
    ensures
        r.deep_view() == dec_components(jval_of(*v)),
{
    match v {
        JsonValue::Object(fields) => {
            let schemas = match get_opt_raw_obj(fields, "schemas") {
                Some(x) => x,
                None => {
                    return None;
                },
            };
            let security_schemes = match get_opt_raw_obj(fields, "securitySchemes") {
                Some(x) => x,
                None => {
                    return None;
                },
            };
            let parameters = match get_opt_raw_obj(fields, "parameters") {
                Some(x) => x,
                None => {
                    return None;
                },
            };
            Some(
                Components {
                    schemas: schemas,
                    security_schemes: security_schemes,
                    parameters: parameters,
                },
            )
        },
        _ => None,
    }
}

/// The media type entry a tree decodes to.
pub open spec fn dec_media(v: JsonVal) -> Option<MediaTypeModel> {
    match v {
        JsonVal::Obj(o) => match opt_raw(o, "schema"@) {
            None => Some(MediaTypeModel { schema: None }),
            Some(x) => match dec_schema_val(x) {
                Some(m) => Some(MediaTypeModel { schema: Some(m) }),
                None => None,
            },
        },
        _ => None,
    }
}

/// Decodes a media type entry.
pub fn decode_media(v: &JsonValue) -> (r: Option<MediaType>)
    ensures
        r.deep_view() == dec_media(jval_of(*v)),
{
    match v {
        JsonValue::Object(fields) => {
            match crate::json::obj_lookup(fields, "schema") {
                None => Some(MediaType { schema: None }),
                Some(JsonValue::Null) => Some(MediaType { schema: None }),
                Some(x) => match decode_schema(x) {
                    Some(s) => Some(MediaType { schema: Some(s) }),
                    None => None,
                },
            }
        },
        _ => None,
    }
}

/// The content map a request body's fields decode to.
pub open spec fn dec_content_map(s: JsonFields) -> Option<Seq<(Seq<char>, MediaTypeModel)>>
    decreases s.len(),
{
    if s.len() == 0 {
        Some(Seq::empty())
    } else {
        match dec_media(s[0].1) {
            Some(m) => match dec_content_map(s.subrange(1, s.len() as int)) {
                Some(rest) => Some(seq![(s[0].0, m)] + rest),
                None => None,
            },
            None => None,
        }
    }
}

/// Decodes the media types of a request body, from position `i` on.
fn decode_content_from(co: &Vec<(String, JsonValue)>, i: usize) -> (r: Option<
    Vec<(String, MediaType)>,
>)
    requires
        i <= co@.len(),
    ensures
        match r {
            Some(ms) => dec_content_map(jfields_of(co@).skip(i as int)) == Some(ms.deep_view()),
            None => dec_content_map(jfields_of(co@).skip(i as int)) is None,
        },
    decreases co@.len() - i,
{
    let ghost model = jfields_of(co@);
    proof {
        crate::json::lemma_jfields_of(co@);
    }
    if i == co.len() {
        let r: Vec<(String, MediaType)> = Vec::new();
        proof {
            assert(model.skip(i as int) =~= Seq::<(Seq<char>, JsonVal)>::empty());
            assert(r.deep_view() =~= Seq::<(Seq<char>, MediaTypeModel)>::empty());
        }
        Some(r)
    } else {
        proof {
            assert(model.skip(i as int)[0] == model[i as int]);
            assert(model.skip(i as int).subrange(1, model.skip(i as int).len() as int)
                =~= model.skip(i as int + 1));
        }
        match decode_media(&co[i].1) {
            Some(m) => match decode_content_from(co, i + 1) {
                Some(rest) => {
                    let ghost rest0 = rest.deep_view();
                    let mut rest = rest;
                    let key = co[i].0.clone();
                    let ghost mm = m.deep_view();
                    let ghost keyv = key@;
                    rest.insert(0, (key, m));
                    proof {
                        assert(rest.deep_view() =~= seq![(keyv, mm)] + rest0);
                    }
                    Some(rest)
                },
                None => None,
            },
            None => None,
        }
    }
}

/// The request body a tree decodes to.
pub open spec fn dec_request_body(v: JsonVal) -> Option<RequestBodyModel> {
    match v {
        JsonVal::Obj(o) => {
            let content_dec = match spec_lookup(o, "content"@) {
                None => Some(Seq::<(Seq<char>, MediaTypeModel)>::empty()),
                Some(JsonVal::Obj(co)) => dec_content_map(co),
                Some(_) => None,
            };
            if bool_default(o, "required"@) is None || content_dec is None {
                None
            } else {
                Some(
                    RequestBodyModel {
                        required: bool_default(o, "required"@).unwrap(),
                        content: content_dec.unwrap(),
                    },
                )
            }
        },
        _ => None,
    }
}

/// Decodes a declared request body.
pub fn decode_request_body(v: &JsonValue) -> (r: Option<RequestBody>)
    ensures
        r.deep_view() == dec_request_body(jval_of(*v)),
{
    match v {
        JsonValue::Object(fields) => {
            let required = match get_bool_default(fields, "required") {
                Some(x) => x,
                None => {
                    return None;
                },
            };
            let content = match crate::json::obj_lookup(fields, "content") {
                None => {
                    let c: Vec<(String, MediaType)> = Vec::new();
                    proof {
                        assert(c.deep_view() =~= Seq::<(Seq<char>, MediaTypeModel)>::empty());
                    }
                    c
                },
                Some(x) => match x {
                    JsonValue::Object(co) => {
                        proof {
                            assert(jfields_of(co@).skip(0) =~= jfields_of(co@));
                        }
                        match decode_content_from(co, 0) {
                            Some(ms) => ms,
                            None => {
                                return None;
                            },
                        }
                    },
                    _ => {
                        return None;
                    },
                },
            };
            Some(RequestBody { required: required, content: content })
        },
        _ => None,
    }
}

/// The operation a tree decodes to.
pub open spec fn dec_operation(v: JsonVal) -> Option<OpModel> {
    match v {
        JsonVal::Obj(o) => {
            let params_dec = match spec_lookup(o, "parameters"@) {
                None => Some(Seq::<SrcParamModel>::empty()),
                Some(JsonVal::Arr(a)) => dec_param_list(a),
                Some(_) => None,
            };
            let body_dec = match opt_raw(o, "requestBody"@) {
                None => Some(None),
                Some(x) => match dec_request_body(x) {
                    Some(m) => Some(Some(m)),
                    None => None,
                },
            };
            if opt_str(o, "description"@) is None || opt_str(o, "summary"@) is None
                || str_list_default(o, "tags"@) is None || params_dec is None || body_dec is None
                || raw_list_default(o, "security"@) is None || raw_obj_default(
                o,
                "responses"@,
            ) is None {
                None
            } else {
                Some(
                    OpModel {
                        description: opt_str(o, "description"@).unwrap(),
                        summary: opt_str(o, "summary"@).unwrap(),
                        tags: str_list_default(o, "tags"@).unwrap(),
                        parameters: params_dec.unwrap(),
                        request_body: body_dec.unwrap(),
                        security: raw_list_default(o, "security"@).unwrap(),
                        responses: raw_obj_default(o, "responses"@).unwrap(),
                    },
                )
            }
        },
        _ => None,
    }
}

/// Decodes an operation.
pub fn decode_operation(v: &JsonValue) -> (r: Option<Operation>)
    ensures
        r.deep_view() == dec_operation(jval_of(*v)),
{
    match v {
        JsonValue::Object(fields) => {
            let description = match get_opt_string(fields, "description") {
                Some(x) => x,
                None => {
                    return None;
                },
            };
            let summary = match get_opt_string(fields, "summary") {
                Some(x) => x,
                None => {
                    return None;
                },
            };
            let tags = match get_str_list_default(fields, "tags") {
                Some(x) => x,
                None => {
                    return None;
                },
            };
            let parameters = match crate::json::obj_lookup(fields, "parameters") {
                None => {
                    let c: Vec<Parameter> = Vec::new();
                    proof {
                        assert(c.deep_view() =~= Seq::<SrcParamModel>::empty());
                    }
                    c
                },
                Some(x) => match x {
                    JsonValue::Array(a) => match decode_param_list(a) {
                        Some(ps) => ps,
                        None => {
                            return None;
                        },
                    },
                    _ => {
                        return None;
                    },
                },
            };
            let request_body = match crate::json::obj_lookup(fields, "requestBody") {
                None => None,
                Some(JsonValue::Null) => None,
                Some(x) => match decode_request_body(x) {
                    Some(b) => Some(b),
                    None => {
                        return None;
                    },
                },
            };
            let security = match get_raw_list_default(fields, "security") {
                Some(x) => x,
                None => {
                    return None;
                },
            };
            let responses = match get_raw_obj_default(fields, "responses") {
                Some(x) => x,
                None => {
                    return None;
                },
            };
            Some(
                Operation {
                    description: description,
                    summary: summary,
                    tags: tags,
                    parameters: parameters,
                    request_body: request_body,
                    security: security,
                    responses: responses,
                },
            )
        },
        _ => None,
    }
}

/// One optional operation slot of a path item.
pub open spec fn dec_op_slot(o: JsonFields, name: Seq<char>) -> Option<Option<OpModel>> {
    match opt_raw(o, name) {
        None => Some(None),
        Some(x) => match dec_operation(x) {
            Some(m) => Some(Some(m)),
            None => None,
        },
    }
}

/// Decodes one optional operation slot of a path item.
fn decode_op_slot(fields: &Vec<(String, JsonValue)>, name: &str) -> (r: Option<Option<Operation>>)
    ensures
        match r {
            Some(Some(op)) => dec_op_slot(jfields_of(fields@), name@) == Some(
                Some(op.deep_view()),
            ),
            Some(None) => dec_op_slot(jfields_of(fields@), name@) == Some(None::<OpModel>),
            None => dec_op_slot(jfields_of(fields@), name@) is None,
        },
{
    match crate::json::obj_lookup(fields, name) {
        None => Some(None),
        Some(JsonValue::Null) => Some(None),
        Some(x) => match decode_operation(x) {
            Some(op) => Some(Some(op)),
            None => None,
        },
    }
}

/// The path item a tree decodes to.
pub open spec fn dec_path_item(v: JsonVal) -> Option<PathItemModel> {
    match v {
        JsonVal::Obj(o) => {
            if dec_op_slot(o, "get"@) is None || dec_op_slot(o, "post"@) is None || dec_op_slot(
                o,
                "put"@,
            ) is None || dec_op_slot(o, "delete"@) is None || dec_op_slot(o, "patch"@) is None {
                None
            } else {
                Some(
                    PathItemModel {
                        get: dec_op_slot(o, "get"@).unwrap(),
                        post: dec_op_slot(o, "post"@).unwrap(),
                        put: dec_op_slot(o, "put"@).unwrap(),
                        delete: dec_op_slot(o, "delete"@).unwrap(),
                        patch: dec_op_slot(o, "patch"@).unwrap(),
                    },
                )
            }
        },
        _ => None,
    }
}

/// Decodes a path item.
pub fn decode_path_item(v: &JsonValue) -> (r: Option<PathItem>)
    ensures
        r.deep_view() == dec_path_item(jval_of(*v)),
{
    match v {
        JsonValue::Object(fields) => {
            let get = match decode_op_slot(fields, "get") {
                Some(x) => x,
                None => {
                    return None;
                },
            };
            let post = match decode_op_slot(fields, "post") {
                Some(x) => x,
                None => {
                    return None;
                },
            };
            let put = match decode_op_slot(fields, "put") {
                Some(x) => x,
                None => {
                    return None;
                },
            };
            let delete = match decode_op_slot(fields, "delete") {
                Some(x) => x,
                None => {
                    return None;
                },
            };
            let patch = match decode_op_slot(fields, "patch") {
                Some(x) => x,
                None => {
                    return None;
                },
            };
            Some(PathItem { get: get, post: post, put: put, delete: delete, patch: patch })
        },
        _ => None,
    }
}

/// The ordered path map an object's fields decode to.
pub open spec fn dec_paths_map(s: JsonFields) -> Option<Seq<(Seq<char>, PathItemModel)>>
    decreases s.len(),
{
    if s.len() == 0 {
        Some(Seq::empty())
    } else {
        match dec_path_item(s[0].1) {
            Some(pi) => match dec_paths_map(s.subrange(1, s.len() as int)) {
                Some(rest) => Some(seq![(s[0].0, pi)] + rest),
                None => None,
            },
            None => None,
        }
    }
}

/// Decodes the path map, from position `i` on.
fn decode_paths_from(po: &Vec<(String, JsonValue)>, i: usize) -> (r: Option<
    Vec<(String, PathItem)>,
>)
    requires
        i <= po@.len(),
    ensures
        match r {
            Some(ps) => dec_paths_map(jfields_of(po@).skip(i as int)) == Some(ps.deep_view()),
            None => dec_paths_map(jfields_of(po@).skip(i as int)) is None,
        },
    decreases po@.len() - i,
{
    let ghost model = jfields_of(po@);
    proof {
        crate::json::lemma_jfields_of(po@);
    }
    if i == po.len() {
        let r: Vec<(String, PathItem)> = Vec::new();
        proof {
            assert(model.skip(i as int) =~= Seq::<(Seq<char>, JsonVal)>::empty());
            assert(r.deep_view() =~= Seq::<(Seq<char>, PathItemModel)>::empty());
        }
        Some(r)
    } else {
        proof {
            assert(model.skip(i as int)[0] == model[i as int]);
            assert(model.skip(i as int).subrange(1, model.skip(i as int).len() as int)
                =~= model.skip(i as int + 1));
        }
        match decode_path_item(&po[i].1) {
            Some(pi) => match decode_paths_from(po, i + 1) {
                Some(rest) => {
                    let ghost rest0 = rest.deep_view();
                    let mut rest = rest;
                    let key = po[i].0.clone();
                    let ghost pim = pi.deep_view();
                    let ghost keyv = key@;
                    rest.insert(0, (key, pi));
                    proof {
                        assert(rest.deep_view() =~= seq![(keyv, pim)] + rest0);
                    }
                    Some(rest)
                },
                None => None,
            },
            None => None,
        }
    }
}

/// The specification a tree decodes to: `openapi`, `info` and `paths` must be
/// present and well-shaped, `servers` defaults to empty, `components` is
/// optional.
pub open spec fn dec_spec_val(v: JsonVal) -> Option<SpecModel> {
    match v {
        JsonVal::Obj(o) => {
            let info_dec = match spec_lookup(o, "info"@) {
                Some(x) => dec_info(x),
                None => None,
            };
            let servers_dec = match spec_lookup(o, "servers"@) {
                None => Some(Seq::<ServerModel>::empty()),
                Some(JsonVal::Arr(a)) => dec_server_list(a),
                Some(_) => None,
            };
            let paths_dec = match spec_lookup(o, "paths"@) {
                Some(JsonVal::Obj(po)) => dec_paths_map(po),
                _ => None,
            };
            let comp_dec = match opt_raw(o, "components"@) {
                None => Some(None),
                Some(x) => match dec_components(x) {
                    Some(c) => Some(Some(c)),
                    None => None,
                },
            };
            if req_str(o, "openapi"@) is None || info_dec is None || servers_dec is None
                || paths_dec is None || comp_dec is None {
                None
            } else {
                Some(
                    SpecModel {
                        openapi: req_str(o, "openapi"@).unwrap(),
                        info: info_dec.unwrap(),
                        servers: servers_dec.unwrap(),
                        paths: paths_dec.unwrap(),
                        components: comp_dec.unwrap(),
                    },
                )
            }
        },
        _ => None,
    }
}

/// Decodes a whole specification.
pub fn decode_spec(v: &JsonValue) -> (r: Option<SwaggerSpec>)
    ensures
        r.deep_view() == dec_spec_val(jval_of(*v)),
{
    match v {
        JsonValue::Object(fields) => {
            let openapi = match get_req_string(fields, "openapi") {
                Some(x) => x,
                None => {
                    return None;
                },
            };
            let info = match crate::json::obj_lookup(fields, "info") {
                Some(x) => match decode_info(x) {
                    Some(i) => i,
                    None => {
                        return None;
                    },
                },
                None => {
                    return None;
                },
            };
            let servers = match crate::json::obj_lookup(fields, "servers") {
                None => {
                    let c: Vec<SwaggerServer> = Vec::new();
                    proof {
                        assert(c.deep_view() =~= Seq::<ServerModel>::empty());
                    }
                    c
                },
                Some(x) => match x {
                    JsonValue::Array(a) => match decode_server_list(a) {
                        Some(ss) => ss,
                        None => {
                            return None;
                        },
                    },
                    _ => {
                        return None;
                    },
                },
            };
            let paths = match crate::json::obj_lookup(fields, "paths") {
                Some(x) => match x {
                    JsonValue::Object(po) => {
                        proof {
                            assert(jfields_of(po@).skip(0) =~= jfields_of(po@));
                        }
                        match decode_paths_from(po, 0) {
                            Some(ps) => ps,
                            None => {
                                return None;
                            },
                        }
                    },
                    _ => {
                        return None;
                    },
                },
                None => {
                    return None;
                },
            };
            let components = match crate::json::obj_lookup(fields, "components") {
                None => None,
                Some(JsonValue::Null) => None,
                Some(x) => match decode_components(x) {
                    Some(c) => Some(c),
                    None => {
                        return None;
                    },
                },
            };
            Some(
                SwaggerSpec {
                    openapi: openapi,
                    info: info,
                    servers: servers,
                    paths: paths,
                    components: components,
                },
            )
        },
        _ => None,
    }
}

/// The envelope document a tree decodes to: the specification must be present
/// under `swaggerDoc`.
pub open spec fn dec_document(v: JsonVal) -> Option<DocumentModel> {
    match v {
        JsonVal::Obj(o) => {
            let spec_dec = match spec_lookup(o, "swaggerDoc"@) {
                Some(x) => dec_spec_val(x),
                None => None,
            };
            if spec_dec is None {
                None
            } else {
                Some(
                    DocumentModel {
                        swagger_doc: spec_dec.unwrap(),
                        custom_options: opt_raw(o, "customOptions"@),
                    },
                )
            }
        },
        _ => None,
    }
}

/// Decodes an envelope document.
pub fn decode_document(v: &JsonValue) -> (r: Option<SwaggerDocument>)
    ensures
        r.deep_view() == dec_document(jval_of(*v)),
{
    match v {
        JsonValue::Object(fields) => {
            let swagger_doc = match crate::json::obj_lookup(fields, "swaggerDoc") {
                Some(x) => match decode_spec(x) {
                    Some(s) => s,
                    None => {
                        return None;
                    },
                },
                None => {
                    return None;
                },
            };
            let custom_options = get_opt_raw(fields, "customOptions");
            Some(SwaggerDocument { swagger_doc: swagger_doc, custom_options: custom_options })
        },
        _ => None,
    }
}

/// Model of a load failure.
pub enum ParseErrorModel {
    /// The text is not valid JSON at all; the detail is serde's message.
    InvalidJson(Seq<char>),
    /// The text is JSON, but neither an enveloped nor a direct
    /// specification; the detail names what failed in the direct attempt.
    InvalidDocument(Seq<char>),
}

/// Why a document failed to load, with the detail of the failure.
#[derive(Clone, PartialEq, Eq, Debug)]
pub enum ParseError {
    /// The text is not valid JSON at all; the detail is serde's message.
    InvalidJson(String),
    /// The text is JSON, but neither an enveloped nor a direct
    /// specification; the detail names what failed in the direct attempt.
    InvalidDocument(String),
}

impl DeepView for ParseError {
    type V = ParseErrorModel;

    open spec fn deep_view(&self) -> ParseErrorModel {
        match self {
            ParseError::InvalidJson(d) => ParseErrorModel::InvalidJson(d@),
            ParseError::InvalidDocument(d) => ParseErrorModel::InvalidDocument(d@),
        }
    }
}

/// The full message of a load failure: a fixed prefix plus the detail.
pub open spec fn spec_parse_error_text(m: ParseErrorModel) -> Seq<char> {
    match m {
        ParseErrorModel::InvalidJson(d) => "Failed to parse swagger JSON: "@ + d,
        ParseErrorModel::InvalidDocument(d) => "Failed to parse swagger JSON: "@ + d,
    }
}

impl ParseError {
    /// A human-readable description of the failure, carrying its detail.
    pub fn message(&self) -> (r: String)
        ensures
            r@ == spec_parse_error_text(self.deep_view()),
    {
        let mut c = crate::text::chars_of("Failed to parse swagger JSON: ");
        let detail = match self {
            ParseError::InvalidJson(d) => d,
            ParseError::InvalidDocument(d) => d,
        };
        let dc = crate::text::chars_of(detail.as_str());
        crate::text::push_all(&mut c, &dc);
        proof {
            assert(c@ =~= spec_parse_error_text(self.deep_view()));
        }
        crate::text::string_from_chars(&c)
    }
}

/// What failed when a tree does not decode as a direct specification: the
/// first failing piece, checked in the decoder's order.
pub open spec fn spec_doc_failure_reason(t: JsonVal) -> Seq<char> {
    match t {
        JsonVal::Obj(o) => if req_str(o, "openapi"@) is None {
            "the `openapi` field is missing or not a string"@
        } else if (match spec_lookup(o, "info"@) {
            Some(x) => dec_info(x) is None,
            None => true,
        }) {
            "the `info` block is missing or malformed"@
        } else if (match spec_lookup(o, "servers"@) {
            None => false,
            Some(JsonVal::Arr(a)) => dec_server_list(a) is None,
            Some(_) => true,
        }) {
            "the `servers` field is malformed"@
        } else if (match spec_lookup(o, "paths"@) {
            Some(JsonVal::Obj(po)) => dec_paths_map(po) is None,
            _ => true,
        }) {
            "the `paths` field is missing or malformed"@
        } else {
            "the `components` block is malformed"@
        },
        _ => "the document is not a JSON object"@,
    }
}

/// Names the first failing piece of a tree that does not decode as a direct
/// specification.
fn describe_spec_failure(v: &JsonValue) -> (r: String)
    ensures
        r@ == spec_doc_failure_reason(jval_of(*v)),
{
    match v {
        JsonValue::Object(fields) => {
            if get_req_string(fields, "openapi").is_none() {
                return String::from_str("the `openapi` field is missing or not a string");
            }
            let info_bad = match crate::json::obj_lookup(fields, "info") {
                Some(x) => decode_info(x).is_none(),
                None => true,
            };
            if info_bad {
                return String::from_str("the `info` block is missing or malformed");
            }
            let servers_bad = match crate::json::obj_lookup(fields, "servers") {
                None => false,
                Some(x) => match x {
                    JsonValue::Array(a) => decode_server_list(a).is_none(),
                    _ => true,
                },
            };
            if servers_bad {
                return String::from_str("the `servers` field is malformed");
            }
            let paths_bad = match crate::json::obj_lookup(fields, "paths") {
                Some(x) => match x {
                    JsonValue::Object(po) => {
                        proof {
                            assert(jfields_of(po@).skip(0) =~= jfields_of(po@));
                        }
                        decode_paths_from(po, 0).is_none()
                    },
                    _ => true,
                },
                None => true,
            };
            if paths_bad {
                return String::from_str("the `paths` field is missing or malformed");
            }
            String::from_str("the `components` block is malformed")
        },
        _ => String::from_str("the document is not a JSON object"),
    }
}

/// What loading a document from text yields: the enveloped form is tried
/// first, then the text as a direct specification; a failure carries the
/// direct attempt's detail.
pub open spec fn spec_from_json(s: Seq<char>) -> Result<SpecModel, ParseErrorModel> {
    match crate::json::spec_parse_json(s) {
        None => Err(ParseErrorModel::InvalidJson(crate::json::spec_parse_json_error(s))),
        Some(t) => match dec_document(t) {
            Some(d) => Ok(d.swagger_doc),
            None => match dec_spec_val(t) {
                Some(m) => Ok(m),
                None => Err(ParseErrorModel::InvalidDocument(spec_doc_failure_reason(t))),
            },
        },
    }
}

impl SwaggerSpec {
    /// Parses a specification from JSON text: first as an enveloped document,
    /// then directly; fails only if both attempts fail, and the error carries
    /// the direct attempt's failure detail.
    pub fn from_json(json: &str) -> (r: Result<SwaggerSpec, ParseError>)
        ensures
            match r {
                Ok(spec) => spec_from_json(json@) == Ok::<SpecModel, ParseErrorModel>(
                    spec.deep_view(),
                ),
                Err(e) => spec_from_json(json@) == Err::<SpecModel, ParseErrorModel>(
                    e.deep_view(),
                ),
            },
    {
        match crate::json::parse_json(json) {
            Err(detail) => Err(ParseError::InvalidJson(detail)),
            Ok(t) => match decode_document(&t) {
                Some(d) => Ok(d.swagger_doc),
                None => match decode_spec(&t) {
                    Some(m) => Ok(m),
                    None => Err(ParseError::InvalidDocument(describe_spec_failure(&t))),
                },
            },
        }
    }

    /// The first declared server's base URL, if any server is declared.
    pub fn get_base_url(&self) -> (r: Option<String>)
        ensures
            match r {
                Some(u) => self.servers@.len() > 0 && u@ == self.servers@[0].url@,
                None => self.servers@.len() == 0,
            },
    {
        if self.servers.len() > 0 {
            Some(self.servers[0].url.clone())
        } else {
            None
        }
    }
}

// ---------------------------------------------------------------------------
// Name generation: a pure function of (path template, method).
// ---------------------------------------------------------------------------

/// `s` with every leading occurrence of `c` removed.
pub open spec fn strip_leading(s: Seq<char>, c: char) -> Seq<char>
    decreases s.len(),
{
    if s.len() > 0 && s[0] == c {
        strip_leading(s.drop_first(), c)
    } else {
        s
    }
}

/// Stripping all leading `c` keeps exactly the suffix after them.
pub proof fn lemma_strip_leading(s: Seq<char>, c: char, k: int)
    requires
        0 <= k <= s.len(),
        forall|j: int| 0 <= j < k ==> s[j] == c,
        k == s.len() || s[k] != c,
    ensures
        strip_leading(s, c) == s.subrange(k, s.len() as int),
    decreases k,
{
    if k == 0 {
        assert(s.subrange(0, s.len() as int) =~= s);
    } else {
        lemma_strip_leading(s.drop_first(), c, k - 1);
        assert(s.drop_first().subrange(k - 1, s.drop_first().len() as int) =~= s.subrange(
            k,
            s.len() as int,
        ));
    }
}

/// `s` with every `/` and `-` replaced by `_`.
pub open spec fn underscore_clean(s: Seq<char>) -> Seq<char> {
    Seq::new(
        s.len(),
        |i: int|
            if s[i] == '/' || s[i] == '-' {
                '_'
            } else {
                s[i]
            },
    )
}

/// `s` from position `i` on, with every `{x}` placeholder (at least one
/// character between the braces, up to the nearest closing brace) replaced by
/// `by_x`; unmatched or empty braces are kept as they are.
pub open spec fn expand_braces_from(s: Seq<char>, i: int) -> Seq<char>
    decreases s.len() - i,
{
    if i < 0 || i >= s.len() {
        Seq::empty()
    } else if s[i] == '{' {
        let j = crate::text::find_from(s, '}', i + 1);
        if j < s.len() && j > i + 1 {
            seq!['b', 'y', '_'] + s.subrange(i + 1, j) + expand_braces_from(s, j + 1)
        } else {
            seq![s[i]] + expand_braces_from(s, i + 1)
        }
    } else {
        seq![s[i]] + expand_braces_from(s, i + 1)
    }
}

/// The name prefix of each method: GET has none.
pub open spec fn spec_method_prefix(m: HttpMethod) -> Seq<char> {
    match m {
        HttpMethod::Get => Seq::empty(),
        HttpMethod::Post => "update_"@,
        HttpMethod::Put => "create_"@,
        HttpMethod::Delete => "delete_"@,
        HttpMethod::Patch => "patch_"@,
    }
}

/// The generated tool name: strip the leading slashes, turn `/` and `-` into
/// `_`, expand `{x}` to `by_x`, prepend the method prefix, and fall back to
/// `health_check` for the root path.
pub open spec fn spec_tool_name(path: Seq<char>, m: HttpMethod) -> Seq<char> {
    let expanded = expand_braces_from(underscore_clean(strip_leading(path, '/')), 0);
    if expanded.len() == 0 {
        spec_method_prefix(m) + "health_check"@
    } else {
        spec_method_prefix(m) + expanded
    }
}

/// The method prefix as characters.
fn method_prefix_chars(m: HttpMethod) -> (r: Vec<char>)
    ensures
        r@ == spec_method_prefix(m),
{
    match m {
        HttpMethod::Get => {
            let r: Vec<char> = Vec::new();
            proof {
                assert(r@ =~= Seq::<char>::empty());
            }
            r
        },
        HttpMethod::Post => crate::text::chars_of("update_"),
        HttpMethod::Put => crate::text::chars_of("create_"),
        HttpMethod::Delete => crate::text::chars_of("delete_"),
        HttpMethod::Patch => crate::text::chars_of("patch_"),
    }
}

/// Expands `{x}` placeholders to `by_x`.
fn expand_braces(s: &Vec<char>) -> (r: Vec<char>)
    ensures
        r@ == expand_braces_from(s@, 0),
{
    let mut out: Vec<char> = Vec::new();
    let mut i: usize = 0;
    proof {
        assert(out@ + expand_braces_from(s@, 0) =~= expand_braces_from(s@, 0));
    }
    while i < s.len()
        invariant
            i <= s@.len(),
            expand_braces_from(s@, 0) == out@ + expand_braces_from(s@, i as int),
        decreases s@.len() - i,
    {
        let ghost prev = out@;
        if s[i] == '{' {
            let j = crate::text::find_char_from(s, '}', i + 1);
            if j < s.len() && j > i + 1 {
                let ghost i0 = i as int;
                out.push('b');
                out.push('y');
                out.push('_');
                let mut t: usize = i + 1;
                while t < j
                    invariant
                        0 <= i0,
                        i0 + 1 <= t <= j <= s@.len(),
                        out@ == prev + seq!['b', 'y', '_'] + s@.subrange(i0 + 1, t as int),
                    decreases j - t,
                {
                    out.push(s[t]);
                    t = t + 1;
                    assert(out@ =~= prev + seq!['b', 'y', '_'] + s@.subrange(i0 + 1, t as int));
                }
                i = j + 1;
                proof {
                    assert(out@ + expand_braces_from(s@, i as int) =~= prev + (seq!['b', 'y', '_']
                        + s@.subrange(i0 + 1, j as int) + expand_braces_from(s@, j + 1)));
                }
            } else {
                out.push(s[i]);
                i = i + 1;
                proof {
                    assert(out@ + expand_braces_from(s@, i as int) =~= prev + (seq![s@[i - 1]]
                        + expand_braces_from(s@, i as int)));
                }
            }
        } else {
            out.push(s[i]);
            i = i + 1;
            proof {
                assert(out@ + expand_braces_from(s@, i as int) =~= prev + (seq![s@[i - 1]]
                    + expand_braces_from(s@, i as int)));
            }
        }
    }
    proof {
        assert(out@ =~= out@ + expand_braces_from(s@, i as int));
    }
    out
}

/// Generates the tool name for one (path, method) pair.
pub fn generate_tool_name(path: &str, method: HttpMethod) -> (r: String)
    ensures
        r@ == spec_tool_name(path@, method),
{
    let chars = crate::text::chars_of(path);
    let mut k: usize = 0;
    while k < chars.len() && chars[k] == '/'
        invariant
            k <= chars@.len(),
            chars@ == path@,
            forall|j: int| 0 <= j < k ==> chars@[j] == '/',
        decreases chars@.len() - k,
    {
        k = k + 1;
    }
    proof {
        lemma_strip_leading(chars@, '/', k as int);
    }
    let mut cleaned: Vec<char> = Vec::new();
    let mut i: usize = k;
    while i < chars.len()
        invariant
            k <= i <= chars@.len(),
            cleaned@.len() == i - k,
            forall|j: int|
                0 <= j < cleaned@.len() ==> cleaned@[j] == (if chars@[k + j] == '/' || chars@[k + j]
                    == '-' {
                    '_'
                } else {
                    chars@[k + j]
                }),
        decreases chars@.len() - i,
    {
        let c = chars[i];
        if c == '/' || c == '-' {
            cleaned.push('_');
        } else {
            cleaned.push(c);
        }
        i = i + 1;
    }
    proof {
        assert(cleaned@ =~= underscore_clean(strip_leading(path@, '/')));
    }
    let expanded = expand_braces(&cleaned);
    let mut name = method_prefix_chars(method);
    if expanded.len() == 0 {
        let hc = crate::text::chars_of("health_check");
        crate::text::push_all(&mut name, &hc);
    } else {
        crate::text::push_all(&mut name, &expanded);
    }
    crate::text::string_from_chars(&name)
}

// ---------------------------------------------------------------------------
// Path-parameter extraction and URL building.
// ---------------------------------------------------------------------------

/// The placeholder names of a path template, in order, from position `i` on.
pub open spec fn spec_template_params(s: Seq<char>, i: int) -> Seq<Seq<char>>
    decreases s.len() - i,
{
    if i < 0 || i >= s.len() {
        Seq::empty()
    } else if s[i] == '{' {
        let j = crate::text::find_from(s, '}', i + 1);
        if j < s.len() && j > i + 1 {
            seq![s.subrange(i + 1, j)] + spec_template_params(s, j + 1)
        } else {
            spec_template_params(s, i + 1)
        }
    } else {
        spec_template_params(s, i + 1)
    }
}

/// The placeholder names of a path template, in order.
pub fn extract_path_params(path: &str) -> (r: Vec<String>)
    ensures
        r.deep_view() == spec_template_params(path@, 0),
{
    let chars = crate::text::chars_of(path);
    let mut out: Vec<String> = Vec::new();
    let mut i: usize = 0;
    proof {
        assert(out.deep_view() + spec_template_params(chars@, 0) =~= spec_template_params(
            chars@,
            0,
        ));
    }
    while i < chars.len()
        invariant
            i <= chars@.len(),
            chars@ == path@,
            spec_template_params(chars@, 0) == out.deep_view() + spec_template_params(
                chars@,
                i as int,
            ),
        decreases chars@.len() - i,
    {
        let ghost prev = out.deep_view();
        if chars[i] == '{' {
            let j = crate::text::find_char_from(&chars, '}', i + 1);
            if j < chars.len() && j > i + 1 {
                let mut name: Vec<char> = Vec::new();
                let mut t: usize = i + 1;
                while t < j
                    invariant
                        i + 1 <= t <= j <= chars@.len(),
                        name@ == chars@.subrange(i + 1 as int, t as int),
                    decreases j - t,
                {
                    name.push(chars[t]);
                    t = t + 1;
                    assert(name@ =~= chars@.subrange(i + 1 as int, t as int));
                }
                out.push(crate::text::string_from_chars(&name));
                i = j + 1;
                proof {
                    assert(out.deep_view() =~= prev + seq![name@]);
                    assert(out.deep_view() + spec_template_params(chars@, i as int) =~= prev + (
                    seq![name@] + spec_template_params(chars@, i as int)));
                }
            } else {
                i = i + 1;
            }
        } else {
            i = i + 1;
        }
    }
    proof {
        assert(out.deep_view() =~= out.deep_view() + spec_template_params(chars@, i as int));
    }
    out
}

/// `s` with every trailing occurrence of `c` removed.
pub open spec fn strip_trailing(s: Seq<char>, c: char) -> Seq<char>
    decreases s.len(),
{
    if s.len() > 0 && s[s.len() - 1] == c {
        strip_trailing(s.drop_last(), c)
    } else {
        s
    }
}

/// Stripping all trailing `c` keeps exactly the prefix before them.
pub proof fn lemma_strip_trailing(s: Seq<char>, c: char, m: int)
    requires
        0 <= m <= s.len(),
        forall|j: int| m <= j < s.len() ==> s[j] == c,
        m == 0 || s[m - 1] != c,
    ensures
        strip_trailing(s, c) == s.subrange(0, m),
    decreases s.len(),
{
    if s.len() > m {
        lemma_strip_trailing(s.drop_last(), c, m);
        assert(s.drop_last().subrange(0, m) =~= s.subrange(0, m));
    } else {
        assert(s.subrange(0, m) =~= s);
    }
}

/// `u` with every `{key}` replaced by the corresponding value, applied for
/// each pair in order.
pub open spec fn spec_substituted(u: Seq<char>, params: Seq<(Seq<char>, Seq<char>)>) -> Seq<char>
    decreases params.len(),
{
    if params.len() == 0 {
        u
    } else {
        spec_substituted(
            crate::text::replace_from(u, 0, seq!['{'] + params[0].0 + seq!['}'], params[0].1),
            params.drop_first(),
        )
    }
}

/// The concrete URL: the base with trailing slashes stripped, the template
/// appended, and every `{key}` placeholder substituted.
pub open spec fn spec_build_url(
    base: Seq<char>,
    path: Seq<char>,
    params: Seq<(Seq<char>, Seq<char>)>,
) -> Seq<char> {
    spec_substituted(strip_trailing(base, '/') + path, params)
}

/// Builds the concrete URL for a call by substituting path parameters into
/// the template.
pub fn build_url(base_url: &str, path: &str, path_params: &Vec<(String, String)>) -> (r: String)
    ensures
        r@ == spec_build_url(base_url@, path@, path_params.deep_view()),
{
    let base = crate::text::chars_of(base_url);
    let mut m: usize = base.len();
    while m > 0 && base[m - 1] == '/'
        invariant
            m <= base@.len(),
            base@ == base_url@,
            forall|j: int| m <= j < base@.len() ==> base@[j] == '/',
        decreases m,
    {
        m = m - 1;
    }
    proof {
        lemma_strip_trailing(base@, '/', m as int);
    }
    let mut url: Vec<char> = Vec::new();
    let mut i: usize = 0;
    while i < m
        invariant
            i <= m <= base@.len(),
            url@ == base@.subrange(0, i as int),
        decreases m - i,
    {
        url.push(base[i]);
        i = i + 1;
        assert(url@ =~= base@.subrange(0, i as int));
    }
    let path_chars = crate::text::chars_of(path);
    crate::text::push_all(&mut url, &path_chars);
    proof {
        assert(url@ =~= strip_trailing(base_url@, '/') + path@);
    }
    let ghost params_model = path_params.deep_view();
    let mut k: usize = 0;
    proof {
        assert(params_model.skip(0) =~= params_model);
    }
    while k < path_params.len()
        invariant
            k <= path_params@.len(),
            params_model == path_params.deep_view(),
            params_model.len() == path_params@.len(),
            spec_build_url(base_url@, path@, params_model) == spec_substituted(
                url@,
                params_model.skip(k as int),
            ),
        decreases path_params@.len() - k,
    {
        let mut pat: Vec<char> = Vec::new();
        pat.push('{');
        let key_chars = crate::text::chars_of(path_params[k].0.as_str());
        crate::text::push_all(&mut pat, &key_chars);
        pat.push('}');
        let val_chars = crate::text::chars_of(path_params[k].1.as_str());
        proof {
            assert(params_model[k as int] == (path_params@[k as int].0@, path_params@[k as int].1@));
            assert(pat@ =~= seq!['{'] + params_model[k as int].0 + seq!['}']);
            assert(params_model.skip(k as int)[0] == params_model[k as int]);
            assert(params_model.skip(k as int).drop_first() =~= params_model.skip(k as int + 1));
        }
        let replaced = crate::text::replace_all(&url, &pat, &val_chars);
        url = replaced;
        k = k + 1;
    }
    proof {
        assert(params_model.skip(k as int).len() == 0);
    }
    crate::text::string_from_chars(&url)
}

// ---------------------------------------------------------------------------
// Extraction engine: one endpoint per (path, declared method), in document
// order, methods in the fixed order GET, POST, PUT, DELETE, PATCH.
// ---------------------------------------------------------------------------

/// The endpoint parameter a declared parameter converts to: the type defaults
/// to string when the schema declares none.
pub open spec fn spec_convert_parameter(p: SrcParamModel) -> ParamModel {
    ParamModel {
        name: p.name,
        param_type: match p.schema {
            Some(s) => match s.schema_type {
                Some(t) => crate::types::spec_from_openapi_type(t),
                None => ParameterType::String,
            },
            None => ParameterType::String,
        },
        required: p.required,
        description: p.description,
        default_value: match p.schema {
            Some(s) => s.default,
            None => None,
        },
    }
}

/// Converts one declared parameter.
pub fn convert_parameter(param: &Parameter) -> (r: EndpointParameter)
    ensures
        r.deep_view() == spec_convert_parameter(param.deep_view()),
{
    let param_type = match &param.schema {
        Some(s) => match &s.schema_type {
            Some(t) => ParameterType::from_openapi_type(t.as_str()),
            None => ParameterType::String,
        },
        None => ParameterType::String,
    };
    let default_value = match &param.schema {
        Some(s) => match &s.default {
            Some(v) => Some(crate::json::clone_value(v)),
            None => None,
        },
        None => None,
    };
    EndpointParameter {
        name: param.name.clone(),
        param_type: param_type,
        required: param.required,
        description: crate::text::clone_opt_string(&param.description),
        default_value: default_value,
    }
}

/// The converted parameters declared with location `path`, in order.
pub open spec fn spec_path_params_of(params: Seq<SrcParamModel>) -> Seq<ParamModel>
    decreases params.len(),
{
    if params.len() == 0 {
        Seq::empty()
    } else {
        let rest = spec_path_params_of(params.drop_first());
        if params[0].location == "path"@ {
            seq![spec_convert_parameter(params[0])] + rest
        } else {
            rest
        }
    }
}

/// The converted parameters declared with location `query`, in order.
pub open spec fn spec_query_params_of(params: Seq<SrcParamModel>) -> Seq<ParamModel>
    decreases params.len(),
{
    if params.len() == 0 {
        Seq::empty()
    } else {
        let rest = spec_query_params_of(params.drop_first());
        if params[0].location == "query"@ {
            seq![spec_convert_parameter(params[0])] + rest
        } else {
            rest
        }
    }
}

/// The body property a source property converts to, under the given name;
/// nested item schemas get the placeholder name `item`.
pub open spec fn spec_convert_prop(name: Seq<char>, p: SrcPropModel) -> PropModel
    decreases p,
{
    PropModel {
        name: name,
        param_type: match p.schema_type {
            Some(t) => crate::types::spec_from_openapi_type(t),
            None => ParameterType::String,
        },
        description: p.description,
        default_value: p.default,
        enum_values: p.enum_values,
        nullable: match p.nullable {
            Some(b) => b,
            None => false,
        },
        min_length: p.min_length,
        max_length: p.max_length,
        minimum: p.minimum,
        maximum: p.maximum,
        pattern: p.pattern,
        items: match p.items {
            Some(b) => Some(Box::new(spec_convert_prop("item"@, *b))),
            None => None,
        },
    }
}

/// Converts one source property schema, recursively.
pub fn convert_schema_property(name: &str, prop: &SchemaProperty) -> (r: PropertySchema)
    ensures
        r.deep_view() == spec_convert_prop(name@, prop.deep_view()),
    decreases *prop,
{
    let param_type = match &prop.schema_type {
        Some(t) => ParameterType::from_openapi_type(t.as_str()),
        None => ParameterType::String,
    };
    let items = match &prop.items {
        Some(b) => Some(Box::new(convert_schema_property("item", &**b))),
        None => None,
    };
    let nullable = match prop.nullable {
        Some(b) => b,
        None => false,
    };
    let default_value = match &prop.default {
        Some(v) => Some(crate::json::clone_value(v)),
        None => None,
    };
    let enum_values = match &prop.enum_values {
        Some(vs) => Some(crate::text::clone_string_vec(vs)),
        None => None,
    };
    PropertySchema {
        name: String::from_str(name),
        param_type: param_type,
        description: crate::text::clone_opt_string(&prop.description),
        default_value: default_value,
        enum_values: enum_values,
        nullable: nullable,
        min_length: crate::text::clone_opt_string(&prop.min_length),
        max_length: crate::text::clone_opt_string(&prop.max_length),
        minimum: crate::text::clone_opt_string(&prop.minimum),
        maximum: crate::text::clone_opt_string(&prop.maximum),
        pattern: crate::text::clone_opt_string(&prop.pattern),
        items: items,
    }
}

/// `props` with the binding for `key` replaced in place, or appended when the
/// key is new: keys stay unique and keep their first-insertion position.
pub open spec fn spec_upsert(
    props: Seq<(Seq<char>, PropModel)>,
    key: Seq<char>,
    val: PropModel,
) -> Seq<(Seq<char>, PropModel)>
    decreases props.len(),
{
    if props.len() == 0 {
        seq![(key, val)]
    } else if props[0].0 == key {
        seq![(key, val)] + props.drop_first()
    } else {
        seq![props[0]] + spec_upsert(props.drop_first(), key, val)
    }
}

/// Upserting at the first occurrence of the key is an in-place update.
proof fn lemma_upsert_hit(props: Seq<(Seq<char>, PropModel)>, key: Seq<char>, val: PropModel, i: int)
    requires
        0 <= i < props.len(),
        props[i].0 == key,
        forall|j: int| 0 <= j < i ==> (#[trigger] props[j]).0 != key,
    ensures
        spec_upsert(props, key, val) == props.update(i, (key, val)),
    decreases i,
{
    if i == 0 {
        assert(seq![(key, val)] + props.drop_first() =~= props.update(0, (key, val)));
    } else {
        assert(props.drop_first()[i - 1].0 == key);
        lemma_upsert_hit(props.drop_first(), key, val, i - 1);
        assert(seq![props[0]] + props.drop_first().update(i - 1, (key, val)) =~= props.update(
            i,
            (key, val),
        ));
    }
}

/// Upserting a fresh key appends it.
proof fn lemma_upsert_miss(props: Seq<(Seq<char>, PropModel)>, key: Seq<char>, val: PropModel)
    requires
        forall|j: int| 0 <= j < props.len() ==> (#[trigger] props[j]).0 != key,
    ensures
        spec_upsert(props, key, val) == props.push((key, val)),
    decreases props.len(),
{
    if props.len() == 0 {
        assert(seq![(key, val)] =~= props.push((key, val)));
    } else {
        lemma_upsert_miss(props.drop_first(), key, val);
        assert(seq![props[0]] + props.drop_first().push((key, val)) =~= props.push((key, val)));
    }
}

/// Replaces or appends one named property.
fn upsert_prop(props: &mut Vec<(String, PropertySchema)>, key: String, val: PropertySchema)
    ensures
        props_model(final(props)@) == spec_upsert(
            props_model(old(props)@),
            key@,
            prop_model(val),
        ),
{
    let ghost model0 = props_model(old(props)@);
    let mut i: usize = 0;
    while i < props.len()
        invariant
            i <= props@.len(),
            *props == *old(props),
            model0 == props_model(props@),
            forall|j: int| 0 <= j < i ==> (#[trigger] props@[j]).0@ != key@,
        decreases props@.len() - i,
    {
        if crate::text::string_eq_str(&props[i].0, key.as_str()) {
            props.remove(i);
            props.insert(i, (key, val));
            proof {
                assert(props@ =~= old(props)@.update(i as int, (key, val)));
                assert(model0[i as int].0 == key@);
                assert forall|j: int| 0 <= j < i implies (#[trigger] model0[j]).0 != key@ by {
                    assert(model0[j] == (old(props)@[j].0@, prop_model(old(props)@[j].1)));
                }
                lemma_upsert_hit(model0, key@, prop_model(val), i as int);
                assert(props_model(props@) =~= model0.update(i as int, (key@, prop_model(val))));
            }
            return ;
        }
        i = i + 1;
    }
    props.push((key, val));
    proof {
        assert forall|j: int| 0 <= j < model0.len() implies (#[trigger] model0[j]).0 != key@ by {
            assert(model0[j] == (old(props)@[j].0@, prop_model(old(props)@[j].1)));
        }
        lemma_upsert_miss(model0, key@, prop_model(val));
        assert(props_model(props@) =~= model0.push((key@, prop_model(val))));
    }
}

/// `acc` with every source property converted and merged in, later entries
/// overwriting earlier ones in place.
pub open spec fn spec_merge_props(
    acc: Seq<(Seq<char>, PropModel)>,
    src: Seq<(Seq<char>, SrcPropModel)>,
) -> Seq<(Seq<char>, PropModel)>
    decreases src.len(),
{
    if src.len() == 0 {
        acc
    } else {
        spec_merge_props(
            spec_upsert(acc, src[0].0, spec_convert_prop(src[0].0, src[0].1)),
            src.drop_first(),
        )
    }
}

/// Converts and merges a source property map into the accumulator.
fn merge_prop_map(props: &mut Vec<(String, PropertySchema)>, src: &Vec<(String, SchemaProperty)>)
    ensures
        props_model(final(props)@) == spec_merge_props(
            props_model(old(props)@),
            src_prop_map_model(src@),
        ),
{
    let ghost model0 = props_model(old(props)@);
    let ghost src_model = src_prop_map_model(src@);
    proof {
        lemma_src_prop_map_model(src@);
        assert(src_model.skip(0) =~= src_model);
    }
    let mut k: usize = 0;
    while k < src.len()
        invariant
            k <= src@.len(),
            src_model == src_prop_map_model(src@),
            src_model.len() == src@.len(),
            forall|j: int|
                0 <= j < src@.len() ==> src_model[j] == ((#[trigger] src@[j]).0@, src_prop_model(
                    src@[j].1,
                )),
            spec_merge_props(model0, src_model) == spec_merge_props(
                props_model(props@),
                src_model.skip(k as int),
            ),
        decreases src@.len() - k,
    {
        proof {
            assert(src_model.skip(k as int)[0] == src_model[k as int]);
            assert(src_model.skip(k as int).drop_first() =~= src_model.skip(k as int + 1));
        }
        let converted = convert_schema_property(src[k].0.as_str(), &src[k].1);
        upsert_prop(props, src[k].0.clone(), converted);
        k = k + 1;
    }
    proof {
        assert(src_model.skip(k as int).len() == 0);
    }
}

/// `acc` with each name of `add` appended unless already present: first-seen
/// order, duplicates suppressed.
pub open spec fn spec_add_required(acc: Seq<Seq<char>>, add: Seq<Seq<char>>) -> Seq<Seq<char>>
    decreases add.len(),
{
    if add.len() == 0 {
        acc
    } else {
        spec_add_required(
            if acc.contains(add[0]) {
                acc
            } else {
                acc.push(add[0])
            },
            add.drop_first(),
        )
    }
}

/// Merges required names into the accumulator, suppressing duplicates.
pub(crate) fn add_required(required: &mut Vec<String>, add: &Vec<String>)
    ensures
        final(required).deep_view() == spec_add_required(
            old(required).deep_view(),
            add.deep_view(),
        ),
{
    let ghost model0 = old(required).deep_view();
    let ghost add_model = add.deep_view();
    proof {
        assert(add_model.skip(0) =~= add_model);
    }
    let mut k: usize = 0;
    while k < add.len()
        invariant
            k <= add@.len(),
            add_model == add.deep_view(),
            add_model.len() == add@.len(),
            spec_add_required(model0, add_model) == spec_add_required(
                required.deep_view(),
                add_model.skip(k as int),
            ),
        decreases add@.len() - k,
    {
        proof {
            assert(add_model.skip(k as int)[0] == add_model[k as int]);
            assert(add_model.skip(k as int).drop_first() =~= add_model.skip(k as int + 1));
            assert(add_model[k as int] == add@[k as int]@);
        }
        if !crate::text::contains_str(required, add[k].as_str()) {
            let ghost prev = required.deep_view();
            required.push(add[k].clone());
            proof {
                assert(required.deep_view() =~= prev.push(add_model[k as int]));
            }
        }
        k = k + 1;
    }
    proof {
        assert(add_model.skip(k as int).len() == 0);
    }
}

/// The first media type entry with the given name, if any.
pub open spec fn spec_media_lookup(
    content: Seq<(Seq<char>, MediaTypeModel)>,
    key: Seq<char>,
) -> Option<(Seq<char>, MediaTypeModel)>
    decreases content.len(),
{
    if content.len() == 0 {
        None
    } else if content[0].0 == key {
        Some(content[0])
    } else {
        spec_media_lookup(content.drop_first(), key)
    }
}

/// The media type entry that drives the body schema, name and media:
/// `application/json` when declared, else the first declared entry.
pub open spec fn spec_select_media(content: Seq<(Seq<char>, MediaTypeModel)>) -> Option<
    (Seq<char>, MediaTypeModel),
> {
    match spec_media_lookup(content, "application/json"@) {
        Some(m) => Some(m),
        None => if content.len() > 0 {
            Some(content[0])
        } else {
            None
        },
    }
}

/// Picks the index of the media type entry that drives the body schema.
fn select_media_idx(content: &Vec<(String, MediaType)>) -> (r: Option<usize>)
    ensures
        match r {
            Some(i) => i < content@.len() && spec_select_media(content.deep_view()) == Some(
                content.deep_view()[i as int],
            ),
            None => content@.len() == 0 && spec_select_media(content.deep_view()) is None,
        },
{
    let ghost model = content.deep_view();
    proof {
        assert(model.skip(0) =~= model);
    }
    let mut i: usize = 0;
    while i < content.len()
        invariant
            i <= content@.len(),
            model == content.deep_view(),
            model.len() == content@.len(),
            spec_media_lookup(model, "application/json"@) == spec_media_lookup(
                model.skip(i as int),
                "application/json"@,
            ),
        decreases content@.len() - i,
    {
        proof {
            assert(model.skip(i as int)[0] == model[i as int]);
            assert(model[i as int] == (content@[i as int].0@, content@[i as int].1.deep_view()));
        }
        if crate::text::string_eq_str(&content[i].0, "application/json") {
            return Some(i);
        }
        proof {
            assert(model.skip(i as int).drop_first() =~= model.skip(i as int + 1));
        }
        i = i + 1;
    }
    proof {
        assert(model.skip(i as int).len() == 0);
    }
    if content.len() > 0 {
        Some(0)
    } else {
        None
    }
}

/// A sequence of names, or empty when absent.
pub open spec fn or_empty<T>(o: Option<Seq<T>>) -> Seq<T> {
    match o {
        Some(x) => x,
        None => Seq::empty(),
    }
}

/// Properties and required names after merging a run of sub-schemas, each
/// merged in declared order.
pub open spec fn spec_merge_subschemas(
    acc: Seq<(Seq<char>, PropModel)>,
    req: Seq<Seq<char>>,
    subs: Seq<SchemaModel>,
) -> (Seq<(Seq<char>, PropModel)>, Seq<Seq<char>>)
    decreases subs.len(),
{
    if subs.len() == 0 {
        (acc, req)
    } else {
        spec_merge_subschemas(
            spec_merge_props(acc, or_empty(subs[0].properties)),
            spec_add_required(req, or_empty(subs[0].required)),
            subs.drop_first(),
        )
    }
}

/// The merged body schema a declared request body yields, if any: the
/// content type is the chosen media type's name, and properties come from
/// the driving schema itself, then every `allOf` entry, then the first
/// `anyOf` entry; `oneOf` is never merged. An empty merge yields no body.
pub open spec fn spec_extract_body(rb: RequestBodyModel) -> Option<BodyModel> {
    match spec_select_media(rb.content) {
        None => None,
        Some(chosen) => match chosen.1.schema {
            None => None,
            Some(schema) => {
                let acc0 = spec_merge_props(Seq::empty(), or_empty(schema.properties));
                let req0 = spec_add_required(Seq::empty(), or_empty(schema.required));
                let merged = spec_merge_subschemas(acc0, req0, or_empty(schema.all_of));
                let anyof = or_empty(schema.any_of);
                let acc2 = if anyof.len() > 0 {
                    spec_merge_props(merged.0, or_empty(anyof[0].properties))
                } else {
                    merged.0
                };
                let req2 = if anyof.len() > 0 {
                    spec_add_required(merged.1, or_empty(anyof[0].required))
                } else {
                    merged.1
                };
                if acc2.len() == 0 {
                    None
                } else {
                    Some(BodyModel { content_type: chosen.0, properties: acc2, required: req2 })
                }
            },
        },
    }
}

/// Extracts and merges the body schema of a declared request body.
pub fn extract_request_body_schema(request_body: &RequestBody) -> (r: Option<RequestBodySchema>)
    ensures
        r.deep_view() == spec_extract_body(request_body.deep_view()),
{
    let idx = match select_media_idx(&request_body.content) {
        Some(i) => i,
        None => {
            return None;
        },
    };
    let content_type = request_body.content[idx].0.clone();
    let schema = match &request_body.content[idx].1.schema {
        Some(s) => s,
        None => {
            return None;
        },
    };
    let mut props: Vec<(String, PropertySchema)> = Vec::new();
    let mut required: Vec<String> = Vec::new();
    proof {
        assert(props_model(props@) =~= Seq::<(Seq<char>, PropModel)>::empty());
        assert(required.deep_view() =~= Seq::<Seq<char>>::empty());
    }
    match &schema.properties {
        Some(direct) => {
            merge_prop_map(&mut props, direct);
        },
        None => {
            proof {
                assert(or_empty(schema.deep_view().properties) =~= Seq::<
                    (Seq<char>, SrcPropModel),
                >::empty());
            }
        },
    }
    match &schema.required {
        Some(req) => {
            add_required(&mut required, req);
        },
        None => {
            proof {
                assert(or_empty(schema.deep_view().required) =~= Seq::<Seq<char>>::empty());
            }
        },
    }
    let ghost acc0 = props_model(props@);
    let ghost req0 = required.deep_view();
    match &schema.all_of {
        Some(all_of) => {
            let ghost subs = schema_list_model(all_of@);
            proof {
                lemma_schema_list_model(all_of@);
                assert(subs.skip(0) =~= subs);
            }
            let mut k: usize = 0;
            while k < all_of.len()
                invariant
                    k <= all_of@.len(),
                    subs == schema_list_model(all_of@),
                    subs.len() == all_of@.len(),
                    forall|j: int|
                        0 <= j < all_of@.len() ==> subs[j] == schema_model(#[trigger] all_of@[j]),
                    spec_merge_subschemas(acc0, req0, subs) == spec_merge_subschemas(
                        props_model(props@),
                        required.deep_view(),
                        subs.skip(k as int),
                    ),
                decreases all_of@.len() - k,
            {
                proof {
                    assert(subs.skip(k as int)[0] == subs[k as int]);
                    assert(subs.skip(k as int).drop_first() =~= subs.skip(k as int + 1));
                }
                let sub = &all_of[k];
                match &sub.properties {
                    Some(p) => {
                        merge_prop_map(&mut props, p);
                    },
                    None => {
                        proof {
                            assert(or_empty(subs[k as int].properties) =~= Seq::<
                                (Seq<char>, SrcPropModel),
                            >::empty());
                        }
                    },
                }
                match &sub.required {
                    Some(rq) => {
                        add_required(&mut required, rq);
                    },
                    None => {
                        proof {
                            assert(or_empty(subs[k as int].required) =~= Seq::<Seq<char>>::empty());
                        }
                    },
                }
                k = k + 1;
            }
            proof {
                assert(subs.skip(k as int).len() == 0);
            }
        },
        None => {
            proof {
                assert(or_empty(schema.deep_view().all_of) =~= Seq::<SchemaModel>::empty());
            }
        },
    }
    let ghost acc1 = props_model(props@);
    let ghost req1 = required.deep_view();
    match &schema.any_of {
        Some(any_of) =>

            if any_of.len() > 0 {
                proof {
                    lemma_schema_list_model(any_of@);
                }
                let first = &any_of[0];
                match &first.properties {
                    Some(p) => {
                        merge_prop_map(&mut props, p);
                    },
                    None => {
                        proof {
                            assert(or_empty(schema_model(any_of@[0]).properties) =~= Seq::<
                                (Seq<char>, SrcPropModel),
                            >::empty());
                        }
                    },
                }
                match &first.required {
                    Some(rq) => {
                        add_required(&mut required, rq);
                    },
                    None => {
                        proof {
                            assert(or_empty(schema_model(any_of@[0]).required) =~= Seq::<
                                Seq<char>,
                            >::empty());
                        }
                    },
                }
            },
        None => {},
    }
    if props.len() == 0 {
        proof {
            assert(props_model(props@).len() == 0);
        }
        return None;
    }
    proof {
        assert(props_model(props@).len() == props@.len());
    }
    Some(
        RequestBodySchema {
            content_type: content_type,
            properties: props,
            required: required,
        },
    )
}

/// The canonical endpoint one (path, method, operation) triple yields.
pub open spec fn spec_create_endpoint(
    path: Seq<char>,
    method: HttpMethod,
    op: OpModel,
) -> EndpointModel {
    EndpointModel {
        name: spec_tool_name(path, method),
        method: method,
        path: path,
        description: match op.description {
            Some(d) => d,
            None => match op.summary {
                Some(s) => s,
                None => method.spec_as_str() + seq![' '] + path,
            },
        },
        tags: op.tags,
        path_params: spec_path_params_of(op.parameters),
        query_params: spec_query_params_of(op.parameters),
        request_body: match op.request_body {
            Some(rb) => spec_extract_body(rb),
            None => None,
        },
    }
}

/// Builds the canonical endpoint for one (path, method, operation) triple.
pub fn create_endpoint(path: &String, method: HttpMethod, operation: &Operation) -> (r:
    PangolinEndpoint)
    ensures
        r.deep_view() == spec_create_endpoint(path@, method, operation.deep_view()),
{
    let name = generate_tool_name(path.as_str(), method);
    let description = match &operation.description {
        Some(d) => d.clone(),
        None => match &operation.summary {
            Some(s) => s.clone(),
            None => {
                let mut dv = crate::text::chars_of(method.as_str());
                dv.push(' ');
                let pc = crate::text::chars_of(path.as_str());
                crate::text::push_all(&mut dv, &pc);
                proof {
                    assert(dv@ =~= method.spec_as_str() + seq![' '] + path@);
                }
                crate::text::string_from_chars(&dv)
            },
        },
    };
    let ghost params_model = operation.parameters.deep_view();
    let mut path_params: Vec<EndpointParameter> = Vec::new();
    let mut query_params: Vec<EndpointParameter> = Vec::new();
    proof {
        assert(params_model.skip(0) =~= params_model);
        assert(path_params.deep_view() + spec_path_params_of(params_model) =~= spec_path_params_of(
            params_model,
        ));
        assert(query_params.deep_view() + spec_query_params_of(params_model)
            =~= spec_query_params_of(params_model));
    }
    let mut k: usize = 0;
    while k < operation.parameters.len()
        invariant
            k <= operation.parameters@.len(),
            params_model == operation.parameters.deep_view(),
            params_model.len() == operation.parameters@.len(),
            spec_path_params_of(params_model) == path_params.deep_view() + spec_path_params_of(
                params_model.skip(k as int),
            ),
            spec_query_params_of(params_model) == query_params.deep_view() + spec_query_params_of(
                params_model.skip(k as int),
            ),
        decreases operation.parameters@.len() - k,
    {
        proof {
            reveal_strlit("path");
            reveal_strlit("query");
            assert("path"@.len() == 4);
            assert("query"@.len() == 5);
            assert("path"@ != "query"@);
            assert(params_model.skip(k as int)[0] == params_model[k as int]);
            assert(params_model[k as int] == operation.parameters@[k as int].deep_view());
            assert(params_model.skip(k as int).drop_first() =~= params_model.skip(k as int + 1));
        }
        let p = &operation.parameters[k];
        if crate::text::string_eq_str(&p.location, "path") {
            let ghost prev = path_params.deep_view();
            path_params.push(convert_parameter(p));
            proof {
                assert(path_params.deep_view() =~= prev + seq![
                    spec_convert_parameter(params_model[k as int]),
                ]);
                assert(path_params.deep_view() + spec_path_params_of(
                    params_model.skip(k as int + 1),
                ) =~= prev + (seq![spec_convert_parameter(params_model[k as int])]
                    + spec_path_params_of(params_model.skip(k as int + 1))));
            }
        } else if crate::text::string_eq_str(&p.location, "query") {
            let ghost prev = query_params.deep_view();
            query_params.push(convert_parameter(p));
            proof {
                assert(query_params.deep_view() =~= prev + seq![
                    spec_convert_parameter(params_model[k as int]),
                ]);
                assert(query_params.deep_view() + spec_query_params_of(
                    params_model.skip(k as int + 1),
                ) =~= prev + (seq![spec_convert_parameter(params_model[k as int])]
                    + spec_query_params_of(params_model.skip(k as int + 1))));
            }
        }
        k = k + 1;
    }
    proof {
        assert(params_model.skip(k as int).len() == 0);
        assert(path_params.deep_view() =~= path_params.deep_view() + spec_path_params_of(
            params_model.skip(k as int),
        ));
        assert(query_params.deep_view() =~= query_params.deep_view() + spec_query_params_of(
            params_model.skip(k as int),
        ));
    }
    let request_body = match &operation.request_body {
        Some(rb) => extract_request_body_schema(rb),
        None => None,
    };
    PangolinEndpoint {
        name: name,
        method: method,
        path: path.clone(),
        description: description,
        tags: crate::text::clone_string_vec(&operation.tags),
        path_params: path_params,
        query_params: query_params,
        request_body: request_body,
    }
}

/// The endpoints one path item yields, methods in the fixed order GET, POST,
/// PUT, DELETE, PATCH.
pub open spec fn spec_path_endpoints(path: Seq<char>, pi: PathItemModel) -> Seq<EndpointModel> {
    (match pi.get {
        Some(op) => seq![spec_create_endpoint(path, HttpMethod::Get, op)],
        None => Seq::empty(),
    }) + (match pi.post {
        Some(op) => seq![spec_create_endpoint(path, HttpMethod::Post, op)],
        None => Seq::empty(),
    }) + (match pi.put {
        Some(op) => seq![spec_create_endpoint(path, HttpMethod::Put, op)],
        None => Seq::empty(),
    }) + (match pi.delete {
        Some(op) => seq![spec_create_endpoint(path, HttpMethod::Delete, op)],
        None => Seq::empty(),
    }) + (match pi.patch {
        Some(op) => seq![spec_create_endpoint(path, HttpMethod::Patch, op)],
        None => Seq::empty(),
    })
}

/// Builds the endpoints declared at one path.
fn path_item_endpoints(path: &String, item: &PathItem) -> (r: Vec<PangolinEndpoint>)
    ensures
        r.deep_view() == spec_path_endpoints(path@, item.deep_view()),
{
    let ghost pim = item.deep_view();
    let mut out: Vec<PangolinEndpoint> = Vec::new();
    match &item.get {
        Some(op) => {
            out.push(create_endpoint(path, HttpMethod::Get, op));
        },
        None => {},
    }
    let ghost g0 = out.deep_view();
    proof {
        assert(g0 =~= (match pim.get {
            Some(op) => seq![spec_create_endpoint(path@, HttpMethod::Get, op)],
            None => Seq::empty(),
        }));
    }
    match &item.post {
        Some(op) => {
            out.push(create_endpoint(path, HttpMethod::Post, op));
        },
        None => {},
    }
    let ghost g1 = out.deep_view();
    proof {
        assert(g1 =~= g0 + (match pim.post {
            Some(op) => seq![spec_create_endpoint(path@, HttpMethod::Post, op)],
            None => Seq::empty(),
        }));
    }
    match &item.put {
        Some(op) => {
            out.push(create_endpoint(path, HttpMethod::Put, op));
        },
        None => {},
    }
    let ghost g2 = out.deep_view();
    proof {
        assert(g2 =~= g1 + (match pim.put {
            Some(op) => seq![spec_create_endpoint(path@, HttpMethod::Put, op)],
            None => Seq::empty(),
        }));
    }
    match &item.delete {
        Some(op) => {
            out.push(create_endpoint(path, HttpMethod::Delete, op));
        },
        None => {},
    }
    let ghost g3 = out.deep_view();
    proof {
        assert(g3 =~= g2 + (match pim.delete {
            Some(op) => seq![spec_create_endpoint(path@, HttpMethod::Delete, op)],
            None => Seq::empty(),
        }));
    }
    match &item.patch {
        Some(op) => {
            out.push(create_endpoint(path, HttpMethod::Patch, op));
        },
        None => {},
    }
    proof {
        assert(out.deep_view() =~= g3 + (match pim.patch {
            Some(op) => seq![spec_create_endpoint(path@, HttpMethod::Patch, op)],
            None => Seq::empty(),
        }));
        assert(out.deep_view() =~= spec_path_endpoints(path@, pim));
    }
    out
}

/// The full extraction: endpoints for every path, in document order.
pub open spec fn spec_extract_from(paths: Seq<(Seq<char>, PathItemModel)>) -> Seq<EndpointModel>
    decreases paths.len(),
{
    if paths.len() == 0 {
        Seq::empty()
    } else {
        spec_path_endpoints(paths[0].0, paths[0].1) + spec_extract_from(paths.drop_first())
    }
}

/// The canonical endpoint list of a whole document.
pub open spec fn spec_extract_endpoints(spec: SpecModel) -> Seq<EndpointModel> {
    spec_extract_from(spec.paths)
}

impl SwaggerSpec {
    /// Extracts the canonical, ordered endpoint list: one endpoint per
    /// (path, declared method) pair, paths in document order, methods in the
    /// fixed order GET, POST, PUT, DELETE, PATCH.
    pub fn extract_endpoints(&self) -> (r: Vec<PangolinEndpoint>)
        ensures
            r.deep_view() == spec_extract_endpoints(self.deep_view()),
    {
        let ghost paths_model = self.paths.deep_view();
        let mut out: Vec<PangolinEndpoint> = Vec::new();
        proof {
            assert(paths_model.skip(0) =~= paths_model);
            assert(out.deep_view() + spec_extract_from(paths_model) =~= spec_extract_from(
                paths_model,
            ));
        }
        let mut k: usize = 0;
        while k < self.paths.len()
            invariant
                k <= self.paths@.len(),
                paths_model == self.paths.deep_view(),
                paths_model.len() == self.paths@.len(),
                spec_extract_from(paths_model) == out.deep_view() + spec_extract_from(
                    paths_model.skip(k as int),
                ),
            decreases self.paths@.len() - k,
        {
            proof {
                assert(paths_model.skip(k as int)[0] == paths_model[k as int]);
                assert(paths_model[k as int] == (
                    self.paths@[k as int].0@,
                    self.paths@[k as int].1.deep_view(),
                ));
                assert(paths_model.skip(k as int).drop_first() =~= paths_model.skip(k as int + 1));
            }
            let ghost prev = out.deep_view();
            let mut eps = path_item_endpoints(&self.paths[k].0, &self.paths[k].1);
            let ghost eps_model = eps.deep_view();
            out.append(&mut eps);
            k = k + 1;
            proof {
                assert(out.deep_view() =~= prev + eps_model);
                assert(out.deep_view() + spec_extract_from(paths_model.skip(k as int)) =~= prev + (
                eps_model + spec_extract_from(paths_model.skip(k as int))));
            }
        }
        proof {
            assert(paths_model.skip(k as int).len() == 0);
            assert(out.deep_view() =~= out.deep_view() + spec_extract_from(
                paths_model.skip(k as int),
            ));
        }
        out
    }
}

} // verus!
