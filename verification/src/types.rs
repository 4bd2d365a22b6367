//! The canonical operation types: HTTP methods, parameter types, endpoint
//! records, and request-body schemas, together with their mathematical models.

use vstd::prelude::*;

use crate::json::JsonVal;
use crate::json::JsonValue;
use crate::json::jval_of;

verus! {

/// One of the five supported HTTP methods.
#[derive(Clone, Copy, PartialEq, Eq, Structural, Debug)]
pub enum HttpMethod {
    Get,
    Post,
    Put,
    Delete,
    Patch,
}

/// Whether a method mutates state: everything but GET does.
pub open spec fn spec_is_write_operation(m: HttpMethod) -> bool {
    m != HttpMethod::Get
}

impl HttpMethod {
    /// The method's wire name, in upper case.
    pub open spec fn spec_as_str(self) -> Seq<char> {
        match self {
            HttpMethod::Get => "GET"@,
            HttpMethod::Post => "POST"@,
            HttpMethod::Put => "PUT"@,
            HttpMethod::Delete => "DELETE"@,
            HttpMethod::Patch => "PATCH"@,
        }
    }

    /// True exactly for POST, PUT, DELETE and PATCH.
    pub fn is_write_operation(&self) -> (r: bool)
        ensures
            r == spec_is_write_operation(*self),
    {
        !matches!(self, HttpMethod::Get)
    }

    /// The method's wire name, in upper case.
    pub fn as_str(&self) -> (r: &'static str)
        ensures
            r@ == self.spec_as_str(),
    {
        match self {
            HttpMethod::Get => "GET",
            HttpMethod::Post => "POST",
            HttpMethod::Put => "PUT",
            HttpMethod::Delete => "DELETE",
            HttpMethod::Patch => "PATCH",
        }
    }
}

/// The declared type of a parameter or body property.
#[derive(Clone, Copy, PartialEq, Eq, Structural, Debug)]
pub enum ParameterType {
    String,
    Integer,
    Number,
    Boolean,
    Array,
    Object,
}

/// The JSON-Schema name of each parameter type.
pub open spec fn spec_json_schema_type(t: ParameterType) -> Seq<char> {
    match t {
        ParameterType::String => "string"@,
        ParameterType::Integer => "integer"@,
        ParameterType::Number => "number"@,
        ParameterType::Boolean => "boolean"@,
        ParameterType::Array => "array"@,
        ParameterType::Object => "object"@,
    }
}

/// The parameter type declared by an OpenAPI type name; anything undeclared
/// or unrecognized is a string.
pub open spec fn spec_from_openapi_type(s: Seq<char>) -> ParameterType {
    if s == "integer"@ {
        ParameterType::Integer
    } else if s == "number"@ {
        ParameterType::Number
    } else if s == "boolean"@ {
        ParameterType::Boolean
    } else if s == "array"@ {
        ParameterType::Array
    } else if s == "object"@ {
        ParameterType::Object
    } else {
        ParameterType::String
    }
}

impl ParameterType {
    /// The JSON-Schema name of this type.
    pub fn to_json_schema_type(&self) -> (r: &'static str)
        ensures
            r@ == spec_json_schema_type(*self),
    {
        match self {
            ParameterType::String => "string",
            ParameterType::Integer => "integer",
            ParameterType::Number => "number",
            ParameterType::Boolean => "boolean",
            ParameterType::Array => "array",
            ParameterType::Object => "object",
        }
    }

    /// Reads an OpenAPI type name; unknown names default to `String`.
    pub fn from_openapi_type(type_str: &str) -> (r: Self)
        ensures
            r == spec_from_openapi_type(type_str@),
    {
        if crate::text::str_eq(type_str, "integer") {
            ParameterType::Integer
        } else if crate::text::str_eq(type_str, "number") {
            ParameterType::Number
        } else if crate::text::str_eq(type_str, "boolean") {
            ParameterType::Boolean
        } else if crate::text::str_eq(type_str, "array") {
            ParameterType::Array
        } else if crate::text::str_eq(type_str, "object") {
            ParameterType::Object
        } else {
            ParameterType::String
        }
    }
}

/// Model of an endpoint parameter.
pub struct ParamModel {
    pub name: Seq<char>,
    pub param_type: ParameterType,
    pub required: bool,
    pub description: Option<Seq<char>>,
    pub default_value: Option<JsonVal>,
}

/// A declared path or query parameter of an endpoint.
#[derive(Debug, PartialEq)]
pub struct EndpointParameter {
    pub name: String,
    pub param_type: ParameterType,
    pub required: bool,
    pub description: Option<String>,
    pub default_value: Option<JsonValue>,
}

impl DeepView for EndpointParameter {
    type V = ParamModel;

    open spec fn deep_view(&self) -> ParamModel {
        ParamModel {
            name: self.name@,
            param_type: self.param_type,
            required: self.required,
            description: match self.description {
                Some(d) => Some(d@),
                None => None,
            },
            default_value: match self.default_value {
                Some(v) => Some(jval_of(v)),
                None => None,
            },
        }
    }
}

/// Model of a body property schema.
pub struct PropModel {
    pub name: Seq<char>,
    pub param_type: ParameterType,
    pub description: Option<Seq<char>>,
    pub default_value: Option<JsonVal>,
    pub enum_values: Option<Seq<Seq<char>>>,
    pub nullable: bool,
    pub min_length: Option<Seq<char>>,
    pub max_length: Option<Seq<char>>,
    pub minimum: Option<Seq<char>>,
    pub maximum: Option<Seq<char>>,
    pub pattern: Option<Seq<char>>,
    pub items: Option<Box<PropModel>>,
}

/// The schema of one request-body property. Numeric bounds are carried as
/// their decimal text, like every number in the library.
#[derive(Debug, PartialEq)]
pub struct PropertySchema {
    pub name: String,
    pub param_type: ParameterType,
    pub description: Option<String>,
    pub default_value: Option<JsonValue>,
    pub enum_values: Option<Vec<String>>,
    pub nullable: bool,
    pub min_length: Option<String>,
    pub max_length: Option<String>,
    pub minimum: Option<String>,
    pub maximum: Option<String>,
    pub pattern: Option<String>,
    pub items: Option<Box<PropertySchema>>,
}

/// The model of a property schema.
pub open spec fn prop_model(p: PropertySchema) -> PropModel
    decreases p,
{
    PropModel {
        name: p.name@,
        param_type: p.param_type,
        description: match p.description {
            Some(d) => Some(d@),
            None => None,
        },
        default_value: match p.default_value {
            Some(v) => Some(jval_of(v)),
            None => None,
        },
        enum_values: match p.enum_values {
            Some(vs) => Some(vs.deep_view()),
            None => None,
        },
        nullable: p.nullable,
        min_length: match p.min_length {
            Some(m) => Some(m@),
            None => None,
        },
        max_length: match p.max_length {
            Some(m) => Some(m@),
            None => None,
        },
        minimum: match p.minimum {
            Some(m) => Some(m@),
            None => None,
        },
        maximum: match p.maximum {
            Some(m) => Some(m@),
            None => None,
        },
        pattern: match p.pattern {
            Some(m) => Some(m@),
            None => None,
        },
        items: match p.items {
            Some(b) => Some(Box::new(prop_model(*b))),
            None => None,
        },
    }
}

impl DeepView for PropertySchema {
    type V = PropModel;

    open spec fn deep_view(&self) -> PropModel {
        prop_model(*self)
    }
}

/// Model of a request-body schema.
pub struct BodyModel {
    pub content_type: Seq<char>,
    pub properties: Seq<(Seq<char>, PropModel)>,
    pub required: Seq<Seq<char>>,
}

/// The merged request-body schema of an endpoint: the chosen media type, the
/// named properties (keys unique, in first-insertion order, later sources
/// overwriting in place), and the names that are required.
#[derive(Debug, PartialEq)]
pub struct RequestBodySchema {
    pub content_type: String,
    pub properties: Vec<(String, PropertySchema)>,
    pub required: Vec<String>,
}

/// The models of a sequence of named properties.
pub open spec fn props_model(props: Seq<(String, PropertySchema)>) -> Seq<(Seq<char>, PropModel)> {
    props.map_values(|kv: (String, PropertySchema)| (kv.0@, prop_model(kv.1)))
}

impl DeepView for RequestBodySchema {
    type V = BodyModel;

    open spec fn deep_view(&self) -> BodyModel {
        BodyModel {
            content_type: self.content_type@,
            properties: props_model(self.properties@),
            required: self.required.deep_view(),
        }
    }
}

/// Model of one canonical endpoint.
pub struct EndpointModel {
    pub name: Seq<char>,
    pub method: HttpMethod,
    pub path: Seq<char>,
    pub description: Seq<char>,
    pub tags: Seq<Seq<char>>,
    pub path_params: Seq<ParamModel>,
    pub query_params: Seq<ParamModel>,
    pub request_body: Option<BodyModel>,
}

/// One canonical unit of work: a (path, method) pair extracted from the
/// document, under its generated name.
#[derive(Debug, PartialEq)]
pub struct PangolinEndpoint {
    pub name: String,
    pub method: HttpMethod,
    pub path: String,
    pub description: String,
    pub tags: Vec<String>,
    pub path_params: Vec<EndpointParameter>,
    pub query_params: Vec<EndpointParameter>,
    pub request_body: Option<RequestBodySchema>,
}

impl DeepView for PangolinEndpoint {
    type V = EndpointModel;

    open spec fn deep_view(&self) -> EndpointModel {
        EndpointModel {
            name: self.name@,
            method: self.method,
            path: self.path@,
            description: self.description@,
            tags: self.tags.deep_view(),
            path_params: self.path_params.deep_view(),
            query_params: self.query_params.deep_view(),
            request_body: match self.request_body {
                Some(b) => Some(b.deep_view()),
                None => None,
            },
        }
    }
}

} // verus!
