//! The catalog of node types: what kinds of node exist, how their ports are
//! shaped, and how their configuration is described to an editor.

use crate::error::DataType;
use crate::json::{json_bool, json_list, json_model, json_object, json_put, json_text, JsonModel};
use crate::text::{
    contains_text, find_first, is_substring, lemma_filter_step, lemma_find_first, lowercase,
    lowercased, same_text,
};
use vstd::prelude::*;

verus! {

/// The family that a node type belongs to.
#[derive(Debug, Clone, Copy, PartialEq, Eq, Hash, Structural)]
pub enum NodeCategory {
    /// Sources of data: requests, constants, variables.
    DataSource,
    /// Selectors that pick parts of a document.
    Selector,
    /// Filters that reshape values.
    Filter,
    /// Scripts.
    Script,
    /// Control flow: conditions, loops, maps.
    Control,
    /// Outputs: fields and variables that are set.
    Output,
    /// Cookie and cache operations.
    Cache,
}

impl NodeCategory {
    /// The name shown to users.
    pub open spec fn display_text(self) -> Seq<char> {
        match self {
            NodeCategory::DataSource => "数据源"@,
            NodeCategory::Selector => "选择器"@,
            NodeCategory::Filter => "过滤器"@,
            NodeCategory::Script => "脚本"@,
            NodeCategory::Control => "流程控制"@,
            NodeCategory::Output => "输出"@,
            NodeCategory::Cache => "缓存"@,
        }
    }

    /// The identifier used in stored data.
    pub open spec fn ident(self) -> Seq<char> {
        match self {
            NodeCategory::DataSource => "data_source"@,
            NodeCategory::Selector => "selector"@,
            NodeCategory::Filter => "filter"@,
            NodeCategory::Script => "script"@,
            NodeCategory::Control => "control"@,
            NodeCategory::Output => "output"@,
            NodeCategory::Cache => "cache"@,
        }
    }

    /// The name shown to users.
    pub fn display_name(&self) -> (r: &'static str)
        ensures
            r@ == self.display_text(),
    {
        match self {
            NodeCategory::DataSource => "数据源",
            NodeCategory::Selector => "选择器",
            NodeCategory::Filter => "过滤器",
            NodeCategory::Script => "脚本",
            NodeCategory::Control => "流程控制",
            NodeCategory::Output => "输出",
            NodeCategory::Cache => "缓存",
        }
    }

    /// The identifier used in stored data.
    pub fn as_str(&self) -> (r: &'static str)
        ensures
            r@ == self.ident(),
    {
        match self {
            NodeCategory::DataSource => "data_source",
            NodeCategory::Selector => "selector",
            NodeCategory::Filter => "filter",
            NodeCategory::Script => "script",
            NodeCategory::Control => "control",
            NodeCategory::Output => "output",
            NodeCategory::Cache => "cache",
        }
    }

    /// All categories, in the order in which an editor lists them.
    pub fn all() -> (r: &'static [NodeCategory])
        ensures
            r@ == seq![
                NodeCategory::DataSource,
                NodeCategory::Selector,
                NodeCategory::Filter,
                NodeCategory::Script,
                NodeCategory::Control,
                NodeCategory::Output,
                NodeCategory::Cache,
            ],
    {
        &[
            NodeCategory::DataSource,
            NodeCategory::Selector,
            NodeCategory::Filter,
            NodeCategory::Script,
            NodeCategory::Control,
            NodeCategory::Output,
            NodeCategory::Cache,
        ]
    }

    /// The name shown to users, as an owned string.
    pub fn to_string(&self) -> (r: String)
        ensures
            r@ == self.display_text(),
    {
        self.display_name().to_owned()
    }
}

/// A port as a node type declares it.
#[derive(Debug, Clone)]
pub struct PortDef {
    /// The port's id.
    pub id: String,
    /// The type of the data that passes through.
    pub data_type: DataType,
    /// Whether the port may stay unconnected.
    pub optional: bool,
    /// The name shown to users.
    pub display_name: String,
    /// What the port is for.
    pub description: Option<String>,
}

impl PortDef {
    /// A required port with the given id and type, with an empty display
    /// name and no description.
    pub fn new(id: &str, data_type: DataType) -> (d: PortDef)
        ensures
            d.id@ == id@,
            d.data_type == data_type,
            !d.optional,
            d.display_name@.len() == 0,
            d.description is None,
    {
        PortDef {
            id: id.to_owned(),
            data_type,
            optional: false,
            display_name: String::new(),
            description: None,
        }
    }

    /// The same declaration, marked optional.
    pub fn optional(self) -> (d: PortDef)
        ensures
            d == (PortDef { optional: true, ..self }),
    {
        let mut d = self;
        d.optional = true;
        d
    }

    /// The same declaration with a display name.
    pub fn with_display_name(self, name: &str) -> (d: PortDef)
        ensures
            d == (PortDef { display_name: d.display_name, ..self }),
            d.display_name@ == name@,
    {
        let mut d = self;
        d.display_name = name.to_owned();
        d
    }

    /// The same declaration with a description.
    pub fn with_description(self, desc: &str) -> (d: PortDef)
        ensures
            d == (PortDef { description: d.description, ..self }),
            d.description matches Some(t) && t@ == desc@,
    {
        let mut d = self;
        d.description = Some(desc.to_owned());
        d
    }
}

/// What the catalog knows of one node type.
#[derive(Debug, Clone)]
pub struct NodeTypeMetadata {
    /// The type's id, unique in a registry.
    pub type_id: String,
    /// The name shown to users.
    pub display_name: String,
    /// What nodes of this type do.
    pub description: Option<String>,
    /// The family that the type belongs to.
    pub category: NodeCategory,
    /// An icon: an emoji or the name of one.
    pub icon: Option<String>,
    /// The input ports of a node of this type.
    pub input_ports: Vec<PortDef>,
    /// The output ports of a node of this type.
    pub output_ports: Vec<PortDef>,
    /// The description of the configuration, in the manner of JSON Schema.
    pub config_schema: serde_json::Value,
    /// A configuration to show as an example.
    pub example_config: Option<serde_json::Value>,
    /// Whether nodes of this type start a graph.
    pub is_entry: bool,
    /// Whether nodes of this type end a graph.
    pub is_exit: bool,
    /// Whether the type should no longer be used.
    pub deprecated: bool,
    /// What to use in its place.
    pub deprecation_message: Option<String>,
    /// Free tags.
    pub tags: Vec<String>,
    /// Any further fields, kept as they came.
    pub extra: serde_json::Value,
}

/// The description of a configuration with one field, whose own description
/// is `property`.
pub open spec fn one_field_schema(field: Seq<char>, property: JsonModel) -> JsonModel {
    JsonModel::Object(
        Map::empty().insert("type"@, JsonModel::Text("object"@)).insert(
            "properties"@,
            JsonModel::single(field, property),
        ).insert("required"@, JsonModel::List(seq![JsonModel::Text(field)])),
    )
}

/// The description of a configuration without fields.
pub open spec fn empty_schema() -> JsonModel {
    JsonModel::Object(
        Map::empty().insert("type"@, JsonModel::Text("object"@)).insert(
            "properties"@,
            JsonModel::Object(Map::empty()),
        ),
    )
}

/// What is said of every field: its type, its title, what it is for.
pub open spec fn field_basics(kind: Seq<char>, title: Seq<char>, description: Seq<char>) -> Map<
    Seq<char>,
    JsonModel,
> {
    Map::empty().insert("type"@, JsonModel::Text(kind)).insert(
        "title"@,
        JsonModel::Text(title),
    ).insert("description"@, JsonModel::Text(description))
}

/// The description of a text field, with its default where it has one.
pub open spec fn text_field(title: Seq<char>, description: Seq<char>, default: Option<Seq<char>>) -> JsonModel {
    let basics = field_basics("string"@, title, description);
    match default {
        Some(d) => JsonModel::Object(basics.insert("default"@, JsonModel::Text(d))),
        None => JsonModel::Object(basics),
    }
}

/// The description of a field that takes one of the given texts.
pub open spec fn choice_field(
    title: Seq<char>,
    description: Seq<char>,
    options: Seq<Seq<char>>,
    default: Seq<char>,
) -> JsonModel {
    JsonModel::Object(
        field_basics("string"@, title, description).insert(
            "enum"@,
            JsonModel::List(Seq::new(options.len(), |i: int| JsonModel::Text(options[i]))),
        ).insert("default"@, JsonModel::Text(default)),
    )
}

/// The description of a field that is true or false.
pub open spec fn switch_field(title: Seq<char>, description: Seq<char>, default: bool) -> JsonModel {
    JsonModel::Object(
        field_basics("boolean"@, title, description).insert("default"@, JsonModel::Bool(default)),
    )
}

/// Builds the description of a field from its type, title and purpose.
fn field_object(kind: &str, title: &str, description: &str) -> (r: serde_json::Value)
    ensures
        json_model(r) == JsonModel::Object(field_basics(kind@, title@, description@)),
{
    let mut property = json_object();
    json_put(&mut property, "type", json_text(kind));
    json_put(&mut property, "title", json_text(title));
    json_put(&mut property, "description", json_text(description));
    property
}

/// Builds the description of a configuration with the one given field.
fn schema_object(field: &str, property: serde_json::Value) -> (r: serde_json::Value)
    ensures
        json_model(r) == one_field_schema(field@, json_model(property)),
{
    let mut properties = json_object();
    json_put(&mut properties, field, property);
    let mut names: Vec<serde_json::Value> = Vec::new();
    names.push(json_text(field));
    let required = json_list(names);
    assert(crate::json::json_models(names@) == seq![JsonModel::Text(field@)]);
    let mut schema = json_object();
    json_put(&mut schema, "type", json_text("object"));
    json_put(&mut schema, "properties", properties);
    json_put(&mut schema, "required", required);
    schema
}

impl NodeTypeMetadata {
    /// What the configuration schema holds.
    pub open spec fn schema_model(&self) -> JsonModel {
        json_model(self.config_schema)
    }

    /// A node type with the given id, name, family and configuration
    /// schema; everything else is empty or off.
    pub fn new(
        type_id: &str,
        display_name: &str,
        category: NodeCategory,
        config_schema: serde_json::Value,
    ) -> (m: NodeTypeMetadata)
        ensures
            m.type_id@ == type_id@,
            m.display_name@ == display_name@,
            m.description is None,
            m.category == category,
            m.icon is None,
            m.input_ports@.len() == 0,
            m.output_ports@.len() == 0,
            m.config_schema == config_schema,
            m.example_config is None,
            !m.is_entry,
            !m.is_exit,
            !m.deprecated,
            m.deprecation_message is None,
            m.tags@.len() == 0,
            json_model(m.extra) == JsonModel::Object(Map::empty()),
    {
        NodeTypeMetadata {
            type_id: type_id.to_owned(),
            display_name: display_name.to_owned(),
            description: None,
            category,
            icon: None,
            input_ports: Vec::new(),
            output_ports: Vec::new(),
            config_schema,
            example_config: None,
            is_entry: false,
            is_exit: false,
            deprecated: false,
            deprecation_message: None,
            tags: Vec::new(),
            extra: json_object(),
        }
    }

    /// The same type with a description.
    pub fn with_description(self, desc: &str) -> (m: NodeTypeMetadata)
        ensures
            m == (NodeTypeMetadata { description: m.description, ..self }),
            m.description matches Some(d) && d@ == desc@,
    {
        let mut m = self;
        m.description = Some(desc.to_owned());
        m
    }

    /// The same type with an icon.
    pub fn with_icon(self, icon: &str) -> (m: NodeTypeMetadata)
        ensures
            m == (NodeTypeMetadata { icon: m.icon, ..self }),
            m.icon matches Some(i) && i@ == icon@,
    {
        let mut m = self;
        m.icon = Some(icon.to_owned());
        m
    }

    /// The same type with one more input port, after those already there.
    pub fn add_input_port(self, port: PortDef) -> (m: NodeTypeMetadata)
        ensures
            m == (NodeTypeMetadata { input_ports: m.input_ports, ..self }),
            m.input_ports@ == self.input_ports@.push(port),
    {
        let mut m = self;
        m.input_ports.push(port);
        m
    }

    /// The same type with one more output port, after those already there.
    pub fn add_output_port(self, port: PortDef) -> (m: NodeTypeMetadata)
        ensures
            m == (NodeTypeMetadata { output_ports: m.output_ports, ..self }),
            m.output_ports@ == self.output_ports@.push(port),
    {
        let mut m = self;
        m.output_ports.push(port);
        m
    }

    /// The same type with a configuration to show as an example.
    pub fn with_example_config(self, config: serde_json::Value) -> (m: NodeTypeMetadata)
        ensures
            m == (NodeTypeMetadata { example_config: Some(config), ..self }),
    {
        let mut m = self;
        m.example_config = Some(config);
        m
    }

    /// The same type, marked as one that starts a graph.
    pub fn as_entry(self) -> (m: NodeTypeMetadata)
        ensures
            m == (NodeTypeMetadata { is_entry: true, ..self }),
    {
        let mut m = self;
        m.is_entry = true;
        m
    }

    /// The same type, marked as one that ends a graph.
    pub fn as_exit(self) -> (m: NodeTypeMetadata)
        ensures
            m == (NodeTypeMetadata { is_exit: true, ..self }),
    {
        let mut m = self;
        m.is_exit = true;
        m
    }

    /// The same type, marked as no longer to be used, with the reason.
    pub fn deprecated(self, message: &str) -> (m: NodeTypeMetadata)
        ensures
            m == (NodeTypeMetadata {
                deprecated: true,
                deprecation_message: m.deprecation_message,
                ..self
            }),
            m.deprecation_message matches Some(t) && t@ == message@,
    {
        let mut m = self;
        m.deprecated = true;
        m.deprecation_message = Some(message.to_owned());
        m
    }

    /// The same type with one more tag, after those already there.
    pub fn add_tag(self, tag: &str) -> (m: NodeTypeMetadata)
        ensures
            m == (NodeTypeMetadata { tags: m.tags, ..self }),
            m.tags@.len() == self.tags@.len() + 1,
            m.tags@.drop_last() == self.tags@,
            m.tags@.last()@ == tag@,
    {
        let mut m = self;
        m.tags.push(tag.to_owned());
        m
    }

    /// The same type, marked as entry exactly when it has no input port and
    /// as exit exactly when it has no output port.
    pub fn auto_detect_entry_exit(self) -> (m: NodeTypeMetadata)
        ensures
            m == (NodeTypeMetadata {
                is_entry: self.input_ports@.len() == 0,
                is_exit: self.output_ports@.len() == 0,
                ..self
            }),
    {
        let mut m = self;
        m.is_entry = m.input_ports.len() == 0;
        m.is_exit = m.output_ports.len() == 0;
        m
    }

    /// The schema of a configuration without fields.
    pub fn empty_config_schema() -> (r: serde_json::Value)
        ensures
            json_model(r) == empty_schema(),
    {
        let mut schema = json_object();
        json_put(&mut schema, "type", json_text("object"));
        json_put(&mut schema, "properties", json_object());
        schema
    }

    /// The schema of a configuration with one required text field.
    pub fn string_config_schema(
        field: &str,
        title: &str,
        description: &str,
        default: Option<&str>,
    ) -> (r: serde_json::Value)
        ensures
            json_model(r) == one_field_schema(
                field@,
                text_field(
                    title@,
                    description@,
                    match default {
                        Some(d) => Some(d@),
                        None => None,
                    },
                ),
            ),
    {
        let mut property = field_object("string", title, description);
        match default {
            Some(d) => {
                json_put(&mut property, "default", json_text(d));
            },
            None => {},
        }
        schema_object(field, property)
    }

    /// The schema of a configuration with one required field that takes one
    /// of the given texts.
    pub fn enum_config_schema(
        field: &str,
        title: &str,
        description: &str,
        options: &[&str],
        default: &str,
    ) -> (r: serde_json::Value)
        ensures
            json_model(r) == one_field_schema(
                field@,
                choice_field(
                    title@,
                    description@,
                    Seq::new(options@.len(), |i: int| options@[i]@),
                    default@,
                ),
            ),
    {
        let ghost texts = Seq::new(options@.len(), |i: int| options@[i]@);
        let mut choices: Vec<serde_json::Value> = Vec::new();
        let mut i: usize = 0;
        while i < options.len()
            invariant
                i <= options.len(),
                choices@.len() == i,
                forall|k: int|
                    0 <= k < i ==> json_model(#[trigger] choices@[k]) == JsonModel::Text(
                        options@[k]@,
                    ),
            decreases options.len() - i,
        {
            choices.push(json_text(options[i]));
            i += 1;
        }
        assert(crate::json::json_models(choices@) == Seq::new(
            texts.len(),
            |i: int| JsonModel::Text(texts[i]),
        ));
        let mut property = field_object("string", title, description);
        json_put(&mut property, "enum", json_list(choices));
        json_put(&mut property, "default", json_text(default));
        schema_object(field, property)
    }

    /// The schema of a configuration with one required field that is true
    /// or false.
    pub fn boolean_config_schema(field: &str, title: &str, description: &str, default: bool) -> (r:
        serde_json::Value)
        ensures
            json_model(r) == one_field_schema(
                field@,
                switch_field(title@, description@, default),
            ),
    {
        let mut property = field_object("boolean", title, description);
        json_put(&mut property, "default", json_bool(default));
        schema_object(field, property)
    }
}

/// The ids of a list of node types, in order.
pub open spec fn type_ids(entries: Seq<NodeTypeMetadata>) -> Seq<Seq<char>> {
    Seq::new(entries.len(), |i: int| entries[i].type_id@)
}

/// What a list of references points at, element by element.
pub open spec fn targets(refs: Seq<&NodeTypeMetadata>) -> Seq<NodeTypeMetadata> {
    Seq::new(refs.len(), |i: int| *refs[i])
}

/// The node types of the given family, in order.
pub open spec fn of_category(entries: Seq<NodeTypeMetadata>, category: NodeCategory) -> Seq<
    NodeTypeMetadata,
> {
    entries.filter(|m: NodeTypeMetadata| m.category == category)
}

/// The node types that start a graph, in order.
pub open spec fn entry_points(entries: Seq<NodeTypeMetadata>) -> Seq<NodeTypeMetadata> {
    entries.filter(|m: NodeTypeMetadata| m.is_entry)
}

/// The node types that end a graph, in order.
pub open spec fn exit_points(entries: Seq<NodeTypeMetadata>) -> Seq<NodeTypeMetadata> {
    entries.filter(|m: NodeTypeMetadata| m.is_exit)
}

/// Whether some tag, read in lowercase, holds `query`.
pub open spec fn tag_matches(tags: Seq<String>, query: Seq<char>) -> bool {
    exists|i: int| 0 <= i < tags.len() && is_substring(lowercase(#[trigger] tags[i]@), query)
}

/// Whether the id, the name, the description or a tag of the node type,
/// read in lowercase, holds `query`.
pub open spec fn matches_query(m: NodeTypeMetadata, query: Seq<char>) -> bool {
    ||| is_substring(lowercase(m.type_id@), query)
    ||| is_substring(lowercase(m.display_name@), query)
    ||| (m.description matches Some(d) && is_substring(lowercase(d@), query))
    ||| tag_matches(m.tags@, query)
}

/// The node types that match `query`, in order.
pub open spec fn matching(entries: Seq<NodeTypeMetadata>, query: Seq<char>) -> Seq<
    NodeTypeMetadata,
> {
    entries.filter(|m: NodeTypeMetadata| matches_query(m, query))
}

/// Whether a text, read in lowercase, holds `query`.
fn holds_query(text: &str, query: &str) -> (r: bool)
    ensures
        r == is_substring(lowercase(text@), query@),
{
    let lower = lowercased(text);
    contains_text(lower.as_str(), query)
}

/// Whether the node type matches the query, which is in lowercase already.
fn matches(m: &NodeTypeMetadata, query: &str) -> (r: bool)
    ensures
        r == matches_query(*m, query@),
{
    if holds_query(m.type_id.as_str(), query) {
        return true;
    }
    if holds_query(m.display_name.as_str(), query) {
        return true;
    }
    match &m.description {
        Some(d) => {
            if holds_query(d.as_str(), query) {
                return true;
            }
        },
        None => {},
    }
    let mut i: usize = 0;
    while i < m.tags.len()
        invariant
            i <= m.tags.len(),
            forall|k: int|
                0 <= k < i ==> !is_substring(lowercase(#[trigger] m.tags@[k]@), query@),
        decreases m.tags.len() - i,
    {
        if holds_query(m.tags[i].as_str(), query) {
            return true;
        }
        i += 1;
    }
    false
}

/// The catalog of node types. No two entries share a type id, and the
/// entries stay in the order in which they were registered.
#[derive(Debug, Clone)]
pub struct NodeTypeRegistry {
    types: Vec<NodeTypeMetadata>,
}

impl NodeTypeRegistry {
    /// The registered node types, in the order of their registration.
    pub closed spec fn entries(&self) -> Seq<NodeTypeMetadata> {
        self.types@
    }

    /// No two registered node types share an id. A new catalog has this,
    /// and registering keeps it.
    pub open spec fn unique_ids(&self) -> bool {
        type_ids(self.entries()).no_duplicates()
    }

    /// Whether a node type with this id is registered.
    pub open spec fn has_type(&self, id: Seq<char>) -> bool {
        type_ids(self.entries()).contains(id)
    }

    /// The node type with this id, if it is registered.
    pub open spec fn type_named(&self, id: Seq<char>) -> Option<NodeTypeMetadata> {
        match find_first(type_ids(self.entries()), id) {
            Some(k) => Some(self.entries()[k]),
            None => None,
        }
    }

    /// An empty catalog.
    pub fn new() -> (r: NodeTypeRegistry)
        ensures
            r.entries().len() == 0,
            r.unique_ids(),
    {
        NodeTypeRegistry { types: Vec::new() }
    }

    /// The position of the node type with the given id.
    fn position(&self, type_id: &str) -> (r: Option<usize>)
        ensures
            match r {
                Some(k) => k < self.entries().len() && find_first(
                    type_ids(self.entries()),
                    type_id@,
                ) == Some(k as int),
                None => find_first(type_ids(self.entries()), type_id@) is None,
            },
            r is Some == self.has_type(type_id@),
    {
        let mut i: usize = 0;
        while i < self.types.len()
            invariant
                i <= self.types.len(),
                forall|k: int| 0 <= k < i ==> type_ids(self.types@)[k] != type_id@,
            decreases self.types.len() - i,
        {
            if same_text(self.types[i].type_id.as_str(), type_id) {
                proof {
                    lemma_find_first(type_ids(self.types@), type_id@, i as int);
                }
                return Some(i);
            }
            i += 1;
        }
        None
    }

    /// Registers a node type. A type id that is already registered is
    /// refused, and the catalog stays as it is.
    pub fn register(&mut self, metadata: NodeTypeMetadata) -> (r: Result<(), String>)
        ensures
            match r {
                Ok(()) => {
                    &&& !old(self).has_type(metadata.type_id@)
                    &&& final(self).entries() == old(self).entries().push(metadata)
                },
                Err(m) => {
                    &&& old(self).has_type(metadata.type_id@)
                    &&& m@ == "Node type already registered: "@ + metadata.type_id@
                    &&& final(self).entries() == old(self).entries()
                },
            },
            old(self).unique_ids() ==> final(self).unique_ids(),
    {
        if self.position(metadata.type_id.as_str()).is_some() {
            let mut m = "Node type already registered: ".to_owned();
            m.append(metadata.type_id.as_str());
            return Err(m);
        }
        proof {
            let before = type_ids(self.types@);
            let after = type_ids(self.types@.push(metadata));
            assert(after == before.push(metadata.type_id@));
        }
        self.types.push(metadata);
        Ok(())
    }

    /// The node type with the given id, if it is registered.
    pub fn get(&self, type_id: &str) -> (r: Option<&NodeTypeMetadata>)
        ensures
            match r {
                Some(m) => self.type_named(type_id@) == Some(*m),
                None => self.type_named(type_id@) is None,
            },
            r is Some == self.has_type(type_id@),
    {
        match self.position(type_id) {
            Some(k) => Some(&self.types[k]),
            None => None,
        }
    }

    /// All registered node types, in the order of their registration.
    pub fn all_types(&self) -> (r: Vec<&NodeTypeMetadata>)
        ensures
            targets(r@) == self.entries(),
    {
        let mut out: Vec<&NodeTypeMetadata> = Vec::new();
        let mut i: usize = 0;
        while i < self.types.len()
            invariant
                i <= self.types.len(),
                targets(out@) == self.types@.take(i as int),
            decreases self.types.len() - i,
        {
            let ghost before = targets(out@);
            out.push(&self.types[i]);
            i += 1;
            assert(targets(out@) =~= before.push(self.types@[i - 1]));
            assert(self.types@.take(i as int) =~= before.push(self.types@[i - 1]));
        }
        assert(self.types@.take(self.types.len() as int) == self.types@);
        out
    }

    /// The node types of the given family, in the order of their
    /// registration.
    pub fn by_category(&self, category: NodeCategory) -> (r: Vec<&NodeTypeMetadata>)
        ensures
            targets(r@) == of_category(self.entries(), category),
    {
        let mut out: Vec<&NodeTypeMetadata> = Vec::new();
        let mut i: usize = 0;
        while i < self.types.len()
            invariant
                i <= self.types.len(),
                targets(out@) == of_category(self.types@.take(i as int), category),
            decreases self.types.len() - i,
        {
            proof {
                lemma_filter_step(
                    self.types@,
                    |m: NodeTypeMetadata| m.category == category,
                    i as int,
                );
            }
            if self.types[i].category == category {
                out.push(&self.types[i]);
            }
            i += 1;
            assert(targets(out@) == of_category(self.types@.take(i as int), category));
        }
        assert(self.types@.take(self.types.len() as int) == self.types@);
        out
    }

    /// The node types that start a graph.
    pub fn entry_types(&self) -> (r: Vec<&NodeTypeMetadata>)
        ensures
            targets(r@) == entry_points(self.entries()),
    {
        let mut out: Vec<&NodeTypeMetadata> = Vec::new();
        let mut i: usize = 0;
        while i < self.types.len()
            invariant
                i <= self.types.len(),
                targets(out@) == entry_points(self.types@.take(i as int)),
            decreases self.types.len() - i,
        {
            proof {
                lemma_filter_step(self.types@, |m: NodeTypeMetadata| m.is_entry, i as int);
            }
            if self.types[i].is_entry {
                out.push(&self.types[i]);
            }
            i += 1;
            assert(targets(out@) == entry_points(self.types@.take(i as int)));
        }
        assert(self.types@.take(self.types.len() as int) == self.types@);
        out
    }

    /// The node types that end a graph.
    pub fn exit_types(&self) -> (r: Vec<&NodeTypeMetadata>)
        ensures
            targets(r@) == exit_points(self.entries()),
    {
        let mut out: Vec<&NodeTypeMetadata> = Vec::new();
        let mut i: usize = 0;
        while i < self.types.len()
            invariant
                i <= self.types.len(),
                targets(out@) == exit_points(self.types@.take(i as int)),
            decreases self.types.len() - i,
        {
            proof {
                lemma_filter_step(self.types@, |m: NodeTypeMetadata| m.is_exit, i as int);
            }
            if self.types[i].is_exit {
                out.push(&self.types[i]);
            }
            i += 1;
            assert(targets(out@) == exit_points(self.types@.take(i as int)));
        }
        assert(self.types@.take(self.types.len() as int) == self.types@);
        out
    }

    /// The node types whose id, name, description or one of whose tags
    /// holds the query; letter case is ignored on both sides.
    pub fn search(&self, query: &str) -> (r: Vec<&NodeTypeMetadata>)
        ensures
            targets(r@) == matching(self.entries(), lowercase(query@)),
    {
        let lower = lowercased(query);
        let mut out: Vec<&NodeTypeMetadata> = Vec::new();
        let mut i: usize = 0;
        while i < self.types.len()
            invariant
                i <= self.types.len(),
                lower@ == lowercase(query@),
                targets(out@) == matching(self.types@.take(i as int), lower@),
            decreases self.types.len() - i,
        {
            proof {
                lemma_filter_step(
                    self.types@,
                    |m: NodeTypeMetadata| matches_query(m, lower@),
                    i as int,
                );
            }
            if matches(&self.types[i], lower.as_str()) {
                out.push(&self.types[i]);
            }
            i += 1;
            assert(targets(out@) == matching(self.types@.take(i as int), lower@));
        }
        assert(self.types@.take(self.types.len() as int) == self.types@);
        out
    }
}

impl Default for NodeTypeRegistry {
    fn default() -> (r: NodeTypeRegistry)
        ensures
            r.entries().len() == 0,
            r.unique_ids(),
    {
        NodeTypeRegistry::new()
    }
}

/// Builds a catalog by chained calls.
pub struct NodeTypeRegistryBuilder {
    registry: NodeTypeRegistry,
}

impl NodeTypeRegistryBuilder {
    /// The catalog as built so far.
    pub closed spec fn registry(&self) -> NodeTypeRegistry {
        self.registry
    }

    /// Starts with an empty catalog.
    pub fn new() -> (b: NodeTypeRegistryBuilder)
        ensures
            b.registry().entries().len() == 0,
            b.registry().unique_ids(),
    {
        NodeTypeRegistryBuilder { registry: NodeTypeRegistry::new() }
    }

    /// Registers a node type whose id is not registered yet.
    pub fn register(self, metadata: NodeTypeMetadata) -> (b: NodeTypeRegistryBuilder)
        requires
            !self.registry().has_type(metadata.type_id@),
        ensures
            b.registry().entries() == self.registry().entries().push(metadata),
            self.registry().unique_ids() ==> b.registry().unique_ids(),
    {
        let mut b = self;
        let _ = b.registry.register(metadata);
        b
    }

    /// The finished catalog.
    pub fn build(self) -> (r: NodeTypeRegistry)
        ensures
            r == self.registry(),
    {
        self.registry
    }
}

impl Default for NodeTypeRegistryBuilder {
    fn default() -> (b: NodeTypeRegistryBuilder)
        ensures
            b.registry().entries().len() == 0,
            b.registry().unique_ids(),
    {
        NodeTypeRegistryBuilder::new()
    }
}

} // verus!
