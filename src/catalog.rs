use vstd::prelude::*;
use crate::json::{
    array_doc, json_array, json_items, json_member, json_object, json_string, json_text,
    object_doc, pretty_json, pretty_text, string_doc, text_member,
};
use crate::text::{push_str, text_of};

verus! {

/// A tool offered to the generator: its name, what it does, and the JSON
/// schema of its parameters.
pub struct ToolDefinition {
    pub name: String,
    pub description: String,
    pub parameters: serde_json::Value,
}

/// The tools, in the order the catalog lists them.
pub open spec fn tool_names() -> Seq<Seq<char>> {
    seq!["list_files"@, "read_file"@, "write_file"@, "create_file"@, "delete_file"@, "move_file"@]
}

/// What each tool does, in catalog order.
pub open spec fn tool_descriptions() -> Seq<Seq<char>> {
    seq![
        "List files and directories in a given path"@,
        "Read the contents of a text file"@,
        "Write content to an existing file (overwrites)"@,
        "Create a new file with content (fails if file already exists)"@,
        "Delete a file"@,
        "Move or rename a file"@,
    ]
}

/// The parameters of each tool with their descriptions, in catalog order; all
/// are required strings.
pub open spec fn tool_params() -> Seq<Seq<(Seq<char>, Seq<char>)>> {
    seq![
        seq![("path"@, "Absolute path to the directory to list"@)],
        seq![("path"@, "Absolute path to the file to read"@)],
        seq![("path"@, "Absolute path to the file to write"@), ("content"@, "Content to write to the file"@)],
        seq![("path"@, "Absolute path for the new file"@), ("content"@, "Content for the new file"@)],
        seq![("path"@, "Absolute path to the file to delete"@)],
        seq![("src"@, "Absolute path to the source file"@), ("dest"@, "Absolute path for the destination"@)],
    ]
}

/// `doc` is an object schema whose properties hold each of `params` as a
/// string with its description, and whose `required` list names them all, in
/// order.
pub open spec fn schema_lists(doc: serde_json::Value, params: Seq<(Seq<char>, Seq<char>)>) -> bool {
    &&& text_member(doc, "type"@) == Some("object"@)
    &&& json_member(doc, "required"@) matches Some(req) && json_items(req).len() == params.len()
        && forall|i: int| 0 <= i < params.len() ==> json_text(#[trigger] json_items(req)[i]) == Some(params[i].0)
    &&& json_member(doc, "properties"@) matches Some(props) && forall|i: int|
        0 <= i < params.len() ==> (json_member(props, (#[trigger] params[i]).0) matches Some(p)
            && text_member(p, "type"@) == Some("string"@)
            && text_member(p, "description"@) == Some(params[i].1))
}

/// The schema document of one string parameter.
pub open spec fn param_doc(description: Seq<char>) -> serde_json::Value {
    object_doc(seq![("type"@, string_doc("string"@)), ("description"@, string_doc(description))])
}

/// The schema document of an object whose string parameters, with their
/// descriptions, are all required.
pub open spec fn schema_doc(params: Seq<(Seq<char>, Seq<char>)>) -> serde_json::Value {
    object_doc(
        seq![
            ("type"@, string_doc("object"@)),
            (
                "properties"@,
                object_doc(params.map_values(|p: (Seq<char>, Seq<char>)| (p.0, param_doc(p.1)))),
            ),
            ("required"@, array_doc(params.map_values(|p: (Seq<char>, Seq<char>)| string_doc(p.0)))),
        ],
    )
}

/// The catalog entry of one tool.
pub open spec fn entry_doc(
    name: Seq<char>,
    description: Seq<char>,
    parameters: serde_json::Value,
) -> serde_json::Value {
    object_doc(
        seq![
            ("name"@, string_doc(name)),
            ("description"@, string_doc(description)),
            ("parameters"@, parameters),
        ],
    )
}

/// The whole catalog as one JSON document.
pub open spec fn catalog_doc() -> serde_json::Value {
    array_doc(
        Seq::new(
            tool_names().len(),
            |k: int| entry_doc(tool_names()[k], tool_descriptions()[k], schema_doc(tool_params()[k])),
        ),
    )
}

/// The schema of one string parameter.
fn string_param(description: &str) -> (r: serde_json::Value)
    ensures
        r == param_doc(description@),
        json_text(r) is None,
        text_member(r, "type"@) == Some("string"@),
        text_member(r, "description"@) == Some(description@),
{
    proof {
        reveal_strlit("type");
        reveal_strlit("description");
    }
    let pairs = vec![
        ("type".to_owned(), json_string("string")),
        ("description".to_owned(), json_string(description)),
    ];
    assert(pairs@[0].0@ != pairs@[1].0@) by {
        assert(pairs@[0].0@.len() != pairs@[1].0@.len());
    }
    assert(pairs@.map_values(|m: (String, serde_json::Value)| (m.0@, m.1)) =~= seq![
        ("type"@, string_doc("string"@)),
        ("description"@, string_doc(description@)),
    ]);
    let r = json_object(pairs);
    assert(json_member(r, pairs@[0].0@) == Some(pairs@[0].1));
    assert(json_member(r, pairs@[1].0@) == Some(pairs@[1].1));
    r
}

/// An object schema over string parameters, named with their descriptions, all
/// of them required.
fn object_schema(params: Vec<(String, String)>) -> (r: serde_json::Value)
    requires
        forall|i: int, j: int|
            0 <= i < params@.len() && 0 <= j < params@.len() && i != j ==> #[trigger] params@[i].0@
                != #[trigger] params@[j].0@,
    ensures
        schema_lists(r, params@.map_values(|p: (String, String)| (p.0@, p.1@))),
        r == schema_doc(params@.map_values(|p: (String, String)| (p.0@, p.1@))),
{
    let mut props: Vec<(String, serde_json::Value)> = Vec::new();
    let mut required: Vec<serde_json::Value> = Vec::new();
    let mut i: usize = 0;
    while i < params.len()
        invariant
            0 <= i <= params@.len(),
            props@.len() == i,
            forall|k: int| 0 <= k < i ==> (#[trigger] props@[k]).0@ == params@[k].0@,
            forall|k: int| 0 <= k < i ==> json_text((#[trigger] props@[k]).1) is None,
            forall|k: int| 0 <= k < i ==> text_member((#[trigger] props@[k]).1, "type"@) == Some("string"@),
            forall|k: int| 0 <= k < i ==> text_member((#[trigger] props@[k]).1, "description"@) == Some(params@[k].1@),
            required@.len() == i,
            forall|k: int| 0 <= k < i ==> json_text(#[trigger] required@[k]) == Some(params@[k].0@),
            forall|k: int| 0 <= k < i ==> (#[trigger] props@[k]).1 == param_doc(params@[k].1@),
            forall|k: int| 0 <= k < i ==> #[trigger] required@[k] == string_doc(params@[k].0@),
        decreases params@.len() - i,
    {
        let name = params[i].0.clone();
        props.push((name, string_param(params[i].1.as_str())));
        required.push(json_string(params[i].0.as_str()));
        i = i + 1;
    }
    let ghost names = params@.map_values(|p: (String, String)| (p.0@, p.1@));
    assert(props@.map_values(|m: (String, serde_json::Value)| (m.0@, m.1)) =~= names.map_values(
        |p: (Seq<char>, Seq<char>)| (p.0, param_doc(p.1)),
    ));
    assert(required@ =~= names.map_values(|p: (Seq<char>, Seq<char>)| string_doc(p.0)));
    let properties = json_object(props);
    assert forall|k: int| 0 <= k < names.len() implies (json_member(properties, (#[trigger] names[k]).0) matches Some(p)
        && text_member(p, "type"@) == Some("string"@)
        && text_member(p, "description"@) == Some(names[k].1)) by {
        assert(props@[k].0@ == names[k].0);
        assert(json_member(properties, props@[k].0@) == Some(props@[k].1));
    }
    proof {
        reveal_strlit("type");
        reveal_strlit("properties");
        reveal_strlit("required");
        reveal_strlit("object");
    }
    let outer = vec![
        ("type".to_owned(), json_string("object")),
        ("properties".to_owned(), properties),
        ("required".to_owned(), json_array(required)),
    ];
    assert(outer@[0].0@.len() == 4 && outer@[1].0@.len() == 10 && outer@[2].0@.len() == 8);
    let ghost req = required@;
    assert(outer@.map_values(|m: (String, serde_json::Value)| (m.0@, m.1)) =~= seq![
        ("type"@, string_doc("object"@)),
        ("properties"@, object_doc(names.map_values(|p: (Seq<char>, Seq<char>)| (p.0, param_doc(p.1))))),
        ("required"@, array_doc(names.map_values(|p: (Seq<char>, Seq<char>)| string_doc(p.0)))),
    ]);
    let r = json_object(outer);
    assert(json_member(r, outer@[0].0@) == Some(outer@[0].1));
    assert(json_member(r, outer@[1].0@) == Some(outer@[1].1));
    assert(json_member(r, outer@[2].0@) == Some(outer@[2].1));
    assert(json_items(outer@[2].1) == req);
    assert forall|k: int| 0 <= k < names.len() implies json_text(#[trigger] json_items(outer@[2].1)[k]) == Some(names[k].0) by {
        assert(json_items(outer@[2].1)[k] == req[k]);
    }
    r
}

fn tool(name: &str, description: &str, params: Vec<(String, String)>) -> (r: ToolDefinition)
    requires
        forall|i: int, j: int|
            0 <= i < params@.len() && 0 <= j < params@.len() && i != j ==> #[trigger] params@[i].0@
                != #[trigger] params@[j].0@,
    ensures
        r.name@ == name@,
        r.description@ == description@,
        schema_lists(r.parameters, params@.map_values(|p: (String, String)| (p.0@, p.1@))),
        r.parameters == schema_doc(params@.map_values(|p: (String, String)| (p.0@, p.1@))),
{
    ToolDefinition {
        name: name.to_owned(),
        description: description.to_owned(),
        parameters: object_schema(params),
    }
}

fn one_param(name: &str, description: &str) -> (r: Vec<(String, String)>)
    ensures
        r@.map_values(|p: (String, String)| (p.0@, p.1@)) == seq![(name@, description@)],
        forall|i: int, j: int|
            0 <= i < r@.len() && 0 <= j < r@.len() && i != j ==> #[trigger] r@[i].0@
                != #[trigger] r@[j].0@,
{
    let r = vec![(name.to_owned(), description.to_owned())];
    assert(r@.map_values(|p: (String, String)| (p.0@, p.1@)) =~= seq![(name@, description@)]);
    r
}

fn two_params(a: &str, a_description: &str, b: &str, b_description: &str) -> (r: Vec<(String, String)>)
    requires
        a@ != b@,
    ensures
        r@.map_values(|p: (String, String)| (p.0@, p.1@)) == seq![(a@, a_description@), (b@, b_description@)],
        forall|i: int, j: int|
            0 <= i < r@.len() && 0 <= j < r@.len() && i != j ==> #[trigger] r@[i].0@
                != #[trigger] r@[j].0@,
{
    let r = vec![(a.to_owned(), a_description.to_owned()), (b.to_owned(), b_description.to_owned())];
    assert(r@.map_values(|p: (String, String)| (p.0@, p.1@)) =~= seq![(a@, a_description@), (b@, b_description@)]);
    r
}

/// The catalog of file tools.
pub fn get_file_tools() -> (r: Vec<ToolDefinition>)
    ensures
        r@.len() == tool_names().len(),
        forall|k: int| 0 <= k < r@.len() ==> (#[trigger] r@[k]).name@ == tool_names()[k],
        forall|k: int| 0 <= k < r@.len() ==> (#[trigger] r@[k]).description@ == tool_descriptions()[k],
        forall|k: int| 0 <= k < r@.len() ==> schema_lists((#[trigger] r@[k]).parameters, tool_params()[k]),
        forall|k: int| 0 <= k < r@.len() ==> (#[trigger] r@[k]).parameters == schema_doc(tool_params()[k]),
{
    proof {
        reveal_strlit("path");
        reveal_strlit("content");
        reveal_strlit("src");
        reveal_strlit("dest");
    }
    assert("path"@.len() == 4 && "content"@.len() == 7);
    assert("src"@.len() == 3 && "dest"@.len() == 4);
    let r = vec![
        tool(
            "list_files",
            "List files and directories in a given path",
            one_param("path", "Absolute path to the directory to list"),
        ),
        tool(
            "read_file",
            "Read the contents of a text file",
            one_param("path", "Absolute path to the file to read"),
        ),
        tool(
            "write_file",
            "Write content to an existing file (overwrites)",
            two_params(
                "path",
                "Absolute path to the file to write",
                "content",
                "Content to write to the file",
            ),
        ),
        tool(
            "create_file",
            "Create a new file with content (fails if file already exists)",
            two_params("path", "Absolute path for the new file", "content", "Content for the new file"),
        ),
        tool(
            "delete_file",
            "Delete a file",
            one_param("path", "Absolute path to the file to delete"),
        ),
        tool(
            "move_file",
            "Move or rename a file",
            two_params(
                "src",
                "Absolute path to the source file",
                "dest",
                "Absolute path for the destination",
            ),
        ),
    ];
    r
}

/// The instructions given to the generator around the catalog text.
pub open spec fn prompt_text(catalog: Seq<char>) -> Seq<char> {
    "You have access to the following tools to help users with file operations:\n\n"@ + catalog
        + "\n\nTo use a tool, respond with a tool call in this exact format:\n<tool_call>{\"name\": \"tool_name\", \"arguments\": {\"arg1\": \"value1\"}}</tool_call>\n\nYou can use multiple tool calls in a single response. After each tool call, you will receive the result.\nOnly use tools when the user asks for file operations. Always provide a natural language response along with your tool calls."@
}

/// The instructions around a catalog already written out.
pub fn tools_prompt(catalog: &str) -> (r: String)
    ensures
        r@ == prompt_text(catalog@),
{
    let mut out: Vec<char> = Vec::new();
    push_str(&mut out, "You have access to the following tools to help users with file operations:\n\n");
    push_str(&mut out, catalog);
    push_str(&mut out, "\n\nTo use a tool, respond with a tool call in this exact format:\n<tool_call>{\"name\": \"tool_name\", \"arguments\": {\"arg1\": \"value1\"}}</tool_call>\n\nYou can use multiple tool calls in a single response. After each tool call, you will receive the result.\nOnly use tools when the user asks for file operations. Always provide a natural language response along with your tool calls.");
    text_of(&out)
}

/// `doc` is an array with one object per tool, in order, holding its name,
/// its description and its parameters.
pub open spec fn describes(doc: serde_json::Value, tools: Seq<ToolDefinition>) -> bool {
    &&& json_items(doc).len() == tools.len()
    &&& forall|k: int|
        0 <= k < tools.len() ==> {
            let item = #[trigger] json_items(doc)[k];
            &&& text_member(item, "name"@) == Some(tools[k].name@)
            &&& text_member(item, "description"@) == Some(tools[k].description@)
            &&& json_member(item, "parameters"@) == Some(tools[k].parameters)
        }
}

/// The catalog as one JSON array of objects with the name, the description
/// and the parameters of each tool.
fn catalog_document(tools: &Vec<ToolDefinition>) -> (r: serde_json::Value)
    ensures
        describes(r, tools@),
        r == array_doc(
            tools@.map_values(|t: ToolDefinition| entry_doc(t.name@, t.description@, t.parameters)),
        ),
{
    let mut items: Vec<serde_json::Value> = Vec::new();
    let mut i: usize = 0;
    while i < tools.len()
        invariant
            0 <= i <= tools@.len(),
            items@.len() == i,
            forall|k: int|
                0 <= k < i ==> {
                    let item = #[trigger] items@[k];
                    &&& text_member(item, "name"@) == Some(tools@[k].name@)
                    &&& text_member(item, "description"@) == Some(tools@[k].description@)
                    &&& json_member(item, "parameters"@) == Some(tools@[k].parameters)
                    &&& item == entry_doc(tools@[k].name@, tools@[k].description@, tools@[k].parameters)
                },
        decreases tools@.len() - i,
    {
        let t = &tools[i];
        proof {
            reveal_strlit("name");
            reveal_strlit("description");
            reveal_strlit("parameters");
        }
        let members = vec![
            ("name".to_owned(), json_string(t.name.as_str())),
            ("description".to_owned(), json_string(t.description.as_str())),
            ("parameters".to_owned(), t.parameters.clone()),
        ];
        assert(members@[0].0@.len() == 4 && members@[1].0@.len() == 11 && members@[2].0@.len() == 10);
        assert(members@.map_values(|m: (String, serde_json::Value)| (m.0@, m.1)) =~= seq![
            ("name"@, string_doc(t.name@)),
            ("description"@, string_doc(t.description@)),
            ("parameters"@, t.parameters),
        ]);
        let item = json_object(members);
        assert(json_member(item, members@[0].0@) == Some(members@[0].1));
        assert(json_member(item, members@[1].0@) == Some(members@[1].1));
        assert(json_member(item, members@[2].0@) == Some(members@[2].1));
        items.push(item);
        i = i + 1;
    }
    assert(items@ =~= tools@.map_values(
        |t: ToolDefinition| entry_doc(t.name@, t.description@, t.parameters),
    ));
    json_array(items)
}

/// The instructions for the generator, with the catalog of `get_file_tools`
/// written out as pretty-printed JSON.
pub fn format_tools_for_prompt() -> (r: String)
    ensures
        r@ == prompt_text(pretty_text(catalog_doc())),
{
    let tools = get_file_tools();
    let doc = catalog_document(&tools);
    assert(tools@.map_values(|t: ToolDefinition| entry_doc(t.name@, t.description@, t.parameters))
        =~= Seq::new(
        tool_names().len(),
        |k: int| entry_doc(tool_names()[k], tool_descriptions()[k], schema_doc(tool_params()[k])),
    ));
    let text = pretty_json(&doc);
    tools_prompt(text.as_str())
}

} // verus!
