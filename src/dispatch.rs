use vstd::prelude::*;
use crate::json::{get_text, text_member};
use crate::operations::{
    authorize, denial_text, error_text, request_allowed, FileError, FileInfo, FileRequest, RequestView,
};
use crate::permissions::PermissionStore;
use crate::text::{push_str, str_eq, text_of};
use crate::tools::ToolCall;

verus! {

/// The request that a call of tool `name` with `args` stands for, or the
/// text that tells the generator why there is none.
pub open spec fn planned(name: Seq<char>, args: serde_json::Value) -> Result<RequestView, Seq<char>> {
    let path = text_member(args, "path"@);
    let content = text_member(args, "content"@);
    if name == "list_files"@ {
        match path {
            Some(p) => Ok(RequestView::List(p)),
            None => Err("Error: Missing 'path' argument"@),
        }
    } else if name == "read_file"@ {
        match path {
            Some(p) => Ok(RequestView::Read(p)),
            None => Err("Error: Missing 'path' argument"@),
        }
    } else if name == "write_file"@ {
        match (path, content) {
            (Some(p), Some(c)) => Ok(RequestView::Write(p, c)),
            _ => Err("Error: Missing 'path' or 'content' argument"@),
        }
    } else if name == "create_file"@ {
        match (path, content) {
            (Some(p), Some(c)) => Ok(RequestView::Create(p, c)),
            _ => Err("Error: Missing 'path' or 'content' argument"@),
        }
    } else if name == "delete_file"@ {
        match path {
            Some(p) => Ok(RequestView::Delete(p)),
            None => Err("Error: Missing 'path' argument"@),
        }
    } else if name == "move_file"@ {
        match (text_member(args, "src"@), text_member(args, "dest"@)) {
            (Some(s), Some(d)) => Ok(RequestView::Move(s, d)),
            _ => Err("Error: Missing 'src' or 'dest' argument"@),
        }
    } else {
        Err("Error: Unknown tool '"@ + name + "'"@)
    }
}

/// Maps a call to the file request it names, reading its arguments by name;
/// a missing argument or an unknown tool gives the error text instead.
pub fn plan_tool(call: &ToolCall) -> (r: Result<FileRequest, String>)
    ensures
        match r {
            Ok(q) => planned(call.name@, call.arguments) == Ok::<RequestView, Seq<char>>(q@),
            Err(t) => planned(call.name@, call.arguments) == Err::<RequestView, Seq<char>>(t@),
        },
{
    let name = call.name.as_str();
    let args = &call.arguments;
    if str_eq(name, "list_files") {
        match get_text(args, "path") {
            Some(p) => Ok(FileRequest::List { path: p }),
            None => Err("Error: Missing 'path' argument".to_owned()),
        }
    } else if str_eq(name, "read_file") {
        match get_text(args, "path") {
            Some(p) => Ok(FileRequest::Read { path: p }),
            None => Err("Error: Missing 'path' argument".to_owned()),
        }
    } else if str_eq(name, "write_file") {
        match (get_text(args, "path"), get_text(args, "content")) {
            (Some(p), Some(c)) => Ok(FileRequest::Write { path: p, content: c }),
            _ => Err("Error: Missing 'path' or 'content' argument".to_owned()),
        }
    } else if str_eq(name, "create_file") {
        match (get_text(args, "path"), get_text(args, "content")) {
            (Some(p), Some(c)) => Ok(FileRequest::Create { path: p, content: c }),
            _ => Err("Error: Missing 'path' or 'content' argument".to_owned()),
        }
    } else if str_eq(name, "delete_file") {
        match get_text(args, "path") {
            Some(p) => Ok(FileRequest::Delete { path: p }),
            None => Err("Error: Missing 'path' argument".to_owned()),
        }
    } else if str_eq(name, "move_file") {
        match (get_text(args, "src"), get_text(args, "dest")) {
            (Some(s), Some(d)) => Ok(FileRequest::Move { src: s, dest: d }),
            _ => Err("Error: Missing 'src' or 'dest' argument".to_owned()),
        }
    } else {
        let mut out: Vec<char> = Vec::new();
        push_str(&mut out, "Error: Unknown tool '");
        push_str(&mut out, name);
        push_str(&mut out, "'");
        Err(text_of(&out))
    }
}

/// What a call comes to before anything is touched: the request to run,
/// which every path of it allows, or else the text that answers the call.
pub open spec fn tool_step(
    grants: Seq<crate::permissions::GrantView>,
    name: Seq<char>,
    args: serde_json::Value,
) -> Result<RequestView, Seq<char>> {
    match planned(name, args) {
        Err(t) => Err(t),
        Ok(q) => if request_allowed(grants, q) {
            Ok(q)
        } else {
            Err("Error: "@ + denial_text(q))
        },
    }
}

/// Reads a call and checks its paths against the grants: the request comes
/// back only when it may run; otherwise the text for the generator does.
pub fn begin_tool(store: &PermissionStore, call: &ToolCall) -> (r: Result<FileRequest, String>)
    ensures
        match r {
            Ok(q) => tool_step(store@, call.name@, call.arguments) == Ok::<RequestView, Seq<char>>(q@),
            Err(t) => tool_step(store@, call.name@, call.arguments) == Err::<RequestView, Seq<char>>(t@),
        },
{
    match plan_tool(call) {
        Err(t) => Err(t),
        Ok(q) => match authorize(store, &q) {
            Ok(()) => Ok(q),
            Err(e) => {
                let mut out: Vec<char> = Vec::new();
                push_str(&mut out, "Error: ");
                push_str(&mut out, e.message().as_str());
                Err(text_of(&out))
            },
        },
    }
}

/// What a file operation handed back when it succeeded.
pub enum FileOutput {
    Entries(Vec<FileInfo>),
    Text(String),
    Done,
}

/// The line that describes one entry of a listing.
pub open spec fn entry_line(f: FileInfo) -> Seq<char> {
    (if f.is_directory {
        "[DIR]"@
    } else {
        "[FILE]"@
    }) + " "@ + f.name@ + " ("@ + f.path@ + ")"@
}

/// The lines joined with line breaks between them.
pub open spec fn join_lines(ls: Seq<Seq<char>>) -> Seq<char>
    decreases ls.len(),
{
    if ls.len() == 0 {
        seq![]
    } else if ls.len() == 1 {
        ls[0]
    } else {
        join_lines(ls.drop_last()) + "\n"@ + ls.last()
    }
}

/// A listing as text, one entry per line.
pub open spec fn listing_text(fs: Seq<FileInfo>) -> Seq<char> {
    if fs.len() == 0 {
        "Directory is empty"@
    } else {
        join_lines(fs.map_values(|f: FileInfo| entry_line(f)))
    }
}

/// The text handed back to the generator for a request and its outcome.
pub open spec fn result_text(req: RequestView, out: Result<FileOutput, FileError>) -> Seq<char> {
    match out {
        Err(e) => "Error: "@ + error_text(e),
        Ok(o) => match req {
            RequestView::List(_) => match o {
                FileOutput::Entries(v) => listing_text(v@),
                _ => listing_text(seq![]),
            },
            RequestView::Read(_) => match o {
                FileOutput::Text(t) => t@,
                _ => seq![],
            },
            RequestView::Write(p, _) => "Successfully wrote to "@ + p,
            RequestView::Create(p, _) => "Successfully created "@ + p,
            RequestView::Delete(p) => "Successfully deleted "@ + p,
            RequestView::Move(s, d) => "Successfully moved "@ + s + " to "@ + d,
        },
    }
}

fn push_entry(out: &mut Vec<char>, f: &FileInfo)
    ensures
        final(out)@ == old(out)@ + entry_line(*f),
{
    if f.is_directory {
        push_str(out, "[DIR]");
    } else {
        push_str(out, "[FILE]");
    }
    push_str(out, " ");
    push_str(out, f.name.as_str());
    push_str(out, " (");
    push_str(out, f.path.as_str());
    push_str(out, ")");
}

fn listing(fs: &Vec<FileInfo>) -> (r: String)
    ensures
        r@ == listing_text(fs@),
{
    if fs.len() == 0 {
        return "Directory is empty".to_owned();
    }
    let ghost lines = fs@.map_values(|f: FileInfo| entry_line(f));
    let mut out: Vec<char> = Vec::new();
    push_entry(&mut out, &fs[0]);
    assert(lines.subrange(0, 1) =~= seq![lines[0]]);
    let mut i: usize = 1;
    while i < fs.len()
        invariant
            1 <= i <= fs@.len(),
            lines == fs@.map_values(|f: FileInfo| entry_line(f)),
            out@ == join_lines(lines.subrange(0, i as int)),
        decreases fs@.len() - i,
    {
        push_str(&mut out, "\n");
        push_entry(&mut out, &fs[i]);
        assert(lines.subrange(0, i + 1).drop_last() =~= lines.subrange(0, i as int));
        i = i + 1;
    }
    assert(lines.subrange(0, i as int) =~= lines);
    text_of(&out)
}

/// The text handed back to the generator once a request has run.
pub fn render_result(req: &FileRequest, out: &Result<FileOutput, FileError>) -> (r: String)
    ensures
        r@ == result_text(req@, *out),
{
    let mut t: Vec<char> = Vec::new();
    match out {
        Err(e) => {
            push_str(&mut t, "Error: ");
            push_str(&mut t, e.message().as_str());
        },
        Ok(o) => match req {
            FileRequest::List { .. } => match o {
                FileOutput::Entries(v) => return listing(v),
                _ => return listing(&Vec::new()),
            },
            FileRequest::Read { .. } => match o {
                FileOutput::Text(c) => return c.clone(),
                _ => {},
            },
            FileRequest::Write { path, .. } => {
                push_str(&mut t, "Successfully wrote to ");
                push_str(&mut t, path.as_str());
            },
            FileRequest::Create { path, .. } => {
                push_str(&mut t, "Successfully created ");
                push_str(&mut t, path.as_str());
            },
            FileRequest::Delete { path } => {
                push_str(&mut t, "Successfully deleted ");
                push_str(&mut t, path.as_str());
            },
            FileRequest::Move { src, dest } => {
                push_str(&mut t, "Successfully moved ");
                push_str(&mut t, src.as_str());
                push_str(&mut t, " to ");
                push_str(&mut t, dest.as_str());
            },
        },
    }
    text_of(&t)
}

} // verus!
