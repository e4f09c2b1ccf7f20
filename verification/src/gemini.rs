//! The request and response model of the Gemini chat API, and the parsing of
//! the actions that a model reply asks for.

use vstd::prelude::*;
use crate::text::lines_of;

verus! {

/// A piece of message text.
pub struct Part {
    pub text: String,
}

/// One turn of a conversation as the API receives it.
pub struct Content {
    pub role: String,
    pub parts: Vec<Part>,
}

/// The plain-value model of a `Content`: its role and the texts of its parts.
#[verifier::ext_equal]
pub struct ContentView {
    pub role: Seq<char>,
    pub parts: Seq<Seq<char>>,
}

impl View for Content {
    type V = ContentView;

    open spec fn view(&self) -> ContentView {
        ContentView { role: self.role@, parts: self.parts@.map_values(|p: Part| p.text@) }
    }
}

} // verus!

verus! {

/// What running a shell command gave.
#[derive(Debug)]
pub struct CommandResult {
    pub command: String,
    pub stdout: String,
    pub stderr: String,
    pub success: bool,
    pub exit_code: Option<i32>,
}

/// The instructions sent first in every conversation.
pub open spec fn system_prompt_text() -> Seq<char> {
    "あなたはファイル作成・部分編集・コマンド実行機能を持つAIアシスタントです。\n\nユーザーのリクエストに応じて、以下の機能を提供できます：\n\n1. **ファイル作成**: 新しいファイルを作成\n2. **ファイル編集**: 既存ファイルの部分編集\n3. **コマンド実行**: シェルコマンドの実行\n\nこれらの機能は、Function Calling機能を通じて実行されます。必要に応じて適切な関数を呼び出してください。\n\n---\n【重要】全ての返答の末尾に, タスクが終了したかを示すフラグである is_finished: true または is_finished: false を必ず明示してください（JSON形式または \"is_finished: true\" のような形式でOK）。\nまた、is_finished:falseの際は、作業を完了させるため適切な関数を呼び出すこと。適切な関数が存在しない、また異常終了しているなどの場合はtrueを返すこと。\n"@
}

/// The instructions sent first in every conversation.
pub fn get_system_prompt() -> (r: String)
    ensures
        r@ == system_prompt_text(),
{
    crate::text::to_owned_string("あなたはファイル作成・部分編集・コマンド実行機能を持つAIアシスタントです。\n\nユーザーのリクエストに応じて、以下の機能を提供できます：\n\n1. **ファイル作成**: 新しいファイルを作成\n2. **ファイル編集**: 既存ファイルの部分編集\n3. **コマンド実行**: シェルコマンドの実行\n\nこれらの機能は、Function Calling機能を通じて実行されます。必要に応じて適切な関数を呼び出してください。\n\n---\n【重要】全ての返答の末尾に, タスクが終了したかを示すフラグである is_finished: true または is_finished: false を必ず明示してください（JSON形式または \"is_finished: true\" のような形式でOK）。\nまた、is_finished:falseの際は、作業を完了させるため適切な関数を呼び出すこと。適切な関数が存在しない、また異常終了しているなどの場合はtrueを返すこと。\n")
}

/// A turn with one text part.
pub open spec fn turn(role: Seq<char>, text: Seq<char>) -> ContentView {
    ContentView { role, parts: seq![text] }
}

fn make_turn(role: &str, text: String) -> (r: Content)
    ensures
        r@ == turn(role@, text@),
{
    let mut parts: Vec<Part> = Vec::new();
    parts.push(Part { text });
    let r = Content { role: crate::text::to_owned_string(role), parts };
    assert(r@.parts =~= seq![text@]);
    r
}

fn clone_content(c: &Content) -> (r: Content)
    ensures
        r@ == c@,
{
    let mut parts: Vec<Part> = Vec::new();
    let mut i: usize = 0;
    while i < c.parts.len()
        invariant
            i <= c.parts.len(),
            parts@.map_values(|p: Part| p.text@) == c.parts@.take(i as int).map_values(|p: Part| p.text@),
        decreases c.parts.len() - i,
    {
        let ghost before = parts@.map_values(|p: Part| p.text@);
        parts.push(Part { text: c.parts[i].text.clone() });
        assert(parts@.map_values(|p: Part| p.text@) =~= before.push(c.parts[i as int].text@));
        assert(c.parts@.take(i + 1).map_values(|p: Part| p.text@) =~= c.parts@.take(i as int).map_values(
            |p: Part| p.text@,
        ).push(c.parts[i as int].text@));
        i = i + 1;
    }
    assert(c.parts@.take(i as int) =~= c.parts@);
    let r = Content { role: c.role.clone(), parts };
    assert(r@ =~= c@);
    r
}

fn push_turns(out: &mut Vec<Content>, turns: &Vec<Content>)
    ensures
        final(out)@.map_values(|c: Content| c@) == old(out)@.map_values(|c: Content| c@) + turns@.map_values(
            |c: Content| c@,
        ),
{
    let ghost start = out@.map_values(|c: Content| c@);
    let mut i: usize = 0;
    while i < turns.len()
        invariant
            i <= turns.len(),
            out@.map_values(|c: Content| c@) == start + turns@.take(i as int).map_values(|c: Content| c@),
        decreases turns.len() - i,
    {
        let ghost before = out@.map_values(|c: Content| c@);
        let c = clone_content(&turns[i]);
        out.push(c);
        assert(out@.map_values(|c: Content| c@) =~= before.push(turns[i as int]@));
        assert(turns@.take(i + 1).map_values(|c: Content| c@) =~= turns@.take(i as int).map_values(
            |c: Content| c@,
        ).push(turns[i as int]@));
        i = i + 1;
    }
    assert(turns@.take(i as int) =~= turns@);
}

/// The turns of a chat request: the instructions, the earlier turns, and the
/// message.
pub open spec fn chat_turns(context: Seq<ContentView>, message: Seq<char>) -> Seq<ContentView> {
    seq![turn("user"@, system_prompt_text())] + context + seq![turn("user"@, message)]
}

/// The turns of a chat request for `message` after the earlier turns.
pub fn chat(message: &str, context: Option<&Vec<Content>>) -> (r: Vec<Content>)
    ensures
        r@.map_values(|c: Content| c@) == chat_turns(
            match context {
                Some(c) => c@.map_values(|c: Content| c@),
                None => Seq::empty(),
            },
            message@,
        ),
{
    let mut out: Vec<Content> = Vec::new();
    out.push(make_turn("user", get_system_prompt()));
    match context {
        Some(ctx) => push_turns(&mut out, ctx),
        None => {},
    }
    let ghost before = out@.map_values(|c: Content| c@);
    let last = make_turn("user", crate::text::to_owned_string(message));
    out.push(last);
    assert(out@.map_values(|c: Content| c@) =~= before.push(last@));
    assert(out@.map_values(|c: Content| c@) =~= chat_turns(
        match context {
            Some(c) => c@.map_values(|c: Content| c@),
            None => Seq::empty(),
        },
        message@,
    ));
    out
}

/// The text that shows one file to the model, or why it could not be read.
pub open spec fn file_section(path: Seq<char>, read: Result<Seq<char>, Seq<char>>) -> Seq<char> {
    match read {
        Ok(content) => "\n--- File: "@ + path + " ---\n"@ + content + "\n--- End of file ---\n\n"@,
        Err(e) => "\n--- Error reading file: "@ + path + " ---\n"@ + "Error: "@ + e + "\n\n"@,
    }
}

/// The sections of all files, in order.
pub open spec fn file_sections(files: Seq<(Seq<char>, Result<Seq<char>, Seq<char>>)>) -> Seq<char>
    decreases files.len(),
{
    if files.len() == 0 {
        Seq::empty()
    } else {
        file_sections(files.drop_last()) + file_section(files.last().0, files.last().1)
    }
}

/// The plain-value model of a file read: its path and contents or error.
pub open spec fn read_view(f: (String, Result<String, String>)) -> (Seq<char>, Result<Seq<char>, Seq<char>>) {
    (f.0@, match f.1 {
        Ok(c) => Ok(c@),
        Err(e) => Err(e@),
    })
}

/// The turns of a chat request that shows files: the instructions, the file
/// contents (when there are any), the earlier turns and the message.
pub open spec fn file_chat_turns(
    files: Seq<(Seq<char>, Result<Seq<char>, Seq<char>>)>,
    context: Seq<ContentView>,
    message: Seq<char>,
) -> Seq<ContentView> {
    let text = file_sections(files);
    seq![turn("user"@, system_prompt_text())] + (if text.len() > 0 {
        seq![turn("user"@, "=== FILE CONTENTS ===\n"@ + text + "\n=== END FILE CONTENTS ===\n\n"@)]
    } else {
        Seq::empty()
    }) + context + seq![turn("user"@, message)]
}

/// The turns of a chat request for `message` with the files read for it
/// (each path with its contents or the read error).
pub fn chat_with_file_context(
    message: &str,
    files: &Vec<(String, Result<String, String>)>,
    context: Option<&Vec<Content>>,
) -> (r: Vec<Content>)
    ensures
        r@.map_values(|c: Content| c@) == file_chat_turns(
            files@.map_values(|f: (String, Result<String, String>)| read_view(f)),
            match context {
                Some(c) => c@.map_values(|c: Content| c@),
                None => Seq::empty(),
            },
            message@,
        ),
{
    let ghost fs = files@.map_values(|f: (String, Result<String, String>)| read_view(f));
    let mut text: Vec<char> = Vec::new();
    let mut i: usize = 0;
    while i < files.len()
        invariant
            i <= files.len(),
            fs == files@.map_values(|f: (String, Result<String, String>)| read_view(f)),
            text@ == file_sections(fs.take(i as int)),
        decreases files.len() - i,
    {
        assert(fs.take(i + 1).drop_last() =~= fs.take(i as int));
        let (path, read) = &files[i];
        let ghost before = text@;
        match read {
            Ok(content) => {
                crate::text::push_str_chars(&mut text, "\n--- File: ");
                crate::text::push_str_chars(&mut text, path.as_str());
                crate::text::push_str_chars(&mut text, " ---\n");
                crate::text::push_str_chars(&mut text, content.as_str());
                crate::text::push_str_chars(&mut text, "\n--- End of file ---\n\n");
            },
            Err(e) => {
                crate::text::push_str_chars(&mut text, "\n--- Error reading file: ");
                crate::text::push_str_chars(&mut text, path.as_str());
                crate::text::push_str_chars(&mut text, " ---\n");
                crate::text::push_str_chars(&mut text, "Error: ");
                crate::text::push_str_chars(&mut text, e.as_str());
                crate::text::push_str_chars(&mut text, "\n\n");
            },
        }
        assert(text@ =~= before + file_section(fs[i as int].0, fs[i as int].1));
        i = i + 1;
    }
    assert(fs.take(i as int) =~= fs);
    let mut out: Vec<Content> = Vec::new();
    out.push(make_turn("user", get_system_prompt()));
    if text.len() > 0 {
        let mut block = crate::text::chars_of("=== FILE CONTENTS ===\n");
        crate::text::push_all(&mut block, &text);
        crate::text::push_str_chars(&mut block, "\n=== END FILE CONTENTS ===\n\n");
        let ghost before = out@.map_values(|c: Content| c@);
        let t = make_turn("user", crate::text::string_of(&block));
        out.push(t);
        assert(out@.map_values(|c: Content| c@) =~= before.push(t@));
    }
    match context {
        Some(ctx) => push_turns(&mut out, ctx),
        None => {},
    }
    let ghost before = out@.map_values(|c: Content| c@);
    let last = make_turn("user", crate::text::to_owned_string(message));
    out.push(last);
    assert(out@.map_values(|c: Content| c@) =~= before.push(last@));
    assert(out@.map_values(|c: Content| c@) =~= file_chat_turns(
        fs,
        match context {
            Some(c) => c@.map_values(|c: Content| c@),
            None => Seq::empty(),
        },
        message@,
    ));
    out
}

} // verus!

verus! {

/// The JSON type of a function parameter.
#[derive(Debug, Clone, Copy, PartialEq, Eq, Structural)]
pub enum ParamType {
    String,
    Integer,
    Boolean,
}

/// One parameter of a declared function.
#[derive(Debug)]
pub struct Param {
    pub name: String,
    pub ty: ParamType,
    pub description: String,
}

/// A function the model may call: its name, description, parameters (an
/// object schema) and the required parameters.
#[derive(Debug)]
pub struct FunctionDeclaration {
    pub name: String,
    pub description: String,
    pub parameters: Vec<Param>,
    pub required: Vec<String>,
}

/// A set of declared functions.
#[derive(Debug)]
pub struct Tool {
    pub function_declarations: Vec<FunctionDeclaration>,
}

/// The plain-value model of a declaration.
#[verifier::ext_equal]
pub struct DeclView {
    pub name: Seq<char>,
    pub description: Seq<char>,
    pub parameters: Seq<(Seq<char>, ParamType, Seq<char>)>,
    pub required: Seq<Seq<char>>,
}

impl View for FunctionDeclaration {
    type V = DeclView;

    open spec fn view(&self) -> DeclView {
        DeclView {
            name: self.name@,
            description: self.description@,
            parameters: self.parameters@.map_values(|p: Param| (p.name@, p.ty, p.description@)),
            required: self.required.deep_view(),
        }
    }
}

/// The three functions offered to the model.
pub open spec fn declared_functions() -> Seq<DeclView> {
    seq![
        DeclView {
            name: "create_file"@,
            description: "ファイルを作成します"@,
            parameters: seq![
                ("filename"@, ParamType::String, "作成するファイル名"@),
                ("content"@, ParamType::String, "ファイルの内容"@),
            ],
            required: seq!["filename"@, "content"@],
        },
        DeclView {
            name: "edit_file"@,
            description: "ファイルの一部を編集します"@,
            parameters: seq![
                ("filename"@, ParamType::String, "編集するファイル名"@),
                ("start_line"@, ParamType::Integer, "編集開始行（1始まり）"@),
                ("end_line"@, ParamType::Integer, "編集終了行（1始まり）"@),
                ("content"@, ParamType::String, "新しい内容"@),
            ],
            required: seq!["filename"@, "start_line"@, "end_line"@, "content"@],
        },
        DeclView {
            name: "execute_command"@,
            description: "シェルコマンドを実行します"@,
            parameters: seq![
                ("command"@, ParamType::String, "実行するコマンド"@),
                ("silent"@, ParamType::Boolean, "サイレント実行かどうか（デフォルト: false）"@),
            ],
            required: seq!["command"@],
        },
    ]
}

fn param(name: &str, ty: ParamType, description: &str) -> (r: Param)
    ensures
        r.name@ == name@,
        r.ty == ty,
        r.description@ == description@,
{
    Param {
        name: crate::text::to_owned_string(name),
        ty,
        description: crate::text::to_owned_string(description),
    }
}

fn names(list: &[&str]) -> (r: Vec<String>)
    ensures
        r.deep_view() == list@.map_values(|s: &str| s@),
{
    let mut r: Vec<String> = Vec::new();
    let mut i: usize = 0;
    while i < list.len()
        invariant
            i <= list@.len(),
            r.deep_view() == list@.take(i as int).map_values(|s: &str| s@),
        decreases list@.len() - i,
    {
        let ghost before = r.deep_view();
        r.push(crate::text::to_owned_string(list[i]));
        assert(r.deep_view() =~= before.push(list@[i as int]@));
        assert(list@.take(i + 1).map_values(|s: &str| s@) =~= list@.take(i as int).map_values(
            |s: &str| s@,
        ).push(list@[i as int]@));
        i = i + 1;
    }
    assert(list@.take(i as int) =~= list@);
    r
}

fn declaration(name: &str, description: &str, parameters: Vec<Param>, required: &[&str]) -> (r: FunctionDeclaration)
    ensures
        r@ == (DeclView {
            name: name@,
            description: description@,
            parameters: parameters@.map_values(|p: Param| (p.name@, p.ty, p.description@)),
            required: required@.map_values(|s: &str| s@),
        }),
{
    FunctionDeclaration {
        name: crate::text::to_owned_string(name),
        description: crate::text::to_owned_string(description),
        parameters,
        required: names(required),
    }
}

/// The functions offered to the model: create_file, edit_file and
/// execute_command, with their parameter schemas.
pub fn get_function_declarations() -> (r: Vec<Tool>)
    ensures
        r@.len() == 1,
        r@[0].function_declarations@.map_values(|d: FunctionDeclaration| d@) == declared_functions(),
{
    let create = declaration(
        "create_file",
        "ファイルを作成します",
        vec![
            param("filename", ParamType::String, "作成するファイル名"),
            param("content", ParamType::String, "ファイルの内容"),
        ],
        &["filename", "content"],
    );
    let edit = declaration(
        "edit_file",
        "ファイルの一部を編集します",
        vec![
            param("filename", ParamType::String, "編集するファイル名"),
            param("start_line", ParamType::Integer, "編集開始行（1始まり）"),
            param("end_line", ParamType::Integer, "編集終了行（1始まり）"),
            param("content", ParamType::String, "新しい内容"),
        ],
        &["filename", "start_line", "end_line", "content"],
    );
    let execute = declaration(
        "execute_command",
        "シェルコマンドを実行します",
        vec![
            param("command", ParamType::String, "実行するコマンド"),
            param("silent", ParamType::Boolean, "サイレント実行かどうか（デフォルト: false）"),
        ],
        &["command"],
    );
    assert(create@ =~= declared_functions()[0]);
    assert(edit@ =~= declared_functions()[1]);
    assert(execute@ =~= declared_functions()[2]);
    let decls = vec![create, edit, execute];
    assert(decls@.map_values(|d: FunctionDeclaration| d@) =~= declared_functions());
    vec![Tool { function_declarations: decls }]
}

} // verus!

verus! {

/// A JSON argument value, as far as the calls read it.
#[derive(Debug)]
pub enum JsonValue {
    Str(String),
    UInt(u64),
    Bool(bool),
    Other,
}

/// The plain-value model of an argument value.
pub enum JsonView {
    Str(Seq<char>),
    UInt(u64),
    Bool(bool),
    Other,
}

impl View for JsonValue {
    type V = JsonView;

    open spec fn view(&self) -> JsonView {
        match self {
            JsonValue::Str(s) => JsonView::Str(s@),
            JsonValue::UInt(n) => JsonView::UInt(*n),
            JsonValue::Bool(b) => JsonView::Bool(*b),
            JsonValue::Other => JsonView::Other,
        }
    }
}

/// A function call asked for by the model: the name and the fields of its
/// argument object.
#[derive(Debug)]
pub struct FunctionCall {
    pub name: String,
    pub args: Vec<(String, JsonValue)>,
}

/// The argument fields as plain values.
pub open spec fn args_view(args: Seq<(String, JsonValue)>) -> Seq<(Seq<char>, JsonView)> {
    args.map_values(|a: (String, JsonValue)| (a.0@, a.1@))
}

/// The value of argument `key` (the first field with that name); `Other`
/// when there is none, as JSON `null` is.
pub open spec fn arg(args: Seq<(Seq<char>, JsonView)>, key: Seq<char>) -> JsonView
    decreases args.len(),
{
    if args.len() == 0 {
        JsonView::Other
    } else if args[0].0 == key {
        args[0].1
    } else {
        arg(args.drop_first(), key)
    }
}

/// What a function call asks for.
#[derive(Debug)]
pub enum CallPlan {
    CreateFile { filename: String, content: String },
    EditFile { filename: String, start_line: u64, end_line: u64, content: String },
    ExecuteCommand { command: String, silent: bool },
    Unknown { name: String },
}

/// A required argument is missing or has the wrong type.
#[derive(Debug)]
pub struct MissingParameter {
    pub name: String,
}

impl MissingParameter {
    /// "<name> parameter is required".
    pub fn message(&self) -> (r: String)
        ensures
            r@ == self.name@ + " parameter is required"@,
    {
        let mut v = crate::text::chars_of(self.name.as_str());
        crate::text::push_str_chars(&mut v, " parameter is required");
        crate::text::string_of(&v)
    }
}

fn arg_value<'a>(args: &'a Vec<(String, JsonValue)>, key: &str) -> (r: Option<&'a JsonValue>)
    ensures
        match r {
            Some(v) => v@ == arg(args_view(args@), key@),
            None => arg(args_view(args@), key@) == JsonView::Other,
        },
{
    let ghost av = args_view(args@);
    let mut i: usize = 0;
    assert(av.skip(0) =~= av);
    while i < args.len()
        invariant
            i <= args.len(),
            av == args_view(args@),
            arg(av, key@) == arg(av.skip(i as int), key@),
        decreases args.len() - i,
    {
        assert(av.skip(i as int)[0] == av[i as int]);
        assert(av.skip(i as int).drop_first() =~= av.skip(i + 1));
        if crate::text::str_eq(args[i].0.as_str(), key) {
            return Some(&args[i].1);
        }
        i = i + 1;
    }
    assert(av.skip(i as int).len() == 0);
    None
}

fn arg_str(args: &Vec<(String, JsonValue)>, key: &str) -> (r: Option<String>)
    ensures
        match arg(args_view(args@), key@) {
            JsonView::Str(s) => r matches Some(v) && v@ == s,
            _ => r is None,
        },
{
    match arg_value(args, key) {
        Some(JsonValue::Str(s)) => Some(s.clone()),
        _ => None,
    }
}

fn arg_u64(args: &Vec<(String, JsonValue)>, key: &str) -> (r: Option<u64>)
    ensures
        match arg(args_view(args@), key@) {
            JsonView::UInt(n) => r == Some(n),
            _ => r is None,
        },
{
    match arg_value(args, key) {
        Some(JsonValue::UInt(n)) => Some(*n),
        _ => None,
    }
}

fn missing(name: &str) -> (r: MissingParameter)
    ensures
        r.name@ == name@,
{
    MissingParameter { name: crate::text::to_owned_string(name) }
}

/// The plan of a function call: the action with its arguments, or the first
/// required argument that is missing (filename, start_line, end_line,
/// content for edits; filename, content for creation; command for
/// commands). `silent` defaults to false; an unknown name is no error.
pub fn plan_function_call(call: &FunctionCall) -> (r: Result<CallPlan, MissingParameter>)
    ensures
        ({
            let a = args_view(call.args@);
            if call.name@ == "create_file"@ {
                match (arg(a, "filename"@), arg(a, "content"@)) {
                    (JsonView::Str(f), JsonView::Str(c)) => r matches Ok(CallPlan::CreateFile { filename, content })
                        && filename@ == f && content@ == c,
                    (JsonView::Str(f), _) => r matches Err(m) && m.name@ == "content"@,
                    _ => r matches Err(m) && m.name@ == "filename"@,
                }
            } else if call.name@ == "edit_file"@ {
                if !(arg(a, "filename"@) is Str) {
                    r matches Err(m) && m.name@ == "filename"@
                } else if !(arg(a, "start_line"@) is UInt) {
                    r matches Err(m) && m.name@ == "start_line"@
                } else if !(arg(a, "end_line"@) is UInt) {
                    r matches Err(m) && m.name@ == "end_line"@
                } else if !(arg(a, "content"@) is Str) {
                    r matches Err(m) && m.name@ == "content"@
                } else {
                    r matches Ok(CallPlan::EditFile { filename, start_line, end_line, content })
                        && arg(a, "filename"@) == JsonView::Str(filename@)
                        && arg(a, "start_line"@) == JsonView::UInt(start_line)
                        && arg(a, "end_line"@) == JsonView::UInt(end_line)
                        && arg(a, "content"@) == JsonView::Str(content@)
                }
            } else if call.name@ == "execute_command"@ {
                match arg(a, "command"@) {
                    JsonView::Str(c) => r matches Ok(CallPlan::ExecuteCommand { command, silent })
                        && command@ == c && silent == (arg(a, "silent"@) == JsonView::Bool(true)),
                    _ => r matches Err(m) && m.name@ == "command"@,
                }
            } else {
                r matches Ok(CallPlan::Unknown { name }) && name@ == call.name@
            }
        }),
{
    let args = &call.args;
    if crate::text::str_eq(call.name.as_str(), "create_file") {
        let filename = match arg_str(args, "filename") {
            Some(f) => f,
            None => return Err(missing("filename")),
        };
        let content = match arg_str(args, "content") {
            Some(c) => c,
            None => return Err(missing("content")),
        };
        Ok(CallPlan::CreateFile { filename, content })
    } else if crate::text::str_eq(call.name.as_str(), "edit_file") {
        let filename = match arg_str(args, "filename") {
            Some(f) => f,
            None => return Err(missing("filename")),
        };
        let start_line = match arg_u64(args, "start_line") {
            Some(n) => n,
            None => return Err(missing("start_line")),
        };
        let end_line = match arg_u64(args, "end_line") {
            Some(n) => n,
            None => return Err(missing("end_line")),
        };
        let content = match arg_str(args, "content") {
            Some(c) => c,
            None => return Err(missing("content")),
        };
        Ok(CallPlan::EditFile { filename, start_line, end_line, content })
    } else if crate::text::str_eq(call.name.as_str(), "execute_command") {
        let command = match arg_str(args, "command") {
            Some(c) => c,
            None => return Err(missing("command")),
        };
        let silent = match arg_value(args, "silent") {
            Some(JsonValue::Bool(b)) => *b,
            _ => false,
        };
        Ok(CallPlan::ExecuteCommand { command, silent })
    } else {
        Ok(CallPlan::Unknown { name: call.name.clone() })
    }
}

/// The reply to a file creation: the created path, or the error.
pub fn create_file_reply(result: &Result<String, String>) -> (r: String)
    ensures
        r@ == match result {
            Ok(p) => "✅ ファイルを作成しました: "@ + p@,
            Err(e) => "❌ ファイル作成に失敗しました: "@ + e@,
        },
{
    let mut v = match result {
        Ok(_) => crate::text::chars_of("✅ ファイルを作成しました: "),
        Err(_) => crate::text::chars_of("❌ ファイル作成に失敗しました: "),
    };
    match result {
        Ok(p) => crate::text::push_str_chars(&mut v, p.as_str()),
        Err(e) => crate::text::push_str_chars(&mut v, e.as_str()),
    }
    crate::text::string_of(&v)
}

/// The reply to a file edit: the file's name, or the error.
pub fn edit_file_reply(filename: &str, result: &Result<(), String>) -> (r: String)
    ensures
        r@ == match result {
            Ok(_) => "✅ ファイルを編集しました: "@ + filename@,
            Err(e) => "❌ ファイル編集に失敗しました: "@ + e@,
        },
{
    match result {
        Ok(_) => {
            let mut v = crate::text::chars_of("✅ ファイルを編集しました: ");
            crate::text::push_str_chars(&mut v, filename);
            crate::text::string_of(&v)
        },
        Err(e) => {
            let mut v = crate::text::chars_of("❌ ファイル編集に失敗しました: ");
            crate::text::push_str_chars(&mut v, e.as_str());
            crate::text::string_of(&v)
        },
    }
}

/// The reply to a command run: its output when it succeeded, its error
/// output when it failed, or why it could not run.
pub fn command_reply(command: &str, result: &Result<CommandResult, String>) -> (r: String)
    ensures
        r@ == match result {
            Ok(c) => if c.success {
                "✅ コマンド実行成功: "@ + command@ + "\n出力: "@ + c.stdout@
            } else {
                "❌ コマンド実行失敗: "@ + command@ + "\nエラー: "@ + c.stderr@
            },
            Err(e) => "❌ コマンド実行エラー: "@ + e@,
        },
{
    match result {
        Ok(c) => {
            if c.success {
                let mut v = crate::text::chars_of("✅ コマンド実行成功: ");
                crate::text::push_str_chars(&mut v, command);
                crate::text::push_str_chars(&mut v, "\n出力: ");
                crate::text::push_str_chars(&mut v, c.stdout.as_str());
                crate::text::string_of(&v)
            } else {
                let mut v = crate::text::chars_of("❌ コマンド実行失敗: ");
                crate::text::push_str_chars(&mut v, command);
                crate::text::push_str_chars(&mut v, "\nエラー: ");
                crate::text::push_str_chars(&mut v, c.stderr.as_str());
                crate::text::string_of(&v)
            }
        },
        Err(e) => {
            let mut v = crate::text::chars_of("❌ コマンド実行エラー: ");
            crate::text::push_str_chars(&mut v, e.as_str());
            crate::text::string_of(&v)
        },
    }
}

/// The reply to a call of a function that is not offered.
pub fn unknown_function_reply(name: &str) -> (r: String)
    ensures
        r@ == "❌ 未知の関数呼び出し: "@ + name@,
{
    let mut v = crate::text::chars_of("❌ 未知の関数呼び出し: ");
    crate::text::push_str_chars(&mut v, name);
    crate::text::string_of(&v)
}

} // verus!

verus! {

/// A fence line: it starts with three backticks.
pub open spec fn is_fence(line: Seq<char>) -> bool {
    crate::text::seq_starts_with(line, "```"@)
}

/// The scan of fenced blocks over lines, given which lines open a block:
/// the block being read (its opening line and body lines) and the blocks
/// finished so far. A block ends at the next fence line, which it consumes,
/// or at the end of the text.
pub open spec fn scan_fences(lines: Seq<Seq<char>>, opens: Seq<bool>) -> (
    Option<(int, Seq<Seq<char>>)>,
    Seq<(int, Seq<Seq<char>>)>,
)
    decreases lines.len(),
{
    if lines.len() == 0 {
        (None, Seq::empty())
    } else {
        let n = lines.len() - 1;
        let (st, out) = scan_fences(lines.drop_last(), opens);
        match st {
            None => if opens[n] {
                (Some((n, Seq::empty())), out)
            } else {
                (None, out)
            },
            Some((k, acc)) => if is_fence(lines[n]) {
                (None, out.push((k, acc)))
            } else {
                (Some((k, acc.push(lines[n]))), out)
            },
        }
    }
}

/// The fenced blocks of the lines, the last one possibly unclosed.
pub open spec fn fenced_blocks(lines: Seq<Seq<char>>, opens: Seq<bool>) -> Seq<(int, Seq<Seq<char>>)> {
    let (st, out) = scan_fences(lines, opens);
    match st {
        Some(b) => out.push(b),
        None => out,
    }
}

/// Body lines glued with line feeds, a line feed added only once the text
/// gathered so far is not empty.
pub open spec fn glue(ls: Seq<Seq<char>>) -> Seq<char>
    decreases ls.len(),
{
    if ls.len() == 0 {
        Seq::empty()
    } else {
        let acc = glue(ls.drop_last());
        if acc.len() == 0 {
            ls.last()
        } else {
            acc.push('\n') + ls.last()
        }
    }
}

/// `s` without every leading repetition of `p` (`str::trim_start_matches`).
pub open spec fn strip_all(s: Seq<char>, p: Seq<char>) -> Seq<char>
    decreases s.len(),
{
    if p.len() > 0 && crate::text::seq_starts_with(s, p) {
        strip_all(s.skip(p.len() as int), p)
    } else {
        s
    }
}

/// A block body as plain values.
pub open spec fn block_view(b: (usize, Vec<Vec<char>>)) -> (int, Seq<Seq<char>>) {
    (b.0 as int, b.1.deep_view())
}

fn fenced(lines: &Vec<Vec<char>>, opens: &Vec<bool>) -> (r: Vec<(usize, Vec<Vec<char>>)>)
    requires
        opens@.len() == lines@.len(),
    ensures
        r@.map_values(|b: (usize, Vec<Vec<char>>)| block_view(b)) == fenced_blocks(lines.deep_view(), opens@),
{
    let fence = crate::text::chars_of("```");
    let mut out: Vec<(usize, Vec<Vec<char>>)> = Vec::new();
    let mut open = false;
    let mut k: usize = 0;
    let mut acc: Vec<Vec<char>> = Vec::new();
    let mut i: usize = 0;
    assert(lines.deep_view().take(0) =~= Seq::<Seq<char>>::empty());
    assert(out@.map_values(|b: (usize, Vec<Vec<char>>)| block_view(b)) =~= Seq::<(int, Seq<Seq<char>>)>::empty());
    while i < lines.len()
        invariant
            i <= lines.len(),
            opens@.len() == lines@.len(),
            fence@ == "```"@,
            k < lines.len() || !open,
            scan_fences(lines.deep_view().take(i as int), opens@) == (if open {
                Some((k as int, acc.deep_view()))
            } else {
                None
            }, out@.map_values(|b: (usize, Vec<Vec<char>>)| block_view(b))),
        decreases lines.len() - i,
    {
        let ghost pre = lines.deep_view().take(i + 1);
        assert(pre.drop_last() =~= lines.deep_view().take(i as int));
        assert(pre[i as int] == lines[i as int]@);
        let ghost before = out@.map_values(|b: (usize, Vec<Vec<char>>)| block_view(b));
        if !open {
            if opens[i] {
                open = true;
                k = i;
                acc = Vec::new();
                assert(acc.deep_view() =~= Seq::<Seq<char>>::empty());
            }
        } else if crate::text::starts_with_chars(&lines[i], &fence) {
            let mut body: Vec<Vec<char>> = Vec::new();
            std::mem::swap(&mut body, &mut acc);
            let ghost bv = body.deep_view();
            out.push((k, body));
            assert(out@.map_values(|b: (usize, Vec<Vec<char>>)| block_view(b)) =~= before.push((k as int, bv)));
            open = false;
        } else {
            let ghost av = acc.deep_view();
            let line = crate::text::slice_chars(&lines[i], 0, lines[i].len());
            assert(line@ =~= lines[i as int]@);
            assert(line.deep_view() =~= line@);
            acc.push(line);
            assert(acc.deep_view() =~= av.push(lines[i as int]@));
        }
        i = i + 1;
    }
    assert(lines.deep_view().take(i as int) =~= lines.deep_view());
    if open {
        let ghost before = out@.map_values(|b: (usize, Vec<Vec<char>>)| block_view(b));
        let ghost bv = acc.deep_view();
        out.push((k, acc));
        assert(out@.map_values(|b: (usize, Vec<Vec<char>>)| block_view(b)) =~= before.push((k as int, bv)));
    }
    out
}

fn glue_lines(ls: &Vec<Vec<char>>) -> (r: Vec<char>)
    ensures
        r@ == glue(ls.deep_view()),
{
    let mut acc: Vec<char> = Vec::new();
    let mut i: usize = 0;
    while i < ls.len()
        invariant
            i <= ls.len(),
            acc@ == glue(ls.deep_view().take(i as int)),
        decreases ls.len() - i,
    {
        let ghost pre = ls.deep_view().take(i + 1);
        assert(pre.drop_last() =~= ls.deep_view().take(i as int));
        assert(pre.last() == ls[i as int]@);
        if acc.len() > 0 {
            acc.push('\n');
        }
        crate::text::push_all(&mut acc, &ls[i]);
        i = i + 1;
    }
    assert(ls.deep_view().take(i as int) =~= ls.deep_view());
    acc
}

fn strip_all_exec(s: &Vec<char>, p: &Vec<char>) -> (r: Vec<char>)
    ensures
        r@ == strip_all(s@, p@),
{
    let mut start: usize = 0;
    assert(s@.skip(0) =~= s@);
    while p.len() > 0 && start <= s.len() && crate::text::starts_with_chars(&crate::text::slice_chars(s, start, s.len()), p)
        invariant
            start <= s.len(),
            strip_all(s@, p@) == strip_all(s@.skip(start as int), p@),
        decreases s.len() - start,
    {
        assert(s@.subrange(start as int, s.len() as int) =~= s@.skip(start as int));
        assert(s@.skip(start as int).skip(p.len() as int) =~= s@.skip(start + p.len()));
        start = start + p.len();
    }
    assert(s@.subrange(start as int, s.len() as int) =~= s@.skip(start as int));
    crate::text::slice_chars(s, start, s.len())
}

/// The file name that opens a creation block: the text after every leading
/// "```create_file:", trimmed, when the line starts with it and the name is
/// not empty.
pub open spec fn create_head(line: Seq<char>) -> Option<Seq<char>> {
    if crate::text::seq_starts_with(line, "```create_file:"@) {
        let name = crate::text::trim_seq(strip_all(line, "```create_file:"@));
        if name.len() > 0 {
            Some(name)
        } else {
            None
        }
    } else {
        None
    }
}

/// The creation blocks of a reply: each file name with its glued body.
pub open spec fn create_blocks(response: Seq<char>) -> Seq<(Seq<char>, Seq<char>)> {
    let lines = lines_of(response);
    fenced_blocks(lines, lines.map_values(|l: Seq<char>| create_head(l) is Some)).map_values(
        |b: (int, Seq<Seq<char>>)| (create_head(lines[b.0]).unwrap(), glue(b.1)),
    )
}

fn create_head_exec(line: &Vec<char>) -> (r: Option<Vec<char>>)
    ensures
        match create_head(line@) {
            Some(n) => r matches Some(v) && v@ == n,
            None => r is None,
        },
{
    let prefix = crate::text::chars_of("```create_file:");
    if !crate::text::starts_with_chars(line, &prefix) {
        return None;
    }
    let rest = strip_all_exec(line, &prefix);
    let name = crate::text::trim_chars(&rest);
    if name.len() > 0 {
        Some(name)
    } else {
        None
    }
}

fn response_lines(response: &str) -> (r: Vec<Vec<char>>)
    ensures
        r.deep_view() == lines_of(response@),
{
    let chars = crate::text::chars_of(response);
    crate::text::lines_chars(&chars)
}

/// The file creations a reply asks for in "```create_file:name" blocks: each
/// name with the block's body, in order.
pub fn parse_create_file_blocks(response: &str) -> (r: Vec<(String, String)>)
    ensures
        r@.map_values(|b: (String, String)| (b.0@, b.1@)) == create_blocks(response@),
{
    let lines = response_lines(response);
    let ghost lv = lines.deep_view();
    let mut opens: Vec<bool> = Vec::new();
    let mut i: usize = 0;
    while i < lines.len()
        invariant
            i <= lines.len(),
            lv == lines.deep_view(),
            opens@ == lv.take(i as int).map_values(|l: Seq<char>| create_head(l) is Some),
        decreases lines.len() - i,
    {
        let h = create_head_exec(&lines[i]);
        assert(lv[i as int] == lines[i as int]@);
        opens.push(h.is_some());
        assert(lv.take(i + 1).map_values(|l: Seq<char>| create_head(l) is Some) =~= lv.take(i as int).map_values(
            |l: Seq<char>| create_head(l) is Some,
        ).push(create_head(lv[i as int]) is Some));
        i = i + 1;
    }
    assert(lv.take(i as int) =~= lv);
    let blocks = fenced(&lines, &opens);
    let ghost bv = blocks@.map_values(|b: (usize, Vec<Vec<char>>)| block_view(b));
    let mut out: Vec<(String, String)> = Vec::new();
    let mut j: usize = 0;
    while j < blocks.len()
        invariant
            j <= blocks.len(),
            lv == lines.deep_view(),
            lv == lines_of(response@),
            opens@ == lv.map_values(|l: Seq<char>| create_head(l) is Some),
            bv == blocks@.map_values(|b: (usize, Vec<Vec<char>>)| block_view(b)),
            bv == fenced_blocks(lv, opens@),
            out@.map_values(|b: (String, String)| (b.0@, b.1@)) == bv.take(j as int).map_values(
                |b: (int, Seq<Seq<char>>)| (create_head(lv[b.0]).unwrap(), glue(b.1)),
            ),
        decreases blocks.len() - j,
    {
        let k = blocks[j].0;
        proof {
            lemma_fenced_heads(lv, opens@);
            assert(bv[j as int].0 == k as int);
            assert(opens@[k as int]);
            assert(lv[k as int] == lines[k as int]@);
            assert(create_head(lv[k as int]) is Some);
            assert(bv[j as int].1 == blocks[j as int].1.deep_view());
        }
        let head = create_head_exec(&lines[k]);
        let name = match head {
            Some(n) => n,
            None => Vec::new(),
        };
        let body = glue_lines(&blocks[j].1);
        let ghost before = out@.map_values(|b: (String, String)| (b.0@, b.1@));
        let item = (crate::text::string_of(&name), crate::text::string_of(&body));
        out.push(item);
        assert(out@.map_values(|b: (String, String)| (b.0@, b.1@)) =~= before.push((item.0@, item.1@)));
        assert(bv.take(j + 1) =~= bv.take(j as int).push(bv[j as int]));
        j = j + 1;
    }
    assert(bv.take(j as int) =~= bv);
    out
}

/// Every block starts at a line that opens one.
proof fn lemma_fenced_heads(lines: Seq<Seq<char>>, opens: Seq<bool>)
    requires
        opens.len() == lines.len(),
    ensures
        forall|j: int|
            0 <= j < fenced_blocks(lines, opens).len() ==> 0 <= (#[trigger] fenced_blocks(lines, opens)[j]).0
                < lines.len() && opens[fenced_blocks(lines, opens)[j].0],
{
    lemma_scan_heads(lines, opens);
}

proof fn lemma_scan_heads(lines: Seq<Seq<char>>, opens: Seq<bool>)
    requires
        opens.len() >= lines.len(),
    ensures
        ({
            let (st, out) = scan_fences(lines, opens);
            &&& forall|j: int| 0 <= j < out.len() ==> 0 <= (#[trigger] out[j]).0 < lines.len() && opens[out[j].0]
            &&& st matches Some(b) ==> 0 <= b.0 < lines.len() && opens[b.0]
        }),
    decreases lines.len(),
{
    if lines.len() > 0 {
        lemma_scan_heads(lines.drop_last(), opens);
    }
}

} // verus!

verus! {

/// The commands of the blocks, each trimmed, the empty ones left out.
pub open spec fn commands_of(bs: Seq<(int, Seq<Seq<char>>)>) -> Seq<Seq<char>>
    decreases bs.len(),
{
    if bs.len() == 0 {
        Seq::empty()
    } else {
        let c = crate::text::trim_seq(glue(bs.last().1));
        commands_of(bs.drop_last()) + if c.len() > 0 {
            seq![c]
        } else {
            Seq::empty()
        }
    }
}

/// The commands a reply asks to run in "```execute_command" blocks.
pub open spec fn command_blocks(response: Seq<char>) -> Seq<Seq<char>> {
    let lines = lines_of(response);
    commands_of(
        fenced_blocks(lines, lines.map_values(|l: Seq<char>| crate::text::seq_starts_with(l, "```execute_command"@))),
    )
}

/// The commands a reply asks to run: the trimmed body of each
/// "```execute_command" block that is not blank, in order.
pub fn parse_command_blocks(response: &str) -> (r: Vec<String>)
    ensures
        r.deep_view() == command_blocks(response@),
{
    let lines = response_lines(response);
    let ghost lv = lines.deep_view();
    let prefix = crate::text::chars_of("```execute_command");
    let mut opens: Vec<bool> = Vec::new();
    let mut i: usize = 0;
    while i < lines.len()
        invariant
            i <= lines.len(),
            lv == lines.deep_view(),
            prefix@ == "```execute_command"@,
            opens@ == lv.take(i as int).map_values(|l: Seq<char>| crate::text::seq_starts_with(l, "```execute_command"@)),
        decreases lines.len() - i,
    {
        assert(lv[i as int] == lines[i as int]@);
        opens.push(crate::text::starts_with_chars(&lines[i], &prefix));
        assert(lv.take(i + 1).map_values(|l: Seq<char>| crate::text::seq_starts_with(l, "```execute_command"@))
            =~= lv.take(i as int).map_values(|l: Seq<char>| crate::text::seq_starts_with(l, "```execute_command"@)).push(
            crate::text::seq_starts_with(lv[i as int], "```execute_command"@),
        ));
        i = i + 1;
    }
    assert(lv.take(i as int) =~= lv);
    let blocks = fenced(&lines, &opens);
    let ghost bv = blocks@.map_values(|b: (usize, Vec<Vec<char>>)| block_view(b));
    let mut out: Vec<String> = Vec::new();
    let mut j: usize = 0;
    while j < blocks.len()
        invariant
            j <= blocks.len(),
            bv == blocks@.map_values(|b: (usize, Vec<Vec<char>>)| block_view(b)),
            bv == fenced_blocks(lv, opens@),
            lv == lines_of(response@),
            opens@ == lv.map_values(|l: Seq<char>| crate::text::seq_starts_with(l, "```execute_command"@)),
            out.deep_view() == commands_of(bv.take(j as int)),
        decreases blocks.len() - j,
    {
        assert(bv.take(j + 1).drop_last() =~= bv.take(j as int));
        assert(bv[j as int].1 == blocks[j as int].1.deep_view());
        let body = glue_lines(&blocks[j].1);
        let c = crate::text::trim_chars(&body);
        if c.len() > 0 {
            let ghost before = out.deep_view();
            let s = crate::text::string_of(&c);
            out.push(s);
            assert(out.deep_view() =~= before + seq![c@]);
        } else {
            assert(commands_of(bv.take(j + 1)) =~= out.deep_view());
        }
        j = j + 1;
    }
    assert(bv.take(j as int) =~= bv);
    out
}

/// The head of an edit block "```edit_file:name:start:end": the trimmed
/// name and the two line numbers, when the header has exactly three parts,
/// the name is not empty and both numbers parse to non-zero values.
pub open spec fn edit_head(line: Seq<char>) -> Option<(Seq<char>, usize, usize)> {
    if crate::text::seq_starts_with(line, "```edit_file:"@) {
        let header = crate::text::trim_seq(strip_all(line, "```edit_file:"@));
        let parts = crate::text::split_on(header, ':');
        if parts.len() != 3 {
            None
        } else {
            let f = crate::text::trim_seq(parts[0]);
            let s = match crate::text::parse_usize_spec(crate::text::trim_seq(parts[1])) {
                Some(n) => n,
                None => 0,
            };
            let e = match crate::text::parse_usize_spec(crate::text::trim_seq(parts[2])) {
                Some(n) => n,
                None => 0,
            };
            if f.len() == 0 || s == 0 || e == 0 {
                None
            } else {
                Some((f, s, e))
            }
        }
    } else {
        None
    }
}

/// The edits a reply asks for: file, first and last line, new text.
pub open spec fn edit_blocks(response: Seq<char>) -> Seq<(Seq<char>, usize, usize, Seq<char>)> {
    let lines = lines_of(response);
    fenced_blocks(lines, lines.map_values(|l: Seq<char>| edit_head(l) is Some)).map_values(
        |b: (int, Seq<Seq<char>>)|
            {
                let h = edit_head(lines[b.0]).unwrap();
                (h.0, h.1, h.2, glue(b.1))
            },
    )
}

fn number_or_zero(v: &Vec<char>) -> (r: usize)
    ensures
        r == match crate::text::parse_usize_spec(crate::text::trim_seq(v@)) {
            Some(n) => n,
            None => 0,
        },
{
    let t = crate::text::trim_chars(v);
    match crate::text::parse_usize(&t) {
        Some(n) => n,
        None => 0,
    }
}

fn edit_head_exec(line: &Vec<char>) -> (r: Option<(Vec<char>, usize, usize)>)
    ensures
        match edit_head(line@) {
            Some(h) => r matches Some(v) && v.0@ == h.0 && v.1 == h.1 && v.2 == h.2,
            None => r is None,
        },
{
    let prefix = crate::text::chars_of("```edit_file:");
    if !crate::text::starts_with_chars(line, &prefix) {
        return None;
    }
    let rest = strip_all_exec(line, &prefix);
    let header = crate::text::trim_chars(&rest);
    let parts = crate::text::split_chars(&header, ':');
    if parts.len() != 3 {
        return None;
    }
    assert(parts.deep_view()[0] == parts[0]@);
    assert(parts.deep_view()[1] == parts[1]@);
    assert(parts.deep_view()[2] == parts[2]@);
    let f = crate::text::trim_chars(&parts[0]);
    let s = number_or_zero(&parts[1]);
    let e = number_or_zero(&parts[2]);
    if f.len() == 0 || s == 0 || e == 0 {
        None
    } else {
        Some((f, s, e))
    }
}

/// The edits a reply asks for in "```edit_file:name:start:end" blocks: the
/// file, the first and last line and the block's body, in order.
pub fn parse_edit_blocks(response: &str) -> (r: Vec<(String, usize, usize, String)>)
    ensures
        r@.map_values(|b: (String, usize, usize, String)| (b.0@, b.1, b.2, b.3@)) == edit_blocks(response@),
{
    let lines = response_lines(response);
    let ghost lv = lines.deep_view();
    let mut opens: Vec<bool> = Vec::new();
    let mut i: usize = 0;
    while i < lines.len()
        invariant
            i <= lines.len(),
            lv == lines.deep_view(),
            opens@ == lv.take(i as int).map_values(|l: Seq<char>| edit_head(l) is Some),
        decreases lines.len() - i,
    {
        let h = edit_head_exec(&lines[i]);
        assert(lv[i as int] == lines[i as int]@);
        opens.push(h.is_some());
        assert(lv.take(i + 1).map_values(|l: Seq<char>| edit_head(l) is Some) =~= lv.take(i as int).map_values(
            |l: Seq<char>| edit_head(l) is Some,
        ).push(edit_head(lv[i as int]) is Some));
        i = i + 1;
    }
    assert(lv.take(i as int) =~= lv);
    let blocks = fenced(&lines, &opens);
    let ghost bv = blocks@.map_values(|b: (usize, Vec<Vec<char>>)| block_view(b));
    let mut out: Vec<(String, usize, usize, String)> = Vec::new();
    let mut j: usize = 0;
    while j < blocks.len()
        invariant
            j <= blocks.len(),
            lv == lines.deep_view(),
            lv == lines_of(response@),
            opens@ == lv.map_values(|l: Seq<char>| edit_head(l) is Some),
            bv == blocks@.map_values(|b: (usize, Vec<Vec<char>>)| block_view(b)),
            bv == fenced_blocks(lv, opens@),
            out@.map_values(|b: (String, usize, usize, String)| (b.0@, b.1, b.2, b.3@)) == bv.take(j as int).map_values(
                |b: (int, Seq<Seq<char>>)|
                    {
                        let h = edit_head(lv[b.0]).unwrap();
                        (h.0, h.1, h.2, glue(b.1))
                    },
            ),
        decreases blocks.len() - j,
    {
        let k = blocks[j].0;
        proof {
            lemma_fenced_heads(lv, opens@);
            assert(bv[j as int].0 == k as int);
            assert(opens@[k as int]);
            assert(lv[k as int] == lines[k as int]@);
            assert(edit_head(lv[k as int]) is Some);
            assert(bv[j as int].1 == blocks[j as int].1.deep_view());
        }
        let (name, s, e) = match edit_head_exec(&lines[k]) {
            Some(h) => h,
            None => (Vec::new(), 0, 0),
        };
        let body = glue_lines(&blocks[j].1);
        let ghost before = out@.map_values(|b: (String, usize, usize, String)| (b.0@, b.1, b.2, b.3@));
        let item = (crate::text::string_of(&name), s, e, crate::text::string_of(&body));
        out.push(item);
        assert(out@.map_values(|b: (String, usize, usize, String)| (b.0@, b.1, b.2, b.3@)) =~= before.push(
            (item.0@, item.1, item.2, item.3@),
        ));
        assert(bv.take(j + 1) =~= bv.take(j as int).push(bv[j as int]));
        j = j + 1;
    }
    assert(bv.take(j as int) =~= bv);
    out
}

} // verus!

verus! {

/// Capture group 1 of the first match of a regular expression in a text, as
/// the `regex` crate finds it; `None` when the pattern does not compile,
/// nothing matches, or the group took no part in the match.
pub uninterp spec fn regex_group1(pattern: Seq<char>, text: Seq<char>) -> Option<Seq<char>>;

/// Compiles `pattern` with `regex::Regex::new` and takes group 1 of
/// `Regex::captures` on `text`; the result is named `regex_group1`.
#[verifier::external_body]
fn capture_group1(pattern: &str, text: &str) -> (r: Option<String>)
    ensures
        crate::todo::opt_view(r) == regex_group1(pattern@, text@),
{
    let re = regex::Regex::new(pattern).ok()?;
    let caps = re.captures(text)?;
    Some(caps.get(1)?.as_str().to_string())
}

/// The pattern of the completion flag: `is_finished`, optionally quoted, a
/// colon and `true` or `false`.
pub open spec fn finished_pattern() -> Seq<char> {
    "\"?is_finished\"?\\s*:\\s*(true|false)"@
}

/// The flag a captured word stands for.
pub open spec fn flag_of(capture: Option<Seq<char>>) -> Option<bool> {
    match capture {
        Some(w) => if w == "true"@ {
            Some(true)
        } else if w == "false"@ {
            Some(false)
        } else {
            None
        },
        None => None,
    }
}

/// The flag a captured word stands for: "true" and "false" give the value,
/// anything else none.
pub fn finished_flag(capture: Option<String>) -> (r: Option<bool>)
    ensures
        r == flag_of(crate::todo::opt_view(capture)),
{
    match capture {
        Some(w) => if crate::text::str_eq(w.as_str(), "true") {
            Some(true)
        } else if crate::text::str_eq(w.as_str(), "false") {
            Some(false)
        } else {
            None
        },
        None => None,
    }
}

/// The completion flag a reply states ("is_finished: true" or as JSON).
pub fn extract_is_finished_flag(text: &str) -> (r: Option<bool>)
    ensures
        r == flag_of(regex_group1(finished_pattern(), text@)),
{
    let cap = capture_group1("\"?is_finished\"?\\s*:\\s*(true|false)", text);
    finished_flag(cap)
}

/// The prompt of a step of the chat loop: the message and a request to name
/// the next task and to state the completion flag.
pub open spec fn chat_loop_prompt_text(message: Seq<char>) -> Seq<char> {
    message + "\n\n---\n次に何をすべきか、追加タスクがあるかを必ず明示してください。\nis_finished: true/false のJSONフラグを必ず返してください。"@
}

/// The prompt of a step of the chat loop.
pub fn chat_loop_prompt(message: &str) -> (r: String)
    ensures
        r@ == chat_loop_prompt_text(message@),
{
    let mut v = crate::text::chars_of(message);
    crate::text::push_str_chars(&mut v, "\n\n---\n次に何をすべきか、追加タスクがあるかを必ず明示してください。\nis_finished: true/false のJSONフラグを必ず返してください。");
    crate::text::string_of(&v)
}

/// Whether the chat loop ends after a reply: it states that it is finished.
pub fn chat_loop_done(response: &str) -> (r: bool)
    ensures
        r == (flag_of(regex_group1(finished_pattern(), response@)) == Some(true)),
{
    match extract_is_finished_flag(response) {
        Some(b) => b,
        None => false,
    }
}

/// The endpoint of a generation request for a model and key.
pub open spec fn request_url_text(model: Seq<char>, key: Seq<char>) -> Seq<char> {
    "https://generativelanguage.googleapis.com/v1beta/models/"@ + model + ":generateContent?key="@ + key
}

/// The endpoint of a generation request for a model and key.
pub fn request_url(model: &str, key: &str) -> (r: String)
    ensures
        r@ == request_url_text(model@, key@),
{
    let mut v = crate::text::chars_of("https://generativelanguage.googleapis.com/v1beta/models/");
    crate::text::push_str_chars(&mut v, model);
    crate::text::push_str_chars(&mut v, ":generateContent?key=");
    crate::text::push_str_chars(&mut v, key);
    crate::text::string_of(&v)
}

/// Whether a request is sent again (after three seconds): when it could
/// not be sent (`None`) or was answered with status 429.
pub fn should_retry(status: Option<u16>) -> (r: bool)
    ensures
        r == match status {
            Some(s) => s == 429,
            None => true,
        },
{
    match status {
        Some(s) => s == 429,
        None => true,
    }
}

/// A part of a model reply.
#[derive(Debug)]
pub enum ResponsePart {
    Text(String),
    FunctionCall(FunctionCall),
}

/// The content of a reply candidate.
#[derive(Debug)]
pub struct ResponseContent {
    pub parts: Vec<ResponsePart>,
}

/// One reply candidate.
#[derive(Debug)]
pub struct Candidate {
    pub content: ResponseContent,
}

/// A decoded model reply.
#[derive(Debug)]
pub struct GeminiResponse {
    pub candidates: Vec<Candidate>,
}

/// Why a reply gave no answer.
#[derive(Debug)]
pub enum ApiError {
    /// The reply text mentions "error".
    Api(String),
    /// The reply could not be decoded.
    Decode(String),
    /// The reply has no candidate or no part.
    NoResponse,
}

/// The answer in a reply: an error when its text mentions "error", a decode
/// error, no answer when there is no candidate or part, else the first
/// part of the first candidate.
pub fn interpret_response(response_text: &str, parsed: Result<GeminiResponse, String>) -> (r: Result<ResponsePart, ApiError>)
    ensures
        crate::text::seq_contains(response_text@, "error"@) ==> (r matches Err(ApiError::Api(t)) && t@ == response_text@),
        !crate::text::seq_contains(response_text@, "error"@) ==> match parsed {
            Err(e) => r matches Err(ApiError::Decode(d)) && d@ == e@,
            Ok(g) => if g.candidates@.len() > 0 && g.candidates@[0].content.parts@.len() > 0 {
                r matches Ok(p) && p == g.candidates@[0].content.parts@[0]
            } else {
                r matches Err(ApiError::NoResponse)
            },
        },
{
    if crate::text::contains_str(response_text, "error") {
        return Err(ApiError::Api(crate::text::to_owned_string(response_text)));
    }
    match parsed {
        Err(e) => Err(ApiError::Decode(e)),
        Ok(mut g) => {
            if g.candidates.len() > 0 {
                let mut first = g.candidates.remove(0);
                if first.content.parts.len() > 0 {
                    Ok(first.content.parts.remove(0))
                } else {
                    Err(ApiError::NoResponse)
                }
            } else {
                Err(ApiError::NoResponse)
            }
        },
    }
}

/// Bold markup is left as it is: the text unchanged.
pub fn format_bold_text(text: &str) -> (r: String)
    ensures
        r@ == text@,
{
    crate::text::to_owned_string(text)
}

} // verus!

verus! {

/// The file name of a creation block read by lines: the text after one
/// "```create_file:", trimmed, when not empty.
pub open spec fn manual_head(line: Seq<char>) -> Option<Seq<char>> {
    if crate::text::seq_starts_with(line, "```create_file:"@) {
        let name = crate::text::trim_seq(line.skip("```create_file:"@.len() as int));
        if name.len() > 0 {
            Some(name)
        } else {
            None
        }
    } else {
        None
    }
}

/// The creation blocks of a reply read by lines: each name with the body
/// lines joined by line feeds.
pub open spec fn manual_blocks(response: Seq<char>) -> Seq<(Seq<char>, Seq<char>)> {
    let lines = lines_of(response);
    fenced_blocks(lines, lines.map_values(|l: Seq<char>| manual_head(l) is Some)).map_values(
        |b: (int, Seq<Seq<char>>)| (manual_head(lines[b.0]).unwrap(), crate::text::join_seq(b.1, "\n"@)),
    )
}

fn manual_head_exec(line: &Vec<char>) -> (r: Option<Vec<char>>)
    ensures
        match manual_head(line@) {
            Some(n) => r matches Some(v) && v@ == n,
            None => r is None,
        },
{
    let prefix = crate::text::chars_of("```create_file:");
    if !crate::text::starts_with_chars(line, &prefix) {
        return None;
    }
    let rest = crate::text::slice_chars(line, prefix.len(), line.len());
    assert(rest@ =~= line@.skip(prefix@.len() as int));
    let name = crate::text::trim_chars(&rest);
    if name.len() > 0 {
        Some(name)
    } else {
        None
    }
}

fn join_lines(ls: &Vec<Vec<char>>) -> (r: Vec<char>)
    ensures
        r@ == crate::text::join_seq(ls.deep_view(), "\n"@),
{
    let nl = crate::text::chars_of("\n");
    let mut out: Vec<char> = Vec::new();
    let mut i: usize = 0;
    while i < ls.len()
        invariant
            i <= ls.len(),
            nl@ == "\n"@,
            out@ == crate::text::join_seq(ls.deep_view().take(i as int), "\n"@),
        decreases ls.len() - i,
    {
        if i > 0 {
            crate::text::push_all(&mut out, &nl);
        }
        crate::text::push_all(&mut out, &ls[i]);
        proof {
            let l = ls.deep_view().take(i + 1);
            assert(l.drop_last() =~= ls.deep_view().take(i as int));
            assert(ls.deep_view()[i as int] =~= ls[i as int]@);
            assert(l.last() == ls[i as int]@);
            if i == 0 {
                assert(out@ =~= l[0]);
            }
        }
        i = i + 1;
    }
    assert(ls.deep_view().take(i as int) =~= ls.deep_view());
    out
}

/// The creation blocks of a reply read line by line: "```create_file:" and
/// a name opens a block, whose lines up to the next fence are its content.
pub fn parse_manual_blocks(response: &str) -> (r: Vec<(String, String)>)
    ensures
        r@.map_values(|b: (String, String)| (b.0@, b.1@)) == manual_blocks(response@),
{
    let lines = response_lines(response);
    let ghost lv = lines.deep_view();
    let mut opens: Vec<bool> = Vec::new();
    let mut i: usize = 0;
    while i < lines.len()
        invariant
            i <= lines.len(),
            lv == lines.deep_view(),
            opens@ == lv.take(i as int).map_values(|l: Seq<char>| manual_head(l) is Some),
        decreases lines.len() - i,
    {
        let h = manual_head_exec(&lines[i]);
        assert(lv[i as int] == lines[i as int]@);
        opens.push(h.is_some());
        assert(lv.take(i + 1).map_values(|l: Seq<char>| manual_head(l) is Some) =~= lv.take(i as int).map_values(
            |l: Seq<char>| manual_head(l) is Some,
        ).push(manual_head(lv[i as int]) is Some));
        i = i + 1;
    }
    assert(lv.take(i as int) =~= lv);
    let blocks = fenced(&lines, &opens);
    let ghost bv = blocks@.map_values(|b: (usize, Vec<Vec<char>>)| block_view(b));
    let mut out: Vec<(String, String)> = Vec::new();
    let mut j: usize = 0;
    while j < blocks.len()
        invariant
            j <= blocks.len(),
            lv == lines.deep_view(),
            lv == lines_of(response@),
            opens@ == lv.map_values(|l: Seq<char>| manual_head(l) is Some),
            bv == blocks@.map_values(|b: (usize, Vec<Vec<char>>)| block_view(b)),
            bv == fenced_blocks(lv, opens@),
            out@.map_values(|b: (String, String)| (b.0@, b.1@)) == bv.take(j as int).map_values(
                |b: (int, Seq<Seq<char>>)| (manual_head(lv[b.0]).unwrap(), crate::text::join_seq(b.1, "\n"@)),
            ),
        decreases blocks.len() - j,
    {
        let k = blocks[j].0;
        proof {
            lemma_fenced_heads(lv, opens@);
            assert(bv[j as int].0 == k as int);
            assert(opens@[k as int]);
            assert(lv[k as int] == lines[k as int]@);
            assert(manual_head(lv[k as int]) is Some);
            assert(bv[j as int].1 == blocks[j as int].1.deep_view());
        }
        let name = match manual_head_exec(&lines[k]) {
            Some(n) => n,
            None => Vec::new(),
        };
        let body = join_lines(&blocks[j].1);
        let ghost before = out@.map_values(|b: (String, String)| (b.0@, b.1@));
        let item = (crate::text::string_of(&name), crate::text::string_of(&body));
        out.push(item);
        assert(out@.map_values(|b: (String, String)| (b.0@, b.1@)) =~= before.push((item.0@, item.1@)));
        assert(bv.take(j + 1) =~= bv.take(j as int).push(bv[j as int]));
        j = j + 1;
    }
    assert(bv.take(j as int) =~= bv);
    out
}

} // verus!

verus! {

/// Every chat request opens with the instructions and ends with the user's
/// message, the earlier turns in between.
pub proof fn law_chat_frame(context: Seq<ContentView>, message: Seq<char>)
    ensures
        chat_turns(context, message).len() == context.len() + 2,
        chat_turns(context, message)[0] == turn("user"@, system_prompt_text()),
        chat_turns(context, message).last() == turn("user"@, message),
        chat_turns(context, message).subrange(1, (context.len() + 1) as int) == context,
{
    assert(chat_turns(context, message).subrange(1, (context.len() + 1) as int) =~= context);
}

/// The flag words read as flags: "true" finishes, "false" does not, and
/// nothing else is a flag.
pub proof fn law_flag_words(w: Seq<char>)
    ensures
        flag_of(Some(w)) == Some(true) <==> w == "true"@,
        flag_of(Some(w)) == Some(false) <==> w == "false"@,
        flag_of(None) is None,
{
    reveal_strlit("true");
    reveal_strlit("false");
    assert("true"@.len() != "false"@.len());
}

} // verus!
