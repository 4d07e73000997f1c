//! Tools whose work is done by a function of the host: what is announced, what
//! is handed over, and what comes of the reply.

use crate::json::{
    as_bool, as_str, copy_value, get, json, json_bool, json_text, member, parse, parsed,
    write_value, written, Json,
};
use crate::text::{
    decimal, decimal_text, find_nul, fits_c_string, is_c_string, nul_position, read_c_text,
    str_text, utf8_text,
};
use serde_json::Value;
use vstd::prelude::*;
use vstd::utf8::{encode_utf8, encode_utf8_decode_utf8, encode_utf8_valid_utf8, valid_utf8};

verus! {

/// A tool whose execution is delegated to a function of the host.
pub struct FFITool<U, D, X> {
    pub name: String,
    pub description: String,
    pub parameters_schema: Value,
    /// The host function that does the work.
    pub execute_fn: X,
    /// What the host wants back with every call.
    pub user_data: D,
    /// Called before the work is done, so that it can be shown.
    pub on_tool_use: Option<U>,
}

/// A tool with its texts.
pub struct ToolView<U, D, X> {
    pub name: Seq<char>,
    pub description: Seq<char>,
    pub parameters_schema: Value,
    pub execute_fn: X,
    pub user_data: D,
    pub on_tool_use: Option<U>,
}

impl<U, D, X> View for FFITool<U, D, X> {
    type V = ToolView<U, D, X>;

    open spec fn view(&self) -> ToolView<U, D, X> {
        ToolView {
            name: self.name@,
            description: self.description@,
            parameters_schema: self.parameters_schema,
            execute_fn: self.execute_fn,
            user_data: self.user_data,
            on_tool_use: self.on_tool_use,
        }
    }
}

/// The views of a list of tools.
pub open spec fn tool_views<U, D, X>(tools: Seq<FFITool<U, D, X>>) -> Seq<ToolView<U, D, X>> {
    Seq::new(tools.len(), |i: int| tools[i]@)
}

/// Gives every tool of a list the same user data.
pub(crate) fn pass_on_user_data<U, D: Copy, X>(tools: &mut Vec<FFITool<U, D, X>>, user_data: D)
    ensures
        tool_views(final(tools)@) == Seq::new(
            old(tools)@.len(),
            |i: int| ToolView { user_data, ..old(tools)@[i]@ },
        ),
{
    let ghost before = tools@;
    let mut i: usize = 0;
    while i < tools.len()
        invariant
            i <= tools@.len(),
            tools@.len() == before.len(),
            forall|j: int|
                0 <= j < i ==> (#[trigger] tools@[j])@ == (ToolView {
                    user_data,
                    ..before[j]@
                }),
            forall|j: int| i <= j < before.len() ==> #[trigger] tools@[j] == before[j],
        decreases tools@.len() - i,
    {
        tools[i].user_data = user_data;
        i += 1;
    }
    assert(tool_views(tools@) =~= Seq::new(
        before.len(),
        |i: int| ToolView { user_data, ..before[i]@ },
    ));
}

/// Gives every tool of a list the same tool use callback.
pub(crate) fn pass_on_tool_use<U: Copy, D, X>(
    tools: &mut Vec<FFITool<U, D, X>>,
    callback: Option<U>,
)
    ensures
        tool_views(final(tools)@) == Seq::new(
            old(tools)@.len(),
            |i: int| ToolView { on_tool_use: callback, ..old(tools)@[i]@ },
        ),
{
    let ghost before = tools@;
    let mut i: usize = 0;
    while i < tools.len()
        invariant
            i <= tools@.len(),
            tools@.len() == before.len(),
            forall|j: int|
                0 <= j < i ==> (#[trigger] tools@[j])@ == (ToolView {
                    on_tool_use: callback,
                    ..before[j]@
                }),
            forall|j: int| i <= j < before.len() ==> #[trigger] tools@[j] == before[j],
        decreases tools@.len() - i,
    {
        tools[i].on_tool_use = callback;
        i += 1;
    }
    assert(tool_views(tools@) =~= Seq::new(
        before.len(),
        |i: int| ToolView { on_tool_use: callback, ..before[i]@ },
    ));
}

/// What a tool gives back to the agent.
#[derive(Debug, PartialEq, Eq)]
pub struct ToolResult {
    pub content: String,
    pub is_error: bool,
}

/// A result as text.
pub struct ToolResultView {
    pub content: Seq<char>,
    pub is_error: bool,
}

impl View for ToolResult {
    type V = ToolResultView;

    open spec fn view(&self) -> ToolResultView {
        ToolResultView { content: self.content@, is_error: self.is_error }
    }
}

/// Why a tool call cannot be handed to the host.
#[derive(Debug, Clone, Copy, PartialEq, Eq, Structural)]
pub enum ToolCallError {
    /// The arguments cannot be written as JSON.
    Arguments,
    /// The name or the arguments hold a NUL, the first one at this byte.
    Nul(usize),
}

impl ToolCallError {
    /// The error in words.
    pub fn message(&self) -> (s: String)
        ensures
            s@ == (match self {
                ToolCallError::Arguments => "arguments cannot be written as JSON"@,
                ToolCallError::Nul(at) => "nul byte found in provided data at position: "@
                    + decimal(*at as nat),
            }),
    {
        match self {
            ToolCallError::Arguments => "arguments cannot be written as JSON".to_owned(),
            ToolCallError::Nul(at) => {
                let mut s = "nul byte found in provided data at position: ".to_owned();
                s.append(decimal_text(*at as u64).as_str());
                s
            },
        }
    }
}

/// The two texts of a call.
#[derive(Debug, PartialEq, Eq)]
pub struct ToolCall {
    /// Name of the tool.
    pub name: String,
    /// Its arguments, as JSON.
    pub args: String,
}

/// The two texts of a call.
pub struct ToolCallView {
    pub name: Seq<char>,
    pub args: Seq<char>,
}

impl View for ToolCall {
    type V = ToolCallView;

    open spec fn view(&self) -> ToolCallView {
        ToolCallView { name: self.name@, args: self.args@ }
    }
}

impl ToolCallView {
    /// Both texts can be handed over as C strings.
    pub open spec fn fits(self) -> bool {
        fits_c_string(self.name) && fits_c_string(self.args)
    }
}

/// What is announced before a call: nothing if nobody listens or a text has a
/// NUL. Arguments that cannot be written are announced as empty text.
pub open spec fn announced<U, D, X>(
    tool: ToolView<U, D, X>,
    args: Option<Seq<char>>,
) -> Option<ToolCallView> {
    let call = ToolCallView {
        name: tool.name,
        args: match args {
            Some(text) => text,
            None => Seq::empty(),
        },
    };
    if tool.on_tool_use is Some && call.fits() {
        Some(call)
    } else {
        None
    }
}

/// What is handed to the host, or why nothing is.
pub open spec fn handed_over(name: Seq<char>, args: Option<Seq<char>>) -> Result<
    ToolCallView,
    ToolCallError,
> {
    match args {
        Some(text) => if !fits_c_string(name) {
            Err(ToolCallError::Nul(nul_position(name) as usize))
        } else if !fits_c_string(text) {
            Err(ToolCallError::Nul(nul_position(text) as usize))
        } else {
            Ok(ToolCallView { name, args: text })
        },
        None => Err(ToolCallError::Arguments),
    }
}

/// The result that a reply stands for, given what its members `content` and
/// `is_error` say, if they say anything: without a content the reply itself is
/// the content, and it is no error unless it says so.
pub open spec fn result_from(
    reply: Seq<char>,
    content: Option<Seq<char>>,
    is_error: Option<bool>,
) -> ToolResultView {
    ToolResultView {
        content: match content {
            Some(text) => text,
            None => reply,
        },
        is_error: is_error == Some(true),
    }
}

/// The text of a member of a document, if it is a string.
pub open spec fn text_member(document: Option<Value>, key: Seq<char>) -> Option<Seq<char>> {
    match document {
        Some(value) => match member(json(value), key) {
            Some(m) => json_text(m),
            None => None,
        },
        None => None,
    }
}

/// The value of a member of a document, if it is a boolean.
pub open spec fn bool_member(document: Option<Value>, key: Seq<char>) -> Option<bool> {
    match document {
        Some(value) => match member(json(value), key) {
            Some(m) => json_bool(m),
            None => None,
        },
        None => None,
    }
}

/// The result of a text that the host replied with.
pub open spec fn text_result(reply: Seq<char>) -> ToolResultView {
    result_from(
        reply,
        text_member(parsed(reply), "content"@),
        bool_member(parsed(reply), "is_error"@),
    )
}

/// The result of what the host replied with: a null pointer is an error, and
/// bytes that are no text stand for a fixed one.
pub open spec fn reply_result(reply: Option<Seq<u8>>) -> ToolResultView {
    match reply {
        Some(bytes) => match utf8_text(bytes) {
            Some(text) => text_result(text),
            None => text_result("Tool execution failed"@),
        },
        None => ToolResultView { content: "Tool execution returned null"@, is_error: true },
    }
}

/// The bytes of an optional slice.
pub open spec fn slice_bytes(reply: Option<&[u8]>) -> Option<Seq<u8>> {
    match reply {
        Some(bytes) => Some(bytes@),
        None => None,
    }
}

/// The bytes of an optional vector.
pub open spec fn vec_bytes(reply: Option<Vec<u8>>) -> Option<Seq<u8>> {
    match reply {
        Some(bytes) => Some(bytes@),
        None => None,
    }
}

/// The host was told of a call with these texts, and `told` came back.
pub open spec fn was_announced<U, D, N, A: FnOnce(U, D, &ToolCall) -> N>(
    announce: A,
    callback: U,
    user_data: D,
    texts: ToolCallView,
    told: N,
) -> bool {
    exists|call: ToolCall|
        call@ == texts && #[trigger] announce.ensures((callback, user_data, &call), told)
}

/// The host function was called with these texts and with what came back from the
/// announcement, and `reply` came back.
pub open spec fn was_run<
    D,
    X,
    N,
    R: FnOnce(X, D, &ToolCall, Option<N>) -> Option<Vec<u8>>,
>(
    run: R,
    execute_fn: X,
    user_data: D,
    texts: ToolCallView,
    told: Option<N>,
    reply: Option<Vec<u8>>,
) -> bool {
    exists|call: ToolCall|
        call@ == texts && #[trigger] run.ensures((execute_fn, user_data, &call, told), reply)
}

impl ToolResult {
    /// A result that is an error.
    pub fn error(content: &str) -> (r: ToolResult)
        ensures
            r@ == (ToolResultView { content: content@, is_error: true }),
    {
        ToolResult { content: content.to_owned(), is_error: true }
    }

    /// A result that is none.
    pub fn success(content: &str) -> (r: ToolResult)
        ensures
            r@ == (ToolResultView { content: content@, is_error: false }),
    {
        ToolResult { content: content.to_owned(), is_error: false }
    }

    /// The result that a reply stands for, given what its members say.
    pub fn from_members(reply: &str, content: Option<&str>, is_error: Option<bool>) -> (r:
        ToolResult)
        ensures
            r@ == result_from(
                reply@,
                str_text(content),
                is_error,
            ),
    {
        let content = match content {
            Some(text) => text,
            None => reply,
        };
        let failed = match is_error {
            Some(flag) => flag,
            None => false,
        };
        if failed {
            ToolResult::error(content)
        } else {
            ToolResult::success(content)
        }
    }

    /// The result of a text that the host replied with.
    pub fn from_text(reply: &str) -> (r: ToolResult)
        ensures
            r@ == text_result(reply@),
    {
        match parse(reply) {
            Some(value) => {
                let content = match get(&value, "content") {
                    Some(m) => as_str(m),
                    None => None,
                };
                let is_error = match get(&value, "is_error") {
                    Some(m) => as_bool(m),
                    None => None,
                };
                ToolResult::from_members(reply, content, is_error)
            },
            None => ToolResult::from_members(reply, None, None),
        }
    }

    /// The result of what the host replied with: the bytes of a C string, or
    /// nothing for a null pointer.
    pub fn from_reply(reply: Option<&[u8]>) -> (r: ToolResult)
        ensures
            r@ == reply_result(slice_bytes(reply)),
    {
        match reply {
            None => ToolResult::error("Tool execution returned null"),
            Some(_) => match read_c_text(reply) {
                Some(text) => ToolResult::from_text(text.as_str()),
                None => ToolResult::from_text("Tool execution failed"),
            },
        }
    }
}

impl<U, D, X> FFITool<U, D, X> {
    /// Name of the tool.
    pub fn name(&self) -> (r: &str)
        ensures
            r@ == self@.name,
    {
        self.name.as_str()
    }

    /// What the tool is for.
    pub fn description(&self) -> (r: &str)
        ensures
            r@ == self@.description,
    {
        self.description.as_str()
    }

    /// What is announced before a call, given the arguments as text.
    pub fn announcement_of(&self, args: Option<&str>) -> (r: Option<ToolCall>)
        ensures
            match r {
                Some(call) => announced(
                    self@,
                    str_text(args),
                ) == Some(call@),
                None => announced(
                    self@,
                    str_text(args),
                ) is None,
            },
    {
        if self.on_tool_use.is_none() {
            return None;
        }
        let args = match args {
            Some(text) => text.to_owned(),
            None => String::new(),
        };
        if is_c_string(self.name.as_str()) && is_c_string(args.as_str()) {
            Some(ToolCall { name: self.name.clone(), args })
        } else {
            None
        }
    }

    /// What is handed to the host, given the arguments as text.
    pub fn call_of(&self, args: Option<&str>) -> (r: Result<ToolCall, ToolCallError>)
        ensures
            match r {
                Ok(call) => handed_over(
                    self@.name,
                    str_text(args),
                ) == Ok::<ToolCallView, ToolCallError>(call@),
                Err(e) => handed_over(
                    self@.name,
                    str_text(args),
                ) == Err::<ToolCallView, ToolCallError>(e),
            },
    {
        match args {
            Some(text) => match (find_nul(self.name.as_str()), find_nul(text)) {
                (Some(at), _) => Err(ToolCallError::Nul(at)),
                (None, Some(at)) => Err(ToolCallError::Nul(at)),
                (None, None) => Ok(
                    ToolCall { name: self.name.clone(), args: text.to_owned() },
                ),
            },
            None => Err(ToolCallError::Arguments),
        }
    }

    /// The JSON Schema of the parameters.
    pub fn parameters_schema(&self) -> (r: Value)
        ensures
            r == self@.parameters_schema,
    {
        copy_value(&self.parameters_schema)
    }

    /// What is announced before a call with these arguments.
    pub fn announcement(&self, args: &Value) -> (r: Option<ToolCall>)
        ensures
            match r {
                Some(call) => announced(self@, Some(written(*args))) == Some(call@),
                None => announced(self@, Some(written(*args))) is None,
            },
    {
        match write_value(args) {
            Some(text) => self.announcement_of(Some(text.as_str())),
            None => self.announcement_of(None),
        }
    }

    /// What is handed to the host for a call with these arguments.
    pub fn call(&self, args: &Value) -> (r: Result<ToolCall, ToolCallError>)
        ensures
            match r {
                Ok(call) => handed_over(self@.name, Some(written(*args))) == Ok::<
                    ToolCallView,
                    ToolCallError,
                >(call@),
                Err(e) => handed_over(self@.name, Some(written(*args))) == Err::<
                    ToolCallView,
                    ToolCallError,
                >(e),
            },
            r is Ok <==> fits_c_string(self@.name),
            r is Err ==> r->Err_0 == ToolCallError::Nul(nul_position(self@.name) as usize),
    {
        match write_value(args) {
            Some(text) => self.call_of(Some(text.as_str())),
            None => self.call_of(None),
        }
    }
}

impl<U: Copy, D: Copy, X: Copy> FFITool<U, D, X> {
    /// Runs the tool with these arguments. `announce` tells the host of the call
    /// through its callback; `run` hands the call to the host function and gives
    /// back the bytes of the reply, or nothing for a null pointer. What `announce`
    /// gives back goes to `run`, so the announcement comes first. Neither is called
    /// in any other way, nor at all if the name holds a NUL.
    pub fn execute<
        N,
        A: FnOnce(U, D, &ToolCall) -> N,
        R: FnOnce(X, D, &ToolCall, Option<N>) -> Option<Vec<u8>>,
    >(&self, args: &Value, announce: A, run: R) -> (r: Result<ToolResult, ToolCallError>)
        requires
            forall|callback: U, data: D, call: &ToolCall|
                {
                    &&& self.on_tool_use == Some(callback)
                    &&& data == self.user_data
                    &&& call@ == (ToolCallView { name: self@.name, args: written(*args) })
                    &&& call@.fits()
                } ==> #[trigger] announce.requires((callback, data, call)),
            forall|function: X, data: D, call: &ToolCall, told: Option<N>|
                {
                    &&& function == self.execute_fn
                    &&& data == self.user_data
                    &&& call@ == (ToolCallView { name: self@.name, args: written(*args) })
                    &&& call@.fits()
                    &&& told is Some <==> self.on_tool_use is Some
                } ==> #[trigger] run.requires((function, data, call, told)),
        ensures
            r is Ok <==> fits_c_string(self@.name),
            match r {
                Ok(result) => exists|told: Option<N>, reply: Option<Vec<u8>>|
                    {
                        &&& #[trigger] was_run(
                            run,
                            self.execute_fn,
                            self.user_data,
                            ToolCallView { name: self@.name, args: written(*args) },
                            told,
                            reply,
                        )
                        &&& match self.on_tool_use {
                            Some(callback) => told is Some && was_announced(
                                announce,
                                callback,
                                self.user_data,
                                ToolCallView { name: self@.name, args: written(*args) },
                                told->0,
                            ),
                            None => told is None,
                        }
                        &&& result@ == reply_result(vec_bytes(reply))
                    },
                Err(e) => e == ToolCallError::Nul(nul_position(self@.name) as usize),
            },
    {
        let told: Option<N> = match (self.on_tool_use, self.announcement(args)) {
            (Some(callback), Some(call)) => {
                let n = announce(callback, self.user_data, &call);
                assert(was_announced(announce, callback, self.user_data, call@, n));
                Some(n)
            },
            _ => None,
        };
        let call = match self.call(args) {
            Ok(call) => call,
            Err(e) => return Err(e),
        };
        let ghost token = told;
        let reply = run(self.execute_fn, self.user_data, &call, told);
        let result = match &reply {
            Some(bytes) => ToolResult::from_reply(Some(bytes.as_slice())),
            None => ToolResult::from_reply(None),
        };
        assert(was_run(run, self.execute_fn, self.user_data, call@, token, reply));
        Ok(result)
    }
}

/// A reply that is not JSON is the content of a result that is no error.
pub proof fn law_plain_reply_is_content(reply: Seq<char>)
    requires
        parsed(reply) is None,
    ensures
        text_result(reply) == (ToolResultView { content: reply, is_error: false }),
{
}

/// A reply with a string as `content` and a boolean as `is_error` is taken at
/// its word.
pub proof fn law_reply_members_are_taken(reply: Seq<char>, content: Seq<char>, is_error: bool)
    requires
        text_member(parsed(reply), "content"@) == Some(content),
        bool_member(parsed(reply), "is_error"@) == Some(is_error),
    ensures
        text_result(reply) == (ToolResultView { content, is_error }),
{
}

/// Whatever is handed to the host for a call was announced in the same words
/// before, if anybody listens.
pub proof fn law_call_is_announced<U, D, X>(tool: ToolView<U, D, X>, args: Option<Seq<char>>)
    requires
        tool.on_tool_use is Some,
        handed_over(tool.name, args) is Ok,
    ensures
        announced(tool, args) == Some(handed_over(tool.name, args)->Ok_0),
{
}

/// What a reply that is a JSON object stands for: a string as its `content` is the
/// content, whole, and without one the reply itself is; it is an error exactly if its
/// `is_error` is true.
pub proof fn law_reply_object_is_taken(
    reply: Seq<char>,
    members: Map<Seq<char>, Json>,
    content: Seq<char>,
)
    requires
        parsed(reply) is Some,
        json(parsed(reply)->0) == Json::Object(members),
    ensures
        members.contains_key("content"@) && members["content"@] == Json::Text(content)
            ==> text_result(reply).content == content,
        !members.contains_key("content"@) || !(members["content"@] is Text) ==> text_result(
            reply,
        ).content == reply,
        text_result(reply).is_error <==> members.contains_key("is_error"@)
            && members["is_error"@] == Json::Bool(true),
{
}

/// A reply that is no JSON object stands for itself, whole, and is no error.
pub proof fn law_other_reply_is_content(reply: Seq<char>)
    requires
        parsed(reply) is None || !(json(parsed(reply)->0) is Object),
    ensures
        text_result(reply).content == reply,
        !text_result(reply).is_error,
{
}

/// The members of a reply decide of its result: the content that they give, or else
/// the reply itself, whole; and an error only if they say so.
pub proof fn law_members_decide(reply: Seq<char>, content: Seq<char>, is_error: bool)
    ensures
        result_from(reply, Some(content), Some(is_error)).content == content,
        result_from(reply, Some(content), None).content == content,
        result_from(reply, None, Some(is_error)).content == reply,
        result_from(reply, None, None).content == reply,
        result_from(reply, Some(content), Some(is_error)).is_error == is_error,
        result_from(reply, None, Some(is_error)).is_error == is_error,
        !result_from(reply, Some(content), None).is_error,
        !result_from(reply, None, None).is_error,
{
}

/// What comes of the bytes of a reply: those of a text stand for the text, others for
/// a fixed one, and a null pointer is an error.
pub proof fn law_reply_bytes_are_read(text: Seq<char>, bytes: Seq<u8>)
    ensures
        reply_result(Some(encode_utf8(text))) == text_result(text),
        !valid_utf8(bytes) ==> reply_result(Some(bytes)) == text_result("Tool execution failed"@),
        reply_result(None).content == "Tool execution returned null"@,
        reply_result(None).is_error,
{
    encode_utf8_valid_utf8(text);
    encode_utf8_decode_utf8(text);
}

/// A call is announced exactly if somebody listens and neither text holds a NUL, and
/// then with the name of the tool and the arguments as they are.
pub proof fn law_what_is_announced<U, D, X>(tool: ToolView<U, D, X>, args: Seq<char>)
    ensures
        announced(tool, Some(args)) is Some <==> tool.on_tool_use is Some && !tool.name.contains(
            '\0',
        ) && !args.contains('\0'),
        announced(tool, Some(args)) is Some ==> {
            &&& announced(tool, Some(args))->0.name == tool.name
            &&& announced(tool, Some(args))->0.args == args
        },
        announced(tool, None) is Some <==> tool.on_tool_use is Some && !tool.name.contains('\0'),
        announced(tool, None) is Some ==> {
            &&& announced(tool, None)->0.name == tool.name
            &&& announced(tool, None)->0.args.len() == 0
        },
{
}

/// A call is handed over exactly if there are arguments and neither text holds a NUL,
/// and then with the name and the arguments as they are; else the first NUL of the
/// name, or of the arguments, is told.
pub proof fn law_what_is_handed_over(name: Seq<char>, args: Seq<char>)
    ensures
        handed_over(name, Some(args)) is Ok <==> !name.contains('\0') && !args.contains('\0'),
        handed_over(name, Some(args)) is Ok ==> {
            &&& handed_over(name, Some(args))->Ok_0.name == name
            &&& handed_over(name, Some(args))->Ok_0.args == args
        },
        name.contains('\0') ==> handed_over(name, Some(args)) == Err::<
            ToolCallView,
            ToolCallError,
        >(ToolCallError::Nul(nul_position(name) as usize)),
        !name.contains('\0') && args.contains('\0') ==> handed_over(name, Some(args)) == Err::<
            ToolCallView,
            ToolCallError,
        >(ToolCallError::Nul(nul_position(args) as usize)),
        handed_over(name, None) == Err::<ToolCallView, ToolCallError>(ToolCallError::Arguments),
{
}

/// An announcement is a call of `announce`, and a run a call of `run`, with just these
/// texts.
pub proof fn law_host_gets_the_texts<
    U,
    D,
    X,
    N,
    A: FnOnce(U, D, &ToolCall) -> N,
    R: FnOnce(X, D, &ToolCall, Option<N>) -> Option<Vec<u8>>,
>(
    announce: A,
    run: R,
    callback: U,
    execute_fn: X,
    user_data: D,
    texts: ToolCallView,
    told: N,
    token: Option<N>,
    reply: Option<Vec<u8>>,
)
    ensures
        was_announced(announce, callback, user_data, texts, told) ==> exists|call: ToolCall|
            {
                &&& #[trigger] announce.ensures((callback, user_data, &call), told)
                &&& call.name@ == texts.name
                &&& call.args@ == texts.args
            },
        was_run(run, execute_fn, user_data, texts, token, reply) ==> exists|call: ToolCall|
            {
                &&& #[trigger] run.ensures((execute_fn, user_data, &call, token), reply)
                &&& call.name@ == texts.name
                &&& call.args@ == texts.args
            },
{
}

/// Tools, calls, results and replies show all that they hold.
pub proof fn law_tools_are_seen<U, D, X>(
    tools: Seq<FFITool<U, D, X>>,
    i: int,
    call: ToolCall,
    result: ToolResult,
    slice: Option<&[u8]>,
    vector: Option<Vec<u8>>,
)
    ensures
        tool_views(tools).len() == tools.len(),
        0 <= i < tools.len() ==> {
            &&& tool_views(tools)[i].name == tools[i].name@
            &&& tool_views(tools)[i].description == tools[i].description@
            &&& tool_views(tools)[i].parameters_schema == tools[i].parameters_schema
            &&& tool_views(tools)[i].execute_fn == tools[i].execute_fn
            &&& tool_views(tools)[i].user_data == tools[i].user_data
            &&& tool_views(tools)[i].on_tool_use == tools[i].on_tool_use
        },
        call@.name == call.name@ && call@.args == call.args@,
        result@.content == result.content@ && result@.is_error == result.is_error,
        slice is Some ==> slice_bytes(slice) == Some(slice->0@),
        slice is None ==> slice_bytes(slice) is None,
        vector is Some ==> vec_bytes(vector) == Some(vector->0@),
        vector is None ==> vec_bytes(vector) is None,
{
}

} // verus!
