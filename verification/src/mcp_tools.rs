use vstd::prelude::*;
use crate::json::{
    jget, json_entry_views, json_views, lemma_entry_views_new, lemma_json_views_new, JsonValue, JsonView,
};
use crate::text::{copy_str, decimal, u64_to_string};

verus! {

fn s(v: &str) -> (r: JsonValue)
    ensures
        r@ == JsonView::Str(v@),
{
    JsonValue::String(copy_str(v))
}

fn kv(k: &str, v: JsonValue) -> (r: (String, JsonValue))
    ensures
        r.0@ == k@,
        r.1 == v,
{
    (copy_str(k), v)
}

fn num(n: u64) -> (r: JsonValue)
    ensures
        r@ == JsonView::Number(decimal(n as nat)),
{
    JsonValue::Number(u64_to_string(n))
}

/// A schema that gives only a type.
pub open spec fn type_view(t: Seq<char>) -> JsonView {
    JsonView::Object(seq![("type"@, JsonView::Str(t))])
}

fn type_schema(t: &str) -> (r: JsonValue)
    ensures
        r@ == type_view(t@),
{
    let entries = vec![kv("type", s(t))];
    proof {
        lemma_entry_views_new(entries@);
        assert(json_entry_views(entries@) =~= seq![("type"@, JsonView::Str(t@))]);
    }
    JsonValue::Object(entries)
}

/// A schema of a type with a description.
pub open spec fn described_view(t: Seq<char>, description: Seq<char>) -> JsonView {
    JsonView::Object(seq![("type"@, JsonView::Str(t)), ("description"@, JsonView::Str(description))])
}

fn described_schema(t: &str, description: &str) -> (r: JsonValue)
    ensures
        r@ == described_view(t@, description@),
{
    let entries = vec![kv("type", s(t)), kv("description", s(description))];
    proof {
        lemma_entry_views_new(entries@);
        assert(json_entry_views(entries@) =~= seq![
            ("type"@, JsonView::Str(t@)),
            ("description"@, JsonView::Str(description@)),
        ]);
    }
    JsonValue::Object(entries)
}

fn string_schema(description: &str) -> (r: JsonValue)
    ensures
        r@ == described_view("string"@, description@),
{
    described_schema("string", description)
}

fn bool_schema(description: &str) -> (r: JsonValue)
    ensures
        r@ == described_view("boolean"@, description@),
{
    described_schema("boolean", description)
}

/// An integer schema with its description and bounds.
pub open spec fn integer_view(description: Seq<char>, minimum: u64, maximum: u64) -> JsonView {
    JsonView::Object(
        seq![
            ("type"@, JsonView::Str("integer"@)),
            ("description"@, JsonView::Str(description)),
            ("minimum"@, JsonView::Number(decimal(minimum as nat))),
            ("maximum"@, JsonView::Number(decimal(maximum as nat))),
        ],
    )
}

fn integer_schema(description: &str, minimum: u64, maximum: u64) -> (r: JsonValue)
    ensures
        r@ == integer_view(description@, minimum, maximum),
{
    let entries = vec![
        kv("type", s("integer")),
        kv("description", s(description)),
        kv("minimum", num(minimum)),
        kv("maximum", num(maximum)),
    ];
    proof {
        lemma_entry_views_new(entries@);
        assert(json_entry_views(entries@) =~= integer_view(description@, minimum, maximum)->Object_0);
    }
    JsonValue::Object(entries)
}

/// The schema of an execution status: one of the four status names.
pub open spec fn status_enum_view() -> JsonView {
    JsonView::Object(
        seq![
            ("type"@, JsonView::Str("string"@)),
            (
                "enum"@,
                JsonView::Array(
                    seq![
                        JsonView::Str("running"@),
                        JsonView::Str("success"@),
                        JsonView::Str("failed"@),
                        JsonView::Str("cancelled"@),
                    ],
                ),
            ),
        ],
    )
}

fn status_enum_schema() -> (r: JsonValue)
    ensures
        r@ == status_enum_view(),
{
    let names = vec![s("running"), s("success"), s("failed"), s("cancelled")];
    proof {
        lemma_json_views_new(names@);
        assert(json_views(names@) =~= seq![
            JsonView::Str("running"@),
            JsonView::Str("success"@),
            JsonView::Str("failed"@),
            JsonView::Str("cancelled"@),
        ]);
    }
    let entries = vec![kv("type", s("string")), kv("enum", JsonValue::Array(names))];
    proof {
        lemma_entry_views_new(entries@);
        assert(json_entry_views(entries@) =~= status_enum_view()->Object_0);
    }
    JsonValue::Object(entries)
}

/// An array-of-strings schema with its description.
pub open spec fn string_array_view(description: Seq<char>) -> JsonView {
    JsonView::Object(
        seq![
            ("type"@, JsonView::Str("array"@)),
            ("description"@, JsonView::Str(description)),
            ("items"@, type_view("string"@)),
        ],
    )
}

fn string_array_schema(description: &str) -> (r: JsonValue)
    ensures
        r@ == string_array_view(description@),
{
    let entries = vec![kv("type", s("array")), kv("description", s(description)), kv("items", type_schema("string"))];
    proof {
        lemma_entry_views_new(entries@);
        assert(json_entry_views(entries@) =~= string_array_view(description@)->Object_0);
    }
    JsonValue::Object(entries)
}

/// The schema of method arguments: an array whose items are strings, numbers
/// or booleans.
pub open spec fn qa_arguments_view() -> JsonView {
    JsonView::Object(
        seq![
            ("type"@, JsonView::Str("array"@)),
            (
                "items"@,
                JsonView::Object(
                    seq![
                        (
                            "anyOf"@,
                            JsonView::Array(seq![type_view("string"@), type_view("number"@), type_view("boolean"@)]),
                        ),
                    ],
                ),
            ),
        ],
    )
}

fn qa_arguments_schema() -> (r: JsonValue)
    ensures
        r@ == qa_arguments_view(),
{
    let kinds = vec![type_schema("string"), type_schema("number"), type_schema("boolean")];
    proof {
        lemma_json_views_new(kinds@);
        assert(json_views(kinds@) =~= seq![type_view("string"@), type_view("number"@), type_view("boolean"@)]);
    }
    let any_of = vec![kv("anyOf", JsonValue::Array(kinds))];
    proof {
        lemma_entry_views_new(any_of@);
        assert(json_entry_views(any_of@) =~= qa_arguments_view()->Object_0[1].1->Object_0);
    }
    let entries = vec![kv("type", s("array")), kv("items", JsonValue::Object(any_of))];
    proof {
        lemma_entry_views_new(entries@);
        assert(json_entry_views(entries@) =~= qa_arguments_view()->Object_0);
    }
    JsonValue::Object(entries)
}

/// The schema of sequence steps: at least one object that names its
/// `methodId`, with an optional step id, method name and arguments.
pub open spec fn sequence_steps_view() -> JsonView {
    JsonView::Object(
        seq![
            ("type"@, JsonView::Str("array"@)),
            ("minItems"@, JsonView::Number(decimal(1))),
            (
                "items"@,
                JsonView::Object(
                    seq![
                        ("type"@, JsonView::Str("object"@)),
                        (
                            "properties"@,
                            JsonView::Object(
                                seq![
                                    ("stepId"@, type_view("string"@)),
                                    ("methodId"@, type_view("string"@)),
                                    ("methodName"@, type_view("string"@)),
                                    ("arguments"@, qa_arguments_view()),
                                ],
                            ),
                        ),
                        ("required"@, JsonView::Array(seq![JsonView::Str("methodId"@)])),
                    ],
                ),
            ),
        ],
    )
}

fn sequence_steps_schema() -> (r: JsonValue)
    ensures
        r@ == sequence_steps_view(),
{
    let properties = vec![
        kv("stepId", type_schema("string")),
        kv("methodId", type_schema("string")),
        kv("methodName", type_schema("string")),
        kv("arguments", qa_arguments_schema()),
    ];
    proof {
        lemma_entry_views_new(properties@);
        assert(json_entry_views(properties@) =~= sequence_steps_view()->Object_0[2].1->Object_0[1].1->Object_0);
    }
    let required = vec![s("methodId")];
    proof {
        lemma_json_views_new(required@);
        assert(json_views(required@) =~= seq![JsonView::Str("methodId"@)]);
    }
    let item = vec![
        kv("type", s("object")),
        kv("properties", JsonValue::Object(properties)),
        kv("required", JsonValue::Array(required)),
    ];
    proof {
        lemma_entry_views_new(item@);
        assert(json_entry_views(item@) =~= sequence_steps_view()->Object_0[2].1->Object_0);
    }
    let entries = vec![kv("type", s("array")), kv("minItems", num(1)), kv("items", JsonValue::Object(item))];
    proof {
        lemma_entry_views_new(entries@);
        assert(json_entry_views(entries@) =~= sequence_steps_view()->Object_0);
    }
    JsonValue::Object(entries)
}

/// An object schema with these properties and required member names.
pub open spec fn object_view(properties: Seq<(Seq<char>, JsonView)>, required: Seq<Seq<char>>) -> JsonView {
    JsonView::Object(
        seq![
            ("type"@, JsonView::Str("object"@)),
            ("properties"@, JsonView::Object(properties)),
            ("required"@, JsonView::Array(required.map_values(|r: Seq<char>| JsonView::Str(r)))),
        ],
    )
}

fn object_schema(properties: Vec<(String, JsonValue)>, required: Vec<&str>) -> (r: JsonValue)
    ensures
        r@ == object_view(json_entry_views(properties@), required@.map_values(|r: &str| r@)),
{
    let ghost rv = required@.map_values(|r: &str| r@);
    let mut names: Vec<JsonValue> = Vec::new();
    let mut i: usize = 0;
    while i < required.len()
        invariant
            i <= required@.len(),
            rv == required@.map_values(|r: &str| r@),
            json_views(names@) == rv.subrange(0, i as int).map_values(|r: Seq<char>| JsonView::Str(r)),
        decreases required@.len() - i,
    {
        let ghost before = names@;
        let x = s(required[i]);
        names.push(x);
        proof {
            assert(names@.drop_last() =~= before);
            assert(names@.last() == x);
            assert(rv.subrange(0, i + 1).map_values(|r: Seq<char>| JsonView::Str(r)) =~= rv.subrange(
                0,
                i as int,
            ).map_values(|r: Seq<char>| JsonView::Str(r)).push(JsonView::Str(rv[i as int])));
        }
        i = i + 1;
    }
    assert(rv.subrange(0, rv.len() as int) =~= rv);
    let ghost pv = json_entry_views(properties@);
    let entries = vec![
        kv("type", s("object")),
        kv("properties", JsonValue::Object(properties)),
        kv("required", JsonValue::Array(names)),
    ];
    proof {
        lemma_entry_views_new(entries@);
        assert(json_entry_views(entries@) =~= object_view(pv, rv)->Object_0);
    }
    JsonValue::Object(entries)
}

/// The annotations of a tool: its title and the hints on what a call does.
pub open spec fn annotations_view(title: Seq<char>, read_only: bool, destructive: bool, idempotent: bool) -> JsonView {
    JsonView::Object(
        seq![
            ("title"@, JsonView::Str(title)),
            ("readOnlyHint"@, JsonView::Bool(read_only)),
            ("destructiveHint"@, JsonView::Bool(destructive)),
            ("idempotentHint"@, JsonView::Bool(idempotent)),
            ("openWorldHint"@, JsonView::Bool(false)),
        ],
    )
}

/// The description of one MCP tool; its `name` comes first.
pub open spec fn tool_view(
    name: Seq<char>,
    title: Seq<char>,
    description: Seq<char>,
    input_schema: JsonView,
    read_only: bool,
    destructive: bool,
    idempotent: bool,
) -> JsonView {
    JsonView::Object(
        seq![
            ("name"@, JsonView::Str(name)),
            ("title"@, JsonView::Str(title)),
            ("description"@, JsonView::Str(description)),
            ("inputSchema"@, input_schema),
            ("annotations"@, annotations_view(title, read_only, destructive, idempotent)),
        ],
    )
}

fn tool(
    name: &str,
    title: &str,
    description: &str,
    input_schema: JsonValue,
    read_only: bool,
    destructive: bool,
    idempotent: bool,
) -> (r: JsonValue)
    ensures
        r@ == tool_view(name@, title@, description@, input_schema@, read_only, destructive, idempotent),
{
    let ghost schema = input_schema@;
    let hints = vec![
        kv("title", s(title)),
        kv("readOnlyHint", JsonValue::Bool(read_only)),
        kv("destructiveHint", JsonValue::Bool(destructive)),
        kv("idempotentHint", JsonValue::Bool(idempotent)),
        kv("openWorldHint", JsonValue::Bool(false)),
    ];
    proof {
        lemma_entry_views_new(hints@);
        assert(json_entry_views(hints@) =~= annotations_view(title@, read_only, destructive, idempotent)->Object_0);
    }
    let entries = vec![
        kv("name", s(name)),
        kv("title", s(title)),
        kv("description", s(description)),
        kv("inputSchema", input_schema),
        kv("annotations", JsonValue::Object(hints)),
    ];
    proof {
        lemma_entry_views_new(entries@);
        assert(json_entry_views(entries@) =~= tool_view(
            name@,
            title@,
            description@,
            schema,
            read_only,
            destructive,
            idempotent,
        )->Object_0);
    }
    JsonValue::Object(entries)
}

/// The names of the tools this server offers, in the order it lists them.
pub open spec fn tool_names() -> Seq<Seq<char>> {
    seq![
        "qa_health"@,
        "qa_list_unity_clients"@,
        "qa_find_methods"@,
        "qa_get_method"@,
        "qa_get_results"@,
        "qa_execute_method"@,
        "qa_capture_screenshot"@,
        "qa_execute_sequence"@,
        "qa_stop_execution"@,
        "qa_stop_sequence"@,
        "qa_watch_events"@,
        "qa_wait_for_result"@,
        "qa_open_event_session"@,
        "qa_poll_event_session"@,
        "qa_close_event_session"@,
    ]
}

/// Each listed tool carries its name from `tool_names` as its `name` member.
proof fn lemma_tool_view_names()
    ensures
        tool_views().len() == tool_names().len(),
        forall|i: int|
            0 <= i < tool_views().len() ==> jget(#[trigger] tool_views()[i], "name"@) == Some(
                JsonView::Str(tool_names()[i]),
            ),
{
    assert forall|i: int| 0 <= i < tool_views().len() implies jget(#[trigger] tool_views()[i], "name"@) == Some(
        JsonView::Str(tool_names()[i]),
    ) by {
        if i == 0 {
        } else if i == 1 {
        } else if i == 2 {
        } else if i == 3 {
        } else if i == 4 {
        } else if i == 5 {
        } else if i == 6 {
        } else if i == 7 {
        } else if i == 8 {
        } else if i == 9 {
        } else if i == 10 {
        } else if i == 11 {
        } else if i == 12 {
        } else if i == 13 {
        } else {
        }
    }
}

/// The `qa_health` tool.
pub open spec fn qa_health_view() -> JsonView {
    tool_view(
        "qa_health"@,
        "检查 QA 服务状态"@,
        "检查 QA 注册服务是否可连接。"@,
        object_view(
            Seq::empty(),
            Seq::empty(),
        ),
        true,
        false,
        true,
    )
}

fn qa_health_tool() -> (r: JsonValue)
    ensures
        r@ == qa_health_view(),
{
    let properties: Vec<(String, JsonValue)> = Vec::new();
    let required: Vec<&str> = Vec::new();
    proof {
        lemma_entry_views_new(properties@);
        assert(json_entry_views(properties@) =~= qa_health_view()->Object_0[3].1->Object_0[1].1->Object_0);
        assert(required@.map_values(|r: &str| r@) =~= Seq::empty());
    }
    tool(
        "qa_health",
        "检查 QA 服务状态",
        "检查 QA 注册服务是否可连接。",
        object_schema(properties, required),
        true,
        false,
        true,
    )
}

/// The `qa_list_unity_clients` tool.
pub open spec fn qa_list_unity_clients_view() -> JsonView {
    tool_view(
        "qa_list_unity_clients"@,
        "列出 Unity QA 客户端"@,
        "列出当前已连接到 QA 注册服务的 Unity 客户端。"@,
        object_view(
            seq![
                ("includeMethods"@, described_view("boolean"@, "是否返回每个客户端完整注册的 QaTest 方法列表，默认返回。"@)),
            ],
            Seq::empty(),
        ),
        true,
        false,
        true,
    )
}

fn qa_list_unity_clients_tool() -> (r: JsonValue)
    ensures
        r@ == qa_list_unity_clients_view(),
{
    let properties: Vec<(String, JsonValue)> = vec![
        kv("includeMethods", bool_schema("是否返回每个客户端完整注册的 QaTest 方法列表，默认返回。")),
    ];
    let required: Vec<&str> = Vec::new();
    proof {
        lemma_entry_views_new(properties@);
        assert(json_entry_views(properties@) =~= qa_list_unity_clients_view()->Object_0[3].1->Object_0[1].1->Object_0);
        assert(required@.map_values(|r: &str| r@) =~= Seq::empty());
    }
    tool(
        "qa_list_unity_clients",
        "列出 Unity QA 客户端",
        "列出当前已连接到 QA 注册服务的 Unity 客户端。",
        object_schema(properties, required),
        true,
        false,
        true,
    )
}

/// The `qa_find_methods` tool.
pub open spec fn qa_find_methods_view() -> JsonView {
    tool_view(
        "qa_find_methods"@,
        "搜索 QaTest 方法"@,
        "按客户端、方法名、方法 ID、声明类型或描述搜索已注册的 QaTest 方法。"@,
        object_view(
            seq![
                ("clientId"@, described_view("string"@, "限定搜索某个 Unity 客户端。"@)),
                ("query"@, described_view("string"@, "搜索文本。"@)),
                ("limit"@, integer_view("最多返回数量。"@, 1, 200)),
            ],
            Seq::empty(),
        ),
        true,
        false,
        true,
    )
}

fn qa_find_methods_tool() -> (r: JsonValue)
    ensures
        r@ == qa_find_methods_view(),
{
    let properties: Vec<(String, JsonValue)> = vec![
        kv("clientId", string_schema("限定搜索某个 Unity 客户端。")),
        kv("query", string_schema("搜索文本。")),
        kv("limit", integer_schema("最多返回数量。", 1, 200)),
    ];
    let required: Vec<&str> = Vec::new();
    proof {
        lemma_entry_views_new(properties@);
        assert(json_entry_views(properties@) =~= qa_find_methods_view()->Object_0[3].1->Object_0[1].1->Object_0);
        assert(required@.map_values(|r: &str| r@) =~= Seq::empty());
    }
    tool(
        "qa_find_methods",
        "搜索 QaTest 方法",
        "按客户端、方法名、方法 ID、声明类型或描述搜索已注册的 QaTest 方法。",
        object_schema(properties, required),
        true,
        false,
        true,
    )
}

/// The `qa_get_method` tool.
pub open spec fn qa_get_method_view() -> JsonView {
    tool_view(
        "qa_get_method"@,
        "获取 QaTest 方法详情"@,
        "按精确 methodId、短 methodId 或方法名获取已注册 QaTest 方法详情；query 用 | 分隔时可一次查询多个。"@,
        object_view(
            seq![
                ("clientId"@, described_view("string"@, "限定搜索某个 Unity 客户端。"@)),
                ("query"@, described_view("string"@, "精确 methodId、短 methodId 或方法名；多个查询用 | 分隔。"@)),
            ],
            seq!["query"@],
        ),
        true,
        false,
        true,
    )
}

fn qa_get_method_tool() -> (r: JsonValue)
    ensures
        r@ == qa_get_method_view(),
{
    let properties: Vec<(String, JsonValue)> = vec![
        kv("clientId", string_schema("限定搜索某个 Unity 客户端。")),
        kv("query", string_schema("精确 methodId、短 methodId 或方法名；多个查询用 | 分隔。")),
    ];
    let required: Vec<&str> = vec!["query"];
    proof {
        lemma_entry_views_new(properties@);
        assert(json_entry_views(properties@) =~= qa_get_method_view()->Object_0[3].1->Object_0[1].1->Object_0);
        assert(required@.map_values(|r: &str| r@) =~= seq!["query"@]);
    }
    tool(
        "qa_get_method",
        "获取 QaTest 方法详情",
        "按精确 methodId、短 methodId 或方法名获取已注册 QaTest 方法详情；query 用 | 分隔时可一次查询多个。",
        object_schema(properties, required),
        true,
        false,
        true,
    )
}

/// The `qa_get_results` tool.
pub open spec fn qa_get_results_view() -> JsonView {
    tool_view(
        "qa_get_results"@,
        "获取 QA 执行结果"@,
        "读取 QA 注册服务中的最近执行记录，并支持本地过滤。"@,
        object_view(
            seq![
                ("clientId"@, described_view("string"@, "按 Unity 客户端过滤。"@)),
                ("status"@, status_enum_view()),
                ("sequenceId"@, described_view("string"@, "按请求序列 ID 过滤。"@)),
                ("limit"@, integer_view("最多返回数量。"@, 1, 200)),
            ],
            Seq::empty(),
        ),
        true,
        false,
        true,
    )
}

fn qa_get_results_tool() -> (r: JsonValue)
    ensures
        r@ == qa_get_results_view(),
{
    let properties: Vec<(String, JsonValue)> = vec![
        kv("clientId", string_schema("按 Unity 客户端过滤。")),
        kv("status", status_enum_schema()),
        kv("sequenceId", string_schema("按请求序列 ID 过滤。")),
        kv("limit", integer_schema("最多返回数量。", 1, 200)),
    ];
    let required: Vec<&str> = Vec::new();
    proof {
        lemma_entry_views_new(properties@);
        assert(json_entry_views(properties@) =~= qa_get_results_view()->Object_0[3].1->Object_0[1].1->Object_0);
        assert(required@.map_values(|r: &str| r@) =~= Seq::empty());
    }
    tool(
        "qa_get_results",
        "获取 QA 执行结果",
        "读取 QA 注册服务中的最近执行记录，并支持本地过滤。",
        object_schema(properties, required),
        true,
        false,
        true,
    )
}

/// The `qa_execute_method` tool.
pub open spec fn qa_execute_method_view() -> JsonView {
    tool_view(
        "qa_execute_method"@,
        "执行单个 QaTest 方法"@,
        "通过 QA 服务 WebSocket 执行一个已注册的 QaTest 方法，并等待执行结果。"@,
        object_view(
            seq![
                ("clientId"@, described_view("string"@, "Unity 客户端 ID。"@)),
                ("methodId"@, described_view("string"@, "QaTest 方法 ID。"@)),
                ("methodName"@, described_view("string"@, "显示用方法名。"@)),
                ("arguments"@, qa_arguments_view()),
                ("timeoutMs"@, integer_view("等待超时，单位毫秒。"@, 1000, 300000)),
            ],
            seq!["clientId"@, "methodId"@],
        ),
        false,
        true,
        false,
    )
}

fn qa_execute_method_tool() -> (r: JsonValue)
    ensures
        r@ == qa_execute_method_view(),
{
    let properties: Vec<(String, JsonValue)> = vec![
        kv("clientId", string_schema("Unity 客户端 ID。")),
        kv("methodId", string_schema("QaTest 方法 ID。")),
        kv("methodName", string_schema("显示用方法名。")),
        kv("arguments", qa_arguments_schema()),
        kv("timeoutMs", integer_schema("等待超时，单位毫秒。", 1000, 300000)),
    ];
    let required: Vec<&str> = vec!["clientId", "methodId"];
    proof {
        lemma_entry_views_new(properties@);
        assert(json_entry_views(properties@) =~= qa_execute_method_view()->Object_0[3].1->Object_0[1].1->Object_0);
        assert(required@.map_values(|r: &str| r@) =~= seq!["clientId"@, "methodId"@]);
    }
    tool(
        "qa_execute_method",
        "执行单个 QaTest 方法",
        "通过 QA 服务 WebSocket 执行一个已注册的 QaTest 方法，并等待执行结果。",
        object_schema(properties, required),
        false,
        true,
        false,
    )
}

/// The `qa_capture_screenshot` tool.
pub open spec fn qa_capture_screenshot_view() -> JsonView {
    tool_view(
        "qa_capture_screenshot"@,
        "执行截图 QaTest 并保存"@,
        "搜索或指定 Unity 截图上传 QaTest 方法，执行后从返回 artifact 下载截图到本地路径。"@,
        object_view(
            seq![
                ("clientId"@, described_view("string"@, "Unity 客户端 ID。"@)),
                ("savePath"@, described_view("string"@, "本地保存路径；如果是目录则使用 artifact fileName。"@)),
            ],
            seq!["clientId"@, "savePath"@],
        ),
        false,
        true,
        false,
    )
}

fn qa_capture_screenshot_tool() -> (r: JsonValue)
    ensures
        r@ == qa_capture_screenshot_view(),
{
    let properties: Vec<(String, JsonValue)> = vec![
        kv("clientId", string_schema("Unity 客户端 ID。")),
        kv("savePath", string_schema("本地保存路径；如果是目录则使用 artifact fileName。")),
    ];
    let required: Vec<&str> = vec!["clientId", "savePath"];
    proof {
        lemma_entry_views_new(properties@);
        assert(json_entry_views(properties@) =~= qa_capture_screenshot_view()->Object_0[3].1->Object_0[1].1->Object_0);
        assert(required@.map_values(|r: &str| r@) =~= seq!["clientId"@, "savePath"@]);
    }
    tool(
        "qa_capture_screenshot",
        "执行截图 QaTest 并保存",
        "搜索或指定 Unity 截图上传 QaTest 方法，执行后从返回 artifact 下载截图到本地路径。",
        object_schema(properties, required),
        false,
        true,
        false,
    )
}

/// The `qa_execute_sequence` tool.
pub open spec fn qa_execute_sequence_view() -> JsonView {
    tool_view(
        "qa_execute_sequence"@,
        "执行 QaTest 请求序列"@,
        "通过 QA 服务 WebSocket 按顺序执行多个 QaTest 方法，并等待序列汇总结果。"@,
        object_view(
            seq![
                ("clientId"@, described_view("string"@, "Unity 客户端 ID。"@)),
                ("steps"@, sequence_steps_view()),
                ("stopOnFailure"@, described_view("boolean"@, "步骤失败后是否停止。"@)),
                ("stepDelayMs"@, integer_view("相邻步骤之间等待的毫秒数。"@, 0, 300000)),
                ("timeoutMs"@, integer_view("等待超时，单位毫秒。"@, 1000, 600000)),
            ],
            seq!["clientId"@, "steps"@],
        ),
        false,
        true,
        false,
    )
}

fn qa_execute_sequence_tool() -> (r: JsonValue)
    ensures
        r@ == qa_execute_sequence_view(),
{
    let properties: Vec<(String, JsonValue)> = vec![
        kv("clientId", string_schema("Unity 客户端 ID。")),
        kv("steps", sequence_steps_schema()),
        kv("stopOnFailure", bool_schema("步骤失败后是否停止。")),
        kv("stepDelayMs", integer_schema("相邻步骤之间等待的毫秒数。", 0, 300000)),
        kv("timeoutMs", integer_schema("等待超时，单位毫秒。", 1000, 600000)),
    ];
    let required: Vec<&str> = vec!["clientId", "steps"];
    proof {
        lemma_entry_views_new(properties@);
        assert(json_entry_views(properties@) =~= qa_execute_sequence_view()->Object_0[3].1->Object_0[1].1->Object_0);
        assert(required@.map_values(|r: &str| r@) =~= seq!["clientId"@, "steps"@]);
    }
    tool(
        "qa_execute_sequence",
        "执行 QaTest 请求序列",
        "通过 QA 服务 WebSocket 按顺序执行多个 QaTest 方法，并等待序列汇总结果。",
        object_schema(properties, required),
        false,
        true,
        false,
    )
}

/// The `qa_stop_execution` tool.
pub open spec fn qa_stop_execution_view() -> JsonView {
    tool_view(
        "qa_stop_execution"@,
        "停止 QaTest 执行"@,
        "请求 QA 服务停止一个正在运行的单次执行。"@,
        object_view(
            seq![
                ("requestId"@, described_view("string"@, "请求 ID。"@)),
                ("reason"@, described_view("string"@, "停止原因。"@)),
                ("timeoutMs"@, integer_view("等待超时，单位毫秒。"@, 1000, 30000)),
            ],
            seq!["requestId"@],
        ),
        false,
        true,
        true,
    )
}

fn qa_stop_execution_tool() -> (r: JsonValue)
    ensures
        r@ == qa_stop_execution_view(),
{
    let properties: Vec<(String, JsonValue)> = vec![
        kv("requestId", string_schema("请求 ID。")),
        kv("reason", string_schema("停止原因。")),
        kv("timeoutMs", integer_schema("等待超时，单位毫秒。", 1000, 30000)),
    ];
    let required: Vec<&str> = vec!["requestId"];
    proof {
        lemma_entry_views_new(properties@);
        assert(json_entry_views(properties@) =~= qa_stop_execution_view()->Object_0[3].1->Object_0[1].1->Object_0);
        assert(required@.map_values(|r: &str| r@) =~= seq!["requestId"@]);
    }
    tool(
        "qa_stop_execution",
        "停止 QaTest 执行",
        "请求 QA 服务停止一个正在运行的单次执行。",
        object_schema(properties, required),
        false,
        true,
        true,
    )
}

/// The `qa_stop_sequence` tool.
pub open spec fn qa_stop_sequence_view() -> JsonView {
    tool_view(
        "qa_stop_sequence"@,
        "停止 QaTest 请求序列"@,
        "请求 QA 服务停止一个正在运行的请求序列。"@,
        object_view(
            seq![
                ("sequenceId"@, described_view("string"@, "请求序列 ID。"@)),
                ("reason"@, described_view("string"@, "停止原因。"@)),
                ("timeoutMs"@, integer_view("等待超时，单位毫秒。"@, 1000, 30000)),
            ],
            seq!["sequenceId"@],
        ),
        false,
        true,
        true,
    )
}

fn qa_stop_sequence_tool() -> (r: JsonValue)
    ensures
        r@ == qa_stop_sequence_view(),
{
    let properties: Vec<(String, JsonValue)> = vec![
        kv("sequenceId", string_schema("请求序列 ID。")),
        kv("reason", string_schema("停止原因。")),
        kv("timeoutMs", integer_schema("等待超时，单位毫秒。", 1000, 30000)),
    ];
    let required: Vec<&str> = vec!["sequenceId"];
    proof {
        lemma_entry_views_new(properties@);
        assert(json_entry_views(properties@) =~= qa_stop_sequence_view()->Object_0[3].1->Object_0[1].1->Object_0);
        assert(required@.map_values(|r: &str| r@) =~= seq!["sequenceId"@]);
    }
    tool(
        "qa_stop_sequence",
        "停止 QaTest 请求序列",
        "请求 QA 服务停止一个正在运行的请求序列。",
        object_schema(properties, required),
        false,
        true,
        true,
    )
}

/// The `qa_watch_events` tool.
pub open spec fn qa_watch_events_view() -> JsonView {
    tool_view(
        "qa_watch_events"@,
        "监听 QA WebSocket 事件"@,
        "临时连接 QA 服务 WebSocket，监听一段时间内的事件并一次性返回。"@,
        object_view(
            seq![
                ("durationMs"@, integer_view("监听持续时间，单位毫秒。"@, 100, 300000)),
                ("eventTypes"@, string_array_view("只返回指定事件类型。"@)),
                ("includeSnapshot"@, described_view("boolean"@, "是否包含连接后收到的 snapshot 事件。"@)),
                ("maxEvents"@, integer_view("最多返回事件数量。"@, 1, 1000)),
            ],
            Seq::empty(),
        ),
        true,
        false,
        false,
    )
}

fn qa_watch_events_tool() -> (r: JsonValue)
    ensures
        r@ == qa_watch_events_view(),
{
    let properties: Vec<(String, JsonValue)> = vec![
        kv("durationMs", integer_schema("监听持续时间，单位毫秒。", 100, 300000)),
        kv("eventTypes", string_array_schema("只返回指定事件类型。")),
        kv("includeSnapshot", bool_schema("是否包含连接后收到的 snapshot 事件。")),
        kv("maxEvents", integer_schema("最多返回事件数量。", 1, 1000)),
    ];
    let required: Vec<&str> = Vec::new();
    proof {
        lemma_entry_views_new(properties@);
        assert(json_entry_views(properties@) =~= qa_watch_events_view()->Object_0[3].1->Object_0[1].1->Object_0);
        assert(required@.map_values(|r: &str| r@) =~= Seq::empty());
    }
    tool(
        "qa_watch_events",
        "监听 QA WebSocket 事件",
        "临时连接 QA 服务 WebSocket，监听一段时间内的事件并一次性返回。",
        object_schema(properties, required),
        true,
        false,
        false,
    )
}

/// The `qa_wait_for_result` tool.
pub open spec fn qa_wait_for_result_view() -> JsonView {
    tool_view(
        "qa_wait_for_result"@,
        "等待 QA 执行结果"@,
        "按 requestId、sequenceId、clientId 或 methodId 等条件等待 QA 执行结果返回。"@,
        object_view(
            seq![
                ("requestId"@, described_view("string"@, "请求 ID。"@)),
                ("sequenceId"@, described_view("string"@, "请求序列 ID。"@)),
                ("clientId"@, described_view("string"@, "Unity 客户端 ID。"@)),
                ("methodId"@, described_view("string"@, "QaTest 方法 ID。"@)),
                ("methodName"@, described_view("string"@, "QaTest 方法名。"@)),
                ("status"@, status_enum_view()),
                ("includeHistory"@, described_view("boolean"@, "如果提供 requestId，是否先查询已有执行历史。"@)),
                ("timeoutMs"@, integer_view("等待超时，单位毫秒。"@, 1000, 600000)),
            ],
            Seq::empty(),
        ),
        true,
        false,
        false,
    )
}

fn qa_wait_for_result_tool() -> (r: JsonValue)
    ensures
        r@ == qa_wait_for_result_view(),
{
    let properties: Vec<(String, JsonValue)> = vec![
        kv("requestId", string_schema("请求 ID。")),
        kv("sequenceId", string_schema("请求序列 ID。")),
        kv("clientId", string_schema("Unity 客户端 ID。")),
        kv("methodId", string_schema("QaTest 方法 ID。")),
        kv("methodName", string_schema("QaTest 方法名。")),
        kv("status", status_enum_schema()),
        kv("includeHistory", bool_schema("如果提供 requestId，是否先查询已有执行历史。")),
        kv("timeoutMs", integer_schema("等待超时，单位毫秒。", 1000, 600000)),
    ];
    let required: Vec<&str> = Vec::new();
    proof {
        lemma_entry_views_new(properties@);
        assert(json_entry_views(properties@) =~= qa_wait_for_result_view()->Object_0[3].1->Object_0[1].1->Object_0);
        assert(required@.map_values(|r: &str| r@) =~= Seq::empty());
    }
    tool(
        "qa_wait_for_result",
        "等待 QA 执行结果",
        "按 requestId、sequenceId、clientId 或 methodId 等条件等待 QA 执行结果返回。",
        object_schema(properties, required),
        true,
        false,
        false,
    )
}

/// The `qa_open_event_session` tool.
pub open spec fn qa_open_event_session_view() -> JsonView {
    tool_view(
        "qa_open_event_session"@,
        "打开 QA 事件会话"@,
        "创建一条可跨多次 MCP 调用轮询的 QA WebSocket 长连接事件会话。"@,
        object_view(
            seq![
                ("eventTypes"@, string_array_view("只缓存指定事件类型。"@)),
                ("includeSnapshot"@, described_view("boolean"@, "是否缓存连接后收到的 snapshot 事件。"@)),
                ("maxEvents"@, integer_view("会话内最多缓存事件数量。"@, 10, 5000)),
                ("ttlMs"@, integer_view("会话自动过期时间，单位毫秒。"@, 10000, 3600000)),
            ],
            Seq::empty(),
        ),
        true,
        false,
        false,
    )
}

fn qa_open_event_session_tool() -> (r: JsonValue)
    ensures
        r@ == qa_open_event_session_view(),
{
    let properties: Vec<(String, JsonValue)> = vec![
        kv("eventTypes", string_array_schema("只缓存指定事件类型。")),
        kv("includeSnapshot", bool_schema("是否缓存连接后收到的 snapshot 事件。")),
        kv("maxEvents", integer_schema("会话内最多缓存事件数量。", 10, 5000)),
        kv("ttlMs", integer_schema("会话自动过期时间，单位毫秒。", 10000, 3600000)),
    ];
    let required: Vec<&str> = Vec::new();
    proof {
        lemma_entry_views_new(properties@);
        assert(json_entry_views(properties@) =~= qa_open_event_session_view()->Object_0[3].1->Object_0[1].1->Object_0);
        assert(required@.map_values(|r: &str| r@) =~= Seq::empty());
    }
    tool(
        "qa_open_event_session",
        "打开 QA 事件会话",
        "创建一条可跨多次 MCP 调用轮询的 QA WebSocket 长连接事件会话。",
        object_schema(properties, required),
        true,
        false,
        false,
    )
}

/// The `qa_poll_event_session` tool.
pub open spec fn qa_poll_event_session_view() -> JsonView {
    tool_view(
        "qa_poll_event_session"@,
        "轮询 QA 事件会话"@,
        "从已打开的 QA 事件会话中读取缓存事件。"@,
        object_view(
            seq![
                ("sessionId"@, described_view("string"@, "事件会话 ID。"@)),
                ("cursor"@, integer_view("上一次返回的 nextCursor。"@, 0, 9223372036854775807)),
                ("maxEvents"@, integer_view("本次最多返回事件数量。"@, 1, 1000)),
            ],
            seq!["sessionId"@],
        ),
        true,
        false,
        true,
    )
}

fn qa_poll_event_session_tool() -> (r: JsonValue)
    ensures
        r@ == qa_poll_event_session_view(),
{
    let properties: Vec<(String, JsonValue)> = vec![
        kv("sessionId", string_schema("事件会话 ID。")),
        kv("cursor", integer_schema("上一次返回的 nextCursor。", 0, 9223372036854775807)),
        kv("maxEvents", integer_schema("本次最多返回事件数量。", 1, 1000)),
    ];
    let required: Vec<&str> = vec!["sessionId"];
    proof {
        lemma_entry_views_new(properties@);
        assert(json_entry_views(properties@) =~= qa_poll_event_session_view()->Object_0[3].1->Object_0[1].1->Object_0);
        assert(required@.map_values(|r: &str| r@) =~= seq!["sessionId"@]);
    }
    tool(
        "qa_poll_event_session",
        "轮询 QA 事件会话",
        "从已打开的 QA 事件会话中读取缓存事件。",
        object_schema(properties, required),
        true,
        false,
        true,
    )
}

/// The `qa_close_event_session` tool.
pub open spec fn qa_close_event_session_view() -> JsonView {
    tool_view(
        "qa_close_event_session"@,
        "关闭 QA 事件会话"@,
        "关闭指定 QA WebSocket 事件会话并释放连接资源。"@,
        object_view(
            seq![
                ("sessionId"@, described_view("string"@, "事件会话 ID。"@)),
            ],
            seq!["sessionId"@],
        ),
        false,
        false,
        true,
    )
}

fn qa_close_event_session_tool() -> (r: JsonValue)
    ensures
        r@ == qa_close_event_session_view(),
{
    let properties: Vec<(String, JsonValue)> = vec![
        kv("sessionId", string_schema("事件会话 ID。")),
    ];
    let required: Vec<&str> = vec!["sessionId"];
    proof {
        lemma_entry_views_new(properties@);
        assert(json_entry_views(properties@) =~= qa_close_event_session_view()->Object_0[3].1->Object_0[1].1->Object_0);
        assert(required@.map_values(|r: &str| r@) =~= seq!["sessionId"@]);
    }
    tool(
        "qa_close_event_session",
        "关闭 QA 事件会话",
        "关闭指定 QA WebSocket 事件会话并释放连接资源。",
        object_schema(properties, required),
        false,
        false,
        true,
    )
}

/// The tools that `tools/list` answers with, in that order.
pub open spec fn tool_views() -> Seq<JsonView> {
    seq![
        qa_health_view(),
        qa_list_unity_clients_view(),
        qa_find_methods_view(),
        qa_get_method_view(),
        qa_get_results_view(),
        qa_execute_method_view(),
        qa_capture_screenshot_view(),
        qa_execute_sequence_view(),
        qa_stop_execution_view(),
        qa_stop_sequence_view(),
        qa_watch_events_view(),
        qa_wait_for_result_view(),
        qa_open_event_session_view(),
        qa_poll_event_session_view(),
        qa_close_event_session_view(),
    ]
}

/// The tools that `tools/list` answers with.
pub fn tool_definitions() -> (r: Vec<JsonValue>)
    ensures
        json_views(r@) == tool_views(),
        r@.len() == tool_names().len(),
        forall|i: int| 0 <= i < r@.len() ==> jget((#[trigger] r@[i])@, "name"@) == Some(JsonView::Str(tool_names()[i])),
{
    let r = vec![
        qa_health_tool(),
        qa_list_unity_clients_tool(),
        qa_find_methods_tool(),
        qa_get_method_tool(),
        qa_get_results_tool(),
        qa_execute_method_tool(),
        qa_capture_screenshot_tool(),
        qa_execute_sequence_tool(),
        qa_stop_execution_tool(),
        qa_stop_sequence_tool(),
        qa_watch_events_tool(),
        qa_wait_for_result_tool(),
        qa_open_event_session_tool(),
        qa_poll_event_session_tool(),
        qa_close_event_session_tool(),
    ];
    proof {
        lemma_json_views_new(r@);
        assert(json_views(r@) =~= tool_views());
        lemma_tool_view_names();
        assert forall|i: int| 0 <= i < r@.len() implies jget((#[trigger] r@[i])@, "name"@) == Some(
            JsonView::Str(tool_names()[i]),
        ) by {
            assert(r@[i]@ == json_views(r@)[i]);
        }
    }
    r
}

} // verus!
