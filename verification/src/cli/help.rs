use vstd::prelude::*;
use crate::text::str_eq;

verus! {

/// The help for `health`.
pub const HELP_HEALTH: &'static str = "health 选项:\n  --text, --human        输出人类可读健康检查摘要。";

/// The help for `clients`.
pub const HELP_CLIENTS: &'static str = "clients 选项:\n  --text, --human        输出人类可读客户端摘要。\n\n方法发现请使用 qamcp search --client \"<clientId>\" --limit 10000。";

/// The help for `config`.
pub const HELP_CONFIG: &'static str = "config 用法:\n  qamcp config                         查看当前配置。\n  qamcp config path                    输出配置文件路径。\n  qamcp config get serverUrl           输出当前 QA register server 地址。\n  qamcp config set serverUrl <url>     保存 QA register server 地址。\n  qamcp config --server-url <url>      同上。\n\n默认 serverUrl: http://localhost:3000\n配置会保存到 qamcp 可执行文件同目录的 qamcp.config.json。";

/// The help for `mcp`.
pub const HELP_MCP: &'static str = "mcp 用法:\n  qamcp mcp\n  qamcp mcp --help\n\n说明:\n  启动 stdio MCP server，供支持 MCP 的 AI 客户端调用 MCP tools。\n  MCP 模式通过标准输入输出通信，不会在终端输出普通 CLI 结果。\n\n准备工作:\n  1. 启动 QA register server。\n  2. 确认 Unity 工程进入 Play Mode 并连接到 register server。\n  3. 如非默认地址，先运行 qamcp config set serverUrl <url>。\n\nMCP 客户端配置示例:\n  command: qamcp\n  args: [\"mcp\"]\n\n帮助:\n  qamcp help mcp\n  qamcp mcp --help\n  qamcp mcp -h";

/// The help for `search`.
pub const HELP_SEARCH: &'static str = "search 选项:\n  --client, -c <id>       限定搜索某个 Unity 客户端。\n  --limit, -l <number>    最多输出的方法数量。默认值: 50。\n  --text, --human        输出人类可读表格。\n\n用法:\n  qamcp search --client \"<clientId>\" --limit 10000\n\n说明:\n  QaTest 方法由当前 Unity 项目动态注册；使用 search 获取当前项目实际 methodId。";

/// The help for `describe`.
pub const HELP_DESCRIBE: &'static str = "describe 选项:\n  --query, -q <text>      必填，精确 methodId、短 methodId 或方法名；用 | 分隔可一次查询多个。\n  --client, -c <id>       限定查询某个 Unity 客户端。\n  --text, --human        输出人类可读方法详情。\n\n用法:\n  qamcp describe --client \"<clientId>\" --query \"<methodName-or-methodId>\"";

/// The help for `results`.
pub const HELP_RESULTS: &'static str = "results 选项:\n  --client, -c <id>       按 Unity 客户端过滤。\n  --status, -s <status>   按 running、success、failed 或 cancelled 过滤。\n  --limit, -l <number>    最多输出的结果数量。默认值: 20。\n  --text, --human        输出人类可读结果记录。\n\n用法:\n  qamcp results --client \"<clientId>\" --limit 20\n  qamcp results --client \"<clientId>\" --status failed --limit 20";

/// The help for `run`.
pub const HELP_RUN: &'static str = "run 选项:\n  --client, -c <id>       必填，Unity 客户端 ID。\n  --tool, -t <methodId>   必填，QaTest 方法 ID。先用 search/describe 获取当前项目实际值。\n  --name, -n <name>       可选，显示用方法名。\n  --arg, -a <value>       按方法参数顺序重复传参，例如 -a val1 -a val2。\n  --arg-file <path>       读取本机文件内容作为一个参数，按出现顺序参与传参。\n  --args <json-array>     兼容旧脚本的 JSON 数组参数；Windows shell 下不推荐。\n  --timeout <ms>          等待超时。默认值: 70000。\n  --text, --human        输出人类可读执行结果。\n\n推荐流程:\n  1. qamcp clients\n  2. qamcp search --client \"<clientId>\" --limit 10000\n  3. qamcp describe --client \"<clientId>\" --query \"<methodName-or-methodId>\"\n  4. qamcp run --client \"<clientId>\" --tool \"<methodId>\" --name \"<methodName>\" -a \"arg1\" -a \"arg2\" --timeout 70000\n  5. 大文本参数可用 --arg-file，例如 -a \"\" --arg-file \".\\record.txt\" -a \"1\"。\n\n说明:\n  QaTest 方法由当前 Unity 项目动态注册；help 不固定展示具体 methodId。\n  run 参数优先使用重复 -a/--arg，避免 PowerShell/cmd 对 JSON 引号和转义符的改写。\n  --arg-file 由 qamcp 所在机器读取文件，Unity 客户端只接收文件内容字符串。\n  方法注册元数据 allowParallelExecution=true 时，server 会自动允许只读查询类方法并行执行；qamcp run 不需要额外并行参数。";

/// The help for `capture-screenshot`.
pub const HELP_CAPTURE_SCREENSHOT: &'static str = "capture-screenshot 用法:\n  qamcp capture-screenshot --client \"<clientId>\" --output \".\\screens\\\"\n  qamcp screenshot -c \"<clientId>\" -o \".\\screen.png\"\n\n选项:\n  --client, -c <id>       必填，Unity 客户端 ID。\n  --output, -o <path>     必填，本地保存路径；如果是目录则使用 artifact fileName。";

/// The help for `sequence`.
pub const HELP_SEQUENCE: &'static str = "sequence:\n  当前推荐 QA Agent 指令集不使用 qamcp sequence，help 不展示其参数。\n  请使用 qamcp run 执行单个 QaTest 方法，并用 results、wait 或 watch 获取结果。";

/// The help for `stop`.
pub const HELP_STOP: &'static str = "stop:\n  当前推荐 QA Agent 指令集不使用 qamcp stop，help 不展示其参数。\n  请通过 run、results、wait 和 watch 完成常规 QA 调用流程。";

/// The help for `wait`.
pub const HELP_WAIT: &'static str = "wait 选项:\n  --request, -r <id>      匹配请求 ID。\n  --client, -c <id>       匹配客户端 ID。\n  --timeout <ms>          等待超时。默认值: 180000。\n  --text, --human        输出人类可读等待结果。\n\n用法:\n  qamcp wait --client \"<clientId>\" --request \"<requestId>\" --timeout 180000";

/// The help for `watch`.
pub const HELP_WATCH: &'static str = "watch 选项:\n  --event <type>          事件类型，例如 qa_result。\n  --duration <ms>         监听时长。默认值: 10000。\n  --limit, -l <number>    最多保留的事件数量。默认值: 100。\n  --text, --human        输出人类可读事件数据。\n\n用法:\n  qamcp watch --event qa_result --duration 5000 --limit 50";

/// The general help.
pub const HELP_GENERAL: &'static str = "用法:\n  qamcp                       显示此帮助。\n  qamcp <command> [options]   执行一个 CLI command，默认输出 JSON。\n  qamcp mcp                   启动 stdio MCP server。\n\n功能:\n  qamcp 是 QA Test Framework 的本地 MCP/CLI 工具，用于连接 QA register server，\n  发现在线 Unity 客户端、搜索和描述可执行 QaTest 方法、运行单个测试指令、查看结果和监听事件。\n\n命令:\n  config                 配置 QA register server 地址。\n  health                 检查 QA register server 健康状态。\n  clients                列出在线 Unity 客户端。\n  search                 搜索已注册的 QaTest 方法。\n  describe               查询一个 QaTest 方法详情。\n  run                    运行单个 QaTest 方法并等待结果。\n  capture-screenshot     执行截图 QaTest，下载 artifact 到本地路径。\n  results                查看最近执行结果。\n  wait                   等待指定请求的执行结果。\n  watch                  短时间监听 QA WebSocket 事件。\n  mcp                    启动 stdio MCP server。\n  help [command]         显示全局帮助或指定 command 的帮助。\n\n全局选项:\n  --json                 输出格式化 JSON。默认行为。\n  --text, --human        输出人类可读摘要。\n  --help, -h             显示帮助，例如 qamcp run --help。\n\nAI 调用提示:\n  默认输出 JSON；QaTest 方法由当前 Unity 项目动态注册，先用 search/describe 获取实际 methodId。\n  search/describe 会返回 allowParallelExecution；值为 true 的只读查询类方法可由 server 自动并行下发。\n\n常用示例:\n  qamcp --help\n  qamcp config\n  qamcp config set serverUrl http://localhost:3000\n  qamcp health\n  qamcp clients\n  qamcp search --client \"<clientId>\" --limit 10000\n  qamcp describe --client \"<clientId>\" --query \"<methodName-or-methodId>\"\n  qamcp run --client \"<clientId>\" --tool \"<methodId>\" --name \"<methodName>\" -a \"arg1\" -a \"arg2\" --timeout 70000\n  qamcp run --client \"<clientId>\" --tool \"<methodId>\" --name \"<methodName>\" -a \"\" --arg-file \".\\record.txt\" -a \"1\" --timeout 70000\n  qamcp screenshot --client \"<clientId>\" --output \".\\screens\\\"\n  qamcp results --client \"<clientId>\" --limit 20\n  qamcp results --client \"<clientId>\" --status failed --limit 20\n  qamcp wait --client \"<clientId>\" --request \"<requestId>\" --timeout 180000\n  qamcp watch --event qa_result --duration 5000 --limit 50";

/// The help shown for a command, or the general help.
pub open spec fn spec_help_text(command: Option<Seq<char>>) -> Seq<char> {
    let c = match command {
        Some(c) => c,
        None => Seq::empty(),
    };
    if command is None {
        HELP_GENERAL@
    } else if c == "health"@ {
        HELP_HEALTH@
    } else if c == "clients"@ {
        HELP_CLIENTS@
    } else if c == "config"@ {
        HELP_CONFIG@
    } else if c == "mcp"@ {
        HELP_MCP@
    } else if c == "search"@ {
        HELP_SEARCH@
    } else if c == "describe"@ {
        HELP_DESCRIBE@
    } else if c == "results"@ {
        HELP_RESULTS@
    } else if c == "run"@ {
        HELP_RUN@
    } else if c == "capture-screenshot"@ {
        HELP_CAPTURE_SCREENSHOT@
    } else if c == "sequence"@ {
        HELP_SEQUENCE@
    } else if c == "stop"@ {
        HELP_STOP@
    } else if c == "wait"@ {
        HELP_WAIT@
    } else if c == "watch"@ {
        HELP_WATCH@
    } else {
        HELP_GENERAL@
    }
}

/// The help for a command (already normalized), or the general help; its
/// lines are separated by newlines.
pub fn help_text(command: Option<&str>) -> (r: &'static str)
    ensures
        r@ == spec_help_text(
            match command {
                Some(c) => Some(c@),
                None => None,
            },
        ),
{
    match command {
        None => HELP_GENERAL,
        Some(c) => if str_eq(c, "health") {
            HELP_HEALTH
        } else if str_eq(c, "clients") {
            HELP_CLIENTS
        } else if str_eq(c, "config") {
            HELP_CONFIG
        } else if str_eq(c, "mcp") {
            HELP_MCP
        } else if str_eq(c, "search") {
            HELP_SEARCH
        } else if str_eq(c, "describe") {
            HELP_DESCRIBE
        } else if str_eq(c, "results") {
            HELP_RESULTS
        } else if str_eq(c, "run") {
            HELP_RUN
        } else if str_eq(c, "capture-screenshot") {
            HELP_CAPTURE_SCREENSHOT
        } else if str_eq(c, "sequence") {
            HELP_SEQUENCE
        } else if str_eq(c, "stop") {
            HELP_STOP
        } else if str_eq(c, "wait") {
            HELP_WAIT
        } else if str_eq(c, "watch") {
            HELP_WATCH
        } else {
            HELP_GENERAL
        },
    }
}

} // verus!
