//! The MCP endpoint's logic: which JSON-RPC method a request names, the
//! tool table and who may call what, the error codes and HTTP statuses of
//! failures, and the activity summaries shown while an AI uses the tools.
//!
//! Reading the request body, calling the tools and sending the answer are
//! the caller's.
use crate::auth::{scope_covers, ApiKeyScope};
use crate::text::{
    chars_of, char_width, concat, decimal, lower_chars, lower_s, owned, slice_to_vec_range, str_eq,
    string_of, u64_to_string, utf8_len, utf8_len_of, utf8_width,
};
use vstd::prelude::*;

verus! {

/// The MCP tools.
#[derive(Debug, Clone, Copy, PartialEq, Eq, Structural)]
pub enum ToolName {
    EnvProbe,
    EnvInstallJava,
    EnvInstallPaper,
    EnvTaskStatus,
    ServerStatus,
    ServerStart,
    ServerStop,
    ServerRestart,
    ServerLogs,
    ServerExec,
    PluginList,
    PluginUploadInfo,
    PluginRemove,
    FilesList,
    FilesRead,
    FilesWrite,
    FilesReadLines,
    FilesWriteLines,
    FilesMkdir,
    FilesDelete,
    RconExec,
    PluginUpload,
}

pub open spec fn tool_description(t: ToolName) -> Seq<char> {
    match t {
        ToolName::EnvProbe => "探测主机环境：OS / 架构、已检测到的 Java（path/major/vendor/source）、托管 JDK 缓存目录、Paper jar 缓存、默认 MC 版本及其所需 Java major。AI 启动调试链路时**应先调这个**。"@,
        ToolName::EnvInstallJava => "下载 Adoptium Temurin JRE（major 8/17/21 等）并解压到托管 JDK 缓存。返回 task_id；通过 mc_env_task_status 查进度。已安装时直接 done。"@,
        ToolName::EnvInstallPaper => "下载指定 MC 版本的 Paper jar。build 不填则取该版本最新构建。返回 task_id。"@,
        ToolName::EnvTaskStatus => "查异步下载任务的进度（status/downloaded/total/error）。任务在完成后 1 小时被 GC。"@,
        ToolName::ServerStatus => "返回 Paper 服务端实例当前状态：status (stopped/starting/running/stopping)、pid、mc_version、started_at、work_dir。"@,
        ToolName::ServerStart => "启动 Paper。缺 Java/Paper 时返回结构化错误（code=env_missing），客户端可据此调 mc_env_install_*。等到 'Done!' 日志后状态切到 running 再返回。"@,
        ToolName::ServerStop => "停止 Paper：先发 stop console，15 秒超时强制 kill。force=true 直接 kill。"@,
        ToolName::ServerRestart => "stop + start，与 mc_server_start 接受相同参数。"@,
        ToolName::ServerLogs => "拉最近 N 行日志（内存环最多 5000 行）。每行带 ts / stream(stdout|stderr) / text。"@,
        ToolName::ServerExec => "通过子进程 stdin 发 console 命令。**不返回回包文本**（命令的输出会以日志事件流出，可在数秒后调 mc_server_logs 拿）。需要回包请改用 mc_rcon_exec。"@,
        ToolName::PluginList => "列出 plugins/ 下所有 .jar / .jar.disabled 文件（filename/size/modified_ts）。"@,
        ToolName::PluginUploadInfo => "获取插件上传的 URL、鉴权头和用法说明。插件上传走 HTTP multipart（不走 MCP JSON-RPC），调此工具拿到完整的 curl 命令模板。"@,
        ToolName::PluginRemove => "删除一个 plugin jar（仅文件名，无路径分隔）。删除后需要重启服务端才生效。"@,
        ToolName::FilesList => "列出 work_dir 下指定目录的文件和子目录。默认列根目录。返回 path/is_dir/size。可用于浏览 plugins/XXX/config.yml 等任意文件。"@,
        ToolName::FilesRead => "读 work_dir 内任意文件（UTF-8 文本，≤2 MiB）。路径相对于服务端工作区，sandbox 防越界。文件不存在时返回 exists=false / content=空。"@,
        ToolName::FilesWrite => "写 work_dir 内任意文件（≤2 MiB UTF-8）。父目录不存在时自动创建。路径 sandbox 防越界。修改服务端口/RCON/世界名等配置需重启 Paper 才生效。"@,
        ToolName::FilesReadLines => "读文件的指定行范围。适合大文件只看一段（如日志、长配置）。行号从 1 开始。不指定 end 则读到文件末尾。"@,
        ToolName::FilesWriteLines => "替换文件中指定行范围的内容。行号从 1 开始。start~end 范围被 new_content 替换（可以是不同行数，实现插入/删除/替换）。文件不存在时创建。"@,
        ToolName::FilesMkdir => "创建目录（含中间目录）。用于在上传插件前预建 plugins/XXX/。"@,
        ToolName::FilesDelete => "删除一个文件。不支持删目录（防误删世界）。"@,
        ToolName::RconExec => "通过 RCON 发命令并**返回回包文本**（与 mc_server_exec 的区别）。仅运行中可用；端点是 127.0.0.1，密码每次启动随机生成。"@,
        ToolName::PluginUpload => "上传一个 Paper 插件 jar：content_b64 为 jar 的标准 base64；与 HTTP multipart 上传同样校验（≤64 MiB、ZIP 头、含 plugin.yml 或 paper-plugin.yml、文件名仅 .jar）。同名文件需 replace=true 才覆盖。上传后需 mc_server_restart 才加载。"@,
    }
}

pub open spec fn tool_schema(t: ToolName) -> Seq<char> {
    match t {
        ToolName::EnvProbe => "{\"type\":\"object\",\"properties\":{},\"additionalProperties\":false}"@,
        ToolName::EnvInstallJava => "{\"type\":\"object\",\"properties\":{\"major\":{\"type\":\"integer\",\"minimum\":8,\"maximum\":26,\"description\":\"Java major（如 21、25）\"}},\"required\":[\"major\"],\"additionalProperties\":false}"@,
        ToolName::EnvInstallPaper => "{\"type\":\"object\",\"properties\":{\"version\":{\"type\":\"string\",\"description\":\"MC 版本，如 1.21.4\"},\"build\":{\"type\":\"integer\",\"description\":\"Paper 构建号；不填取最新\"}},\"required\":[\"version\"],\"additionalProperties\":false}"@,
        ToolName::EnvTaskStatus => "{\"type\":\"object\",\"properties\":{\"task_id\":{\"type\":\"string\"}},\"required\":[\"task_id\"],\"additionalProperties\":false}"@,
        ToolName::ServerStatus => "{\"type\":\"object\",\"properties\":{},\"additionalProperties\":false}"@,
        ToolName::ServerStart => "{\"type\":\"object\",\"properties\":{\"mc_version\":{\"type\":\"string\",\"description\":\"不填用 config.mc.default_version\"},\"heap_mb\":{\"type\":\"integer\",\"minimum\":256},\"wait_ready_secs\":{\"type\":\"integer\",\"minimum\":5,\"default\":120}},\"additionalProperties\":false}"@,
        ToolName::ServerStop => "{\"type\":\"object\",\"properties\":{\"force\":{\"type\":\"boolean\",\"default\":false}},\"additionalProperties\":false}"@,
        ToolName::ServerRestart => "{\"type\":\"object\",\"properties\":{\"mc_version\":{\"type\":\"string\"},\"heap_mb\":{\"type\":\"integer\",\"minimum\":256},\"wait_ready_secs\":{\"type\":\"integer\",\"minimum\":5,\"default\":120}},\"additionalProperties\":false}"@,
        ToolName::ServerLogs => "{\"type\":\"object\",\"properties\":{\"tail\":{\"type\":\"integer\",\"minimum\":1,\"maximum\":5000,\"default\":200}},\"additionalProperties\":false}"@,
        ToolName::ServerExec => "{\"type\":\"object\",\"properties\":{\"command\":{\"type\":\"string\",\"minLength\":1}},\"required\":[\"command\"],\"additionalProperties\":false}"@,
        ToolName::PluginList => "{\"type\":\"object\",\"properties\":{},\"additionalProperties\":false}"@,
        ToolName::PluginUploadInfo => "{\"type\":\"object\",\"properties\":{},\"additionalProperties\":false}"@,
        ToolName::PluginRemove => "{\"type\":\"object\",\"properties\":{\"filename\":{\"type\":\"string\"}},\"required\":[\"filename\"],\"additionalProperties\":false}"@,
        ToolName::FilesList => "{\"type\":\"object\",\"properties\":{\"path\":{\"type\":\"string\",\"default\":\".\",\"description\":\"相对于 work_dir 的目录路径\"}},\"additionalProperties\":false}"@,
        ToolName::FilesRead => "{\"type\":\"object\",\"properties\":{\"path\":{\"type\":\"string\",\"description\":\"相对路径，如 plugins/MyPlugin/config.yml\"}},\"required\":[\"path\"],\"additionalProperties\":false}"@,
        ToolName::FilesWrite => "{\"type\":\"object\",\"properties\":{\"path\":{\"type\":\"string\",\"description\":\"相对路径\"},\"content\":{\"type\":\"string\"}},\"required\":[\"path\",\"content\"],\"additionalProperties\":false}"@,
        ToolName::FilesReadLines => "{\"type\":\"object\",\"properties\":{\"path\":{\"type\":\"string\",\"description\":\"相对路径\"},\"start\":{\"type\":\"integer\",\"minimum\":1,\"description\":\"起始行号（含）\"},\"end\":{\"type\":\"integer\",\"minimum\":1,\"description\":\"结束行号（含），不填则到末尾\"}},\"required\":[\"path\",\"start\"],\"additionalProperties\":false}"@,
        ToolName::FilesWriteLines => "{\"type\":\"object\",\"properties\":{\"path\":{\"type\":\"string\",\"description\":\"相对路径\"},\"start\":{\"type\":\"integer\",\"minimum\":1,\"description\":\"起始行号（含）\"},\"end\":{\"type\":\"integer\",\"minimum\":1,\"description\":\"结束行号（含）\"},\"new_content\":{\"type\":\"string\",\"description\":\"替换进去的文本（可含多行）\"}},\"required\":[\"path\",\"start\",\"end\",\"new_content\"],\"additionalProperties\":false}"@,
        ToolName::FilesMkdir => "{\"type\":\"object\",\"properties\":{\"path\":{\"type\":\"string\",\"description\":\"相对目录路径\"}},\"required\":[\"path\"],\"additionalProperties\":false}"@,
        ToolName::FilesDelete => "{\"type\":\"object\",\"properties\":{\"path\":{\"type\":\"string\",\"description\":\"相对文件路径\"}},\"required\":[\"path\"],\"additionalProperties\":false}"@,
        ToolName::RconExec => "{\"type\":\"object\",\"properties\":{\"command\":{\"type\":\"string\",\"minLength\":1}},\"required\":[\"command\"],\"additionalProperties\":false}"@,
        ToolName::PluginUpload => "{\"type\":\"object\",\"properties\":{\"filename\":{\"type\":\"string\",\"description\":\"jar 文件名，如 MyPlugin.jar\"},\"content_b64\":{\"type\":\"string\",\"description\":\"jar 内容的标准 base64\"},\"replace\":{\"type\":\"boolean\",\"default\":false}},\"required\":[\"filename\",\"content_b64\"],\"additionalProperties\":false}"@,
    }
}

pub open spec fn tool_text(t: ToolName) -> Seq<char> {
    match t {
        ToolName::EnvProbe => "mc_env_probe"@,
        ToolName::EnvInstallJava => "mc_env_install_java"@,
        ToolName::EnvInstallPaper => "mc_env_install_paper"@,
        ToolName::EnvTaskStatus => "mc_env_task_status"@,
        ToolName::ServerStatus => "mc_server_status"@,
        ToolName::ServerStart => "mc_server_start"@,
        ToolName::ServerStop => "mc_server_stop"@,
        ToolName::ServerRestart => "mc_server_restart"@,
        ToolName::ServerLogs => "mc_server_logs"@,
        ToolName::ServerExec => "mc_server_exec"@,
        ToolName::PluginList => "mc_plugin_list"@,
        ToolName::PluginUploadInfo => "mc_plugin_upload_info"@,
        ToolName::PluginRemove => "mc_plugin_remove"@,
        ToolName::FilesList => "mc_files_list"@,
        ToolName::FilesRead => "mc_files_read"@,
        ToolName::FilesWrite => "mc_files_write"@,
        ToolName::FilesReadLines => "mc_files_read_lines"@,
        ToolName::FilesWriteLines => "mc_files_write_lines"@,
        ToolName::FilesMkdir => "mc_files_mkdir"@,
        ToolName::FilesDelete => "mc_files_delete"@,
        ToolName::RconExec => "mc_rcon_exec"@,
        ToolName::PluginUpload => "mc_plugin_upload"@,
    }
}

/// The tools that change something need the `mcp:full` scope.
pub open spec fn tool_writes(t: ToolName) -> bool {
    match t {
        ToolName::EnvProbe => false,
        ToolName::EnvInstallJava => true,
        ToolName::EnvInstallPaper => true,
        ToolName::EnvTaskStatus => false,
        ToolName::ServerStatus => false,
        ToolName::ServerStart => true,
        ToolName::ServerStop => true,
        ToolName::ServerRestart => true,
        ToolName::ServerLogs => false,
        ToolName::ServerExec => true,
        ToolName::PluginList => false,
        ToolName::PluginUploadInfo => false,
        ToolName::PluginRemove => true,
        ToolName::FilesList => false,
        ToolName::FilesRead => false,
        ToolName::FilesWrite => true,
        ToolName::FilesReadLines => false,
        ToolName::FilesWriteLines => true,
        ToolName::FilesMkdir => true,
        ToolName::FilesDelete => true,
        ToolName::RconExec => true,
        ToolName::PluginUpload => true,
    }
}

pub open spec fn parse_tool_s(s: Seq<char>) -> Option<ToolName> {
    if s == "mc_env_probe"@ {
        Some(ToolName::EnvProbe)
    } else if s == "mc_env_install_java"@ {
        Some(ToolName::EnvInstallJava)
    } else if s == "mc_env_install_paper"@ {
        Some(ToolName::EnvInstallPaper)
    } else if s == "mc_env_task_status"@ {
        Some(ToolName::EnvTaskStatus)
    } else if s == "mc_server_status"@ {
        Some(ToolName::ServerStatus)
    } else if s == "mc_server_start"@ {
        Some(ToolName::ServerStart)
    } else if s == "mc_server_stop"@ {
        Some(ToolName::ServerStop)
    } else if s == "mc_server_restart"@ {
        Some(ToolName::ServerRestart)
    } else if s == "mc_server_logs"@ {
        Some(ToolName::ServerLogs)
    } else if s == "mc_server_exec"@ {
        Some(ToolName::ServerExec)
    } else if s == "mc_plugin_list"@ {
        Some(ToolName::PluginList)
    } else if s == "mc_plugin_upload_info"@ {
        Some(ToolName::PluginUploadInfo)
    } else if s == "mc_plugin_remove"@ {
        Some(ToolName::PluginRemove)
    } else if s == "mc_files_list"@ {
        Some(ToolName::FilesList)
    } else if s == "mc_files_read"@ {
        Some(ToolName::FilesRead)
    } else if s == "mc_files_write"@ {
        Some(ToolName::FilesWrite)
    } else if s == "mc_files_read_lines"@ {
        Some(ToolName::FilesReadLines)
    } else if s == "mc_files_write_lines"@ {
        Some(ToolName::FilesWriteLines)
    } else if s == "mc_files_mkdir"@ {
        Some(ToolName::FilesMkdir)
    } else if s == "mc_files_delete"@ {
        Some(ToolName::FilesDelete)
    } else if s == "mc_rcon_exec"@ {
        Some(ToolName::RconExec)
    } else if s == "mc_plugin_upload"@ {
        Some(ToolName::PluginUpload)
    } else {
        None
    }
}

/// The order in which `tools/list` presents the tools.
pub open spec fn catalog_s() -> Seq<ToolName> {
    seq![
        ToolName::EnvProbe,
        ToolName::EnvInstallJava,
        ToolName::EnvInstallPaper,
        ToolName::EnvTaskStatus,
        ToolName::ServerStatus,
        ToolName::ServerStart,
        ToolName::ServerStop,
        ToolName::ServerRestart,
        ToolName::ServerLogs,
        ToolName::ServerExec,
        ToolName::PluginList,
        ToolName::PluginUploadInfo,
        ToolName::PluginRemove,
        ToolName::FilesList,
        ToolName::FilesRead,
        ToolName::FilesWrite,
        ToolName::FilesReadLines,
        ToolName::FilesWriteLines,
        ToolName::FilesMkdir,
        ToolName::FilesDelete,
        ToolName::RconExec,
        ToolName::PluginUpload,
    ]
}

impl ToolName {
    pub fn name(&self) -> (r: &'static str)
        ensures
            r@ == tool_text(*self),
    {
        match self {
            ToolName::EnvProbe => "mc_env_probe",
            ToolName::EnvInstallJava => "mc_env_install_java",
            ToolName::EnvInstallPaper => "mc_env_install_paper",
            ToolName::EnvTaskStatus => "mc_env_task_status",
            ToolName::ServerStatus => "mc_server_status",
            ToolName::ServerStart => "mc_server_start",
            ToolName::ServerStop => "mc_server_stop",
            ToolName::ServerRestart => "mc_server_restart",
            ToolName::ServerLogs => "mc_server_logs",
            ToolName::ServerExec => "mc_server_exec",
            ToolName::PluginList => "mc_plugin_list",
            ToolName::PluginUploadInfo => "mc_plugin_upload_info",
            ToolName::PluginRemove => "mc_plugin_remove",
            ToolName::FilesList => "mc_files_list",
            ToolName::FilesRead => "mc_files_read",
            ToolName::FilesWrite => "mc_files_write",
            ToolName::FilesReadLines => "mc_files_read_lines",
            ToolName::FilesWriteLines => "mc_files_write_lines",
            ToolName::FilesMkdir => "mc_files_mkdir",
            ToolName::FilesDelete => "mc_files_delete",
            ToolName::RconExec => "mc_rcon_exec",
            ToolName::PluginUpload => "mc_plugin_upload",
        }
    }

    pub fn parse(s: &str) -> (r: Option<ToolName>)
        ensures
            r == parse_tool_s(s@),
    {
        if str_eq(s, "mc_env_probe") {
            return Some(ToolName::EnvProbe);
        }
        if str_eq(s, "mc_env_install_java") {
            return Some(ToolName::EnvInstallJava);
        }
        if str_eq(s, "mc_env_install_paper") {
            return Some(ToolName::EnvInstallPaper);
        }
        if str_eq(s, "mc_env_task_status") {
            return Some(ToolName::EnvTaskStatus);
        }
        if str_eq(s, "mc_server_status") {
            return Some(ToolName::ServerStatus);
        }
        if str_eq(s, "mc_server_start") {
            return Some(ToolName::ServerStart);
        }
        if str_eq(s, "mc_server_stop") {
            return Some(ToolName::ServerStop);
        }
        if str_eq(s, "mc_server_restart") {
            return Some(ToolName::ServerRestart);
        }
        if str_eq(s, "mc_server_logs") {
            return Some(ToolName::ServerLogs);
        }
        if str_eq(s, "mc_server_exec") {
            return Some(ToolName::ServerExec);
        }
        if str_eq(s, "mc_plugin_list") {
            return Some(ToolName::PluginList);
        }
        if str_eq(s, "mc_plugin_upload_info") {
            return Some(ToolName::PluginUploadInfo);
        }
        if str_eq(s, "mc_plugin_remove") {
            return Some(ToolName::PluginRemove);
        }
        if str_eq(s, "mc_files_list") {
            return Some(ToolName::FilesList);
        }
        if str_eq(s, "mc_files_read") {
            return Some(ToolName::FilesRead);
        }
        if str_eq(s, "mc_files_write") {
            return Some(ToolName::FilesWrite);
        }
        if str_eq(s, "mc_files_read_lines") {
            return Some(ToolName::FilesReadLines);
        }
        if str_eq(s, "mc_files_write_lines") {
            return Some(ToolName::FilesWriteLines);
        }
        if str_eq(s, "mc_files_mkdir") {
            return Some(ToolName::FilesMkdir);
        }
        if str_eq(s, "mc_files_delete") {
            return Some(ToolName::FilesDelete);
        }
        if str_eq(s, "mc_rcon_exec") {
            return Some(ToolName::RconExec);
        }
        if str_eq(s, "mc_plugin_upload") {
            return Some(ToolName::PluginUpload);
        }
        None
    }

    /// Whether the tool needs the `mcp:full` scope; read-only tools run
    /// with `mcp:read` too.
    pub fn requires_full_scope(&self) -> (r: bool)
        ensures
            r == tool_writes(*self),
    {
        match self {
            ToolName::EnvProbe => false,
            ToolName::EnvInstallJava => true,
            ToolName::EnvInstallPaper => true,
            ToolName::EnvTaskStatus => false,
            ToolName::ServerStatus => false,
            ToolName::ServerStart => true,
            ToolName::ServerStop => true,
            ToolName::ServerRestart => true,
            ToolName::ServerLogs => false,
            ToolName::ServerExec => true,
            ToolName::PluginList => false,
            ToolName::PluginUploadInfo => false,
            ToolName::PluginRemove => true,
            ToolName::FilesList => false,
            ToolName::FilesRead => false,
            ToolName::FilesWrite => true,
            ToolName::FilesReadLines => false,
            ToolName::FilesWriteLines => true,
            ToolName::FilesMkdir => true,
            ToolName::FilesDelete => true,
            ToolName::RconExec => true,
            ToolName::PluginUpload => true,
        }
    }

    /// The tool's description in `tools/list`.
    pub fn description(&self) -> (r: &'static str)
        ensures
            r@ == tool_description(*self),
    {
        match self {
            ToolName::EnvProbe => "探测主机环境：OS / 架构、已检测到的 Java（path/major/vendor/source）、托管 JDK 缓存目录、Paper jar 缓存、默认 MC 版本及其所需 Java major。AI 启动调试链路时**应先调这个**。",
            ToolName::EnvInstallJava => "下载 Adoptium Temurin JRE（major 8/17/21 等）并解压到托管 JDK 缓存。返回 task_id；通过 mc_env_task_status 查进度。已安装时直接 done。",
            ToolName::EnvInstallPaper => "下载指定 MC 版本的 Paper jar。build 不填则取该版本最新构建。返回 task_id。",
            ToolName::EnvTaskStatus => "查异步下载任务的进度（status/downloaded/total/error）。任务在完成后 1 小时被 GC。",
            ToolName::ServerStatus => "返回 Paper 服务端实例当前状态：status (stopped/starting/running/stopping)、pid、mc_version、started_at、work_dir。",
            ToolName::ServerStart => "启动 Paper。缺 Java/Paper 时返回结构化错误（code=env_missing），客户端可据此调 mc_env_install_*。等到 'Done!' 日志后状态切到 running 再返回。",
            ToolName::ServerStop => "停止 Paper：先发 stop console，15 秒超时强制 kill。force=true 直接 kill。",
            ToolName::ServerRestart => "stop + start，与 mc_server_start 接受相同参数。",
            ToolName::ServerLogs => "拉最近 N 行日志（内存环最多 5000 行）。每行带 ts / stream(stdout|stderr) / text。",
            ToolName::ServerExec => "通过子进程 stdin 发 console 命令。**不返回回包文本**（命令的输出会以日志事件流出，可在数秒后调 mc_server_logs 拿）。需要回包请改用 mc_rcon_exec。",
            ToolName::PluginList => "列出 plugins/ 下所有 .jar / .jar.disabled 文件（filename/size/modified_ts）。",
            ToolName::PluginUploadInfo => "获取插件上传的 URL、鉴权头和用法说明。插件上传走 HTTP multipart（不走 MCP JSON-RPC），调此工具拿到完整的 curl 命令模板。",
            ToolName::PluginRemove => "删除一个 plugin jar（仅文件名，无路径分隔）。删除后需要重启服务端才生效。",
            ToolName::FilesList => "列出 work_dir 下指定目录的文件和子目录。默认列根目录。返回 path/is_dir/size。可用于浏览 plugins/XXX/config.yml 等任意文件。",
            ToolName::FilesRead => "读 work_dir 内任意文件（UTF-8 文本，≤2 MiB）。路径相对于服务端工作区，sandbox 防越界。文件不存在时返回 exists=false / content=空。",
            ToolName::FilesWrite => "写 work_dir 内任意文件（≤2 MiB UTF-8）。父目录不存在时自动创建。路径 sandbox 防越界。修改服务端口/RCON/世界名等配置需重启 Paper 才生效。",
            ToolName::FilesReadLines => "读文件的指定行范围。适合大文件只看一段（如日志、长配置）。行号从 1 开始。不指定 end 则读到文件末尾。",
            ToolName::FilesWriteLines => "替换文件中指定行范围的内容。行号从 1 开始。start~end 范围被 new_content 替换（可以是不同行数，实现插入/删除/替换）。文件不存在时创建。",
            ToolName::FilesMkdir => "创建目录（含中间目录）。用于在上传插件前预建 plugins/XXX/。",
            ToolName::FilesDelete => "删除一个文件。不支持删目录（防误删世界）。",
            ToolName::RconExec => "通过 RCON 发命令并**返回回包文本**（与 mc_server_exec 的区别）。仅运行中可用；端点是 127.0.0.1，密码每次启动随机生成。",
            ToolName::PluginUpload => "上传一个 Paper 插件 jar：content_b64 为 jar 的标准 base64；与 HTTP multipart 上传同样校验（≤64 MiB、ZIP 头、含 plugin.yml 或 paper-plugin.yml、文件名仅 .jar）。同名文件需 replace=true 才覆盖。上传后需 mc_server_restart 才加载。",
        }
    }

    /// The tool's input JSON Schema, as JSON text.
    pub fn input_schema(&self) -> (r: &'static str)
        ensures
            r@ == tool_schema(*self),
    {
        match self {
            ToolName::EnvProbe => "{\"type\":\"object\",\"properties\":{},\"additionalProperties\":false}",
            ToolName::EnvInstallJava => "{\"type\":\"object\",\"properties\":{\"major\":{\"type\":\"integer\",\"minimum\":8,\"maximum\":26,\"description\":\"Java major（如 21、25）\"}},\"required\":[\"major\"],\"additionalProperties\":false}",
            ToolName::EnvInstallPaper => "{\"type\":\"object\",\"properties\":{\"version\":{\"type\":\"string\",\"description\":\"MC 版本，如 1.21.4\"},\"build\":{\"type\":\"integer\",\"description\":\"Paper 构建号；不填取最新\"}},\"required\":[\"version\"],\"additionalProperties\":false}",
            ToolName::EnvTaskStatus => "{\"type\":\"object\",\"properties\":{\"task_id\":{\"type\":\"string\"}},\"required\":[\"task_id\"],\"additionalProperties\":false}",
            ToolName::ServerStatus => "{\"type\":\"object\",\"properties\":{},\"additionalProperties\":false}",
            ToolName::ServerStart => "{\"type\":\"object\",\"properties\":{\"mc_version\":{\"type\":\"string\",\"description\":\"不填用 config.mc.default_version\"},\"heap_mb\":{\"type\":\"integer\",\"minimum\":256},\"wait_ready_secs\":{\"type\":\"integer\",\"minimum\":5,\"default\":120}},\"additionalProperties\":false}",
            ToolName::ServerStop => "{\"type\":\"object\",\"properties\":{\"force\":{\"type\":\"boolean\",\"default\":false}},\"additionalProperties\":false}",
            ToolName::ServerRestart => "{\"type\":\"object\",\"properties\":{\"mc_version\":{\"type\":\"string\"},\"heap_mb\":{\"type\":\"integer\",\"minimum\":256},\"wait_ready_secs\":{\"type\":\"integer\",\"minimum\":5,\"default\":120}},\"additionalProperties\":false}",
            ToolName::ServerLogs => "{\"type\":\"object\",\"properties\":{\"tail\":{\"type\":\"integer\",\"minimum\":1,\"maximum\":5000,\"default\":200}},\"additionalProperties\":false}",
            ToolName::ServerExec => "{\"type\":\"object\",\"properties\":{\"command\":{\"type\":\"string\",\"minLength\":1}},\"required\":[\"command\"],\"additionalProperties\":false}",
            ToolName::PluginList => "{\"type\":\"object\",\"properties\":{},\"additionalProperties\":false}",
            ToolName::PluginUploadInfo => "{\"type\":\"object\",\"properties\":{},\"additionalProperties\":false}",
            ToolName::PluginRemove => "{\"type\":\"object\",\"properties\":{\"filename\":{\"type\":\"string\"}},\"required\":[\"filename\"],\"additionalProperties\":false}",
            ToolName::FilesList => "{\"type\":\"object\",\"properties\":{\"path\":{\"type\":\"string\",\"default\":\".\",\"description\":\"相对于 work_dir 的目录路径\"}},\"additionalProperties\":false}",
            ToolName::FilesRead => "{\"type\":\"object\",\"properties\":{\"path\":{\"type\":\"string\",\"description\":\"相对路径，如 plugins/MyPlugin/config.yml\"}},\"required\":[\"path\"],\"additionalProperties\":false}",
            ToolName::FilesWrite => "{\"type\":\"object\",\"properties\":{\"path\":{\"type\":\"string\",\"description\":\"相对路径\"},\"content\":{\"type\":\"string\"}},\"required\":[\"path\",\"content\"],\"additionalProperties\":false}",
            ToolName::FilesReadLines => "{\"type\":\"object\",\"properties\":{\"path\":{\"type\":\"string\",\"description\":\"相对路径\"},\"start\":{\"type\":\"integer\",\"minimum\":1,\"description\":\"起始行号（含）\"},\"end\":{\"type\":\"integer\",\"minimum\":1,\"description\":\"结束行号（含），不填则到末尾\"}},\"required\":[\"path\",\"start\"],\"additionalProperties\":false}",
            ToolName::FilesWriteLines => "{\"type\":\"object\",\"properties\":{\"path\":{\"type\":\"string\",\"description\":\"相对路径\"},\"start\":{\"type\":\"integer\",\"minimum\":1,\"description\":\"起始行号（含）\"},\"end\":{\"type\":\"integer\",\"minimum\":1,\"description\":\"结束行号（含）\"},\"new_content\":{\"type\":\"string\",\"description\":\"替换进去的文本（可含多行）\"}},\"required\":[\"path\",\"start\",\"end\",\"new_content\"],\"additionalProperties\":false}",
            ToolName::FilesMkdir => "{\"type\":\"object\",\"properties\":{\"path\":{\"type\":\"string\",\"description\":\"相对目录路径\"}},\"required\":[\"path\"],\"additionalProperties\":false}",
            ToolName::FilesDelete => "{\"type\":\"object\",\"properties\":{\"path\":{\"type\":\"string\",\"description\":\"相对文件路径\"}},\"required\":[\"path\"],\"additionalProperties\":false}",
            ToolName::RconExec => "{\"type\":\"object\",\"properties\":{\"command\":{\"type\":\"string\",\"minLength\":1}},\"required\":[\"command\"],\"additionalProperties\":false}",
            ToolName::PluginUpload => "{\"type\":\"object\",\"properties\":{\"filename\":{\"type\":\"string\",\"description\":\"jar 文件名，如 MyPlugin.jar\"},\"content_b64\":{\"type\":\"string\",\"description\":\"jar 内容的标准 base64\"},\"replace\":{\"type\":\"boolean\",\"default\":false}},\"required\":[\"filename\",\"content_b64\"],\"additionalProperties\":false}",
        }
    }
}

/// The tools `tools/list` presents, in order.
pub fn tool_catalog() -> (r: Vec<ToolName>)
    ensures
        r@ == catalog_s(),
{
    let mut v: Vec<ToolName> = Vec::new();
    v.push(ToolName::EnvProbe);
    v.push(ToolName::EnvInstallJava);
    v.push(ToolName::EnvInstallPaper);
    v.push(ToolName::EnvTaskStatus);
    v.push(ToolName::ServerStatus);
    v.push(ToolName::ServerStart);
    v.push(ToolName::ServerStop);
    v.push(ToolName::ServerRestart);
    v.push(ToolName::ServerLogs);
    v.push(ToolName::ServerExec);
    v.push(ToolName::PluginList);
    v.push(ToolName::PluginUploadInfo);
    v.push(ToolName::PluginRemove);
    v.push(ToolName::FilesList);
    v.push(ToolName::FilesRead);
    v.push(ToolName::FilesWrite);
    v.push(ToolName::FilesReadLines);
    v.push(ToolName::FilesWriteLines);
    v.push(ToolName::FilesMkdir);
    v.push(ToolName::FilesDelete);
    v.push(ToolName::RconExec);
    v.push(ToolName::PluginUpload);
    assert(v@ =~= catalog_s());
    v
}

/// Every tool's name parses back to that tool: a client that calls what it
/// was offered reaches that tool.
#[verifier::rlimit(40)]
pub proof fn lemma_tool_name_roundtrip(t: ToolName)
    ensures
        parse_tool_s(tool_text(t)) == Some(t),
{
    reveal_strlit("mc_env_probe");
    reveal_strlit("mc_env_install_java");
    reveal_strlit("mc_env_install_paper");
    reveal_strlit("mc_env_task_status");
    reveal_strlit("mc_server_status");
    reveal_strlit("mc_server_start");
    reveal_strlit("mc_server_stop");
    reveal_strlit("mc_server_restart");
    reveal_strlit("mc_server_logs");
    reveal_strlit("mc_server_exec");
    reveal_strlit("mc_plugin_list");
    reveal_strlit("mc_plugin_upload_info");
    reveal_strlit("mc_plugin_remove");
    reveal_strlit("mc_files_list");
    reveal_strlit("mc_files_read");
    reveal_strlit("mc_files_write");
    reveal_strlit("mc_files_read_lines");
    reveal_strlit("mc_files_write_lines");
    reveal_strlit("mc_files_mkdir");
    reveal_strlit("mc_files_delete");
    reveal_strlit("mc_rcon_exec");
    reveal_strlit("mc_plugin_upload");
    match t {
        ToolName::EnvProbe => {},
        ToolName::EnvInstallJava => {
            assert(tool_text(ToolName::EnvInstallJava).len() != tool_text(ToolName::EnvProbe).len());
        },
        ToolName::EnvInstallPaper => {
            assert(tool_text(ToolName::EnvInstallPaper).len() != tool_text(ToolName::EnvProbe).len());
            assert(tool_text(ToolName::EnvInstallPaper).len() != tool_text(ToolName::EnvInstallJava).len());
        },
        ToolName::EnvTaskStatus => {
            assert(tool_text(ToolName::EnvTaskStatus).len() != tool_text(ToolName::EnvProbe).len());
            assert(tool_text(ToolName::EnvTaskStatus).len() != tool_text(ToolName::EnvInstallJava).len());
            assert(tool_text(ToolName::EnvTaskStatus).len() != tool_text(ToolName::EnvInstallPaper).len());
        },
        ToolName::ServerStatus => {
            assert(tool_text(ToolName::ServerStatus).len() != tool_text(ToolName::EnvProbe).len());
            assert(tool_text(ToolName::ServerStatus).len() != tool_text(ToolName::EnvInstallJava).len());
            assert(tool_text(ToolName::ServerStatus).len() != tool_text(ToolName::EnvInstallPaper).len());
            assert(tool_text(ToolName::ServerStatus).len() != tool_text(ToolName::EnvTaskStatus).len());
        },
        ToolName::ServerStart => {
            assert(tool_text(ToolName::ServerStart).len() != tool_text(ToolName::EnvProbe).len());
            assert(tool_text(ToolName::ServerStart).len() != tool_text(ToolName::EnvInstallJava).len());
            assert(tool_text(ToolName::ServerStart).len() != tool_text(ToolName::EnvInstallPaper).len());
            assert(tool_text(ToolName::ServerStart).len() != tool_text(ToolName::EnvTaskStatus).len());
            assert(tool_text(ToolName::ServerStart).len() != tool_text(ToolName::ServerStatus).len());
        },
        ToolName::ServerStop => {
            assert(tool_text(ToolName::ServerStop).len() != tool_text(ToolName::EnvProbe).len());
            assert(tool_text(ToolName::ServerStop).len() != tool_text(ToolName::EnvInstallJava).len());
            assert(tool_text(ToolName::ServerStop).len() != tool_text(ToolName::EnvInstallPaper).len());
            assert(tool_text(ToolName::ServerStop).len() != tool_text(ToolName::EnvTaskStatus).len());
            assert(tool_text(ToolName::ServerStop).len() != tool_text(ToolName::ServerStatus).len());
            assert(tool_text(ToolName::ServerStop).len() != tool_text(ToolName::ServerStart).len());
        },
        ToolName::ServerRestart => {
            assert(tool_text(ToolName::ServerRestart).len() != tool_text(ToolName::EnvProbe).len());
            assert(tool_text(ToolName::ServerRestart).len() != tool_text(ToolName::EnvInstallJava).len());
            assert(tool_text(ToolName::ServerRestart).len() != tool_text(ToolName::EnvInstallPaper).len());
            assert(tool_text(ToolName::ServerRestart).len() != tool_text(ToolName::EnvTaskStatus).len());
            assert(tool_text(ToolName::ServerRestart).len() != tool_text(ToolName::ServerStatus).len());
            assert(tool_text(ToolName::ServerRestart).len() != tool_text(ToolName::ServerStart).len());
            assert(tool_text(ToolName::ServerRestart).len() != tool_text(ToolName::ServerStop).len());
        },
        ToolName::ServerLogs => {
            assert(tool_text(ToolName::ServerLogs).len() != tool_text(ToolName::EnvProbe).len());
            assert(tool_text(ToolName::ServerLogs).len() != tool_text(ToolName::EnvInstallJava).len());
            assert(tool_text(ToolName::ServerLogs).len() != tool_text(ToolName::EnvInstallPaper).len());
            assert(tool_text(ToolName::ServerLogs).len() != tool_text(ToolName::EnvTaskStatus).len());
            assert(tool_text(ToolName::ServerLogs).len() != tool_text(ToolName::ServerStatus).len());
            assert(tool_text(ToolName::ServerLogs).len() != tool_text(ToolName::ServerStart).len());
            assert(tool_text(ToolName::ServerLogs)[10] != tool_text(ToolName::ServerStop)[10]);
            assert(tool_text(ToolName::ServerLogs).len() != tool_text(ToolName::ServerRestart).len());
        },
        ToolName::ServerExec => {
            assert(tool_text(ToolName::ServerExec).len() != tool_text(ToolName::EnvProbe).len());
            assert(tool_text(ToolName::ServerExec).len() != tool_text(ToolName::EnvInstallJava).len());
            assert(tool_text(ToolName::ServerExec).len() != tool_text(ToolName::EnvInstallPaper).len());
            assert(tool_text(ToolName::ServerExec).len() != tool_text(ToolName::EnvTaskStatus).len());
            assert(tool_text(ToolName::ServerExec).len() != tool_text(ToolName::ServerStatus).len());
            assert(tool_text(ToolName::ServerExec).len() != tool_text(ToolName::ServerStart).len());
            assert(tool_text(ToolName::ServerExec)[10] != tool_text(ToolName::ServerStop)[10]);
            assert(tool_text(ToolName::ServerExec).len() != tool_text(ToolName::ServerRestart).len());
            assert(tool_text(ToolName::ServerExec)[10] != tool_text(ToolName::ServerLogs)[10]);
        },
        ToolName::PluginList => {
            assert(tool_text(ToolName::PluginList).len() != tool_text(ToolName::EnvProbe).len());
            assert(tool_text(ToolName::PluginList).len() != tool_text(ToolName::EnvInstallJava).len());
            assert(tool_text(ToolName::PluginList).len() != tool_text(ToolName::EnvInstallPaper).len());
            assert(tool_text(ToolName::PluginList).len() != tool_text(ToolName::EnvTaskStatus).len());
            assert(tool_text(ToolName::PluginList).len() != tool_text(ToolName::ServerStatus).len());
            assert(tool_text(ToolName::PluginList).len() != tool_text(ToolName::ServerStart).len());
            assert(tool_text(ToolName::PluginList)[3] != tool_text(ToolName::ServerStop)[3]);
            assert(tool_text(ToolName::PluginList).len() != tool_text(ToolName::ServerRestart).len());
            assert(tool_text(ToolName::PluginList)[3] != tool_text(ToolName::ServerLogs)[3]);
            assert(tool_text(ToolName::PluginList)[3] != tool_text(ToolName::ServerExec)[3]);
        },
        ToolName::PluginUploadInfo => {
            assert(tool_text(ToolName::PluginUploadInfo).len() != tool_text(ToolName::EnvProbe).len());
            assert(tool_text(ToolName::PluginUploadInfo).len() != tool_text(ToolName::EnvInstallJava).len());
            assert(tool_text(ToolName::PluginUploadInfo).len() != tool_text(ToolName::EnvInstallPaper).len());
            assert(tool_text(ToolName::PluginUploadInfo).len() != tool_text(ToolName::EnvTaskStatus).len());
            assert(tool_text(ToolName::PluginUploadInfo).len() != tool_text(ToolName::ServerStatus).len());
            assert(tool_text(ToolName::PluginUploadInfo).len() != tool_text(ToolName::ServerStart).len());
            assert(tool_text(ToolName::PluginUploadInfo).len() != tool_text(ToolName::ServerStop).len());
            assert(tool_text(ToolName::PluginUploadInfo).len() != tool_text(ToolName::ServerRestart).len());
            assert(tool_text(ToolName::PluginUploadInfo).len() != tool_text(ToolName::ServerLogs).len());
            assert(tool_text(ToolName::PluginUploadInfo).len() != tool_text(ToolName::ServerExec).len());
            assert(tool_text(ToolName::PluginUploadInfo).len() != tool_text(ToolName::PluginList).len());
        },
        ToolName::PluginRemove => {
            assert(tool_text(ToolName::PluginRemove).len() != tool_text(ToolName::EnvProbe).len());
            assert(tool_text(ToolName::PluginRemove).len() != tool_text(ToolName::EnvInstallJava).len());
            assert(tool_text(ToolName::PluginRemove).len() != tool_text(ToolName::EnvInstallPaper).len());
            assert(tool_text(ToolName::PluginRemove).len() != tool_text(ToolName::EnvTaskStatus).len());
            assert(tool_text(ToolName::PluginRemove)[3] != tool_text(ToolName::ServerStatus)[3]);
            assert(tool_text(ToolName::PluginRemove).len() != tool_text(ToolName::ServerStart).len());
            assert(tool_text(ToolName::PluginRemove).len() != tool_text(ToolName::ServerStop).len());
            assert(tool_text(ToolName::PluginRemove).len() != tool_text(ToolName::ServerRestart).len());
            assert(tool_text(ToolName::PluginRemove).len() != tool_text(ToolName::ServerLogs).len());
            assert(tool_text(ToolName::PluginRemove).len() != tool_text(ToolName::ServerExec).len());
            assert(tool_text(ToolName::PluginRemove).len() != tool_text(ToolName::PluginList).len());
            assert(tool_text(ToolName::PluginRemove).len() != tool_text(ToolName::PluginUploadInfo).len());
        },
        ToolName::FilesList => {
            assert(tool_text(ToolName::FilesList).len() != tool_text(ToolName::EnvProbe).len());
            assert(tool_text(ToolName::FilesList).len() != tool_text(ToolName::EnvInstallJava).len());
            assert(tool_text(ToolName::FilesList).len() != tool_text(ToolName::EnvInstallPaper).len());
            assert(tool_text(ToolName::FilesList).len() != tool_text(ToolName::EnvTaskStatus).len());
            assert(tool_text(ToolName::FilesList).len() != tool_text(ToolName::ServerStatus).len());
            assert(tool_text(ToolName::FilesList).len() != tool_text(ToolName::ServerStart).len());
            assert(tool_text(ToolName::FilesList).len() != tool_text(ToolName::ServerStop).len());
            assert(tool_text(ToolName::FilesList).len() != tool_text(ToolName::ServerRestart).len());
            assert(tool_text(ToolName::FilesList).len() != tool_text(ToolName::ServerLogs).len());
            assert(tool_text(ToolName::FilesList).len() != tool_text(ToolName::ServerExec).len());
            assert(tool_text(ToolName::FilesList).len() != tool_text(ToolName::PluginList).len());
            assert(tool_text(ToolName::FilesList).len() != tool_text(ToolName::PluginUploadInfo).len());
            assert(tool_text(ToolName::FilesList).len() != tool_text(ToolName::PluginRemove).len());
        },
        ToolName::FilesRead => {
            assert(tool_text(ToolName::FilesRead).len() != tool_text(ToolName::EnvProbe).len());
            assert(tool_text(ToolName::FilesRead).len() != tool_text(ToolName::EnvInstallJava).len());
            assert(tool_text(ToolName::FilesRead).len() != tool_text(ToolName::EnvInstallPaper).len());
            assert(tool_text(ToolName::FilesRead).len() != tool_text(ToolName::EnvTaskStatus).len());
            assert(tool_text(ToolName::FilesRead).len() != tool_text(ToolName::ServerStatus).len());
            assert(tool_text(ToolName::FilesRead).len() != tool_text(ToolName::ServerStart).len());
            assert(tool_text(ToolName::FilesRead).len() != tool_text(ToolName::ServerStop).len());
            assert(tool_text(ToolName::FilesRead).len() != tool_text(ToolName::ServerRestart).len());
            assert(tool_text(ToolName::FilesRead).len() != tool_text(ToolName::ServerLogs).len());
            assert(tool_text(ToolName::FilesRead).len() != tool_text(ToolName::ServerExec).len());
            assert(tool_text(ToolName::FilesRead).len() != tool_text(ToolName::PluginList).len());
            assert(tool_text(ToolName::FilesRead).len() != tool_text(ToolName::PluginUploadInfo).len());
            assert(tool_text(ToolName::FilesRead).len() != tool_text(ToolName::PluginRemove).len());
            assert(tool_text(ToolName::FilesRead)[9] != tool_text(ToolName::FilesList)[9]);
        },
        ToolName::FilesWrite => {
            assert(tool_text(ToolName::FilesWrite).len() != tool_text(ToolName::EnvProbe).len());
            assert(tool_text(ToolName::FilesWrite).len() != tool_text(ToolName::EnvInstallJava).len());
            assert(tool_text(ToolName::FilesWrite).len() != tool_text(ToolName::EnvInstallPaper).len());
            assert(tool_text(ToolName::FilesWrite).len() != tool_text(ToolName::EnvTaskStatus).len());
            assert(tool_text(ToolName::FilesWrite).len() != tool_text(ToolName::ServerStatus).len());
            assert(tool_text(ToolName::FilesWrite).len() != tool_text(ToolName::ServerStart).len());
            assert(tool_text(ToolName::FilesWrite)[3] != tool_text(ToolName::ServerStop)[3]);
            assert(tool_text(ToolName::FilesWrite).len() != tool_text(ToolName::ServerRestart).len());
            assert(tool_text(ToolName::FilesWrite)[3] != tool_text(ToolName::ServerLogs)[3]);
            assert(tool_text(ToolName::FilesWrite)[3] != tool_text(ToolName::ServerExec)[3]);
            assert(tool_text(ToolName::FilesWrite)[3] != tool_text(ToolName::PluginList)[3]);
            assert(tool_text(ToolName::FilesWrite).len() != tool_text(ToolName::PluginUploadInfo).len());
            assert(tool_text(ToolName::FilesWrite).len() != tool_text(ToolName::PluginRemove).len());
            assert(tool_text(ToolName::FilesWrite).len() != tool_text(ToolName::FilesList).len());
            assert(tool_text(ToolName::FilesWrite).len() != tool_text(ToolName::FilesRead).len());
        },
        ToolName::FilesReadLines => {
            assert(tool_text(ToolName::FilesReadLines).len() != tool_text(ToolName::EnvProbe).len());
            assert(tool_text(ToolName::FilesReadLines)[3] != tool_text(ToolName::EnvInstallJava)[3]);
            assert(tool_text(ToolName::FilesReadLines).len() != tool_text(ToolName::EnvInstallPaper).len());
            assert(tool_text(ToolName::FilesReadLines).len() != tool_text(ToolName::EnvTaskStatus).len());
            assert(tool_text(ToolName::FilesReadLines).len() != tool_text(ToolName::ServerStatus).len());
            assert(tool_text(ToolName::FilesReadLines).len() != tool_text(ToolName::ServerStart).len());
            assert(tool_text(ToolName::FilesReadLines).len() != tool_text(ToolName::ServerStop).len());
            assert(tool_text(ToolName::FilesReadLines).len() != tool_text(ToolName::ServerRestart).len());
            assert(tool_text(ToolName::FilesReadLines).len() != tool_text(ToolName::ServerLogs).len());
            assert(tool_text(ToolName::FilesReadLines).len() != tool_text(ToolName::ServerExec).len());
            assert(tool_text(ToolName::FilesReadLines).len() != tool_text(ToolName::PluginList).len());
            assert(tool_text(ToolName::FilesReadLines).len() != tool_text(ToolName::PluginUploadInfo).len());
            assert(tool_text(ToolName::FilesReadLines).len() != tool_text(ToolName::PluginRemove).len());
            assert(tool_text(ToolName::FilesReadLines).len() != tool_text(ToolName::FilesList).len());
            assert(tool_text(ToolName::FilesReadLines).len() != tool_text(ToolName::FilesRead).len());
            assert(tool_text(ToolName::FilesReadLines).len() != tool_text(ToolName::FilesWrite).len());
        },
        ToolName::FilesWriteLines => {
            assert(tool_text(ToolName::FilesWriteLines).len() != tool_text(ToolName::EnvProbe).len());
            assert(tool_text(ToolName::FilesWriteLines).len() != tool_text(ToolName::EnvInstallJava).len());
            assert(tool_text(ToolName::FilesWriteLines)[3] != tool_text(ToolName::EnvInstallPaper)[3]);
            assert(tool_text(ToolName::FilesWriteLines).len() != tool_text(ToolName::EnvTaskStatus).len());
            assert(tool_text(ToolName::FilesWriteLines).len() != tool_text(ToolName::ServerStatus).len());
            assert(tool_text(ToolName::FilesWriteLines).len() != tool_text(ToolName::ServerStart).len());
            assert(tool_text(ToolName::FilesWriteLines).len() != tool_text(ToolName::ServerStop).len());
            assert(tool_text(ToolName::FilesWriteLines).len() != tool_text(ToolName::ServerRestart).len());
            assert(tool_text(ToolName::FilesWriteLines).len() != tool_text(ToolName::ServerLogs).len());
            assert(tool_text(ToolName::FilesWriteLines).len() != tool_text(ToolName::ServerExec).len());
            assert(tool_text(ToolName::FilesWriteLines).len() != tool_text(ToolName::PluginList).len());
            assert(tool_text(ToolName::FilesWriteLines).len() != tool_text(ToolName::PluginUploadInfo).len());
            assert(tool_text(ToolName::FilesWriteLines).len() != tool_text(ToolName::PluginRemove).len());
            assert(tool_text(ToolName::FilesWriteLines).len() != tool_text(ToolName::FilesList).len());
            assert(tool_text(ToolName::FilesWriteLines).len() != tool_text(ToolName::FilesRead).len());
            assert(tool_text(ToolName::FilesWriteLines).len() != tool_text(ToolName::FilesWrite).len());
            assert(tool_text(ToolName::FilesWriteLines).len() != tool_text(ToolName::FilesReadLines).len());
        },
        ToolName::FilesMkdir => {
            assert(tool_text(ToolName::FilesMkdir).len() != tool_text(ToolName::EnvProbe).len());
            assert(tool_text(ToolName::FilesMkdir).len() != tool_text(ToolName::EnvInstallJava).len());
            assert(tool_text(ToolName::FilesMkdir).len() != tool_text(ToolName::EnvInstallPaper).len());
            assert(tool_text(ToolName::FilesMkdir).len() != tool_text(ToolName::EnvTaskStatus).len());
            assert(tool_text(ToolName::FilesMkdir).len() != tool_text(ToolName::ServerStatus).len());
            assert(tool_text(ToolName::FilesMkdir).len() != tool_text(ToolName::ServerStart).len());
            assert(tool_text(ToolName::FilesMkdir)[3] != tool_text(ToolName::ServerStop)[3]);
            assert(tool_text(ToolName::FilesMkdir).len() != tool_text(ToolName::ServerRestart).len());
            assert(tool_text(ToolName::FilesMkdir)[3] != tool_text(ToolName::ServerLogs)[3]);
            assert(tool_text(ToolName::FilesMkdir)[3] != tool_text(ToolName::ServerExec)[3]);
            assert(tool_text(ToolName::FilesMkdir)[3] != tool_text(ToolName::PluginList)[3]);
            assert(tool_text(ToolName::FilesMkdir).len() != tool_text(ToolName::PluginUploadInfo).len());
            assert(tool_text(ToolName::FilesMkdir).len() != tool_text(ToolName::PluginRemove).len());
            assert(tool_text(ToolName::FilesMkdir).len() != tool_text(ToolName::FilesList).len());
            assert(tool_text(ToolName::FilesMkdir).len() != tool_text(ToolName::FilesRead).len());
            assert(tool_text(ToolName::FilesMkdir)[9] != tool_text(ToolName::FilesWrite)[9]);
            assert(tool_text(ToolName::FilesMkdir).len() != tool_text(ToolName::FilesReadLines).len());
            assert(tool_text(ToolName::FilesMkdir).len() != tool_text(ToolName::FilesWriteLines).len());
        },
        ToolName::FilesDelete => {
            assert(tool_text(ToolName::FilesDelete).len() != tool_text(ToolName::EnvProbe).len());
            assert(tool_text(ToolName::FilesDelete).len() != tool_text(ToolName::EnvInstallJava).len());
            assert(tool_text(ToolName::FilesDelete).len() != tool_text(ToolName::EnvInstallPaper).len());
            assert(tool_text(ToolName::FilesDelete).len() != tool_text(ToolName::EnvTaskStatus).len());
            assert(tool_text(ToolName::FilesDelete).len() != tool_text(ToolName::ServerStatus).len());
            assert(tool_text(ToolName::FilesDelete)[3] != tool_text(ToolName::ServerStart)[3]);
            assert(tool_text(ToolName::FilesDelete).len() != tool_text(ToolName::ServerStop).len());
            assert(tool_text(ToolName::FilesDelete).len() != tool_text(ToolName::ServerRestart).len());
            assert(tool_text(ToolName::FilesDelete).len() != tool_text(ToolName::ServerLogs).len());
            assert(tool_text(ToolName::FilesDelete).len() != tool_text(ToolName::ServerExec).len());
            assert(tool_text(ToolName::FilesDelete).len() != tool_text(ToolName::PluginList).len());
            assert(tool_text(ToolName::FilesDelete).len() != tool_text(ToolName::PluginUploadInfo).len());
            assert(tool_text(ToolName::FilesDelete).len() != tool_text(ToolName::PluginRemove).len());
            assert(tool_text(ToolName::FilesDelete).len() != tool_text(ToolName::FilesList).len());
            assert(tool_text(ToolName::FilesDelete).len() != tool_text(ToolName::FilesRead).len());
            assert(tool_text(ToolName::FilesDelete).len() != tool_text(ToolName::FilesWrite).len());
            assert(tool_text(ToolName::FilesDelete).len() != tool_text(ToolName::FilesReadLines).len());
            assert(tool_text(ToolName::FilesDelete).len() != tool_text(ToolName::FilesWriteLines).len());
            assert(tool_text(ToolName::FilesDelete).len() != tool_text(ToolName::FilesMkdir).len());
        },
        ToolName::RconExec => {
            assert(tool_text(ToolName::RconExec)[3] != tool_text(ToolName::EnvProbe)[3]);
            assert(tool_text(ToolName::RconExec).len() != tool_text(ToolName::EnvInstallJava).len());
            assert(tool_text(ToolName::RconExec).len() != tool_text(ToolName::EnvInstallPaper).len());
            assert(tool_text(ToolName::RconExec).len() != tool_text(ToolName::EnvTaskStatus).len());
            assert(tool_text(ToolName::RconExec).len() != tool_text(ToolName::ServerStatus).len());
            assert(tool_text(ToolName::RconExec).len() != tool_text(ToolName::ServerStart).len());
            assert(tool_text(ToolName::RconExec).len() != tool_text(ToolName::ServerStop).len());
            assert(tool_text(ToolName::RconExec).len() != tool_text(ToolName::ServerRestart).len());
            assert(tool_text(ToolName::RconExec).len() != tool_text(ToolName::ServerLogs).len());
            assert(tool_text(ToolName::RconExec).len() != tool_text(ToolName::ServerExec).len());
            assert(tool_text(ToolName::RconExec).len() != tool_text(ToolName::PluginList).len());
            assert(tool_text(ToolName::RconExec).len() != tool_text(ToolName::PluginUploadInfo).len());
            assert(tool_text(ToolName::RconExec).len() != tool_text(ToolName::PluginRemove).len());
            assert(tool_text(ToolName::RconExec).len() != tool_text(ToolName::FilesList).len());
            assert(tool_text(ToolName::RconExec).len() != tool_text(ToolName::FilesRead).len());
            assert(tool_text(ToolName::RconExec).len() != tool_text(ToolName::FilesWrite).len());
            assert(tool_text(ToolName::RconExec).len() != tool_text(ToolName::FilesReadLines).len());
            assert(tool_text(ToolName::RconExec).len() != tool_text(ToolName::FilesWriteLines).len());
            assert(tool_text(ToolName::RconExec).len() != tool_text(ToolName::FilesMkdir).len());
            assert(tool_text(ToolName::RconExec).len() != tool_text(ToolName::FilesDelete).len());
        },
        ToolName::PluginUpload => {
            assert(tool_text(ToolName::PluginUpload).len() != tool_text(ToolName::EnvProbe).len());
            assert(tool_text(ToolName::PluginUpload).len() != tool_text(ToolName::EnvInstallJava).len());
            assert(tool_text(ToolName::PluginUpload).len() != tool_text(ToolName::EnvInstallPaper).len());
            assert(tool_text(ToolName::PluginUpload).len() != tool_text(ToolName::EnvTaskStatus).len());
            assert(tool_text(ToolName::PluginUpload)[3] != tool_text(ToolName::ServerStatus)[3]);
            assert(tool_text(ToolName::PluginUpload).len() != tool_text(ToolName::ServerStart).len());
            assert(tool_text(ToolName::PluginUpload).len() != tool_text(ToolName::ServerStop).len());
            assert(tool_text(ToolName::PluginUpload).len() != tool_text(ToolName::ServerRestart).len());
            assert(tool_text(ToolName::PluginUpload).len() != tool_text(ToolName::ServerLogs).len());
            assert(tool_text(ToolName::PluginUpload).len() != tool_text(ToolName::ServerExec).len());
            assert(tool_text(ToolName::PluginUpload).len() != tool_text(ToolName::PluginList).len());
            assert(tool_text(ToolName::PluginUpload).len() != tool_text(ToolName::PluginUploadInfo).len());
            assert(tool_text(ToolName::PluginUpload)[10] != tool_text(ToolName::PluginRemove)[10]);
            assert(tool_text(ToolName::PluginUpload).len() != tool_text(ToolName::FilesList).len());
            assert(tool_text(ToolName::PluginUpload).len() != tool_text(ToolName::FilesRead).len());
            assert(tool_text(ToolName::PluginUpload).len() != tool_text(ToolName::FilesWrite).len());
            assert(tool_text(ToolName::PluginUpload).len() != tool_text(ToolName::FilesReadLines).len());
            assert(tool_text(ToolName::PluginUpload).len() != tool_text(ToolName::FilesWriteLines).len());
            assert(tool_text(ToolName::PluginUpload).len() != tool_text(ToolName::FilesMkdir).len());
            assert(tool_text(ToolName::PluginUpload).len() != tool_text(ToolName::FilesDelete).len());
            assert(tool_text(ToolName::PluginUpload).len() != tool_text(ToolName::RconExec).len());
        },
    }
}

/// Every tool is listed, and none twice.
pub proof fn lemma_catalog_complete(t: ToolName)
    ensures
        catalog_s().contains(t),
        forall|i: int, j: int|
            0 <= i < j < catalog_s().len() ==> catalog_s()[i] != catalog_s()[j],
{
    match t {
        ToolName::EnvProbe => assert(catalog_s()[0] == t),
        ToolName::EnvInstallJava => assert(catalog_s()[1] == t),
        ToolName::EnvInstallPaper => assert(catalog_s()[2] == t),
        ToolName::EnvTaskStatus => assert(catalog_s()[3] == t),
        ToolName::ServerStatus => assert(catalog_s()[4] == t),
        ToolName::ServerStart => assert(catalog_s()[5] == t),
        ToolName::ServerStop => assert(catalog_s()[6] == t),
        ToolName::ServerRestart => assert(catalog_s()[7] == t),
        ToolName::ServerLogs => assert(catalog_s()[8] == t),
        ToolName::ServerExec => assert(catalog_s()[9] == t),
        ToolName::PluginList => assert(catalog_s()[10] == t),
        ToolName::PluginUploadInfo => assert(catalog_s()[11] == t),
        ToolName::PluginRemove => assert(catalog_s()[12] == t),
        ToolName::FilesList => assert(catalog_s()[13] == t),
        ToolName::FilesRead => assert(catalog_s()[14] == t),
        ToolName::FilesWrite => assert(catalog_s()[15] == t),
        ToolName::FilesReadLines => assert(catalog_s()[16] == t),
        ToolName::FilesWriteLines => assert(catalog_s()[17] == t),
        ToolName::FilesMkdir => assert(catalog_s()[18] == t),
        ToolName::FilesDelete => assert(catalog_s()[19] == t),
        ToolName::RconExec => assert(catalog_s()[20] == t),
        ToolName::PluginUpload => assert(catalog_s()[21] == t),
    }
}

/// A key may call a tool when the tool only reads, or the key's scope
/// covers `mcp:full`.
pub open spec fn may_call(scope: ApiKeyScope, t: ToolName) -> bool {
    !tool_writes(t) || scope_covers(scope, ApiKeyScope::McpFull)
}

/// A read-only key can call exactly the read-only tools; a full key can
/// call every tool.
pub proof fn lemma_scope_gates_tools(t: ToolName)
    ensures
        may_call(ApiKeyScope::McpFull, t),
        may_call(ApiKeyScope::McpRead, t) <==> !tool_writes(t),
{
}

// ---------------------------------------------------------------------------
// JSON-RPC
// ---------------------------------------------------------------------------

/// The protocol version answered to `initialize`.
pub fn protocol_version() -> (r: &'static str)
    ensures
        r@ == "2024-11-05"@,
{
    "2024-11-05"
}

/// The `jsonrpc` value assumed when a request leaves it out.
pub fn default_jsonrpc() -> (r: String)
    ensures
        r@ == "2.0"@,
{
    owned("2.0")
}

pub const PARSE_ERROR: i32 = -32700;

pub const INVALID_REQUEST: i32 = -32600;

pub const METHOD_NOT_FOUND: i32 = -32601;

pub const INVALID_PARAMS: i32 = -32602;

pub const INTERNAL_ERROR: i32 = -32603;

/// A tool ran and failed.
pub const TOOL_ERROR: i32 = -32000;

/// A failed request, as a JSON-RPC error.  `scope_refused` marks a tool
/// refused to a key whose scope does not cover it (its code is still
/// `TOOL_ERROR`; only the HTTP status differs).
#[derive(Debug)]
pub struct DispatchError {
    pub code: i32,
    pub message: String,
    pub scope_refused: bool,
}

impl DispatchError {
    pub fn invalid_params(msg: String) -> (r: DispatchError)
        ensures
            r.code == INVALID_PARAMS,
            r.message == msg,
            r.scope_refused == false,
    {
        DispatchError { code: INVALID_PARAMS, message: msg, scope_refused: false }
    }

    pub fn tool(msg: String) -> (r: DispatchError)
        ensures
            r.code == TOOL_ERROR,
            r.message == msg,
            r.scope_refused == false,
    {
        DispatchError { code: TOOL_ERROR, message: msg, scope_refused: false }
    }

    pub fn forbidden(msg: String) -> (r: DispatchError)
        ensures
            r.code == TOOL_ERROR,
            r.message == msg,
            r.scope_refused == true,
    {
        DispatchError { code: TOOL_ERROR, message: msg, scope_refused: true }
    }

    pub fn internal(msg: String) -> (r: DispatchError)
        ensures
            r.code == INTERNAL_ERROR,
            r.message == msg,
            r.scope_refused == false,
    {
        DispatchError { code: INTERNAL_ERROR, message: msg, scope_refused: false }
    }
}

/// Protocol failures are answered with 400 and a key whose scope does not
/// cover the tool with 403; every other failure, a tool's own among them,
/// travels in a 200 answer whose body carries the JSON-RPC error.
pub open spec fn error_http_status(code: i32, scope_refused: bool) -> u16 {
    if code == PARSE_ERROR || code == INVALID_REQUEST || code == METHOD_NOT_FOUND || code
        == INVALID_PARAMS {
        400
    } else if scope_refused {
        403
    } else {
        200
    }
}

pub fn http_status_for(e: &DispatchError) -> (r: u16)
    ensures
        r == error_http_status(e.code, e.scope_refused),
{
    let code = e.code;
    if code == PARSE_ERROR || code == INVALID_REQUEST || code == METHOD_NOT_FOUND || code
        == INVALID_PARAMS {
        400
    } else if e.scope_refused {
        403
    } else {
        200
    }
}

/// The methods the endpoint answers.
#[derive(Debug, Clone, Copy, PartialEq, Eq, Structural)]
pub enum Method {
    Initialize,
    Initialized,
    Ping,
    ToolsList,
    ToolsCall,
}

pub open spec fn method_s(m: Seq<char>) -> Option<Method> {
    if m == "initialize"@ {
        Some(Method::Initialize)
    } else if m == "notifications/initialized"@ {
        Some(Method::Initialized)
    } else if m == "ping"@ {
        Some(Method::Ping)
    } else if m == "tools/list"@ {
        Some(Method::ToolsList)
    } else if m == "tools/call"@ {
        Some(Method::ToolsCall)
    } else {
        None
    }
}

/// Which method a request names; any other is `METHOD_NOT_FOUND`.
pub fn route_method(method: &str) -> (r: Result<Method, DispatchError>)
    ensures
        match method_s(method@) {
            Some(m) => r matches Ok(x) && x == m,
            None => r matches Err(e) && e.code == METHOD_NOT_FOUND && e.message@ == "未知方法: "@
                + method@,
        },
{
    if str_eq(method, "initialize") {
        Ok(Method::Initialize)
    } else if str_eq(method, "notifications/initialized") {
        Ok(Method::Initialized)
    } else if str_eq(method, "ping") {
        Ok(Method::Ping)
    } else if str_eq(method, "tools/list") {
        Ok(Method::ToolsList)
    } else if str_eq(method, "tools/call") {
        Ok(Method::ToolsCall)
    } else {
        Err(DispatchError { code: METHOD_NOT_FOUND, message: concat("未知方法: ", method), scope_refused: false })
    }
}

/// The request must say `"jsonrpc": "2.0"`.
pub fn check_jsonrpc(v: &str) -> (r: Result<(), DispatchError>)
    ensures
        v@ == "2.0"@ ==> r is Ok,
        v@ != "2.0"@ ==> (r matches Err(e) && e.code == INVALID_REQUEST && e.message@
            == "jsonrpc 字段必须是 \"2.0\""@),
{
    if str_eq(v, "2.0") {
        return Ok(());
    }
    Err(DispatchError { code: INVALID_REQUEST, message: owned("jsonrpc 字段必须是 \"2.0\""), scope_refused: false })
}

/// The tool a `tools/call` names: `params.name` must be a string naming a
/// known tool.
pub fn parse_tool_call(name: Option<&str>) -> (r: Result<ToolName, DispatchError>)
    ensures
        match name {
            None => r matches Err(e) && e.code == INVALID_PARAMS && e.message@
                == "params.name 必须是字符串"@,
            Some(n) => match parse_tool_s(n@) {
                Some(t) => r matches Ok(x) && x == t,
                None => r matches Err(e) && e.code == METHOD_NOT_FOUND && e.message@ == "未知工具: "@
                    + n@,
            },
        },
{
    match name {
        None => Err(DispatchError::invalid_params(owned("params.name 必须是字符串"))),
        Some(n) => match ToolName::parse(n) {
            Some(t) => Ok(t),
            None => Err(DispatchError { code: METHOD_NOT_FOUND, message: concat("未知工具: ", n), scope_refused: false }),
        },
    }
}

pub open spec fn forbidden_text(name: Seq<char>) -> Seq<char> {
    "工具 "@ + name + " 需要 scope: mcp:full（当前 key 仅有 mcp:read）"@
}

/// Write tools need `mcp:full`; a key without it is refused.
pub fn check_tool_scope(tool: ToolName, name: &str, scope: ApiKeyScope) -> (r: Result<(), DispatchError>)
    ensures
        may_call(scope, tool) ==> r is Ok,
        !may_call(scope, tool) ==> (r matches Err(e) && e.code == TOOL_ERROR && e.scope_refused && e.message@
            == forbidden_text(name@)),
{
    if tool.requires_full_scope() && !scope.covers(ApiKeyScope::McpFull) {
        let a = concat("工具 ", name);
        return Err(DispatchError::forbidden(concat(a.as_str(), " 需要 scope: mcp:full（当前 key 仅有 mcp:read）")));
    }
    Ok(())
}

/// The rate-limit bucket of an API key: at most 120 calls per minute each.
pub fn rate_limit_key(key_id: &str) -> (r: String)
    ensures
        r@ == "mcp_key:"@ + key_id@,
{
    concat("mcp_key:", key_id)
}

pub const MCP_CALLS_PER_MINUTE: usize = 120;

/// Milliseconds between two clock readings, zero if the clock went back.
pub fn elapsed_ms(now: i64, started: i64) -> (r: u64)
    ensures
        r == if now - started > 0 {
            (now - started) as u64
        } else {
            0
        },
{
    if now > started {
        let d: i128 = now as i128 - started as i128;
        d as u64
    } else {
        0
    }
}

// ---------------------------------------------------------------------------
// Short texts
// ---------------------------------------------------------------------------

pub open spec fn truncate_s(s: Seq<char>, max: nat) -> Seq<char> {
    if s.len() <= max {
        s
    } else {
        s.take(max - 1).push('…')
    }
}

/// At most `max` characters: longer texts keep `max - 1` and end in `…`.
pub fn truncate(s: &str, max: usize) -> (r: String)
    requires
        max >= 1,
    ensures
        r@ == truncate_s(s@, max as nat),
        r@.len() <= max,
{
    let c = chars_of(s);
    if c.len() <= max {
        return owned(s);
    }
    let mut t = slice_to_vec_range(c.as_slice(), 0, max - 1);
    t.push('…');
    string_of(t.as_slice())
}

/// The string at `field` of the JSON object that `text` parses to, if the
/// text is such an object and the field holds a string.
pub uninterp spec fn json_string_field(text: Seq<char>, field: Seq<char>) -> Option<Seq<char>>;

/// `serde_json::from_str::<Value>(text)`, then `.get(field)` and
/// `.as_str()`.  Named by `json_string_field`.
#[verifier::external_body]
fn json_str_field(text: &str, field: &str) -> (r: Option<String>)
    ensures
        match json_string_field(text@, field@) {
            Some(s) => r matches Some(x) && x@ == s,
            None => r is None,
        },
{
    match serde_json::from_str::<serde_json::Value>(text) {
        Ok(v) => v.get(field).and_then(|x| x.as_str()).map(|x| x.to_string()),
        Err(_) => None,
    }
}

pub open spec fn short_error_s(raw: Seq<char>) -> Seq<char> {
    match json_string_field(raw, "summary"@) {
        Some(s) => truncate_s(s, 120),
        None => match json_string_field(raw, "message"@) {
            Some(m) => truncate_s(m, 120),
            None => truncate_s(raw, 120),
        },
    }
}

/// A short (at most 120 characters) account of a failure: the `summary` or
/// `message` of a JSON error, else the text itself.
pub fn short_error_message(raw: &str) -> (r: String)
    ensures
        r@ == short_error_s(raw@),
        r@.len() <= 120,
{
    match json_str_field(raw, "summary") {
        Some(s) => truncate(s.as_str(), 120),
        None => match json_str_field(raw, "message") {
            Some(m) => truncate(m.as_str(), 120),
            None => truncate(raw, 120),
        },
    }
}

// ---------------------------------------------------------------------------
// Activity
// ---------------------------------------------------------------------------

#[derive(Debug, Clone, Copy, PartialEq, Eq, Structural)]
pub enum ActivityStatus {
    Success,
    Error,
    Forbidden,
}

impl ActivityStatus {
    pub fn as_str(&self) -> (r: &'static str)
        ensures
            r@ == match self {
                ActivityStatus::Success => "ok"@,
                ActivityStatus::Error => "error"@,
                ActivityStatus::Forbidden => "forbidden"@,
            },
    {
        match self {
            ActivityStatus::Success => "ok",
            ActivityStatus::Error => "error",
            ActivityStatus::Forbidden => "forbidden",
        }
    }
}

/// One side of a tool call, as shown to people watching.
#[derive(Debug)]
pub enum McpActivity {
    Start { id: String, tool: String, summary: String, key_name: String, scope: &'static str, ts: i64 },
    Finish {
        id: String,
        tool: String,
        status: ActivityStatus,
        message: Option<String>,
        duration_ms: u64,
        ts: i64,
    },
}

/// How many activities the history keeps.
pub const HISTORY_CAP: usize = 100;

pub open spec fn history_push(s: Seq<McpActivity>, e: McpActivity) -> Seq<McpActivity> {
    let t = s.push(e);
    if t.len() > HISTORY_CAP {
        t.skip(t.len() - HISTORY_CAP)
    } else {
        t
    }
}

/// The most recent activities, oldest first.
pub struct ActivityHistory {
    events: Vec<McpActivity>,
}

impl ActivityHistory {
    #[verifier::type_invariant]
    spec fn inv(&self) -> bool {
        self.events@.len() <= HISTORY_CAP
    }

    pub closed spec fn view(&self) -> Seq<McpActivity> {
        self.events@
    }

    pub fn new() -> (r: ActivityHistory)
        ensures
            r.view() == Seq::<McpActivity>::empty(),
    {
        ActivityHistory { events: Vec::new() }
    }

    /// Records an activity; only the newest `HISTORY_CAP` are kept.
    pub fn push(&mut self, e: McpActivity)
        ensures
            final(self).view() == history_push(old(self).view(), e),
            final(self).view().len() <= HISTORY_CAP,
            final(self).view().last() == e,
    {
        proof {
            use_type_invariant(&*self);
        }
        let mut v = Vec::new();
        std::mem::swap(&mut v, &mut self.events);
        let ghost t = v@.push(e);
        v.push(e);
        if v.len() > HISTORY_CAP {
            let drop_n = v.len() - HISTORY_CAP;
            let tail = v.split_off(drop_n);
            v = tail;
            assert(v@ =~= t.skip(t.len() - HISTORY_CAP));
        }
        self.events = v;
    }

    /// The recorded activities, oldest first.
    pub fn events(&self) -> (r: &Vec<McpActivity>)
        ensures
            r@ == self.view(),
            r@.len() <= HISTORY_CAP,
    {
        proof {
            use_type_invariant(self);
        }
        &self.events
    }
}

// ---------------------------------------------------------------------------
// Argument summaries
// ---------------------------------------------------------------------------

/// A JSON value in a tool call's arguments, as the summary needs it.
#[derive(Debug, Clone)]
pub enum ArgValue {
    /// A JSON string.
    Str(String),
    /// An array or object, with its compact JSON text.
    Composite(String),
    /// A number, boolean or null, with its JSON text.
    Scalar(String),
}

/// A tool call's arguments: an object's fields in order, or another value.
#[derive(Debug, Clone)]
pub enum Args {
    Object(Vec<(String, ArgValue)>),
    Single(ArgValue),
}

/// How many leading characters of `c` take exactly `n` UTF-8 bytes, if
/// `n` falls on a character boundary.
pub open spec fn bytes_cut(c: Seq<char>, n: nat) -> Option<int> {
    if exists|k: int| 0 <= k <= c.len() && #[trigger] utf8_len(c.take(k)) == n {
        Some(choose|k: int| 0 <= k <= c.len() && #[trigger] utf8_len(c.take(k)) == n)
    } else {
        None
    }
}

proof fn lemma_utf8_take_step(c: Seq<char>, k: int)
    requires
        0 <= k < c.len(),
    ensures
        utf8_len(c.take(k + 1)) == utf8_len(c.take(k)) + utf8_width(c[k]),
{
    assert(c.take(k + 1).drop_last() =~= c.take(k));
}

proof fn lemma_utf8_take_mono(c: Seq<char>, i: int, j: int)
    requires
        0 <= i < j <= c.len(),
    ensures
        utf8_len(c.take(i)) < utf8_len(c.take(j)),
    decreases j - i,
{
    lemma_utf8_take_step(c, j - 1);
    if i < j - 1 {
        lemma_utf8_take_mono(c, i, j - 1);
    }
}

/// The leading characters that take exactly `n` bytes, when `n` is on a
/// character boundary.
fn byte_prefix(c: &[char], n: u128) -> (r: Option<Vec<char>>)
    ensures
        match bytes_cut(c@, n as nat) {
            Some(k) => r matches Some(p) && p@ == c@.take(k),
            None => r is None,
        },
{
    let mut k: usize = 0;
    let mut acc: u128 = 0;
    assert(c@.take(0) =~= Seq::<char>::empty());
    assert(c@.len() == c.len());
    while k < c.len() && acc < n
        invariant
            k <= c@.len(),
            acc == utf8_len(c@.take(k as int)),
            k > 0 ==> utf8_len(c@.take(k - 1)) < n,
            acc <= 4 * k,
            c@.len() <= usize::MAX,
        decreases c@.len() - k,
    {
        proof {
            lemma_utf8_take_step(c@, k as int);
        }
        acc = acc + char_width(c[k]) as u128;
        k += 1;
    }
    if acc == n {
        proof {
            assert(utf8_len(c@.take(k as int)) == n as nat);
            let j = choose|j: int| 0 <= j <= c@.len() && #[trigger] utf8_len(c@.take(j)) == n as nat;
            if j < k {
                lemma_utf8_take_mono(c@, j, k as int);
            } else if j > k {
                lemma_utf8_take_mono(c@, k as int, j);
            }
        }
        return Some(slice_to_vec_range(c, 0, k));
    }
    proof {
        assert forall|j: int| 0 <= j <= c@.len() implies #[trigger] utf8_len(c@.take(j)) != n as nat by {
            if j < k {
                if j < k - 1 {
                    lemma_utf8_take_mono(c@, j, k - 1);
                }
            } else if j > k {
                lemma_utf8_take_mono(c@, k as int, j);
            }
        }
    }
    None
}

/// A composite value longer than 60 bytes is cut at 57 bytes, which must
/// fall between characters.
pub open spec fn cut_ok(v: ArgValue) -> bool {
    v matches ArgValue::Composite(raw) ==> (utf8_len(raw@) > 60 ==> bytes_cut(raw@, 57) is Some)
}

pub open spec fn args_cut_ok(a: Args) -> bool {
    match a {
        Args::Object(fields) => forall|i: int|
            0 <= i < fields@.len() ==> cut_ok(#[trigger] fields@[i].1),
        Args::Single(v) => cut_ok(v),
    }
}

pub open spec fn quoted(s: Seq<char>) -> Seq<char> {
    seq!['"'] + s + seq!['"']
}

/// One value, shortened: strings to 57 characters and `...`, arrays and
/// objects to 57 bytes of their JSON and `...`.
pub open spec fn short_value_s(v: ArgValue) -> Seq<char> {
    match v {
        ArgValue::Str(s) => if s@.len() > 60 {
            quoted(s@.take(57) + "..."@)
        } else {
            quoted(s@)
        },
        ArgValue::Composite(raw) => if utf8_len(raw@) > 60 {
            raw@.take(bytes_cut(raw@, 57)->0) + "..."@
        } else {
            raw@
        },
        ArgValue::Scalar(t) => t@,
    }
}

/// Fields whose values are never shown, only their size.
pub open spec fn elided_key(lower: Seq<char>) -> bool {
    lower == "content"@ || lower == "content_text"@ || lower == "content_b64"@ || lower == "secret"@
        || lower == "password"@ || lower == "token"@
}

pub open spec fn value_bytes(v: ArgValue) -> nat {
    match v {
        ArgValue::Str(s) => utf8_len(s@),
        ArgValue::Composite(t) => utf8_len(t@),
        ArgValue::Scalar(t) => utf8_len(t@),
    }
}

pub open spec fn field_summary(k: Seq<char>, v: ArgValue) -> Seq<char> {
    k + seq!['='] + if elided_key(lower_s(k)) {
        "<"@ + decimal(value_bytes(v)) + " bytes>"@
    } else {
        short_value_s(v)
    }
}

/// Parts joined with `, `.
pub open spec fn join_comma(parts: Seq<Seq<char>>) -> Seq<char>
    decreases parts.len(),
{
    if parts.len() == 0 {
        Seq::empty()
    } else if parts.len() == 1 {
        parts[0]
    } else {
        join_comma(parts.drop_last()) + ", "@ + parts.last()
    }
}

pub open spec fn fields_summary(fields: Seq<(String, ArgValue)>) -> Seq<char> {
    join_comma(Seq::new(fields.len(), |i: int| field_summary(fields[i].0@, fields[i].1)))
}

/// The one-line summary of a tool call's arguments shown to people: at
/// most 200 characters (longer ones keep 197 and end in `...`).
pub open spec fn summarize_s(a: Args) -> Seq<char> {
    let s = match a {
        Args::Object(fields) => fields_summary(fields@),
        Args::Single(v) => short_value_s(v),
    };
    if s.len() > 200 {
        s.take(197) + "..."@
    } else {
        s
    }
}

fn quote(s: &[char]) -> (r: Vec<char>)
    ensures
        r@ == quoted(s@),
{
    let mut v: Vec<char> = Vec::new();
    v.push('"');
    let mut body = slice_to_vec_range(s, 0, s.len());
    v.append(&mut body);
    v.push('"');
    assert(v@ =~= quoted(s@));
    v
}

fn dots(v: Vec<char>) -> (r: Vec<char>)
    ensures
        r@ == v@ + "..."@,
{
    let ghost v0 = v@;
    let mut w = v;
    w.push('.');
    w.push('.');
    w.push('.');
    proof {
        reveal_strlit("...");
    }
    assert(w@ =~= v0 + "..."@);
    w
}

fn short_value(v: &ArgValue) -> (r: String)
    requires
        cut_ok(*v),
    ensures
        r@ == short_value_s(*v),
{
    match v {
        ArgValue::Str(s) => {
            let c = chars_of(s.as_str());
            if c.len() > 60 {
                let head = slice_to_vec_range(c.as_slice(), 0, 57);
                let d = dots(head);
                string_of(quote(d.as_slice()).as_slice())
            } else {
                string_of(quote(c.as_slice()).as_slice())
            }
        },
        ArgValue::Composite(raw) => {
            let c = chars_of(raw.as_str());
            if utf8_len_of(c.as_slice()) > 60 {
                match byte_prefix(c.as_slice(), 57) {
                    Some(p) => string_of(dots(p).as_slice()),
                    None => owned(raw.as_str()),
                }
            } else {
                owned(raw.as_str())
            }
        },
        ArgValue::Scalar(t) => owned(t.as_str()),
    }
}

proof fn lemma_fields_cut(fields: Vec<(String, ArgValue)>)
    ensures
        args_cut_ok(Args::Object(fields)) <==> forall|j: int|
            0 <= j < fields@.len() ==> cut_ok(#[trigger] fields@[j].1),
{
    let a = Args::Object(fields);
    assert(a->Object_0 == fields);
}

/// Whether a summary can be made: every long array or object is cut
/// between characters.
pub fn can_summarize(a: &Args) -> (r: bool)
    ensures
        r == args_cut_ok(*a),
{
    match a {
        Args::Object(fields) => {
            let mut i: usize = 0;
            while i < fields.len()
                invariant
                    i <= fields@.len(),
                    *a == Args::Object(*fields),
                    forall|j: int| 0 <= j < i ==> cut_ok(#[trigger] fields@[j].1),
                decreases fields@.len() - i,
            {
                if !value_cut_ok(&fields[i].1) {
                    proof {
                        lemma_fields_cut(*fields);
                    }
                    return false;
                }
                i += 1;
            }
            proof {
                lemma_fields_cut(*fields);
            }
            true
        },
        Args::Single(v) => value_cut_ok(v),
    }
}

fn value_cut_ok(v: &ArgValue) -> (r: bool)
    ensures
        r == cut_ok(*v),
{
    match v {
        ArgValue::Composite(raw) => {
            let c = chars_of(raw.as_str());
            if utf8_len_of(c.as_slice()) > 60 {
                byte_prefix(c.as_slice(), 57).is_some()
            } else {
                true
            }
        },
        _ => true,
    }
}

fn is_elided(k: &str) -> (r: bool)
    ensures
        r == elided_key(lower_s(k@)),
{
    let c = chars_of(k);
    let l = string_of(lower_chars(c.as_slice()).as_slice());
    let ls = l.as_str();
    str_eq(ls, "content") || str_eq(ls, "content_text") || str_eq(ls, "content_b64") || str_eq(
        ls,
        "secret",
    ) || str_eq(ls, "password") || str_eq(ls, "token")
}

fn value_bytes_of(v: &ArgValue) -> (r: u128)
    ensures
        r == value_bytes(*v),
{
    match v {
        ArgValue::Str(s) => utf8_len_of(chars_of(s.as_str()).as_slice()),
        ArgValue::Composite(t) => utf8_len_of(chars_of(t.as_str()).as_slice()),
        ArgValue::Scalar(t) => utf8_len_of(chars_of(t.as_str()).as_slice()),
    }
}

fn field_part(k: &str, v: &ArgValue) -> (r: String)
    requires
        cut_ok(*v),
    ensures
        r@ == field_summary(k@, *v),
{
    let head = concat(k, "=");
    proof {
        reveal_strlit("=");
        reveal_strlit("<");
    }
    if is_elided(k) {
        let n = value_bytes_of(v);
        let a = concat("<", u128_decimal(n).as_str());
        let b = concat(a.as_str(), " bytes>");
        concat(head.as_str(), b.as_str())
    } else {
        let sv = short_value(v);
        concat(head.as_str(), sv.as_str())
    }
}

fn u128_decimal(n: u128) -> (r: String)
    ensures
        r@ == decimal(n as nat),
    decreases n,
{
    let d = (n % 10) as u64;
    let c = crate::text::digit_to_char(d);
    if n < 10 {
        let mut v: Vec<char> = Vec::new();
        v.push(c);
        assert(v@ =~= decimal(n as nat));
        string_of(v.as_slice())
    } else {
        let rest = u128_decimal(n / 10);
        let mut v = chars_of(rest.as_str());
        v.push(c);
        string_of(v.as_slice())
    }
}

/// The summary of a tool call's arguments shown while the call runs.
pub fn summarize_args(args: &Args) -> (r: String)
    requires
        args_cut_ok(*args),
    ensures
        r@ == summarize_s(*args),
        r@.len() <= 200,
{
    let s = match args {
        Args::Object(fields) => {
            let mut out: Vec<char> = Vec::new();
            let mut i: usize = 0;
            let ghost parts = Seq::new(
                fields@.len(),
                |j: int| field_summary(fields@[j].0@, fields@[j].1),
            );
            while i < fields.len()
                invariant
                    i <= fields@.len(),
                    args_cut_ok(*args),
                    *args == Args::Object(*fields),
                    parts == Seq::new(
                        fields@.len(),
                        |j: int| field_summary(fields@[j].0@, fields@[j].1),
                    ),
                    out@ == join_comma(parts.take(i as int)),
                decreases fields@.len() - i,
            {
                proof {
                    lemma_fields_cut(*fields);
                }
                assert(cut_ok(fields@[i as int].1));
                let part = field_part(fields[i].0.as_str(), &fields[i].1);
                let pc = chars_of(part.as_str());
                if i > 0 {
                    out.push(',');
                    out.push(' ');
                }
                let mut pv = slice_to_vec_range(pc.as_slice(), 0, pc.len());
                let ghost before = out@;
                out.append(&mut pv);
                proof {
                    let t = parts.take(i + 1);
                    assert(t.drop_last() =~= parts.take(i as int));
                    assert(t.last() == part@);
                    reveal_strlit(", ");
                    if i > 0 {
                        assert(out@ =~= join_comma(parts.take(i as int)) + ", "@ + part@);
                    } else {
                        assert(out@ =~= part@);
                    }
                }
                i += 1;
            }
            assert(parts.take(fields@.len() as int) =~= parts);
            out
        },
        Args::Single(v) => chars_of(short_value(v).as_str()),
    };
    proof {
        reveal_strlit("...");
    }
    if s.len() > 200 {
        let head = slice_to_vec_range(s.as_slice(), 0, 197);
        string_of(dots(head).as_slice())
    } else {
        string_of(s.as_slice())
    }
}

} // verus!
