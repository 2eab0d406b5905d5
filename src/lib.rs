//! Capability-style filesystem access for a text-generating agent: a registry
//! of granted roots, access-checked file operations, a tool catalog, a parser
//! for tool calls embedded in generated text, a dispatcher and a bounded agent
//! loop.

pub mod permissions;
pub mod text;
pub mod json;
pub mod tools;
pub mod operations;
pub mod dispatch;
pub mod agent;
pub mod catalog;
pub mod prompt;

pub use agent::{AgentLoop, AgentResponse, InferenceError, Message, MAX_ITERATIONS};
pub use catalog::{format_tools_for_prompt, get_file_tools, ToolDefinition};
pub use dispatch::{begin_tool, plan_tool, render_result, FileOutput};
pub use operations::{authorize, check_new_target, FileError, FileInfo, FileRequest};
pub use permissions::{FolderPermission, PermissionStore};
pub use tools::{extract_text_content, parse_tool_calls, ToolCall};
