//! The logic of the MCP tools: parameter checks, result shapes and the
//! decisions that the tools take between calls to JIRA.

pub mod add_comment;
pub mod assign_issue;
pub mod bulk_operations;
pub mod components;
pub mod create_issue;
pub mod download_attachment;
pub mod get_create_metadata;
pub mod get_custom_fields;
pub mod issue_details;
pub mod issue_links;
pub mod issue_relationships;
pub mod labels;
pub mod list_attachments;
pub mod rate_limiter;
pub mod search_issues;
pub mod sprints;
pub mod todo_tracker;
pub mod transitions;
pub mod update_custom_fields;
pub mod update_description;
pub mod upload_attachment;
pub mod user_issues;
pub mod validation;
