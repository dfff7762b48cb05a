//! The component tools: how components are named to JIRA, how refusals
//! are read, and the answers.

use crate::error::{JiraMcpError, JiraMcpResult};
use crate::text::{contains_seq, decimal_seq, decimal_string, str_contains, views};
use crate::tools::validation::{all_numeric, invalid_param_is, str_all_numeric};
use vstd::prelude::*;

verus! {

/// Parameters for setting the components of an issue
#[derive(Debug, Clone)]
pub struct UpdateComponentsParams {
    /// Issue key
    pub issue_key: String,
    /// Component names or IDs (empty clears them)
    pub components: Vec<String>,
}

/// Result of setting components
#[derive(Debug, Clone)]
pub struct UpdateComponentsResult {
    /// Issue key
    pub issue_key: String,
    /// Components of the issue afterwards
    pub components: Vec<ComponentInfo>,
    /// Success message
    pub message: String,
}

/// A component
#[derive(Debug, Clone)]
pub struct ComponentInfo {
    /// Component ID
    pub id: String,
    /// Component name
    pub name: String,
    /// Component description
    pub description: Option<String>,
}

/// Parameters for listing the components of a project
#[derive(Debug, Clone)]
pub struct GetAvailableComponentsParams {
    /// Project key
    pub project_key: String,
}

/// Result of listing components
#[derive(Debug, Clone)]
pub struct GetAvailableComponentsResult {
    /// The components
    pub components: Vec<ComponentInfo>,
    /// How many there are
    pub total: u32,
    /// Project key
    pub project_key: String,
}

fn owned(s: &str) -> (r: String)
    ensures
        r@ == s@,
{
    s.to_owned()
}

/// How a component is named to JIRA.
#[derive(Debug, Clone)]
pub enum ComponentRef {
    /// By ID
    Id(String),
    /// By name
    Name(String),
}

/// A component given with only numeric characters is an ID, any other a
/// name.
pub fn component_ref(component: &str) -> (r: ComponentRef)
    ensures
        all_numeric(component@) ==> (r matches ComponentRef::Id(x) && x@ == component@),
        !all_numeric(component@) ==> (r matches ComponentRef::Name(x) && x@ == component@),
{
    if str_all_numeric(component) {
        ComponentRef::Id(owned(component))
    } else {
        ComponentRef::Name(owned(component))
    }
}

/// The error of a failed component change: a 404 or Not Found means the
/// issue does not exist, a mention of a component an invalid component.
pub fn components_update_error(detail: &str, issue_key: &str) -> (r: JiraMcpError)
    ensures
        contains_seq(detail@, "404"@) || contains_seq(detail@, "Not Found"@) ==> (r matches JiraMcpError::NotFound {
            resource,
            key,
        } && resource@ == "issue"@ && key@ == issue_key@),
        !(contains_seq(detail@, "404"@) || contains_seq(detail@, "Not Found"@)) && contains_seq(
            detail@,
            "component"@,
        ) ==> invalid_param_is(r, "components"@, "Invalid component: "@ + detail@),
        !(contains_seq(detail@, "404"@) || contains_seq(detail@, "Not Found"@)) && !contains_seq(
            detail@,
            "component"@,
        ) ==> (r matches JiraMcpError::Internal { message } && message@
            == "Failed to update components: "@ + detail@),
{
    if str_contains(detail, "404") || str_contains(detail, "Not Found") {
        JiraMcpError::not_found("issue", issue_key)
    } else if str_contains(detail, "component") {
        let mut m = owned("Invalid component: ");
        m.append(detail);
        JiraMcpError::InvalidParameter { parameter: owned("components"), message: m }
    } else {
        let mut m = owned("Failed to update components: ");
        m.append(detail);
        JiraMcpError::Internal { message: m }
    }
}

/// The error of a failed component listing: a 404 or Not Found means the
/// project does not exist.
pub fn components_list_error(detail: &str, project_key: &str) -> (r: JiraMcpError)
    ensures
        contains_seq(detail@, "404"@) || contains_seq(detail@, "Not Found"@) ==> (r matches JiraMcpError::NotFound {
            resource,
            key,
        } && resource@ == "project"@ && key@ == project_key@),
        !(contains_seq(detail@, "404"@) || contains_seq(detail@, "Not Found"@)) ==> (r matches JiraMcpError::Internal {
            message,
        } && message@ == "Failed to get components: "@ + detail@),
{
    if str_contains(detail, "404") || str_contains(detail, "Not Found") {
        JiraMcpError::not_found("project", project_key)
    } else {
        let mut m = owned("Failed to get components: ");
        m.append(detail);
        JiraMcpError::Internal { message: m }
    }
}

/// The answer to a component change, with the components the issue has
/// afterwards.
pub fn components_result(params: UpdateComponentsParams, components: Vec<ComponentInfo>) -> (r:
    UpdateComponentsResult)
    ensures
        r.issue_key@ == params.issue_key@,
        r.components@ == components@,
        params.components@.len() == 0 ==> r.message@ == "Successfully cleared all components from "@
            + params.issue_key@,
        params.components@.len() > 0 ==> r.message@ == "Successfully set "@ + decimal_seq(
            components@.len(),
        ) + " component(s) on "@ + params.issue_key@,
{
    let message = if params.components.len() == 0 {
        let mut m = owned("Successfully cleared all components from ");
        m.append(params.issue_key.as_str());
        m
    } else {
        let mut m = owned("Successfully set ");
        let n = decimal_string(components.len() as u64);
        m.append(n.as_str());
        m.append(" component(s) on ");
        m.append(params.issue_key.as_str());
        m
    };
    UpdateComponentsResult { issue_key: params.issue_key, components, message }
}

/// The listing of a project's components.
pub fn components_listing(project_key: String, components: Vec<ComponentInfo>) -> (r:
    GetAvailableComponentsResult)
    requires
        components@.len() <= u32::MAX,
    ensures
        r.components@ == components@,
        r.total == components@.len(),
        r.project_key@ == project_key@,
{
    let total = components.len() as u32;
    GetAvailableComponentsResult { components, total, project_key }
}

} // verus!
