//! The data shapes of the HTTP front end and the mapping from manager
//! statuses to the records the API serves. The transport itself is the
//! host's: it serializes copies of these types and routes requests.

use vstd::prelude::*;
use crate::manager::PluginStatus;

verus! {

/// The uniform envelope of every API response.
#[derive(Debug)]
pub struct ApiResponse<T> {
    pub success: bool,
    pub data: Option<T>,
    pub error: Option<String>,
}

impl<T> ApiResponse<T> {
    /// A successful response carrying its payload.
    pub fn success(data: T) -> (r: ApiResponse<T>)
        ensures
            r.success == true,
            r.data == Some(data),
            r.error is None,
    {
        ApiResponse { success: true, data: Some(data), error: None }
    }

    /// A failed response carrying its message.
    pub fn error(message: String) -> (r: ApiResponse<()>)
        ensures
            r.success == false,
            r.data is None,
            r.error == Some(message),
    {
        ApiResponse { success: false, data: None, error: Some(message) }
    }
}

/// The body of an execution request.
#[derive(Debug)]
pub struct ExecuteRequest {
    pub input: String,
}

/// An execution outcome as the API reports it.
#[derive(Debug)]
pub struct ExecutionResult {
    pub plugin: String,
    pub output: String,
    pub duration_ms: u64,
}

/// A plugin as the API lists it: one `enabled` flag, the conjunction
/// of the registry flag and the persisted flag.
#[derive(Debug)]
pub struct PluginInfo {
    pub name: String,
    pub version: String,
    pub description: String,
    pub enabled: bool,
    pub loaded: bool,
}

/// The API record of one status: `enabled` is the conjunction of the
/// two flags, and `loaded` reports the registry flag, as the listing
/// endpoint has always served it.
pub open spec fn api_info_of(status: PluginStatus) -> PluginInfo {
    PluginInfo {
        name: status.name,
        version: status.version,
        description: status.description,
        enabled: status.enabled && status.config_enabled,
        loaded: status.enabled,
    }
}

/// The API records of a status listing, in order.
pub fn to_api_infos(statuses: Vec<PluginStatus>) -> (r: Vec<PluginInfo>)
    ensures
        r@.len() == statuses@.len(),
        forall|i: int| 0 <= i < statuses@.len() ==> r@[i] == api_info_of(#[trigger] statuses@[i]),
{
    let mut out: Vec<PluginInfo> = Vec::new();
    let mut i: usize = 0;
    while i < statuses.len()
        invariant
            i <= statuses@.len(),
            out@.len() == i,
            forall|j: int| 0 <= j < i ==> out@[j] == api_info_of(#[trigger] statuses@[j]),
        decreases statuses@.len() - i,
    {
        let status = &statuses[i];
        out.push(
            PluginInfo {
                name: status.name.clone(),
                version: status.version.clone(),
                description: status.description.clone(),
                enabled: status.enabled && status.config_enabled,
                loaded: status.enabled,
            },
        );
        i = i + 1;
    }
    out
}

} // verus!
