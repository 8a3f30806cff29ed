//! The routed paths, declared once. The router routes by these constants.

use vstd::prelude::*;

verus! {

pub const ROOT: &'static str = "/";

pub const HEALTHZ: &'static str = "/healthz";

pub const KEYRING: &'static str = "/keyring";

pub const GRAPH: &'static str = "/graph";

pub const ANCHOR_BUNDLE: &'static str = "/anchor-bundle";

pub const TRUST_LISTS: &'static str = "/trust-lists";

pub const TRUST_LIST_ONE: &'static str = "/trust-lists/{jur}";

pub const TRUST_LIST_ENTRIES: &'static str = "/trust-lists/{jur}/entries";

pub const MASTER_LIST: &'static str = "/master-list";

pub const MASTER_LIST_WITNESSES: &'static str = "/master-list/witnesses";

pub const MASTER_LIST_ENTRIES: &'static str = "/master-list/entries";

pub const REVOCATIONS: &'static str = "/revocations";

pub const OPERATOR: &'static str = "/operators/{node}";

pub const EVIDENCE: &'static str = "/evidence";

pub const EVIDENCE_ONE: &'static str = "/evidence/{id}";

pub const ADMIN_LOG: &'static str = "/admin/log";

pub const ADMIN_EVIDENCE: &'static str = "/admin/evidence";

pub const NODES: &'static str = "/nodes";

pub const EDGES: &'static str = "/edges";

/// The contract document itself (not an operation of the API).
pub const CONTRACT_YAML: &'static str = "/openapi.yaml";

/// The text is one of the routed paths.
pub open spec fn is_routed(p: Seq<char>) -> bool {
    ||| p == ROOT@
    ||| p == HEALTHZ@
    ||| p == KEYRING@
    ||| p == GRAPH@
    ||| p == ANCHOR_BUNDLE@
    ||| p == TRUST_LISTS@
    ||| p == TRUST_LIST_ONE@
    ||| p == TRUST_LIST_ENTRIES@
    ||| p == MASTER_LIST@
    ||| p == MASTER_LIST_WITNESSES@
    ||| p == MASTER_LIST_ENTRIES@
    ||| p == REVOCATIONS@
    ||| p == OPERATOR@
    ||| p == EVIDENCE@
    ||| p == EVIDENCE_ONE@
    ||| p == ADMIN_LOG@
    ||| p == ADMIN_EVIDENCE@
    ||| p == NODES@
    ||| p == EDGES@
}

} // verus!
