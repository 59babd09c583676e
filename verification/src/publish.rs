//! Write-admission gate for synchronized groups: a node may durably
//! publish a group only while it is the current master of the liveness
//! snapshot, so concurrent nodes cannot both be authorized at once.

use crate::election::is_master;
use crate::election::is_master_spec;
use vstd::prelude::*;
use vstd::string::*;

verus! {

/// The error raised when a node that is not the master asks to write a
/// synchronized group, naming the rejected node.
pub open spec fn spec_master_denial(node_id: Seq<char>) -> Seq<char> {
    "not master: node '"@ + node_id + "' cannot write sync:group:*"@
}

/// Decide whether `node_id` may write a synchronized group under the given
/// liveness snapshot: authorized exactly when it is the current master,
/// and refused with an error naming it otherwise.
pub fn authorize_group_write(node_id: &str, live_node_ids: &Vec<String>) -> (r: Result<
    (),
    String,
>)
    ensures
        r is Ok <==> is_master_spec(node_id@, live_node_ids.deep_view()),
        r matches Err(denial) ==> denial@ == spec_master_denial(node_id@),
{
    if is_master(node_id, live_node_ids) {
        Ok(())
    } else {
        let mut denial = String::from_str("not master: node '");
        denial.append(node_id);
        denial.append("' cannot write sync:group:*");
        Err(denial)
    }
}

} // verus!
