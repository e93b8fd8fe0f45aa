//! Removing the data of the user that asks.
use super::{CommandContext, CommandResult, RpcError, rpc_error};
use crate::json::{Json, JsonMember, JsonView, member, member_views};
use vstd::prelude::*;
use vstd::string::*;

verus! {

/// The user whose data is removed: the one that the connection belongs to, and no other.
pub fn handle(ctx: &CommandContext) -> (res: Result<i64, RpcError>)
    ensures
        match res {
            Ok(id) => ctx.user_id == Some(id),
            Err(e) => ctx.user_id is None && e@ == rpc_error(
                "EXEC_FAILED"@,
                "无法确定 user_id，不能删除数据"@,
            ),
        },
{
    match ctx.user_id {
        Some(id) => Ok(id),
        None => Err(RpcError::new("EXEC_FAILED", "无法确定 user_id，不能删除数据".to_owned())),
    }
}

/// The answer that the data was removed.
pub open spec fn deleted_json() -> JsonView {
    JsonView::Object(seq![("deleted"@, JsonView::Bool(true))])
}

/// The answer, given whether the data could be removed.
pub fn judge_deletion(removed: Result<(), String>) -> (res: CommandResult)
    ensures
        match removed {
            Ok(_) => res matches Ok(j) && j@ == deleted_json(),
            Err(m) => res matches Err(e) && e@ == rpc_error("EXEC_FAILED"@, "删除数据失败: "@ + m@),
        },
{
    match removed {
        Ok(_) => {
            let mut members: Vec<JsonMember> = Vec::new();
            members.push(member("deleted", Json::Bool(true)));
            let res = Json::object(members);
            assert(member_views(members@) =~= deleted_json()->Object_0);
            Ok(res)
        },
        Err(m) => Err(
            RpcError::new("EXEC_FAILED", "删除数据失败: ".to_owned().concat(m.as_str())),
        ),
    }
}

/// The answer says that the data was deleted.
pub proof fn law_deletion_is_answered()
    ensures
        deleted_json().flag("deleted"@) == Some(true),
{
    reveal_strlit("deleted");
    reveal_with_fuel(crate::json::member_from, 2);
}

} // verus!
