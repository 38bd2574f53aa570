//! Docker deployments: commands run in order in a directory of a Linux
//! server.

use vstd::prelude::*;
use crate::config::DockerTarget;
use crate::ssh::{sh_escape, shell_command, spec_shell_command};
use crate::text::{decimal, owned, push_decimal, str_eq};

verus! {

/// Index of the Docker target with the given id; its absence is reported
/// as "找不到 Docker 部署目标: <id>".
pub fn find_docker_target(targets: &Vec<DockerTarget>, id: &str) -> (r: Result<usize, String>)
    ensures
        match r {
            Ok(i) => i < targets@.len() && targets@[i as int].id@ == id@
                && forall|j: int| 0 <= j < i ==> targets@[j].id@ != id@,
            Err(e) => e@ == "找不到 Docker 部署目标: "@ + id@ && forall|j: int| 0 <= j < targets@.len() ==> targets@[j].id@ != id@,
        },
{
    let mut i: usize = 0;
    while i < targets.len()
        invariant
            i <= targets@.len(),
            forall|j: int| 0 <= j < i ==> targets@[j].id@ != id@,
        decreases targets.len() - i,
    {
        if str_eq(targets[i].id.as_str(), id) {
            return Ok(i);
        }
        i = i + 1;
    }
    let mut msg = owned("找不到 Docker 部署目标: ");
    msg.append(id);
    Err(msg)
}

/// One configured command, run in the target's working directory.
pub open spec fn spec_docker_command(work_dir: Seq<char>, command: Seq<char>) -> Seq<char> {
    spec_shell_command("cd '"@ + sh_escape(work_dir) + "' && "@ + command)
}

pub fn docker_command(work_dir: &str, command: &str) -> (r: String)
    ensures
        r@ == spec_docker_command(work_dir@, command@),
{
    let escaped = crate::deploy::escape_sh(work_dir);
    let mut inner = owned("cd '");
    inner.append(escaped.as_str());
    inner.append("' && ");
    inner.append(command);
    shell_command(inner.as_str())
}

/// A failed command: its exit code and the first 2000 characters of its
/// error output.
pub fn command_failure_message(exit_code: u32, stderr: &str) -> (r: String)
    ensures
        r@ == "命令执行失败(退出码 "@ + decimal(exit_code as nat) + "): "@ + crate::backend::prefix_chars(stderr@, 2000),
{
    let mut m = owned("命令执行失败(退出码 ");
    push_decimal(&mut m, exit_code as u64);
    m.append("): ");
    let v = crate::text::chars_of(stderr);
    let t = if v.len() <= 2000 { crate::text::string_of(v.as_slice()) } else {
        let p = crate::text::take_exec(v.as_slice(), 2000);
        crate::text::string_of(p.as_slice())
    };
    m.append(t.as_str());
    m
}

} // verus!
