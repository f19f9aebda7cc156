//! Small queries on a remote machine.

use vstd::prelude::*;
use crate::login::Login;
use crate::login::LoginAction;
use crate::login::LoginProfile;
use crate::scan::trim;
use crate::scan::trimmed;
use crate::session::ErrorKind;
use crate::session::SessionError;
use crate::sftp::side_login_for;
use crate::sftp::ssh_session_missing;
use crate::ssh::SshState;

verus! {

/// The command that prints the home directory of the user.
pub open spec fn home_directory_command() -> Seq<char> {
    "echo $HOME"@
}

/// The command that prints the home directory of the user.
pub fn home_command() -> (command: String)
    ensures
        command@ == home_directory_command(),
{
    String::from_str("echo $HOME")
}

/// Begins the query for the home directory of the user of interactive
/// session `id`: a login with the credentials of that session, which must
/// be registered. The command to run after the login is
/// [`home_command`], and [`home_directory_from`] reads its output.
pub fn get_remote_home_directory<H>(ssh_state: &SshState<H>, id: String) -> (r: Result<
    (Login, LoginAction),
    SessionError,
>)
    ensures
        match r {
            Ok((login, first)) => ssh_state@.contains_key(id@) && (login@, first@)
                == side_login_for(LoginProfile::Plain, ssh_state@[id@]),
            Err(e) => !ssh_state@.contains_key(id@) && e@ == ssh_session_missing(),
        },
{
    match ssh_state.get(id.as_str()) {
        Some(connection) => Ok(Login::to_endpoint(LoginProfile::Plain, connection.endpoint())),
        None => Err(SessionError::new(ErrorKind::NotFound, "SSH session not found")),
    }
}

/// The home directory that the output of the query names: the output
/// without the white space around it if that is an absolute path, else the
/// root directory.
pub open spec fn home_directory_of(output: Seq<char>) -> Seq<char> {
    let path = trimmed(output);
    if path.len() == 0 || path[0] != '/' {
        seq!['/']
    } else {
        path
    }
}

/// Reads the home directory from the output of the query.
pub fn home_directory_from(output: &str) -> (home: String)
    ensures
        home@ == home_directory_of(output@),
{
    proof {
        reveal_strlit("/");
    }
    assert("/"@ =~= seq!['/']);
    let path = trim(output);
    if path.unicode_len() == 0 {
        String::from_str("/")
    } else if path.get_char(0) != '/' {
        String::from_str("/")
    } else {
        String::from_str(path)
    }
}

} // verus!
