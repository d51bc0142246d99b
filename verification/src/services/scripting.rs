use vstd::prelude::*;
use crate::json::{
    Field,
    RequestError,
    json_lookup,
    option_view,
    request_field,
    request_field_spec,
    string_field_of,
};

verus! {

/// A request to run a script: the path to listen on and, where the request
/// names one, the file to run.
pub struct SpawnRequest {
    pub listen: String,
    pub file: Option<String>,
}

/// What the scripting service does with a request.
pub enum ScriptAction {
    /// Nothing.
    Ignore,
    /// Start a script.
    Spawn(SpawnRequest),
}

/// What the scripting service decides on a request with command `command`,
/// listen path `listen` and script file `file`, where the request names
/// them: a `spawn` command asks for a script listening at its path, and is
/// refused without one; any other command is ignored. Every spawn request is
/// answered, for services are their own factories. The result names the
/// listen path and the optional file.
pub open spec fn spawn_spec(
    command: Seq<char>,
    listen: Option<Seq<char>>,
    file: Option<Seq<char>>,
) -> Result<Option<(Seq<char>, Option<Seq<char>>)>, RequestError> {
    if command == "spawn"@ {
        match listen {
            Some(l) => Ok(Some((l, file))),
            None => Err(RequestError::BadField(Field::Listen)),
        }
    } else {
        Ok(None)
    }
}

/// The optional string a request gives for a field in either of its forms.
pub open spec fn optional_request_field(args: Seq<char>, key: Seq<char>, nested: Seq<char>) -> Option<
    Seq<char>,
> {
    match request_field_spec(args, key, nested, Field::Listen) {
        Ok(s) => Some(s),
        Err(_) => None,
    }
}

/// What the scripting service makes of the request `args`: its command, and
/// for a spawn its listen path and script file, each at the top level
/// (`listen`, `file`) or inside `args` (`listen`, `script`, the factory
/// form), go to `spawn_spec`; a request that is no JSON or has no string
/// command is refused.
pub open spec fn scripting_step(args: Seq<char>) -> Result<
    Option<(Seq<char>, Option<Seq<char>>)>,
    RequestError,
> {
    match json_lookup(args, "command"@) {
        None => Err(RequestError::InvalidJson),
        Some((None, _)) => Err(RequestError::BadField(Field::Command)),
        Some((Some(c), _)) => if c == "spawn"@ {
            match request_field_spec(args, "listen"@, "listen"@, Field::Listen) {
                Ok(l) => spawn_spec(c, Some(l), optional_request_field(args, "file"@, "script"@)),
                Err(RequestError::InvalidJson) => Err(RequestError::InvalidJson),
                Err(_) => spawn_spec(c, None, None),
            }
        } else {
            spawn_spec(c, None, None)
        },
    }
}

/// Decides on a request with command `command` and, where it names them,
/// listen path `listen` and script file `file`.
pub fn spawn_decision(command: &str, listen: Option<String>, file: Option<String>) -> (r: Result<
    ScriptAction,
    RequestError,
>)
    ensures
        match spawn_spec(command@, option_view(listen), option_view(file)) {
            Ok(None) => r matches Ok(ScriptAction::Ignore),
            Ok(Some((l, f))) => r matches Ok(ScriptAction::Spawn(req)) && req.listen@ == l
                && option_view(req.file) == f,
            Err(e) => r matches Err(e2) && e2 == e,
        },
{
    if command.to_owned() == "spawn".to_owned() {
        match listen {
            Some(l) => Ok(ScriptAction::Spawn(SpawnRequest { listen: l, file })),
            None => Err(RequestError::BadField(Field::Listen)),
        }
    } else {
        Ok(ScriptAction::Ignore)
    }
}

/// Reads one request that reached the scripting service's path.
pub fn on_request(args: &str) -> (r: Result<ScriptAction, RequestError>)
    ensures
        match scripting_step(args@) {
            Ok(None) => r matches Ok(ScriptAction::Ignore),
            Ok(Some((l, f))) => r matches Ok(ScriptAction::Spawn(req)) && req.listen@ == l
                && option_view(req.file) == f,
            Err(e) => r matches Err(e2) && e2 == e,
        },
{
    let command = string_field_of(args, "command", Field::Command)?;
    if command == "spawn".to_owned() {
        let listen = match request_field(args, "listen", "listen", Field::Listen) {
            Ok(l) => Some(l),
            Err(RequestError::InvalidJson) => {
                return Err(RequestError::InvalidJson);
            },
            Err(_) => None,
        };
        let file = match listen {
            Some(_) => match request_field(args, "file", "script", Field::Listen) {
                Ok(f) => Some(f),
                Err(_) => None,
            },
            None => None,
        };
        spawn_decision(command.as_str(), listen, file)
    } else {
        spawn_decision(command.as_str(), None, None)
    }
}

/// The script that sets the global `LISTENPATH` of a new script to `listen`.
pub fn listen_path_source(listen: &str) -> (r: String)
    ensures
        r@ == "let LISTENPATH = \""@ + listen@ + "\""@,
{
    let mut r = "let LISTENPATH = \"".to_owned();
    r.append(listen);
    r.append("\"");
    r
}

/// The script that hands the event arguments `args` to the running script's
/// `special_callback`. `args` must be a JSON text, as event arguments are:
/// it is spliced into the script as it stands, where JavaScript reads it as
/// an object literal; any other text would run as code of its own.
pub fn event_source(args: &str) -> (r: String)
    ensures
        r@ == "special_callback("@ + args@ + ")"@,
{
    let mut r = "special_callback(".to_owned();
    r.append(args);
    r.append(")");
    r
}

} // verus!
