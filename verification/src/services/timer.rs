use vstd::prelude::*;
use crate::json::{
    Field,
    RequestError,
    json_lookup,
    option_view,
    request_field,
    request_field_spec,
    string_field_of,
};
use crate::services::broker::Outgoing;

verus! {

/// The echo list after the timer takes a request with command `command`
/// and, where the request names one, echo path `echo`: an `echo` command adds
/// its path at the end and is refused without one; any other command leaves
/// the list as it was.
pub open spec fn register_spec(echos: Seq<Seq<char>>, command: Seq<char>, echo: Option<Seq<char>>) -> Result<
    Seq<Seq<char>>,
    RequestError,
> {
    if command == "echo"@ {
        match echo {
            Some(e) => Ok(echos.push(e)),
            None => Err(RequestError::BadField(Field::Echo)),
        }
    } else {
        Ok(echos)
    }
}

/// The echo list after the timer reads the request `args`: its command, and
/// for an `echo` command its `echo` path, at the top level or inside `args`
/// (the rebroadcast form), go to `register_spec`; a request that is no JSON
/// or has no string command is refused.
pub open spec fn timer_step(echos: Seq<Seq<char>>, args: Seq<char>) -> Result<
    Seq<Seq<char>>,
    RequestError,
> {
    match json_lookup(args, "command"@) {
        None => Err(RequestError::InvalidJson),
        Some((None, _)) => Err(RequestError::BadField(Field::Command)),
        Some((Some(c), _)) => if c == "echo"@ {
            match request_field_spec(args, "echo"@, "echo"@, Field::Echo) {
                Ok(e) => register_spec(echos, c, Some(e)),
                Err(RequestError::InvalidJson) => Err(RequestError::InvalidJson),
                Err(_) => register_spec(echos, c, None),
            }
        } else {
            register_spec(echos, c, None)
        },
    }
}

/// The timer service: the paths that asked for a tick every second.
pub struct Timer {
    echos: Vec<String>,
}

impl View for Timer {
    type V = Seq<Seq<char>>;

    closed spec fn view(&self) -> Seq<Seq<char>> {
        self.echos@.map_values(|s: String| s@)
    }
}

impl Timer {
    /// A timer that ticks to no one.
    pub fn new() -> (r: Self)
        ensures
            r@ == Seq::<Seq<char>>::empty(),
    {
        let r = Timer { echos: Vec::new() };
        assert(r@ =~= Seq::<Seq<char>>::empty());
        r
    }

    /// Takes a request with command `command` and, where it names one, echo
    /// path `echo`.
    pub fn register(&mut self, command: &str, echo: Option<String>) -> (r: Result<(), RequestError>)
        ensures
            match register_spec(old(self)@, command@, option_view(echo)) {
                Ok(e) => r is Ok && final(self)@ == e,
                Err(err) => r == Err::<(), RequestError>(err) && final(self)@ == old(self)@,
            },
    {
        if command.to_owned() == "echo".to_owned() {
            match echo {
                Some(e) => {
                    let ghost before = self@;
                    self.echos.push(e);
                    assert(self@ =~= before.push(e@));
                    Ok(())
                },
                None => Err(RequestError::BadField(Field::Echo)),
            }
        } else {
            Ok(())
        }
    }

    /// Reads one request that reached the timer's path.
    pub fn on_event(&mut self, args: &str) -> (r: Result<(), RequestError>)
        ensures
            match timer_step(old(self)@, args@) {
                Ok(e) => r is Ok && final(self)@ == e,
                Err(err) => r == Err::<(), RequestError>(err) && final(self)@ == old(self)@,
            },
    {
        let command = string_field_of(args, "command", Field::Command)?;
        let echo = if command == "echo".to_owned() {
            match request_field(args, "echo", "echo", Field::Echo) {
                Ok(e) => Some(e),
                Err(RequestError::InvalidJson) => {
                    return Err(RequestError::InvalidJson);
                },
                Err(_) => None,
            }
        } else {
            None
        };
        self.register(command.as_str(), echo)
    }

    /// The events of one tick: `{event:'tick'}` to each echo path, in the
    /// order in which they were asked for.
    pub fn tick(&self) -> (out: Vec<Outgoing>)
        ensures
            out@.len() == self@.len(),
            forall|k: int|
                #![trigger out@[k]]
                0 <= k < out@.len() ==> out@[k].path@ == self@[k] && out@[k].args@
                    == "{event:'tick'}"@,
    {
        let n = self.echos.len();
        let mut out: Vec<Outgoing> = Vec::new();
        let mut k: usize = 0;
        while k < n
            invariant
                n == self.echos@.len(),
                k <= n,
                out@.len() == k,
                forall|j: int|
                    #![trigger out@[j]]
                    0 <= j < k ==> out@[j].path@ == self@[j] && out@[j].args@
                        == "{event:'tick'}"@,
            decreases n - k,
        {
            out.push(Outgoing { path: self.echos[k].clone(), args: "{event:'tick'}".to_owned() });
            k = k + 1;
        }
        out
    }
}

/// Every accepted echo request adds one entry, whatever the list held: an
/// echo command with path `e` is accepted and appends `e` to the list, which
/// grows by exactly one and keeps all it had in front; a command other than
/// `echo` leaves the list as it is. Reading a request whose command is `echo`
/// and which is accepted likewise appends exactly one path.
pub proof fn law_echo_appends_one_entry(
    echos: Seq<Seq<char>>,
    e: Seq<char>,
    c: Seq<char>,
    x: Option<Seq<char>>,
    args: Seq<char>,
)
    ensures
        register_spec(echos, "echo"@, Some(e)) matches Ok(r) && r.len() == echos.len() + 1
            && r.last() == e && r.drop_last() == echos,
        c != "echo"@ ==> register_spec(echos, c, x) == Ok::<Seq<Seq<char>>, RequestError>(echos),
        json_lookup(args, "command"@) matches Some((Some(cmd), _)) && cmd == "echo"@ ==> (
        timer_step(echos, args) matches Ok(r) ==> r.len() == echos.len() + 1 && r.drop_last()
            == echos && request_field_spec(args, "echo"@, "echo"@, Field::Echo) == Ok::<
            Seq<char>,
            RequestError,
        >(r.last())),
        json_lookup(args, "command"@) matches Some((Some(cmd), _)) && cmd != "echo"@ ==> timer_step(
            echos,
            args,
        ) == Ok::<Seq<Seq<char>>, RequestError>(echos),
{
    let r = echos.push(e);
    assert(r.drop_last() =~= echos);
    if let Some((Some(cmd), _)) = json_lookup(args, "command"@) {
        if cmd == "echo"@ {
            if let Ok(v) = request_field_spec(args, "echo"@, "echo"@, Field::Echo) {
                assert(echos.push(v).drop_last() =~= echos);
            }
        }
    }
}

} // verus!
