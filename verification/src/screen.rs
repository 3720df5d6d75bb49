use vstd::prelude::*;
use vstd::string::StringExecFns;

verus! {

/// A detached-session command for the caller to spawn: the program, its
/// arguments in order, and the working directory. The library only ever
/// decides commands; spawning them is the caller's I/O.
pub struct ScreenCommand {
    pub program: String,
    pub args: Vec<String>,
    pub workdir: String,
}

/// The argument views of a command, in order.
pub open spec fn args_model(args: Seq<String>) -> Seq<Seq<char>> {
    args.map_values(|s: String| s@)
}

/// The text sent into a session to run `command` there: the command line
/// with the carriage return that submits it.
pub open spec fn spec_stuffed(command: Seq<char>) -> Seq<char> {
    command + "\r"@
}

/// The argument list that sends `command` into the named session.
pub open spec fn spec_execute_args(screen_name: Seq<char>, command: Seq<char>) -> Seq<Seq<char>> {
    seq!["-S"@, screen_name, "-p"@, "0"@, "-X"@, "stuff"@, spec_stuffed(command)]
}

/// The argument list that starts the named detached session running the
/// server start script.
pub open spec fn spec_start_args(screen_name: Seq<char>) -> Seq<Seq<char>> {
    seq!["-dmS"@, screen_name, "./start-server.sh"@]
}

/// The chat line shown to all players for a message.
pub open spec fn spec_tellraw(message: Seq<char>) -> Seq<char> {
    "tellraw @a [{\"text\":\""@ + message + "\", \"color\":\"gray\",\"italic\":true}]"@
}

/// The command that runs `command` inside the server's session, from the
/// server directory.
pub fn screen_execute(server: &String, screen_name: &String, command: &String) -> (r:
    ScreenCommand)
    ensures
        r.program@ == "screen"@,
        args_model(r.args@) == spec_execute_args(screen_name@, command@),
        r.workdir@ == server@,
{
    let mut args: Vec<String> = Vec::new();
    args.push(String::from_str("-S"));
    args.push(screen_name.clone());
    args.push(String::from_str("-p"));
    args.push(String::from_str("0"));
    args.push(String::from_str("-X"));
    args.push(String::from_str("stuff"));
    let mut stuffed = command.clone();
    stuffed.append("\r");
    args.push(stuffed);
    proof {
        assert(args_model(args@) =~= spec_execute_args(screen_name@, command@));
    }
    ScreenCommand { program: String::from_str("screen"), args, workdir: server.clone() }
}

/// The command that starts the server's detached session.
pub fn start_screen(server: &String, screen_name: &String) -> (r: ScreenCommand)
    ensures
        r.program@ == "screen"@,
        args_model(r.args@) == spec_start_args(screen_name@),
        r.workdir@ == server@,
{
    let mut args: Vec<String> = Vec::new();
    args.push(String::from_str("-dmS"));
    args.push(screen_name.clone());
    args.push(String::from_str("./start-server.sh"));
    proof {
        assert(args_model(args@) =~= spec_start_args(screen_name@));
    }
    ScreenCommand { program: String::from_str("screen"), args, workdir: server.clone() }
}

/// The command that shows `message` to every player on the server.
pub fn message_players(server: &String, screen_name: &String, message: &String) -> (r:
    ScreenCommand)
    ensures
        r.program@ == "screen"@,
        args_model(r.args@) == spec_execute_args(screen_name@, spec_tellraw(message@)),
        r.workdir@ == server@,
{
    let mut line = String::from_str("tellraw @a [{\"text\":\"");
    line.append(message.as_str());
    line.append("\", \"color\":\"gray\",\"italic\":true}]");
    proof {
        assert(line@ =~= spec_tellraw(message@));
    }
    screen_execute(server, screen_name, &line)
}

/// The command that stops the server: `stop` sent into its session.
pub fn stop(server: &String, screen_name: &String) -> (r: ScreenCommand)
    ensures
        r.program@ == "screen"@,
        args_model(r.args@) == spec_execute_args(screen_name@, "stop"@),
        r.workdir@ == server@,
{
    screen_execute(server, screen_name, &String::from_str("stop"))
}

/// The commands that restart the server: stop the running session, then
/// start a fresh detached one, in that order.
pub fn start(server: &String, screen_name: &String) -> (r: Vec<ScreenCommand>)
    ensures
        r@.len() == 2,
        r@[0].program@ == "screen"@,
        args_model(r@[0].args@) == spec_execute_args(screen_name@, "stop"@),
        r@[0].workdir@ == server@,
        r@[1].program@ == "screen"@,
        args_model(r@[1].args@) == spec_start_args(screen_name@),
        r@[1].workdir@ == server@,
{
    let mut commands: Vec<ScreenCommand> = Vec::new();
    commands.push(stop(server, screen_name));
    commands.push(start_screen(server, screen_name));
    commands
}

} // verus!
