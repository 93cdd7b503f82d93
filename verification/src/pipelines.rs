//! Commands for the store, gathered in a pipeline of the `redis` crate that
//! the caller then sends in one round trip.

use vstd::prelude::*;
use vstd::string::*;
use vstd::utf8::encode_utf8;

verus! {

/// The pipeline of the `redis` crate: commands that are sent together.
#[verifier::external_type_specification]
#[verifier::external_body]
pub struct ExPipeline(redis::Pipeline);

/// The commands that a pipeline holds, in the order in which they were
/// added: each command as its arguments in order, the command's name first,
/// each argument as its bytes.
pub uninterp spec fn pipeline_commands(pipe: redis::Pipeline) -> Seq<Seq<Seq<u8>>>;

/// `redis::pipe` gives a pipeline that holds no command.
#[verifier::external_body]
fn new_pipeline() -> (pipe: redis::Pipeline)
    ensures
        pipeline_commands(pipe) == Seq::<Seq<Seq<u8>>>::empty(),
{
    redis::pipe()
}

/// `Pipeline::cmd` adds, behind the commands that the pipeline holds, a
/// command whose one argument so far is its name, in UTF-8.
#[verifier::external_body]
fn start_command(pipe: &mut redis::Pipeline, name: &str)
    ensures
        pipeline_commands(*final(pipe)) == pipeline_commands(*old(pipe)).push(
            seq![encode_utf8(name@)],
        ),
{
    pipe.cmd(name);
}

/// `Pipeline::arg`, given a string slice, adds that text in UTF-8 as one
/// more argument to the last command of the pipeline. It panics on a
/// pipeline without a command, so there must be one.
#[verifier::external_body]
fn add_argument(pipe: &mut redis::Pipeline, arg: &str)
    requires
        pipeline_commands(*old(pipe)).len() > 0,
    ensures
        pipeline_commands(*final(pipe)) == pipeline_commands(*old(pipe)).update(
            pipeline_commands(*old(pipe)).len() - 1,
            pipeline_commands(*old(pipe)).last().push(encode_utf8(arg@)),
        ),
{
    pipe.arg(arg);
}

/// A command as texts: its name and its arguments.
pub type CommandView = Seq<Seq<char>>;

/// The arguments of the command `command` as bytes: each text in UTF-8.
pub open spec fn encoded_command(command: CommandView) -> Seq<Seq<u8>> {
    Seq::new(command.len(), |i: int| encode_utf8(command[i]))
}

/// The commands `commands` as bytes.
pub open spec fn encoded_commands(commands: Seq<CommandView>) -> Seq<Seq<Seq<u8>>> {
    Seq::new(commands.len(), |i: int| encoded_command(commands[i]))
}

/// Whether `pipe` holds exactly the commands `commands`.
pub open spec fn holds_commands(pipe: redis::Pipeline, commands: Seq<CommandView>) -> bool {
    pipeline_commands(pipe) == encoded_commands(commands)
}

/// A pipeline that holds no command.
pub fn empty_pipeline() -> (pipe: redis::Pipeline)
    ensures
        holds_commands(pipe, Seq::empty()),
{
    let pipe = new_pipeline();
    assert(encoded_commands(Seq::empty()) == Seq::<Seq<Seq<u8>>>::empty());
    pipe
}

/// Adds the command `command`, its name first, behind the commands that
/// `pipe` holds.
pub(crate) fn add_command(pipe: &mut redis::Pipeline, command: &Vec<String>)
    requires
        command.len() > 0,
    ensures
        pipeline_commands(*final(pipe)) == pipeline_commands(*old(pipe)).push(
            encoded_command(command.deep_view()),
        ),
{
    let ghost before = pipeline_commands(*pipe);
    let ghost texts = command.deep_view();
    start_command(pipe, command[0].as_str());
    assert(texts[0] == command[0]@);
    assert(seq![encode_utf8(texts[0])] == encoded_command(texts.take(1)));
    let mut i: usize = 1;
    while i < command.len()
        invariant
            1 <= i <= command.len(),
            texts == command.deep_view(),
            pipeline_commands(*pipe) == before.push(encoded_command(texts.take(i as int))),
        decreases command.len() - i,
    {
        assert(texts[i as int] == command[i as int]@);
        add_argument(pipe, command[i].as_str());
        assert(encoded_command(texts.take(i as int)).push(encode_utf8(texts[i as int]))
            == encoded_command(texts.take(i + 1)));
        i += 1;
    }
    assert(texts.take(command.len() as int) == texts);
}

/// Adding a command to a pipeline that holds `commands` gives one that
/// holds them and the new command.
pub proof fn lemma_encoded_push(commands: Seq<CommandView>, command: CommandView)
    ensures
        encoded_commands(commands).push(encoded_command(command)) == encoded_commands(
            commands.push(command),
        ),
{
}

} // verus!
