//! Running one command: where it runs, how long, and what is answered.
use vstd::prelude::*;
use vstd::utf8::encode_utf8;
use crate::terminal::command::CommandLine;
use crate::terminal::execute::{
    collecting_goes_on,
    command_reply,
    command_size,
    execute_command,
    output_reply,
    plain_reply,
    regex_replaced,
    strip_ansi,
    timeout_error,
    working_directory,
    CollectAction,
    CollectEvent,
    Collector,
};
use crate::terminal::types::{refused, ExecuteCommandOption, Reply, TerminalSize};
use crate::text::words::texts;

verus! {

/// A command that was run to its end is answered with success, its whole output and no error,
/// whatever the output is, and the empty one too. Nothing else is answered with success, and
/// everything else with an error and without output.
pub proof fn law_finished_commands_are_answered_with_their_output(
    outcome: Option<Result<String, String>>,
    reply: Reply,
)
    requires
        call_ensures(plain_reply, (outcome,), reply),
    ensures
        reply matches Reply::Command { status, body } && ({
            &&& status == 200 <==> (outcome matches Some(Ok(_)))
            &&& body.error is None <==> (outcome matches Some(Ok(_)))
            &&& status == 500 <==> !(outcome matches Some(Ok(_)))
            &&& outcome matches Some(Ok(plain)) ==> body.output@ == plain@
            &&& !(outcome matches Some(Ok(_))) ==> body.output@.len() == 0
            &&& outcome matches Some(Err(error)) ==> (body.error matches Some(text) && text@
                == error@)
            &&& outcome is None ==> (body.error matches Some(text) && text@
                == "Internal server error"@)
        }),
{
    reveal_strlit("");
}

/// The same, of the bytes that a command printed: they are answered as text, and as they are where
/// they are plain.
pub proof fn law_finished_commands_are_answered_with_what_they_printed(
    outcome: Option<Result<Vec<u8>, String>>,
    reply: Reply,
    text: Seq<char>,
)
    requires
        call_ensures(output_reply, (outcome,), reply),
    ensures
        reply matches Reply::Command { status, body } && ({
            &&& status == 200 <==> (outcome matches Some(Ok(_)))
            &&& body.error is None <==> (outcome matches Some(Ok(_)))
            &&& status == 500 <==> !(outcome matches Some(Ok(_)))
            &&& (outcome matches Some(Ok(output)) && output@ == encode_utf8(text)
                && !text.contains('\u{1b}')) ==> body.output@ == text
            &&& !(outcome matches Some(Ok(_))) ==> body.output@.len() == 0
            &&& outcome matches Some(Err(error)) ==> (body.error matches Some(message) && message@
                == error@)
            &&& outcome is None ==> (body.error matches Some(message) && message@
                == "Internal server error"@)
        }),
{
    reveal_strlit("");
    vstd::utf8::encode_utf8_valid_utf8(text);
    vstd::utf8::encode_utf8_decode_utf8(text);
}

/// What a command printed is answered as it would be if its escape sequences were taken out of the
/// text first.
pub proof fn law_output_is_answered_without_escapes(
    printed: &str,
    output: Vec<u8>,
    plain: String,
    reply: Reply,
    plain_answer: Reply,
)
    requires
        output@ == encode_utf8(printed@),
        call_ensures(strip_ansi, (printed,), plain),
        call_ensures(plain_reply, (Some(Ok::<String, String>(plain)),), plain_answer),
        call_ensures(output_reply, (Some(Ok::<Vec<u8>, String>(output)),), reply),
    ensures
        reply@ == plain_answer@,
        reply matches Reply::Command { body, .. } && body.output@ == plain@,
{
    vstd::utf8::encode_utf8_valid_utf8(printed@);
    vstd::utf8::encode_utf8_decode_utf8(printed@);
}

/// What is taken out of a text are the sequences that set colours, clear a line or move within the
/// screen, each of them and nothing put in its place.
pub proof fn law_escape_sequences_are_taken_out(text: &str, plain: String)
    requires
        call_ensures(strip_ansi, (text,), plain),
    ensures
        plain@ == regex_replaced(
            "\\x1B\\[([0-9]{1,2}(;[0-9]{1,2})?)?[m|K]|\\x1B\\[[0-9]+[A-Za-z]"@,
            text@,
            ""@,
        ),
{
}

/// Text without the escape character is left as it is.
pub proof fn law_plain_text_is_left_alone(text: &str, plain: String)
    requires
        call_ensures(strip_ansi, (text,), plain),
        !text@.contains('\u{1b}'),
    ensures
        plain@ == text@,
{
}

/// A reply carries the status, the output and the error that it is made of, and a refusal its
/// reason.
pub proof fn law_replies_carry_their_parts(
    status: u16,
    output: String,
    error: Option<String>,
    reply: Reply,
    reason: String,
    refusal: Reply,
)
    requires
        call_ensures(command_reply, (status, output, error), reply),
        call_ensures(refused, (reason,), refusal),
    ensures
        reply matches Reply::Command { status: s, body } && s == status && body.output@ == output@
            && (body.error is Some <==> error is Some) && (error matches Some(e) ==> (
        body.error matches Some(text) && text@ == e@)),
        refusal matches Reply::Refused(body) && body.error@ == reason@,
{
}

/// The directory that the request names comes first, in its first field and then in its second;
/// where it names none, or the empty one, it is the home directory, then the current one, then the
/// one called `.`.
pub proof fn law_named_directory_comes_first(
    options: &ExecuteCommandOption,
    home: Option<&str>,
    current: Option<&[u8]>,
    directory: Vec<u8>,
)
    requires
        call_ensures(working_directory, (options, home, current), directory),
    ensures
        options.cwd matches Some(cwd) ==> (cwd@.len() > 0 ==> directory@ == encode_utf8(cwd@)),
        options.cwd is None ==> (options.u_cwd matches Some(cwd) ==> (cwd@.len() > 0 ==> directory@
            == encode_utf8(cwd@))),
        (options.cwd matches Some(cwd) && cwd@.len() == 0) || (options.cwd is None && (options.u_cwd
            is None || (options.u_cwd matches Some(cwd) && cwd@.len() == 0))) ==> {
            &&& home matches Some(h) ==> directory@ == encode_utf8(h@)
            &&& home is None ==> (current matches Some(c) ==> directory@ == c@)
            &&& home is None && current is None ==> directory@ == encode_utf8("."@)
        },
{
}

/// A command is run exactly where its directory is there: the shell runs it as it was given. Where
/// the directory is not there, that is answered.
pub proof fn law_commands_run_where_the_directory_is(
    options: &ExecuteCommandOption,
    exists_there: bool,
    result: Result<CommandLine, Reply>,
)
    requires
        call_ensures(execute_command, (options, exists_there), result),
    ensures
        result is Ok <==> exists_there,
        result matches Ok(line) ==> line.program@ == "sh"@ && line.args@.len() == 2
            && line.args@[0]@ == "-c"@ && line.args@[1]@ == options.command@,
        result matches Err(reply) ==> (reply matches Reply::Command { status, body } && status
            == 400 && body.output@.len() == 0 && (body.error matches Some(text) && text@
            == "Working directory does not exist"@)),
{
    reveal_strlit("");
    if let Ok(line) = result {
        assert(line.words()[0] == line.program@);
        assert(line.words().len() == line.args@.len() + 1);
        assert(texts(line.args@)[0] == line.args@[0]@);
        assert(texts(line.args@)[1] == line.args@[1]@);
        assert(line.words()[1] == texts(line.args@)[0]);
        assert(line.words()[2] == texts(line.args@)[1]);
    }
}

/// A command runs in a terminal of 24 rows and 80 columns.
pub proof fn law_commands_run_in_a_usual_terminal(size: TerminalSize)
    requires
        call_ensures(command_size, (), size),
    ensures
        size.rows == 24,
        size.cols == 80,
{
}

/// What a command prints is put behind what it printed before, and nothing else changes that;
/// what was collected is handed over whole.
pub proof fn law_output_is_put_together(
    collector: &mut Collector,
    event: CollectEvent,
    action: CollectAction,
    done: Collector,
    output: Vec<u8>,
)
    requires
        call_ensures(Collector::step, (collector, event), action),
        done == *final(collector),
        call_ensures(Collector::into_output, (done,), output),
    ensures
        event matches CollectEvent::Data(data) ==> output@ == old(collector)@ + data@,
        !(event is Data) ==> output@ == old(collector)@,
{
}

/// Nothing is collected in the beginning.
pub proof fn law_nothing_is_collected_at_first(fresh: Collector, output: Vec<u8>)
    requires
        call_ensures(Collector::new, (), fresh),
        call_ensures(Collector::into_output, (fresh,), output),
    ensures
        output@.len() == 0,
{
}

/// A command is given up exactly where it was quiet and has run for more than thirty seconds. The
/// collecting ends with the output, and goes on otherwise until the process has ended.
pub proof fn law_commands_have_thirty_seconds(
    collector: &mut Collector,
    event: CollectEvent,
    action: CollectAction,
    process_ended: bool,
    on: bool,
)
    requires
        call_ensures(Collector::step, (collector, event), action),
        call_ensures(collecting_goes_on, (action, process_ended), on),
    ensures
        action is GiveUp <==> (event matches CollectEvent::Quiet(Some(nanos)) && nanos
            > 30_000_000_000),
        action is Finish <==> event is Ended,
        on <==> !(action is GiveUp) && !(event is Ended) && !process_ended,
{
}

/// A command that was given up is said to have timed out, unless it could not be killed.
pub proof fn law_timeouts_are_named(killed: Result<(), String>, error: String)
    requires
        call_ensures(timeout_error, (killed,), error),
    ensures
        killed is Ok ==> error@ == "Command execution timed out"@,
        killed matches Err(e) ==> error@ == e@,
{
}

} // verus!
