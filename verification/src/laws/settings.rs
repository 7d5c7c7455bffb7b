//! What the command line and the requests decide, the rectangle, and the server of the first
//! generation.
use vstd::prelude::*;
use vstd::utf8::{encode_utf8, valid_utf8};
use crate::rectangle::{draw_filled_rectangle, get_dimensions, read_dimension};
use crate::startup::{
    allowed_origins,
    bind_port,
    choose_host,
    lsp_port,
    ready_message,
    Host,
    Origins,
};
use crate::term_server::{
    choose_shell,
    creation_refused,
    execute_command,
    forward_output,
    initial_content,
    terminate_terminal,
};
use crate::terminal::buffer::CircularBuffer;
use crate::terminal::command::CommandLine;
use crate::terminal::sessions::SessionTable;
use crate::terminal::types::{ExecuteCommandOption, Reply};
use crate::text::numerals::parse_unsigned;
use crate::text::words::{texts, trim};
use crate::utils::{
    first_of,
    first_reachable,
    get_ip_address,
    json_text,
    json_unsigned,
    parse_u16,
    parse_u16_field,
    InterfaceAddress,
    Ipv4,
};

verus! {

/// A field that is a number is taken exactly where it fits in sixteen bits, and then it is that
/// number.
pub proof fn law_numbers_are_taken_where_they_fit(
    number: u64,
    text: Option<&str>,
    name: &str,
    result: Result<u16, String>,
)
    requires
        call_ensures(parse_u16_field, (Some(number), text, name), result),
    ensures
        result is Ok <==> number <= 65535,
        result matches Ok(n) ==> n == number,
        result matches Err(message) ==> message@ == name@ + " must be a valid u16."@,
{
}

/// A field that is a text is taken exactly where it is a numeral that fits in sixteen bits.
pub proof fn law_numerals_are_taken_where_they_fit(
    text: &str,
    bytes: &[u8],
    name: &str,
    read: Option<u64>,
    result: Result<u16, String>,
)
    requires
        bytes@ == encode_utf8(text@),
        call_ensures(parse_unsigned, (bytes, 65535u64), read),
        call_ensures(parse_u16_field, (None::<u64>, Some(text), name), result),
    ensures
        result is Ok <==> read is Some,
        result matches Ok(n) ==> read == Some(n as u64),
        result matches Err(message) ==> message@ == name@ + " must be a valid u16 string."@,
{
}

/// A field that is neither is refused.
pub proof fn law_other_fields_are_refused(name: &str, result: Result<u16, String>)
    requires
        call_ensures(parse_u16_field, (None::<u64>, None::<&str>, name), result),
    ensures
        result matches Err(message) && message@ == name@ + " must be a number or a valid string."@,
{
}

/// A field of a request is taken as the number or the text that it is.
pub proof fn law_fields_are_taken_as_what_they_are(
    value: &serde_json::Value,
    name: &str,
    result: Result<u16, String>,
    text: Option<&str>,
    of_parts: Result<u16, String>,
)
    requires
        call_ensures(parse_u16, (value, name), result),
        text matches Some(t) ==> json_text(*value) == Some(t@),
        text is None ==> json_text(*value) is None,
        call_ensures(parse_u16_field, (json_unsigned(*value), text, name), of_parts),
    ensures
        result is Ok <==> of_parts is Ok,
        result matches Ok(n) ==> of_parts == Ok::<u16, String>(n),
        result matches Err(message) ==> (of_parts matches Err(other) && message@ == other@),
{
}

/// An address that is found is one of the machine's, does not point back to it, and stands before
/// every other such address; none is found exactly where there is none.
pub proof fn law_first_outward_address_is_found(
    interfaces: &Vec<Vec<InterfaceAddress>>,
    found: Option<Ipv4>,
    i: int,
    j: int,
)
    requires
        call_ensures(get_ip_address, (interfaces,), found),
    ensures
        found matches Some(ip) ==> ip.a != 127 && exists|x: int, y: int|
            0 <= x < interfaces@.len() && 0 <= y < interfaces@[x]@.len()
                && #[trigger] interfaces@[x]@[y] == InterfaceAddress::V4(ip) && no_outward_before(
                interfaces@,
                x,
                y,
            ),
        found is None && 0 <= i < interfaces@.len() && 0 <= j < interfaces@[i]@.len()
            ==> !outward(interfaces@[i]@[j]),
{
    if found is Some {
        lemma_first_reachable(interfaces@);
    } else {
        lemma_none_reachable(interfaces@, i, j);
    }
}

/// Whether an address is of version four and does not point back to its machine.
pub open spec fn outward(address: InterfaceAddress) -> bool {
    address matches InterfaceAddress::V4(ip) && ip.a != 127
}

/// Whether no such address stands before the one at `y` of interface `x`.
pub open spec fn no_outward_before(
    interfaces: Seq<Vec<InterfaceAddress>>,
    x: int,
    y: int,
) -> bool {
    forall|i: int, j: int|
        0 <= i < interfaces.len() && 0 <= j < interfaces[i]@.len() && (i < x || (i == x && j < y))
            ==> !outward(#[trigger] interfaces[i]@[j])
}

proof fn lemma_first_of(addresses: Seq<InterfaceAddress>) -> (at: int)
    ensures
        first_of(addresses) matches Some(ip) ==> 0 <= at < addresses.len() && addresses[at]
            == InterfaceAddress::V4(ip) && ip.a != 127 && forall|j: int|
            0 <= j < at ==> !outward(#[trigger] addresses[j]),
        first_of(addresses) is None ==> forall|j: int|
            0 <= j < addresses.len() ==> !outward(#[trigger] addresses[j]),
    decreases addresses.len(),
{
    if addresses.len() == 0 || outward(addresses[0]) {
        0
    } else {
        let rest = addresses.skip(1);
        let at = lemma_first_of(rest);
        assert forall|j: int|
            0 <= j < addresses.len() && (first_of(addresses) is Some ==> j <= at) implies !outward(
            #[trigger] addresses[j],
        ) by {
            if j > 0 {
                assert(rest[j - 1] == addresses[j]);
            }
        }
        at + 1
    }
}

proof fn lemma_first_reachable(interfaces: Seq<Vec<InterfaceAddress>>) -> (at: (int, int))
    requires
        first_reachable(interfaces) is Some,
    ensures
        ({
            let ip = first_reachable(interfaces)->Some_0;
            let (x, y) = at;
            &&& 0 <= x < interfaces.len()
            &&& 0 <= y < interfaces[x]@.len()
            &&& interfaces[x]@[y] == InterfaceAddress::V4(ip)
            &&& ip.a != 127
            &&& no_outward_before(interfaces, x, y)
        }),
    decreases interfaces.len(),
{
    let first = lemma_first_of(interfaces[0]@);
    if first_of(interfaces[0]@) is Some {
        (0, first)
    } else {
        let rest = interfaces.skip(1);
        let (x, y) = lemma_first_reachable(rest);
        assert forall|i: int, j: int|
            0 <= i < interfaces.len() && 0 <= j < interfaces[i]@.len() && (i < x + 1 || (i == x + 1
                && j < y)) implies !outward(#[trigger] interfaces[i]@[j]) by {
            if i > 0 {
                assert(rest[i - 1] == interfaces[i]);
                assert(!outward(rest[i - 1]@[j]));
            }
        }
        (x + 1, y)
    }
}

proof fn lemma_none_reachable(interfaces: Seq<Vec<InterfaceAddress>>, i: int, j: int)
    requires
        first_reachable(interfaces) is None,
    ensures
        0 <= i < interfaces.len() && 0 <= j < interfaces[i]@.len() ==> !outward(interfaces[i]@[j]),
    decreases interfaces.len(),
{
    if 0 <= i < interfaces.len() && 0 <= j < interfaces[i]@.len() {
        lemma_first_of(interfaces[0]@);
        if i > 0 {
            let rest = interfaces.skip(1);
            assert(rest[i - 1] == interfaces[i]);
            lemma_none_reachable(rest, i - 1, j);
        }
    }
}

/// A server listens in the local network exactly where that was asked for and an address was found,
/// and else on this machine only. Whoever asked for it and does not get it is told.
pub proof fn law_servers_listen_where_asked(
    local_network: bool,
    found: Option<Ipv4>,
    host: Host,
)
    requires
        call_ensures(choose_host, (local_network, found), host),
    ensures
        local_network ==> (found matches Some(ip) ==> host.ip == ip),
        !local_network || found is None ==> host.ip.a == 127 && host.ip.b == 0 && host.ip.c == 0
            && host.ip.d == 1,
        host.not_found <==> local_network && found is None,
{
}

/// A bridge is bound to the port that was given, and to any port where it was the default one, 8767.
pub proof fn law_bridge_is_bound_to_the_port_given(port: u16, chosen: Option<u16>, bound: u16)
    requires
        call_ensures(lsp_port, (port,), chosen),
        call_ensures(bind_port, (chosen,), bound),
    ensures
        port != 8767 ==> bound == port,
        port == 8767 ==> bound == 0,
{
}

/// A port that was chosen is bound, whichever it is; where none was, the system chooses.
pub proof fn law_chosen_ports_are_bound(chosen: Option<u16>, bound: u16)
    requires
        call_ensures(bind_port, (chosen,), bound),
    ensures
        chosen matches Some(port) ==> bound == port,
        chosen is None ==> bound == 0,
{
}

/// Every origin is allowed exactly where that was asked for; else the local secure one is, alone.
pub proof fn law_other_origins_are_allowed_only_where_asked(any: bool, origins: Origins)
    requires
        call_ensures(allowed_origins, (any,), origins),
    ensures
        origins is Any <==> any,
        origins matches Origins::Only(origin) ==> origin@ == "https://localhost"@,
{
}

/// Whoever waits for the server reads one line.
pub proof fn law_readiness_is_one_line(text: &'static str)
    requires
        call_ensures(ready_message, (), text),
    ensures
        text@ == "READY\n"@,
{
}

/// A dimension is the number on the line without its white space, and nought where there is none
/// that fits; the width is that of the first line and the height that of the second.
pub proof fn law_dimensions_are_the_numbers_typed(
    line: &str,
    inner: &str,
    bytes: &[u8],
    read: Option<u64>,
    n: usize,
    other: &str,
    m: usize,
    size: (usize, usize),
)
    requires
        call_ensures(trim, (line,), inner),
        bytes@ == encode_utf8(inner@),
        call_ensures(parse_unsigned, (bytes, usize::MAX as u64), read),
        call_ensures(read_dimension, (line,), n),
        call_ensures(read_dimension, (other,), m),
        call_ensures(get_dimensions, (line, other), size),
    ensures
        read matches Some(value) ==> n == value,
        read is None ==> n == 0,
        size.0 == n,
        size.1 == m,
{
}

/// A rectangle is drawn exactly where neither of its sides is nought: half as many lines as rows,
/// rounded up, each with as many half blocks as it is wide. Else one line says that it cannot be.
pub proof fn law_rectangles_are_drawn_in_full(
    width: usize,
    height: usize,
    lines: Vec<String>,
    i: int,
    k: int,
)
    requires
        call_ensures(draw_filled_rectangle, (width, height), lines),
    ensures
        width > 0 && height > 0 ==> {
            &&& 2 * lines@.len() == height || 2 * lines@.len() == height + 1
            &&& 0 <= i < lines@.len() ==> lines@[i]@.len() == width
            &&& 0 <= i < lines@.len() && 0 <= k < width ==> lines@[i]@[k] == '\u{2584}'
        },
        width == 0 || height == 0 ==> lines@.len() == 1 && lines@[0]@
            == "Invalid dimensions. Width and height must be greater than 0."@,
{
    assert(texts(lines@).len() == lines@.len());
    if 0 <= i < lines@.len() {
        assert(texts(lines@)[i] == lines@[i]@);
    }
    if lines@.len() > 0 {
        assert(texts(lines@)[0] == lines@[0]@);
    }
}

/// The shell is the one that is set, and `bash` where none is.
pub proof fn law_the_set_shell_is_run(set: Option<&str>, shell: String)
    requires
        call_ensures(choose_shell, (set,), shell),
    ensures
        set matches Some(s) ==> shell@ == s@,
        set is None ==> shell@ == "bash"@,
{
}

/// A terminal that could not be had is refused by the step that failed.
pub proof fn law_refusals_name_the_step(opened: bool, error: &str, reply: Reply)
    requires
        call_ensures(creation_refused, (opened, error), reply),
    ensures
        opened ==> (reply matches Reply::Refused(body) && body.error@ == "Failed to spawn command: "@
            + error@),
        !opened ==> (reply matches Reply::Refused(body) && body.error@ == "Failed to open PTY: "@
            + error@),
{
}

/// Output that is text is sent as it is and kept; any other is neither sent nor kept.
pub proof fn law_text_is_sent_and_kept(
    buffer: &mut CircularBuffer,
    data: &[u8],
    text: Option<String>,
    before: Vec<u8>,
    after: Vec<u8>,
)
    requires
        buffer.wf(),
        call_ensures(forward_output, (buffer, data), text),
        call_ensures(CircularBuffer::get_contents, (&*buffer,), before),
        call_ensures(CircularBuffer::get_contents, (&*final(buffer),), after),
    ensures
        text is Some <==> valid_utf8(data@),
        text matches Some(t) ==> encode_utf8(t@) == data@,
        text is Some && before@.len() + data@.len() <= old(buffer).max_size() ==> after@ == before@
            + data@,
        text is None ==> after@ == before@,
{
    if valid_utf8(data@) {
        vstd::utf8::decode_utf8_encode_utf8(data@);
    }
}

/// A client is first sent what is kept, where that is text and there is any.
pub proof fn law_client_is_first_sent_what_is_kept(
    buffer: &CircularBuffer,
    kept: Vec<u8>,
    text: Option<String>,
)
    requires
        call_ensures(CircularBuffer::get_contents, (buffer,), kept),
        call_ensures(initial_content, (buffer,), text),
    ensures
        text is Some <==> kept@.len() > 0 && valid_utf8(kept@),
        text matches Some(t) ==> encode_utf8(t@) == kept@,
{
    if valid_utf8(kept@) {
        vstd::utf8::decode_utf8_encode_utf8(kept@);
    }
}

/// A terminal that is found is terminated, and then no longer found; one that is not is refused.
pub proof fn law_found_terminals_are_terminated(
    table: &mut SessionTable,
    pid: u32,
    found: Option<u64>,
    reply: Reply,
    after: Option<u64>,
    other: u32,
    other_before: Option<u64>,
    other_after: Option<u64>,
)
    requires
        call_ensures(SessionTable::get, (&*table, pid), found),
        call_ensures(terminate_terminal, (table, pid), reply),
        call_ensures(SessionTable::get, (&*final(table), pid), after),
        other != pid,
        call_ensures(SessionTable::get, (&*table, other), other_before),
        call_ensures(SessionTable::get, (&*final(table), other), other_after),
    ensures
        reply is Success <==> found is Some,
        found is None ==> (reply matches Reply::Refused(body) && body.error@
            == "Session not found"@),
        after is None,
        other_after == other_before,
{
}

/// A command is run by the shell as it was given, exactly where its directory is there.
pub proof fn law_commands_run_in_the_given_shell(
    options: &ExecuteCommandOption,
    shell: &str,
    exists_there: bool,
    result: Result<CommandLine, Reply>,
)
    requires
        call_ensures(execute_command, (options, shell, exists_there), result),
    ensures
        result is Ok <==> exists_there,
        result matches Ok(line) ==> line.program@ == shell@ && line.args@.len() == 2
            && line.args@[0]@ == "-c"@ && line.args@[1]@ == options.command@,
        result matches Err(reply) ==> (reply matches Reply::Command { status, body } && status
            == 400 && body.output@.len() == 0 && (body.error matches Some(text) && text@
            == "Working directory does not exist"@)),
{
    reveal_strlit("");
    if let Ok(line) = result {
        assert(line.words()[0] == line.program@);
        assert(line.words().len() == line.args@.len() + 1);
        assert(texts(line.args@)[0] == line.args@[0]@);
        assert(texts(line.args@)[1] == line.args@[1]@);
        assert(line.words()[1] == texts(line.args@)[0]);
        assert(line.words()[2] == texts(line.args@)[1]);
    }
}

} // verus!
