//! The file in which a running bridge leaves its port for others to find.
use vstd::prelude::*;
use vstd::utf8::encode_utf8;
use crate::paths::{file_name, final_component, join, joined, lemma_joined_injective};
use crate::text::numerals::{
    decimal,
    decimal_bytes,
    decimal_string,
    lemma_decimal_is_read_back,
    lemma_decimal_utf8,
    unsigned_value,
};

verus! {

/// The directory of the port files, under the home directory or else under `/tmp`.
pub open spec fn port_directory(home: Option<Seq<char>>) -> Seq<u8> {
    let root = match home {
        Some(h) => encode_utf8(h),
        None => encode_utf8("/tmp"@),
    };
    joined(joined(root, encode_utf8(".axs"@)), encode_utf8("lsp_ports"@))
}

/// How a program is called in a file name: by its last path component, where it has one.
pub open spec fn server_name(program: Seq<char>) -> Seq<u8> {
    match final_component(encode_utf8(program)) {
        Some(name) => name,
        None => encode_utf8(program),
    }
}

/// The name of the port file: the program, and the session or else the process.
pub open spec fn port_file_name(
    program: Seq<char>,
    session: Option<Seq<char>>,
    process: nat,
) -> Seq<u8> {
    server_name(program).push(95) + (match session {
        Some(s) => encode_utf8(s),
        None => decimal_bytes(process),
    })
}

/// The path of the port file of a program and session. `home` is the home directory where one is
/// set, `process` the number of this process.
pub fn get_port_file_path(
    home: Option<&str>,
    program: &str,
    session: Option<&str>,
    process: u32,
) -> (path: Vec<u8>)
    ensures
        path@ == joined(
            port_directory(
                match home {
                    Some(h) => Some(h@),
                    None => None,
                },
            ),
            port_file_name(
                program@,
                match session {
                    Some(s) => Some(s@),
                    None => None,
                },
                process as nat,
            ),
        ),
{
    let root = match home {
        Some(h) => h.as_bytes(),
        None => "/tmp".as_bytes(),
    };
    let hidden = join(root, ".axs".as_bytes());
    let dir = join(hidden.as_slice(), "lsp_ports".as_bytes());
    let mut name: Vec<u8> = Vec::new();
    match file_name(program.as_bytes()) {
        Some(n) => name.extend_from_slice(n),
        None => name.extend_from_slice(program.as_bytes()),
    }
    assert(name@ =~= server_name(program@));
    name.push(95);
    match session {
        Some(s) => {
            name.extend_from_slice(s.as_bytes());
        },
        None => {
            let number = decimal_string(process as u64);
            proof {
                lemma_decimal_utf8(process as nat);
            }
            name.extend_from_slice(number.as_str().as_bytes());
        },
    }
    join(dir.as_slice(), name.as_slice())
}

/// What is written into the port file.
pub fn port_file_contents(port: u16) -> (contents: String)
    ensures
        contents@ == decimal(port as nat),
{
    decimal_string(port as u64)
}

/// The port is found again in what was written.
pub proof fn law_port_is_read_back(port: u16)
    ensures
        unsigned_value(encode_utf8(decimal(port as nat))) == Some(port as nat),
{
    lemma_decimal_is_read_back(port as nat);
}

/// Several instances of one server do not share a port file: two sessions have two paths.
pub proof fn law_sessions_have_their_own_files(
    home: Option<Seq<char>>,
    program: Seq<char>,
    first: Seq<char>,
    second: Seq<char>,
    process: nat,
)
    requires
        first != second,
    ensures
        joined(port_directory(home), port_file_name(program, Some(first), process)) != joined(
            port_directory(home),
            port_file_name(program, Some(second), process),
        ),
{
    let a = port_file_name(program, Some(first), process);
    let b = port_file_name(program, Some(second), process);
    let front = server_name(program).push(95);
    assert(a[0] == front[0] && b[0] == front[0]);
    if joined(port_directory(home), a) == joined(port_directory(home), b) {
        lemma_joined_injective(port_directory(home), a, b);
        assert(a.skip(front.len() as int) =~= encode_utf8(first));
        assert(b.skip(front.len() as int) =~= encode_utf8(second));
        vstd::utf8::encode_utf8_decode_utf8(first);
        vstd::utf8::encode_utf8_decode_utf8(second);
    }
}

} // verus!
