//! What is said to the status bus, and what is made of its answers.

use crate::decimal::{decimal, push_decimal};
use crate::text::{copy_text, glue, glue_from, lines, lines_of, same_text, string_of, texts};
use vstd::prelude::*;
use vstd::string::StringExecFns;
use vstd::utf8::encode_utf8;

verus! {

/// The request that deletes a group.
pub fn hermes_del_group(name: &str) -> (msg: String)
    ensures
        msg@ == "DELETE /group?name="@ + name@
            + " HTTP/1.1\r\nAccept: */*\r\nContent-Length: 0\r\n"@,
{
    let mut msg = copy_text("DELETE /group?name=");
    msg.append(name);
    msg.append(" HTTP/1.1\r\nAccept: */*\r\nContent-Length: 0\r\n");
    msg
}

/// The request that adds a group.
pub fn hermes_add_group(name: &str) -> (msg: String)
    ensures
        msg@ == "POST /group?name="@ + name@
            + " HTTP/1.1\r\nAccept: */*\r\nContent-Length: 0\r\n"@,
{
    let mut msg = copy_text("POST /group?name=");
    msg.append(name);
    msg.append(" HTTP/1.1\r\nAccept: */*\r\nContent-Length: 0\r\n");
    msg
}

/// The request that adds a timer to the group of timers, with the given
/// content, whose length in bytes it states.
pub fn hermes_add_timer(name: &str, content: &str) -> (msg: String)
    ensures
        msg@ == "POST /item?name="@ + name@
            + "&group=timer HTTP/1.1\r\nAccept: */*\r\nContent-Length: "@ + decimal(
            encode_utf8(content@).len(),
        ) + "\r\n\r\n"@ + content@ + "\r\n"@,
{
    let mut msg = copy_text("POST /item?name=");
    msg.append(name);
    msg.append("&group=timer HTTP/1.1\r\nAccept: */*\r\nContent-Length: ");
    let mut digits: Vec<char> = Vec::new();
    push_decimal(&mut digits, content.as_bytes().len() as u64, 0);
    assert(digits@ =~= decimal(encode_utf8(content@).len()));
    msg.append(string_of(&digits).as_str());
    msg.append("\r\n\r\n");
    msg.append(content);
    msg.append("\r\n");
    msg
}

/// The request that deletes a timer from the group of timers.
pub fn hermes_del_timer(name: &str) -> (msg: String)
    ensures
        msg@ == "DELETE /item?name="@ + name@
            + "&group=timer HTTP/1.1\r\nAccept: */*\r\nContent-Length: 0\r\n\r\n"@,
{
    let mut msg = copy_text("DELETE /item?name=");
    msg.append(name);
    msg.append("&group=timer HTTP/1.1\r\nAccept: */*\r\nContent-Length: 0\r\n\r\n");
    msg
}

/// The command that sets, in a table of the status bus, the key of a timer
/// to the word that says how its command ended.
pub fn status_command(table: &str, id: &str, outcome: &str) -> (cmd: String)
    ensures
        cmd@ == "set data('timer_"@ + id@ + "', '"@ + outcome@ + "') in "@ + table@ + ";"@,
{
    let mut cmd = copy_text("set data('timer_");
    cmd.append(id);
    cmd.append("', '");
    cmd.append(outcome);
    cmd.append("') in ");
    cmd.append(table);
    cmd.append(";");
    cmd
}

/// A command as it is sent: its length in bytes, a space, and the command.
pub fn hermes_cmd(cmd: &str) -> (frame: String)
    ensures
        frame@ == decimal(encode_utf8(cmd@).len()) + seq![' '] + cmd@,
{
    let mut digits: Vec<char> = Vec::new();
    push_decimal(&mut digits, cmd.as_bytes().len() as u64, 0);
    assert(digits@ =~= decimal(encode_utf8(cmd@).len()));
    let mut frame = string_of(&digits);
    frame.push(' ');
    frame.append(cmd);
    frame
}

/// What an answer of the status bus says: after a first line `>Done`, the
/// other lines are what was done; after any other first line they are what
/// went wrong. An answer without a line says that something went wrong,
/// and not what.
pub open spec fn reply_of(response: Seq<char>) -> Result<Seq<char>, Seq<char>> {
    let all = lines(response);
    if all.len() == 0 {
        Err(Seq::empty())
    } else if all[0] == ">Done"@ {
        Ok(glue(all.skip(1), '\n'))
    } else {
        Err(glue(all.skip(1), '\n'))
    }
}

/// Reads an answer of the status bus.
pub fn hermes_reply(response: &str) -> (r: Result<String, String>)
    ensures
        match r {
            Ok(done) => reply_of(response@) == Ok::<Seq<char>, Seq<char>>(done@),
            Err(fault) => reply_of(response@) == Err::<Seq<char>, Seq<char>>(fault@),
        },
{
    let all = lines_of(response);
    if all.len() == 0 {
        return Err(String::new());
    }
    assert(texts(all@)[0] == all@[0]@);
    let rest = glue_from(&all, 1, '\n');
    if same_text(all[0].as_str(), ">Done") {
        Ok(rest)
    } else {
        Err(rest)
    }
}

} // verus!
