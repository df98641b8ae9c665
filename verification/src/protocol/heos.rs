//! HEOS CLI framing primitives.
use crate::avr::{has_line_break, utf8_str};
use crate::text::{chars_of, has_char_exec, has_prefix, starts_with, string_of, string_range};
use vstd::prelude::*;
use vstd::utf8::*;
use vstd::string::StrSliceExecFns;

verus! {

#[derive(Debug, Clone, PartialEq, Eq)]
pub struct HeosCommand(String);

/// A HEOS command is a non-empty `heos://` URL on one line.
pub open spec fn heos_command_ok(s: Seq<char>) -> bool {
    s.len() > 0 && !has_line_break(s) && has_prefix(s, "heos://"@)
}

impl HeosCommand {
    pub closed spec fn text(&self) -> Seq<char> {
        self.0@
    }

    pub fn new(command: &str) -> (r: Result<Self, HeosProtocolError>)
        ensures
            r is Ok <==> heos_command_ok(command@),
            r matches Ok(c) ==> c.text() == command@,
            r matches Err(e) ==> e == HeosProtocolError::InvalidCommand,
    {
        let chars = chars_of(command);
        if chars.len() == 0 || has_char_exec(&chars, '\r') || has_char_exec(&chars, '\n') {
            return Err(HeosProtocolError::InvalidCommand);
        }
        let scheme = chars_of("heos://");
        if !starts_with(&chars, &scheme) {
            return Err(HeosProtocolError::InvalidCommand);
        }
        Ok(HeosCommand(string_of(&chars)))
    }

    /// The command's UTF-8 bytes followed by CR LF.
    pub fn as_bytes(&self) -> (r: Vec<u8>)
        ensures
            r@ == encode_utf8(self.text()).push(13u8).push(10u8),
    {
        let mut bytes = self.0.as_str().as_bytes_vec();
        bytes.push(13u8);
        bytes.push(10u8);
        bytes
    }
}

#[derive(Debug, Clone, PartialEq, Eq)]
pub enum HeosLine {
    Json(String),
    Raw(String),
}

/// The line without one trailing CR LF.
pub open spec fn strip_crlf(s: Seq<char>) -> Seq<char> {
    if s.len() >= 2 && s[s.len() - 2] == '\r' && s.last() == '\n' {
        s.take(s.len() - 2)
    } else {
        s
    }
}

pub fn parse_heos_line(line: &[u8]) -> (r: Result<HeosLine, HeosProtocolError>)
    ensures
        !valid_utf8(line@) ==> r == Err::<HeosLine, _>(HeosProtocolError::InvalidUtf8),
        valid_utf8(line@) && strip_crlf(decode_utf8(line@)).len() == 0 ==> r == Err::<HeosLine, _>(HeosProtocolError::EmptyLine),
        valid_utf8(line@) && strip_crlf(decode_utf8(line@)).len() > 0 ==> match r {
            Ok(HeosLine::Json(t)) => t@ == strip_crlf(decode_utf8(line@)) && t@[0] == '{',
            Ok(HeosLine::Raw(t)) => t@ == strip_crlf(decode_utf8(line@)) && t@[0] != '{',
            Err(_) => false,
        },
{
    let text = match utf8_str(line) {
        Ok(text) => text,
        Err(_) => return Err(HeosProtocolError::InvalidUtf8),
    };
    let chars = chars_of(text);
    let n = chars.len();
    let end = if n >= 2 && chars[n - 2] == '\r' && chars[n - 1] == '\n' { n - 2 } else { n };
    if end == 0 {
        return Err(HeosProtocolError::EmptyLine);
    }
    let body = string_range(&chars, 0, end);
    assert(chars@.subrange(0, end as int) =~= strip_crlf(text@));
    if chars[0] == '{' {
        Ok(HeosLine::Json(body))
    } else {
        Ok(HeosLine::Raw(body))
    }
}

#[derive(Debug, Clone, PartialEq, Eq, Structural)]
pub enum HeosProtocolError {
    InvalidCommand,
    InvalidUtf8,
    EmptyLine,
}

impl HeosProtocolError {
    pub fn message(&self) -> (r: &'static str)
        ensures
            *self == HeosProtocolError::InvalidCommand ==> r@ == "invalid HEOS command"@,
            *self == HeosProtocolError::InvalidUtf8 ==> r@ == "HEOS line is not valid UTF-8"@,
            *self == HeosProtocolError::EmptyLine ==> r@ == "HEOS line is empty"@,
    {
        match self {
            HeosProtocolError::InvalidCommand => "invalid HEOS command",
            HeosProtocolError::InvalidUtf8 => "HEOS line is not valid UTF-8",
            HeosProtocolError::EmptyLine => "HEOS line is empty",
        }
    }
}

} // verus!
