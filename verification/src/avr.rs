//! Denon AVR ASCII protocol primitives.
use crate::text::{chars_of, contains, decimal2, decimal2_exec, has_char, has_char_exec, push_str, string_of, string_range};
use vstd::prelude::*;
use vstd::utf8::*;
use vstd::string::StrSliceExecFns;

verus! {

#[derive(Debug, Clone, PartialEq, Eq)]
pub struct AvrCommand(String);

/// A command is accepted exactly when it is non-empty and holds no CR or LF.
pub open spec fn has_line_break(s: Seq<char>) -> bool {
    has_char(s, '\r') || has_char(s, '\n')
}

impl AvrCommand {
    pub closed spec fn text(&self) -> Seq<char> {
        self.0@
    }

    pub fn new(command: &str) -> (r: Result<Self, AvrProtocolError>)
        ensures
            has_line_break(command@) ==> r == Err::<Self, _>(
                AvrProtocolError::InvalidCommand("command contains a line break"),
            ),
            !has_line_break(command@) && command@.len() == 0 ==> r == Err::<Self, _>(
                AvrProtocolError::InvalidCommand("command is empty"),
            ),
            r matches Ok(c) ==> c.text() == command@,
            r is Ok <==> !has_line_break(command@) && command@.len() > 0,
    {
        let chars = chars_of(command);
        if has_char_exec(&chars, '\r') || has_char_exec(&chars, '\n') {
            return Err(AvrProtocolError::InvalidCommand("command contains a line break"));
        }
        if chars.len() == 0 {
            return Err(AvrProtocolError::InvalidCommand("command is empty"));
        }
        Ok(AvrCommand(string_of(&chars)))
    }

    /// The command's UTF-8 bytes followed by CR.
    pub fn as_bytes(&self) -> (r: Vec<u8>)
        ensures
            r@ == encode_utf8(self.text()).push(13u8),
    {
        let mut bytes = self.0.as_str().as_bytes_vec();
        bytes.push(13u8);
        bytes
    }

    pub fn as_str(&self) -> (r: &str)
        ensures
            r@ == self.text(),
    {
        self.0.as_str()
    }
}

#[derive(Debug, Clone, PartialEq, Eq)]
pub enum AvrLine {
    Response(AvrResponse),
    Event(AvrEvent),
    Raw(String),
}

#[derive(Debug, Clone, PartialEq, Eq)]
pub struct AvrResponse(pub String);

#[derive(Debug, Clone, PartialEq, Eq)]
pub struct AvrEvent(pub String);

/// The `Display` text of the `Utf8Error` that `std::str::from_utf8` reports on `bytes`.
pub uninterp spec fn utf8_error_text(bytes: Seq<u8>) -> Seq<char>;

/// `std::str::from_utf8`: `Ok` exactly for valid UTF-8, holding the decoded
/// text; the error is the `Display` text of `Utf8Error`, which is named.
#[verifier::external_body]
pub(crate) fn utf8_str(bytes: &[u8]) -> (r: Result<&str, String>)
    ensures
        r is Ok <==> valid_utf8(bytes@),
        r matches Ok(s) ==> s@ == decode_utf8(bytes@),
        r matches Err(m) ==> m@ == utf8_error_text(bytes@),
{
    std::str::from_utf8(bytes).map_err(|error| error.to_string())
}

/// The text of one line without one trailing CR.
pub open spec fn strip_cr(s: Seq<char>) -> Seq<char> {
    if s.len() > 0 && s.last() == '\r' {
        s.drop_last()
    } else {
        s
    }
}

/// Classify one CR-delimited AVR line.
///
/// The wire protocol uses the same shape for responses and events. Without a
/// pending request or a model-specific event table, the safe representation is
/// a raw response/event candidate; callers can correlate it with request state.
pub fn parse_line(line: &[u8]) -> (r: Result<AvrLine, AvrProtocolError>)
    ensures
        !valid_utf8(line@) ==> r == Err::<AvrLine, _>(AvrProtocolError::InvalidUtf8),
        valid_utf8(line@) && strip_cr(decode_utf8(line@)).len() == 0 ==> r == Err::<AvrLine, _>(
            AvrProtocolError::EmptyLine,
        ),
        valid_utf8(line@) && strip_cr(decode_utf8(line@)).len() > 0 ==> (r matches Ok(
            AvrLine::Raw(t),
        ) && t@ == strip_cr(decode_utf8(line@))),
{
    let text = match utf8_str(line) {
        Ok(text) => text,
        Err(_) => return Err(AvrProtocolError::InvalidUtf8),
    };
    let chars = chars_of(text);
    let end = if chars.len() > 0 && chars[chars.len() - 1] == '\r' {
        chars.len() - 1
    } else {
        chars.len()
    };
    if end == 0 {
        return Err(AvrProtocolError::EmptyLine);
    }
    Ok(AvrLine::Raw(string_range(&chars, 0, end)))
}

proof fn lemma_encode_push_cr(s: Seq<char>)
    ensures
        encode_utf8(s.push('\r')) == encode_utf8(s).push(13u8),
    decreases s.len(),
{
    if s.len() == 0 {
        assert(s.push('\r') =~= seq!['\r']);
        assert(('\r' as u32) == 13u32);
        assert((13u32 & 0x7F) as u8 == 13u8) by (bit_vector);
        assert(encode_utf8(seq!['\r']) == encode_scalar(13u32) + encode_utf8(seq!['\r'].drop_first()));
        assert(seq!['\r'].drop_first() =~= Seq::<char>::empty());
        assert(encode_scalar(13u32) =~= seq![13u8]);
        assert(encode_utf8(s) =~= Seq::<u8>::empty());
        assert(encode_utf8(s.push('\r')) =~= encode_utf8(s).push(13u8));
    } else {
        assert(s.push('\r').drop_first() =~= s.drop_first().push('\r'));
        assert(s.push('\r')[0] == s[0]);
        lemma_encode_push_cr(s.drop_first());
        assert(encode_utf8(s.push('\r')) =~= encode_utf8(s).push(13u8));
    }
}

/// A framed command read back as a line is the command itself: the bytes that
/// `as_bytes` writes are valid UTF-8, and without their CR they decode to the
/// command's text, which is never empty.
pub proof fn lemma_framed_command_reads_back(command: AvrCommand)
    ensures
        valid_utf8(encode_utf8(command.text()).push(13u8)),
        strip_cr(decode_utf8(encode_utf8(command.text()).push(13u8))) == command.text(),
        command.text().len() > 0 ==> strip_cr(decode_utf8(encode_utf8(command.text()).push(13u8))).len() > 0,
{
    let t = command.text();
    lemma_encode_push_cr(t);
    encode_utf8_valid_utf8(t.push('\r'));
    encode_utf8_decode_utf8(t.push('\r'));
    assert(t.push('\r').drop_last() =~= t);
}

#[derive(Debug, Clone, PartialEq, Eq)]
pub struct VolumeCode(String);

/// Wire code of a volume in tenths of a dB: whole dB values use two
/// characters; half-dB values append `5`.
pub open spec fn volume_code_text(db_tenths: int) -> Seq<char> {
    let base = (80 + db_tenths_floor(db_tenths)) as nat;
    if db_tenths % 10 == 0 {
        decimal2(base)
    } else {
        decimal2(base) + seq!['5']
    }
}

/// `db_tenths.div_euclid(10)`.
pub open spec fn db_tenths_floor(db_tenths: int) -> int {
    db_tenths / 10
}

/// Whether `VolumeCode::from_db_tenths` accepts a value.
pub open spec fn volume_accepts(db_tenths: int) -> bool {
    db_tenths % 5 == 0 && 0 <= 80 + db_tenths / 10 <= 98
}

impl VolumeCode {
    pub closed spec fn text(&self) -> Seq<char> {
        self.0@
    }

    pub fn from_db_tenths(db_tenths: i16) -> (r: Result<Self, AvrProtocolError>)
        ensures
            db_tenths % 5 != 0 ==> r == Err::<Self, _>(
                AvrProtocolError::InvalidVolume("volume must use 0.5 dB steps"),
            ),
            db_tenths % 5 == 0 && !volume_accepts(db_tenths as int) ==> r == Err::<Self, _>(
                AvrProtocolError::InvalidVolume("volume is outside AVR code range"),
            ),
            volume_accepts(db_tenths as int) ==> (r matches Ok(c) && c.text() == volume_code_text(
                db_tenths as int,
            )),
    {
        if db_tenths % 5 != 0 {
            return Err(AvrProtocolError::InvalidVolume("volume must use 0.5 dB steps"));
        }
        let whole_db: i16 = if db_tenths >= 0 || db_tenths % 10 == 0 {
            db_tenths / 10
        } else {
            db_tenths / 10 - 1
        };
        assert(whole_db == db_tenths as int / 10);
        let base: i16 = 80 + whole_db;
        if !(0 <= base && base <= 98) {
            return Err(AvrProtocolError::InvalidVolume("volume is outside AVR code range"));
        }
        let mut code = decimal2_exec(base as u64);
        if db_tenths % 10 != 0 {
            code.push('5');
        }
        Ok(VolumeCode(string_of(&code)))
    }

    pub fn whole_db(code: u8) -> (r: Result<Self, AvrProtocolError>)
        ensures
            code > 98 ==> r == Err::<Self, _>(
                AvrProtocolError::InvalidVolume("AVR volume code must be 00..98"),
            ),
            code <= 98 ==> (r matches Ok(c) && c.text() == decimal2(code as nat)),
    {
        if code > 98 {
            return Err(AvrProtocolError::InvalidVolume("AVR volume code must be 00..98"));
        }
        let v = decimal2_exec(code as u64);
        Ok(VolumeCode(string_of(&v)))
    }

    pub fn code(&self) -> (r: &str)
        ensures
            r@ == self.text(),
    {
        self.0.as_str()
    }

    pub fn command(&self) -> (r: String)
        ensures
            r@ == seq!['M', 'V'] + self.text(),
    {
        let mut v: Vec<char> = Vec::new();
        v.push('M');
        v.push('V');
        push_str(&mut v, self.0.as_str());
        string_of(&v)
    }
}

#[derive(Debug, Clone, PartialEq, Eq)]
pub enum AvrProtocolError {
    InvalidCommand(&'static str),
    InvalidUtf8,
    EmptyLine,
    InvalidVolume(&'static str),
}

impl AvrProtocolError {
    /// The error's human-readable text.
    pub fn message(&self) -> (r: &str)
        ensures
            self matches AvrProtocolError::InvalidCommand(m) ==> r@ == m@,
            self matches AvrProtocolError::InvalidVolume(m) ==> r@ == m@,
            self is InvalidUtf8 ==> r@ == "AVR line is not valid UTF-8"@,
            self is EmptyLine ==> r@ == "AVR line is empty"@,
    {
        match self {
            AvrProtocolError::InvalidCommand(message) => message,
            AvrProtocolError::InvalidVolume(message) => message,
            AvrProtocolError::InvalidUtf8 => "AVR line is not valid UTF-8",
            AvrProtocolError::EmptyLine => "AVR line is empty",
        }
    }
}

} // verus!
