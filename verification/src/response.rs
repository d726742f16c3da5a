//! The terminal's answers: how one is read, and what it says.

use crate::decimal::{digits, lemma_digits_shape, parse_number, parse_unsigned, push_digits};
use crate::error::Error;
use crate::scan::{
    find_from, find_last, last_position, lemma_last_position_found, lemma_position_found, position,
};
use crate::text::{
    ascii_string, begins_with, has_prefix, lossy_text, same_text, text_of, utf8_lossy,
};
use crate::ESC;
use vstd::prelude::*;
use vstd::slice::slice_subrange;
use vstd::string::{StrSliceExecFns, StringExecFns};
use vstd::utf8::{decode_utf8, valid_utf8};

verus! {

/// The identifiers that an answer names.
#[derive(Debug, Clone, Copy, PartialEq, Eq, Structural)]
pub struct Identifiers {
    /// The image's id.
    pub image_id: Option<u32>,
    /// The image's number.
    pub image_number: Option<u32>,
    /// The placement's id.
    pub placement_id: Option<u32>,
}

/// The number that a value stands for, if it is one that a `u32` holds.
pub open spec fn read_u32(value: Seq<u8>) -> Option<u32> {
    match parse_unsigned(value, u32::MAX as nat) {
        Some(n) => Some(n as u32),
        None => None,
    }
}

/// The identifiers after one part of the control data has been read. A
/// part is a key, an equals sign and a value. The keys `i`, `I` and `p` set
/// the image id, the image number and the placement id to the number that
/// the value stands for, or to nothing where it stands for none. Any other
/// part changes nothing.
pub open spec fn read_part(ids: Identifiers, part: Seq<u8>) -> Identifiers {
    let eq = position(part, '=' as u8);
    let key = part.subrange(0, eq);
    let value = part.subrange(eq + 1, part.len() as int);
    if eq >= part.len() {
        ids
    } else if key == seq!['i' as u8] {
        Identifiers { image_id: read_u32(value), ..ids }
    } else if key == seq!['I' as u8] {
        Identifiers { image_number: read_u32(value), ..ids }
    } else if key == seq!['p' as u8] {
        Identifiers { placement_id: read_u32(value), ..ids }
    } else {
        ids
    }
}

/// The identifiers after the control data has been read: its parts, which
/// commas separate, one after the other. Of two parts with the same key the
/// later one decides.
pub open spec fn read_parts(ids: Identifiers, control: Seq<u8>) -> Identifiers
    decreases control.len(),
{
    let comma = position(control, ',' as u8);
    let next = read_part(ids, control.subrange(0, comma));
    if comma < 0 || comma >= control.len() {
        next
    } else {
        read_parts(next, control.subrange(comma + 1, control.len() as int))
    }
}

/// Reads one part of the control data.
fn apply_part(ids: Identifiers, part: &[u8]) -> (next: Identifiers)
    ensures
        next == read_part(ids, part@),
{
    let eq = find_from(part, 0, '=' as u8);
    assert(part@.subrange(0, part@.len() as int) =~= part@);
    if eq >= part.len() {
        return ids;
    }
    if eq != 1 {
        assert(part@.subrange(0, eq as int).len() != 1);
        return ids;
    }
    let key: u8 = part[0];
    let value = slice_subrange(part, eq + 1, part.len());
    assert(part@.subrange(0, 1) =~= seq![key]);
    if key == 'i' as u8 {
        Identifiers { image_id: to_u32(parse_number(value, 0xffff_ffff)), ..ids }
    } else if key == 'I' as u8 {
        Identifiers { image_number: to_u32(parse_number(value, 0xffff_ffff)), ..ids }
    } else if key == 'p' as u8 {
        Identifiers { placement_id: to_u32(parse_number(value, 0xffff_ffff)), ..ids }
    } else {
        assert(seq![key] != seq!['i' as u8]) by {
            assert(seq![key][0] == key);
        }
        assert(seq![key] != seq!['I' as u8]) by {
            assert(seq![key][0] == key);
        }
        assert(seq![key] != seq!['p' as u8]) by {
            assert(seq![key][0] == key);
        }
        ids
    }
}

/// A number that is known to fit, as a `u32`.
fn to_u32(n: Option<u64>) -> (r: Option<u32>)
    requires
        n matches Some(v) ==> v <= u32::MAX,
    ensures
        match n {
            Some(v) => r == Some(v as u32),
            None => r is None,
        },
{
    match n {
        Some(v) => Some(v as u32),
        None => None,
    }
}

/// Reads the control data of an answer.
pub fn read_control(control: &[u8]) -> (ids: Identifiers)
    ensures
        ids == read_parts(
            Identifiers { image_id: None, image_number: None, placement_id: None },
            control@,
        ),
{
    let mut ids = Identifiers { image_id: None, image_number: None, placement_id: None };
    let ghost start_ids = ids;
    let mut start: usize = 0;
    let len = control.len();
    assert(control@.subrange(0, len as int) =~= control@);
    loop
        invariant
            start <= len == control@.len(),
            read_parts(start_ids, control@) == read_parts(
                ids,
                control@.subrange(start as int, len as int),
            ),
        ensures
            ids == read_parts(start_ids, control@),
        decreases len - start,
    {
        let ghost rest = control@.subrange(start as int, len as int);
        let end = find_from(control, start, ',' as u8);
        let part = slice_subrange(control, start, end);
        assert(part@ =~= rest.subrange(0, end - start));
        ids = apply_part(ids, part);
        if end >= len {
            break ;
        }
        assert(control@.subrange(end + 1, len as int) =~= rest.subrange(
            end - start + 1,
            rest.len() as int,
        ));
        start = end + 1;
    }
    ids
}

/// A message that begins with `code`, told in words: `meaning` and what
/// follows the code.
pub open spec fn explained(message: Seq<char>, code: Seq<char>, meaning: Seq<char>) -> Seq<char> {
    meaning + message.subrange(code.len() as int, message.len() as int)
}

/// The error that a message reports: none for `OK`; for a message that
/// begins with a known code, the code's meaning and the rest of the message;
/// for any other message, the message itself.
pub open spec fn error_text(message: Seq<char>) -> Option<Seq<char>> {
    if message == "OK"@ {
        None
    } else if begins_with(message, "ENOENT:"@) {
        Some(explained(message, "ENOENT:"@, "Not found: "@))
    } else if begins_with(message, "EINVAL:"@) {
        Some(explained(message, "EINVAL:"@, "Invalid argument: "@))
    } else if begins_with(message, "EIO:"@) {
        Some(explained(message, "EIO:"@, "IO error: "@))
    } else if begins_with(message, "ETOODEEP:"@) {
        Some(explained(message, "ETOODEEP:"@, "Chain too deep: "@))
    } else if begins_with(message, "ECYCLE:"@) {
        Some(explained(message, "ECYCLE:"@, "Cycle detected: "@))
    } else if begins_with(message, "ENOPARENT:"@) {
        Some(explained(message, "ENOPARENT:"@, "Parent not found: "@))
    } else {
        Some(message)
    }
}

/// Tells a message that begins with `code` in words.
fn explain(message: &str, code: &str, meaning: &str) -> (s: String)
    requires
        begins_with(message@, code@),
    ensures
        s@ == explained(message@, code@, meaning@),
{
    let rest = message.substring_char(code.unicode_len(), message.unicode_len());
    let mut s = String::from_str(meaning);
    s.append(rest);
    s
}

/// The error that a message reports.
pub fn read_message(message: &str) -> (error: Option<String>)
    ensures
        match error_text(message@) {
            Some(text) => error matches Some(e) && e@ == text,
            None => error is None,
        },
{
    if same_text(message, "OK") {
        None
    } else if has_prefix(message, "ENOENT:") {
        Some(explain(message, "ENOENT:", "Not found: "))
    } else if has_prefix(message, "EINVAL:") {
        Some(explain(message, "EINVAL:", "Invalid argument: "))
    } else if has_prefix(message, "EIO:") {
        Some(explain(message, "EIO:", "IO error: "))
    } else if has_prefix(message, "ETOODEEP:") {
        Some(explain(message, "ETOODEEP:", "Chain too deep: "))
    } else if has_prefix(message, "ECYCLE:") {
        Some(explain(message, "ECYCLE:", "Cycle detected: "))
    } else if has_prefix(message, "ENOPARENT:") {
        Some(explain(message, "ENOPARENT:", "Parent not found: "))
    } else {
        Some(message.to_owned())
    }
}

/// Whether `data` is long enough for a frame and begins as one.
pub open spec fn has_magic(data: Seq<u8>) -> bool {
    data.len() >= 6 && data[0] == ESC && data[1] == '_' as u8 && data[2] == 'G' as u8
}

/// The control data of an answer: what stands between the three opening
/// bytes and the first semicolon.
pub open spec fn control_of(data: Seq<u8>) -> Seq<u8> {
    data.subrange(3, position(data, ';' as u8))
}

/// The message of an answer: what stands between the first semicolon and
/// the last escape character.
pub open spec fn message_of(data: Seq<u8>) -> Seq<u8> {
    data.subrange(position(data, ';' as u8) + 1, last_position(data, ESC))
}

/// What the bytes of an answer are found to be.
pub enum Shape {
    /// No frame: too short, not begun as a frame, without a semicolon, or
    /// without an escape character after the semicolon.
    Unframed,
    /// A frame whose control data or whose message is not UTF-8.
    NotText,
    /// A frame of text.
    Framed,
}

/// What `data` is found to be. The control data is looked at before the
/// end of the frame is, and the message last.
pub open spec fn shape(data: Seq<u8>) -> Shape {
    if !has_magic(data) || position(data, ';' as u8) >= data.len() {
        Shape::Unframed
    } else if !valid_utf8(control_of(data)) {
        Shape::NotText
    } else if last_position(data, ESC) <= position(data, ';' as u8) {
        Shape::Unframed
    } else if !valid_utf8(message_of(data)) {
        Shape::NotText
    } else {
        Shape::Framed
    }
}

/// An answer of the terminal.
#[derive(Debug, Clone, PartialEq, Eq)]
pub struct Response {
    /// The image's id, where the answer names one.
    pub image_id: Option<u32>,
    /// The image's number, where the answer names one.
    pub image_number: Option<u32>,
    /// The placement's id, where the answer names one.
    pub placement_id: Option<u32>,
    /// Whether the terminal did what it was asked to do.
    pub success: bool,
    /// What went wrong, where something did.
    pub error: Option<String>,
}

impl Response {
    /// The identifiers that the answer names.
    pub open spec fn identifiers(self) -> Identifiers {
        Identifiers {
            image_id: self.image_id,
            image_number: self.image_number,
            placement_id: self.placement_id,
        }
    }

    /// Whether this is the answer that the frame `data` holds.
    pub open spec fn is_answer_of(self, data: Seq<u8>) -> bool {
        &&& self.identifiers() == read_parts(
            Identifiers { image_id: None, image_number: None, placement_id: None },
            control_of(data),
        )
        &&& match error_text(decode_utf8(message_of(data))) {
            Some(text) => !self.success && (self.error matches Some(e) && e@ == text),
            None => self.success && self.error is None,
        }
    }

    /// Reads an answer of the terminal. Bytes that are no frame are
    /// rejected and shown in the error; so is a frame that is not text.
    pub fn parse(data: &[u8]) -> (r: Result<Response, Error>)
        ensures
            match shape(data@) {
                Shape::Unframed => r matches Err(Error::InvalidResponse(shown)) && shown@
                    == utf8_lossy(data@),
                Shape::NotText => r matches Err(Error::Utf8Error(_)),
                Shape::Framed => r matches Ok(response) && response.is_answer_of(data@),
            },
    {
        if data.len() < 6 {
            return Err(Error::InvalidResponse(lossy_text(data)));
        }
        if data[0] != ESC || data[1] != '_' as u8 || data[2] != 'G' as u8 {
            return Err(Error::InvalidResponse(lossy_text(data)));
        }
        let semicolon = find_from(data, 0, ';' as u8);
        assert(data@.subrange(0, data@.len() as int) =~= data@);
        if semicolon >= data.len() {
            return Err(Error::InvalidResponse(lossy_text(data)));
        }
        let control = slice_subrange(data, 3, semicolon);
        match core::str::from_utf8(control) {
            Ok(_) => {},
            Err(e) => {
                return Err(Error::Utf8Error(e));
            },
        }
        let end = match find_last(data, ESC) {
            Some(end) => end,
            None => {
                return Err(Error::InvalidResponse(lossy_text(data)));
            },
        };
        if end <= semicolon {
            return Err(Error::InvalidResponse(lossy_text(data)));
        }
        let message = match core::str::from_utf8(slice_subrange(data, semicolon + 1, end)) {
            Ok(message) => message,
            Err(e) => {
                return Err(Error::Utf8Error(e));
            },
        };
        let ids = read_control(control);
        let error = read_message(message);
        Ok(
            Response {
                image_id: ids.image_id,
                image_number: ids.image_number,
                placement_id: ids.placement_id,
                success: error.is_none(),
                error,
            },
        )
    }

    /// Whether the terminal did what it was asked to do.
    pub fn is_ok(&self) -> (r: bool)
        ensures
            r == self.success,
    {
        self.success
    }

    /// Whether the terminal reported an error.
    pub fn is_error(&self) -> (r: bool)
        ensures
            r == !self.success,
    {
        !self.success
    }

    /// What went wrong, where something did.
    pub fn error_message(&self) -> (r: Option<&str>)
        ensures
            match self.error {
                Some(e) => r matches Some(m) && m@ == e@,
                None => r is None,
            },
    {
        match &self.error {
            Some(e) => Some(e.as_str()),
            None => None,
        }
    }
}

/// The digits of `n` as text.
fn number_text(n: u32) -> (s: String)
    ensures
        s@ == text_of(digits(n as nat)),
{
    let mut bytes: Vec<u8> = Vec::new();
    push_digits(&mut bytes, n as u64);
    proof {
        lemma_digits_shape(n as nat);
        assert(bytes@ =~= digits(n as nat));
    }
    match ascii_string(bytes) {
        Ok(s) => s,
        Err(_) => String::new(),
    }
}

impl Response {
    /// How the answer is shown. A success is `OK`, followed in parentheses
    /// by the image id where there is one and, after it, by the placement
    /// id where there is one. A failure is `ERROR: ` and what went wrong.
    pub open spec fn shown(self) -> Seq<char> {
        if self.success {
            "OK"@ + (match self.image_id {
                Some(id) => " (image_id="@ + text_of(digits(id as nat)) + (match self.placement_id {
                    Some(pid) => ", placement_id="@ + text_of(digits(pid as nat)),
                    None => Seq::<char>::empty(),
                }) + ")"@,
                None => Seq::<char>::empty(),
            })
        } else {
            match self.error {
                Some(e) => "ERROR: "@ + e@,
                None => Seq::<char>::empty(),
            }
        }
    }

    /// The answer as it is shown.
    pub fn to_string(&self) -> (s: String)
        ensures
            s@ == self.shown(),
    {
        if self.success {
            let mut s = String::from_str("OK");
            if let Some(id) = self.image_id {
                s.append(" (image_id=");
                s.append(number_text(id).as_str());
                if let Some(pid) = self.placement_id {
                    s.append(", placement_id=");
                    s.append(number_text(pid).as_str());
                }
                s.append(")");
                assert(s@ =~= self.shown());
            } else {
                assert(s@ =~= self.shown());
            }
            s
        } else {
            match &self.error {
                Some(e) => {
                    let mut s = String::from_str("ERROR: ");
                    s.append(e.as_str());
                    s
                },
                None => String::new(),
            }
        }
    }
}

/// The kinds of error that the terminal reports.
#[derive(Debug, Clone, Copy, PartialEq, Eq, Hash, Structural)]
pub enum ErrorCode {
    /// Something was not found (`ENOENT`).
    NotFound,
    /// An argument was not valid (`EINVAL`).
    InvalidArgument,
    /// Reading or writing failed (`EIO`).
    IoError,
    /// A chain of parents is too deep (`ETOODEEP`).
    TooDeep,
    /// A chain of parents runs in a circle (`ECYCLE`).
    Cycle,
    /// A parent was not found (`ENOPARENT`).
    NoParent,
    /// Any other error.
    Unknown,
}

impl ErrorCode {
    /// The kind of error that a message reports: that of the first code,
    /// in the order of the kinds, that the message begins with.
    pub open spec fn of_message(msg: Seq<char>) -> ErrorCode {
        if begins_with(msg, "ENOENT"@) {
            ErrorCode::NotFound
        } else if begins_with(msg, "EINVAL"@) {
            ErrorCode::InvalidArgument
        } else if begins_with(msg, "EIO"@) {
            ErrorCode::IoError
        } else if begins_with(msg, "ETOODEEP"@) {
            ErrorCode::TooDeep
        } else if begins_with(msg, "ECYCLE"@) {
            ErrorCode::Cycle
        } else if begins_with(msg, "ENOPARENT"@) {
            ErrorCode::NoParent
        } else {
            ErrorCode::Unknown
        }
    }

    /// The kind of error that a message reports.
    pub fn from_message(msg: &str) -> (code: ErrorCode)
        ensures
            code == ErrorCode::of_message(msg@),
    {
        if has_prefix(msg, "ENOENT") {
            ErrorCode::NotFound
        } else if has_prefix(msg, "EINVAL") {
            ErrorCode::InvalidArgument
        } else if has_prefix(msg, "EIO") {
            ErrorCode::IoError
        } else if has_prefix(msg, "ETOODEEP") {
            ErrorCode::TooDeep
        } else if has_prefix(msg, "ECYCLE") {
            ErrorCode::Cycle
        } else if has_prefix(msg, "ENOPARENT") {
            ErrorCode::NoParent
        } else {
            ErrorCode::Unknown
        }
    }
}

/// Bytes that are too short for a frame, that do not begin as one, that
/// hold no semicolon or that hold no escape character after the first
/// semicolon are never read as an answer. The first three are found to be
/// no frame, whatever else they hold; so is the last, unless the control
/// data is not text, which is found first.
pub proof fn lemma_rejected(data: Seq<u8>)
    requires
        !has_magic(data) || !data.contains(';' as u8) || forall|j: int|
            position(data, ';' as u8) < j < data.len() ==> data[j] != ESC,
    ensures
        !(shape(data) is Framed),
        !has_magic(data) || !data.contains(';' as u8) ==> shape(data) is Unframed,
        valid_utf8(control_of(data)) ==> shape(data) is Unframed,
{
    lemma_position_found(data, ';' as u8);
    lemma_last_position_found(data, ESC);
}

} // verus!
