//! The messages of the plugin socket: the calls the host sends and the
//! returns the server answers with, in protocol-buffer form.
//!
//! A call holds a sequence number (field 1) and at most one command, in
//! fields 31 to 36; a return holds the same sequence number and one result,
//! in fields 31 to 33. Where a field comes more than once the last one counts;
//! a field of a known number must have the wire type of its declaration.

use vstd::prelude::*;
use vstd::string::StringSliceAdditionalSpecFns;
use vstd::utf8::{decode_utf8, encode_utf8, valid_utf8};
use crate::wire::{
    fields_view, key_bytes, len_field_bytes, push_len_field, push_varint_field, spec_fields,
    split_fields, varint_field_bytes, Field, FieldValue, FieldView, WireError,
};

verus! {

pub const CMD_GET_PLUGIN_NAMES: u64 = 31;
pub const CMD_GET_PLUGIN_INFO: u64 = 32;
pub const CMD_START_INSTANCE: u64 = 33;
pub const CMD_GET_INSTANCE_STATUS: u64 = 34;
pub const CMD_CLOSE_INSTANCE: u64 = 35;
pub const CMD_HANDLE_EVENT: u64 = 36;

pub const RET_PLUGIN_NAMES: u64 = 31;
pub const RET_PLUGIN_INFO: u64 = 32;
pub const RET_INSTANCE_STATUS: u64 = 33;

/// A command the host sends to the server.
#[derive(Debug, Clone)]
pub enum Command {
    GetPluginNames,
    GetPluginInfo { name: String },
    StartInstance { name: String, config: Vec<u8> },
    GetInstanceStatus { instance_id: i32 },
    CloseInstance { instance_id: i32 },
    HandleEvent { instance_id: i32, event_name: String },
}

pub ghost enum CommandView {
    GetPluginNames,
    GetPluginInfo { name: Seq<char> },
    StartInstance { name: Seq<char>, config: Seq<u8> },
    GetInstanceStatus { instance_id: i32 },
    CloseInstance { instance_id: i32 },
    HandleEvent { instance_id: i32, event_name: Seq<char> },
}

impl View for Command {
    type V = CommandView;

    open spec fn view(&self) -> CommandView {
        match self {
            Command::GetPluginNames => CommandView::GetPluginNames,
            Command::GetPluginInfo { name } => CommandView::GetPluginInfo { name: name@ },
            Command::StartInstance { name, config } => CommandView::StartInstance {
                name: name@,
                config: config@,
            },
            Command::GetInstanceStatus { instance_id } => CommandView::GetInstanceStatus {
                instance_id: *instance_id,
            },
            Command::CloseInstance { instance_id } => CommandView::CloseInstance {
                instance_id: *instance_id,
            },
            Command::HandleEvent { instance_id, event_name } => CommandView::HandleEvent {
                instance_id: *instance_id,
                event_name: event_name@,
            },
        }
    }
}

/// A call from the host: its sequence number and its command, if any.
#[derive(Debug, Clone)]
pub struct RpcCall {
    pub sequence: i64,
    pub command: Option<Command>,
}

pub ghost struct RpcCallView {
    pub sequence: i64,
    pub command: Option<CommandView>,
}

impl View for RpcCall {
    type V = RpcCallView;

    open spec fn view(&self) -> RpcCallView {
        RpcCallView {
            sequence: self.sequence,
            command: match self.command {
                Some(c) => Some(c@),
                None => None,
            },
        }
    }
}

/// The last field numbered `num`.
pub open spec fn last_of(fs: Seq<(nat, FieldView)>, num: nat) -> Option<FieldView>
    decreases fs.len(),
{
    if fs.len() == 0 {
        None
    } else if fs.last().0 == num {
        Some(fs.last().1)
    } else {
        last_of(fs.drop_last(), num)
    }
}

/// The last field whose number lies in `lo..=hi`.
pub open spec fn last_within(fs: Seq<(nat, FieldView)>, lo: nat, hi: nat) -> Option<(nat, FieldView)>
    decreases fs.len(),
{
    if fs.len() == 0 {
        None
    } else if lo <= fs.last().0 <= hi {
        Some(fs.last())
    } else {
        last_within(fs.drop_last(), lo, hi)
    }
}

/// Every field numbered `num` holds a varint.
pub open spec fn all_varint(fs: Seq<(nat, FieldView)>, num: nat) -> bool {
    forall|i: int| 0 <= i < fs.len() && #[trigger] fs[i].0 == num ==> fs[i].1 is Varint
}

/// Every field numbered within `lo..=hi` is length-delimited.
pub open spec fn all_bytes(fs: Seq<(nat, FieldView)>, lo: nat, hi: nat) -> bool {
    forall|i: int| 0 <= i < fs.len() && lo <= #[trigger] fs[i].0 <= hi ==> fs[i].1 is Bytes
}

/// The integer in field `num`: 0 when the field is absent.
pub open spec fn varint_or_zero(fs: Seq<(nat, FieldView)>, num: nat) -> nat {
    match last_of(fs, num) {
        Some(FieldView::Varint(v)) => v,
        _ => 0,
    }
}

/// The bytes in field `num`: empty when the field is absent.
pub open spec fn bytes_or_empty(fs: Seq<(nat, FieldView)>, num: nat) -> Seq<u8> {
    match last_of(fs, num) {
        Some(FieldView::Bytes(b)) => b,
        _ => Seq::empty(),
    }
}

/// An `int32` field: the low 32 bits of its varint.
pub open spec fn spec_int32(fs: Seq<(nat, FieldView)>, num: nat) -> Option<i32> {
    if all_varint(fs, num) {
        Some(varint_or_zero(fs, num) as i32)
    } else {
        None
    }
}

/// An `int64` field: the low 64 bits of its varint.
pub open spec fn spec_int64(fs: Seq<(nat, FieldView)>, num: nat) -> Option<i64> {
    if all_varint(fs, num) {
        Some(varint_or_zero(fs, num) as i64)
    } else {
        None
    }
}

/// A `bytes` field.
pub open spec fn spec_bytes(fs: Seq<(nat, FieldView)>, num: nat) -> Option<Seq<u8>> {
    if all_bytes(fs, num, num) {
        Some(bytes_or_empty(fs, num))
    } else {
        None
    }
}

/// A `string` field: its bytes must be UTF-8.
pub open spec fn spec_string(fs: Seq<(nat, FieldView)>, num: nat) -> Option<Seq<char>> {
    match spec_bytes(fs, num) {
        Some(b) => if valid_utf8(b) {
            Some(decode_utf8(b))
        } else {
            None
        },
        None => None,
    }
}

/// The command in the body of field `num` of a call.
pub open spec fn spec_command(num: nat, body: Seq<u8>) -> Option<CommandView> {
    match spec_fields(body) {
        None => None,
        Some(fs) => if num == 31 {
            Some(CommandView::GetPluginNames)
        } else if num == 32 {
            match spec_string(fs, 1) {
                Some(name) => Some(CommandView::GetPluginInfo { name }),
                None => None,
            }
        } else if num == 33 {
            match (spec_string(fs, 1), spec_bytes(fs, 2)) {
                (Some(name), Some(config)) => Some(CommandView::StartInstance { name, config }),
                _ => None,
            }
        } else if num == 34 {
            match spec_int32(fs, 1) {
                Some(instance_id) => Some(CommandView::GetInstanceStatus { instance_id }),
                None => None,
            }
        } else if num == 35 {
            match spec_int32(fs, 1) {
                Some(instance_id) => Some(CommandView::CloseInstance { instance_id }),
                None => None,
            }
        } else if num == 36 {
            match (spec_int32(fs, 1), spec_string(fs, 2)) {
                (Some(instance_id), Some(event_name)) => Some(
                    CommandView::HandleEvent { instance_id, event_name },
                ),
                _ => None,
            }
        } else {
            None
        },
    }
}

/// The call that the bytes `s` hold, or `None` when they hold none.
pub open spec fn spec_call(s: Seq<u8>) -> Option<RpcCallView> {
    match spec_fields(s) {
        None => None,
        Some(fs) => if !all_bytes(fs, 31, 36) {
            None
        } else {
            match spec_int64(fs, 1) {
                None => None,
                Some(sequence) => match last_within(fs, 31, 36) {
                    None => Some(RpcCallView { sequence, command: None }),
                    Some((num, FieldView::Bytes(body))) => match spec_command(num, body) {
                        Some(c) => Some(RpcCallView { sequence, command: Some(c) }),
                        None => None,
                    },
                    _ => None,
                },
            }
        },
    }
}

/// Relies on String::from_utf8: it accepts exactly the byte strings that are
/// valid UTF-8, and the string it gives holds the characters they encode.
#[verifier::external_body]
pub(crate) fn utf8_text(b: Vec<u8>) -> (r: Option<String>)
    ensures
        r is Some <==> valid_utf8(b@),
        r matches Some(s) ==> s@ == decode_utf8(b@),
{
    String::from_utf8(b).ok()
}

/// Index of the last field numbered `num`, checking on the way that every
/// such field has the wire type `want_varint` asks for.
fn find_last(fs: &Vec<Field>, num: u64, want_varint: bool) -> (r: Result<Option<usize>, WireError>)
    ensures
        r is Ok <==> (if want_varint {
            all_varint(fields_view(fs@), num as nat)
        } else {
            all_bytes(fields_view(fs@), num as nat, num as nat)
        }),
        r matches Ok(found) ==> match found {
            Some(i) => i < fs@.len() && last_of(fields_view(fs@), num as nat) == Some(
                fs@[i as int]@.1,
            ),
            None => last_of(fields_view(fs@), num as nat) is None,
        },
{
    let ghost all = fields_view(fs@);
    let mut found: Option<usize> = None;
    let mut i: usize = 0;
    while i < fs.len()
        invariant
            i <= fs@.len(),
            all == fields_view(fs@),
            forall|k: int|
                0 <= k < i && #[trigger] all[k].0 == num as nat ==> (if want_varint {
                    all[k].1 is Varint
                } else {
                    all[k].1 is Bytes
                }),
            match found {
                Some(j) => j < i && last_of(all.subrange(0, i as int), num as nat) == Some(
                    fs@[j as int]@.1,
                ),
                None => last_of(all.subrange(0, i as int), num as nat) is None,
            },
        decreases fs@.len() - i,
    {
        let f = &fs[i];
        assert(all.subrange(0, i + 1 as int).drop_last() =~= all.subrange(0, i as int));
        if f.number == num {
            let ok = match f.value {
                FieldValue::Varint(_) => want_varint,
                FieldValue::Bytes(_) => !want_varint,
                FieldValue::Fixed => false,
            };
            if !ok {
                assert(all[i as int].0 == num as nat);
                return Err(WireError::Malformed);
            }
            found = Some(i);
        }
        i = i + 1;
    }
    assert(all.subrange(0, i as int) =~= all);
    Ok(found)
}

#[verifier::truncate]
fn int_field(fs: &Vec<Field>, num: u64) -> (r: Result<u64, WireError>)
    ensures
        r is Ok <==> all_varint(fields_view(fs@), num as nat),
        r matches Ok(v) ==> v as nat == varint_or_zero(fields_view(fs@), num as nat),
{
    match find_last(fs, num, true)? {
        Some(i) => match fs[i].value {
            FieldValue::Varint(v) => Ok(v),
            _ => Ok(0),
        },
        None => Ok(0),
    }
}

fn int32_field(fs: &Vec<Field>, num: u64) -> (r: Result<i32, WireError>)
    ensures
        r is Ok <==> spec_int32(fields_view(fs@), num as nat) is Some,
        r matches Ok(v) ==> spec_int32(fields_view(fs@), num as nat) == Some(v),
{
    let v = int_field(fs, num)?;
    Ok(#[verifier::truncate] (v as i32))
}

fn int64_field(fs: &Vec<Field>, num: u64) -> (r: Result<i64, WireError>)
    ensures
        r is Ok <==> spec_int64(fields_view(fs@), num as nat) is Some,
        r matches Ok(v) ==> spec_int64(fields_view(fs@), num as nat) == Some(v),
{
    let v = int_field(fs, num)?;
    Ok(#[verifier::truncate] (v as i64))
}

fn bytes_field(fs: &Vec<Field>, num: u64) -> (r: Result<Vec<u8>, WireError>)
    ensures
        r is Ok <==> spec_bytes(fields_view(fs@), num as nat) is Some,
        r matches Ok(b) ==> spec_bytes(fields_view(fs@), num as nat) == Some(b@),
{
    match find_last(fs, num, false)? {
        Some(i) => match &fs[i].value {
            FieldValue::Bytes(b) => Ok(b.clone()),
            _ => Ok(Vec::new()),
        },
        None => Ok(Vec::new()),
    }
}

fn string_field(fs: &Vec<Field>, num: u64) -> (r: Result<String, WireError>)
    ensures
        r is Ok <==> spec_string(fields_view(fs@), num as nat) is Some,
        r matches Ok(s) ==> spec_string(fields_view(fs@), num as nat) == Some(s@),
{
    let b = bytes_field(fs, num)?;
    match utf8_text(b) {
        Some(s) => Ok(s),
        None => Err(WireError::Malformed),
    }
}

/// Reads the command carried in the body of field `num` of a call.
pub fn decode_command(num: u64, body: &[u8]) -> (r: Result<Command, WireError>)
    ensures
        r is Ok <==> spec_command(num as nat, body@) is Some,
        r matches Ok(c) ==> spec_command(num as nat, body@) == Some(c@),
{
    let fs = split_fields(body)?;
    if num == CMD_GET_PLUGIN_NAMES {
        Ok(Command::GetPluginNames)
    } else if num == CMD_GET_PLUGIN_INFO {
        let name = string_field(&fs, 1)?;
        Ok(Command::GetPluginInfo { name })
    } else if num == CMD_START_INSTANCE {
        let name = string_field(&fs, 1)?;
        let config = bytes_field(&fs, 2)?;
        Ok(Command::StartInstance { name, config })
    } else if num == CMD_GET_INSTANCE_STATUS {
        let instance_id = int32_field(&fs, 1)?;
        Ok(Command::GetInstanceStatus { instance_id })
    } else if num == CMD_CLOSE_INSTANCE {
        let instance_id = int32_field(&fs, 1)?;
        Ok(Command::CloseInstance { instance_id })
    } else if num == CMD_HANDLE_EVENT {
        let instance_id = int32_field(&fs, 1)?;
        let event_name = string_field(&fs, 2)?;
        Ok(Command::HandleEvent { instance_id, event_name })
    } else {
        Err(WireError::Malformed)
    }
}

/// Reads a call from the bytes of one frame.
pub fn decode_call(b: &[u8]) -> (r: Result<RpcCall, WireError>)
    ensures
        r is Ok <==> spec_call(b@) is Some,
        r matches Ok(c) ==> spec_call(b@) == Some(c@),
{
    let fs = split_fields(b)?;
    let ghost all = fields_view(fs@);
    let mut found: Option<usize> = None;
    let mut i: usize = 0;
    while i < fs.len()
        invariant
            i <= fs@.len(),
            all == fields_view(fs@),
            spec_fields(b@) == Some(all),
            forall|k: int| 0 <= k < i && 31 <= #[trigger] all[k].0 <= 36 ==> all[k].1 is Bytes,
            match found {
                Some(j) => j < i && last_within(all.subrange(0, i as int), 31, 36) == Some(
                    all[j as int],
                ),
                None => last_within(all.subrange(0, i as int), 31, 36) is None,
            },
        decreases fs@.len() - i,
    {
        let f = &fs[i];
        assert(all.subrange(0, i + 1 as int).drop_last() =~= all.subrange(0, i as int));
        if 31 <= f.number && f.number <= 36 {
            match f.value {
                FieldValue::Bytes(_) => {
                    found = Some(i);
                },
                _ => {
                    assert(31 <= all[i as int].0 <= 36 && !(all[i as int].1 is Bytes));
                    assert(!all_bytes(all, 31, 36));
                    return Err(WireError::Malformed);
                },
            }
        }
        i = i + 1;
    }
    assert(all.subrange(0, i as int) =~= all);
    let sequence = int64_field(&fs, 1)?;
    match found {
        None => Ok(RpcCall { sequence, command: None }),
        Some(j) => match &fs[j].value {
            FieldValue::Bytes(body) => {
                let command = decode_command(fs[j].number, body.as_slice())?;
                Ok(RpcCall { sequence, command: Some(command) })
            },
            _ => Err(WireError::Malformed),
        },
    }
}

/// What the server reports of a plugin kind.
#[derive(Debug, Clone)]
pub struct PluginInfo {
    pub name: String,
    pub updated_at: i64,
    pub loaded_at: i64,
    pub phases: Vec<String>,
    pub version: String,
    pub priority: i32,
    pub schema: String,
}

/// What the server reports of a running instance.
#[derive(Debug, Clone)]
pub struct InstanceStatus {
    pub name: String,
    pub instance_id: i32,
    pub started_at: i64,
}

/// The result a return carries.
#[derive(Debug, Clone)]
pub enum ReturnValue {
    PluginNames(Vec<String>),
    PluginInfo(PluginInfo),
    InstanceStatus(InstanceStatus),
}

/// A return to the host: the sequence number of the call and its result.
#[derive(Debug, Clone)]
pub struct RpcReturn {
    pub sequence: i64,
    pub value: ReturnValue,
}

/// A `string` field; left out when empty.
pub open spec fn string_field_bytes(num: nat, s: Seq<char>) -> Seq<u8> {
    if encode_utf8(s).len() == 0 {
        Seq::empty()
    } else {
        len_field_bytes(num, encode_utf8(s))
    }
}

/// A `repeated string` field: one length-delimited field per element, empty
/// ones included.
pub open spec fn strings_field_bytes(num: nat, ss: Seq<String>) -> Seq<u8>
    decreases ss.len(),
{
    if ss.len() == 0 {
        Seq::empty()
    } else {
        strings_field_bytes(num, ss.drop_last()) + len_field_bytes(num, encode_utf8(ss.last()@))
    }
}

pub open spec fn plugin_info_bytes(p: PluginInfo) -> Seq<u8> {
    string_field_bytes(1, p.name@) + varint_field_bytes(2, p.updated_at as u64) + varint_field_bytes(
        3,
        p.loaded_at as u64,
    ) + strings_field_bytes(4, p.phases@) + string_field_bytes(5, p.version@) + varint_field_bytes(
        6,
        p.priority as u64,
    ) + string_field_bytes(7, p.schema@)
}

/// The configuration (field 3) is never sent.
pub open spec fn instance_status_bytes(s: InstanceStatus) -> Seq<u8> {
    string_field_bytes(1, s.name@) + varint_field_bytes(2, s.instance_id as u64) + varint_field_bytes(
        4,
        s.started_at as u64,
    )
}

/// The field of a return that holds its result.
pub open spec fn return_value_bytes(v: ReturnValue) -> Seq<u8> {
    match v {
        ReturnValue::PluginNames(names) => len_field_bytes(31, strings_field_bytes(1, names@)),
        ReturnValue::PluginInfo(p) => len_field_bytes(32, plugin_info_bytes(p)),
        ReturnValue::InstanceStatus(st) => len_field_bytes(33, instance_status_bytes(st)),
    }
}

/// The bytes of a return, fields in the order of their numbers.
pub open spec fn return_bytes(r: RpcReturn) -> Seq<u8> {
    varint_field_bytes(1, r.sequence as u64) + return_value_bytes(r.value)
}

fn push_string_field(num: u64, s: &String, out: &mut Vec<u8>)
    requires
        num < 0x1000_0000,
    ensures
        final(out)@ == old(out)@ + string_field_bytes(num as nat, s@),
{
    let b = s.as_str().as_bytes();
    if b.len() != 0 {
        push_len_field(num, b, out);
    } else {
        assert(out@ =~= out@ + Seq::<u8>::empty());
    }
}

fn push_strings_field(num: u64, ss: &Vec<String>, out: &mut Vec<u8>)
    requires
        num < 0x1000_0000,
    ensures
        final(out)@ == old(out)@ + strings_field_bytes(num as nat, ss@),
{
    let ghost start = out@;
    let mut i: usize = 0;
    assert(ss@.subrange(0, 0) =~= Seq::<String>::empty());
    assert(out@ =~= start + Seq::<u8>::empty());
    while i < ss.len()
        invariant
            i <= ss@.len(),
            num < 0x1000_0000,
            out@ == start + strings_field_bytes(num as nat, ss@.subrange(0, i as int)),
        decreases ss@.len() - i,
    {
        let b = ss[i].as_str().as_bytes();
        push_len_field(num, b, out);
        assert(ss@.subrange(0, i + 1 as int).drop_last() =~= ss@.subrange(0, i as int));
        i = i + 1;
        assert(out@ =~= start + strings_field_bytes(num as nat, ss@.subrange(0, i as int)));
    }
    assert(ss@.subrange(0, i as int) =~= ss@);
}

fn plugin_info_encoding(p: &PluginInfo) -> (r: Vec<u8>)
    ensures
        r@ == plugin_info_bytes(*p),
{
    let mut out: Vec<u8> = Vec::new();
    push_string_field(1, &p.name, &mut out);
    push_varint_field(2, p.updated_at as u64, &mut out);
    push_varint_field(3, p.loaded_at as u64, &mut out);
    push_strings_field(4, &p.phases, &mut out);
    push_string_field(5, &p.version, &mut out);
    push_varint_field(6, p.priority as u64, &mut out);
    push_string_field(7, &p.schema, &mut out);
    assert(out@ =~= plugin_info_bytes(*p));
    out
}

fn instance_status_encoding(st: &InstanceStatus) -> (r: Vec<u8>)
    ensures
        r@ == instance_status_bytes(*st),
{
    let mut out: Vec<u8> = Vec::new();
    push_string_field(1, &st.name, &mut out);
    push_varint_field(2, st.instance_id as u64, &mut out);
    push_varint_field(4, st.started_at as u64, &mut out);
    assert(out@ =~= instance_status_bytes(*st));
    out
}

/// The bytes of a return, as one frame's body.
pub fn encode_return(r: &RpcReturn) -> (out: Vec<u8>)
    ensures
        out@ == return_bytes(*r),
{
    let mut out: Vec<u8> = Vec::new();
    push_varint_field(1, r.sequence as u64, &mut out);
    match &r.value {
        ReturnValue::PluginNames(names) => {
            let mut body: Vec<u8> = Vec::new();
            push_strings_field(1, names, &mut body);
            push_len_field(RET_PLUGIN_NAMES, body.as_slice(), &mut out);
        },
        ReturnValue::PluginInfo(p) => {
            let body = plugin_info_encoding(p);
            push_len_field(RET_PLUGIN_INFO, body.as_slice(), &mut out);
        },
        ReturnValue::InstanceStatus(st) => {
            let body = instance_status_encoding(st);
            push_len_field(RET_INSTANCE_STATUS, body.as_slice(), &mut out);
        },
    }
    out
}

/// The bytes of a message that wraps one string in field 1.
pub fn encode_string_message(v: &String) -> (r: Vec<u8>)
    ensures
        r@ == string_field_bytes(1, v@),
{
    let mut out: Vec<u8> = Vec::new();
    push_string_field(1, v, &mut out);
    out
}

/// The bytes of a message that wraps one `int32` in field 1.
pub fn encode_int_message(v: i32) -> (r: Vec<u8>)
    ensures
        r@ == varint_field_bytes(1, v as u64),
{
    let mut out: Vec<u8> = Vec::new();
    push_varint_field(1, v as u64, &mut out);
    out
}

/// The string in field 1 of a message.
pub fn decode_string_message(b: &[u8]) -> (r: Result<String, WireError>)
    ensures
        r is Ok <==> (spec_fields(b@) matches Some(fs) && spec_string(fs, 1) is Some),
        r matches Ok(s) ==> spec_fields(b@) matches Some(fs) && spec_string(fs, 1) == Some(s@),
{
    let fs = split_fields(b)?;
    string_field(&fs, 1)
}

/// The `int32` in field 1 of a message.
pub fn decode_int_message(b: &[u8]) -> (r: Result<i32, WireError>)
    ensures
        r is Ok <==> (spec_fields(b@) matches Some(fs) && spec_int32(fs, 1) is Some),
        r matches Ok(v) ==> spec_fields(b@) matches Some(fs) && spec_int32(fs, 1) == Some(v),
{
    let fs = split_fields(b)?;
    int32_field(&fs, 1)
}

} // verus!
