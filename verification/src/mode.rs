//! The file type and the permission bits of a Unix file mode.
use crate::field::Field;
use crate::text::string_of;
use vstd::prelude::*;

verus! {

/// The bits of a mode that hold the file type.
pub const TYPE_MASK: u32 = 0xF000;

pub const TYPE_PIPE: u32 = 0x1000;

pub const TYPE_CHAR_DEVICE: u32 = 0x2000;

pub const TYPE_DIRECTORY: u32 = 0x4000;

pub const TYPE_BLOCK_DEVICE: u32 = 0x6000;

pub const TYPE_LINK: u32 = 0xA000;

pub const TYPE_SOCKET: u32 = 0xC000;

pub const USER_READ: u32 = 0x100;

pub const USER_WRITE: u32 = 0x80;

pub const USER_EXEC: u32 = 0x40;

pub const GROUP_READ: u32 = 0x20;

pub const GROUP_WRITE: u32 = 0x10;

pub const GROUP_EXEC: u32 = 0x8;

pub const OTHER_READ: u32 = 0x4;

pub const OTHER_WRITE: u32 = 0x2;

pub const OTHER_EXEC: u32 = 0x1;

pub const SET_UID: u32 = 0x800;

pub const SET_GID: u32 = 0x400;

pub const STICKY: u32 = 0x200;

/// Whether the file type of `mode` is `kind`.
pub open spec fn is_type(mode: u32, kind: u32) -> bool {
    mode & TYPE_MASK == kind
}

/// Whether `mode` has a bit of `mask` set.
pub open spec fn has_bit(mode: u32, mask: u32) -> bool {
    mode & mask != 0
}

/// What a field that is read from the mode alone says of `mode`; `false`
/// for any other field.
pub open spec fn mode_flag(field: Field, mode: u32) -> bool {
    match field {
        Field::IsPipe => is_type(mode, TYPE_PIPE),
        Field::IsCharacterDevice => is_type(mode, TYPE_CHAR_DEVICE),
        Field::IsBlockDevice => is_type(mode, TYPE_BLOCK_DEVICE),
        Field::IsSocket => is_type(mode, TYPE_SOCKET),
        Field::UserRead => has_bit(mode, USER_READ),
        Field::UserWrite => has_bit(mode, USER_WRITE),
        Field::UserExec => has_bit(mode, USER_EXEC),
        Field::GroupRead => has_bit(mode, GROUP_READ),
        Field::GroupWrite => has_bit(mode, GROUP_WRITE),
        Field::GroupExec => has_bit(mode, GROUP_EXEC),
        Field::OtherRead => has_bit(mode, OTHER_READ),
        Field::OtherWrite => has_bit(mode, OTHER_WRITE),
        Field::OtherExec => has_bit(mode, OTHER_EXEC),
        _ => false,
    }
}

/// Whether a field is read from the mode alone.
pub open spec fn is_mode_field(field: Field) -> bool {
    match field {
        Field::IsPipe | Field::IsCharacterDevice | Field::IsBlockDevice | Field::IsSocket
        | Field::UserRead | Field::UserWrite | Field::UserExec | Field::GroupRead
        | Field::GroupWrite | Field::GroupExec | Field::OtherRead | Field::OtherWrite
        | Field::OtherExec => true,
        _ => false,
    }
}

/// The letter that `ls -l` shows for the file type.
pub open spec fn type_letter(mode: u32) -> char {
    if is_type(mode, TYPE_LINK) {
        'l'
    } else if is_type(mode, TYPE_BLOCK_DEVICE) {
        'b'
    } else if is_type(mode, TYPE_CHAR_DEVICE) {
        'c'
    } else if is_type(mode, TYPE_SOCKET) {
        's'
    } else if is_type(mode, TYPE_PIPE) {
        'p'
    } else if is_type(mode, TYPE_DIRECTORY) {
        'd'
    } else {
        '-'
    }
}

/// `letter` where the bit is set, `-` where it is not.
pub open spec fn bit_letter(mode: u32, mask: u32, letter: char) -> char {
    if has_bit(mode, mask) {
        letter
    } else {
        '-'
    }
}

/// The letter in an execute position: `x`, or `special` where the special
/// bit is set too; without the execute bit `-`, or `special` in upper case.
pub open spec fn exec_letter(mode: u32, exec: u32, special_bit: u32, low: char, up: char) -> char {
    if has_bit(mode, exec) {
        if has_bit(mode, special_bit) {
            low
        } else {
            'x'
        }
    } else {
        if has_bit(mode, special_bit) {
            up
        } else {
            '-'
        }
    }
}

/// The ten characters that `ls -l` shows for a mode, such as `-rwxr-xr-x`.
pub open spec fn mode_text(mode: u32) -> Seq<char> {
    seq![
        type_letter(mode),
        bit_letter(mode, USER_READ, 'r'),
        bit_letter(mode, USER_WRITE, 'w'),
        exec_letter(mode, USER_EXEC, SET_UID, 's', 'S'),
        bit_letter(mode, GROUP_READ, 'r'),
        bit_letter(mode, GROUP_WRITE, 'w'),
        exec_letter(mode, GROUP_EXEC, SET_GID, 's', 'S'),
        bit_letter(mode, OTHER_READ, 'r'),
        bit_letter(mode, OTHER_WRITE, 'w'),
        exec_letter(mode, OTHER_EXEC, STICKY, 't', 'T'),
    ]
}

pub fn mode_is_type(mode: u32, kind: u32) -> (b: bool)
    ensures
        b == is_type(mode, kind),
{
    mode & TYPE_MASK == kind
}

pub fn mode_has_bit(mode: u32, mask: u32) -> (b: bool)
    ensures
        b == has_bit(mode, mask),
{
    mode & mask != 0
}

pub fn mode_is_pipe(mode: u32) -> (b: bool)
    ensures
        b == is_type(mode, TYPE_PIPE),
{
    mode_is_type(mode, TYPE_PIPE)
}

pub fn mode_is_char_device(mode: u32) -> (b: bool)
    ensures
        b == is_type(mode, TYPE_CHAR_DEVICE),
{
    mode_is_type(mode, TYPE_CHAR_DEVICE)
}

pub fn mode_is_block_device(mode: u32) -> (b: bool)
    ensures
        b == is_type(mode, TYPE_BLOCK_DEVICE),
{
    mode_is_type(mode, TYPE_BLOCK_DEVICE)
}

pub fn mode_is_socket(mode: u32) -> (b: bool)
    ensures
        b == is_type(mode, TYPE_SOCKET),
{
    mode_is_type(mode, TYPE_SOCKET)
}

/// What a field that is read from the mode alone says of `mode`.
pub fn mode_field_value(field: Field, mode: u32) -> (b: bool)
    ensures
        b == mode_flag(field, mode),
{
    match field {
        Field::IsPipe => mode_is_pipe(mode),
        Field::IsCharacterDevice => mode_is_char_device(mode),
        Field::IsBlockDevice => mode_is_block_device(mode),
        Field::IsSocket => mode_is_socket(mode),
        Field::UserRead => mode_has_bit(mode, USER_READ),
        Field::UserWrite => mode_has_bit(mode, USER_WRITE),
        Field::UserExec => mode_has_bit(mode, USER_EXEC),
        Field::GroupRead => mode_has_bit(mode, GROUP_READ),
        Field::GroupWrite => mode_has_bit(mode, GROUP_WRITE),
        Field::GroupExec => mode_has_bit(mode, GROUP_EXEC),
        Field::OtherRead => mode_has_bit(mode, OTHER_READ),
        Field::OtherWrite => mode_has_bit(mode, OTHER_WRITE),
        Field::OtherExec => mode_has_bit(mode, OTHER_EXEC),
        _ => false,
    }
}

pub fn reads_mode(field: Field) -> (b: bool)
    ensures
        b == is_mode_field(field),
{
    match field {
        Field::IsPipe | Field::IsCharacterDevice | Field::IsBlockDevice | Field::IsSocket
        | Field::UserRead | Field::UserWrite | Field::UserExec | Field::GroupRead
        | Field::GroupWrite | Field::GroupExec | Field::OtherRead | Field::OtherWrite
        | Field::OtherExec => true,
        _ => false,
    }
}

fn type_char(mode: u32) -> (c: char)
    ensures
        c == type_letter(mode),
{
    if mode_is_type(mode, TYPE_LINK) {
        'l'
    } else if mode_is_type(mode, TYPE_BLOCK_DEVICE) {
        'b'
    } else if mode_is_type(mode, TYPE_CHAR_DEVICE) {
        'c'
    } else if mode_is_type(mode, TYPE_SOCKET) {
        's'
    } else if mode_is_type(mode, TYPE_PIPE) {
        'p'
    } else if mode_is_type(mode, TYPE_DIRECTORY) {
        'd'
    } else {
        '-'
    }
}

fn bit_char(mode: u32, mask: u32, letter: char) -> (c: char)
    ensures
        c == bit_letter(mode, mask, letter),
{
    if mode_has_bit(mode, mask) {
        letter
    } else {
        '-'
    }
}

fn exec_char(mode: u32, exec: u32, special_bit: u32, low: char, up: char) -> (c: char)
    ensures
        c == exec_letter(mode, exec, special_bit, low, up),
{
    if mode_has_bit(mode, exec) {
        if mode_has_bit(mode, special_bit) {
            low
        } else {
            'x'
        }
    } else {
        if mode_has_bit(mode, special_bit) {
            up
        } else {
            '-'
        }
    }
}

/// Writes a mode as `ls -l` does.
pub fn format_mode(mode: u32) -> (s: String)
    ensures
        s@ == mode_text(mode),
{
    let mut v: Vec<char> = Vec::new();
    v.push(type_char(mode));
    v.push(bit_char(mode, USER_READ, 'r'));
    v.push(bit_char(mode, USER_WRITE, 'w'));
    v.push(exec_char(mode, USER_EXEC, SET_UID, 's', 'S'));
    v.push(bit_char(mode, GROUP_READ, 'r'));
    v.push(bit_char(mode, GROUP_WRITE, 'w'));
    v.push(exec_char(mode, GROUP_EXEC, SET_GID, 's', 'S'));
    v.push(bit_char(mode, OTHER_READ, 'r'));
    v.push(bit_char(mode, OTHER_WRITE, 'w'));
    v.push(exec_char(mode, OTHER_EXEC, STICKY, 't', 'T'));
    assert(v@ =~= mode_text(mode));
    string_of(&v)
}

} // verus!
