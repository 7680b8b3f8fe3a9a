//! Watches on files, and the packed stream of events that they send.

use vstd::prelude::*;
use vstd::endian::Endian;
use vstd::utf8::*;
use crate::spawn::error;
use crate::spawn::error::{Step, SysError, EINVAL};
use crate::sys::ctext;
use crate::sys::ctext::CText;
use crate::text;
use crate::text::to_text;

verus! {

/// File was modified.
pub const MODIFY_MASK: u32 = 0x2;
/// Watched file or directory was deleted.
pub const DELETE_SELF_MASK: u32 = 0x400;
/// Watched file or directory was moved.
pub const MOVE_SELF_MASK: u32 = 0x800;
/// Mask for monitoring package file state changes.
pub const PACKAGE_FILE_MASK: u32 = 0xc02;
/// File system of the watched object was unmounted.
pub const UNMOUNT_MASK: u32 = 0x2000;
/// Event queue overflowed.
pub const QUEUE_OVERFLOW_MASK: u32 = 0x4000;
/// Watch was removed, explicitly or because the file was deleted.
pub const IGNORED_MASK: u32 = 0x8000;

/// The length of a record's header: the watch, the mask, a cookie and the length
/// of the name that follows, four bytes each.
pub const HEADER_LEN: usize = 16;

/// A decoded event.
#[derive(Clone, Debug, PartialEq, Eq)]
pub struct InotifyEvent {
    /// Watch descriptor that generated this event.
    pub wd: i32,
    /// Event mask (such as [`MODIFY_MASK`]).
    pub mask: u32,
    /// Name of the file that the event is about, where it is about one in a
    /// watched directory.
    pub name: Option<String>,
}

/// What an event says.
pub struct Record {
    pub wd: i32,
    pub mask: u32,
    pub name: Option<Seq<char>>,
}

impl View for InotifyEvent {
    type V = Record;

    open spec fn view(&self) -> Record {
        Record {
            wd: self.wd,
            mask: self.mask,
            name: match self.name {
                Some(name) => Some(name@),
                None => None,
            },
        }
    }
}

/// What each event says.
pub open spec fn records(events: Seq<InotifyEvent>) -> Seq<Record> {
    Seq::new(events.len(), |i: int| events[i]@)
}

/// The order in which the bytes of a number stand.
#[derive(Clone, Copy, Debug, PartialEq, Eq, Structural)]
pub enum ByteOrder {
    /// Least significant byte first.
    Little,
    /// Most significant byte first.
    Big,
}

/// The number that four bytes stand for.
pub open spec fn number_of(bytes: Seq<u8>, order: ByteOrder) -> int {
    match order {
        ByteOrder::Little => bytes[0] + bytes[1] * 0x100 + bytes[2] * 0x1_0000 + bytes[3]
            * 0x100_0000,
        ByteOrder::Big => bytes[3] + bytes[2] * 0x100 + bytes[1] * 0x1_0000 + bytes[0]
            * 0x100_0000,
    }
}

/// The number that the four bytes at `at` stand for.
pub open spec fn number_at(bytes: Seq<u8>, at: int, order: ByteOrder) -> u32 {
    number_of(bytes.subrange(at, at + 4), order) as u32
}

/// The signed number that has the same bits.
pub open spec fn signed(n: u32) -> i32 {
    if n < 0x8000_0000 {
        n as i32
    } else {
        (n - 0x1_0000_0000) as i32
    }
}

/// The order in which the machine keeps the bytes of a number.
pub open spec fn machine_order() -> ByteOrder {
    match vstd::endian::endianness() {
        Endian::Little => ByteOrder::Little,
        Endian::Big => ByteOrder::Big,
    }
}

/// `u32::from_ne_bytes` of std: the number that the bytes stand for in the
/// machine's own order.
#[verifier::external_body]
fn from_ne_bytes(bytes: [u8; 4]) -> (r: u32)
    ensures
        r == number_of(bytes@, machine_order()),
{
    u32::from_ne_bytes(bytes)
}

/// The order in which the machine keeps the bytes of a number.
pub fn native_order() -> (r: ByteOrder)
    ensures
        r == machine_order(),
{
    let one: u32 = from_ne_bytes([1u8, 0u8, 0u8, 0u8]);
    if one == 1 {
        ByteOrder::Little
    } else {
        ByteOrder::Big
    }
}

/// The length of the name in the record that `buf` starts with.
pub open spec fn name_len(buf: Seq<u8>, order: ByteOrder) -> int {
    number_at(buf, 12, order) as int
}

/// The name in a record's name field: up to the first NUL, as the field is
/// padded; where the field is empty there is no name.
pub open spec fn name_of(field: Seq<u8>) -> Option<Seq<char>> {
    if field.len() == 0 {
        None
    } else {
        Some(text::text_of(field.take(text::first_at(field, 0u8))))
    }
}

/// Whether `buf` starts with a whole record.
pub open spec fn whole(buf: Seq<u8>, order: ByteOrder) -> bool {
    HEADER_LEN <= buf.len() && HEADER_LEN + name_len(buf, order) <= buf.len()
}

/// The record that `buf` starts with.
pub open spec fn record_of(buf: Seq<u8>, order: ByteOrder) -> Record {
    Record {
        wd: signed(number_at(buf, 0, order)),
        mask: number_at(buf, 4, order),
        name: name_of(buf.subrange(HEADER_LEN as int, HEADER_LEN + name_len(buf, order))),
    }
}

/// The records packed into `buf`, one behind the other. One that is cut off at
/// the end does not count.
pub open spec fn decoded(buf: Seq<u8>, order: ByteOrder) -> Seq<Record>
    decreases buf.len(),
{
    if whole(buf, order) {
        seq![record_of(buf, order)] + decoded(buf.skip(HEADER_LEN + name_len(buf, order)), order)
    } else {
        Seq::empty()
    }
}

/// Reads the number that the four bytes at `at` stand for.
fn read_number(buf: &[u8], at: usize, order: ByteOrder) -> (r: u32)
    requires
        at + 4 <= buf@.len(),
    ensures
        r == number_at(buf@, at as int, order),
{
    let a: u32 = buf[at] as u32;
    let b: u32 = buf[at + 1] as u32;
    let c: u32 = buf[at + 2] as u32;
    let d: u32 = buf[at + 3] as u32;
    match order {
        ByteOrder::Little => a + b * 0x100 + c * 0x1_0000 + d * 0x100_0000,
        ByteOrder::Big => d + c * 0x100 + b * 0x1_0000 + a * 0x100_0000,
    }
}

/// Reads a signed number out of its bits.
fn to_signed(n: u32) -> (r: i32)
    ensures
        r == signed(n),
{
    if n < 0x8000_0000 {
        n as i32
    } else {
        (n as i64 - 0x1_0000_0000) as i32
    }
}

/// Reads the name out of a record's name field.
fn read_name(field: &[u8]) -> (r: Option<String>)
    ensures
        r is Some <==> name_of(field@) is Some,
        r matches Some(name) ==> name_of(field@) == Some(name@),
{
    if field.len() == 0 {
        return None;
    }
    let mut end: usize = 0;
    while end < field.len() && field[end] != 0
        invariant
            end <= field@.len(),
            forall|j: int| 0 <= j < end ==> field@[j] != 0u8,
        decreases field@.len() - end,
    {
        end = end + 1;
    }
    proof {
        text::lemma_first_at_is(field@, 0u8, end as int);
    }
    let name: &[u8] = &field[0..end];
    assert(name@ =~= field@.take(end as int));
    Some(to_text(name))
}

/// Reads the record at `offset`, where a whole one is there, with the offset of
/// what follows it.
fn read_record(buf: &[u8], offset: usize, order: ByteOrder) -> (r: Option<(InotifyEvent, usize)>)
    requires
        offset <= buf@.len(),
    ensures
        r is Some <==> whole(buf@.skip(offset as int), order),
        r matches Some((event, next)) ==> event@ == record_of(buf@.skip(offset as int), order)
            && next == offset + HEADER_LEN + name_len(buf@.skip(offset as int), order) && next
            <= buf@.len(),
{
    let ghost rest = buf@.skip(offset as int);
    if buf.len() - offset < HEADER_LEN {
        return None;
    }
    let len: u32 = read_number(buf, offset + 12, order);
    assert(buf@.subrange(offset + 12, offset + 16) =~= rest.subrange(12, 16));
    if buf.len() - offset - HEADER_LEN < len as usize {
        return None;
    }
    let wd: u32 = read_number(buf, offset, order);
    let mask: u32 = read_number(buf, offset + 4, order);
    assert(buf@.subrange(offset as int, offset + 4) =~= rest.subrange(0, 4));
    assert(buf@.subrange(offset + 4, offset + 8) =~= rest.subrange(4, 8));
    let start: usize = offset + HEADER_LEN;
    let field: &[u8] = &buf[start..start + len as usize];
    assert(field@ =~= rest.subrange(16, 16 + len));
    let event = InotifyEvent { wd: to_signed(wd), mask, name: read_name(field) };
    Some((event, start + len as usize))
}

/// The records of `buf` from one whole record on are that record and those
/// behind it.
proof fn lemma_decoded_step(buf: Seq<u8>, offset: int, order: ByteOrder)
    requires
        0 <= offset <= buf.len(),
        whole(buf.skip(offset), order),
    ensures
        decoded(buf.skip(offset), order) == seq![record_of(buf.skip(offset), order)] + decoded(
            buf.skip(offset + HEADER_LEN + name_len(buf.skip(offset), order)),
            order,
        ),
{
    let rest = buf.skip(offset);
    assert(rest.skip(HEADER_LEN + name_len(rest, order)) =~= buf.skip(
        offset + HEADER_LEN + name_len(rest, order),
    ));
}

/// Decodes packed events whose numbers are in the given order.
#[verifier::spinoff_prover]
pub fn decode_events_in(buf: &[u8], order: ByteOrder) -> (r: Vec<InotifyEvent>)
    ensures
        records(r@) == decoded(buf@, order),
{
    let mut events: Vec<InotifyEvent> = Vec::new();
    let mut offset: usize = 0;
    assert(buf@.skip(0) =~= buf@);
    assert(records(events@) + decoded(buf@, order) =~= decoded(buf@, order));
    loop
        invariant_except_break
            offset <= buf@.len(),
            records(events@) + decoded(buf@.skip(offset as int), order) == decoded(buf@, order),
        ensures
            records(events@) + Seq::<Record>::empty() == decoded(buf@, order),
        decreases buf@.len() - offset,
    {
        let ghost before = records(events@);
        match read_record(buf, offset, order) {
            Some((event, next)) => {
                proof {
                    lemma_decoded_step(buf@, offset as int, order);
                    let tail = decoded(buf@.skip(next as int), order);
                    assert(before + (seq![event@] + tail) =~= before.push(event@) + tail);
                }
                let ghost record = event@;
                events.push(event);
                assert(records(events@) =~= before.push(record));
                offset = next;
            },
            None => {
                break;
            },
        }
    }
    assert(records(events@) + Seq::<Record>::empty() =~= records(events@));
    events
}

/// Decodes packed events as the kernel writes them.
pub fn decode_events(buf: &[u8]) -> (r: Vec<InotifyEvent>)
    ensures
        records(r@) == decoded(buf@, machine_order()),
{
    decode_events_in(buf, native_order())
}

/// What adding a watch on `path` came to, given the watch descriptor that the
/// call returned and the error number after it.
///
/// # Errors
/// Where the path holds a NUL, or the call failed.
pub fn add_watch(path: &str, wd: i32, code: i32) -> (r: Result<i32, SysError>)
    ensures
        if path@.contains('\0') {
            error::failed_with(r, EINVAL, "inotify path contains nul"@)
        } else if wd < 0 {
            error::failed_with(r, code, "inotify_add_watch"@)
        } else {
            r == Ok::<i32, SysError>(wd)
        },
{
    match CText::new(path) {
        Some(_) => {},
        None => return Err(SysError::sys(EINVAL, "inotify path contains nul")),
    }
    if wd < 0 {
        return Err(SysError::sys(code, "inotify_add_watch"));
    }
    Ok(wd)
}

/// Takes the outcome of a read of the inotify descriptor into `buf`, and adds
/// the events that were read. The descriptor is read again until it would block
/// or is at its end.
pub fn read_events(
    events: &mut Vec<InotifyEvent>,
    outcome: Result<Option<usize>, SysError>,
    buf: &[u8],
) -> (r: Step<Result<(), SysError>>)
    requires
        outcome matches Ok(Some(n)) ==> n <= buf@.len(),
    ensures
        match outcome {
            Ok(Some(n)) if n > 0 => r is Retry && records(final(events)@) == records(old(events)@)
                + decoded(buf@.take(n as int), machine_order()),
            Err(e) => final(events)@ == old(events)@ && r == Step::<Result<(), SysError>>::Done(
                Err(e),
            ),
            _ => final(events)@ == old(events)@ && r == Step::<Result<(), SysError>>::Done(Ok(())),
        },
{
    let n: usize = match outcome {
        Ok(Some(n)) => n,
        Ok(None) => return Step::Done(Ok(())),
        Err(e) => return Step::Done(Err(e)),
    };
    if n == 0 {
        return Step::Done(Ok(()));
    }
    let part: &[u8] = &buf[0..n];
    assert(part@ =~= buf@.take(n as int));
    let mut new = decode_events(part);
    let ghost added = new@;
    events.append(&mut new);
    assert(records(events@) =~= records(old(events)@) + records(added));
    Step::Retry
}

/// The four bytes of a number.
pub open spec fn bytes_of(n: u32, order: ByteOrder) -> Seq<u8> {
    let a = (n % 0x100) as u8;
    let b = ((n / 0x100) % 0x100) as u8;
    let c = ((n / 0x1_0000) % 0x100) as u8;
    let d = (n / 0x100_0000) as u8;
    match order {
        ByteOrder::Little => seq![a, b, c, d],
        ByteOrder::Big => seq![d, c, b, a],
    }
}

/// A record as the kernel packs it: the watch, the mask, the cookie, the length
/// of the name field and the name field.
pub open spec fn packed(wd: u32, mask: u32, cookie: u32, field: Seq<u8>, order: ByteOrder) -> Seq<
    u8,
> {
    bytes_of(wd, order) + bytes_of(mask, order) + bytes_of(cookie, order) + bytes_of(
        field.len() as u32,
        order,
    ) + field
}

proof fn lemma_bytes_of(n: u32, order: ByteOrder)
    ensures
        bytes_of(n, order).len() == 4,
        number_of(bytes_of(n, order), order) == n,
{
}

/// What the header of a packed record says.
proof fn lemma_packed(
    wd: u32,
    mask: u32,
    cookie: u32,
    field: Seq<u8>,
    rest: Seq<u8>,
    order: ByteOrder,
)
    requires
        field.len() <= u32::MAX,
    ensures
        ({
            let buf = packed(wd, mask, cookie, field, order) + rest;
            &&& packed(wd, mask, cookie, field, order).len() == HEADER_LEN + field.len()
            &&& number_at(buf, 0, order) == wd
            &&& number_at(buf, 4, order) == mask
            &&& name_len(buf, order) == field.len()
            &&& buf.subrange(HEADER_LEN as int, HEADER_LEN + field.len()) == field
        }),
{
    let buf = packed(wd, mask, cookie, field, order) + rest;
    lemma_bytes_of(wd, order);
    lemma_bytes_of(mask, order);
    lemma_bytes_of(cookie, order);
    lemma_bytes_of(field.len() as u32, order);
    assert(buf.subrange(0, 4) =~= bytes_of(wd, order));
    assert(buf.subrange(4, 8) =~= bytes_of(mask, order));
    assert(buf.subrange(12, 16) =~= bytes_of(field.len() as u32, order));
    assert(buf.subrange(16, HEADER_LEN + field.len()) =~= field);
}

/// Decoding gives back what the kernel packed: the first record's watch, mask
/// and name, and then the records behind it.
pub proof fn law_packed_records_decode(
    wd: u32,
    mask: u32,
    cookie: u32,
    field: Seq<u8>,
    rest: Seq<u8>,
    order: ByteOrder,
)
    requires
        field.len() <= u32::MAX,
    ensures
        decoded(packed(wd, mask, cookie, field, order) + rest, order) == seq![
            Record { wd: signed(wd), mask, name: name_of(field) },
        ] + decoded(rest, order),
{
    let buf = packed(wd, mask, cookie, field, order) + rest;
    lemma_packed(wd, mask, cookie, field, rest, order);
    assert(buf.skip(HEADER_LEN + field.len()) =~= rest);
}

/// A record that is cut off, wherever that is, is ignored.
pub proof fn law_truncated_records_are_ignored(
    wd: u32,
    mask: u32,
    cookie: u32,
    field: Seq<u8>,
    order: ByteOrder,
    kept: int,
)
    requires
        field.len() <= u32::MAX,
        0 <= kept < packed(wd, mask, cookie, field, order).len(),
    ensures
        decoded(packed(wd, mask, cookie, field, order).take(kept), order) == Seq::<Record>::empty(),
{
    let all = packed(wd, mask, cookie, field, order);
    lemma_packed(wd, mask, cookie, field, Seq::empty(), order);
    assert(all + Seq::<u8>::empty() =~= all);
    if kept >= HEADER_LEN {
        assert(all.take(kept).subrange(12, 16) =~= all.subrange(12, 16));
    }
}

/// A name without a NUL in it is given back whole, however it is padded.
pub proof fn law_padding_is_dropped(name: Seq<u8>, padding: nat)
    requires
        !name.contains(0u8),
        name.len() + padding > 0,
    ensures
        name_of(name + Seq::new(padding, |i: int| 0u8)) == Some(text::text_of(name)),
{
    let field = name + Seq::new(padding, |i: int| 0u8);
    assert forall|i: int| 0 <= i < name.len() implies field[i] != 0u8 by {
        assert(field[i] == name[i]);
    }
    text::lemma_first_at_is(field, 0u8, name.len() as int);
    assert(field.take(name.len() as int) =~= name);
}

/// Four bytes stand for the number whose base-256 digits they are, the least
/// significant first or last as the order has it.
pub proof fn law_bytes_are_the_digits_of_a_number(a: u8, b: u8, c: u8, d: u8)
    ensures
        number_of(seq![a, b, c, d], ByteOrder::Little) == a + 256 * (b + 256 * (c + 256 * d)),
        number_of(seq![d, c, b, a], ByteOrder::Big) == a + 256 * (b + 256 * (c + 256 * d)),
{
}

/// A number in a buffer is made of the four bytes that stand there.
pub proof fn law_numbers_are_read_where_they_stand(buf: Seq<u8>, at: int)
    requires
        0 <= at,
        at + 4 <= buf.len(),
    ensures
        number_at(buf, at, ByteOrder::Little) == buf[at] + 256 * (buf[at + 1] + 256 * (buf[at + 2]
            + 256 * buf[at + 3])),
        number_at(buf, at, ByteOrder::Big) == buf[at + 3] + 256 * (buf[at + 2] + 256 * (buf[at + 1]
            + 256 * buf[at])),
{
}

/// The order of the machine is that in which it keeps a number's bytes.
pub proof fn law_machine_order_is_its_own()
    ensures
        vstd::endian::endianness() == Endian::Little ==> machine_order() == ByteOrder::Little,
        vstd::endian::endianness() == Endian::Big ==> machine_order() == ByteOrder::Big,
{
}

/// A watch is a number below 2 to the 31st as it is, and the one 2 to the 32nd
/// below where it is not.
pub proof fn law_watches_are_signed(n: u32)
    ensures
        n <= 0x7fff_ffff ==> signed(n) == n,
        n > 0x7fff_ffff ==> signed(n) == n - 0x1_0000_0000,
        signed(n) < 0 <==> n > 0x7fff_ffff,
{
}

/// There is a name exactly where the name field is not empty.
pub proof fn law_empty_fields_hold_no_name(field: Seq<u8>)
    ensures
        name_of(field) is None <==> field.len() == 0,
{
}

/// A name is given back whole and as it is, however long it is and however much
/// padding stands behind it.
pub proof fn law_names_are_given_back(name: Seq<char>, padding: nat)
    requires
        !name.contains('\0'),
        name.len() + padding > 0,
    ensures
        name_of(encode_utf8(name) + Seq::new(padding, |i: int| 0u8)) == Some(name),
{
    ctext::lemma_encoded_zero(name);
    if encode_utf8(name).len() == 0 {
        text::law_encoded_text_is_given_back(name);
        assert(encode_utf8(name) =~= Seq::<u8>::empty());
        reveal_with_fuel(encode_utf8, 2);
        assert(encode_utf8(Seq::<char>::empty()) =~= Seq::<u8>::empty());
        text::law_encoded_text_is_given_back(Seq::<char>::empty());
    }
    law_padding_is_dropped(encode_utf8(name), padding);
    text::law_encoded_text_is_given_back(name);
}

/// What stands behind the first zero byte of a name field is not part of the name.
pub proof fn law_names_end_at_the_first_nul(name: Seq<char>, behind: Seq<u8>)
    requires
        !name.contains('\0'),
    ensures
        name_of(encode_utf8(name).push(0u8) + behind) == Some(name),
{
    let bytes = encode_utf8(name);
    let field = bytes.push(0u8) + behind;
    ctext::lemma_encoded_zero(name);
    assert forall|i: int| 0 <= i < bytes.len() implies field[i] != 0u8 by {
        assert(field[i] == bytes[i]);
        assert(bytes.contains(bytes[i]));
    }
    text::lemma_first_at_is(field, 0u8, bytes.len() as int);
    assert(field.take(bytes.len() as int) =~= bytes);
    text::law_encoded_text_is_given_back(name);
}

/// A record is read where it stands: the watch in the first four bytes, the mask
/// in the next four, the length of the name field in the last four of the sixteen
/// that the header has, and the name behind it. The next record follows at once.
pub proof fn law_records_are_read_where_they_stand(buf: Seq<u8>, order: ByteOrder)
    ensures
        ({
            let len = number_at(buf, 12, order) as int;
            &&& buf.len() < 16 || buf.len() < 16 + len ==> decoded(buf, order).len() == 0
            &&& buf.len() >= 16 && buf.len() >= 16 + len ==> {
                &&& decoded(buf, order).len() == 1 + decoded(
                    buf.subrange(16 + len, buf.len() as int),
                    order,
                ).len()
                &&& decoded(buf, order)[0].wd == signed(number_at(buf, 0, order))
                &&& decoded(buf, order)[0].mask == number_at(buf, 4, order)
                &&& decoded(buf, order)[0].name == name_of(buf.subrange(16, 16 + len))
                &&& decoded(buf, order).skip(1) == decoded(
                    buf.subrange(16 + len, buf.len() as int),
                    order,
                )
            }
        }),
{
    let len = number_at(buf, 12, order) as int;
    if buf.len() >= 16 && buf.len() >= 16 + len {
        assert(buf.skip(16 + len) =~= buf.subrange(16 + len, buf.len() as int));
        let behind = decoded(buf.subrange(16 + len, buf.len() as int), order);
        assert((seq![record_of(buf, order)] + behind).skip(1) =~= behind);
    }
}

/// A watch is added exactly where its path can be passed to the kernel and the
/// kernel gave a descriptor, and then it is that one. A path with a NUL in it is an
/// invalid argument (22), whatever the kernel might have said.
pub proof fn law_watches_are_as_given(path: &str, wd: i32, code: i32, r: Result<i32, SysError>)
    requires
        call_ensures(add_watch, (path, wd, code), r),
    ensures
        r is Ok <==> !path@.contains('\0') && wd >= 0,
        r matches Ok(watch) ==> watch == wd,
        r matches Err(e) ==> e->code == if path@.contains('\0') {
            22i32
        } else {
            code
        },
{
}

} // verus!
