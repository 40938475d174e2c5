//! Finding out who funded a deposit: the key that an output script pays to
//! is its second item, and every sender is listed once.

use crate::text::same_text;
use vstd::prelude::*;
use vstd::string::*;

verus! {

/// What stands at a position of a script.
pub enum ScriptItem {
    /// Pushed data, from `from` up to but without `to`.
    Data { from: int, to: int },
    /// An opcode that pushes nothing.
    Op,
    /// A push that runs beyond the end of the script.
    Broken,
    /// Nothing: the script ends here.
    End,
}

/// The item with the length of the data in `width` bytes, low byte first,
/// behind the opcode at `at`.
pub open spec fn counted_push(script: Seq<u8>, at: int, width: int) -> ScriptItem {
    if at + 1 + width > script.len() {
        ScriptItem::Broken
    } else {
        let count = if width == 1 {
            script[at + 1] as int
        } else if width == 2 {
            script[at + 1] as int + 256 * script[at + 2] as int
        } else {
            script[at + 1] as int + 256 * script[at + 2] as int + 65536 * script[at + 3] as int
                + 16777216 * script[at + 4] as int
        };
        if at + 1 + width + count > script.len() {
            ScriptItem::Broken
        } else {
            ScriptItem::Data { from: at + 1 + width, to: at + 1 + width + count }
        }
    }
}

/// The item that stands at the position `at` of a script: the opcodes up to
/// `0x4b` push as many bytes as they say, the three opcodes after them push
/// as many bytes as the one, two or four bytes behind them say, and every
/// other opcode pushes nothing.
pub open spec fn item_at(script: Seq<u8>, at: int) -> ScriptItem {
    if at < 0 || at >= script.len() {
        ScriptItem::End
    } else if script[at] <= 0x4b {
        if at + 1 + script[at] > script.len() {
            ScriptItem::Broken
        } else {
            ScriptItem::Data { from: at + 1, to: at + 1 + script[at] }
        }
    } else if script[at] == 0x4c {
        counted_push(script, at, 1)
    } else if script[at] == 0x4d {
        counted_push(script, at, 2)
    } else if script[at] == 0x4e {
        counted_push(script, at, 4)
    } else {
        ScriptItem::Op
    }
}

/// Where the second item of a script starts, if the first one is whole.
pub open spec fn second_at(script: Seq<u8>) -> Option<int> {
    match item_at(script, 0) {
        ScriptItem::Data { from, to } => Some(to),
        ScriptItem::Op => Some(1int),
        _ => None,
    }
}

/// What the second item of a script is.
#[derive(Debug, PartialEq, Eq)]
pub enum SecondItem {
    /// It pushes these bytes.
    Pushed(Vec<u8>),
    /// It is an opcode that pushes nothing.
    Opcode,
    /// The script has no second item, or one of its first two is broken.
    Missing,
}

/// What the second item of a script is.
pub open spec fn second_item(script: Seq<u8>) -> ScriptItem {
    match second_at(script) {
        Some(at) => item_at(script, at),
        None => ScriptItem::Broken,
    }
}

enum Read {
    Data { from: usize, to: usize },
    Op,
    Broken,
    End,
}

fn read_item(script: &[u8], at: usize) -> (item: Read)
    ensures
        match item {
            Read::Data { from, to } => item_at(script@, at as int) == (ScriptItem::Data {
                from: from as int,
                to: to as int,
            }) && at < from <= to <= script@.len(),
            Read::Op => item_at(script@, at as int) == ScriptItem::Op && at < script@.len(),
            Read::Broken => item_at(script@, at as int) == ScriptItem::Broken,
            Read::End => item_at(script@, at as int) == ScriptItem::End,
        },
{
    let len: usize = script.len();
    if at >= len {
        return Read::End;
    }
    let opcode: u8 = script[at];
    let rest: usize = len - at - 1;
    let (width, count): (usize, u64) = if opcode <= 0x4b {
        (0, opcode as u64)
    } else if opcode == 0x4c {
        if rest < 1 {
            return Read::Broken;
        }
        (1, script[at + 1] as u64)
    } else if opcode == 0x4d {
        if rest < 2 {
            return Read::Broken;
        }
        (2, script[at + 1] as u64 + 256 * script[at + 2] as u64)
    } else if opcode == 0x4e {
        if rest < 4 {
            return Read::Broken;
        }
        (
            4,
            script[at + 1] as u64 + 256 * script[at + 2] as u64 + 65536 * script[at + 3] as u64
                + 16777216 * script[at + 4] as u64,
        )
    } else {
        return Read::Op;
    };
    if count > (rest - width) as u64 {
        return Read::Broken;
    }
    let from: usize = at + 1 + width;
    Read::Data { from, to: from + count as usize }
}

/// Reads the second item of a script.
pub fn read_second_item(script: &[u8]) -> (second: SecondItem)
    ensures
        match second {
            SecondItem::Pushed(data) => second_item(script@) matches ScriptItem::Data { from, to }
                && data@ == script@.subrange(from, to),
            SecondItem::Opcode => second_item(script@) == ScriptItem::Op,
            SecondItem::Missing => second_item(script@) == ScriptItem::Broken || second_item(
                script@,
            ) == ScriptItem::End,
        },
{
    let at: usize = match read_item(script, 0) {
        Read::Data { from, to } => to,
        Read::Op => 1,
        _ => {
            return SecondItem::Missing;
        },
    };
    match read_item(script, at) {
        Read::Data { from, to } => {
            let mut data: Vec<u8> = Vec::new();
            let mut i: usize = from;
            while i < to
                invariant
                    from <= i <= to <= script@.len(),
                    data@ == script@.subrange(from as int, i as int),
                decreases to - i,
            {
                data.push(script[i]);
                assert(data@ =~= script@.subrange(from as int, i + 1));
                i += 1;
            }
            SecondItem::Pushed(data)
        },
        Read::Op => SecondItem::Opcode,
        _ => SecondItem::Missing,
    }
}

/// Whether `address` is one of `addresses`.
pub open spec fn listed(addresses: Seq<String>, address: Seq<char>) -> bool {
    exists|i: int| 0 <= i < addresses.len() && (#[trigger] addresses[i])@ == address
}

/// Lists `address` among `addresses` unless it is listed already.
pub fn push_unique(addresses: &mut Vec<String>, address: String)
    ensures
        final(addresses)@ == if listed(old(addresses)@, address@) {
            old(addresses)@
        } else {
            old(addresses)@.push(address)
        },
{
    let mut i: usize = 0;
    while i < addresses.len()
        invariant
            i <= addresses@.len(),
            *addresses == *old(addresses),
            forall|j: int| 0 <= j < i ==> (#[trigger] addresses@[j])@ != address@,
        decreases addresses.len() - i,
    {
        if same_text(addresses[i].as_str(), address.as_str()) {
            assert(addresses@[i as int]@ == address@);
            return ;
        }
        i += 1;
    }
    addresses.push(address);
}

} // verus!
