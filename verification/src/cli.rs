//! Output of the command-line client: `key=value` lines for scripts.
use vstd::prelude::*;
use crate::error::{decimal_digits, push_decimal, KenvError};
use crate::ipc::{KeyInfo, SlotInfo};
use crate::session::{script_value, VaultStatus};
use crate::text::push_char;

verus! {

/// `s` with each backslash, newline and carriage return written as a
/// two-character escape, so a value stays on one line.
pub open spec fn escaped(s: Seq<char>) -> Seq<char>
    decreases s.len(),
{
    if s.len() == 0 {
        Seq::empty()
    } else {
        escaped(s.drop_last()) + escape_char(s.last())
    }
}

/// The escape of one character.
pub open spec fn escape_char(c: char) -> Seq<char> {
    if c == '\\' {
        seq!['\\', '\\']
    } else if c == '\n' {
        seq!['\\', 'n']
    } else if c == '\r' {
        seq!['\\', 'r']
    } else {
        seq![c]
    }
}

/// An escaped value stays on one line: it holds no newline and no carriage
/// return, whatever the value holds.
pub proof fn lemma_escaped_is_one_line(s: Seq<char>)
    ensures
        forall|i: int| 0 <= i < escaped(s).len() ==> #[trigger] escaped(s)[i] != '\n' && escaped(
            s,
        )[i] != '\r',
    decreases s.len(),
{
    if s.len() > 0 {
        lemma_escaped_is_one_line(s.drop_last());
        let a = escaped(s.drop_last());
        let b = escape_char(s.last());
        assert forall|i: int| 0 <= i < escaped(s).len() implies #[trigger] escaped(s)[i] != '\n'
            && escaped(s)[i] != '\r' by {
            if i < a.len() {
                assert(escaped(s)[i] == a[i]);
            } else {
                assert(escaped(s)[i] == b[i - a.len()]);
            }
        }
    }
}

/// Escapes a value for script-safe `key=value` output: `\` becomes `\\`, a
/// newline `\n` and a carriage return `\r`.
pub fn escape_value(s: &str) -> (out: String)
    ensures
        out@ == escaped(s@),
{
    let n = s.unicode_len();
    let mut out = String::new();
    let mut i: usize = 0;
    assert(s@.take(0) =~= Seq::<char>::empty());
    while i < n
        invariant
            n == s@.len(),
            i <= n,
            out@ == escaped(s@.take(i as int)),
        decreases n - i,
    {
        let c = s.get_char(i);
        assert(s@.take(i + 1).drop_last() =~= s@.take(i as int));
        assert(s@.take(i + 1).last() == c);
        if c == '\\' {
            push_char(&mut out, '\\');
            push_char(&mut out, '\\');
        } else if c == '\n' {
            push_char(&mut out, '\\');
            push_char(&mut out, 'n');
        } else if c == '\r' {
            push_char(&mut out, '\\');
            push_char(&mut out, 'r');
        } else {
            push_char(&mut out, c);
        }
        assert(out@ =~= escaped(s@.take(i + 1)));
        i = i + 1;
    }
    assert(s@.take(n as int) =~= s@);
    out
}

/// The status line: `vault_status=` and the status's script value.
pub open spec fn status_line(s: VaultStatus) -> Seq<char> {
    "vault_status="@ + script_value(s)
}

/// Renders the status that `status_provider` reports as a status line, or
/// passes its error on.
pub fn render_status<F>(status_provider: F) -> (res: Result<String, KenvError>) where
    F: FnOnce() -> Result<VaultStatus, KenvError>,

    requires
        call_requires(status_provider, ()),
    ensures
        exists|r: Result<VaultStatus, KenvError>|
            call_ensures(status_provider, (), r) && match r {
                Ok(s) => res matches Ok(line) && line@ == status_line(s),
                Err(e) => res == Err::<String, KenvError>(e),
            },
{
    let status = status_provider();
    match status {
        Ok(s) => {
            let mut line = String::from_str("vault_status=");
            line.append(s.as_script_value());
            proof {
                reveal_strlit("vault_status=");
            }
            Ok(line)
        },
        Err(e) => Err(e),
    }
}

/// Formats an error message for the command line: `error=` and the message.
pub fn format_cli_error(message: &str) -> (out: String)
    ensures
        out@ == "error="@ + message@,
{
    let mut out = String::from_str("error=");
    out.append(message);
    out
}

/// The lines printed for one slot: its id, type and escaped label.
pub open spec fn slot_entry_lines(s: SlotInfo) -> Seq<Seq<char>> {
    seq![
        "slot_id="@ + decimal_digits(s.slot_id as nat),
        "slot_type="@ + s.slot_type@,
        "slot_label="@ + escaped(s.label@),
    ]
}

/// The lines printed for a list of slots, after the count line.
pub open spec fn slot_entries(slots: Seq<SlotInfo>) -> Seq<Seq<char>>
    decreases slots.len(),
{
    if slots.len() == 0 {
        Seq::empty()
    } else {
        slot_entries(slots.drop_last()) + slot_entry_lines(slots.last())
    }
}

/// The listing of slots: `slot_count=N`, then three lines per slot.
pub open spec fn slot_listing(slots: Seq<SlotInfo>) -> Seq<Seq<char>> {
    seq!["slot_count="@ + decimal_digits(slots.len())] + slot_entries(slots)
}

/// The lines printed for one key: its id and escaped name.
pub open spec fn key_entry_lines(k: KeyInfo) -> Seq<Seq<char>> {
    seq!["key_id="@ + k.key_id@, "key_name="@ + escaped(k.name@)]
}

/// The lines printed for a list of keys, after the count line.
pub open spec fn key_entries(keys: Seq<KeyInfo>) -> Seq<Seq<char>>
    decreases keys.len(),
{
    if keys.len() == 0 {
        Seq::empty()
    } else {
        key_entries(keys.drop_last()) + key_entry_lines(keys.last())
    }
}

/// The listing of keys: `key_count=N`, then two lines per key.
pub open spec fn key_listing(keys: Seq<KeyInfo>) -> Seq<Seq<char>> {
    seq!["key_count="@ + decimal_digits(keys.len())] + key_entries(keys)
}

/// The text of each string in a list.
pub open spec fn texts(v: Seq<String>) -> Seq<Seq<char>> {
    v.map_values(|s: String| s@)
}

fn labelled(key: &str, value: &str) -> (line: String)
    ensures
        line@ == key@ + value@,
{
    let mut line = String::new();
    line.append(key);
    line.append(value);
    line
}

fn labelled_number(key: &str, n: u32) -> (line: String)
    ensures
        line@ == key@ + decimal_digits(n as nat),
{
    let mut line = String::new();
    line.append(key);
    push_decimal(&mut line, n);
    line
}

/// The lines `kenv slots` prints for the slots the desktop app listed.
pub fn render_slot_listing(slots: &[SlotInfo]) -> (lines: Vec<String>)
    requires
        slots@.len() <= u32::MAX,
    ensures
        texts(lines@) == slot_listing(slots@),
{
    proof {
        reveal_strlit("slot_count=");
        reveal_strlit("slot_id=");
        reveal_strlit("slot_type=");
        reveal_strlit("slot_label=");
    }
    let mut lines: Vec<String> = Vec::new();
    lines.push(labelled_number("slot_count=", slots.len() as u32));
    let mut i: usize = 0;
    assert(slots@.take(0) =~= Seq::<SlotInfo>::empty());
    while i < slots.len()
        invariant
            i <= slots@.len(),
            texts(lines@) == seq!["slot_count="@ + decimal_digits(slots@.len())] + slot_entries(
                slots@.take(i as int),
            ),
        decreases slots@.len() - i,
    {
        let s = &slots[i];
        let ghost before = lines@;
        lines.push(labelled_number("slot_id=", s.slot_id as u32));
        lines.push(labelled("slot_type=", s.slot_type.as_str()));
        let esc = escape_value(s.label.as_str());
        lines.push(labelled("slot_label=", esc.as_str()));
        proof {
            assert(slots@.take(i + 1).drop_last() =~= slots@.take(i as int));
            assert(slots@.take(i + 1).last() == slots@[i as int]);
            assert(texts(lines@) =~= texts(before) + slot_entry_lines(slots@[i as int]));
        }
        i = i + 1;
    }
    assert(slots@.take(slots@.len() as int) =~= slots@);
    lines
}

/// The lines `kenv keys` prints for the keys the desktop app listed.
pub fn render_key_listing(keys: &[KeyInfo]) -> (lines: Vec<String>)
    requires
        keys@.len() <= u32::MAX,
    ensures
        texts(lines@) == key_listing(keys@),
{
    proof {
        reveal_strlit("key_count=");
        reveal_strlit("key_id=");
        reveal_strlit("key_name=");
    }
    let mut lines: Vec<String> = Vec::new();
    lines.push(labelled_number("key_count=", keys.len() as u32));
    let mut i: usize = 0;
    assert(keys@.take(0) =~= Seq::<KeyInfo>::empty());
    while i < keys.len()
        invariant
            i <= keys@.len(),
            texts(lines@) == seq!["key_count="@ + decimal_digits(keys@.len())] + key_entries(
                keys@.take(i as int),
            ),
        decreases keys@.len() - i,
    {
        let k = &keys[i];
        let ghost before = lines@;
        lines.push(labelled("key_id=", k.key_id.as_str()));
        let esc = escape_value(k.name.as_str());
        lines.push(labelled("key_name=", esc.as_str()));
        proof {
            assert(keys@.take(i + 1).drop_last() =~= keys@.take(i as int));
            assert(keys@.take(i + 1).last() == keys@[i as int]);
            assert(texts(lines@) =~= texts(before) + key_entry_lines(keys@[i as int]));
        }
        i = i + 1;
    }
    assert(keys@.take(keys@.len() as int) =~= keys@);
    lines
}

} // verus!
