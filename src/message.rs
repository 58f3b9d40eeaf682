//! Text conventions of the swarm's payloads: `KIND:sender:...` messages,
//! their sender field, their kind, and how a long one is shortened for
//! display. Also how a send picks distinct group members.
use vstd::prelude::*;
use vstd::string::{StringExecFns, StringSliceAdditionalSpecFns};
use vstd::utf8::{decode_utf8, encode_utf8_decode_utf8, is_char_boundary};

verus! {

/// The byte that separates fields.
pub const FIELD_SEPARATOR: u8 = 0x3a;

/// Index of the first `:` in `s`, or `s.len()` when there is none.
pub open spec fn separator_index(s: Seq<u8>) -> int
    decreases s.len(),
{
    if s.len() == 0 {
        0
    } else if s[0] == FIELD_SEPARATOR {
        0
    } else {
        1 + separator_index(s.drop_first())
    }
}

/// Whether every byte of `d` is an ASCII decimal digit.
pub open spec fn all_digits(d: Seq<u8>) -> bool {
    forall|i: int| 0 <= i < d.len() ==> 0x30 <= #[trigger] d[i] <= 0x39
}

/// The number that the decimal digits `d` spell.
pub open spec fn digits_value(d: Seq<u8>) -> int
    decreases d.len(),
{
    if d.len() == 0 {
        0
    } else {
        digits_value(d.drop_last()) * 10 + (d.last() - 0x30)
    }
}

/// A `u64` written in decimal, with an optional leading `+`: what parsing a
/// string as `u64` accepts. `None` for an empty or non-decimal text and for
/// a value that does not fit.
pub open spec fn parse_decimal(s: Seq<u8>) -> Option<u64> {
    let d = if s.len() > 1 && s[0] == 0x2b {
        s.drop_first()
    } else {
        s
    };
    if d.len() == 0 || !all_digits(d) || digits_value(d) > u64::MAX {
        None
    } else {
        Some(digits_value(d) as u64)
    }
}

/// The second `:`-separated field of `b`, when `b` has a separator.
pub open spec fn second_field(b: Seq<u8>) -> Option<Seq<u8>> {
    let first = separator_index(b);
    if first >= b.len() {
        None
    } else {
        let rest = b.subrange(first + 1, b.len() as int);
        Some(rest.subrange(0, separator_index(rest)))
    }
}

/// The sender named by a message's second field, when it is a `u64`.
pub open spec fn message_sender(b: Seq<u8>) -> Option<u64> {
    match second_field(b) {
        Some(f) => parse_decimal(f),
        None => None,
    }
}

proof fn lemma_separator_index(s: Seq<u8>)
    ensures
        0 <= separator_index(s) <= s.len(),
        separator_index(s) < s.len() ==> s[separator_index(s)] == FIELD_SEPARATOR,
        forall|i: int| 0 <= i < separator_index(s) ==> s[i] != FIELD_SEPARATOR,
    decreases s.len(),
{
    if s.len() > 0 && s[0] != FIELD_SEPARATOR {
        lemma_separator_index(s.drop_first());
        assert forall|i: int| 0 <= i < separator_index(s) implies s[i] != FIELD_SEPARATOR by {
            if i > 0 {
                assert(s[i] == s.drop_first()[i - 1]);
            }
        }
    }
}

proof fn lemma_digits_value_grows(d: Seq<u8>, k: int)
    requires
        all_digits(d),
        0 <= k <= d.len(),
    ensures
        digits_value(d.take(k)) <= digits_value(d),
        0 <= digits_value(d),
    decreases d.len(),
{
    if d.len() > 0 {
        let init = d.drop_last();
        assert(all_digits(init));
        if k < d.len() {
            assert(d.take(k) =~= init.take(k));
            lemma_digits_value_grows(init, k);
        } else {
            assert(d.take(k) =~= d);
            lemma_digits_value_grows(init, 0);
        }
    }
}

/// Index of the first `:` at or after `from`, or `b.len()`.
fn find_separator(b: &[u8], from: usize) -> (r: usize)
    requires
        from <= b@.len(),
    ensures
        r == from + separator_index(b@.subrange(from as int, b@.len() as int)),
{
    let ghost s = b@.subrange(from as int, b@.len() as int);
    proof {
        lemma_separator_index(s);
    }
    let mut i = from;
    while i < b.len()
        invariant
            from <= i <= b@.len(),
            s == b@.subrange(from as int, b@.len() as int),
            0 <= separator_index(s) <= s.len(),
            separator_index(s) < s.len() ==> s[separator_index(s)] == FIELD_SEPARATOR,
            forall|k: int| 0 <= k < separator_index(s) ==> s[k] != FIELD_SEPARATOR,
            forall|k: int| from <= k < i ==> b@[k] != FIELD_SEPARATOR,
        decreases b@.len() - i,
    {
        if b[i] == FIELD_SEPARATOR {
            assert(s[i - from] == FIELD_SEPARATOR);
            assert(separator_index(s) == i - from) by {
                if separator_index(s) < i - from {
                    assert(b@[from + separator_index(s)] == s[separator_index(s)]);
                }
            }
            return i;
        }
        i = i + 1;
    }
    assert(separator_index(s) == s.len()) by {
        if separator_index(s) < s.len() {
            assert(b@[from + separator_index(s)] == s[separator_index(s)]);
        }
    }
    i
}

/// Parses `b[from..to]` as a decimal `u64` with an optional leading `+`.
fn parse_u64_decimal(b: &[u8], from: usize, to: usize) -> (r: Option<u64>)
    requires
        from <= to <= b@.len(),
    ensures
        r == parse_decimal(b@.subrange(from as int, to as int)),
{
    let ghost s = b@.subrange(from as int, to as int);
    let mut start = from;
    if to - from > 1 && b[from] == 0x2b {
        start = from + 1;
    }
    let ghost d = b@.subrange(start as int, to as int);
    assert(d =~= (if s.len() > 1 && s[0] == 0x2b {
        s.drop_first()
    } else {
        s
    }));
    if start == to {
        return None;
    }
    let mut value: u64 = 0;
    let mut i = start;
    while i < to
        invariant
            from <= start <= i <= to <= b@.len(),
            s == b@.subrange(from as int, to as int),
            d == b@.subrange(start as int, to as int),
            d == (if s.len() > 1 && s[0] == 0x2b {
                s.drop_first()
            } else {
                s
            }),
            d.len() > 0,
            all_digits(d.take(i - start)),
            value == digits_value(d.take(i - start)),
        decreases to - i,
    {
        let c = b[i];
        let ghost k = i - start;
        proof {
            assert(d.take(k + 1).drop_last() =~= d.take(k));
            assert(d[k] == c);
        }
        if c < 0x30 || c > 0x39 {
            assert(!all_digits(d));
            return None;
        }
        let digit = (c - 0x30) as u64;
        if value > 1844674407370955161 || (value == 1844674407370955161 && digit > 5) {
            proof {
                assert(digits_value(d.take(k + 1)) == value * 10 + digit);
                if all_digits(d) {
                    lemma_digits_value_grows(d, k + 1);
                }
            }
            return None;
        }
        value = value * 10 + digit;
        proof {
            assert forall|j: int| 0 <= j < k + 1 implies 0x30 <= #[trigger] d.take(k + 1)[j]
                <= 0x39 by {
                if j < k {
                    assert(d.take(k + 1)[j] == d.take(k)[j]);
                }
            }
        }
        i = i + 1;
    }
    assert(d.take(to - start) =~= d);
    Some(value)
}

/// The sender id of a `KIND:sender:...` message: its second `:`-separated
/// field read as a `u64`; `None` when there is no such field or it is not a
/// number that fits.
pub fn extract_sender_from_message(message: &str) -> (r: Option<u64>)
    ensures
        r == message_sender(message.spec_bytes()),
{
    let b = message.as_bytes();
    let first = find_separator(b, 0);
    assert(b@.subrange(0, b@.len() as int) =~= b@);
    if first >= b.len() {
        return None;
    }
    let end = find_separator(b, first + 1);
    proof {
        let rest = b@.subrange(first + 1, b@.len() as int);
        lemma_separator_index(rest);
        assert(rest.subrange(0, separator_index(rest)) =~= b@.subrange(first + 1, end as int));
    }
    parse_u64_decimal(b, first + 1, end)
}

/// `msg` unchanged when it has at most `max_len` bytes; otherwise its first
/// `max_len` bytes followed by `...`. The cut must fall between characters.
pub fn truncate_message(msg: &str, max_len: usize) -> (r: String)
    requires
        msg.spec_bytes().len() <= max_len || is_char_boundary(msg.spec_bytes(), max_len as int),
    ensures
        msg.spec_bytes().len() <= max_len ==> r@ == msg@,
        msg.spec_bytes().len() > max_len ==> r@ == decode_utf8(
            msg.spec_bytes().subrange(0, max_len as int),
        ) + "..."@,
{
    let bytes = msg.as_bytes();
    if bytes.len() > max_len {
        let (head, _tail) = msg.split_at(max_len);
        proof {
            encode_utf8_decode_utf8(head@);
        }
        head.to_owned().concat("...")
    } else {
        msg.to_owned()
    }
}

/// The kinds of message that a receiver reacts to.
#[derive(Clone, Copy, Debug, PartialEq, Eq, Structural)]
pub enum MessageKind {
    /// Starts with `GROUP:`.
    Group,
    /// Starts with `TEAM:`.
    Team,
    /// Starts with `FORMATION`.
    Formation,
    /// Anything else.
    Other,
}

/// `GROUP:` in bytes.
pub open spec fn group_tag() -> Seq<u8> {
    seq![0x47u8, 0x52u8, 0x4fu8, 0x55u8, 0x50u8, 0x3au8]
}

/// `TEAM:` in bytes.
pub open spec fn team_tag() -> Seq<u8> {
    seq![0x54u8, 0x45u8, 0x41u8, 0x4du8, 0x3au8]
}

/// `FORMATION` in bytes.
pub open spec fn formation_tag() -> Seq<u8> {
    seq![0x46u8, 0x4fu8, 0x52u8, 0x4du8, 0x41u8, 0x54u8, 0x49u8, 0x4fu8, 0x4eu8]
}

/// Whether `b` begins with `tag`.
pub open spec fn has_prefix(b: Seq<u8>, tag: Seq<u8>) -> bool {
    tag.len() <= b.len() && b.subrange(0, tag.len() as int) == tag
}

/// The kind of the message with bytes `b`, the first matching tag winning.
pub open spec fn kind_of(b: Seq<u8>) -> MessageKind {
    if has_prefix(b, group_tag()) {
        MessageKind::Group
    } else if has_prefix(b, team_tag()) {
        MessageKind::Team
    } else if has_prefix(b, formation_tag()) {
        MessageKind::Formation
    } else {
        MessageKind::Other
    }
}

/// Whether `b` begins with the bytes of `tag`.
fn starts_with_tag(b: &[u8], tag: &[u8]) -> (r: bool)
    ensures
        r == has_prefix(b@, tag@),
{
    if tag.len() > b.len() {
        return false;
    }
    let mut i: usize = 0;
    while i < tag.len()
        invariant
            i <= tag@.len() <= b@.len(),
            forall|k: int| 0 <= k < i ==> b@[k] == tag@[k],
        decreases tag@.len() - i,
    {
        if b[i] != tag[i] {
            assert(b@.subrange(0, tag@.len() as int)[i as int] != tag@[i as int]);
            return false;
        }
        i = i + 1;
    }
    assert(b@.subrange(0, tag@.len() as int) =~= tag@);
    true
}

/// The kind of `message`, by its leading tag.
pub fn message_kind(message: &str) -> (r: MessageKind)
    ensures
        r == kind_of(message.spec_bytes()),
{
    let b = message.as_bytes();
    let group: [u8; 6] = [0x47, 0x52, 0x4f, 0x55, 0x50, 0x3a];
    let team: [u8; 5] = [0x54, 0x45, 0x41, 0x4d, 0x3a];
    let formation: [u8; 9] = [0x46, 0x4f, 0x52, 0x4d, 0x41, 0x54, 0x49, 0x4f, 0x4e];
    assert(group@ =~= group_tag());
    assert(team@ =~= team_tag());
    assert(formation@ =~= formation_tag());
    if starts_with_tag(b, group.as_slice()) {
        MessageKind::Group
    } else if starts_with_tag(b, team.as_slice()) {
        MessageKind::Team
    } else if starts_with_tag(b, formation.as_slice()) {
        MessageKind::Formation
    } else {
        MessageKind::Other
    }
}

/// Adds `candidate` to a group that `self_id` is forming, unless it is the
/// former itself or already a member; says whether it was added.
pub fn admit_member(group: &mut Vec<u64>, candidate: u64, self_id: u64) -> (added: bool)
    ensures
        added == (candidate != self_id && !old(group)@.contains(candidate)),
        final(group)@ == (if added {
            old(group)@.push(candidate)
        } else {
            old(group)@
        }),
        old(group)@.no_duplicates() && !old(group)@.contains(self_id) ==> {
            &&& final(group)@.no_duplicates()
            &&& !final(group)@.contains(self_id)
        },
{
    if candidate == self_id {
        return false;
    }
    let mut i: usize = 0;
    while i < group.len()
        invariant
            i <= group@.len(),
            group@ == old(group)@,
            forall|k: int| 0 <= k < i ==> group@[k] != candidate,
        decreases group@.len() - i,
    {
        if group[i] == candidate {
            assert(group@[i as int] == candidate);
            return false;
        }
        i = i + 1;
    }
    group.push(candidate);
    proof {
        let g = group@;
        assert(g.last() == candidate);
        if old(group)@.no_duplicates() {
            assert forall|a: int, b: int| 0 <= a < b < g.len() implies g[a] != g[b] by {
                assert(g[a] == old(group)@[a]);
                if b == g.len() - 1 {
                    assert(old(group)@[a] != candidate);
                } else {
                    assert(old(group)@[a] != old(group)@[b]);
                }
            }
        }
        if !old(group)@.contains(self_id) {
            assert forall|k: int| 0 <= k < g.len() implies g[k] != self_id by {
                if k < g.len() - 1 {
                    assert(g[k] == old(group)@[k]);
                }
            }
        }
    }
    true
}

} // verus!
