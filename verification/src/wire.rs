//! The wire format: one JSON text per logical message, framed as one
//! binary message by the transport. A server sends exactly two message
//! shapes: the full initial state once per connection, and one change
//! set per applied batch. Encoding is deterministic: the same message
//! value always serializes to the same bytes.

use vstd::prelude::*;

use vstd::string::StringSliceAdditionalSpecFns;
use vstd::string::StrSliceExecFns;
use vstd::utf8::encode_utf8;

use crate::diff::BoardChangesV;
use crate::state::{view_snaps, NamedSnapshot, NamedSnapshotV};
use crate::types::{
    score_in_range, view_entries, AuthorId, AuthorKey, EntryV, LeaderboardEloEntry,
    LeaderboardElos,
};

verus! {

/// The UTF-8 bytes of a string literal.
pub open spec fn str_bytes(s: &str) -> Seq<u8> {
    s.spec_bytes()
}

/// A hexadecimal digit, lower case.
pub open spec fn hex_digit(n: int) -> u8 {
    if n < 10 {
        (48 + n) as u8
    } else {
        (87 + n) as u8
    }
}

/// How one byte of string content appears inside a JSON string: the
/// quote and the backslash are escaped, control bytes become a
/// `\u00..` escape, everything else (including the bytes of multi-byte
/// UTF-8 sequences) passes through.
pub open spec fn json_escape_byte(b: u8) -> Seq<u8> {
    if b == 34 {
        seq![92u8, 34u8]
    } else if b == 92 {
        seq![92u8, 92u8]
    } else if b < 32 {
        seq![92u8, 117u8, 48u8, 48u8, hex_digit(b as int / 16), hex_digit(b as int % 16)]
    } else {
        seq![b]
    }
}

/// A whole string content, escaped byte by byte.
pub open spec fn json_escape(s: Seq<u8>) -> Seq<u8>
    decreases s.len(),
{
    if s.len() == 0 {
        Seq::empty()
    } else {
        json_escape(s.drop_last()) + json_escape_byte(s.last())
    }
}

/// A JSON string: quoted, escaped content.
pub open spec fn json_string(s: Seq<u8>) -> Seq<u8> {
    seq![34u8] + json_escape(s) + seq![34u8]
}

/// A leaderboard name or author identifier as a JSON string.
pub open spec fn json_name(n: Seq<char>) -> Seq<u8> {
    json_string(encode_utf8(n))
}

/// The decimal digits of a non-negative number.
pub open spec fn dec_digits(n: int) -> Seq<u8>
    decreases n,
{
    if n <= 9 {
        seq![(48 + if 0 <= n { n } else { 0 }) as u8]
    } else {
        dec_digits(n / 10).push((48 + n % 10) as u8)
    }
}

/// A (possibly negative) integer in JSON.
pub open spec fn json_int(v: int) -> Seq<u8> {
    if v < 0 {
        seq![45u8] + dec_digits(-v)
    } else {
        dec_digits(v)
    }
}

/// An author key on the wire.
pub open spec fn json_author(a: AuthorKey) -> Seq<u8> {
    match a {
        AuthorKey::Twitch(s) => json_name(s),
    }
}

/// One ranked position on the wire.
pub open spec fn json_entry(e: EntryV) -> Seq<u8> {
    str_bytes("{\"author_id\":") + json_author(e.author) + str_bytes(",\"elo\":") + json_int(e.elo)
        + str_bytes("}")
}

/// A comma-separated list of ranked positions.
pub open spec fn json_entry_list(entries: Seq<EntryV>) -> Seq<u8>
    decreases entries.len(),
{
    if entries.len() == 0 {
        Seq::empty()
    } else if entries.len() == 1 {
        json_entry(entries[0])
    } else {
        json_entry_list(entries.drop_last()) + str_bytes(",") + json_entry(entries.last())
    }
}

/// One full ordered snapshot on the wire.
pub open spec fn json_snapshot(entries: Seq<EntryV>) -> Seq<u8> {
    str_bytes("[") + json_entry_list(entries) + str_bytes("]")
}

/// One named snapshot as a JSON object member.
pub open spec fn json_board(b: NamedSnapshotV) -> Seq<u8> {
    json_name(b.name) + str_bytes(":") + json_snapshot(b.entries)
}

/// The comma-separated members of the initial-state object.
pub open spec fn json_board_list(boards: Seq<NamedSnapshotV>) -> Seq<u8>
    decreases boards.len(),
{
    if boards.len() == 0 {
        Seq::empty()
    } else if boards.len() == 1 {
        json_board(boards[0])
    } else {
        json_board_list(boards.drop_last()) + str_bytes(",") + json_board(boards.last())
    }
}

/// The initial-state message: the complete mapping from leaderboard
/// name to ordered snapshot, sent exactly once per connection.
pub open spec fn json_initial(boards: Seq<NamedSnapshotV>) -> Seq<u8> {
    str_bytes("{\"type\":\"initial_leaderboards\",\"data\":{\"leaderboards\":{") + json_board_list(
        boards,
    ) + str_bytes("}}}")
}

/// One changed position as a JSON object member keyed by its rank.
pub open spec fn json_pos_entry(c: (int, EntryV)) -> Seq<u8> {
    str_bytes("\"") + dec_digits(c.0) + str_bytes("\":") + json_entry(c.1)
}

/// The comma-separated changed positions of one leaderboard.
pub open spec fn json_pos_list(changes: Seq<(int, EntryV)>) -> Seq<u8>
    decreases changes.len(),
{
    if changes.len() == 0 {
        Seq::empty()
    } else if changes.len() == 1 {
        json_pos_entry(changes[0])
    } else {
        json_pos_list(changes.drop_last()) + str_bytes(",") + json_pos_entry(changes.last())
    }
}

/// One leaderboard's change set as a JSON object member.
pub open spec fn json_change_board(b: BoardChangesV) -> Seq<u8> {
    json_name(b.name) + str_bytes(":{") + json_pos_list(b.changes) + str_bytes("}")
}

/// The comma-separated members of the change-set object.
pub open spec fn json_change_board_list(boards: Seq<BoardChangesV>) -> Seq<u8>
    decreases boards.len(),
{
    if boards.len() == 0 {
        Seq::empty()
    } else if boards.len() == 1 {
        json_change_board(boards[0])
    } else {
        json_change_board_list(boards.drop_last()) + str_bytes(",") + json_change_board(
            boards.last(),
        )
    }
}

/// The change message: the mapping from touched leaderboard name to its
/// changed positions, sent once per applied batch.
pub open spec fn json_changes(boards: Seq<BoardChangesV>) -> Seq<u8> {
    str_bytes("{\"type\":\"changes\",\"data\":{\"changes\":{") + json_change_board_list(boards)
        + str_bytes("}}}")
}

/// Append the UTF-8 bytes of a literal piece of the message skeleton.
fn push_str_bytes(out: &mut Vec<u8>, s: &str)
    ensures
        final(out)@ == old(out)@ + str_bytes(s),
{
    let mut b = s.as_bytes_vec();
    out.append(&mut b);
}

/// One hexadecimal digit, lower case.
fn hex_digit_exec(n: u8) -> (r: u8)
    requires
        n < 16,
    ensures
        r == hex_digit(n as int),
{
    if n < 10 {
        48 + n
    } else {
        87 + n
    }
}

/// Append string content, escaping as JSON demands.
fn push_escaped(out: &mut Vec<u8>, bytes: &Vec<u8>)
    ensures
        final(out)@ == old(out)@ + json_escape(bytes@),
{
    let mut i: usize = 0;
    proof {
        assert(json_escape(bytes@.take(0)) =~= Seq::<u8>::empty());
        assert(out@ =~= old(out)@ + json_escape(bytes@.take(0)));
    }
    while i < bytes.len()
        invariant
            i <= bytes@.len(),
            out@ == old(out)@ + json_escape(bytes@.take(i as int)),
        decreases bytes@.len() - i,
    {
        let b = bytes[i];
        let ghost before = out@;
        if b == 34 {
            out.push(92);
            out.push(34);
        } else if b == 92 {
            out.push(92);
            out.push(92);
        } else if b < 32 {
            out.push(92);
            out.push(117);
            out.push(48);
            out.push(48);
            out.push(hex_digit_exec(b / 16));
            out.push(hex_digit_exec(b % 16));
        } else {
            out.push(b);
        }
        proof {
            assert(out@ =~= before + json_escape_byte(b));
            assert(bytes@.take(i as int + 1).drop_last() =~= bytes@.take(i as int));
            assert(bytes@.take(i as int + 1).last() == b);
            assert(out@ =~= old(out)@ + json_escape(bytes@.take(i as int + 1)));
        }
        i = i + 1;
    }
    proof {
        assert(bytes@.take(bytes@.len() as int) =~= bytes@);
    }
}

/// Append a whole JSON string for the given text.
fn push_json_string(out: &mut Vec<u8>, s: &str)
    ensures
        final(out)@ == old(out)@ + json_string(s.spec_bytes()),
{
    out.push(34);
    let b = s.as_bytes_vec();
    push_escaped(out, &b);
    out.push(34);
    proof {
        assert(final(out)@ =~= old(out)@ + json_string(s.spec_bytes()));
    }
}

/// Append the decimal digits of a number.
fn push_u64(out: &mut Vec<u8>, n: u64)
    ensures
        final(out)@ == old(out)@ + dec_digits(n as int),
    decreases n,
{
    if n >= 10 {
        push_u64(out, n / 10);
    }
    out.push(48 + (n % 10) as u8);
    proof {
        assert(final(out)@ =~= old(out)@ + dec_digits(n as int));
    }
}

/// Append a signed score value.
fn push_json_int(out: &mut Vec<u8>, v: i64)
    requires
        score_in_range(v as int),
    ensures
        final(out)@ == old(out)@ + json_int(v as int),
{
    if v < 0 {
        out.push(45);
        let m: u64 = (-(v as i128)) as u64;
        proof {
            assert(m as int == -(v as int));
        }
        push_u64(out, m);
        proof {
            assert(final(out)@ =~= old(out)@ + json_int(v as int));
        }
    } else {
        push_u64(out, v as u64);
    }
}

/// Append one author key.
fn push_author(out: &mut Vec<u8>, a: &AuthorId)
    ensures
        final(out)@ == old(out)@ + json_author(a@),
{
    match a {
        AuthorId::Twitch(t) => {
            push_json_string(out, t.get().as_str());
        },
    }
}

/// Append one ranked position.
fn push_entry(out: &mut Vec<u8>, e: &LeaderboardEloEntry)
    ensures
        final(out)@ == old(out)@ + json_entry(e@),
{
    push_str_bytes(out, "{\"author_id\":");
    push_author(out, &e.author_id);
    push_str_bytes(out, ",\"elo\":");
    push_json_int(out, e.elo.get());
    push_str_bytes(out, "}");
    proof {
        assert(final(out)@ =~= old(out)@ + json_entry(e@));
    }
}

/// Append one ordered snapshot.
fn push_snapshot(out: &mut Vec<u8>, entries: &LeaderboardElos)
    ensures
        final(out)@ == old(out)@ + json_snapshot(view_entries(entries@)),
{
    let ghost ev = view_entries(entries@);
    push_str_bytes(out, "[");
    let ghost o1 = out@;
    let mut i: usize = 0;
    proof {
        assert(json_entry_list(ev.take(0)) =~= Seq::<u8>::empty());
        assert(out@ =~= o1 + json_entry_list(ev.take(0)));
    }
    while i < entries.len()
        invariant
            i <= entries@.len(),
            ev == view_entries(entries@),
            out@ == o1 + json_entry_list(ev.take(i as int)),
        decreases entries@.len() - i,
    {
        let ghost before = out@;
        if i > 0 {
            push_str_bytes(out, ",");
        }
        push_entry(out, &entries[i]);
        proof {
            assert(ev.take(i as int + 1).drop_last() =~= ev.take(i as int));
            assert(ev.take(i as int + 1).last() == ev[i as int]);
            if i == 0 {
                assert(out@ =~= o1 + json_entry_list(ev.take(1)));
            } else {
                assert(out@ =~= o1 + json_entry_list(ev.take(i as int + 1)));
            }
        }
        i = i + 1;
    }
    push_str_bytes(out, "]");
    proof {
        assert(ev.take(entries@.len() as int) =~= ev);
        assert(final(out)@ =~= old(out)@ + json_snapshot(ev));
    }
}

/// Serialize the initial-state message for a freshly read copy of the
/// complete shared state.
pub fn encode_initial_leaderboards(boards: &Vec<NamedSnapshot>) -> (r: Vec<u8>)
    ensures
        r@ == json_initial(view_snaps(boards@)),
{
    let ghost bv = view_snaps(boards@);
    let mut out: Vec<u8> = Vec::new();
    push_str_bytes(&mut out, "{\"type\":\"initial_leaderboards\",\"data\":{\"leaderboards\":{");
    let ghost o1 = out@;
    let mut i: usize = 0;
    proof {
        assert(json_board_list(bv.take(0)) =~= Seq::<u8>::empty());
        assert(out@ =~= o1 + json_board_list(bv.take(0)));
    }
    while i < boards.len()
        invariant
            i <= boards@.len(),
            bv == view_snaps(boards@),
            out@ == o1 + json_board_list(bv.take(i as int)),
        decreases boards@.len() - i,
    {
        let ghost before = out@;
        if i > 0 {
            push_str_bytes(&mut out, ",");
        }
        let b = &boards[i];
        push_json_string(&mut out, b.name.get().as_str());
        push_str_bytes(&mut out, ":");
        push_snapshot(&mut out, &b.entries);
        proof {
            assert(bv.take(i as int + 1).drop_last() =~= bv.take(i as int));
            assert(bv.take(i as int + 1).last() == bv[i as int]);
            assert(json_board(bv[i as int]) =~= json_name(bv[i as int].name) + str_bytes(":")
                + json_snapshot(bv[i as int].entries));
            if i == 0 {
                assert(out@ =~= o1 + json_board_list(bv.take(1)));
            } else {
                assert(out@ =~= o1 + json_board_list(bv.take(i as int + 1)));
            }
        }
        i = i + 1;
    }
    push_str_bytes(&mut out, "}}}");
    proof {
        assert(bv.take(boards@.len() as int) =~= bv);
        assert(out@ =~= json_initial(bv));
    }
    out
}

/// Serialize one change message for the change set of one applied
/// batch.
#[verifier::rlimit(60)]
pub fn encode_changes(changes: &crate::diff::LeaderboardsChanges) -> (r: Vec<u8>)
    ensures
        r@ == json_changes(changes@),
{
    let ghost cv = changes@;
    let mut out: Vec<u8> = Vec::new();
    push_str_bytes(&mut out, "{\"type\":\"changes\",\"data\":{\"changes\":{");
    let ghost o1 = out@;
    let mut i: usize = 0;
    proof {
        assert(json_change_board_list(cv.take(0)) =~= Seq::<u8>::empty());
        assert(out@ =~= o1 + json_change_board_list(cv.take(0)));
    }
    while i < changes.boards.len()
        invariant
            i <= changes.boards@.len(),
            cv == changes@,
            cv.len() == changes.boards@.len(),
            out@ == o1 + json_change_board_list(cv.take(i as int)),
        decreases changes.boards@.len() - i,
    {
        let ghost before = out@;
        if i > 0 {
            push_str_bytes(&mut out, ",");
        }
        let b = &changes.boards[i];
        push_json_string(&mut out, b.name.get().as_str());
        push_str_bytes(&mut out, ":{");
        let ghost o2 = out@;
        let mut k: usize = 0;
        proof {
            assert(json_pos_list(cv[i as int].changes.take(0)) =~= Seq::<u8>::empty());
            assert(out@ =~= o2 + json_pos_list(cv[i as int].changes.take(0)));
        }
        while k < b.changes.len()
            invariant
                k <= b.changes@.len(),
                cv == changes@,
                i < cv.len(),
                b@ == cv[i as int],
                cv[i as int].changes.len() == b.changes@.len(),
                out@ == o2 + json_pos_list(cv[i as int].changes.take(k as int)),
            decreases b.changes@.len() - k,
        {
            let ghost pcs = cv[i as int].changes;
            let ghost before_k = out@;
            if k > 0 {
                push_str_bytes(&mut out, ",");
            }
            let c = &b.changes[k];
            push_str_bytes(&mut out, "\"");
            push_u64(&mut out, c.position as u64);
            push_str_bytes(&mut out, "\":");
            push_entry(&mut out, &c.entry);
            proof {
                assert(pcs[k as int] == (c.position as int, c.entry@));
                assert(pcs.take(k as int + 1).drop_last() =~= pcs.take(k as int));
                assert(pcs.take(k as int + 1).last() == pcs[k as int]);
                assert(json_pos_entry(pcs[k as int]) =~= str_bytes("\"") + dec_digits(
                    c.position as int,
                ) + str_bytes("\":") + json_entry(c.entry@));
                if k == 0 {
                    assert(out@ =~= o2 + json_pos_list(pcs.take(1)));
                } else {
                    assert(out@ =~= o2 + json_pos_list(pcs.take(k as int + 1)));
                }
            }
            k = k + 1;
        }
        push_str_bytes(&mut out, "}");
        proof {
            let pcs = cv[i as int].changes;
            assert(pcs.take(pcs.len() as int) =~= pcs);
            assert(cv.take(i as int + 1).drop_last() =~= cv.take(i as int));
            assert(cv.take(i as int + 1).last() == cv[i as int]);
            assert(json_change_board(cv[i as int]) =~= json_name(cv[i as int].name) + str_bytes(
                ":{",
            ) + json_pos_list(pcs) + str_bytes("}"));
            if i == 0 {
                assert(out@ =~= o1 + json_change_board_list(cv.take(1)));
            } else {
                assert(out@ =~= o1 + json_change_board_list(cv.take(i as int + 1)));
            }
        }
        i = i + 1;
    }
    push_str_bytes(&mut out, "}}}");
    proof {
        assert(cv.take(changes.boards@.len() as int) =~= cv);
        assert(out@ =~= json_changes(cv));
    }
    out
}

} // verus!
